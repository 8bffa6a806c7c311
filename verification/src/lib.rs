use vstd::prelude::*;

pub mod bezier_surface;
pub mod rendering;
pub mod util;
pub mod world;

verus! {

/// Absolute value of a mathematical integer.
pub open spec fn abs_int(x: int) -> int {
    if x < 0 {
        -x
    } else {
        x
    }
}

/// Whether a mathematical integer is representable as an `i32`.
pub open spec fn fits_i32(x: int) -> bool {
    i32::MIN <= x <= i32::MAX
}

/// The absolute value of an `i32`, as `i32::abs` computes it.
pub fn abs_i32(x: i32) -> (a: i32)
    requires
        x != i32::MIN,
    ensures
        a == abs_int(x as int),
{
    if x < 0 {
        -x
    } else {
        x
    }
}

} // verus!
