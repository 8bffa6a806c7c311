use vstd::prelude::*;

use crate::abs_int;

verus! {

/// The remainder of `a` divided by `b` as Rust's `%` computes it: truncated
/// division, so the result takes the sign of `a` (`%` on the right is
/// Euclidean: `0 <= x % b < |b|`).
pub open spec fn trunc_rem(a: int, b: int) -> int {
    if a >= 0 {
        a % b
    } else {
        -((-a) % b)
    }
}

/// Whether a mathematical integer is representable as an `isize`.
pub open spec fn fits_isize(x: int) -> bool {
    isize::MIN <= x <= isize::MAX
}

/// When `(offset + step) % size` runs without a panic.
pub open spec fn wrap_ok(offset: int, step: int, size: int) -> bool {
    &&& fits_isize(offset + step)
    &&& size != 0
    &&& !(offset + step == isize::MIN && size == -1)
}

/// The wrapped offset stays strictly inside the world's size, keeps the
/// sign of the unwrapped offset, and differs from it by whole world sizes.
pub proof fn lemma_wrap_bounds(a: int, b: int)
    requires
        b != 0,
    ensures
        -abs_int(b) < trunc_rem(a, b) < abs_int(b),
        a >= 0 ==> trunc_rem(a, b) >= 0,
        a <= 0 ==> trunc_rem(a, b) <= 0,
        (a - trunc_rem(a, b)) % b == 0,
        0 <= a < abs_int(b) ==> trunc_rem(a, b) == a,
{
    assert(0 <= a % b < abs_int(b) && a == b * (a / b) + a % b) by (nonlinear_arith)
        requires
            b != 0,
    ;
    assert(0 <= (-a) % b < abs_int(b) && -a == b * ((-a) / b) + (-a) % b) by (nonlinear_arith)
        requires
            b != 0,
    ;
    if a >= 0 {
        let k = a / b;
        assert((b * k) % b == 0) by (nonlinear_arith)
            requires
                b != 0,
        ;
        if a < abs_int(b) {
            assert(a % b == a) by (nonlinear_arith)
                requires
                    b != 0,
                    0 <= a < abs_int(b),
                    abs_int(b) == (if b < 0 {
                        -b
                    } else {
                        b
                    }),
            ;
        }
    } else {
        let k = -((-a) / b);
        assert(a + (-a) % b == b * k) by (nonlinear_arith)
            requires
                -a == b * ((-a) / b) + (-a) % b,
                k == -((-a) / b),
        ;
        assert((b * k) % b == 0) by (nonlinear_arith)
            requires
                b != 0,
        ;
    }
}

/// A camera over a wrapping world: an offset into a world of a fixed size.
pub struct WorldCamera {
    x_offset: isize,
    y_offset: isize,
    world_size: (isize, isize),
}

impl WorldCamera {
    /// The camera's current offsets.
    pub closed spec fn spec_offsets(&self) -> (int, int) {
        (self.x_offset as int, self.y_offset as int)
    }

    /// The world's size, as the camera holds it.
    pub closed spec fn spec_world_size(&self) -> (int, int) {
        (self.world_size.0 as int, self.world_size.1 as int)
    }

    pub fn new(world_size: (usize, usize)) -> (c: WorldCamera)
        ensures
            c.spec_offsets() == (0int, 0int),
            c.spec_world_size() == ((world_size.0 as isize) as int, (world_size.1 as isize) as int),
    {
        WorldCamera {
            x_offset: 0,
            y_offset: 0,
            world_size: (world_size.0 as isize, world_size.1 as isize),
        }
    }

    /// Moves the camera by `(move_x, move_y)`, wrapping each offset by the
    /// world's size with `%`.
    pub fn move_camera(&mut self, move_x: isize, move_y: isize)
        requires
            wrap_ok(old(self).spec_offsets().0, move_x as int, old(self).spec_world_size().0),
            wrap_ok(old(self).spec_offsets().1, move_y as int, old(self).spec_world_size().1),
        ensures
            final(self).spec_world_size() == old(self).spec_world_size(),
            final(self).spec_offsets() == (
                trunc_rem(old(self).spec_offsets().0 + move_x, old(self).spec_world_size().0),
                trunc_rem(old(self).spec_offsets().1 + move_y, old(self).spec_world_size().1),
            ),
    {
        self.x_offset = (self.x_offset + move_x) % self.world_size.0;
        self.y_offset = (self.y_offset + move_y) % self.world_size.1;
    }

    pub fn offsets(&self) -> (o: (isize, isize))
        ensures
            o.0 == self.spec_offsets().0,
            o.1 == self.spec_offsets().1,
    {
        (self.x_offset, self.y_offset)
    }
}

} // verus!
