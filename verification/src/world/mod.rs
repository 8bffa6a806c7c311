use vstd::prelude::*;

pub mod hex;
pub mod offset_coords;
pub mod tile;
pub mod world_camera;

verus! {

/// Offset-coordinate convention in which odd columns (or rows) are shoved by
/// half a hex in the positive direction.
pub const EVEN: i32 = 1;

/// Offset-coordinate convention in which odd columns (or rows) are shoved by
/// half a hex in the negative direction.
pub const ODD: i32 = -1;

/// The base amount of resource that a harvested tile yields.
pub const TILE_YIELD: u32 = 1;

/// A tile position in offset coordinates: column `x`, row `y`.
#[derive(Copy, Clone, Debug, PartialEq, Eq, Structural)]
pub struct OffsetTile {
    x: u32,
    y: u32,
}

impl View for OffsetTile {
    type V = (u32, u32);

    closed spec fn view(&self) -> (u32, u32) {
        (self.x, self.y)
    }
}

impl OffsetTile {
    pub fn new(x: u32, y: u32) -> (t: OffsetTile)
        ensures
            t@ == (x, y),
    {
        OffsetTile { x, y }
    }

    pub fn get_x(&self) -> (x: u32)
        ensures
            x == self@.0,
    {
        self.x
    }

    pub fn get_y(&self) -> (y: u32)
        ensures
            y == self@.1,
    {
        self.y
    }
}

} // verus!
