//! Block positions and block-state ids.

use vstd::prelude::*;

verus! {

/// A block position in the world.
#[derive(Clone, Copy, Debug, PartialEq, Eq, Structural, Hash)]
pub struct BlockPos {
    pub x: i32,
    pub y: i32,
    pub z: i32,
}

impl BlockPos {
    pub fn new(x: i32, y: i32, z: i32) -> (r: BlockPos)
        ensures
            r == (BlockPos { x, y, z }),
    {
        BlockPos { x, y, z }
    }

    pub fn x(&self) -> (r: i32)
        ensures
            r == self.x,
    {
        self.x
    }

    pub fn y(&self) -> (r: i32)
        ensures
            r == self.y,
    {
        self.y
    }

    pub fn z(&self) -> (r: i32)
        ensures
            r == self.z,
    {
        self.z
    }

    /// The position one block lower.
    pub fn below(&self) -> (r: BlockPos)
        requires
            self.y > i32::MIN,
        ensures
            r == (BlockPos { x: self.x, y: (self.y - 1) as i32, z: self.z }),
    {
        BlockPos { x: self.x, y: self.y - 1, z: self.z }
    }
}

/// The id of one block state.
#[derive(Clone, Copy, Debug, PartialEq, Eq, Structural, Hash)]
pub struct BlockStateId(pub u16);

} // verus!
