//! An axis-aligned rectangular block.  The player may rest on its landing
//! face (top under normal gravity, bottom under flipped gravity); touching
//! any other face is fatal.

use vstd::prelude::*;

use crate::constants::COORD_LIMIT;
use crate::vector::Vector;

verus! {

/// A static rectangle; only `pos.x` changes as the world scrolls.
#[derive(Clone, Copy, Debug, PartialEq, Eq, Structural)]
pub struct Block {
    /// Top-left corner.
    pub pos: Vector,
    /// Width and height.
    pub size: Vector,
}

impl Block {
    /// The whole rectangle lies within the coordinate range and has a
    /// non-negative extent.
    pub open spec fn wf(self) -> bool {
        &&& self.pos.in_range()
        &&& 0 <= self.size.x <= COORD_LIMIT
        &&& 0 <= self.size.y <= COORD_LIMIT
        &&& self.pos.x + self.size.x <= COORD_LIMIT
        &&& self.pos.y + self.size.y <= COORD_LIMIT
    }

    pub fn new(pos: Vector, size: Vector) -> (b: Block)
        ensures
            b == (Block { pos, size }),
    {
        Block { pos, size }
    }

    /// Decides well-formedness.
    pub fn is_wf(&self) -> (r: bool)
        ensures
            r == self.wf(),
    {
        -COORD_LIMIT <= self.pos.x && self.pos.x <= COORD_LIMIT && -COORD_LIMIT <= self.pos.y
            && self.pos.y <= COORD_LIMIT && 0 <= self.size.x && self.size.x <= COORD_LIMIT
            && 0 <= self.size.y && self.size.y <= COORD_LIMIT && self.pos.x <= COORD_LIMIT
            - self.size.x && self.pos.y <= COORD_LIMIT - self.size.y
    }
}

} // verus!
