//! A jump orb: a circular trigger the player may fire once by overlapping
//! it while holding the jump input, gaining a fresh jump impulse mid-air.

use vstd::prelude::*;

use crate::constants::COORD_LIMIT;
use crate::vector::Vector;

verus! {

/// A circular one-shot trigger; only `pos.x` changes as the world
/// scrolls, and `activated` never returns to `false`.
#[derive(Clone, Copy, Debug, PartialEq, Eq, Structural)]
pub struct Orb {
    /// Center of the circle.
    pub pos: Vector,
    /// Diameter.
    pub d: i64,
    /// Whether the orb has already fired; a fired orb never fires again.
    pub activated: bool,
}

impl Orb {
    /// The circle lies within the coordinate range; the diameter is even,
    /// so the radius is a whole number of units.
    pub open spec fn wf(self) -> bool {
        &&& self.pos.in_range()
        &&& 0 <= self.d <= COORD_LIMIT
        &&& self.d % 2 == 0
        &&& -COORD_LIMIT <= self.pos.x - self.d / 2
        &&& self.pos.x + self.d / 2 <= COORD_LIMIT
    }

    pub fn new(pos: Vector, d: i64) -> (o: Orb)
        ensures
            o == (Orb { pos, d, activated: false }),
    {
        Orb { pos, d, activated: false }
    }

    /// Decides well-formedness.
    pub fn is_wf(&self) -> (r: bool)
        ensures
            r == self.wf(),
    {
        -COORD_LIMIT <= self.pos.x && self.pos.x <= COORD_LIMIT && -COORD_LIMIT <= self.pos.y
            && self.pos.y <= COORD_LIMIT && 0 <= self.d && self.d <= COORD_LIMIT && self.d % 2 == 0
            && -COORD_LIMIT <= self.pos.x - self.d / 2 && self.pos.x <= COORD_LIMIT - self.d / 2
    }
}

} // verus!
