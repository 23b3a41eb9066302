//! A deadly spike: an isosceles triangle standing on a horizontal base,
//! its apex pointing away from the ground plane it was placed for.
//!
//! The corners are a pure function of position, extent and orientation,
//! recomputed on demand, so they can never drift from the spike's
//! position as it scrolls.

use vstd::prelude::*;

use crate::constants::COORD_LIMIT;
use crate::vector::Vector;

verus! {

/// A triangle given by the midpoint of its base, its extent and its
/// orientation; only `pos.x` changes as the world scrolls.
#[derive(Clone, Copy, Debug, PartialEq, Eq, Structural)]
pub struct Spike {
    /// Midpoint of the base.
    pub pos: Vector,
    /// `size.x` is the full base width, `size.y` the height to the apex.
    pub size: Vector,
    /// `false`: placed on the normal ground, apex pointing up (toward
    /// smaller y).  `true`: placed on the flipped ground, apex pointing
    /// down.
    pub flip: bool,
}

impl Spike {
    /// The whole triangle lies within the coordinate range and has a
    /// non-negative extent; the base width is even, so the base corners
    /// are whole numbers of units.
    pub open spec fn wf(self) -> bool {
        &&& self.pos.in_range()
        &&& 0 <= self.size.x <= COORD_LIMIT
        &&& 0 <= self.size.y <= COORD_LIMIT
        &&& self.size.x % 2 == 0
        &&& -COORD_LIMIT <= self.pos.x - self.size.x / 2
        &&& self.pos.x + self.size.x / 2 <= COORD_LIMIT
        &&& -COORD_LIMIT <= self.pos.y - self.size.y
        &&& self.pos.y + self.size.y <= COORD_LIMIT
    }

    /// x coordinate of the left base corner.
    pub open spec fn base_left_x(self) -> int {
        self.pos.x - self.size.x / 2
    }

    /// x coordinate of the right base corner.
    pub open spec fn base_right_x(self) -> int {
        self.pos.x + self.size.x / 2
    }

    /// y coordinate of the apex: above the base for a spike on the normal
    /// ground, below it for one on the flipped ground.
    pub open spec fn apex_y(self) -> int {
        if self.flip {
            self.pos.y + self.size.y
        } else {
            self.pos.y - self.size.y
        }
    }

    /// The three corners as the geometry predicates see them.
    pub open spec fn corners(self) -> [Vector; 3] {
        [
            Vector { x: self.base_left_x() as i64, y: self.pos.y },
            Vector { x: self.base_right_x() as i64, y: self.pos.y },
            Vector { x: self.pos.x, y: self.apex_y() as i64 },
        ]
    }

    pub fn new(pos: Vector, size: Vector, flip: bool) -> (s: Spike)
        ensures
            s == (Spike { pos, size, flip }),
    {
        Spike { pos, size, flip }
    }

    /// Decides well-formedness.
    pub fn is_wf(&self) -> (r: bool)
        ensures
            r == self.wf(),
    {
        -COORD_LIMIT <= self.pos.x && self.pos.x <= COORD_LIMIT && -COORD_LIMIT <= self.pos.y
            && self.pos.y <= COORD_LIMIT && 0 <= self.size.x && self.size.x <= COORD_LIMIT
            && 0 <= self.size.y && self.size.y <= COORD_LIMIT && self.size.x % 2 == 0
            && -COORD_LIMIT <= self.pos.x - self.size.x / 2 && self.pos.x <= COORD_LIMIT
            - self.size.x / 2 && -COORD_LIMIT <= self.pos.y - self.size.y && self.pos.y
            <= COORD_LIMIT - self.size.y
    }

    /// The two base corners and the apex, in that order.
    pub fn vertices(&self) -> (v: [Vector; 3])
        requires
            self.wf(),
        ensures
            v == self.corners(),
            v[0].in_range(),
            v[1].in_range(),
            v[2].in_range(),
    {
        let half_w: i64 = self.size.x / 2;
        let apex: i64 = if self.flip {
            self.pos.y + self.size.y
        } else {
            self.pos.y - self.size.y
        };
        let v: [Vector; 3] = [
            Vector { x: self.pos.x - half_w, y: self.pos.y },
            Vector { x: self.pos.x + half_w, y: self.pos.y },
            Vector { x: self.pos.x, y: apex },
        ];
        proof {
            assert(v@ =~= self.corners()@);
        }
        v
    }
}

} // verus!
