//! 2D integer vector used for positions, sizes, speeds and accelerations,
//! together with the clamped coordinate arithmetic of the simulation.

use vstd::prelude::*;

use crate::constants::COORD_LIMIT;

verus! {

/// A point or displacement in sub-pixel units.
#[derive(Clone, Copy, Debug, PartialEq, Eq, Structural)]
pub struct Vector {
    pub x: i64,
    pub y: i64,
}

/// `v` confined to `[-COORD_LIMIT, COORD_LIMIT]`.
pub open spec fn clamp_coord(v: int) -> int {
    if v > COORD_LIMIT {
        COORD_LIMIT as int
    } else if v < -COORD_LIMIT {
        -COORD_LIMIT as int
    } else {
        v
    }
}

/// `v` confined to `[-COORD_LIMIT, COORD_LIMIT]`.
pub fn clamped(v: i64) -> (r: i64)
    ensures
        r == clamp_coord(v as int),
{
    if v > COORD_LIMIT {
        COORD_LIMIT
    } else if v < -COORD_LIMIT {
        -COORD_LIMIT
    } else {
        v
    }
}

/// `a + b` confined to `[-COORD_LIMIT, COORD_LIMIT]`.  The inputs may
/// stand anywhere within twice the limit, so a sum of two stored
/// coordinates never overflows on the way to the clamp.
pub fn clamped_add(a: i64, b: i64) -> (r: i64)
    requires
        -2 * COORD_LIMIT <= a <= 2 * COORD_LIMIT,
        -2 * COORD_LIMIT <= b <= 2 * COORD_LIMIT,
    ensures
        r == clamp_coord(a + b),
{
    let s: i64 = a + b;
    if s > COORD_LIMIT {
        COORD_LIMIT
    } else if s < -COORD_LIMIT {
        -COORD_LIMIT
    } else {
        s
    }
}

/// The squared Euclidean distance between `a` and `b`.
pub open spec fn dist_sq(a: Vector, b: Vector) -> int {
    (a.x - b.x) * (a.x - b.x) + (a.y - b.y) * (a.y - b.y)
}

impl Vector {
    /// Both components lie in `[-b, b]`.
    pub open spec fn in_span(self, b: int) -> bool {
        &&& -b <= self.x <= b
        &&& -b <= self.y <= b
    }

    /// Both components lie in the stored coordinate range.
    pub open spec fn in_range(self) -> bool {
        self.in_span(COORD_LIMIT as int)
    }

    pub fn new(x: i64, y: i64) -> (v: Vector)
        ensures
            v == (Vector { x, y }),
    {
        Vector { x, y }
    }

    /// The Euclidean distance to `other`, rounded down to a whole number
    /// of units: the result is the integer square root of the squared
    /// distance.
    pub fn dist(&self, other: &Vector) -> (d: i64)
        requires
            self.in_range(),
            other.in_range(),
        ensures
            0 <= d,
            d * d <= dist_sq(*self, *other),
            dist_sq(*self, *other) < (d + 1) * (d + 1),
    {
        let dx: i64 = self.x - other.x;
        let dy: i64 = self.y - other.y;
        proof {
            square_bounds(dx as int, 2 * COORD_LIMIT);
            square_bounds(dy as int, 2 * COORD_LIMIT);
        }
        let sq: u128 = (dx as i128 * dx as i128) as u128 + (dy as i128 * dy as i128) as u128;
        let r: u64 = isqrt(sq);
        r as i64
    }
}

/// The square of a factor bounded by `b` lies in `[0, b * b]`.
proof fn square_bounds(x: int, b: int)
    requires
        0 <= b,
        -b <= x <= b,
    ensures
        0 <= x * x <= b * b,
{
    assert(0 <= x * x <= b * b) by (nonlinear_arith)
        requires
            0 <= b,
            -b <= x <= b,
    ;
}

/// The integer square root of `n`, by binary search.
fn isqrt(n: u128) -> (r: u64)
    requires
        n < 36_000_000_000_000_000_000,
    ensures
        r <= 6_000_000_000,
        r * r <= n,
        n < (r + 1) * (r + 1),
{
    let mut lo: u64 = 0;
    let mut hi: u64 = 6_000_000_000;
    proof {
        assert(6_000_000_001int * 6_000_000_001int > n) by (nonlinear_arith)
            requires
                n < 36_000_000_000_000_000_000,
        ;
    }
    while lo < hi
        invariant
            lo <= hi <= 6_000_000_000,
            lo * lo <= n,
            n < (hi + 1) * (hi + 1),
        decreases hi - lo,
    {
        let mid: u64 = lo + (hi - lo + 1) / 2;
        proof {
            square_bounds(mid as int, 6_000_000_000);
        }
        if (mid as u128) * (mid as u128) <= n {
            lo = mid;
        } else {
            hi = mid - 1;
        }
    }
    lo
}

} // verus!
