//! The player: kinematic state, surface queries against the ground plane
//! and blocks, and fatal-contact checks against blocks, spikes and orbs.

use vstd::prelude::*;

use crate::block::Block;
use crate::constants::{
    COORD_LIMIT, GRAVITY_PER_TICK, GROUND_Y_FLIP, GROUND_Y_NORMAL, JUMP_AHEAD, JUMP_IMPULSE,
    JUMP_SENTINEL, PLAYER_SIZE, PLAYER_START_X, SPEED_PER_TICK,
};
use crate::orb::Orb;
use crate::spike::Spike;
use crate::surface_result::SurfaceResult;
use crate::util::{line_rect, point_in_triangle, polygon_point, segment_hits_rect};
use crate::vector::{clamp_coord, clamped_add, Vector};

verus! {

/// The jump anchor value meaning "no active jump arc".
pub open spec fn sentinel_anchor() -> Vector {
    Vector { x: JUMP_SENTINEL, y: JUMP_SENTINEL }
}

/// `v` confined to `[lo, hi]`.
pub open spec fn clamp_to(v: int, lo: int, hi: int) -> int {
    if v < lo {
        lo
    } else if v > hi {
        hi
    } else {
        v
    }
}

/// The player's kinematic state for one attempt.  `pos` is the center of
/// the square hitbox; `pos.x` never changes, the world scrolls instead.
#[derive(Clone, Copy, Debug, PartialEq, Eq, Structural)]
pub struct Player {
    /// Side of the square hitbox.
    pub size: i64,
    /// Whether the player rests on a surface: raised by the landing
    /// snaps, cleared when a jump starts or gravity flips.
    pub grounded: bool,
    /// Whether gravity pulls toward the upper ground plane.
    pub gravity_flip: bool,
    /// Whether the jump input is held.
    pub jumping: bool,
    /// Terminal: set by fatal contact, cleared only by a fresh attempt.
    pub crashed: bool,
    /// Center of the hitbox.
    pub pos: Vector,
    /// Velocity in units per tick; `vel.x` is the scroll speed.
    pub vel: Vector,
    /// Acceleration in units per tick per tick; `acc.y` is the signed
    /// gravity.
    pub acc: Vector,
    /// Target anchor of the current jump arc, or the sentinel when
    /// grounded with no arc active.
    pub jump: Vector,
}

impl Default for Player {
    fn default() -> (p: Player)
        ensures
            p == Player::initial(),
    {
        Player {
            size: PLAYER_SIZE,
            grounded: true,
            gravity_flip: false,
            jumping: false,
            crashed: false,
            pos: Vector { x: PLAYER_START_X, y: GROUND_Y_NORMAL - PLAYER_SIZE / 2 },
            vel: Vector { x: SPEED_PER_TICK, y: 0 },
            acc: Vector { x: 0, y: GRAVITY_PER_TICK },
            jump: Vector { x: JUMP_SENTINEL, y: JUMP_SENTINEL },
        }
    }
}

impl Player {
    /// The state every attempt starts from: resting on the normal ground
    /// at the fixed on-screen x position, no arc active.
    pub open spec fn initial() -> Player {
        Player {
            size: PLAYER_SIZE,
            grounded: true,
            gravity_flip: false,
            jumping: false,
            crashed: false,
            pos: Vector { x: PLAYER_START_X, y: (GROUND_Y_NORMAL - PLAYER_SIZE / 2) as i64 },
            vel: Vector { x: SPEED_PER_TICK, y: 0 },
            acc: Vector { x: 0, y: GRAVITY_PER_TICK },
            jump: sentinel_anchor(),
        }
    }

    /// Coordinates and speeds lie in the stored range, the hitbox side is
    /// even and non-negative, the scroll speed is non-negative, and the
    /// acceleration is the gravity constant signed by `gravity_flip`.
    /// Each jump anchor coordinate is either the sentinel or in range.
    pub open spec fn wf(self) -> bool {
        &&& 0 <= self.size <= COORD_LIMIT
        &&& self.size % 2 == 0
        &&& self.pos.in_range()
        &&& self.vel.in_range()
        &&& 0 <= self.vel.x
        &&& self.acc.x == 0
        &&& self.acc.y == if self.gravity_flip {
            -GRAVITY_PER_TICK as int
        } else {
            GRAVITY_PER_TICK as int
        }
        &&& (self.jump.x == JUMP_SENTINEL || -COORD_LIMIT <= self.jump.x <= COORD_LIMIT)
        &&& (self.jump.y == JUMP_SENTINEL || -COORD_LIMIT <= self.jump.y <= COORD_LIMIT)
    }

    /// Half the hitbox side.
    pub open spec fn half(self) -> int {
        self.size / 2
    }

    /// `self` with the `crashed` flag set to `c` and nothing else changed.
    pub open spec fn with_crashed(self, c: bool) -> Player {
        Player { crashed: c, ..self }
    }

    pub fn new() -> (p: Player)
        ensures
            p == Player::initial(),
    {
        Player { ..Default::default() }
    }

    /// Whether the leading edge of the hitbox has reached the active
    /// ground plane.
    pub open spec fn touching_ground(self) -> bool {
        if self.gravity_flip {
            self.pos.y - self.half() <= GROUND_Y_FLIP
        } else {
            self.pos.y + self.half() >= GROUND_Y_NORMAL
        }
    }

    /// The y coordinate of the center when resting on the active ground
    /// plane.
    pub open spec fn ground_rest_y(self) -> int {
        if self.gravity_flip {
            GROUND_Y_FLIP + self.half()
        } else {
            GROUND_Y_NORMAL - self.half()
        }
    }

    /// Whether the player has reached the active ground plane, and where
    /// its center rests on it.
    pub fn on_ground(&self) -> (r: SurfaceResult)
        requires
            self.wf(),
        ensures
            r == (if self.touching_ground() {
                SurfaceResult::OnSurface(self.ground_rest_y() as i64)
            } else {
                SurfaceResult::NotOnSurface
            }),
    {
        let half: i64 = self.size / 2;
        if !self.gravity_flip && self.pos.y + half >= GROUND_Y_NORMAL {
            SurfaceResult::OnSurface(GROUND_Y_NORMAL - half)
        } else if self.gravity_flip && self.pos.y - half <= GROUND_Y_FLIP {
            SurfaceResult::OnSurface(GROUND_Y_FLIP + half)
        } else {
            SurfaceResult::NotOnSurface
        }
    }

    /// Whether the horizontal spans of the player and the block overlap
    /// strictly.
    pub open spec fn spans_overlap_strict(self, b: Block) -> bool {
        &&& self.pos.x + self.half() > b.pos.x
        &&& self.pos.x - self.half() < b.pos.x + b.size.x
    }

    /// Whether the hitbox straddles the block's landing face: the face
    /// lies strictly between the trailing and leading edges.  The strict
    /// band excludes a player already resting on the face, so landing
    /// cannot re-trigger while resting.
    pub open spec fn crossing_landing_face(self, b: Block) -> bool {
        if self.gravity_flip {
            &&& self.pos.y - self.half() < b.pos.y + b.size.y
            &&& self.pos.y + self.half() > b.pos.y + b.size.y
        } else {
            &&& self.pos.y - self.half() < b.pos.y
            &&& self.pos.y + self.half() > b.pos.y
        }
    }

    /// Whether the player lands on the block this tick.
    pub open spec fn lands_on_block(self, b: Block) -> bool {
        self.spans_overlap_strict(b) && self.crossing_landing_face(b)
    }

    /// The y coordinate of the center when resting on the block's landing
    /// face.
    pub open spec fn block_rest_y(self, b: Block) -> int {
        if self.gravity_flip {
            b.pos.y + b.size.y + self.half()
        } else {
            b.pos.y - self.half()
        }
    }

    /// Whether the player lands on `block` this tick, and where its
    /// center rests on the landing face.
    pub fn on_block(&self, block: &Block) -> (r: SurfaceResult)
        requires
            self.wf(),
            block.wf(),
        ensures
            r == (if self.lands_on_block(*block) {
                SurfaceResult::OnSurface(self.block_rest_y(*block) as i64)
            } else {
                SurfaceResult::NotOnSurface
            }),
    {
        let half: i64 = self.size / 2;
        if self.pos.x + half > block.pos.x && self.pos.x - half < block.pos.x + block.size.x {
            if self.gravity_flip {
                let face: i64 = block.pos.y + block.size.y;
                if self.pos.y - half < face && self.pos.y + half > face {
                    return SurfaceResult::OnSurface(face + half);
                }
            } else {
                if self.pos.y - half < block.pos.y && self.pos.y + half > block.pos.y {
                    return SurfaceResult::OnSurface(block.pos.y - half);
                }
            }
        }
        SurfaceResult::NotOnSurface
    }

    /// Whether the hitbox touches the block on its non-landing side: the
    /// spans overlap (non-strictly) and the hitbox straddles the face
    /// opposite the landing face.
    pub open spec fn hits_block_side(self, b: Block) -> bool {
        &&& self.pos.x + self.half() >= b.pos.x
        &&& self.pos.x - self.half() <= b.pos.x + b.size.x
        &&& (if self.gravity_flip {
            self.pos.y + self.half() >= b.pos.y && self.pos.y - self.half() <= b.pos.y
        } else {
            self.pos.y - self.half() <= b.pos.y + b.size.y && self.pos.y + self.half() >= b.pos.y
                + b.size.y
        })
    }

    /// Raises `crashed` when the hitbox touches `block` on its
    /// non-landing side; a landing this tick has already snapped the
    /// player onto the face, which this test excludes.  A crash is
    /// terminal: an already-crashed player stays crashed whatever the
    /// block.
    pub fn check_block_crash(&mut self, block: &Block)
        requires
            old(self).wf(),
            block.wf(),
        ensures
            *final(self) == old(self).with_crashed(old(self).crashed || old(self).hits_block_side(
                *block,
            )),
    {
        let half: i64 = self.size / 2;
        let hit: bool = self.pos.x + half >= block.pos.x && self.pos.x - half <= block.pos.x
            + block.size.x && (if self.gravity_flip {
            self.pos.y + half >= block.pos.y && self.pos.y - half <= block.pos.y
        } else {
            self.pos.y - half <= block.pos.y + block.size.y && self.pos.y + half >= block.pos.y
                + block.size.y
        });
        self.crashed = self.crashed || hit;
    }

    /// Whether the hitbox touches the spike: one of the triangle's three
    /// edges meets the hitbox boundary, or the hitbox's top-left corner
    /// lies inside the triangle.
    pub open spec fn hits_spike(self, s: Spike) -> bool {
        let c = s.corners();
        let bx = self.pos.x - self.half();
        let by = self.pos.y - self.half();
        ||| segment_hits_rect(
            c[0].x as int, c[0].y as int, c[1].x as int, c[1].y as int,
            bx, by, self.size as int, self.size as int,
        )
        ||| segment_hits_rect(
            c[1].x as int, c[1].y as int, c[2].x as int, c[2].y as int,
            bx, by, self.size as int, self.size as int,
        )
        ||| segment_hits_rect(
            c[2].x as int, c[2].y as int, c[0].x as int, c[0].y as int,
            bx, by, self.size as int, self.size as int,
        )
        ||| point_in_triangle(c[0], c[1], c[2], Vector { x: bx as i64, y: by as i64 })
    }

    /// Raises `crashed` when the hitbox touches `spike`.  A crash is
    /// terminal: an already-crashed player stays crashed whatever the
    /// spike.
    pub fn check_spike_crash(&mut self, spike: &Spike)
        requires
            old(self).wf(),
            spike.wf(),
        ensures
            *final(self) == old(self).with_crashed(old(self).crashed || old(self).hits_spike(
                *spike,
            )),
    {
        let v: [Vector; 3] = spike.vertices();
        let half: i64 = self.size / 2;
        let box_pos: Vector = Vector::new(self.pos.x - half, self.pos.y - half);
        let box_size: Vector = Vector::new(self.size, self.size);
        let e0: bool = line_rect(&v[0], &v[1], &box_pos, &box_size);
        let e1: bool = line_rect(&v[1], &v[2], &box_pos, &box_size);
        let e2: bool = line_rect(&v[2], &v[0], &box_pos, &box_size);
        let inside: bool = polygon_point(v, box_pos);
        self.crashed = self.crashed || e0 || e1 || e2 || inside;
    }

    /// Whether the hitbox overlaps the orb's circle: the point of the box
    /// nearest the circle's center lies within one radius of it.
    pub open spec fn overlaps_orb(self, o: Orb) -> bool {
        let nx = clamp_to(o.pos.x as int, self.pos.x - self.half(), self.pos.x + self.half());
        let ny = clamp_to(o.pos.y as int, self.pos.y - self.half(), self.pos.y + self.half());
        (o.pos.x - nx) * (o.pos.x - nx) + (o.pos.y - ny) * (o.pos.y - ny) <= (o.d / 2) * (o.d / 2)
    }

    /// Whether the hitbox overlaps `orb`'s circle.
    pub fn check_orb_collide(&self, orb: &Orb) -> (r: bool)
        requires
            self.wf(),
            orb.wf(),
        ensures
            r == self.overlaps_orb(*orb),
    {
        let half: i64 = self.size / 2;
        let lo_x: i64 = self.pos.x - half;
        let hi_x: i64 = self.pos.x + half;
        let lo_y: i64 = self.pos.y - half;
        let hi_y: i64 = self.pos.y + half;
        let nx: i64 = if orb.pos.x < lo_x {
            lo_x
        } else if orb.pos.x > hi_x {
            hi_x
        } else {
            orb.pos.x
        };
        let ny: i64 = if orb.pos.y < lo_y {
            lo_y
        } else if orb.pos.y > hi_y {
            hi_y
        } else {
            orb.pos.y
        };
        let dx: i128 = orb.pos.x as i128 - nx as i128;
        let dy: i128 = orb.pos.y as i128 - ny as i128;
        let radius: i128 = (orb.d / 2) as i128;
        proof {
            bounded_square(dx as int, 4 * COORD_LIMIT);
            bounded_square(dy as int, 4 * COORD_LIMIT);
            bounded_square(radius as int, COORD_LIMIT as int);
        }
        dx * dx + dy * dy <= radius * radius
    }
    /// The state after integrating one tick of vertical motion: the
    /// vertical speed gains the gravity, the center moves by the new
    /// speed, and a live jump anchor scrolls left with the world.  The
    /// sentinel anchor is left alone, and every result is clamped into
    /// the coordinate range.
    pub open spec fn integrated(self) -> Player {
        let vy = clamp_coord(self.vel.y + self.acc.y);
        let py = clamp_coord(self.pos.y + vy);
        let jx = if self.jump.x == JUMP_SENTINEL {
            self.jump.x as int
        } else {
            clamp_coord(self.jump.x - self.vel.x)
        };
        Player {
            vel: Vector { x: self.vel.x, y: vy as i64 },
            pos: Vector { x: self.pos.x, y: py as i64 },
            jump: Vector { x: jx as i64, y: self.jump.y },
            ..self
        }
    }

    /// Integrates one tick of vertical motion.
    pub fn integrate(&mut self)
        requires
            old(self).wf(),
        ensures
            *final(self) == old(self).integrated(),
            final(self).wf(),
    {
        let vy: i64 = clamped_add(self.vel.y, self.acc.y);
        self.vel.y = vy;
        self.pos.y = clamped_add(self.pos.y, vy);
        if self.jump.x != JUMP_SENTINEL {
            self.jump.x = clamped_add(self.jump.x, -self.vel.x);
        }
    }

    /// The state after the ground check: a player that has reached the
    /// active ground plane snaps onto it, resting with no arc and no
    /// vertical speed; any other player is unchanged.
    pub open spec fn ground_snapped(self) -> Player {
        if self.touching_ground() {
            Player {
                grounded: true,
                jump: sentinel_anchor(),
                pos: Vector { x: self.pos.x, y: self.ground_rest_y() as i64 },
                vel: Vector { x: self.vel.x, y: 0 },
                ..self
            }
        } else {
            self
        }
    }

    /// The state after checking one block for a landing: a player
    /// straddling the landing face snaps onto it, resting with no arc and
    /// no vertical speed; any other player is unchanged.
    pub open spec fn block_snapped(self, b: Block) -> Player {
        if self.lands_on_block(b) {
            Player {
                grounded: true,
                jump: sentinel_anchor(),
                pos: Vector { x: self.pos.x, y: clamp_coord(self.block_rest_y(b)) as i64 },
                vel: Vector { x: self.vel.x, y: 0 },
                ..self
            }
        } else {
            self
        }
    }

    /// The state after a jump starts, from the ground or from an orb: a
    /// fresh anchor is placed ahead of the player at its current height,
    /// the player leaves the ground, and the vertical speed becomes the
    /// jump impulse directed away from the active ground plane.
    pub open spec fn jump_started(self) -> Player {
        Player {
            jump: Vector { x: clamp_coord(self.pos.x + JUMP_AHEAD) as i64, y: self.pos.y },
            grounded: false,
            vel: Vector {
                x: self.vel.x,
                y: if self.gravity_flip {
                    JUMP_IMPULSE
                } else {
                    (-JUMP_IMPULSE) as i64
                },
            },
            ..self
        }
    }

    /// Starts a jump arc.
    pub fn start_jump(&mut self)
        requires
            old(self).wf(),
        ensures
            *final(self) == old(self).jump_started(),
            final(self).wf(),
    {
        self.jump = Vector::new(clamped_add(self.pos.x, JUMP_AHEAD), self.pos.y);
        self.grounded = false;
        self.vel.y = if self.gravity_flip {
            JUMP_IMPULSE
        } else {
            -JUMP_IMPULSE
        };
    }

    /// The state after the gravity toggle: the flag and the sign of the
    /// acceleration flip together, the player leaves the ground, and the
    /// anchor's height moves to the ground plane that is now overhead.
    pub open spec fn gravity_toggled(self) -> Player {
        Player {
            gravity_flip: !self.gravity_flip,
            acc: Vector { x: self.acc.x, y: (-self.acc.y) as i64 },
            grounded: false,
            jump: Vector {
                x: self.jump.x,
                y: if !self.gravity_flip {
                    GROUND_Y_FLIP
                } else {
                    GROUND_Y_NORMAL
                },
            },
            ..self
        }
    }

    /// Reverses gravity: the input layer calls this between ticks when
    /// the gravity key fires in a live attempt.
    pub fn toggle_gravity(&mut self)
        requires
            old(self).wf(),
        ensures
            *final(self) == old(self).gravity_toggled(),
            final(self).wf(),
    {
        self.gravity_flip = !self.gravity_flip;
        self.acc.y = -self.acc.y;
        self.grounded = false;
        self.jump.y = if self.gravity_flip {
            GROUND_Y_FLIP
        } else {
            GROUND_Y_NORMAL
        };
    }
}

/// Snapping onto the ground is idempotent: a player the ground check has
/// already snapped is snapped to the very same state again, so repeated
/// checks while resting never move it.
pub proof fn lemma_ground_snap_idempotent(p: Player)
    requires
        p.wf(),
    ensures
        p.ground_snapped().ground_snapped() == p.ground_snapped(),
{
}

/// A player already resting on a block's landing face is not carried by
/// the strict landing band, so the landing check leaves it unchanged:
/// the first snap is the last.
pub proof fn lemma_block_rest_no_retrigger(p: Player, b: Block)
    requires
        p.wf(),
        b.wf(),
        p.pos.y == p.block_rest_y(b),
    ensures
        p.block_snapped(b) == p,
{
}

/// The resting invariant: exactly one of {grounded with the sentinel
/// anchor} or {airborne with a live anchor} holds of the player.
pub open spec fn resting_invariant(p: Player) -> bool {
    p.grounded <==> p.jump == sentinel_anchor()
}

/// The moment a jump starts the player is airborne and carries a live
/// anchor: the new anchor's x is clamped into the coordinate range, far
/// below the sentinel, and `grounded` is cleared in the same step — so
/// the jump installs the airborne half of the resting invariant.
pub proof fn lemma_jump_starts_airborne_with_arc(p: Player)
    requires
        p.wf(),
    ensures
        !p.jump_started().grounded,
        p.jump_started().jump != sentinel_anchor(),
        resting_invariant(p.jump_started()),
{
}

/// The gravity toggle keeps the resting invariant: it lifts the player
/// off the ground and moves the anchor's height onto the plane now
/// overhead, which is never the sentinel height, so the anchor counts as
/// live.
pub proof fn lemma_gravity_toggle_keeps_resting_invariant(p: Player)
    ensures
        resting_invariant(p.gravity_toggled()),
{
}

/// The square of a factor bounded by `b` lies in `[0, b * b]`.
proof fn bounded_square(x: int, b: int)
    requires
        0 <= b,
        -b <= x <= b,
    ensures
        0 <= x * x <= b * b,
{
    assert(0 <= x * x <= b * b) by (nonlinear_arith)
        requires
            0 <= b,
            -b <= x <= b,
    ;
}

} // verus!
