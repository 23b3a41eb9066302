//! World geometry and physics constants.
//!
//! Lengths are measured in sub-pixel units, `UNITS_PER_PIXEL` to a pixel,
//! and time in ticks of 1/60 s.  Speeds are in units per tick and the
//! gravity constant in units per tick per tick, so one simulation step is
//! a plain integer addition.

use vstd::prelude::*;

verus! {

/// Sub-pixel units in one pixel.  The scale is chosen so that the player
/// speed, the per-tick gravity gain and the jump impulse below are all
/// whole numbers of units.
pub const UNITS_PER_PIXEL: i64 = 2000;

/// Screen width: 1920 px.
pub const WIDTH: i64 = 3_840_000;

/// Screen height: 1080 px.
pub const HEIGHT: i64 = 2_160_000;

/// Ground plane under normal gravity: 918 px, 85% of the screen height
/// (the y axis points down).
pub const GROUND_Y_NORMAL: i64 = 1_836_000;

/// Ground plane under flipped gravity: 162 px, 15% of the screen height.
pub const GROUND_Y_FLIP: i64 = 324_000;

/// Side of the player's square hitbox: 50 px.
pub const PLAYER_SIZE: i64 = 100_000;

/// The player's fixed on-screen x position: 384 px, 20% of the width.
pub const PLAYER_START_X: i64 = 768_000;

/// Horizontal speed, units per tick: 10.386 px per tick, which is the
/// distance the world scrolls past the player each tick.
pub const SPEED_PER_TICK: i64 = 20_772;

/// Gravity: each tick the vertical speed gains 0.575 px per tick, signed
/// toward the active ground plane.
pub const GRAVITY_PER_TICK: i64 = 1_150;

/// Vertical speed set when a jump starts, units per tick, directed away
/// from the active ground plane.  The magnitude is the square of the
/// per-second gravity in pixels (34.5 px/s per tick squared gives
/// 1190.25 px/s, or 19.8375 px per tick).
pub const JUMP_IMPULSE: i64 = 39_675;

/// How far ahead of the player a fresh jump anchor is placed: 250 px.
pub const JUMP_AHEAD: i64 = 500_000;

/// Coordinate value that marks the jump anchor as absent.
pub const JUMP_SENTINEL: i64 = i64::MAX;

/// Every finite coordinate, speed and size the simulation stores lies in
/// `[-COORD_LIMIT, COORD_LIMIT]`, which keeps all the arithmetic of a tick
/// far away from the edge of `i64`.  Results that would leave the range
/// are clamped to it; the playable screen is smaller by three orders of
/// magnitude, so the clamp is never live in ordinary play.
pub const COORD_LIMIT: i64 = 2_000_000_000;

} // verus!
