//! Result of a surface query: either the player rests on the surface, with
//! the exact y coordinate its center snaps to, or it does not.

use vstd::prelude::*;

verus! {

/// Outcome of asking whether the player has reached a resting surface.
#[derive(Clone, Copy, Debug, PartialEq, Eq, Structural)]
pub enum SurfaceResult {
    /// The surface carries the player; the payload is the y coordinate of
    /// the player's center when resting on it.
    OnSurface(i64),
    /// The surface does not carry the player.
    NotOnSurface,
}

} // verus!
