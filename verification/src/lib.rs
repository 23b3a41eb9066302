//! Core simulation of a side-scrolling reflex platformer.
//!
//! A square player moves at constant horizontal speed through a level of
//! blocks, spikes and jump orbs; the world scrolls toward the player while
//! the player's vertical motion is integrated under gravity.  Touching a
//! spike or the wrong face of a block ends the attempt; outliving every
//! obstacle wins it.
//!
//! All coordinates are integers in sub-pixel units (`UNITS_PER_PIXEL` units
//! to a pixel) and one call of [`game::Game::update`] advances one fixed
//! tick, so every quantity the simulation computes is exact.  Rendering,
//! windowing and input plumbing are left to the embedding program, which
//! only reads the state and toggles the public flags between ticks.

pub mod block;
pub mod constants;
pub mod game;
pub mod level;
pub mod orb;
pub mod player;
pub mod spike;
pub mod surface_result;
pub mod util;
pub mod vector;
