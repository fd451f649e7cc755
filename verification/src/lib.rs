//! The simulation core of a 2D tile-based platformer: decodes a declarative
//! map description into collidable world geometry — solid blocks, slopes,
//! door triggers, animated-tile cycles, enemy spawns — and advances player
//! and enemy kinematics and animation state every tick. Rendering, window
//! management, keyboard polling and file reading live outside this crate;
//! the core consumes plain input snapshots and elapsed milliseconds, and
//! produces plain drawing requests and map-transition signals.

use vstd::prelude::*;

pub mod animate_sprite;
pub mod animated_tile;
pub mod animation;
pub mod collision;
pub mod door;
pub mod enemy;
pub mod game;
pub mod level;
pub mod map;
pub mod geometry;
pub mod player;
pub mod sprite;
pub mod tile;

verus! {

/// Outcome of one simulation tick: either nothing notable happened, or the
/// player triggered a door and the surrounding game loop must switch maps.
pub enum GameResult {
    NoTransition,
    GotoMap(String),
}

} // verus!
