//! A turn-based, grid-world dungeon simulation engine: procedural dungeon
//! generation, a tile/entity spatial model, melee combat with death
//! transitions, reactive monster AI, and a bounded message log.
//!
//! Rendering, input capture, and the field-of-view algorithm are external
//! collaborators: the engine consumes a per-tile visibility snapshot and
//! hands back plain state for drawing.

use vstd::prelude::*;

pub mod ai;
pub mod combat;
pub mod connect;
pub mod dungeon;
pub mod entity;
pub mod fov;
pub mod game;
pub mod geometry;
pub mod log;
pub mod movement;
mod rng;
pub mod text;
pub mod tiles;
pub mod turn;

pub use dungeon::GenConfig;
pub use entity::{Ai, Color, DeathCallback, Fighter, Object, PLAYER_ID};
pub use fov::Visibility;
pub use game::new_game;
pub use geometry::Rect;
pub use log::Messages;
pub use tiles::{Tile, TileGrid};
pub use turn::{PlayerAction, PlayerIntent, game_tick};

verus! {

} // verus!
