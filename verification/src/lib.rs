//! Core simulation of a twin-stick arcade game: a player ship tows planets
//! into black holes while dodging enemies and firing lasers.
//!
//! The crate holds the per-frame game logic only: entity state machines,
//! integer-grid movement, axis-aligned collision detection, score and lives
//! bookkeeping, and the top-level phase machine.  Rendering, asset loading
//! and input-device polling live outside, in the binary that drives this
//! library.  Timers take the current time in milliseconds as an argument,
//! so a driver may use a real clock and tests a scripted one.

pub mod black_hole;
pub mod controller;
pub mod enemy;
pub mod game;
pub mod game_elements;
pub mod game_context;
pub mod geometry;
pub mod game_sprite;
pub mod identity;
pub mod laser;
pub mod planets;
pub mod player;
pub mod seq_util;
mod rng;
