//! A tick-based multiplayer grid game (snake-style): a deterministic
//! simulation core in which independent agents move on a shared toroidal
//! grid, compete for spawned props, and die and respawn under timed rules.
//!
//! The core is a grid occupancy store, a collision resolver that settles
//! any number of entities contending for one cell in a single tick, a
//! per-agent state machine, and an orchestrator that advances everything
//! one deterministic step per call.  Every operation carries a contract,
//! and the rules the game promises are stated and proved in `laws`.

pub mod entity;
pub mod grid;
pub mod laws;
pub mod props;
pub mod shared;
pub mod snake;
pub mod state;
pub mod util;
