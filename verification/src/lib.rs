//! Simulation core of a grid-based snake game.
//!
//! The crate is a deterministic, turn-based state machine: a body that grows,
//! a set of treats, a direction of travel, and the rules that decide each tick
//! whether the game goes on.

pub mod direction;
pub mod game;
pub mod grid;
pub mod movement;
pub mod spawn;
