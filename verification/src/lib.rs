//! Decision core of a turn-based, grid-world resource-management agent.
//!
//! Each turn the caller hands the engine a snapshot of the world (board,
//! units, cities, research) and receives the ordered list of orders for the
//! player's actors. Everything here is a function of that snapshot: nothing
//! is read from or written to the outside.

pub mod action;
pub mod engine;
pub mod geometry;
pub mod laws;
pub mod nearest;
pub mod policy;
pub mod world;
