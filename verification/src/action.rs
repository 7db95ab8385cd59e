//! What the engine hands back: orders for the player's actors.

use vstd::prelude::*;
use crate::geometry::Position;

verus! {

/// A decision for one actor.
#[derive(Clone, Copy, Debug, PartialEq, Eq)]
pub enum Action {
    /// Take a single step toward `toward`. The caller turns the target into
    /// the step's direction.
    Move { toward: Position },
    /// Found a city where the unit stands.
    BuildCity,
    /// Have the city tile produce a worker.
    BuildWorker,
}

/// The actor an order is for, by its place in the turn's snapshot.
#[derive(Clone, Copy, Debug, PartialEq, Eq)]
pub enum Actor {
    /// The unit at `index` among the player's units.
    Unit { index: usize },
    /// Tile number `tile` of city number `city` among the player's cities.
    CityTile { city: usize, tile: usize },
}

#[derive(Clone, Copy, Debug, PartialEq, Eq)]
pub struct Order {
    pub actor: Actor,
    pub action: Action,
}

} // verus!
