//! The rules of the engine, as mathematics: which cells are worth
//! harvesting, what each actor is told to do, and the orders of a whole
//! turn.

use vstd::prelude::*;
use crate::action::{Action, Actor, Order};
use crate::geometry::{Direction, Position};
use crate::nearest::{closest_cell, closest_city_tile};
use crate::world::{Cell, GameMap, GameState, Player, Research, Resource, ResourceType, Unit, UnitType};

verus! {

/// A wood deposit is left alone until it holds more than this.
pub const WOOD_RESERVE: i32 = 400;

/// Turns in one cycle of day and night.
pub const CYCLE_LENGTH: u32 = 40;

/// Turns of daylight at the start of each cycle.
pub const DAY_LENGTH: u32 = 30;

/// It is day during the first `DAY_LENGTH` turns of every cycle.
pub open spec fn is_day_turn(turn: u32) -> bool {
    turn % CYCLE_LENGTH < DAY_LENGTH
}

/// Turns left until night falls, during the day.
pub open spec fn turns_until_night_at(turn: u32) -> Option<u32> {
    if is_day_turn(turn) {
        Some((DAY_LENGTH - turn % CYCLE_LENGTH) as u32)
    } else {
        None
    }
}

/// A resource is a harvest target when its type is unlocked and, for wood,
/// the deposit exceeds the reserve.
pub open spec fn resource_eligible(research: Research, resource: Resource) -> bool {
    &&& research.spec_unlocked(resource.resource_type)
    &&& resource.resource_type == ResourceType::Wood ==> resource.amount > WOOD_RESERVE
}

/// A cell is a harvest target when it holds an eligible resource.
pub open spec fn cell_eligible(research: Research, cell: Cell) -> bool {
    cell.resource matches Some(resource) && resource_eligible(research, resource)
}

/// The harvest targets among `cells`, in the order of `cells`.
pub open spec fn eligible_cells(cells: Seq<Cell>, research: Research) -> Seq<Cell> {
    cells.filter(|cell: Cell| cell_eligible(research, cell))
}

/// The cell one step from `pos` in `direction`, where that step stays on
/// the board.
pub open spec fn neighbour_cell(map: GameMap, pos: Position, direction: Direction) -> Option<Cell> {
    let point = pos.spec_translate(direction, 1);
    if map.spec_contains(point.0, point.1) {
        Some(map.spec_cell(point.0, point.1))
    } else {
        None
    }
}

/// Whether the step from `pos` in `direction` leads to an empty cell of the
/// board.
pub open spec fn has_empty_neighbour(map: GameMap, pos: Position, direction: Direction) -> bool {
    neighbour_cell(map, pos, direction) matches Some(cell) && cell.spec_is_empty()
}

/// The first empty cell next to `pos`, trying north, south, east and west
/// in this order.
pub open spec fn empty_cell_adjacent(map: GameMap, pos: Position) -> Option<Cell> {
    if has_empty_neighbour(map, pos, Direction::North) {
        neighbour_cell(map, pos, Direction::North)
    } else if has_empty_neighbour(map, pos, Direction::South) {
        neighbour_cell(map, pos, Direction::South)
    } else if has_empty_neighbour(map, pos, Direction::East) {
        neighbour_cell(map, pos, Direction::East)
    } else if has_empty_neighbour(map, pos, Direction::West) {
        neighbour_cell(map, pos, Direction::West)
    } else {
        None
    }
}

/// A city tile may produce a worker while the player has more city tiles
/// than units.
pub open spec fn admits_worker(player: Player) -> bool {
    player.city_tile_count > player.units@.len()
}

/// The decision for a city tile that can act. It looks at the player's
/// counts only, so it is the same at every tile.
pub open spec fn citytile_decision(player: Player) -> Option<Action> {
    if admits_worker(player) {
        Some(Action::BuildWorker)
    } else {
        None
    }
}

/// What the engine decides on: the turn's snapshot and the harvest targets
/// derived from it.
pub struct EngineView {
    pub state: GameState,
    pub eligible_resources: Seq<Cell>,
}

/// The orders an optional decision contributes: one, or none.
pub open spec fn order_of(actor: Actor, decision: Option<Action>) -> Seq<Order> {
    match decision {
        Some(action) => seq![Order { actor, action }],
        None => Seq::empty(),
    }
}

impl EngineView {
    /// Whether the harvest targets are those of the snapshot.
    pub open spec fn is_fresh(self) -> bool {
        self.eligible_resources == eligible_cells(self.state.game_map@, self.state.player.research)
    }

    /// Whether the worker carries enough to found a city.
    pub open spec fn build_ready(self, worker: Unit) -> bool {
        worker.cargo_space_used >= self.state.city_build_cost
    }

    /// Where a build-ready worker that cannot build on the spot heads for:
    /// the first empty cell next to the nearest city tile.
    pub open spec fn building_site(self, worker: Unit) -> Option<Cell> {
        match closest_city_tile(self.state.player.cities@, worker.pos) {
            Some(tile) => empty_cell_adjacent(self.state.game_map, tile.pos),
            None => None,
        }
    }

    /// The decision for a worker that can act, by priority:
    /// with enough cargo, found a city on the spot where that is allowed,
    /// else head for a building site where there is one;
    /// failing that, with room left, head for the nearest harvest target;
    /// failing that, with no room left, head for the nearest city tile;
    /// else wait.
    pub open spec fn worker_decision(self, worker: Unit) -> Option<Action> {
        if self.build_ready(worker) && worker.can_build {
            Some(Action::BuildCity)
        } else if self.build_ready(worker) && self.building_site(worker) is Some {
            Some(Action::Move { toward: self.building_site(worker).unwrap().pos })
        } else if worker.cargo_space_left > 0 && closest_cell(self.eligible_resources, worker.pos)
            is Some {
            Some(
                Action::Move { toward: closest_cell(self.eligible_resources, worker.pos).unwrap().pos },
            )
        } else if worker.cargo_space_left == 0 && closest_city_tile(
            self.state.player.cities@,
            worker.pos,
        ) is Some {
            Some(
                Action::Move {
                    toward: closest_city_tile(self.state.player.cities@, worker.pos).unwrap().pos,
                },
            )
        } else {
            None
        }
    }

    /// The decision for any unit: none for a unit that cannot act, the
    /// worker's decision for a worker, none for a cart.
    pub open spec fn unit_decision(self, unit: Unit) -> Option<Action> {
        if !unit.can_act {
            None
        } else {
            match unit.unit_type {
                UnitType::Worker => self.worker_decision(unit),
                UnitType::Cart => None,
            }
        }
    }

    /// The orders for the first `n` units, in the units' order.
    pub open spec fn unit_orders(self, n: int) -> Seq<Order>
        decreases n,
    {
        if n <= 0 {
            Seq::empty()
        } else {
            self.unit_orders(n - 1) + order_of(
                Actor::Unit { index: (n - 1) as usize },
                self.unit_decision(self.state.player.units@[n - 1]),
            )
        }
    }

    /// The decision for tile `tile` of city `city`: none for a tile that
    /// cannot act.
    pub open spec fn tile_decision(self, city: int, tile: int) -> Option<Action> {
        if self.state.player.cities@[city].citytiles@[tile].can_act {
            citytile_decision(self.state.player)
        } else {
            None
        }
    }

    /// The orders for the first `n` tiles of city `city`.
    pub open spec fn tile_orders(self, city: int, n: int) -> Seq<Order>
        decreases n,
    {
        if n <= 0 {
            Seq::empty()
        } else {
            self.tile_orders(city, n - 1) + order_of(
                Actor::CityTile { city: city as usize, tile: (n - 1) as usize },
                self.tile_decision(city, n - 1),
            )
        }
    }

    /// The orders for all tiles of the first `n` cities.
    pub open spec fn city_orders(self, n: int) -> Seq<Order>
        decreases n,
    {
        if n <= 0 {
            Seq::empty()
        } else {
            self.city_orders(n - 1) + self.tile_orders(
                n - 1,
                self.state.player.cities@[n - 1].citytiles@.len() as int,
            )
        }
    }

    /// The orders of the turn: first the units in their order, then the
    /// city tiles, city by city.
    pub open spec fn turn_orders(self) -> Seq<Order> {
        self.unit_orders(self.state.player.units@.len() as int) + self.city_orders(
            self.state.player.cities@.len() as int,
        )
    }
}

} // verus!
