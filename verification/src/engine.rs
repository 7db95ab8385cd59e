//! The engine itself: it holds the turn's snapshot and the harvest targets
//! derived from it, and decides the orders of the turn.

use vstd::prelude::*;
use crate::action::{Action, Actor, Order};
use crate::geometry::{Direction, Position};
use crate::nearest::{
    cell_positions, city_tiles, closest_cell, closest_city_tile, first_closest, is_first_closest,
    lemma_first_closest_is, lemma_first_closest_push, lemma_first_closest_some, tile_positions,
};
use crate::policy::{
    cell_eligible, citytile_decision, eligible_cells, empty_cell_adjacent, has_empty_neighbour,
    is_day_turn,
    neighbour_cell, order_of, resource_eligible, turns_until_night_at, EngineView, CYCLE_LENGTH,
    DAY_LENGTH, WOOD_RESERVE,
};
use crate::world::{Cell, CityTile, GameState, Player, Resource, ResourceType, Unit, UnitType};

verus! {

/// The decision engine of one player. It holds the turn's snapshot and the
/// harvest targets rebuilt from that snapshot: the targets are never those
/// of another turn.
pub struct Engine {
    state: GameState,
    eligible_resources: Vec<Cell>,
}

impl View for Engine {
    type V = EngineView;

    closed spec fn view(&self) -> EngineView {
        EngineView { state: self.state, eligible_resources: self.eligible_resources@ }
    }
}

/// Whether `resource` is a harvest target under the player's research.
fn is_eligible(player: &Player, resource: &Resource) -> (r: bool)
    ensures
        r == resource_eligible(player.research, *resource),
{
    if !player.is_researched(resource.resource_type) {
        return false;
    }
    match resource.resource_type {
        ResourceType::Wood => resource.amount > WOOD_RESERVE,
        ResourceType::Coal => true,
        ResourceType::Uranium => true,
    }
}

/// The harvest targets of a snapshot: the whole board is scanned once, row
/// by row, and every cell with an eligible resource is kept.
fn scan_eligible_resources(state: &GameState) -> (eligible: Vec<Cell>)
    ensures
        eligible@ == eligible_cells(state.game_map@, state.player.research),
{
    let mut eligible: Vec<Cell> = Vec::new();
    let cells = state.game_map.cells();
    let ghost research = state.player.research;
    let ghost wanted = |cell: Cell| cell_eligible(research, cell);
    let mut i: usize = 0;
    while i < cells.len()
        invariant
            0 <= i <= cells.len(),
            cells@ == state.game_map@,
            research == state.player.research,
            wanted == (|cell: Cell| cell_eligible(research, cell)),
            eligible@ == cells@.take(i as int).filter(wanted),
        decreases cells.len() - i,
    {
        let cell = cells[i];
        proof {
            assert(cells@.take(i as int).push(cell) =~= cells@.take(i + 1));
            cells@.take(i as int).lemma_filter_push(cell, wanted);
        }
        if let Some(resource) = cell.resource {
            if is_eligible(&state.player, &resource) {
                eligible.push(cell);
            }
        }
        i = i + 1;
    }
    proof {
        assert(cells@.take(i as int) =~= cells@);
    }
    eligible
}

/// What a scan for the nearest candidate knows after the candidates `seen`:
/// nothing was found and `distance` is still the initial bound, or the
/// candidate at `chosen` is the first closest and lies at `distance`.
spec fn scanned(seen: Seq<Position>, pos: Position, found: bool, distance: u128, chosen: int) -> bool {
    if found {
        &&& is_first_closest(seen, pos, chosen)
        &&& distance == seen[chosen].spec_distance_squared(pos)
    } else {
        &&& seen.len() == 0
        &&& distance == u128::MAX
    }
}

/// One step of a scan: the next candidate, lying at `next_distance`, is
/// taken exactly when it is strictly nearer than `distance`.
proof fn lemma_scan_step(
    seen: Seq<Position>,
    pos: Position,
    found: bool,
    distance: u128,
    chosen: int,
    next: Position,
    next_distance: u128,
)
    requires
        scanned(seen, pos, found, distance, chosen),
        next_distance == next.spec_distance_squared(pos),
        next_distance < u128::MAX,
    ensures
        next_distance < distance ==> scanned(
            seen.push(next),
            pos,
            true,
            next_distance,
            seen.len() as int,
        ),
        !(next_distance < distance) ==> scanned(seen.push(next), pos, found, distance, chosen),
{
    if found {
        lemma_first_closest_push(seen, pos, chosen, next);
        assert(seen.push(next)[chosen] == seen[chosen]);
    } else {
        assert(is_first_closest(seen.push(next), pos, 0));
    }
}

/// What a finished scan has found is the chosen candidate.
proof fn lemma_scan_done(seen: Seq<Position>, pos: Position, found: bool, distance: u128, chosen: int)
    requires
        scanned(seen, pos, found, distance, chosen),
    ensures
        first_closest(seen, pos) == if found {
            Some(chosen)
        } else {
            None
        },
{
    if found {
        lemma_first_closest_is(seen, pos, chosen);
    } else {
        lemma_first_closest_some(seen, pos);
    }
}

impl Engine {
    #[verifier::type_invariant]
    spec fn targets_are_fresh(&self) -> bool {
        self.eligible_resources@ == eligible_cells(self.state.game_map@, self.state.player.research)
    }

    /// An engine on its first snapshot, with the harvest targets of that
    /// snapshot.
    pub fn new(state: GameState) -> (engine: Engine)
        ensures
            engine@.state == state,
            engine@.is_fresh(),
    {
        let eligible_resources = scan_eligible_resources(&state);
        Engine { state, eligible_resources }
    }

    /// The snapshot the engine decides on.
    pub fn state(&self) -> (state: &GameState)
        ensures
            *state == self@.state,
    {
        &self.state
    }

    /// The harvest targets, which are those of the snapshot.
    pub fn eligible_resources(&self) -> (cells: &Vec<Cell>)
        ensures
            cells@ == self@.eligible_resources,
            self@.is_fresh(),
    {
        proof {
            use_type_invariant(self);
        }
        &self.eligible_resources
    }

    /// Whether the snapshot's turn falls in the day.
    pub fn is_day(&self) -> (r: bool)
        ensures
            r == is_day_turn(self@.state.turn),
    {
        self.state.turn % CYCLE_LENGTH < DAY_LENGTH
    }

    /// Whether the snapshot's turn falls in the night.
    pub fn is_night(&self) -> (r: bool)
        ensures
            r == !is_day_turn(self@.state.turn),
    {
        !self.is_day()
    }

    /// During the day, the number of turns until night falls; `None` at
    /// night.
    pub fn turns_until_night(&self) -> (r: Option<u32>)
        ensures
            r == turns_until_night_at(self@.state.turn),
    {
        if self.is_night() {
            return None;
        }
        Some(DAY_LENGTH - self.state.turn % CYCLE_LENGTH)
    }

    /// Whether `resource` is a harvest target for the player: its type is
    /// unlocked and, for wood, the deposit exceeds the reserve.
    pub fn is_resource_eligible(&self, resource: &Resource) -> (r: bool)
        ensures
            r == resource_eligible(self@.state.player.research, *resource),
    {
        is_eligible(&self.state.player, resource)
    }

    /// The city tile nearest to `pos`. Cities are scanned in their order
    /// and each city's tiles in theirs; a tile displaces the choice so far
    /// only when it is strictly nearer.
    pub fn closest_city_to(&self, pos: &Position) -> (r: Option<CityTile>)
        ensures
            r == closest_city_tile(self@.state.player.cities@, *pos),
    {
        let cities = &self.state.player.cities;
        let mut closest_distance: u128 = u128::MAX;
        let mut closest_city_tile: Option<CityTile> = None;
        let ghost mut seen: Seq<CityTile> = Seq::empty();
        let ghost mut chosen: int = 0;
        let mut c: usize = 0;
        while c < cities.len()
            invariant
                0 <= c <= cities.len(),
                seen == city_tiles(cities@.take(c as int)),
                scanned(
                    tile_positions(seen),
                    *pos,
                    closest_city_tile is Some,
                    closest_distance,
                    chosen,
                ),
                closest_city_tile matches Some(tile) ==> tile == seen[chosen],
            decreases cities.len() - c,
        {
            let tiles = &cities[c].citytiles;
            let ghost before = seen;
            let mut t: usize = 0;
            while t < tiles.len()
                invariant
                    0 <= t <= tiles.len(),
                    seen == before + tiles@.take(t as int),
                    scanned(
                        tile_positions(seen),
                        *pos,
                        closest_city_tile is Some,
                        closest_distance,
                        chosen,
                    ),
                    closest_city_tile matches Some(tile) ==> tile == seen[chosen],
                decreases tiles.len() - t,
            {
                let city_tile = tiles[t];
                let distance = city_tile.pos.distance_squared(pos);
                proof {
                    lemma_scan_step(
                        tile_positions(seen),
                        *pos,
                        closest_city_tile is Some,
                        closest_distance,
                        chosen,
                        city_tile.pos,
                        distance,
                    );
                    assert(tile_positions(seen).push(city_tile.pos) =~= tile_positions(
                        seen.push(city_tile),
                    ));
                    assert(before + tiles@.take(t + 1) =~= seen.push(city_tile));
                }
                if distance < closest_distance {
                    closest_distance = distance;
                    closest_city_tile = Some(city_tile);
                    proof {
                        chosen = seen.len() as int;
                    }
                }
                proof {
                    seen = seen.push(city_tile);
                }
                t = t + 1;
            }
            proof {
                assert(tiles@.take(t as int) =~= tiles@);
                assert(cities@.take(c + 1).drop_last() =~= cities@.take(c as int));
                assert(cities@.take(c + 1).last() == cities@[c as int]);
            }
            c = c + 1;
        }
        proof {
            assert(cities@.take(c as int) =~= cities@);
            lemma_scan_done(
                tile_positions(seen),
                *pos,
                closest_city_tile is Some,
                closest_distance,
                chosen,
            );
        }
        closest_city_tile
    }

    /// The harvest target nearest to `pos`, the earliest of the nearest in
    /// the order of the targets.
    pub fn closest_eligible_resource_to(&self, pos: &Position) -> (r: Option<Cell>)
        ensures
            self@.is_fresh(),
            r == closest_cell(self@.eligible_resources, *pos),
    {
        proof {
            use_type_invariant(self);
        }
        let cells = &self.eligible_resources;
        let mut closest_distance: u128 = u128::MAX;
        let mut closest_resource_cell: Option<Cell> = None;
        let ghost mut chosen: int = 0;
        let mut i: usize = 0;
        while i < cells.len()
            invariant
                0 <= i <= cells.len(),
                scanned(
                    cell_positions(cells@.take(i as int)),
                    *pos,
                    closest_resource_cell is Some,
                    closest_distance,
                    chosen,
                ),
                closest_resource_cell matches Some(cell) ==> cell == cells@[chosen],
            decreases cells.len() - i,
        {
            let resource_cell = cells[i];
            let distance = resource_cell.pos.distance_squared(pos);
            proof {
                lemma_scan_step(
                    cell_positions(cells@.take(i as int)),
                    *pos,
                    closest_resource_cell is Some,
                    closest_distance,
                    chosen,
                    resource_cell.pos,
                    distance,
                );
                assert(cell_positions(cells@.take(i as int)).push(resource_cell.pos)
                    =~= cell_positions(cells@.take(i + 1)));
            }
            if distance < closest_distance {
                closest_distance = distance;
                closest_resource_cell = Some(resource_cell);
                proof {
                    chosen = i as int;
                }
            }
            i = i + 1;
        }
        proof {
            assert(cells@.take(i as int) =~= cells@);
            lemma_scan_done(
                cell_positions(cells@),
                *pos,
                closest_resource_cell is Some,
                closest_distance,
                chosen,
            );
        }
        closest_resource_cell
    }

    /// Whether `pos` lies on the board.
    pub fn position_in_bounds(&self, pos: &Position) -> (r: bool)
        ensures
            r == self@.state.game_map.spec_contains(pos.x as int, pos.y as int),
    {
        pos.x >= 0 && pos.y >= 0 && pos.x < self.state.game_map.width() && pos.y
            < self.state.game_map.height()
    }

    /// The cell one step from `pos` in `direction`, where that step stays
    /// on the board and the cell there is empty.
    fn empty_neighbour(&self, pos: &Position, direction: Direction) -> (r: Option<Cell>)
        ensures
            r is Some == has_empty_neighbour(self@.state.game_map, *pos, direction),
            r is Some ==> r == neighbour_cell(self@.state.game_map, *pos, direction),
    {
        match pos.translate(direction, 1) {
            Some(next) => {
                if !self.position_in_bounds(&next) {
                    return None;
                }
                match self.state.game_map.get(&next) {
                    Some(cell) => if cell.is_empty() {
                        Some(*cell)
                    } else {
                        None
                    },
                    None => None,
                }
            },
            None => {
                proof {
                    use_type_invariant(&self.state.game_map);
                }
                None
            },
        }
    }

    /// The first empty cell next to `pos`, trying north, south, east and
    /// west in this order; `None` where no neighbour on the board is empty.
    pub fn empty_cell_adjacent_to(&self, pos: &Position) -> (r: Option<Cell>)
        ensures
            r == empty_cell_adjacent(self@.state.game_map, *pos),
    {
        let directions = [Direction::North, Direction::South, Direction::East, Direction::West];
        let mut i: usize = 0;
        while i < 4
            invariant
                0 <= i <= 4,
                directions@ == seq![
                    Direction::North,
                    Direction::South,
                    Direction::East,
                    Direction::West,
                ],
                forall|k: int|
                    0 <= k < i ==> !has_empty_neighbour(
                        self@.state.game_map,
                        *pos,
                        #[trigger] directions@[k],
                    ),
            decreases 4 - i,
        {
            let found = self.empty_neighbour(pos, directions[i]);
            if found.is_some() {
                return found;
            }
            i = i + 1;
        }
        None
    }

    /// Carts are given no orders.
    pub fn turn_cart(&self, cart: &Unit) -> (r: Option<Action>)
        ensures
            r is None,
    {
        None
    }

    /// The decision for a city tile: none for a tile that cannot act, else
    /// produce a worker while the player has more city tiles than units.
    pub fn turn_citytile(&self, citytile: &CityTile) -> (r: Option<Action>)
        ensures
            r == if citytile.can_act {
                citytile_decision(self@.state.player)
            } else {
                None
            },
    {
        if !citytile.can_act {
            return None;
        }
        let player = &self.state.player;
        if player.units.len() < player.city_tile_count as usize {
            return Some(Action::BuildWorker);
        }
        None
    }

    /// The decision for a worker: none for a worker that cannot act, else
    /// what the worker's cargo and surroundings call for.
    pub fn turn_worker(&self, worker: &Unit) -> (r: Option<Action>)
        ensures
            self@.is_fresh(),
            r == if worker.can_act {
                self@.worker_decision(*worker)
            } else {
                None
            },
    {
        proof {
            use_type_invariant(self);
        }
        if !worker.can_act {
            return None;
        }
        if worker.cargo_space_used >= self.state.city_build_cost {
            if worker.can_build {
                return Some(Action::BuildCity);
            }
            if let Some(city) = self.closest_city_to(&worker.pos) {
                if let Some(empty_cell) = self.empty_cell_adjacent_to(&city.pos) {
                    return Some(Action::Move { toward: empty_cell.pos });
                }
            }
        }
        if worker.cargo_space_left > 0 {
            if let Some(cell) = self.closest_eligible_resource_to(&worker.pos) {
                return Some(Action::Move { toward: cell.pos });
            }
        }
        if worker.cargo_space_left == 0 {
            if let Some(city) = self.closest_city_to(&worker.pos) {
                return Some(Action::Move { toward: city.pos });
            }
        }
        None
    }

    /// Rebuilds the harvest targets from the whole board, scanned row by
    /// row. The previous targets play no part in the result.
    pub fn update_eligible_resources(&mut self)
        ensures
            final(self)@.state == old(self)@.state,
            final(self)@.is_fresh(),
    {
        self.eligible_resources = scan_eligible_resources(&self.state);
    }

    /// The orders of the turn on the snapshot that the engine holds: for
    /// every unit that can act its decision, in the units' order, then for
    /// every city tile that can act its decision, city by city. An actor
    /// that cannot act is not asked, and no actor gets more than one order.
    pub fn decide(&self) -> (orders: Vec<Order>)
        ensures
            self@.is_fresh(),
            orders@ == self@.turn_orders(),
    {
        proof {
            use_type_invariant(self);
        }
        let mut orders: Vec<Order> = Vec::new();
        let units = &self.state.player.units;
        let mut u: usize = 0;
        while u < units.len()
            invariant
                0 <= u <= units.len(),
                units@ == self@.state.player.units@,
                orders@ == self@.unit_orders(u as int),
            decreases units.len() - u,
        {
            let unit = units[u];
            let decision = if !unit.can_act {
                None
            } else {
                match unit.unit_type {
                    UnitType::Worker => self.turn_worker(&unit),
                    UnitType::Cart => self.turn_cart(&unit),
                }
            };
            if let Some(action) = decision {
                orders.push(Order { actor: Actor::Unit { index: u }, action });
            }
            proof {
                assert(orders@ =~= self@.unit_orders(u as int) + order_of(
                    Actor::Unit { index: u },
                    decision,
                ));
            }
            u = u + 1;
        }
        let cities = &self.state.player.cities;
        let ghost unit_part = orders@;
        let mut c: usize = 0;
        while c < cities.len()
            invariant
                0 <= c <= cities.len(),
                cities@ == self@.state.player.cities@,
                orders@ == unit_part + self@.city_orders(c as int),
            decreases cities.len() - c,
        {
            let tiles = &cities[c].citytiles;
            let ghost city_part = orders@;
            let mut t: usize = 0;
            while t < tiles.len()
                invariant
                    0 <= t <= tiles.len(),
                    0 <= c < cities.len(),
                    cities@ == self@.state.player.cities@,
                    tiles@ == cities@[c as int].citytiles@,
                    orders@ == city_part + self@.tile_orders(c as int, t as int),
                decreases tiles.len() - t,
            {
                let citytile = tiles[t];
                let decision = if citytile.can_act {
                    self.turn_citytile(&citytile)
                } else {
                    None
                };
                if let Some(action) = decision {
                    orders.push(Order { actor: Actor::CityTile { city: c, tile: t }, action });
                }
                proof {
                    assert(orders@ =~= city_part + (self@.tile_orders(c as int, t as int)
                        + order_of(Actor::CityTile { city: c, tile: t }, decision)));
                }
                t = t + 1;
            }
            proof {
                assert(orders@ =~= unit_part + (self@.city_orders(c as int) + self@.tile_orders(
                    c as int,
                    tiles@.len() as int,
                )));
            }
            c = c + 1;
        }
        orders
    }

    /// One turn: takes the turn's snapshot, rebuilds the harvest targets
    /// from it, and decides the orders. The targets consulted are always
    /// those of the snapshot just taken.
    pub fn turn(&mut self, state: GameState) -> (orders: Vec<Order>)
        ensures
            final(self)@.state == state,
            final(self)@.is_fresh(),
            orders@ == final(self)@.turn_orders(),
    {
        *self = Engine::new(state);
        self.decide()
    }
}

} // verus!
