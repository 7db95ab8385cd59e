//! Laws of the policy: what holds of every snapshot.

use vstd::prelude::*;
use crate::action::{Action, Actor, Order};
use crate::geometry::Position;
use crate::nearest::{closest_cell, closest_city_tile};
use crate::policy::{
    admits_worker, empty_cell_adjacent, order_of, resource_eligible, EngineView, WOOD_RESERVE,
};
use crate::world::{GameMap, Research, Resource, ResourceType, Unit};

verus! {

/// Rebuilding is deterministic: two rebuilds over the same board and the
/// same research state give the same harvest targets, whatever the targets
/// were before either rebuild.
pub proof fn lemma_rebuild_is_deterministic(
    before_a: EngineView,
    after_a: EngineView,
    before_b: EngineView,
    after_b: EngineView,
)
    requires
        after_a.state == before_a.state,
        after_a.is_fresh(),
        after_b.state == before_b.state,
        after_b.is_fresh(),
        before_a.state.game_map@ == before_b.state.game_map@,
        before_a.state.player.research == before_b.state.player.research,
    ensures
        after_a.eligible_resources == after_b.eligible_resources,
{
}

/// Wood is a harvest target exactly when it is unlocked and the deposit
/// exceeds the reserve; coal and uranium exactly when they are unlocked,
/// whatever the amount.
pub proof fn lemma_eligibility_by_type(research: Research, resource: Resource)
    ensures
        resource.resource_type == ResourceType::Wood ==> (resource_eligible(research, resource) <==> (
        research.wood && resource.amount > WOOD_RESERVE)),
        resource.resource_type == ResourceType::Coal ==> (resource_eligible(research, resource)
            <==> research.coal),
        resource.resource_type == ResourceType::Uranium ==> (resource_eligible(research, resource)
            <==> research.uranium),
{
}

/// Founding a city comes first: a worker that carries enough and stands
/// where a city may be founded is told to build, whether or not it has
/// room left and whatever it could walk to.
pub proof fn lemma_build_city_comes_first(engine: EngineView, worker: Unit)
    requires
        engine.build_ready(worker),
        worker.can_build,
    ensures
        engine.worker_decision(worker) == Some(Action::BuildCity),
{
}

/// A worker that cannot found a city yet and has room left heads for the
/// nearest harvest target, where there is one.
pub proof fn lemma_worker_with_room_harvests(engine: EngineView, worker: Unit)
    requires
        !engine.build_ready(worker),
        worker.cargo_space_left > 0,
        closest_cell(engine.eligible_resources, worker.pos) is Some,
    ensures
        engine.worker_decision(worker) == Some(
            Action::Move { toward: closest_cell(engine.eligible_resources, worker.pos).unwrap().pos },
        ),
{
}

/// A worker that cannot found a city yet and has no room left returns to
/// the nearest city tile, however near a harvest target may be.
pub proof fn lemma_full_worker_returns(engine: EngineView, worker: Unit)
    requires
        !engine.build_ready(worker),
        worker.cargo_space_left == 0,
        closest_city_tile(engine.state.player.cities@, worker.pos) is Some,
    ensures
        engine.worker_decision(worker) == Some(
            Action::Move {
                toward: closest_city_tile(engine.state.player.cities@, worker.pos).unwrap().pos,
            },
        ),
{
}

/// The empty cell found next to a position lies on the board, one step
/// away from that position, and is empty.
pub proof fn lemma_empty_cell_is_adjacent(map: GameMap, pos: Position)
    requires
        map.wf(),
        empty_cell_adjacent(map, pos) is Some,
    ensures
        map.spec_contains(
            empty_cell_adjacent(map, pos).unwrap().pos.x as int,
            empty_cell_adjacent(map, pos).unwrap().pos.y as int,
        ),
        empty_cell_adjacent(map, pos).unwrap().pos.spec_distance_squared(pos) == 1,
        empty_cell_adjacent(map, pos).unwrap().spec_is_empty(),
{
    let cell = empty_cell_adjacent(map, pos).unwrap();
    assert forall|x: int, y: int| map.spec_contains(x, y) implies (#[trigger] map.spec_cell(x, y)).pos.x
        == x && map.spec_cell(x, y).pos.y == y by {
        map.lemma_cell_position(x, y);
    }
    let dx = cell.pos.x - pos.x;
    let dy = cell.pos.y - pos.y;
    assert(dx * dx + dy * dy == 1) by (nonlinear_arith)
        requires
            (dx == 0 && (dy == 1 || dy == -1)) || (dy == 0 && (dx == 1 || dx == -1)),
    ;
}

/// A worker is never told to produce a worker.
pub proof fn lemma_units_build_no_worker(engine: EngineView, unit: Unit)
    ensures
        engine.unit_decision(unit) != Some(Action::BuildWorker),
{
}

/// The unit an order is for, by its index; `-1` for an order to a city
/// tile.
pub open spec fn unit_index(order: Order) -> int {
    match order.actor {
        Actor::Unit { index } => index as int,
        Actor::CityTile { .. } => -1,
    }
}

/// The city of the tile an order is for, by its index; `-1` for an order
/// to a unit.
pub open spec fn city_index(order: Order) -> int {
    match order.actor {
        Actor::Unit { .. } => -1,
        Actor::CityTile { city, .. } => city as int,
    }
}

/// The tile an order is for, by its index within its city; `-1` for an
/// order to a unit.
pub open spec fn tile_index(order: Order) -> int {
    match order.actor {
        Actor::Unit { .. } => -1,
        Actor::CityTile { tile, .. } => tile as int,
    }
}

/// There are no more orders for units than units.
pub proof fn lemma_unit_orders_len(engine: EngineView, n: int)
    requires
        0 <= n,
    ensures
        engine.unit_orders(n).len() <= n,
    decreases n,
{
    if n > 0 {
        lemma_unit_orders_len(engine, n - 1);
    }
}

/// Among the orders for the first `n` units, each is for one of these
/// units, which can act, and carries that unit's decision.
pub proof fn lemma_unit_orders(engine: EngineView, n: int, k: int)
    requires
        0 <= n <= engine.state.player.units@.len(),
        0 <= k < engine.unit_orders(n).len(),
    ensures
        k <= unit_index(engine.unit_orders(n)[k]) < n,
        engine.state.player.units@[unit_index(engine.unit_orders(n)[k])].can_act,
        engine.unit_decision(engine.state.player.units@[unit_index(engine.unit_orders(n)[k])])
            == Some(engine.unit_orders(n)[k].action),
    decreases n,
{
    let shorter = engine.unit_orders(n - 1);
    let last = order_of(
        Actor::Unit { index: (n - 1) as usize },
        engine.unit_decision(engine.state.player.units@[n - 1]),
    );
    assert(engine.unit_orders(n) == shorter + last);
    assert(engine.state.player.units.len() == engine.state.player.units@.len());
    lemma_unit_orders_len(engine, n - 1);
    if k < shorter.len() {
        lemma_unit_orders(engine, n - 1, k);
        assert((shorter + last)[k] == shorter[k]);
    } else {
        assert((shorter + last)[k] == last[k - shorter.len()]);
    }
}

/// The orders for units come in the units' order.
pub proof fn lemma_unit_orders_ascend(engine: EngineView, n: int, j: int, k: int)
    requires
        0 <= n <= engine.state.player.units@.len(),
        0 <= j < k < engine.unit_orders(n).len(),
    ensures
        unit_index(engine.unit_orders(n)[j]) < unit_index(engine.unit_orders(n)[k]),
    decreases n,
{
    let shorter = engine.unit_orders(n - 1);
    let last = order_of(
        Actor::Unit { index: (n - 1) as usize },
        engine.unit_decision(engine.state.player.units@[n - 1]),
    );
    assert(engine.unit_orders(n) == shorter + last);
    assert(engine.state.player.units.len() == engine.state.player.units@.len());
    assert((shorter + last)[j] == shorter[j]);
    if k < shorter.len() {
        lemma_unit_orders_ascend(engine, n - 1, j, k);
        assert((shorter + last)[k] == shorter[k]);
    } else {
        lemma_unit_orders(engine, n - 1, j);
        assert((shorter + last)[k] == last[k - shorter.len()]);
    }
}

/// A unit with a decision has its order among the orders for the units up
/// to it.
pub proof fn lemma_unit_order_present(engine: EngineView, n: int, i: int)
    requires
        0 <= i < n <= engine.state.player.units@.len(),
        engine.unit_decision(engine.state.player.units@[i]) is Some,
    ensures
        engine.unit_orders(n).contains(
            Order {
                actor: Actor::Unit { index: i as usize },
                action: engine.unit_decision(engine.state.player.units@[i]).unwrap(),
            },
        ),
    decreases n,
{
    let shorter = engine.unit_orders(n - 1);
    let last = order_of(
        Actor::Unit { index: (n - 1) as usize },
        engine.unit_decision(engine.state.player.units@[n - 1]),
    );
    assert(engine.unit_orders(n) == shorter + last);
    let order = Order {
        actor: Actor::Unit { index: i as usize },
        action: engine.unit_decision(engine.state.player.units@[i]).unwrap(),
    };
    if i < n - 1 {
        lemma_unit_order_present(engine, n - 1, i);
        let at = choose|at: int| 0 <= at < shorter.len() && shorter[at] == order;
        assert((shorter + last)[at] == order);
    } else {
        assert((shorter + last)[shorter.len() as int] == last[0]);
    }
}

/// There are no more orders for the tiles of a city than tiles.
pub proof fn lemma_tile_orders_len(engine: EngineView, city: int, n: int)
    requires
        0 <= n,
    ensures
        engine.tile_orders(city, n).len() <= n,
    decreases n,
{
    if n > 0 {
        lemma_tile_orders_len(engine, city, n - 1);
    }
}

/// Among the orders for the first `n` tiles of a city, each is for one of
/// these tiles, which can act, and carries that tile's decision.
pub proof fn lemma_tile_orders(engine: EngineView, city: int, n: int, k: int)
    requires
        0 <= city < engine.state.player.cities@.len(),
        0 <= n <= engine.state.player.cities@[city].citytiles@.len(),
        0 <= k < engine.tile_orders(city, n).len(),
    ensures
        city_index(engine.tile_orders(city, n)[k]) == city,
        k <= tile_index(engine.tile_orders(city, n)[k]) < n,
        engine.state.player.cities@[city].citytiles@[tile_index(
            engine.tile_orders(city, n)[k],
        )].can_act,
        engine.tile_decision(city, tile_index(engine.tile_orders(city, n)[k])) == Some(
            engine.tile_orders(city, n)[k].action,
        ),
    decreases n,
{
    let shorter = engine.tile_orders(city, n - 1);
    let last = order_of(
        Actor::CityTile { city: city as usize, tile: (n - 1) as usize },
        engine.tile_decision(city, n - 1),
    );
    assert(engine.tile_orders(city, n) == shorter + last);
    assert(engine.state.player.cities.len() == engine.state.player.cities@.len());
    assert(engine.state.player.cities@[city].citytiles.len()
        == engine.state.player.cities@[city].citytiles@.len());
    lemma_tile_orders_len(engine, city, n - 1);
    if k < shorter.len() {
        lemma_tile_orders(engine, city, n - 1, k);
        assert((shorter + last)[k] == shorter[k]);
    } else {
        assert((shorter + last)[k] == last[k - shorter.len()]);
    }
}

/// The orders for the tiles of a city come in the tiles' order.
pub proof fn lemma_tile_orders_ascend(engine: EngineView, city: int, n: int, j: int, k: int)
    requires
        0 <= city < engine.state.player.cities@.len(),
        0 <= n <= engine.state.player.cities@[city].citytiles@.len(),
        0 <= j < k < engine.tile_orders(city, n).len(),
    ensures
        tile_index(engine.tile_orders(city, n)[j]) < tile_index(engine.tile_orders(city, n)[k]),
    decreases n,
{
    let shorter = engine.tile_orders(city, n - 1);
    let last = order_of(
        Actor::CityTile { city: city as usize, tile: (n - 1) as usize },
        engine.tile_decision(city, n - 1),
    );
    assert(engine.tile_orders(city, n) == shorter + last);
    assert(engine.state.player.cities@[city].citytiles.len()
        == engine.state.player.cities@[city].citytiles@.len());
    assert((shorter + last)[j] == shorter[j]);
    if k < shorter.len() {
        lemma_tile_orders_ascend(engine, city, n - 1, j, k);
        assert((shorter + last)[k] == shorter[k]);
    } else {
        lemma_tile_orders(engine, city, n - 1, j);
        assert((shorter + last)[k] == last[k - shorter.len()]);
    }
}

/// A tile with a decision has its order among the orders for the tiles of
/// its city up to it.
pub proof fn lemma_tile_order_present(engine: EngineView, city: int, n: int, tile: int)
    requires
        0 <= tile < n,
        engine.tile_decision(city, tile) is Some,
    ensures
        engine.tile_orders(city, n).contains(
            Order {
                actor: Actor::CityTile { city: city as usize, tile: tile as usize },
                action: engine.tile_decision(city, tile).unwrap(),
            },
        ),
    decreases n,
{
    let shorter = engine.tile_orders(city, n - 1);
    let last = order_of(
        Actor::CityTile { city: city as usize, tile: (n - 1) as usize },
        engine.tile_decision(city, n - 1),
    );
    assert(engine.tile_orders(city, n) == shorter + last);
    let order = Order {
        actor: Actor::CityTile { city: city as usize, tile: tile as usize },
        action: engine.tile_decision(city, tile).unwrap(),
    };
    if tile < n - 1 {
        lemma_tile_order_present(engine, city, n - 1, tile);
        let at = choose|at: int| 0 <= at < shorter.len() && shorter[at] == order;
        assert((shorter + last)[at] == order);
    } else {
        assert((shorter + last)[shorter.len() as int] == last[0]);
    }
}

/// Among the orders for the first `n` cities, each is for a tile of one of
/// these cities, which can act, and carries that tile's decision.
pub proof fn lemma_city_orders(engine: EngineView, n: int, k: int)
    requires
        0 <= n <= engine.state.player.cities@.len(),
        0 <= k < engine.city_orders(n).len(),
    ensures
        0 <= city_index(engine.city_orders(n)[k]) < n,
        0 <= tile_index(engine.city_orders(n)[k]) < engine.state.player.cities@[city_index(
            engine.city_orders(n)[k],
        )].citytiles@.len(),
        engine.state.player.cities@[city_index(engine.city_orders(n)[k])].citytiles@[tile_index(
            engine.city_orders(n)[k],
        )].can_act,
        engine.tile_decision(
            city_index(engine.city_orders(n)[k]),
            tile_index(engine.city_orders(n)[k]),
        ) == Some(engine.city_orders(n)[k].action),
    decreases n,
{
    let shorter = engine.city_orders(n - 1);
    let tiles = engine.state.player.cities@[n - 1].citytiles@.len() as int;
    let last = engine.tile_orders(n - 1, tiles);
    assert(engine.city_orders(n) == shorter + last);
    if k < shorter.len() {
        lemma_city_orders(engine, n - 1, k);
        assert((shorter + last)[k] == shorter[k]);
    } else {
        lemma_tile_orders(engine, n - 1, tiles, k - shorter.len());
        assert((shorter + last)[k] == last[k - shorter.len()]);
    }
}

/// The orders for city tiles come city by city and, within a city, in the
/// tiles' order.
pub proof fn lemma_city_orders_ascend(engine: EngineView, n: int, j: int, k: int)
    requires
        0 <= n <= engine.state.player.cities@.len(),
        0 <= j < k < engine.city_orders(n).len(),
    ensures
        city_index(engine.city_orders(n)[j]) < city_index(engine.city_orders(n)[k]) || (city_index(
            engine.city_orders(n)[j],
        ) == city_index(engine.city_orders(n)[k]) && tile_index(engine.city_orders(n)[j])
            < tile_index(engine.city_orders(n)[k])),
    decreases n,
{
    let shorter = engine.city_orders(n - 1);
    let tiles = engine.state.player.cities@[n - 1].citytiles@.len() as int;
    let last = engine.tile_orders(n - 1, tiles);
    assert(engine.city_orders(n) == shorter + last);
    if k < shorter.len() {
        lemma_city_orders_ascend(engine, n - 1, j, k);
        assert((shorter + last)[j] == shorter[j]);
        assert((shorter + last)[k] == shorter[k]);
    } else if j < shorter.len() {
        lemma_city_orders(engine, n - 1, j);
        lemma_tile_orders(engine, n - 1, tiles, k - shorter.len());
        assert((shorter + last)[j] == shorter[j]);
        assert((shorter + last)[k] == last[k - shorter.len()]);
    } else {
        lemma_tile_orders(engine, n - 1, tiles, j - shorter.len());
        lemma_tile_orders(engine, n - 1, tiles, k - shorter.len());
        lemma_tile_orders_ascend(engine, n - 1, tiles, j - shorter.len(), k - shorter.len());
        assert((shorter + last)[j] == last[j - shorter.len()]);
        assert((shorter + last)[k] == last[k - shorter.len()]);
    }
}

/// A tile with a decision has its order among the orders for the cities up
/// to its own.
pub proof fn lemma_city_order_present(engine: EngineView, n: int, city: int, tile: int)
    requires
        0 <= city < n,
        0 <= tile < engine.state.player.cities@[city].citytiles@.len(),
        engine.tile_decision(city, tile) is Some,
    ensures
        engine.city_orders(n).contains(
            Order {
                actor: Actor::CityTile { city: city as usize, tile: tile as usize },
                action: engine.tile_decision(city, tile).unwrap(),
            },
        ),
    decreases n,
{
    let shorter = engine.city_orders(n - 1);
    let tiles = engine.state.player.cities@[n - 1].citytiles@.len() as int;
    let last = engine.tile_orders(n - 1, tiles);
    assert(engine.city_orders(n) == shorter + last);
    let order = Order {
        actor: Actor::CityTile { city: city as usize, tile: tile as usize },
        action: engine.tile_decision(city, tile).unwrap(),
    };
    if city < n - 1 {
        lemma_city_order_present(engine, n - 1, city, tile);
        let at = choose|at: int| 0 <= at < shorter.len() && shorter[at] == order;
        assert((shorter + last)[at] == order);
    } else {
        lemma_tile_order_present(engine, city, tiles, tile);
        let at = choose|at: int| 0 <= at < last.len() && last[at] == order;
        assert((shorter + last)[shorter.len() + at] == order);
    }
}

/// An order is due when its actor is in the snapshot, can act, and the
/// order carries the actor's decision.
pub open spec fn is_due(engine: EngineView, order: Order) -> bool {
    match order.actor {
        Actor::Unit { index } => {
            &&& index < engine.state.player.units@.len()
            &&& engine.state.player.units@[index as int].can_act
            &&& engine.unit_decision(engine.state.player.units@[index as int]) == Some(order.action)
        },
        Actor::CityTile { city, tile } => {
            &&& city < engine.state.player.cities@.len()
            &&& tile < engine.state.player.cities@[city as int].citytiles@.len()
            &&& engine.state.player.cities@[city as int].citytiles@[tile as int].can_act
            &&& engine.tile_decision(city as int, tile as int) == Some(order.action)
        },
    }
}

/// Every order of the turn is due: an actor that cannot act gets no order,
/// and an actor that can gets nothing but its decision.
pub proof fn lemma_orders_are_due(engine: EngineView, k: int)
    requires
        0 <= k < engine.turn_orders().len(),
    ensures
        is_due(engine, engine.turn_orders()[k]),
{
    let units = engine.state.player.units@.len() as int;
    let cities = engine.state.player.cities@.len() as int;
    let first = engine.unit_orders(units);
    let second = engine.city_orders(cities);
    if k < first.len() {
        lemma_unit_orders(engine, units, k);
        assert((first + second)[k] == first[k]);
    } else {
        lemma_city_orders(engine, cities, k - first.len());
        assert((first + second)[k] == second[k - first.len()]);
    }
}

/// Every due order is among the orders of the turn.
pub proof fn lemma_due_orders_are_given(engine: EngineView, order: Order)
    requires
        is_due(engine, order),
    ensures
        engine.turn_orders().contains(order),
{
    let units = engine.state.player.units@.len() as int;
    let cities = engine.state.player.cities@.len() as int;
    let first = engine.unit_orders(units);
    let second = engine.city_orders(cities);
    match order.actor {
        Actor::Unit { index } => {
            lemma_unit_order_present(engine, units, index as int);
            let at = choose|at: int| 0 <= at < first.len() && first[at] == order;
            assert((first + second)[at] == order);
        },
        Actor::CityTile { city, tile } => {
            lemma_city_order_present(engine, cities, city as int, tile as int);
            let at = choose|at: int| 0 <= at < second.len() && second[at] == order;
            assert((first + second)[first.len() + at] == order);
        },
    }
}

/// No actor gets more than one order in a turn.
pub proof fn lemma_one_order_per_actor(engine: EngineView, j: int, k: int)
    requires
        0 <= j < k < engine.turn_orders().len(),
    ensures
        engine.turn_orders()[j].actor != engine.turn_orders()[k].actor,
{
    let units = engine.state.player.units@.len() as int;
    let cities = engine.state.player.cities@.len() as int;
    let first = engine.unit_orders(units);
    let second = engine.city_orders(cities);
    if k < first.len() {
        lemma_unit_orders_ascend(engine, units, j, k);
        assert((first + second)[j] == first[j]);
        assert((first + second)[k] == first[k]);
    } else if j < first.len() {
        lemma_unit_orders(engine, units, j);
        lemma_city_orders(engine, cities, k - first.len());
        assert((first + second)[j] == first[j]);
        assert((first + second)[k] == second[k - first.len()]);
    } else {
        lemma_city_orders_ascend(engine, cities, j - first.len(), k - first.len());
        assert((first + second)[j] == second[j - first.len()]);
        assert((first + second)[k] == second[k - first.len()]);
    }
}

/// Without more city tiles than units no worker is produced anywhere in
/// the turn.
pub proof fn lemma_no_surplus_no_worker(engine: EngineView, k: int)
    requires
        !admits_worker(engine.state.player),
        0 <= k < engine.turn_orders().len(),
    ensures
        engine.turn_orders()[k].action != Action::BuildWorker,
{
    lemma_orders_are_due(engine, k);
}

/// The order that tells tile `tile` of city `city` to produce a worker.
pub open spec fn build_worker_at(city: usize, tile: usize) -> Order {
    Order { actor: Actor::CityTile { city, tile }, action: Action::BuildWorker }
}

/// With more city tiles than units every city tile that can act produces
/// a worker, each on the same global count.
pub proof fn lemma_surplus_worker_at_every_tile(engine: EngineView, city: usize, tile: usize)
    requires
        admits_worker(engine.state.player),
        city < engine.state.player.cities@.len(),
        tile < engine.state.player.cities@[city as int].citytiles@.len(),
        engine.state.player.cities@[city as int].citytiles@[tile as int].can_act,
    ensures
        engine.turn_orders().contains(build_worker_at(city, tile)),
{
    lemma_due_orders_are_given(engine, build_worker_at(city, tile));
}

/// The boundary of admission: with as many city tiles as units the turn
/// holds no order to produce a worker; with one city tile more, every city
/// tile that can act is told to produce one.
pub proof fn lemma_admission_boundary(engine: EngineView)
    ensures
        engine.state.player.city_tile_count == engine.state.player.units@.len() ==> forall|k: int|
            0 <= k < engine.turn_orders().len() ==> (#[trigger] engine.turn_orders()[k]).action
                != Action::BuildWorker,
        engine.state.player.city_tile_count == engine.state.player.units@.len() + 1
            ==> forall|city: usize, tile: usize|
            city < engine.state.player.cities@.len() && tile
                < engine.state.player.cities@[city as int].citytiles@.len()
                && engine.state.player.cities@[city as int].citytiles@[tile as int].can_act
                ==> engine.turn_orders().contains(#[trigger] build_worker_at(city, tile)),
{
    if engine.state.player.city_tile_count == engine.state.player.units@.len() {
        assert forall|k: int| 0 <= k < engine.turn_orders().len() implies (
        #[trigger] engine.turn_orders()[k]).action != Action::BuildWorker by {
            lemma_no_surplus_no_worker(engine, k);
        }
    }
    if engine.state.player.city_tile_count == engine.state.player.units@.len() + 1 {
        assert forall|city: usize, tile: usize|
            city < engine.state.player.cities@.len() && tile
                < engine.state.player.cities@[city as int].citytiles@.len()
                && engine.state.player.cities@[city as int].citytiles@[tile as int].can_act implies engine.turn_orders().contains(
            #[trigger] build_worker_at(city, tile),
        ) by {
            lemma_surplus_worker_at_every_tile(engine, city, tile);
        }
    }
}

} // verus!
