//! Choosing the nearest of a sequence of candidate positions.
//!
//! Candidates are scanned in order and a later candidate displaces the
//! current choice only when it is strictly nearer, so among equally near
//! candidates the earliest one is chosen.

use vstd::prelude::*;
use crate::geometry::Position;
use crate::world::{Cell, City, CityTile};

verus! {

/// `i` is the index of the nearest candidate to `pos`, and the earliest
/// such index: every earlier candidate is strictly farther away, and no
/// later one is nearer.
pub open spec fn is_first_closest(candidates: Seq<Position>, pos: Position, i: int) -> bool {
    &&& 0 <= i < candidates.len()
    &&& forall|j: int|
        0 <= j < i ==> (#[trigger] candidates[j]).spec_distance_squared(pos)
            > candidates[i].spec_distance_squared(pos)
    &&& forall|j: int|
        i <= j < candidates.len() ==> (#[trigger] candidates[j]).spec_distance_squared(pos)
            >= candidates[i].spec_distance_squared(pos)
}

/// Index of the candidate chosen for `pos`, or `None` where there is no
/// candidate.
pub open spec fn first_closest(candidates: Seq<Position>, pos: Position) -> Option<int> {
    if exists|i: int| is_first_closest(candidates, pos, i) {
        Some(choose|i: int| is_first_closest(candidates, pos, i))
    } else {
        None
    }
}

/// At most one index is the first closest.
pub proof fn lemma_first_closest_unique(candidates: Seq<Position>, pos: Position, i: int, j: int)
    requires
        is_first_closest(candidates, pos, i),
        is_first_closest(candidates, pos, j),
    ensures
        i == j,
{
    if i < j {
        assert(candidates[i].spec_distance_squared(pos) > candidates[j].spec_distance_squared(pos));
        assert(candidates[j].spec_distance_squared(pos) >= candidates[i].spec_distance_squared(pos));
    } else if j < i {
        assert(candidates[j].spec_distance_squared(pos) > candidates[i].spec_distance_squared(pos));
        assert(candidates[i].spec_distance_squared(pos) >= candidates[j].spec_distance_squared(pos));
    }
}

/// An index that is the first closest is the one that is chosen.
pub proof fn lemma_first_closest_is(candidates: Seq<Position>, pos: Position, i: int)
    requires
        is_first_closest(candidates, pos, i),
    ensures
        first_closest(candidates, pos) == Some(i),
{
    let chosen = choose|k: int| is_first_closest(candidates, pos, k);
    lemma_first_closest_unique(candidates, pos, i, chosen);
}

/// Scanning one more candidate: it becomes the choice exactly when it is
/// strictly nearer than the choice so far.
pub proof fn lemma_first_closest_push(
    candidates: Seq<Position>,
    pos: Position,
    i: int,
    next: Position,
)
    requires
        is_first_closest(candidates, pos, i),
    ensures
        is_first_closest(
            candidates.push(next),
            pos,
            if next.spec_distance_squared(pos) < candidates[i].spec_distance_squared(pos) {
                candidates.len() as int
            } else {
                i
            },
        ),
{
    let longer = candidates.push(next);
    assert forall|j: int| 0 <= j < candidates.len() implies longer[j] == candidates[j] by {}
    assert(longer[candidates.len() as int] == next);
    if next.spec_distance_squared(pos) < candidates[i].spec_distance_squared(pos) {
        let n = candidates.len() as int;
        assert forall|j: int| 0 <= j < n implies (#[trigger] longer[j]).spec_distance_squared(pos)
            > longer[n].spec_distance_squared(pos) by {
            assert(candidates[j].spec_distance_squared(pos) >= candidates[i].spec_distance_squared(
                pos,
            )) by {
                if j < i {
                    assert(candidates[j].spec_distance_squared(pos)
                        > candidates[i].spec_distance_squared(pos));
                }
            }
        }
    } else {
        assert forall|j: int| i <= j < longer.len() implies (#[trigger] longer[j])
            .spec_distance_squared(pos) >= longer[i].spec_distance_squared(pos) by {
            if j < candidates.len() {
                assert(candidates[j].spec_distance_squared(pos)
                    >= candidates[i].spec_distance_squared(pos));
            }
        }
        assert forall|j: int| 0 <= j < i implies (#[trigger] longer[j]).spec_distance_squared(pos)
            > longer[i].spec_distance_squared(pos) by {
            assert(candidates[j].spec_distance_squared(pos) > candidates[i].spec_distance_squared(
                pos,
            ));
        }
    }
}

/// A candidate is chosen exactly when there is one.
pub proof fn lemma_first_closest_some(candidates: Seq<Position>, pos: Position)
    ensures
        first_closest(candidates, pos) is None <==> candidates.len() == 0,
        first_closest(candidates, pos) matches Some(i) ==> is_first_closest(candidates, pos, i),
    decreases candidates.len(),
{
    if candidates.len() == 0 {
    } else if candidates.len() == 1 {
        assert(is_first_closest(candidates, pos, 0));
    } else {
        let shorter = candidates.drop_last();
        lemma_first_closest_some(shorter, pos);
        let i = first_closest(shorter, pos).unwrap();
        lemma_first_closest_push(shorter, pos, i, candidates.last());
        assert(shorter.push(candidates.last()) =~= candidates);
    }
}

/// The chosen candidate is nearest: no candidate is nearer to `pos`.
pub proof fn lemma_closest_is_nearest(candidates: Seq<Position>, pos: Position, j: int)
    requires
        0 <= j < candidates.len(),
    ensures
        first_closest(candidates, pos) matches Some(i) && candidates[i].spec_distance_squared(pos)
            <= candidates[j].spec_distance_squared(pos),
{
    lemma_first_closest_some(candidates, pos);
    let i = first_closest(candidates, pos).unwrap();
    if j < i {
        assert(candidates[j].spec_distance_squared(pos) > candidates[i].spec_distance_squared(pos));
    } else {
        assert(candidates[j].spec_distance_squared(pos) >= candidates[i].spec_distance_squared(pos));
    }
}

/// Ties go to the earliest: a candidate as near as the chosen one does not
/// come before it in the scan, whatever else it holds.
pub proof fn lemma_earliest_of_equals_wins(candidates: Seq<Position>, pos: Position, j: int)
    requires
        0 <= j < candidates.len(),
        first_closest(candidates, pos) matches Some(i) && candidates[j].spec_distance_squared(pos)
            == candidates[i].spec_distance_squared(pos),
    ensures
        first_closest(candidates, pos) matches Some(i) && i <= j,
{
    lemma_first_closest_some(candidates, pos);
    let i = first_closest(candidates, pos).unwrap();
    if j < i {
        assert(candidates[j].spec_distance_squared(pos) > candidates[i].spec_distance_squared(pos));
    }
}

/// Positions of a sequence of cells, in order.
pub open spec fn cell_positions(cells: Seq<Cell>) -> Seq<Position> {
    Seq::new(cells.len(), |i: int| cells[i].pos)
}

/// Positions of a sequence of city tiles, in order.
pub open spec fn tile_positions(tiles: Seq<CityTile>) -> Seq<Position> {
    Seq::new(tiles.len(), |i: int| tiles[i].pos)
}

/// The tiles of all cities in scan order: city by city, and within a city
/// tile by tile.
pub open spec fn city_tiles(cities: Seq<City>) -> Seq<CityTile>
    decreases cities.len(),
{
    if cities.len() == 0 {
        Seq::empty()
    } else {
        city_tiles(cities.drop_last()) + cities.last().citytiles@
    }
}

/// The cell of `cells` nearest to `pos`, the earliest of the nearest.
pub open spec fn closest_cell(cells: Seq<Cell>, pos: Position) -> Option<Cell> {
    match first_closest(cell_positions(cells), pos) {
        Some(i) => Some(cells[i]),
        None => None,
    }
}

/// The city tile nearest to `pos`, the earliest of the nearest in scan
/// order.
pub open spec fn closest_city_tile(cities: Seq<City>, pos: Position) -> Option<CityTile> {
    match first_closest(tile_positions(city_tiles(cities)), pos) {
        Some(i) => Some(city_tiles(cities)[i]),
        None => None,
    }
}

} // verus!
