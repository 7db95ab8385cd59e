//! Grid geometry: positions, the four cardinal directions, and exact
//! comparison of straight-line distances.

use vstd::prelude::*;

verus! {

/// A cardinal direction, the unit of a single-step move.
#[derive(Clone, Copy, Debug, PartialEq, Eq, Structural)]
pub enum Direction {
    North,
    South,
    East,
    West,
}

impl Direction {
    /// Change of the `x` coordinate made by one step in this direction.
    pub open spec fn dx(self) -> int {
        match self {
            Direction::East => 1,
            Direction::West => -1,
            _ => 0,
        }
    }

    /// Change of the `y` coordinate made by one step in this direction.
    /// The origin is the top-left corner of the board: north is up, toward
    /// smaller `y`.
    pub open spec fn dy(self) -> int {
        match self {
            Direction::North => -1,
            Direction::South => 1,
            _ => 0,
        }
    }
}

/// An integer grid coordinate.
#[derive(Clone, Copy, Debug, PartialEq, Eq, Structural)]
pub struct Position {
    pub x: i32,
    pub y: i32,
}

impl Position {
    pub fn new(x: i32, y: i32) -> (p: Position)
        ensures
            p.x == x,
            p.y == y,
    {
        Position { x, y }
    }

    /// Square of the Euclidean distance between two positions.
    ///
    /// Euclidean distances are ordered exactly as their squares are, so
    /// every comparison of distances is made on this integer.
    pub open spec fn spec_distance_squared(self, other: Position) -> int {
        (self.x - other.x) * (self.x - other.x) + (self.y - other.y) * (self.y - other.y)
    }

    pub fn distance_squared(&self, other: &Position) -> (d: u128)
        ensures
            d == self.spec_distance_squared(*other),
            d < u128::MAX,
    {
        let dx: i128 = self.x as i128 - other.x as i128;
        let dy: i128 = self.y as i128 - other.y as i128;
        assert(0 <= dx * dx <= 0x1_0000_0000_0000_0000) by (nonlinear_arith)
            requires
                -0x1_0000_0000 <= dx <= 0x1_0000_0000,
        ;
        assert(0 <= dy * dy <= 0x1_0000_0000_0000_0000) by (nonlinear_arith)
            requires
                -0x1_0000_0000 <= dy <= 0x1_0000_0000,
        ;
        (dx * dx + dy * dy) as u128
    }

    /// Coordinates reached from here by `units` steps in `direction`, as
    /// mathematical integers.
    pub open spec fn spec_translate(self, direction: Direction, units: int) -> (int, int) {
        (self.x + direction.dx() * units, self.y + direction.dy() * units)
    }

    /// Whether a pair of mathematical coordinates is a `Position`.
    pub open spec fn representable(point: (int, int)) -> bool {
        &&& i32::MIN <= point.0 <= i32::MAX
        &&& i32::MIN <= point.1 <= i32::MAX
    }

    /// The position `units` steps away in `direction`, or `None` where that
    /// point lies outside the coordinate range.
    pub fn translate(&self, direction: Direction, units: i32) -> (r: Option<Position>)
        ensures
            match r {
                Some(p) => (p.x as int, p.y as int) == self.spec_translate(direction, units as int),
                None => !Self::representable(self.spec_translate(direction, units as int)),
            },
    {
        let (sx, sy): (i64, i64) = match direction {
            Direction::North => (0, -1),
            Direction::South => (0, 1),
            Direction::East => (1, 0),
            Direction::West => (-1, 0),
        };
        let nx: i64 = self.x as i64 + sx * (units as i64);
        let ny: i64 = self.y as i64 + sy * (units as i64);
        if nx < i32::MIN as i64 || nx > i32::MAX as i64 || ny < i32::MIN as i64 || ny > i32::MAX as i64 {
            None
        } else {
            Some(Position { x: nx as i32, y: ny as i32 })
        }
    }
}

} // verus!
