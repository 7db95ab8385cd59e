//! The world as the engine sees it for one turn: a read-only snapshot of
//! the board, the player's units and cities, and the research state.

use vstd::prelude::*;
use crate::geometry::Position;

verus! {

#[derive(Clone, Copy, Debug, PartialEq, Eq, Structural)]
pub enum ResourceType {
    Wood,
    Coal,
    Uranium,
}

/// A deposit on a cell.
#[derive(Clone, Copy, Debug, PartialEq, Eq, Structural)]
pub struct Resource {
    pub resource_type: ResourceType,
    pub amount: i32,
}

/// One square of the board.
#[derive(Clone, Copy, Debug, PartialEq, Eq)]
pub struct Cell {
    pub pos: Position,
    pub resource: Option<Resource>,
    pub has_city_tile: bool,
}

impl Cell {
    /// A cell is empty when it carries neither a city tile nor a resource.
    pub open spec fn spec_is_empty(self) -> bool {
        !self.has_city_tile && self.resource is None
    }

    pub fn is_empty(&self) -> (r: bool)
        ensures
            r == self.spec_is_empty(),
    {
        !self.has_city_tile && self.resource.is_none()
    }
}

/// A rectangular board. Its cells are kept in row-major order: the cell at
/// `(x, y)` is element `y * width + x`, and every cell knows its own
/// position. A board whose width or height is not positive has no cells.
#[derive(Debug)]
pub struct GameMap {
    width: i32,
    height: i32,
    cells: Vec<Cell>,
}

impl View for GameMap {
    type V = Seq<Cell>;

    /// The cells in row-major order.
    closed spec fn view(&self) -> Seq<Cell> {
        self.cells@
    }
}

/// On a board `width` wide and `height` high, the coordinates `(x, y)` and
/// the row-major index `y * width + x` determine each other.
pub proof fn lemma_row_major(width: int, height: int, x: int, y: int)
    requires
        0 <= x < width,
        0 <= y < height,
    ensures
        0 <= y * width + x < width * height,
        (y * width + x) % width == x,
        (y * width + x) / width == y,
{
    assert(0 <= y * width && (y + 1) * width <= height * width) by (nonlinear_arith)
        requires
            0 <= y < height,
            0 < width,
    ;
    assert((y + 1) * width == y * width + width && height * width == width * height)
        by (nonlinear_arith);
    vstd::arithmetic::div_mod::lemma_fundamental_div_mod_converse(y * width + x, width, y, x);
}

impl GameMap {
    pub closed spec fn spec_width(&self) -> int {
        self.width as int
    }

    pub closed spec fn spec_height(&self) -> int {
        self.height as int
    }

    /// Whether `(x, y)` lies on the board.
    pub open spec fn spec_contains(&self, x: int, y: int) -> bool {
        0 <= x < self.spec_width() && 0 <= y < self.spec_height()
    }

    /// The cell at `(x, y)`, for coordinates on the board.
    pub open spec fn spec_cell(&self, x: int, y: int) -> Cell {
        self@[y * self.spec_width() + x]
    }

    /// The number of cells of a board of the given size.
    pub open spec fn cell_count(width: int, height: int) -> int {
        if width > 0 && height > 0 {
            width * height
        } else {
            0
        }
    }

    /// The shape that every board has.
    #[verifier::type_invariant]
    pub open spec fn wf(&self) -> bool {
        &&& i32::MIN <= self.spec_width() <= i32::MAX
        &&& i32::MIN <= self.spec_height() <= i32::MAX
        &&& self@.len() == Self::cell_count(self.spec_width(), self.spec_height())
        &&& forall|i: int|
            0 <= i < self@.len() ==> {
                &&& (#[trigger] self@[i]).pos.x == i % self.spec_width()
                &&& self@[i].pos.y == i / self.spec_width()
            }
    }

    /// On a well-formed board the cell at `(x, y)` carries that position.
    pub proof fn lemma_cell_position(&self, x: int, y: int)
        requires
            self.wf(),
            self.spec_contains(x, y),
        ensures
            0 <= y * self.spec_width() + x < self@.len(),
            self.spec_cell(x, y).pos.x == x,
            self.spec_cell(x, y).pos.y == y,
    {
        lemma_row_major(self.spec_width(), self.spec_height(), x, y);
    }

    /// A board of the given size on which every cell is empty.
    pub fn new(width: i32, height: i32) -> (map: GameMap)
        ensures
            map.wf(),
            map.spec_width() == width,
            map.spec_height() == height,
            forall|i: int| 0 <= i < map@.len() ==> (#[trigger] map@[i]).spec_is_empty(),
    {
        let mut cells: Vec<Cell> = Vec::new();
        if width <= 0 || height <= 0 {
            return GameMap { width, height, cells };
        }
        let mut y: i32 = 0;
        while y < height
            invariant
                0 < width,
                0 <= y <= height,
                cells@.len() == y * width,
                forall|k: int|
                    0 <= k < cells@.len() ==> {
                        &&& (#[trigger] cells@[k]).pos.x == k % (width as int)
                        &&& cells@[k].pos.y == k / (width as int)
                        &&& cells@[k].spec_is_empty()
                    },
            decreases height - y,
        {
            let mut x: i32 = 0;
            while x < width
                invariant
                    0 < width,
                    0 <= y < height,
                    0 <= x <= width,
                    cells@.len() == y * width + x,
                    forall|k: int|
                        0 <= k < cells@.len() ==> {
                            &&& (#[trigger] cells@[k]).pos.x == k % (width as int)
                            &&& cells@[k].pos.y == k / (width as int)
                            &&& cells@[k].spec_is_empty()
                        },
                decreases width - x,
            {
                proof {
                    lemma_row_major(width as int, height as int, x as int, y as int);
                }
                cells.push(Cell { pos: Position { x, y }, resource: None, has_city_tile: false });
                x = x + 1;
            }
            assert(y * width + width == (y + 1) * width) by (nonlinear_arith);
            y = y + 1;
        }
        assert(height * width == width * height) by (nonlinear_arith);
        GameMap { width, height, cells }
    }

    pub fn width(&self) -> (w: i32)
        ensures
            self.wf(),
            w == self.spec_width(),
    {
        proof {
            use_type_invariant(self);
        }
        self.width
    }

    pub fn height(&self) -> (h: i32)
        ensures
            self.wf(),
            h == self.spec_height(),
    {
        proof {
            use_type_invariant(self);
        }
        self.height
    }

    /// The cells in row-major order: the order in which the board is
    /// scanned.
    pub fn cells(&self) -> (cells: &Vec<Cell>)
        ensures
            self.wf(),
            cells@ == self@,
    {
        proof {
            use_type_invariant(self);
        }
        &self.cells
    }

    pub fn contains(&self, pos: &Position) -> (r: bool)
        ensures
            self.wf(),
            r == self.spec_contains(pos.x as int, pos.y as int),
    {
        proof {
            use_type_invariant(self);
        }
        pos.x >= 0 && pos.y >= 0 && pos.x < self.width && pos.y < self.height
    }

    /// Row-major index of a position on the board.
    fn index_of(&self, pos: &Position) -> (index: usize)
        requires
            self.wf(),
            self.spec_contains(pos.x as int, pos.y as int),
        ensures
            index == pos.y * self.spec_width() + pos.x,
            index < self@.len(),
            self@[index as int].pos == *pos,
    {
        let x: usize = pos.x as usize;
        let y: usize = pos.y as usize;
        let w: usize = self.width as usize;
        let len: usize = self.cells.len();
        proof {
            lemma_row_major(w as int, self.height as int, x as int, y as int);
            assert(0 <= y * w) by (nonlinear_arith)
                requires
                    0 <= y,
                    0 <= w,
            ;
            assert(y * w + x < len);
        }
        y * w + x
    }

    /// The cell at `pos`, or `None` where `pos` is off the board.
    pub fn get(&self, pos: &Position) -> (r: Option<&Cell>)
        ensures
            self.wf(),
            match r {
                Some(cell) => {
                    &&& self.spec_contains(pos.x as int, pos.y as int)
                    &&& *cell == self.spec_cell(pos.x as int, pos.y as int)
                    &&& cell.pos == *pos
                },
                None => !self.spec_contains(pos.x as int, pos.y as int),
            },
    {
        proof {
            use_type_invariant(self);
        }
        if !self.contains(pos) {
            return None;
        }
        let index: usize = self.index_of(pos);
        Some(&self.cells[index])
    }

    /// Overwrites one cell with a cell of the same position.
    fn replace_cell(&mut self, index: usize, cell: Cell)
        requires
            old(self).wf(),
            index < old(self)@.len(),
            cell.pos == old(self)@[index as int].pos,
        ensures
            final(self).wf(),
            final(self).spec_width() == old(self).spec_width(),
            final(self).spec_height() == old(self).spec_height(),
            final(self)@ == old(self)@.update(index as int, cell),
    {
        let mut taken = GameMap { width: 0, height: 0, cells: Vec::new() };
        core::mem::swap(self, &mut taken);
        let GameMap { width, height, mut cells } = taken;
        cells.set(index, cell);
        *self = GameMap { width, height, cells };
    }

    /// Puts `resource` on the cell at `pos`, or clears the cell's resource
    /// with `None`. Returns whether `pos` is on the board; off the board
    /// nothing changes.
    pub fn set_resource(&mut self, pos: &Position, resource: Option<Resource>) -> (done: bool)
        ensures
            final(self).wf(),
            final(self).spec_width() == old(self).spec_width(),
            final(self).spec_height() == old(self).spec_height(),
            done == old(self).spec_contains(pos.x as int, pos.y as int),
            done ==> final(self)@ == old(self)@.update(
                pos.y * old(self).spec_width() + pos.x,
                (Cell {
                    pos: *pos,
                    resource,
                    has_city_tile: old(self).spec_cell(pos.x as int, pos.y as int).has_city_tile,
                }),
            ),
            !done ==> final(self)@ == old(self)@,
    {
        proof {
            use_type_invariant(&*self);
        }
        if !self.contains(pos) {
            return false;
        }
        let index: usize = self.index_of(pos);
        let has_city_tile = self.cells[index].has_city_tile;
        self.replace_cell(index, Cell { pos: *pos, resource, has_city_tile });
        true
    }

    /// Marks the cell at `pos` as holding a city tile, or as holding none.
    /// Returns whether `pos` is on the board; off the board nothing changes.
    pub fn set_city_tile(&mut self, pos: &Position, present: bool) -> (done: bool)
        ensures
            final(self).wf(),
            final(self).spec_width() == old(self).spec_width(),
            final(self).spec_height() == old(self).spec_height(),
            done == old(self).spec_contains(pos.x as int, pos.y as int),
            done ==> final(self)@ == old(self)@.update(
                pos.y * old(self).spec_width() + pos.x,
                (Cell {
                    pos: *pos,
                    resource: old(self).spec_cell(pos.x as int, pos.y as int).resource,
                    has_city_tile: present,
                }),
            ),
            !done ==> final(self)@ == old(self)@,
    {
        proof {
            use_type_invariant(&*self);
        }
        if !self.contains(pos) {
            return false;
        }
        let index: usize = self.index_of(pos);
        let resource = self.cells[index].resource;
        self.replace_cell(index, Cell { pos: *pos, resource, has_city_tile: present });
        true
    }
}

impl Clone for GameMap {
    fn clone(&self) -> (copy: GameMap)
        ensures
            copy.wf(),
            copy.spec_width() == self.spec_width(),
            copy.spec_height() == self.spec_height(),
            copy@ == self@,
    {
        proof {
            use_type_invariant(self);
        }
        let cells = self.cells.clone();
        assert(cells@ =~= self.cells@);
        GameMap { width: self.width, height: self.height, cells }
    }
}

#[derive(Clone, Copy, Debug, PartialEq, Eq, Structural)]
pub enum UnitType {
    Worker,
    Cart,
}

/// A unit of the player, as it stands at the start of the turn.
#[derive(Clone, Copy, Debug, PartialEq, Eq)]
pub struct Unit {
    pub pos: Position,
    pub unit_type: UnitType,
    /// How much cargo the unit carries.
    pub cargo_space_used: i32,
    /// How much more it can carry.
    pub cargo_space_left: i32,
    /// Whether the unit may be given an order this turn.
    pub can_act: bool,
    /// Whether the board's rules allow founding a city on the cell where
    /// the unit stands.
    pub can_build: bool,
}

#[derive(Clone, Copy, Debug, PartialEq, Eq)]
pub struct CityTile {
    pub pos: Position,
    /// Whether the tile may be given an order this turn.
    pub can_act: bool,
}

/// A city: a cluster of tiles.
#[derive(Clone, Debug)]
pub struct City {
    pub citytiles: Vec<CityTile>,
}

/// Which resource types the player's research has unlocked.
#[derive(Clone, Copy, Debug, PartialEq, Eq)]
pub struct Research {
    pub wood: bool,
    pub coal: bool,
    pub uranium: bool,
}

impl Research {
    pub open spec fn spec_unlocked(self, resource_type: ResourceType) -> bool {
        match resource_type {
            ResourceType::Wood => self.wood,
            ResourceType::Coal => self.coal,
            ResourceType::Uranium => self.uranium,
        }
    }
}

#[derive(Clone, Debug)]
pub struct Player {
    pub units: Vec<Unit>,
    pub cities: Vec<City>,
    /// The player's running count of city tiles.
    pub city_tile_count: u32,
    pub research: Research,
}

impl Player {
    pub fn is_researched(&self, resource_type: ResourceType) -> (r: bool)
        ensures
            r == self.research.spec_unlocked(resource_type),
    {
        match resource_type {
            ResourceType::Wood => self.research.wood,
            ResourceType::Coal => self.research.coal,
            ResourceType::Uranium => self.research.uranium,
        }
    }
}

/// Everything the engine reads in one turn.
#[derive(Clone, Debug)]
pub struct GameState {
    /// The number of the turn, counted from zero.
    pub turn: u32,
    pub game_map: GameMap,
    pub player: Player,
    /// What a worker must carry to found a city.
    pub city_build_cost: i32,
}

} // verus!
