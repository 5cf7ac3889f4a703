//! The grid model: one robot, at most one piece of food, everything else empty.
use rand::Rng;
use vstd::prelude::*;

verus! {

/// Number of rows of the grid.
pub const WORLD_HEIGHT: usize = 100;

/// Number of columns of the grid.
pub const WORLD_WIDTH: usize = 100;

/// Tile in the world, can either be a robot, food or empty.
#[derive(Clone, Copy, Debug, PartialEq, Eq, Structural)]
pub enum Tile {
    Robot,
    Food,
    Empty,
}

/// Whether food is still on the board.
#[derive(Clone, Copy, Debug, PartialEq, Eq, Structural)]
pub enum WorldState {
    FoundFood,
    Searching,
}

/// One step of the robot.
#[derive(Clone, Copy, Debug, PartialEq, Eq, Structural)]
pub enum RobotMovement {
    Up,
    Left,
    Right,
    Down,
}

/// Why a move was refused.
#[derive(Clone, Copy, Debug, PartialEq, Eq, Structural)]
pub enum MoveError {
    /// The step would leave the grid.
    OutOfBounds,
    /// The grid holds no robot.
    RobotNotFound,
}

/// The board, indexed `data[row][col]`.
#[derive(Clone, Debug)]
pub struct World {
    pub data: Vec<Vec<Tile>>,
}

/// A full snapshot of the board and its search state, as sent to clients.
#[derive(Clone, Debug)]
pub struct WorldUpdate {
    pub world: World,
    pub world_state: WorldState,
}

/// A grid as rows of tiles.
pub type Grid = Seq<Seq<Tile>>;

pub open spec fn in_grid(y: int, x: int) -> bool {
    0 <= y < WORLD_HEIGHT && 0 <= x < WORLD_WIDTH
}

/// `WORLD_HEIGHT` rows of `WORLD_WIDTH` tiles each.
pub open spec fn well_shaped(g: Grid) -> bool {
    &&& g.len() == WORLD_HEIGHT
    &&& forall|y: int| 0 <= y < WORLD_HEIGHT ==> (#[trigger] g[y]).len() == WORLD_WIDTH
}

pub open spec fn tile_at(g: Grid, y: int, x: int) -> Tile {
    g[y][x]
}

/// Some cell of the grid holds `t`.
pub open spec fn has_tile(g: Grid, t: Tile) -> bool {
    exists|y: int, x: int| in_grid(y, x) && #[trigger] tile_at(g, y, x) == t
}

/// No two distinct cells hold `t`.
pub open spec fn at_most_one(g: Grid, t: Tile) -> bool {
    forall|y1: int, x1: int, y2: int, x2: int|
        in_grid(y1, x1) && in_grid(y2, x2) && #[trigger] tile_at(g, y1, x1) == t
            && #[trigger] tile_at(g, y2, x2) == t ==> y1 == y2 && x1 == x2
}

/// The board's invariant: exactly one robot and at most one piece of food.
pub open spec fn valid_grid(g: Grid) -> bool {
    &&& well_shaped(g)
    &&& has_tile(g, Tile::Robot)
    &&& at_most_one(g, Tile::Robot)
    &&& at_most_one(g, Tile::Food)
}

/// The cell one step from `(y, x)` in direction `d`; it may lie off the grid.
pub open spec fn target(y: int, x: int, d: RobotMovement) -> (int, int) {
    match d {
        RobotMovement::Up => (y - 1, x),
        RobotMovement::Left => (y, x - 1),
        RobotMovement::Right => (y, x + 1),
        RobotMovement::Down => (y + 1, x),
    }
}

pub open spec fn set_tile(g: Grid, y: int, x: int, t: Tile) -> Grid {
    g.update(y, g[y].update(x, t))
}

/// The grid after the robot at `(y, x)` steps in direction `d`: the target
/// cell becomes the robot, whatever it held, and the old cell becomes empty.
pub open spec fn moved(g: Grid, y: int, x: int, d: RobotMovement) -> Grid {
    let t = target(y, x, d);
    set_tile(set_tile(g, t.0, t.1, Tile::Robot), y, x, Tile::Empty)
}

/// The cell that holds the robot, where one does.
pub open spec fn robot_cell(g: Grid) -> (int, int) {
    choose|y: int, x: int| in_grid(y, x) && #[trigger] tile_at(g, y, x) == Tile::Robot
}

/// What moving the robot of `g` in direction `d` gives: the new grid, or the
/// reason the move is refused.
pub open spec fn step(g: Grid, d: RobotMovement) -> Result<Grid, MoveError> {
    if !has_tile(g, Tile::Robot) {
        Err(MoveError::RobotNotFound)
    } else {
        let p = robot_cell(g);
        let t = target(p.0, p.1, d);
        if in_grid(t.0, t.1) {
            Ok(moved(g, p.0, p.1, d))
        } else {
            Err(MoveError::OutOfBounds)
        }
    }
}

/// `Searching` while food remains, else `FoundFood`.
pub open spec fn search_state(g: Grid) -> WorldState {
    if has_tile(g, Tile::Food) {
        WorldState::Searching
    } else {
        WorldState::FoundFood
    }
}

/// A grid of empty tiles.
pub open spec fn empty_grid() -> Grid {
    Seq::new(WORLD_HEIGHT as nat, |y: int| Seq::new(WORLD_WIDTH as nat, |x: int| Tile::Empty))
}

/// An empty grid with food at `(fy, fx)`, then the robot at `(ry, rx)`; where
/// the two cells coincide the robot wins.
pub open spec fn placed(fy: int, fx: int, ry: int, rx: int) -> Grid {
    set_tile(set_tile(empty_grid(), fy, fx, Tile::Food), ry, rx, Tile::Robot)
}

/// Row and column of the cell with row-major index `i`.
pub open spec fn cell_of(i: int) -> (int, int) {
    (i / WORLD_WIDTH as int, i % WORLD_WIDTH as int)
}

/// The `i`-th cell in row-major order, skipping the cell with index `skip`.
pub open spec fn index_skipping(i: int, skip: int) -> int {
    if i < skip {
        i
    } else {
        i + 1
    }
}

/// Relies on rand's `thread_rng().gen_range(0..n)`: a value of `0..n`. It
/// panics on an empty range, which `requires` rules out.
#[verifier::external_body]
fn random_below(n: usize) -> (r: usize)
    requires
        n > 0,
    ensures
        r < n,
{
    rand::thread_rng().gen_range(0..n)
}

impl View for World {
    type V = Grid;

    open spec fn view(&self) -> Grid {
        self.data@.map_values(|row: Vec<Tile>| row@)
    }
}

impl World {
    /// A world of empty tiles only.
    pub fn empty() -> (r: World)
        ensures
            r@ == empty_grid(),
    {
        let mut data: Vec<Vec<Tile>> = Vec::new();
        while data.len() < WORLD_HEIGHT
            invariant
                data@.len() <= WORLD_HEIGHT,
                forall|i: int| 0 <= i < data@.len() ==> #[trigger] data@[i]@ == empty_grid()[i],
            decreases WORLD_HEIGHT - data@.len(),
        {
            let mut row: Vec<Tile> = Vec::new();
            while row.len() < WORLD_WIDTH
                invariant
                    row@.len() <= WORLD_WIDTH,
                    forall|j: int| 0 <= j < row@.len() ==> row@[j] == Tile::Empty,
                decreases WORLD_WIDTH - row@.len(),
            {
                row.push(Tile::Empty);
            }
            assert(row@ =~= empty_grid()[data@.len() as int]);
            data.push(row);
        }
        let r = World { data };
        assert(r@ =~= empty_grid());
        r
    }

    /// A world with food at `food` and the robot at `robot`, both given as
    /// `(row, col)`. Where the two coincide the robot stands there and no food is left.
    pub fn custom(food: (usize, usize), robot: (usize, usize)) -> (r: World)
        requires
            in_grid(food.0 as int, food.1 as int),
            in_grid(robot.0 as int, robot.1 as int),
        ensures
            r@ == placed(food.0 as int, food.1 as int, robot.0 as int, robot.1 as int),
            r.wf(),
            valid_grid(r@),
    {
        let (food_y, food_x) = food;
        let (robot_y, robot_x) = robot;
        let mut r = World::empty();
        assert(r@.len() == WORLD_HEIGHT);
        assert(r.data@[food_y as int]@ == r@[food_y as int]);
        r.data[food_y][food_x] = Tile::Food;
        assert(r@ =~~= set_tile(empty_grid(), food_y as int, food_x as int, Tile::Food));
        assert(r.data@[robot_y as int]@ == r@[robot_y as int]);
        r.data[robot_y][robot_x] = Tile::Robot;
        assert(r@ =~~= placed(food_y as int, food_x as int, robot_y as int, robot_x as int));
        proof {
            lemma_placed_valid(food_y as int, food_x as int, robot_y as int, robot_x as int);
        }
        r
    }

    /// A world whose food and robot stand on distinct cells chosen by two
    /// indices: `food_cell` counts all cells in row-major order, `robot_cell`
    /// counts the cells other than the food's.
    pub fn from_cells(food_cell: usize, robot_cell: usize) -> (r: World)
        requires
            food_cell < WORLD_HEIGHT * WORLD_WIDTH,
            robot_cell < WORLD_HEIGHT * WORLD_WIDTH - 1,
        ensures
            ({
                let f = cell_of(food_cell as int);
                let p = cell_of(index_skipping(robot_cell as int, food_cell as int));
                &&& r@ == placed(f.0, f.1, p.0, p.1)
                &&& f != p
            }),
            r.wf(),
            valid_grid(r@),
            has_tile(r@, Tile::Food),
    {
        let robot_index: usize = if robot_cell < food_cell {
            robot_cell
        } else {
            robot_cell + 1
        };
        let food = (food_cell / WORLD_WIDTH, food_cell % WORLD_WIDTH);
        let robot = (robot_index / WORLD_WIDTH, robot_index % WORLD_WIDTH);
        let r = World::custom(food, robot);
        proof {
            let g = r@;
            assert(tile_at(g, food.0 as int, food.1 as int) == Tile::Food);
        }
        r
    }

    /// A copy of the board, cell by cell.
    pub fn snapshot(&self) -> (r: World)
        ensures
            r@ == self@,
    {
        let mut data: Vec<Vec<Tile>> = Vec::new();
        let mut i: usize = 0;
        while i < self.data.len()
            invariant
                i <= self.data@.len(),
                data@.len() == i,
                forall|k: int| 0 <= k < i ==> #[trigger] data@[k]@ == self.data@[k]@,
            decreases self.data@.len() - i,
        {
            let src = &self.data[i];
            let mut row: Vec<Tile> = Vec::new();
            let mut j: usize = 0;
            while j < src.len()
                invariant
                    j <= src@.len(),
                    row@ == src@.subrange(0, j as int),
                decreases src@.len() - j,
            {
                row.push(src[j]);
                j = j + 1;
                assert(row@ =~= src@.subrange(0, j as int));
            }
            assert(row@ =~= src@);
            data.push(row);
            i = i + 1;
        }
        let r = World { data };
        assert(r@ =~= self@);
        r
    }

    /// The shape is right and no two cells hold the robot.
    pub open spec fn wf(&self) -> bool {
        well_shaped(self@) && at_most_one(self@, Tile::Robot)
    }

    /// Tests `wf`: every row has the right length and at most one cell holds the robot.
    pub fn is_wf(&self) -> (r: bool)
        ensures
            r == self.wf(),
    {
        if self.data.len() != WORLD_HEIGHT {
            return false;
        }
        let mut y: usize = 0;
        while y < WORLD_HEIGHT
            invariant
                self.data@.len() == WORLD_HEIGHT,
                y <= WORLD_HEIGHT,
                forall|k: int| 0 <= k < y ==> (#[trigger] self@[k]).len() == WORLD_WIDTH,
            decreases WORLD_HEIGHT - y,
        {
            if self.data[y].len() != WORLD_WIDTH {
                assert(self@[y as int].len() != WORLD_WIDTH);
                return false;
            }
            y = y + 1;
        }
        assert(well_shaped(self@));
        let mut seen: Option<(usize, usize)> = None;
        let mut y: usize = 0;
        while y < WORLD_HEIGHT
            invariant
                well_shaped(self@),
                y <= WORLD_HEIGHT,
                seen matches Some(p) ==> p.0 < y && p.1 < WORLD_WIDTH && tile_at(self@, p.0 as int, p.1 as int) == Tile::Robot,
                forall|yy: int, xx: int|
                    0 <= yy < y && 0 <= xx < WORLD_WIDTH && #[trigger] tile_at(self@, yy, xx) == Tile::Robot ==> seen
                        == Some((yy as usize, xx as usize)),
            decreases WORLD_HEIGHT - y,
        {
            let row = &self.data[y];
            assert(row@ == self@[y as int]);
            let mut x: usize = 0;
            while x < WORLD_WIDTH
                invariant
                    well_shaped(self@),
                    y < WORLD_HEIGHT,
                    row@ == self@[y as int],
                    x <= WORLD_WIDTH,
                    seen matches Some(p) ==> p.0 <= y && p.1 < WORLD_WIDTH && tile_at(self@, p.0 as int, p.1 as int) == Tile::Robot
                        && (p.0 == y ==> p.1 < x),
                    forall|yy: int, xx: int|
                        0 <= yy < y && 0 <= xx < WORLD_WIDTH && #[trigger] tile_at(self@, yy, xx) == Tile::Robot ==> seen
                            == Some((yy as usize, xx as usize)),
                    forall|xx: int|
                        0 <= xx < x && #[trigger] tile_at(self@, y as int, xx) == Tile::Robot ==> seen == Some((y, xx as usize)),
                decreases WORLD_WIDTH - x,
            {
                if row[x] == Tile::Robot {
                    if let Some(p) = seen {
                        assert(tile_at(self@, p.0 as int, p.1 as int) == Tile::Robot);
                        assert(tile_at(self@, y as int, x as int) == Tile::Robot);
                        return false;
                    }
                    seen = Some((y, x));
                }
                x = x + 1;
            }
            y = y + 1;
        }
        true
    }

    /// Finds the first cell holding `t`, scanning rows from the top and each row
    /// from the left.
    pub fn find_tile(&self, t: Tile) -> (r: Option<(usize, usize)>)
        requires
            well_shaped(self@),
        ensures
            r is None <==> !has_tile(self@, t),
            r matches Some((y, x)) ==> in_grid(y as int, x as int) && tile_at(self@, y as int, x as int) == t,
            r matches Some((y, x)) ==> forall|yy: int, xx: int|
                0 <= yy <= y && 0 <= xx < WORLD_WIDTH && (yy < y || xx < x) ==> #[trigger] tile_at(
                    self@,
                    yy,
                    xx,
                ) != t,
    {
        let mut y: usize = 0;
        while y < WORLD_HEIGHT
            invariant
                well_shaped(self@),
                y <= WORLD_HEIGHT,
                forall|yy: int, xx: int| 0 <= yy < y && 0 <= xx < WORLD_WIDTH ==> tile_at(self@, yy, xx) != t,
            decreases WORLD_HEIGHT - y,
        {
            let row = &self.data[y];
            assert(row@ == self@[y as int]);
            let mut x: usize = 0;
            while x < WORLD_WIDTH
                invariant
                    well_shaped(self@),
                    y < WORLD_HEIGHT,
                    row@ == self@[y as int],
                    x <= WORLD_WIDTH,
                    forall|yy: int, xx: int| 0 <= yy < y && 0 <= xx < WORLD_WIDTH ==> tile_at(self@, yy, xx) != t,
                    forall|xx: int| 0 <= xx < x ==> tile_at(self@, y as int, xx) != t,
                decreases WORLD_WIDTH - x,
            {
                if row[x] == t {
                    return Some((y, x));
                }
                x = x + 1;
            }
            y = y + 1;
        }
        None
    }

    /// Moves the robot one cell. A step off the grid is refused with
    /// `OutOfBounds`, a grid without a robot with `RobotNotFound`; either way the
    /// grid is left as it was. A robot stepping onto food replaces it.
    pub fn move_robot(&mut self, direction: RobotMovement) -> (r: Result<(), MoveError>)
        requires
            old(self).wf(),
        ensures
            final(self).wf(),
            valid_grid(old(self)@) ==> valid_grid(final(self)@),
            match step(old(self)@, direction) {
                Ok(g) => r is Ok && final(self)@ == g,
                Err(e) => r == Err::<(), MoveError>(e) && final(self)@ == old(self)@,
            },
            !has_tile(old(self)@, Tile::Robot) ==> r == Err::<(), MoveError>(MoveError::RobotNotFound)
                && final(self)@ == old(self)@,
            forall|y: int, x: int|
                in_grid(y, x) && #[trigger] tile_at(old(self)@, y, x) == Tile::Robot ==> if in_grid(
                    target(y, x, direction).0,
                    target(y, x, direction).1,
                ) {
                    r == Ok::<(), MoveError>(()) && final(self)@ == moved(old(self)@, y, x, direction)
                } else {
                    r == Err::<(), MoveError>(MoveError::OutOfBounds) && final(self)@ == old(self)@
                },
    {
        let (old_y, old_x) = match self.find_tile(Tile::Robot) {
            None => {
                return Err(MoveError::RobotNotFound);
            },
            Some(p) => p,
        };
        proof {
            let c = robot_cell(self@);
            assert(tile_at(self@, c.0, c.1) == Tile::Robot);
            assert(c == (old_y as int, old_x as int));
        }
        // Each edge is tested before the step, so no coordinate ever leaves the grid.
        let (new_y, new_x): (usize, usize) = match direction {
            RobotMovement::Up => {
                if old_y == 0 {
                    return Err(MoveError::OutOfBounds);
                }
                (old_y - 1, old_x)
            },
            RobotMovement::Left => {
                if old_x == 0 {
                    return Err(MoveError::OutOfBounds);
                }
                (old_y, old_x - 1)
            },
            RobotMovement::Right => {
                if old_x + 1 >= WORLD_WIDTH {
                    return Err(MoveError::OutOfBounds);
                }
                (old_y, old_x + 1)
            },
            RobotMovement::Down => {
                if old_y + 1 >= WORLD_HEIGHT {
                    return Err(MoveError::OutOfBounds);
                }
                (old_y + 1, old_x)
            },
        };
        let ghost g0 = self@;
        assert(self.data@[new_y as int]@ == g0[new_y as int]);
        assert(self.data@[old_y as int]@ == g0[old_y as int]);
        self.data[new_y][new_x] = Tile::Robot;
        self.data[old_y][old_x] = Tile::Empty;
        proof {
            let g1 = moved(g0, old_y as int, old_x as int, direction);
            assert(self@ =~~= g1);
            lemma_moved_keeps_one_robot(g0, old_y as int, old_x as int, direction);
            if valid_grid(g0) {
                lemma_move_in_bounds(g0, old_y as int, old_x as int, direction);
            }
        }
        Ok(())
    }

    /// `Searching` while some cell holds food, else `FoundFood`.
    pub fn world_state(&self) -> (r: WorldState)
        requires
            well_shaped(self@),
        ensures
            r == search_state(self@),
    {
        match self.find_tile(Tile::Food) {
            Some(_) => WorldState::Searching,
            None => WorldState::FoundFood,
        }
    }
}

/// A freshly placed grid holds exactly one robot and at most one piece of food.
pub proof fn lemma_placed_valid(fy: int, fx: int, ry: int, rx: int)
    requires
        in_grid(fy, fx),
        in_grid(ry, rx),
    ensures
        valid_grid(placed(fy, fx, ry, rx)),
        (fy, fx) != (ry, rx) ==> tile_at(placed(fy, fx, ry, rx), fy, fx) == Tile::Food,
{
    let g = placed(fy, fx, ry, rx);
    assert(tile_at(g, ry, rx) == Tile::Robot);
    assert forall|y: int| 0 <= y < WORLD_HEIGHT implies (#[trigger] g[y]).len() == WORLD_WIDTH by {}
}

impl Default for World {
    /// A world with food and robot on two distinct cells drawn at random.
    fn default() -> (r: World)
        ensures
            valid_grid(r@),
            has_tile(r@, Tile::Food),
    {
        let food_cell = random_below(WORLD_HEIGHT * WORLD_WIDTH);
        let robot_cell = random_below(WORLD_HEIGHT * WORLD_WIDTH - 1);
        World::from_cells(food_cell, robot_cell)
    }
}

/// After a move inside the grid the robot stands on the target cell and
/// nowhere else.
pub proof fn lemma_moved_keeps_one_robot(g: Grid, y: int, x: int, d: RobotMovement)
    requires
        well_shaped(g),
        at_most_one(g, Tile::Robot),
        in_grid(y, x),
        tile_at(g, y, x) == Tile::Robot,
        in_grid(target(y, x, d).0, target(y, x, d).1),
    ensures
        well_shaped(moved(g, y, x, d)),
        tile_at(moved(g, y, x, d), target(y, x, d).0, target(y, x, d).1) == Tile::Robot,
        forall|yy: int, xx: int|
            in_grid(yy, xx) && #[trigger] tile_at(moved(g, y, x, d), yy, xx) == Tile::Robot ==> yy
                == target(y, x, d).0 && xx == target(y, x, d).1,
        at_most_one(moved(g, y, x, d), Tile::Robot),
{
    let m = moved(g, y, x, d);
    let t = target(y, x, d);
    assert forall|yy: int, xx: int| in_grid(yy, xx) && #[trigger] tile_at(m, yy, xx) == Tile::Robot implies yy
        == t.0 && xx == t.1 by {
        if !(yy == t.0 && xx == t.1) {
            assert(tile_at(g, yy, xx) == Tile::Robot);
        }
    }
}

/// `(y2, x2)` is one of the four cells next to `(y1, x1)`.
pub open spec fn adjacent(y1: int, x1: int, y2: int, x2: int) -> bool {
    ||| y2 == y1 && (x2 == x1 + 1 || x2 == x1 - 1)
    ||| x2 == x1 && (y2 == y1 + 1 || y2 == y1 - 1)
}

/// A move that stays on the grid takes the robot to a neighbouring cell, empties
/// the cell it left, and keeps exactly one robot and at most one piece of food on
/// the board.
pub proof fn lemma_move_in_bounds(g: Grid, y: int, x: int, d: RobotMovement)
    requires
        valid_grid(g),
        in_grid(y, x),
        tile_at(g, y, x) == Tile::Robot,
        in_grid(target(y, x, d).0, target(y, x, d).1),
    ensures
        valid_grid(moved(g, y, x, d)),
        adjacent(y, x, target(y, x, d).0, target(y, x, d).1),
        tile_at(moved(g, y, x, d), target(y, x, d).0, target(y, x, d).1) == Tile::Robot,
        tile_at(moved(g, y, x, d), y, x) == Tile::Empty,
        forall|yy: int, xx: int|
            in_grid(yy, xx) && #[trigger] tile_at(moved(g, y, x, d), yy, xx) == Tile::Robot ==> yy
                == target(y, x, d).0 && xx == target(y, x, d).1,
{
    let m = moved(g, y, x, d);
    lemma_moved_keeps_one_robot(g, y, x, d);
    assert forall|y1: int, x1: int, y2: int, x2: int|
        in_grid(y1, x1) && in_grid(y2, x2) && #[trigger] tile_at(m, y1, x1) == Tile::Food
            && #[trigger] tile_at(m, y2, x2) == Tile::Food implies y1 == y2 && x1 == x2 by {
        assert(tile_at(g, y1, x1) == Tile::Food);
        assert(tile_at(g, y2, x2) == Tile::Food);
    }
    let t = target(y, x, d);
    assert(tile_at(m, t.0, t.1) == Tile::Robot);
}

/// Stepping onto the food eats it: the state goes from `Searching` to
/// `FoundFood`.
pub proof fn lemma_eating_food(g: Grid, y: int, x: int, d: RobotMovement)
    requires
        valid_grid(g),
        in_grid(y, x),
        tile_at(g, y, x) == Tile::Robot,
        in_grid(target(y, x, d).0, target(y, x, d).1),
        tile_at(g, target(y, x, d).0, target(y, x, d).1) == Tile::Food,
    ensures
        search_state(g) == WorldState::Searching,
        search_state(moved(g, y, x, d)) == WorldState::FoundFood,
{
    let t = target(y, x, d);
    let m = moved(g, y, x, d);
    assert(tile_at(g, t.0, t.1) == Tile::Food);
    if has_tile(m, Tile::Food) {
        let (fy, fx) = choose|fy: int, fx: int| in_grid(fy, fx) && #[trigger] tile_at(m, fy, fx) == Tile::Food;
        assert(tile_at(g, fy, fx) == Tile::Food);
    }
}

/// Once the food is gone no move brings it back.
pub proof fn lemma_food_stays_gone(g: Grid, y: int, x: int, d: RobotMovement)
    requires
        well_shaped(g),
        in_grid(y, x),
        in_grid(target(y, x, d).0, target(y, x, d).1),
        search_state(g) == WorldState::FoundFood,
    ensures
        search_state(moved(g, y, x, d)) == WorldState::FoundFood,
{
    let m = moved(g, y, x, d);
    if has_tile(m, Tile::Food) {
        let (fy, fx) = choose|fy: int, fx: int| in_grid(fy, fx) && #[trigger] tile_at(m, fy, fx) == Tile::Food;
        assert(tile_at(g, fy, fx) == Tile::Food);
    }
}

} // verus!
