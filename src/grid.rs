//! The occupancy grid: what stands on each cell of the board, and the
//! classification of a move into a cell.
use rand::seq::SliceRandom;
use vstd::prelude::*;

verus! {

/// Number of cells along each side of the board.
pub const LEVEL_SIZE: i8 = 10;
/// Number of cells along each side of the stage (the platform).
pub const STAGE_WIDTH: i8 = 6;
/// Lowest coordinate of the stage, on both axes.
pub const STAGE_BL: i8 = 2;
/// Highest coordinate of the stage, on both axes.
pub const STAGE_UR: i8 = 7;
/// Number of cells of the board.
pub const GRID_CELLS: usize = 100;
/// Where the player starts.
pub const INIT_POS: [i8; 2] = [5i8, 5i8];

#[derive(Clone, Copy, Debug, PartialEq, Eq, Structural)]
pub enum CloudDir {
    Up,
    Down,
    Left,
    Right,
}

/// The content of one cell.
#[derive(Clone, Copy, Debug, PartialEq, Eq, Structural)]
pub enum TileOccupation {
    Empty,
    Player,
    LeftCloud,
    RightCloud,
    UpCloud,
    DownCloud,
    Despawn,
    CooldownCloud,
}

/// What happens when something moves into a cell.
#[derive(Clone, Copy, Debug, PartialEq, Eq, Structural)]
pub enum PushState {
    Empty,
    Blocked,
    CanPush,
    PlayerCanPush,
    Despawn,
    PushOver,
}

#[derive(Clone, Copy, Debug, PartialEq, Eq, Structural)]
pub enum LossCondition {
    NoLoss,
    TooMessy,
    Stuck,
}

/// A position as a pair of mathematical integers.
pub open spec fn tile_of(t: [i8; 2]) -> (int, int) {
    (t[0] as int, t[1] as int)
}

pub open spec fn in_range(p: (int, int)) -> bool {
    0 <= p.0 < LEVEL_SIZE && 0 <= p.1 < LEVEL_SIZE
}

pub open spec fn in_sky(p: (int, int)) -> bool {
    p.0 < STAGE_BL || p.1 < STAGE_BL || p.0 > STAGE_UR || p.1 > STAGE_UR
}

/// Position of a cell in the row-major storage of the grid.
pub open spec fn cell_index(p: (int, int)) -> int {
    p.0 * LEVEL_SIZE + p.1
}

pub open spec fn cell(g: Seq<TileOccupation>, p: (int, int)) -> TileOccupation {
    g[cell_index(p)]
}

pub open spec fn dx(d: CloudDir) -> int {
    match d {
        CloudDir::Left => -1,
        CloudDir::Right => 1,
        _ => 0,
    }
}

pub open spec fn dy(d: CloudDir) -> int {
    match d {
        CloudDir::Down => -1,
        CloudDir::Up => 1,
        _ => 0,
    }
}

/// The neighbour of `p` in direction `d`.
pub open spec fn offset(p: (int, int), d: CloudDir) -> (int, int) {
    (p.0 + dx(d), p.1 + dy(d))
}

pub open spec fn opposite(d: CloudDir) -> CloudDir {
    match d {
        CloudDir::Up => CloudDir::Down,
        CloudDir::Down => CloudDir::Up,
        CloudDir::Left => CloudDir::Right,
        CloudDir::Right => CloudDir::Left,
    }
}

/// The occupation tag of a cloud facing `d`.
pub open spec fn facing_tag(d: CloudDir) -> TileOccupation {
    match d {
        CloudDir::Down => TileOccupation::DownCloud,
        CloudDir::Up => TileOccupation::UpCloud,
        CloudDir::Left => TileOccupation::LeftCloud,
        CloudDir::Right => TileOccupation::RightCloud,
    }
}

/// Tags that stand for a cloud of any kind.
pub open spec fn is_cloud_tag(o: TileOccupation) -> bool {
    match o {
        TileOccupation::LeftCloud | TileOccupation::RightCloud | TileOccupation::UpCloud
        | TileOccupation::DownCloud | TileOccupation::CooldownCloud => true,
        _ => false,
    }
}

/// `p` lies on the last stage row or column in direction `d`.
pub open spec fn at_stage_edge(p: (int, int), d: CloudDir) -> bool {
    match d {
        CloudDir::Down => p.1 <= STAGE_BL,
        CloudDir::Up => p.1 >= STAGE_UR,
        CloudDir::Left => p.0 <= STAGE_BL,
        CloudDir::Right => p.0 >= STAGE_UR,
    }
}

/// Classification of a move of `mover` into cell `p` in direction `d`.
pub open spec fn query(
    g: Seq<TileOccupation>,
    p: (int, int),
    d: CloudDir,
    mover: TileOccupation,
) -> PushState {
    let target = cell(g, p);
    let beyond = offset(p, d);
    if !in_range(p) {
        PushState::Despawn
    } else if mover == TileOccupation::Player && in_sky(p) {
        PushState::Blocked
    } else if target == TileOccupation::Empty {
        PushState::Empty
    } else if !in_range(beyond) {
        if target == facing_tag(opposite(d)) {
            PushState::Blocked
        } else {
            PushState::PushOver
        }
    } else if cell(g, beyond) != TileOccupation::Empty && cell(g, beyond)
        != TileOccupation::Despawn {
        PushState::Blocked
    } else if target == TileOccupation::CooldownCloud {
        PushState::Blocked
    } else if target == facing_tag(opposite(d)) {
        PushState::Blocked
    } else if target == TileOccupation::Player && at_stage_edge(p, d) {
        PushState::Blocked
    } else {
        PushState::CanPush
    }
}

/// Coordinates small enough that a step in any direction stays an `i8`.
pub open spec fn near_board(t: [i8; 2]) -> bool {
    -100 <= t[0] <= 100 && -100 <= t[1] <= 100
}

/// The grid as it stands at the start of a run.
pub open spec fn initial_grid() -> Seq<TileOccupation> {
    Seq::new(
        GRID_CELLS as nat,
        |i: int|
            if i == cell_index(tile_of(INIT_POS)) {
                TileOccupation::Player
            } else {
                TileOccupation::Empty
            },
    )
}

/// The `j`-th cell of the spawn lane of clouds travelling in direction `d`.
pub open spec fn lane_tile(d: CloudDir, j: int) -> (int, int) {
    match d {
        CloudDir::Down => (STAGE_BL + j, LEVEL_SIZE - 1),
        CloudDir::Up => (STAGE_BL + j, 0),
        CloudDir::Left => (LEVEL_SIZE - 1, STAGE_BL + j),
        CloudDir::Right => (0, STAGE_BL + j),
    }
}

pub open spec fn is_lane_tile(d: CloudDir, p: (int, int)) -> bool {
    exists|j: int| 0 <= j < STAGE_WIDTH && lane_tile(d, j) == p
}

/// A stage cell, by its index in the storage.
pub open spec fn is_stage_index(i: int) -> bool {
    STAGE_BL <= i / (LEVEL_SIZE as int) <= STAGE_UR && STAGE_BL <= i % (LEVEL_SIZE as int)
        <= STAGE_UR
}

/// Number of stage cells among the first `n` cells that hold a cloud.
pub open spec fn mess_count_upto(g: Seq<TileOccupation>, n: int) -> nat
    decreases n,
{
    if n <= 0 {
        0
    } else {
        mess_count_upto(g, n - 1) + if is_stage_index(n - 1) && is_cloud_tag(g[n - 1]) {
            1nat
        } else {
            0nat
        }
    }
}

/// Number of stage cells that hold a cloud.
pub open spec fn mess_count(g: Seq<TileOccupation>) -> nat {
    mess_count_upto(g, GRID_CELLS as int)
}

/// Every neighbour of `p` blocks the player.
pub open spec fn is_stuck(g: Seq<TileOccupation>, p: (int, int)) -> bool {
    &&& query(g, offset(p, CloudDir::Left), CloudDir::Left, TileOccupation::Player)
        == PushState::Blocked
    &&& query(g, offset(p, CloudDir::Up), CloudDir::Up, TileOccupation::Player)
        == PushState::Blocked
    &&& query(g, offset(p, CloudDir::Right), CloudDir::Right, TileOccupation::Player)
        == PushState::Blocked
    &&& query(g, offset(p, CloudDir::Down), CloudDir::Down, TileOccupation::Player)
        == PushState::Blocked
}

/// Relies on rand's `SliceRandom::choose` with the thread-local generator:
/// `None` exactly for an empty slice, else one of its elements.
#[verifier::external_body]
fn choose_tile(cells: &Vec<[i8; 2]>) -> (r: Option<[i8; 2]>)
    ensures
        r.is_none() <==> cells@.len() == 0,
        r matches Some(t) ==> exists|k: int| 0 <= k < cells@.len() && cells@[k] == t,
{
    cells.as_slice().choose(&mut rand::thread_rng()).copied()
}

/// Transform a cloud direction into the matching occupation tag.
pub fn dir_to_tile(dir: CloudDir) -> (r: TileOccupation)
    ensures
        r == facing_tag(dir),
{
    match dir {
        CloudDir::Down => TileOccupation::DownCloud,
        CloudDir::Up => TileOccupation::UpCloud,
        CloudDir::Left => TileOccupation::LeftCloud,
        CloudDir::Right => TileOccupation::RightCloud,
    }
}

/// The neighbour of a position in direction `d`, as a position.
pub open spec fn next_pos(t: [i8; 2], d: CloudDir) -> [i8; 2] {
    [(t[0] + dx(d)) as i8, (t[1] + dy(d)) as i8]
}

/// The neighbour of `tile` in direction `dir`.
pub fn step_tile(tile: [i8; 2], dir: CloudDir) -> (r: [i8; 2])
    requires
        near_board(tile),
    ensures
        tile_of(r) == offset(tile_of(tile), dir),
        r == next_pos(tile, dir),
{
    match dir {
        CloudDir::Down => [tile[0], tile[1] - 1],
        CloudDir::Up => [tile[0], tile[1] + 1],
        CloudDir::Left => [tile[0] - 1, tile[1]],
        CloudDir::Right => [tile[0] + 1, tile[1]],
    }
}

/// Whether two positions are the same cell.
pub fn same_tile(a: [i8; 2], b: [i8; 2]) -> (r: bool)
    ensures
        r == (tile_of(a) == tile_of(b)),
{
    a[0] == b[0] && a[1] == b[1]
}

pub struct GridState {
    pub grid: Vec<TileOccupation>,
    pub cloud_count: usize,
    pub loss_condition: LossCondition,
}

impl GridState {
    pub open spec fn wf(&self) -> bool {
        self.grid@.len() == GRID_CELLS
    }

    /// A fresh grid: every cell empty but the player's.
    pub fn new() -> (r: GridState)
        ensures
            r.wf(),
            r.grid@ == initial_grid(),
            r.cloud_count == 0,
            r.loss_condition == LossCondition::NoLoss,
    {
        let mut grid: Vec<TileOccupation> = Vec::new();
        let start: usize = (INIT_POS[0] as usize) * (LEVEL_SIZE as usize) + (INIT_POS[1] as usize);
        let mut i: usize = 0;
        while i < GRID_CELLS
            invariant
                i <= GRID_CELLS,
                start == cell_index(tile_of(INIT_POS)),
                grid@.len() == i,
                forall|k: int| 0 <= k < i ==> grid@[k] == initial_grid()[k],
            decreases GRID_CELLS - i,
        {
            if i == start {
                grid.push(TileOccupation::Player);
            } else {
                grid.push(TileOccupation::Empty);
            }
            i = i + 1;
        }
        assert(grid@ =~= initial_grid());
        GridState { grid, cloud_count: 0, loss_condition: LossCondition::NoLoss }
    }

    /// Bring the grid back to its state at the start of a run.
    pub fn reset_grid(&mut self)
        ensures
            final(self).wf(),
            final(self).grid@ == initial_grid(),
            final(self).cloud_count == 0,
            final(self).loss_condition == LossCondition::NoLoss,
    {
        *self = GridState::new();
    }

    pub fn is_out_of_range(&self, tile: [i8; 2]) -> (r: bool)
        ensures
            r == !in_range(tile_of(tile)),
    {
        0 > tile[0] || tile[0] >= LEVEL_SIZE || 0 > tile[1] || tile[1] >= LEVEL_SIZE
    }

    pub fn is_sky(&self, tile: [i8; 2]) -> (r: bool)
        ensures
            r == in_sky(tile_of(tile)),
    {
        tile[0] < STAGE_BL || tile[1] < STAGE_BL || tile[0] > STAGE_UR || tile[1] > STAGE_UR
    }

    /// What stands on an in-range cell.
    pub fn get(&self, tile: [i8; 2]) -> (r: TileOccupation)
        requires
            self.wf(),
            in_range(tile_of(tile)),
        ensures
            r == cell(self.grid@, tile_of(tile)),
    {
        self.grid[(tile[0] as usize) * (LEVEL_SIZE as usize) + (tile[1] as usize)]
    }

    /// Overwrite an in-range cell.
    pub fn set(&mut self, tile: [i8; 2], object: TileOccupation)
        requires
            old(self).wf(),
            in_range(tile_of(tile)),
        ensures
            final(self).wf(),
            final(self).grid@ == old(self).grid@.update(cell_index(tile_of(tile)), object),
            final(self).cloud_count == old(self).cloud_count,
            final(self).loss_condition == old(self).loss_condition,
    {
        let i: usize = (tile[0] as usize) * (LEVEL_SIZE as usize) + (tile[1] as usize);
        self.grid.set(i, object);
    }

    /// Classify a move of `object` into `tile` in direction `dir`. The cell
    /// one step further (the one a push would fill) decides between a push
    /// and a block.
    pub fn is_occupied(&self, tile: [i8; 2], dir: CloudDir, object: TileOccupation) -> (r:
        PushState)
        requires
            self.wf(),
        ensures
            r == query(self.grid@, tile_of(tile), dir, object),
    {
        if self.is_out_of_range(tile) {
            return PushState::Despawn;
        }
        // Sky cells read as empty, so the player's case comes first.
        if object == TileOccupation::Player && self.is_sky(tile) {
            return PushState::Blocked;
        }
        let target = self.get(tile);
        if target == TileOccupation::Empty {
            return PushState::Empty;
        }
        let beyond = step_tile(tile, dir);
        let opposing = match dir {
            CloudDir::Down => TileOccupation::UpCloud,
            CloudDir::Up => TileOccupation::DownCloud,
            CloudDir::Left => TileOccupation::RightCloud,
            CloudDir::Right => TileOccupation::LeftCloud,
        };
        // On the edge of the board: what is pushed falls off.
        if self.is_out_of_range(beyond) {
            if target == opposing {
                return PushState::Blocked;
            } else {
                return PushState::PushOver;
            }
        }
        let behind = self.get(beyond);
        if behind != TileOccupation::Empty && behind != TileOccupation::Despawn {
            return PushState::Blocked;
        }
        if target == TileOccupation::CooldownCloud || target == opposing {
            return PushState::Blocked;
        }
        if target == TileOccupation::Player {
            let on_edge = match dir {
                CloudDir::Down => tile[1] <= STAGE_BL,
                CloudDir::Up => tile[1] >= STAGE_UR,
                CloudDir::Left => tile[0] <= STAGE_BL,
                CloudDir::Right => tile[0] >= STAGE_UR,
            };
            if on_edge {
                return PushState::Blocked;
            }
        }
        PushState::CanPush
    }

    /// Move what stands on `source_tile` to `target_tile` as `object`; when
    /// the target lies off the board, the source cell is marked for removal
    /// instead.
    pub fn move_on_grid(&mut self, source_tile: [i8; 2], target_tile: [i8; 2], object: TileOccupation)
        requires
            old(self).wf(),
            in_range(tile_of(source_tile)),
        ensures
            final(self).wf(),
            !in_range(tile_of(target_tile)) ==> final(self).grid@ == old(self).grid@.update(
                cell_index(tile_of(source_tile)),
                TileOccupation::Despawn,
            ),
            in_range(tile_of(target_tile)) ==> final(self).grid@ == old(self).grid@.update(
                cell_index(tile_of(source_tile)),
                TileOccupation::Empty,
            ).update(cell_index(tile_of(target_tile)), object),
            final(self).cloud_count == old(self).cloud_count,
            final(self).loss_condition == old(self).loss_condition,
    {
        if self.is_out_of_range(target_tile) {
            self.set(source_tile, TileOccupation::Despawn);
        } else {
            self.set(source_tile, TileOccupation::Empty);
            self.set(target_tile, object);
        }
    }

    /// Spawn something on the tile: it becomes occupied.
    pub fn populate_tile_with_cloud(&mut self, target_tile: [i8; 2], object: TileOccupation)
        requires
            old(self).wf(),
            in_range(tile_of(target_tile)),
        ensures
            final(self).wf(),
            final(self).grid@ == old(self).grid@.update(cell_index(tile_of(target_tile)), object),
            final(self).cloud_count == old(self).cloud_count,
            final(self).loss_condition == old(self).loss_condition,
    {
        self.set(target_tile, object);
    }

    /// The spawn lane of clouds travelling in direction `border`: the
    /// board edge they enter from, restricted to the stage width.
    pub fn spawn_lane(&self, border: CloudDir) -> (r: Vec<[i8; 2]>)
        ensures
            r@.len() == STAGE_WIDTH,
            forall|j: int| 0 <= j < STAGE_WIDTH ==> tile_of(#[trigger] r@[j]) == lane_tile(border, j),
    {
        let mut res: Vec<[i8; 2]> = Vec::new();
        let mut j: i8 = 0;
        while j < STAGE_WIDTH
            invariant
                0 <= j <= STAGE_WIDTH,
                res@.len() == j,
                forall|k: int| 0 <= k < j ==> tile_of(#[trigger] res@[k]) == lane_tile(border, k),
            decreases STAGE_WIDTH - j,
        {
            let t: [i8; 2] = match border {
                CloudDir::Down => [STAGE_BL + j, LEVEL_SIZE - 1],
                CloudDir::Up => [STAGE_BL + j, 0],
                CloudDir::Left => [LEVEL_SIZE - 1, STAGE_BL + j],
                CloudDir::Right => [0, STAGE_BL + j],
            };
            res.push(t);
            j = j + 1;
        }
        res
    }

    /// The lane cells where a cloud travelling in direction `border` may
    /// enter: those that are empty.
    pub fn free_lane_cells(&self, border: CloudDir) -> (r: Vec<[i8; 2]>)
        requires
            self.wf(),
        ensures
            forall|k: int|
                0 <= k < r@.len() ==> is_lane_tile(border, tile_of(#[trigger] r@[k])) && cell(
                    self.grid@,
                    tile_of(r@[k]),
                ) == TileOccupation::Empty,
            forall|j: int|
                0 <= j < STAGE_WIDTH && cell(self.grid@, #[trigger] lane_tile(border, j))
                    == TileOccupation::Empty ==> exists|k: int|
                    0 <= k < r@.len() && tile_of(#[trigger] r@[k]) == lane_tile(border, j),
    {
        let lane = self.spawn_lane(border);
        let mut res: Vec<[i8; 2]> = Vec::new();
        let mut i: usize = 0;
        while i < lane.len()
            invariant
                self.wf(),
                i <= lane@.len(),
                lane@.len() == STAGE_WIDTH,
                forall|j: int| 0 <= j < STAGE_WIDTH ==> tile_of(#[trigger] lane@[j]) == lane_tile(border, j),
                forall|k: int|
                    0 <= k < res@.len() ==> is_lane_tile(border, tile_of(#[trigger] res@[k])) && cell(
                        self.grid@,
                        tile_of(res@[k]),
                    ) == TileOccupation::Empty,
                forall|j: int|
                    0 <= j < i && cell(self.grid@, #[trigger] lane_tile(border, j))
                        == TileOccupation::Empty ==> exists|k: int|
                        0 <= k < res@.len() && tile_of(#[trigger] res@[k]) == lane_tile(border, j),
            decreases lane@.len() - i,
        {
            let t = lane[i];
            assert(tile_of(lane@[i as int]) == lane_tile(border, i as int));
            assert(in_range(tile_of(t)));
            let ghost before = res@;
            if self.get(t) == TileOccupation::Empty {
                res.push(t);
                assert(tile_of(res@[res@.len() - 1]) == lane_tile(border, i as int));
            }
            assert forall|j: int|
                0 <= j < i + 1 && cell(self.grid@, #[trigger] lane_tile(border, j))
                    == TileOccupation::Empty implies exists|k: int|
                    0 <= k < res@.len() && tile_of(#[trigger] res@[k]) == lane_tile(border, j) by {
                if j < i {
                    let k = choose|k: int|
                        0 <= k < before.len() && tile_of(#[trigger] before[k]) == lane_tile(border, j);
                    assert(res@[k] == before[k]);
                } else {
                    assert(tile_of(res@[res@.len() - 1]) == lane_tile(border, j));
                }
            }
            i = i + 1;
        }
        res
    }

    /// Spawn a cloud facing `border` on a free cell of its lane, picked at
    /// random. Returns where it stands, or `None` when the lane is full.
    pub fn new_cloud(&mut self, border: CloudDir) -> (r: Option<[i8; 2]>)
        requires
            old(self).wf(),
        ensures
            final(self).wf(),
            final(self).cloud_count == old(self).cloud_count,
            final(self).loss_condition == old(self).loss_condition,
            r.is_none() <==> forall|j: int|
                0 <= j < STAGE_WIDTH ==> cell(old(self).grid@, #[trigger] lane_tile(border, j))
                    != TileOccupation::Empty,
            r.is_none() ==> final(self).grid@ == old(self).grid@,
            r matches Some(t) ==> {
                &&& is_lane_tile(border, tile_of(t))
                &&& cell(old(self).grid@, tile_of(t)) == TileOccupation::Empty
                &&& final(self).grid@ == old(self).grid@.update(
                    cell_index(tile_of(t)),
                    facing_tag(border),
                )
            },
    {
        let free = self.free_lane_cells(border);
        let picked = choose_tile(&free);
        match picked {
            Some(t) => {
                proof {
                    let k = choose|k: int| 0 <= k < free@.len() && free@[k] == t;
                    assert(is_lane_tile(border, tile_of(free@[k])));
                    let j = choose|j: int| 0 <= j < STAGE_WIDTH && lane_tile(border, j) == tile_of(t);
                    assert(cell(old(self).grid@, lane_tile(border, j)) == TileOccupation::Empty);
                }
                self.populate_tile_with_cloud(t, dir_to_tile(border));
                Some(t)
            },
            None => {
                proof {
                    assert forall|j: int|
                        0 <= j < STAGE_WIDTH implies cell(old(self).grid@, #[trigger] lane_tile(border, j))
                            != TileOccupation::Empty by {
                        if cell(old(self).grid@, lane_tile(border, j)) == TileOccupation::Empty {
                            let k = choose|k: int|
                                0 <= k < free@.len() && tile_of(#[trigger] free@[k]) == lane_tile(border, j);
                        }
                    }
                }
                None
            },
        }
    }

    /// Number of stage cells that hold a cloud of any kind.
    pub fn count_clouds(&self) -> (r: usize)
        requires
            self.wf(),
        ensures
            r == mess_count(self.grid@),
    {
        let mut count: usize = 0;
        let mut i: usize = 0;
        while i < GRID_CELLS
            invariant
                self.wf(),
                i <= GRID_CELLS,
                count == mess_count_upto(self.grid@, i as int),
                count <= i,
            decreases GRID_CELLS - i,
        {
            let x: usize = i / (LEVEL_SIZE as usize);
            let y: usize = i % (LEVEL_SIZE as usize);
            let is_stage = (STAGE_BL as usize) <= x && x <= (STAGE_UR as usize) && (STAGE_BL as usize) <= y
                && y <= (STAGE_UR as usize);
            let is_cloud = match self.grid[i] {
                TileOccupation::LeftCloud | TileOccupation::RightCloud | TileOccupation::UpCloud
                | TileOccupation::DownCloud | TileOccupation::CooldownCloud => true,
                _ => false,
            };
            if is_stage && is_cloud {
                count = count + 1;
            }
            i = i + 1;
        }
        count
    }

    /// Whether every neighbour of `player_pos` blocks the player.
    pub fn is_stuck(&self, player_pos: [i8; 2]) -> (r: bool)
        requires
            self.wf(),
            near_board(player_pos),
        ensures
            r == is_stuck(self.grid@, tile_of(player_pos)),
    {
        let left = self.is_occupied(step_tile(player_pos, CloudDir::Left), CloudDir::Left, TileOccupation::Player);
        let up = self.is_occupied(step_tile(player_pos, CloudDir::Up), CloudDir::Up, TileOccupation::Player);
        let right = self.is_occupied(step_tile(player_pos, CloudDir::Right), CloudDir::Right, TileOccupation::Player);
        let down = self.is_occupied(step_tile(player_pos, CloudDir::Down), CloudDir::Down, TileOccupation::Player);
        left == PushState::Blocked && up == PushState::Blocked && right == PushState::Blocked
            && down == PushState::Blocked
    }
}

} // verus!
