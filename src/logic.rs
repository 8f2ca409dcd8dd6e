//! The simulation context: grid, cloud records, player, director and clock,
//! and the per-tick pipeline that moves, pushes, spawns and removes.
use crate::clock::{
    song_info, ticked, MainClock, SelectedSong, FORGIVENESS_MARGIN, MAX_SPAN, TIMER_SCALE_FACTOR,
};
use crate::director::{directed, spawn_offset, CloudControl};
use crate::grid::{
    at_stage_edge, cell, cell_index, dir_to_tile, facing_tag, in_range, in_sky, is_stuck, mess_count,
    offset, query, same_tile, step_tile, tile_of, CloudDir, GridState, LossCondition, PushState,
    TileOccupation, GRID_CELLS, STAGE_WIDTH, lane_tile, is_lane_tile, initial_grid, next_pos, INIT_POS,
};
use crate::player::{
    buffer_after_input, control_dir, fill_player_buffer, is_direction, Actions, GameControl, PlayerControl, SPECIAL_ACTIVATION_NB, SPECIAL_TIMEOUT,
};
use vstd::prelude::*;

verus! {

/// Cloud-ticks during which a cloud pushed by the player cools down.
pub const PUSH_COOLDOWN_TICKS: u8 = 4;
/// Most clouds the stage may hold before the run is lost.
pub const CLOUD_COUNT_LOSE_COND: usize = 16;

/// One cloud of the arena.
#[derive(Clone, Copy, Debug)]
pub struct Cloud {
    pub id: u64,
    pub dir: CloudDir,
    pub pos: [i8; 2],
    pub old_pos: [i8; 2],
    /// It last moved because something pushed it.
    pub is_pushed: bool,
    pub is_cooldown: bool,
    /// Cloud-ticks of cooldown left.
    pub cooldown_left: u8,
    /// Pending removal: it left the board.
    pub to_despawn: bool,
    /// It is one of the neighbours that trapped the player.
    pub loss_cause: bool,
}

pub open spec fn pos_of(c: Cloud) -> (int, int) {
    tile_of(c.pos)
}

/// The tag a cloud leaves on its cell.
pub open spec fn cloud_tag(c: Cloud) -> TileOccupation {
    if c.to_despawn {
        TileOccupation::Despawn
    } else if c.is_cooldown {
        TileOccupation::CooldownCloud
    } else {
        facing_tag(c.dir)
    }
}

/// Grid and entities agree: every occupied cell is the recorded position
/// of exactly one live entity, and every entity's cell carries its tag.
pub open spec fn consistent(g: Seq<TileOccupation>, player: (int, int), clouds: Seq<Cloud>) -> bool {
    &&& g.len() == GRID_CELLS
    &&& in_range(player)
    &&& !in_sky(player)
    &&& cell(g, player) == TileOccupation::Player
    &&& forall|i: int|
        0 <= i < clouds.len() ==> {
            &&& in_range(pos_of(#[trigger] clouds[i]))
            &&& cell(g, pos_of(clouds[i])) == cloud_tag(clouds[i])
            &&& pos_of(clouds[i]) != player
        }
    &&& forall|i: int, j: int|
        0 <= i < clouds.len() && 0 <= j < clouds.len() && i != j ==> pos_of(#[trigger] clouds[i])
            != pos_of(#[trigger] clouds[j])
    &&& forall|k: int|
        0 <= k < GRID_CELLS && #[trigger] g[k] != TileOccupation::Empty ==> k == cell_index(player)
            || exists|i: int|
            0 <= i < clouds.len() && cell_index(pos_of(#[trigger] clouds[i])) == k
}

/// Two board cells share a storage slot only if they are the same cell.
pub proof fn lemma_cell_index_injective(p: (int, int), q: (int, int))
    requires
        in_range(p),
        in_range(q),
    ensures
        (cell_index(p) == cell_index(q)) == (p == q),
        0 <= cell_index(p) < GRID_CELLS,
{
}

/// A cloud placed on an empty cell keeps grid and entities in agreement.
proof fn lemma_add_cloud(g: Seq<TileOccupation>, pl: (int, int), cs: Seq<Cloud>, c: Cloud)
    requires
        consistent(g, pl, cs),
        in_range(pos_of(c)),
        cell(g, pos_of(c)) == TileOccupation::Empty,
    ensures
        consistent(g.update(cell_index(pos_of(c)), cloud_tag(c)), pl, cs.push(c)),
{
    let g1 = g.update(cell_index(pos_of(c)), cloud_tag(c));
    let cs1 = cs.push(c);
    lemma_cell_index_injective(pos_of(c), pl);
    assert forall|j: int| 0 <= j < cs1.len() implies {
        &&& in_range(pos_of(#[trigger] cs1[j]))
        &&& cell(g1, pos_of(cs1[j])) == cloud_tag(cs1[j])
        &&& pos_of(cs1[j]) != pl
    } by {
        if j < cs.len() {
            assert(cs1[j] == cs[j]);
            lemma_cell_index_injective(pos_of(cs[j]), pos_of(c));
        }
    }
    assert forall|a: int, b: int|
        0 <= a < cs1.len() && 0 <= b < cs1.len() && a != b implies pos_of(#[trigger] cs1[a])
        != pos_of(#[trigger] cs1[b]) by {
        if a < cs.len() {
            assert(cs1[a] == cs[a]);
        }
        if b < cs.len() {
            assert(cs1[b] == cs[b]);
        }
    }
    assert forall|k: int|
        0 <= k < GRID_CELLS && #[trigger] g1[k] != TileOccupation::Empty implies k == cell_index(pl)
        || exists|j: int| 0 <= j < cs1.len() && cell_index(pos_of(#[trigger] cs1[j])) == k by {
        if k == cell_index(pos_of(c)) {
            assert(cs1[cs.len() as int] == c);
        } else if k != cell_index(pl) {
            assert(g[k] == g1[k]);
            let j = choose|j: int| 0 <= j < cs.len() && cell_index(pos_of(#[trigger] cs[j])) == k;
            assert(cs1[j] == cs[j]);
        }
    }
}

/// A pending displacement, built and drained within one tick.
#[derive(Clone, Copy, Debug)]
pub struct PushRecord {
    pub tile: [i8; 2],
    pub dir: CloudDir,
    pub kind: PushState,
}

/// The pushers and the cells they push into, pair by pair.
pub open spec fn paired(pushed: Seq<PushRecord>, to_receive: Seq<PushRecord>) -> bool {
    &&& pushed.len() == to_receive.len()
    &&& forall|k: int|
        0 <= k < pushed.len() ==> {
            &&& #[trigger] pushed[k].dir == to_receive[k].dir
            &&& tile_of(to_receive[k].tile) == offset(tile_of(pushed[k].tile), pushed[k].dir)
        }
}

/// In the movement phase a cloud moves at most one cell, in the active
/// direction, or is marked for removal; only clouds facing that direction
/// and free to act change at all.
pub open spec fn advanced_or_kept(o: Cloud, n: Cloud, d: CloudDir) -> bool {
    &&& n.id == o.id
    &&& n.dir == o.dir
    &&& n.is_cooldown == o.is_cooldown
    &&& n.cooldown_left == o.cooldown_left
    &&& n.loss_cause == o.loss_cause
    &&& (o.dir != d || o.is_cooldown || o.to_despawn) ==> n == o
    &&& {
        ||| n == o
        ||| pos_of(n) == offset(pos_of(o), d) && !n.to_despawn
        ||| pos_of(n) == pos_of(o) && n.to_despawn && !in_range(offset(pos_of(o), d))
    }
}

/// A cloud takes part in the movement phase of direction `d`: it faces
/// `d`, is not cooling down and is not leaving.
pub open spec fn acts(c: Cloud, d: CloudDir) -> bool {
    c.dir == d && !c.is_cooldown && !c.to_despawn
}

/// State of the movement phase: grid, clouds, queued pushers and queued
/// cells that receive a push.
pub type MovePhase = (Seq<TileOccupation>, Seq<Cloud>, Seq<PushRecord>, Seq<PushRecord>);

/// Cloud `j` takes its turn in the movement phase of direction `d`, on the
/// grid that the clouds before it left.
pub open spec fn move_step(st: MovePhase, d: CloudDir, j: int) -> MovePhase {
    let g = st.0;
    let cs = st.1;
    let c = cs[j];
    let t = next_pos(c.pos, d);
    let q = query(g, tile_of(t), d, facing_tag(d));
    if !acts(c, d) || q == PushState::Blocked {
        st
    } else if q == PushState::Despawn {
        let m = Cloud { to_despawn: true, ..c };
        (g.update(cell_index(pos_of(c)), cloud_tag(m)), cs.update(j, m), st.2, st.3)
    } else if q == PushState::Empty {
        let m = Cloud { pos: t, old_pos: c.pos, is_pushed: false, ..c };
        (
            g.update(cell_index(pos_of(c)), TileOccupation::Empty).update(
                cell_index(tile_of(t)),
                cloud_tag(m),
            ),
            cs.update(j, m),
            st.2,
            st.3,
        )
    } else {
        (
            g,
            cs,
            st.2.push(PushRecord { tile: c.pos, dir: d, kind: PushState::CanPush }),
            st.3.push(PushRecord { tile: t, dir: d, kind: q }),
        )
    }
}

/// The movement phase after the first `i` clouds took their turn.
pub open spec fn move_phase(g: Seq<TileOccupation>, cs: Seq<Cloud>, d: CloudDir, i: nat) -> MovePhase
    decreases i,
{
    if i == 0 {
        (g, cs, Seq::empty(), Seq::empty())
    } else {
        move_step(move_phase(g, cs, d, (i - 1) as nat), d, i - 1)
    }
}

/// The direction that points from `q` towards `p`, when `q` is a
/// neighbour of `p`.
pub open spec fn toward(p: (int, int), q: (int, int)) -> Option<CloudDir> {
    if q == (p.0 - 1, p.1) {
        Some(CloudDir::Right)
    } else if q == (p.0 + 1, p.1) {
        Some(CloudDir::Left)
    } else if q == (p.0, p.1 - 1) {
        Some(CloudDir::Up)
    } else if q == (p.0, p.1 + 1) {
        Some(CloudDir::Down)
    } else {
        None
    }
}

/// Every cloud of `o` that stands on neither `a` nor `b` is still in `n`.
pub open spec fn keeps_others(o: Seq<Cloud>, n: Seq<Cloud>, a: (int, int), b: (int, int)) -> bool {
    forall|j: int|
        0 <= j < o.len() && pos_of(#[trigger] o[j]) != a && pos_of(o[j]) != b ==> n.contains(o[j])
}

/// A cloud stands on `p`.
pub open spec fn cloud_on(cs: Seq<Cloud>, p: (int, int)) -> bool {
    exists|i: int| 0 <= i < cs.len() && pos_of(#[trigger] cs[i]) == p
}

/// The cell `t` can receive what is pushed: on the board, and empty or
/// held by a cloud that is leaving.
pub open spec fn can_receive(g: Seq<TileOccupation>, t: (int, int)) -> bool {
    in_range(t) && (cell(g, t) == TileOccupation::Empty || cell(g, t) == TileOccupation::Despawn)
}

/// The player, on `p`, pushed one cell in direction `d`.
pub open spec fn player_displaced(o: Simulation, n: Simulation, p: (int, int), d: CloudDir) -> bool {
    let t = offset(p, d);
    if can_receive(o.grid.grid@, t) && !in_sky(t) {
        &&& tile_of(n.player.player_pos) == t
        &&& cell(n.grid.grid@, p) == TileOccupation::Empty
        &&& keeps_others(o.clouds@, n.clouds@, p, t)
    } else {
        n == o
    }
}

/// Cloud `i` pushed one cell in direction `d`.
pub open spec fn cloud_displaced(
    o: Simulation,
    n: Simulation,
    i: int,
    d: CloudDir,
    kind: PushState,
    receiving: bool,
) -> bool {
    let g = o.grid.grid@;
    let c = o.clouds@[i];
    let p = pos_of(c);
    let t = offset(p, d);
    let cooling = receiving && kind == PushState::PlayerCanPush;
    &&& n.player == o.player
    &&& if receiving && kind == PushState::PushOver {
        &&& n.clouds@ == o.clouds@.remove(i)
        &&& n.grid.grid@ == g.update(cell_index(p), TileOccupation::Empty)
    } else if !in_range(t) {
        &&& n.clouds@ == o.clouds@.update(i, Cloud { to_despawn: true, ..c })
        &&& n.grid.grid@ == g.update(cell_index(p), TileOccupation::Despawn)
    } else if can_receive(g, t) {
        &&& cell(n.grid.grid@, p) == TileOccupation::Empty
        &&& keeps_others(o.clouds@, n.clouds@, p, t)
        &&& exists|k: int|
            0 <= k < n.clouds@.len() && {
                let m = #[trigger] n.clouds@[k];
                &&& pos_of(m) == t
                &&& m.id == c.id
                &&& m.dir == c.dir
                &&& m.old_pos == c.pos
                &&& m.is_pushed == receiving
                &&& m.is_cooldown == (c.is_cooldown || cooling)
                &&& m.to_despawn == c.to_despawn
            }
    } else {
        n == o
    }
}

/// The entities of a state: grid, player position and clouds.
pub type Board = (Seq<TileOccupation>, [i8; 2], Seq<Cloud>);

pub open spec fn board_of(s: Simulation) -> Board {
    (s.grid.grid@, s.player.player_pos, s.clouds@)
}

/// The index of the cloud on `p`, when there is one.
pub open spec fn cloud_index(cs: Seq<Cloud>, p: (int, int)) -> int {
    choose|i: int| 0 <= i < cs.len() && pos_of(#[trigger] cs[i]) == p
}

/// Grid and clouds once a cloud leaving from `t` is removed to make room.
pub open spec fn cleared(g: Seq<TileOccupation>, cs: Seq<Cloud>, t: (int, int)) -> (
    Seq<TileOccupation>,
    Seq<Cloud>,
) {
    if cell(g, t) == TileOccupation::Despawn {
        (g.update(cell_index(t), TileOccupation::Empty), cs.remove(cloud_index(cs, t)))
    } else {
        (g, cs)
    }
}

/// A cloud `c` pushed onto `t`; a push by the player starts a cooldown.
pub open spec fn pushed_cloud(c: Cloud, t: [i8; 2], receiving: bool, kind: PushState) -> Cloud {
    let cooling = receiving && kind == PushState::PlayerCanPush;
    Cloud {
        pos: t,
        old_pos: c.pos,
        is_pushed: receiving,
        is_cooldown: c.is_cooldown || cooling,
        cooldown_left: if cooling {
            PUSH_COOLDOWN_TICKS
        } else {
            c.cooldown_left
        },
        ..c
    }
}

/// One displacement, exactly: the occupant of `tile` moves one cell in
/// direction `d` when the cell can take it (for the player, a stage cell);
/// a cloud pushed over the edge by a receiving record is removed; a cloud
/// pushed off the board is marked as leaving; otherwise nothing changes.
pub open spec fn displace_board(b: Board, tile: [i8; 2], d: CloudDir, kind: PushState, receiving: bool) -> Board {
    let g = b.0;
    let cs = b.2;
    let p = tile_of(tile);
    let tt = next_pos(tile, d);
    let t = tile_of(tt);
    if tile_of(b.1) == p {
        if can_receive(g, t) && !in_sky(t) {
            let cl = cleared(g, cs, t);
            (
                cl.0.update(cell_index(p), TileOccupation::Empty).update(
                    cell_index(t),
                    TileOccupation::Player,
                ),
                tt,
                cl.1,
            )
        } else {
            b
        }
    } else if cloud_on(cs, p) {
        let i = cloud_index(cs, p);
        let c = cs[i];
        if receiving && kind == PushState::PushOver {
            (g.update(cell_index(p), TileOccupation::Empty), b.1, cs.remove(i))
        } else if !in_range(t) {
            let m = Cloud { to_despawn: true, ..c };
            (g.update(cell_index(p), cloud_tag(m)), b.1, cs.update(i, m))
        } else if can_receive(g, t) {
            let cl = cleared(g, cs, t);
            let m = pushed_cloud(c, tt, receiving, kind);
            (
                cl.0.update(cell_index(p), TileOccupation::Empty).update(cell_index(t), cloud_tag(m)),
                b.1,
                cl.1.update(cloud_index(cl.1, p), m),
            )
        } else {
            b
        }
    } else {
        b
    }
}

/// The records applied in order, each displacing what stands on its cell.
pub open spec fn apply_records(b: Board, recs: Seq<PushRecord>, receiving: bool) -> Board
    decreases recs.len(),
{
    if recs.len() == 0 {
        b
    } else {
        let r = recs.last();
        displace_board(apply_records(b, recs.drop_last(), receiving), r.tile, r.dir, r.kind, receiving)
    }
}

/// Positions are unique: any cloud on `p` is the one `cloud_index` names.
proof fn lemma_cloud_index_unique(g: Seq<TileOccupation>, pl: (int, int), cs: Seq<Cloud>, j: int)
    requires
        consistent(g, pl, cs),
        0 <= j < cs.len(),
    ensures
        cloud_index(cs, pos_of(cs[j])) == j,
{
    let p = pos_of(cs[j]);
    assert(pos_of(cs[j]) == p);
    let k = cloud_index(cs, p);
    if k != j {
        assert(pos_of(cs[k]) != pos_of(cs[j]));
    }
}

/// What one displacement of the occupant of `p` in direction `d` does.
pub open spec fn displaced(
    o: Simulation,
    n: Simulation,
    p: (int, int),
    d: CloudDir,
    kind: PushState,
    receiving: bool,
) -> bool {
    if tile_of(o.player.player_pos) == p {
        player_displaced(o, n, p, d)
    } else if cloud_on(o.clouds@, p) {
        cloud_displaced(
            o,
            n,
            choose|i: int| 0 <= i < o.clouds@.len() && pos_of(#[trigger] o.clouds@[i]) == p,
            d,
            kind,
            receiving,
        )
    } else {
        n == o
    }
}

/// The special charge and its timeout after the player's turn with action
/// `a`, before the ability fires.
pub open spec fn charge_after(control: int, timeout: int, a: GameControl) -> (int, int) {
    let c1 = if a == GameControl::Special {
        control + 1
    } else {
        control
    };
    let t1 = if a == GameControl::Special {
        1
    } else {
        timeout + 1
    };
    if t1 >= SPECIAL_TIMEOUT {
        (0, 0)
    } else {
        (c1, t1)
    }
}

/// The special ability fires on this turn.
pub open spec fn special_fires(control: int, timeout: int, a: GameControl) -> bool {
    charge_after(control, timeout, a).0 >= SPECIAL_ACTIVATION_NB
}

/// Something stands on `p`: the player or a cloud.
pub open spec fn entity_on(s: Simulation, p: (int, int)) -> bool {
    tile_of(s.player.player_pos) == p || cloud_on(s.clouds@, p)
}

/// The conditions of a lone push: a pusher on `a`, not leaving, and a
/// pushed entity on the next cell, not leaving, pushed in bounds.
pub open spec fn lone_push(o: Simulation, a: (int, int), d: CloudDir) -> bool {
    let g = o.grid.grid@;
    let b = offset(a, d);
    let c = offset(b, d);
    &&& in_range(a) && in_range(b) && in_range(c)
    &&& cell(g, a) != TileOccupation::Empty && cell(g, a) != TileOccupation::Despawn
    &&& cell(g, b) != TileOccupation::Empty && cell(g, b) != TileOccupation::Despawn
    &&& tile_of(o.player.player_pos) == a ==> !in_sky(b)
}

/// A lone push is all or nothing: when the cell beyond can take the pushed
/// entity, both advance one cell; otherwise neither moves.
pub open spec fn lone_push_outcome(o: Simulation, n: Simulation, a: (int, int), d: CloudDir) -> bool {
    let b = offset(a, d);
    let c = offset(b, d);
    let pl = tile_of(o.player.player_pos);
    if can_receive(o.grid.grid@, c) && (pl == b ==> !in_sky(c)) {
        &&& cell(n.grid.grid@, a) == TileOccupation::Empty
        &&& entity_on(n, b)
        &&& entity_on(n, c)
        &&& pl == a ==> tile_of(n.player.player_pos) == b
        &&& pl == b ==> tile_of(n.player.player_pos) == c
    } else {
        n == o
    }
}

/// A cloud kept by `keeps_others` still stands somewhere on its cell.
proof fn lemma_kept_cloud_on(o: Seq<Cloud>, n: Seq<Cloud>, a: (int, int), b: (int, int), p: (int, int))
    requires
        keeps_others(o, n, a, b),
        cloud_on(o, p),
        p != a,
        p != b,
    ensures
        cloud_on(n, p),
{
    let i = choose|i: int| 0 <= i < o.len() && pos_of(#[trigger] o[i]) == p;
    assert(n.contains(o[i]));
    let k = choose|k: int| 0 <= k < n.len() && n[k] == o[i];
    assert(pos_of(n[k]) == p);
}

/// The push phase applied to a lone pair of records.
pub proof fn lemma_lone_push(
    s0: Simulation,
    s1: Simulation,
    s2: Simulation,
    a: (int, int),
    d: CloudDir,
    kind: PushState,
)
    requires
        s0.wf(),
        s1.wf(),
        lone_push(s0, a, d),
        kind != PushState::PushOver,
        displaced(s0, s1, offset(a, d), d, kind, true),
        displaced(s1, s2, a, d, PushState::CanPush, false),
    ensures
        lone_push_outcome(s0, s2, a, d),
{
    let b = offset(a, d);
    let c = offset(b, d);
    let g0 = s0.grid.grid@;
    let pl = tile_of(s0.player.player_pos);
    assert(a != b && b != c && a != c);
    lemma_cell_index_injective(a, pl);
    lemma_cell_index_injective(b, pl);
    // What stands on `a` and on `b` at the start.
    if pl != a {
        let k = cell_index(a);
        assert(g0[k] != TileOccupation::Empty);
        let i = choose|i: int| 0 <= i < s0.clouds@.len() && cell_index(pos_of(#[trigger] s0.clouds@[i])) == k;
        lemma_cell_index_injective(a, pos_of(s0.clouds@[i]));
        assert(cloud_on(s0.clouds@, a));
    }
    if pl != b {
        let k = cell_index(b);
        assert(g0[k] != TileOccupation::Empty);
        let i = choose|i: int| 0 <= i < s0.clouds@.len() && cell_index(pos_of(#[trigger] s0.clouds@[i])) == k;
        lemma_cell_index_injective(b, pos_of(s0.clouds@[i]));
        assert(cloud_on(s0.clouds@, b));
    }
    let go = can_receive(g0, c) && (pl == b ==> !in_sky(c));
    if go {
        // The pushed entity left `b` for `c`.
        assert(cell(s1.grid.grid@, b) == TileOccupation::Empty);
        assert(keeps_others(s0.clouds@, s1.clouds@, b, c));
        assert(entity_on(s1, c));
        if pl == b {
            assert(tile_of(s1.player.player_pos) == c);
            lemma_kept_cloud_on(s0.clouds@, s1.clouds@, b, c, a);
            assert(can_receive(s1.grid.grid@, b));
            assert(cell(s2.grid.grid@, a) == TileOccupation::Empty);
            assert(s2.player == s1.player);
            let k = choose|k: int| 0 <= k < s2.clouds@.len() && pos_of(#[trigger] s2.clouds@[k]) == b;
            assert(entity_on(s2, b));
        } else {
            assert(s1.player == s0.player);
            assert(cloud_on(s1.clouds@, c));
            if pl == a {
                assert(can_receive(s1.grid.grid@, b));
                assert(tile_of(s2.player.player_pos) == b);
                lemma_kept_cloud_on(s1.clouds@, s2.clouds@, a, b, c);
            } else {
                lemma_kept_cloud_on(s0.clouds@, s1.clouds@, b, c, a);
                assert(can_receive(s1.grid.grid@, b));
                assert(s2.player == s1.player);
                lemma_kept_cloud_on(s1.clouds@, s2.clouds@, a, b, c);
                let k = choose|k: int| 0 <= k < s2.clouds@.len() && pos_of(#[trigger] s2.clouds@[k]) == b;
                assert(entity_on(s2, b));
            }
        }
    } else {
        assert(s1 == s0);
        assert(!can_receive(s1.grid.grid@, b));
        assert(s2 == s1);
    }
}

/// In a consistent state the cloud at index `i` is the only thing on its cell.
proof fn lemma_only_cloud_on(g: Seq<TileOccupation>, pl: (int, int), cs: Seq<Cloud>, i: int)
    requires
        consistent(g, pl, cs),
        0 <= i < cs.len(),
    ensures
        cloud_on(cs, pos_of(cs[i])),
        (choose|k: int| 0 <= k < cs.len() && pos_of(#[trigger] cs[k]) == pos_of(cs[i])) == i,
        pos_of(cs[i]) != pl,
{
    let p = pos_of(cs[i]);
    assert(pos_of(cs[i]) == p);
    let k = choose|k: int| 0 <= k < cs.len() && pos_of(#[trigger] cs[k]) == p;
    if k != i {
        assert(pos_of(cs[k]) != pos_of(cs[i]));
    }
}

proof fn lemma_remove_keeps_others(cs: Seq<Cloud>, j: int, a: (int, int), b: (int, int))
    requires
        0 <= j < cs.len(),
        pos_of(cs[j]) == b,
    ensures
        keeps_others(cs, cs.remove(j), a, b),
{
    let n = cs.remove(j);
    assert forall|x: int| 0 <= x < cs.len() && pos_of(#[trigger] cs[x]) != a && pos_of(cs[x]) != b implies n.contains(cs[x]) by {
        let nx = if x < j { x } else { x - 1 };
        assert(n[nx] == cs[x]);
    }
}

proof fn lemma_update_keeps_others(cs: Seq<Cloud>, k: int, m: Cloud, a: (int, int), b: (int, int))
    requires
        0 <= k < cs.len(),
        pos_of(cs[k]) == a,
    ensures
        keeps_others(cs, cs.update(k, m), a, b),
{
    let n = cs.update(k, m);
    assert forall|x: int| 0 <= x < cs.len() && pos_of(#[trigger] cs[x]) != a && pos_of(cs[x]) != b implies n.contains(cs[x]) by {
        assert(x != k);
        assert(n[x] == cs[x]);
    }
}

proof fn lemma_keeps_others_trans(
    s0: Seq<Cloud>,
    s1: Seq<Cloud>,
    s2: Seq<Cloud>,
    a: (int, int),
    b: (int, int),
)
    requires
        keeps_others(s0, s1, a, b),
        keeps_others(s1, s2, a, b),
    ensures
        keeps_others(s0, s2, a, b),
{
    assert forall|x: int| 0 <= x < s0.len() && pos_of(#[trigger] s0[x]) != a && pos_of(s0[x]) != b implies s2.contains(s0[x]) by {
        let y = choose|y: int| 0 <= y < s1.len() && s1[y] == s0[x];
        assert(pos_of(s1[y]) != a);
    }
}

/// A cloud after the special ability of a player on `p`: a neighbour turns
/// to face the player and stops cooling down; any other cloud is unchanged.
pub open spec fn turned(p: (int, int), o: Cloud) -> Cloud {
    match toward(p, pos_of(o)) {
        Some(d) => Cloud { dir: d, is_cooldown: false, cooldown_left: 0, ..o },
        None => o,
    }
}

/// The state of every component at the start of a run on `song`.
pub open spec fn at_start(s: Simulation, song: SelectedSong) -> bool {
    let info = song_info(song);
    &&& s.grid.grid@ == initial_grid()
    &&& s.grid.loss_condition == LossCondition::NoLoss
    &&& s.grid.cloud_count == 0
    &&& s.clouds@.len() == 0
    &&& s.next_id == 0
    &&& s.player.player_pos == INIT_POS
    &&& s.player.input_buffer@ == seq![GameControl::Idle, GameControl::Idle]
    &&& s.player.special_control == 0
    &&& s.player.special_timeout == 0
    &&& s.director.cur_cloud == CloudDir::Left
    &&& s.director.cur_new_cloud.is_none()
    &&& s.director.cur_cloud_move.is_none()
    &&& forall|i: int| 0 <= i < 4 ==> #[trigger] s.director.spawn_counter[i] == spawn_offset(i)
    &&& s.clock.sub_beat == info.beat_length / (TIMER_SCALE_FACTOR as i64)
    &&& s.clock.loop_length == info.length + info.intro_length
    &&& s.clock.intro_length == info.intro_length
    &&& s.clock.main_elapsed == 0
    &&& s.clock.absolute_elapsed == 0
    &&& s.clock.excess_time == 0
    &&& s.clock.cloud_counter == 0
    &&& !s.clock.move_player
    &&& !s.clock.move_clouds
    &&& s.clock.forgiveness_margin == FORGIVENESS_MARGIN
}

pub struct Simulation {
    pub grid: GridState,
    pub clouds: Vec<Cloud>,
    pub player: PlayerControl,
    pub director: CloudControl,
    pub clock: MainClock,
    pub next_id: u64,
}

impl Simulation {
    pub open spec fn wf(&self) -> bool {
        &&& self.grid.wf()
        &&& consistent(self.grid.grid@, tile_of(self.player.player_pos), self.clouds@)
        &&& self.player.wf()
        &&& self.director.wf()
        &&& self.clock.wf()
    }

    /// Replace cloud `i` by `c`, which stands on the same cell or on an
    /// empty one; the grid follows.
    fn set_cloud(&mut self, i: usize, c: Cloud)
        requires
            old(self).wf(),
            i < old(self).clouds@.len(),
            in_range(pos_of(c)),
            pos_of(c) == pos_of(old(self).clouds@[i as int]) || cell(old(self).grid.grid@, pos_of(c))
                == TileOccupation::Empty,
        ensures
            final(self).wf(),
            final(self).clouds@ == old(self).clouds@.update(i as int, c),
            final(self).grid.grid@ == if pos_of(c) == pos_of(old(self).clouds@[i as int]) {
                old(self).grid.grid@.update(cell_index(pos_of(c)), cloud_tag(c))
            } else {
                old(self).grid.grid@.update(
                    cell_index(pos_of(old(self).clouds@[i as int])),
                    TileOccupation::Empty,
                ).update(cell_index(pos_of(c)), cloud_tag(c))
            },
            final(self).grid.cloud_count == old(self).grid.cloud_count,
            final(self).grid.loss_condition == old(self).grid.loss_condition,
            final(self).player == old(self).player,
            final(self).director == old(self).director,
            final(self).clock == old(self).clock,
            final(self).next_id == old(self).next_id,
    {
        let ghost g0 = self.grid.grid@;
        let ghost cs0 = self.clouds@;
        let ghost pl = tile_of(self.player.player_pos);
        let prev = self.clouds[i];
        let tag = if c.to_despawn {
            TileOccupation::Despawn
        } else if c.is_cooldown {
            TileOccupation::CooldownCloud
        } else {
            dir_to_tile(c.dir)
        };
        if !same_tile(prev.pos, c.pos) {
            self.grid.set(prev.pos, TileOccupation::Empty);
        }
        self.grid.set(c.pos, tag);
        self.clouds.set(i, c);
        proof {
            let g1 = self.grid.grid@;
            let cs1 = self.clouds@;
            let moved = pos_of(c) != pos_of(cs0[i as int]);
            lemma_cell_index_injective(pos_of(c), pl);
            lemma_cell_index_injective(pos_of(cs0[i as int]), pl);
            lemma_cell_index_injective(pos_of(c), pos_of(cs0[i as int]));
            assert forall|j: int| 0 <= j < cs1.len() implies {
                &&& in_range(pos_of(#[trigger] cs1[j]))
                &&& cell(g1, pos_of(cs1[j])) == cloud_tag(cs1[j])
                &&& pos_of(cs1[j]) != pl
            } by {
                if j != i {
                    lemma_cell_index_injective(pos_of(cs0[j]), pos_of(c));
                    lemma_cell_index_injective(pos_of(cs0[j]), pos_of(cs0[i as int]));
                }
            }
            assert forall|a: int, b: int|
                0 <= a < cs1.len() && 0 <= b < cs1.len() && a != b implies pos_of(#[trigger] cs1[a])
                != pos_of(#[trigger] cs1[b]) by {
                if a != i && b != i {
                } else if a == i {
                    assert(pos_of(cs0[b]) != pos_of(cs0[i as int]));
                    assert(cell(g0, pos_of(cs0[b])) == cloud_tag(cs0[b]));
                } else {
                    assert(pos_of(cs0[a]) != pos_of(cs0[i as int]));
                    assert(cell(g0, pos_of(cs0[a])) == cloud_tag(cs0[a]));
                }
            }
            assert forall|k: int|
                0 <= k < GRID_CELLS && #[trigger] g1[k] != TileOccupation::Empty implies k
                == cell_index(pl) || exists|j: int|
                0 <= j < cs1.len() && cell_index(pos_of(#[trigger] cs1[j])) == k by {
                if k == cell_index(pos_of(c)) {
                    assert(cell_index(pos_of(cs1[i as int])) == k);
                } else {
                    assert(g0[k] == g1[k]);
                    if k != cell_index(pl) {
                        let j = choose|j: int|
                            0 <= j < cs0.len() && cell_index(pos_of(#[trigger] cs0[j])) == k;
                        assert(j != i);
                        assert(cs1[j] == cs0[j]);
                    }
                }
            }
        }
    }

    /// Remove cloud `i` from the arena and empty its cell.
    fn remove_cloud(&mut self, i: usize)
        requires
            old(self).wf(),
            i < old(self).clouds@.len(),
        ensures
            final(self).wf(),
            final(self).clouds@ == old(self).clouds@.remove(i as int),
            final(self).grid.grid@ == old(self).grid.grid@.update(
                cell_index(pos_of(old(self).clouds@[i as int])),
                TileOccupation::Empty,
            ),
            final(self).grid.cloud_count == old(self).grid.cloud_count,
            final(self).grid.loss_condition == old(self).grid.loss_condition,
            final(self).player == old(self).player,
            final(self).director == old(self).director,
            final(self).clock == old(self).clock,
            final(self).next_id == old(self).next_id,
    {
        let ghost g0 = self.grid.grid@;
        let ghost cs0 = self.clouds@;
        let ghost pl = tile_of(self.player.player_pos);
        let prev = self.clouds[i];
        self.grid.set(prev.pos, TileOccupation::Empty);
        self.clouds.remove(i);
        proof {
            let g1 = self.grid.grid@;
            let cs1 = self.clouds@;
            let gone = pos_of(cs0[i as int]);
            lemma_cell_index_injective(gone, pl);
            assert forall|j: int| 0 <= j < cs1.len() implies {
                &&& in_range(pos_of(#[trigger] cs1[j]))
                &&& cell(g1, pos_of(cs1[j])) == cloud_tag(cs1[j])
                &&& pos_of(cs1[j]) != pl
            } by {
                let oj = if j < i { j } else { j + 1 };
                assert(cs1[j] == cs0[oj]);
                assert(pos_of(cs0[oj]) != gone);
                lemma_cell_index_injective(pos_of(cs0[oj]), gone);
            }
            assert forall|a: int, b: int|
                0 <= a < cs1.len() && 0 <= b < cs1.len() && a != b implies pos_of(#[trigger] cs1[a])
                != pos_of(#[trigger] cs1[b]) by {
                let oa = if a < i { a } else { a + 1 };
                let ob = if b < i { b } else { b + 1 };
                assert(cs1[a] == cs0[oa]);
                assert(cs1[b] == cs0[ob]);
            }
            assert forall|k: int|
                0 <= k < GRID_CELLS && #[trigger] g1[k] != TileOccupation::Empty implies k
                == cell_index(pl) || exists|j: int|
                0 <= j < cs1.len() && cell_index(pos_of(#[trigger] cs1[j])) == k by {
                assert(g0[k] == g1[k]);
                if k != cell_index(pl) {
                    let j = choose|j: int|
                        0 <= j < cs0.len() && cell_index(pos_of(#[trigger] cs0[j])) == k;
                    assert(j != i);
                    let nj = if j < i { j } else { j - 1 };
                    assert(cs1[nj] == cs0[j]);
                    assert(cell_index(pos_of(cs1[nj])) == k);
                }
            }
        }
    }

    /// Move the player to an empty stage cell.
    fn move_player_to(&mut self, target: [i8; 2])
        requires
            old(self).wf(),
            in_range(tile_of(target)),
            !in_sky(tile_of(target)),
            cell(old(self).grid.grid@, tile_of(target)) == TileOccupation::Empty,
        ensures
            final(self).wf(),
            final(self).player.player_pos == target,
            final(self).grid.grid@ == old(self).grid.grid@.update(
                cell_index(tile_of(old(self).player.player_pos)),
                TileOccupation::Empty,
            ).update(cell_index(tile_of(target)), TileOccupation::Player),
            final(self).clouds@ == old(self).clouds@,
            final(self).player.input_buffer == old(self).player.input_buffer,
            final(self).player.special_control == old(self).player.special_control,
            final(self).player.special_timeout == old(self).player.special_timeout,
            final(self).grid.cloud_count == old(self).grid.cloud_count,
            final(self).grid.loss_condition == old(self).grid.loss_condition,
            final(self).director == old(self).director,
            final(self).clock == old(self).clock,
            final(self).next_id == old(self).next_id,
    {
        let ghost g0 = self.grid.grid@;
        let ghost cs = self.clouds@;
        let ghost pl0 = tile_of(self.player.player_pos);
        let from = self.player.player_pos;
        self.grid.set(from, TileOccupation::Empty);
        self.grid.set(target, TileOccupation::Player);
        self.player.player_pos = target;
        proof {
            let g1 = self.grid.grid@;
            let pl1 = tile_of(target);
            lemma_cell_index_injective(pl0, pl1);
            assert forall|j: int| 0 <= j < cs.len() implies {
                &&& in_range(pos_of(#[trigger] cs[j]))
                &&& cell(g1, pos_of(cs[j])) == cloud_tag(cs[j])
                &&& pos_of(cs[j]) != pl1
            } by {
                lemma_cell_index_injective(pos_of(cs[j]), pl0);
                lemma_cell_index_injective(pos_of(cs[j]), pl1);
            }
            assert forall|k: int|
                0 <= k < GRID_CELLS && #[trigger] g1[k] != TileOccupation::Empty implies k
                == cell_index(pl1) || exists|j: int|
                0 <= j < cs.len() && cell_index(pos_of(#[trigger] cs[j])) == k by {
                if k != cell_index(pl1) {
                    assert(g0[k] == g1[k]);
                }
            }
        }
    }

    /// The index of the cloud standing on `pos`, if any.
    pub fn find_cloud(&self, pos: [i8; 2]) -> (r: Option<usize>)
        requires
            self.wf(),
        ensures
            r matches Some(i) ==> i < self.clouds@.len() && pos_of(self.clouds@[i as int])
                == tile_of(pos),
            r.is_none() ==> forall|i: int|
                0 <= i < self.clouds@.len() ==> pos_of(#[trigger] self.clouds@[i]) != tile_of(pos),
    {
        let mut i: usize = 0;
        while i < self.clouds.len()
            invariant
                i <= self.clouds@.len(),
                forall|j: int| 0 <= j < i ==> pos_of(#[trigger] self.clouds@[j]) != tile_of(pos),
            decreases self.clouds@.len() - i,
        {
            if same_tile(self.clouds[i].pos, pos) {
                return Some(i);
            }
            i = i + 1;
        }
        None
    }

    /// Spawn a cloud facing `border` on a random free cell of its lane.
    /// Returns where it stands, or `None` when the lane is full.
    pub fn new_cloud(&mut self, border: CloudDir) -> (r: Option<[i8; 2]>)
        requires
            old(self).wf(),
        ensures
            final(self).wf(),
            r.is_none() <==> forall|j: int|
                0 <= j < STAGE_WIDTH ==> cell(old(self).grid.grid@, #[trigger] lane_tile(border, j))
                    != TileOccupation::Empty,
            r.is_none() ==> final(self).grid.grid@ == old(self).grid.grid@ && final(self).clouds@
                == old(self).clouds@,
            r matches Some(t) ==> {
                &&& is_lane_tile(border, tile_of(t))
                &&& cell(old(self).grid.grid@, tile_of(t)) == TileOccupation::Empty
                &&& final(self).grid.grid@ == old(self).grid.grid@.update(
                    cell_index(tile_of(t)),
                    facing_tag(border),
                )
                &&& final(self).clouds@.len() == old(self).clouds@.len() + 1
                &&& final(self).clouds@.drop_last() == old(self).clouds@
                &&& final(self).clouds@.last().dir == border
                &&& final(self).clouds@.last().pos == t
                &&& !final(self).clouds@.last().is_cooldown
                &&& !final(self).clouds@.last().to_despawn
            },
            final(self).player == old(self).player,
            final(self).director == old(self).director,
            final(self).clock == old(self).clock,
            final(self).grid.loss_condition == old(self).grid.loss_condition,
    {
        let ghost g0 = self.grid.grid@;
        let ghost cs0 = self.clouds@;
        let ghost pl = tile_of(self.player.player_pos);
        let spot = self.grid.new_cloud(border);
        if let Some(t) = spot {
            let c = Cloud {
                id: self.next_id,
                dir: border,
                pos: t,
                old_pos: t,
                is_pushed: false,
                is_cooldown: false,
                cooldown_left: 0,
                to_despawn: false,
                loss_cause: false,
            };
            proof {
                let j = choose|j: int| 0 <= j < STAGE_WIDTH && lane_tile(border, j) == tile_of(t);
                assert(in_range(tile_of(t)));
                lemma_add_cloud(g0, pl, cs0, c);
            }
            self.clouds.push(c);
            if self.next_id < u64::MAX {
                self.next_id = self.next_id + 1;
            }
        }
        spot
    }

    /// Movement phase of a cloud-tick: each cloud facing `dir`, and not
    /// cooling down or leaving, looks at the cell ahead. Into an empty cell
    /// it moves; off the board it is marked for removal; where it can push,
    /// the pair of pending records is queued for the push phase.
    pub fn move_clouds(
        &mut self,
        dir: CloudDir,
        pushed: &mut Vec<PushRecord>,
        to_receive: &mut Vec<PushRecord>,
    )
        requires
            old(self).wf(),
            paired(old(pushed)@, old(to_receive)@),
        ensures
            final(self).wf(),
            paired(final(pushed)@, final(to_receive)@),
            final(self).clouds@.len() == old(self).clouds@.len(),
            ({
                let st = move_phase(
                    old(self).grid.grid@,
                    old(self).clouds@,
                    dir,
                    old(self).clouds@.len(),
                );
                &&& final(self).grid.grid@ == st.0
                &&& final(self).clouds@ == st.1
                &&& final(pushed)@ == old(pushed)@ + st.2
                &&& final(to_receive)@ == old(to_receive)@ + st.3
            }),
            forall|i: int|
                0 <= i < old(self).clouds@.len() ==> advanced_or_kept(
                    old(self).clouds@[i],
                    #[trigger] final(self).clouds@[i],
                    dir,
                ),
            final(self).player == old(self).player,
            final(self).director == old(self).director,
            final(self).clock == old(self).clock,
            final(self).grid.loss_condition == old(self).grid.loss_condition,
    {
        let mut i: usize = 0;
        while i < self.clouds.len()
            invariant
                self.wf(),
                paired(pushed@, to_receive@),
                i <= self.clouds@.len(),
                self.clouds@.len() == old(self).clouds@.len(),
                ({
                    let st = move_phase(old(self).grid.grid@, old(self).clouds@, dir, i as nat);
                    &&& self.grid.grid@ == st.0
                    &&& self.clouds@ == st.1
                    &&& pushed@ == old(pushed)@ + st.2
                    &&& to_receive@ == old(to_receive)@ + st.3
                }),
                forall|j: int|
                    0 <= j < i ==> advanced_or_kept(
                        old(self).clouds@[j],
                        #[trigger] self.clouds@[j],
                        dir,
                    ),
                forall|j: int| i <= j < self.clouds@.len() ==> #[trigger] self.clouds@[j] == old(self).clouds@[j],
                self.player == old(self).player,
                self.director == old(self).director,
                self.clock == old(self).clock,
                self.grid.loss_condition == old(self).grid.loss_condition,
            decreases self.clouds@.len() - i,
        {
            let c = self.clouds[i];
            if c.dir == dir && !c.is_cooldown && !c.to_despawn {
                proof {
                    assert(in_range(pos_of(self.clouds@[i as int])));
                }
                let target = step_tile(c.pos, dir);
                let state = self.grid.is_occupied(target, dir, dir_to_tile(dir));
                match state {
                    PushState::Blocked => {},
                    PushState::Despawn => {
                        self.set_cloud(i, Cloud { to_despawn: true, ..c });
                    },
                    PushState::Empty => {
                        self.set_cloud(
                            i,
                            Cloud { pos: target, old_pos: c.pos, is_pushed: false, ..c },
                        );
                    },
                    _ => {
                        let ghost st = move_phase(old(self).grid.grid@, old(self).clouds@, dir, i as nat);
                        pushed.push(PushRecord { tile: c.pos, dir, kind: PushState::CanPush });
                        to_receive.push(PushRecord { tile: target, dir, kind: state });
                        proof {
                            let n = pushed@.len() - 1;
                            assert(to_receive@[n].tile == target);
                            assert(pushed@ =~= old(pushed)@ + st.2.push(
                                PushRecord { tile: c.pos, dir, kind: PushState::CanPush },
                            ));
                            assert(to_receive@ =~= old(to_receive)@ + st.3.push(
                                PushRecord { tile: target, dir, kind: state },
                            ));
                        }
                    },
                }
            }
            i = i + 1;
        }
    }

    /// Remove the cloud that is leaving from `target`, so that something
    /// can land there.
    fn clear_despawn_at(&mut self, target: [i8; 2])
        requires
            old(self).wf(),
            in_range(tile_of(target)),
        ensures
            final(self).wf(),
            cell(old(self).grid.grid@, tile_of(target)) == TileOccupation::Despawn ==> {
                &&& final(self).grid.grid@ == old(self).grid.grid@.update(
                    cell_index(tile_of(target)),
                    TileOccupation::Empty,
                )
                &&& exists|j: int|
                    0 <= j < old(self).clouds@.len() && pos_of(#[trigger] old(self).clouds@[j])
                        == tile_of(target) && final(self).clouds@ == old(self).clouds@.remove(j)
            },
            cell(old(self).grid.grid@, tile_of(target)) != TileOccupation::Despawn ==> *final(self)
                == *old(self),
            (final(self).grid.grid@, final(self).clouds@) == cleared(
                old(self).grid.grid@,
                old(self).clouds@,
                tile_of(target),
            ),
            final(self).player == old(self).player,
            final(self).director == old(self).director,
            final(self).clock == old(self).clock,
            final(self).grid.loss_condition == old(self).grid.loss_condition,
    {
        if self.grid.get(target) == TileOccupation::Despawn {
            let found = self.find_cloud(target);
            proof {
                let g = self.grid.grid@;
                let cs = self.clouds@;
                let pl = tile_of(self.player.player_pos);
                let k = cell_index(tile_of(target));
                lemma_cell_index_injective(tile_of(target), pl);
                assert(g[k] != TileOccupation::Empty);
                let j = choose|j: int| 0 <= j < cs.len() && cell_index(pos_of(#[trigger] cs[j])) == k;
                lemma_cell_index_injective(tile_of(target), pos_of(cs[j]));
            }
            if let Some(j) = found {
                proof {
                    lemma_cloud_index_unique(
                        self.grid.grid@,
                        tile_of(self.player.player_pos),
                        self.clouds@,
                        j as int,
                    );
                }
                self.remove_cloud(j);
            }
        }
    }

    /// Push the player one cell on in direction `dir`, into a stage cell
    /// that is free or held by a leaving cloud.
    fn push_player(&mut self, dir: CloudDir)
        requires
            old(self).wf(),
        ensures
            final(self).wf(),
            player_displaced(*old(self), *final(self), tile_of(old(self).player.player_pos), dir),
            board_of(*final(self)) == displace_board(
                board_of(*old(self)),
                old(self).player.player_pos,
                dir,
                PushState::CanPush,
                false,
            ),
            final(self).clouds@.len() <= old(self).clouds@.len(),
            final(self).player.input_buffer == old(self).player.input_buffer,
            final(self).player.special_control == old(self).player.special_control,
            final(self).player.special_timeout == old(self).player.special_timeout,
            final(self).director == old(self).director,
            final(self).clock == old(self).clock,
            final(self).grid.loss_condition == old(self).grid.loss_condition,
    {
        let ghost s0 = *self;
        let target = step_tile(self.player.player_pos, dir);
        if self.grid.is_out_of_range(target) || self.grid.is_sky(target) {
            return ;
        }
        self.clear_despawn_at(target);
        if self.grid.get(target) == TileOccupation::Empty {
            self.move_player_to(target);
        }
        proof {
            let p = tile_of(s0.player.player_pos);
            let t = offset(p, dir);
            lemma_cell_index_injective(t, p);
            if cell(s0.grid.grid@, t) == TileOccupation::Despawn {
                let j = choose|j: int|
                    0 <= j < s0.clouds@.len() && pos_of(#[trigger] s0.clouds@[j]) == t
                        && self.clouds@ == s0.clouds@.remove(j);
                lemma_remove_keeps_others(s0.clouds@, j, p, t);
            } else {
                assert(keeps_others(s0.clouds@, self.clouds@, p, t));
            }
        }
    }

    /// Move cloud `i`, found on `tile`, to the free cell `target` after the
    /// cell was cleared of any leaving cloud.
    fn land_cloud(&mut self, tile: [i8; 2], target: [i8; 2], c: Cloud, cooling: bool, receiving: bool)
        requires
            old(self).wf(),
            in_range(tile_of(target)),
            tile_of(target) != tile_of(tile),
            cell(old(self).grid.grid@, tile_of(target)) == TileOccupation::Empty,
            old(self).clouds@.contains(c),
            pos_of(c) == tile_of(tile),
        ensures
            final(self).wf(),
            final(self).player == old(self).player,
            cell(final(self).grid.grid@, tile_of(tile)) == TileOccupation::Empty,
            keeps_others(old(self).clouds@, final(self).clouds@, tile_of(tile), tile_of(target)),
            exists|k: int|
                0 <= k < final(self).clouds@.len() && {
                    let m = #[trigger] final(self).clouds@[k];
                    &&& pos_of(m) == tile_of(target)
                    &&& m.id == c.id
                    &&& m.dir == c.dir
                    &&& m.old_pos == c.pos
                    &&& m.is_pushed == receiving
                    &&& m.is_cooldown == (c.is_cooldown || cooling)
                    &&& m.to_despawn == c.to_despawn
                },
            final(self).clouds@.len() == old(self).clouds@.len(),
            ({
                let m = Cloud {
                    pos: target,
                    old_pos: c.pos,
                    is_pushed: receiving,
                    is_cooldown: c.is_cooldown || cooling,
                    cooldown_left: if cooling {
                        PUSH_COOLDOWN_TICKS
                    } else {
                        c.cooldown_left
                    },
                    ..c
                };
                &&& final(self).clouds@ == old(self).clouds@.update(
                    cloud_index(old(self).clouds@, tile_of(tile)),
                    m,
                )
                &&& final(self).grid.grid@ == old(self).grid.grid@.update(
                    cell_index(tile_of(tile)),
                    TileOccupation::Empty,
                ).update(cell_index(tile_of(target)), cloud_tag(m))
            }),
            final(self).director == old(self).director,
            final(self).clock == old(self).clock,
            final(self).grid.loss_condition == old(self).grid.loss_condition,
    {
        let ghost s1 = *self;
        let again = self.find_cloud(tile);
        proof {
            let ni = choose|ni: int| 0 <= ni < s1.clouds@.len() && s1.clouds@[ni] == c;
            assert(pos_of(s1.clouds@[ni]) == tile_of(tile));
            if let Some(k) = again {
                if k != ni {
                    assert(pos_of(s1.clouds@[k as int]) != pos_of(s1.clouds@[ni]));
                }
            }
        }
        if let Some(k) = again {
            let c2 = self.clouds[k];
            let m = Cloud {
                pos: target,
                old_pos: c2.pos,
                is_pushed: receiving,
                is_cooldown: c2.is_cooldown || cooling,
                cooldown_left: if cooling {
                    PUSH_COOLDOWN_TICKS
                } else {
                    c2.cooldown_left
                },
                ..c2
            };
            self.set_cloud(k, m);
            proof {
                lemma_cell_index_injective(tile_of(target), tile_of(tile));
                lemma_update_keeps_others(s1.clouds@, k as int, m, tile_of(tile), tile_of(target));
                assert(self.clouds@[k as int] == m);
                lemma_cloud_index_unique(s1.grid.grid@, tile_of(s1.player.player_pos), s1.clouds@, k as int);
            }
        }
    }

    /// Push cloud `i` one cell on in direction `dir`: see `cloud_displaced`.
    #[verifier::rlimit(50)]
    fn push_cloud(&mut self, i: usize, dir: CloudDir, kind: PushState, receiving: bool)
        requires
            old(self).wf(),
            i < old(self).clouds@.len(),
        ensures
            final(self).wf(),
            cloud_displaced(*old(self), *final(self), i as int, dir, kind, receiving),
            board_of(*final(self)) == displace_board(
                board_of(*old(self)),
                old(self).clouds@[i as int].pos,
                dir,
                kind,
                receiving,
            ),
            final(self).clouds@.len() <= old(self).clouds@.len(),
            final(self).director == old(self).director,
            final(self).clock == old(self).clock,
            final(self).grid.loss_condition == old(self).grid.loss_condition,
    {
        let ghost s0 = *self;
        let c = self.clouds[i];
        proof {
            lemma_cloud_index_unique(s0.grid.grid@, tile_of(s0.player.player_pos), s0.clouds@, i as int);
        }
        if receiving && kind == PushState::PushOver {
            self.remove_cloud(i);
            return ;
        }
        proof {
            assert(in_range(pos_of(self.clouds@[i as int])));
        }
        let target = step_tile(c.pos, dir);
        if self.grid.is_out_of_range(target) {
            self.set_cloud(i, Cloud { to_despawn: true, ..c });
            return ;
        }
        self.clear_despawn_at(target);
        let ghost s1 = *self;
        proof {
            let p = pos_of(c);
            let t = offset(p, dir);
            lemma_cell_index_injective(t, p);
            assert(s0.clouds@.contains(c)) by {
                assert(s0.clouds@[i as int] == c);
            }
            if cell(s0.grid.grid@, t) == TileOccupation::Despawn {
                let j = choose|j: int|
                    0 <= j < s0.clouds@.len() && pos_of(#[trigger] s0.clouds@[j]) == t
                        && self.clouds@ == s0.clouds@.remove(j);
                lemma_remove_keeps_others(s0.clouds@, j, p, t);
                assert(j != i);
                let ni = if (i as int) < j { i as int } else { i - 1 };
                assert(self.clouds@[ni] == c);
            } else {
                assert(keeps_others(s0.clouds@, self.clouds@, p, t));
                assert(self.clouds@[i as int] == c);
            }
            assert(self.clouds@.contains(c));
        }
        if self.grid.get(target) == TileOccupation::Empty {
            let cooling = receiving && kind == PushState::PlayerCanPush;
            self.land_cloud(c.pos, target, c, cooling, receiving);
            proof {
                lemma_keeps_others_trans(s0.clouds@, s1.clouds@, self.clouds@, pos_of(c), offset(pos_of(c), dir));
            }
        }
    }

    /// Push what stands on `tile` one cell on in direction `dir`. A cloud
    /// pushed over the edge by a receiving record goes at once; one pushed
    /// by the player cools down; one pushed off the board is marked for
    /// removal. Nothing moves into an occupied cell: a cloud leaving the
    /// board gives its cell up, anything else blocks.
    pub fn displace(&mut self, tile: [i8; 2], dir: CloudDir, kind: PushState, receiving: bool)
        requires
            old(self).wf(),
        ensures
            final(self).wf(),
            displaced(*old(self), *final(self), tile_of(tile), dir, kind, receiving),
            board_of(*final(self)) == displace_board(board_of(*old(self)), tile, dir, kind, receiving),
            final(self).clouds@.len() <= old(self).clouds@.len(),
            final(self).player.input_buffer == old(self).player.input_buffer,
            final(self).player.special_control == old(self).player.special_control,
            final(self).player.special_timeout == old(self).player.special_timeout,
            final(self).director == old(self).director,
            final(self).clock == old(self).clock,
            final(self).grid.loss_condition == old(self).grid.loss_condition,
    {
        if same_tile(self.player.player_pos, tile) {
            self.push_player(dir);
            return ;
        }
        let found = self.find_cloud(tile);
        if let Some(i) = found {
            proof {
                lemma_only_cloud_on(self.grid.grid@, tile_of(self.player.player_pos), self.clouds@, i as int);
            }
            self.push_cloud(i, dir, kind, receiving);
        }
    }

    /// Push phase: first what receives a push moves on, then what pushed
    /// follows into the freed cell. Both lists are used up.
    pub fn push_clouds(&mut self, pushed: &mut Vec<PushRecord>, to_receive: &mut Vec<PushRecord>)
        requires
            old(self).wf(),
        ensures
            final(self).wf(),
            final(pushed)@.len() == 0,
            final(to_receive)@.len() == 0,
            board_of(*final(self)) == apply_records(
                apply_records(board_of(*old(self)), old(to_receive)@, true),
                old(pushed)@,
                false,
            ),
            old(pushed)@.len() == 1 && paired(old(pushed)@, old(to_receive)@) ==> ({
                let a = tile_of(old(pushed)@[0].tile);
                let d = old(pushed)@[0].dir;
                old(pushed)@[0].kind == PushState::CanPush && old(to_receive)@[0].kind
                    != PushState::PushOver && lone_push(*old(self), a, d) ==> lone_push_outcome(
                    *old(self),
                    *final(self),
                    a,
                    d,
                )
            }),
            final(self).clouds@.len() <= old(self).clouds@.len(),
            final(self).player.input_buffer == old(self).player.input_buffer,
            final(self).player.special_control == old(self).player.special_control,
            final(self).player.special_timeout == old(self).player.special_timeout,
            final(self).director == old(self).director,
            final(self).clock == old(self).clock,
            final(self).grid.loss_condition == old(self).grid.loss_condition,
    {
        let ghost s0 = *self;
        let mut k: usize = 0;
        while k < to_receive.len()
            invariant
                self.wf(),
                k <= to_receive@.len(),
                to_receive@ == old(to_receive)@,
                board_of(*self) == apply_records(board_of(s0), to_receive@.take(k as int), true),
                k == 0 ==> *self == s0,
                k == 1 ==> displaced(s0, *self, tile_of(to_receive@[0].tile), to_receive@[0].dir, to_receive@[0].kind, true),
                self.clouds@.len() <= old(self).clouds@.len(),
                self.player.input_buffer == old(self).player.input_buffer,
                self.player.special_control == old(self).player.special_control,
                self.player.special_timeout == old(self).player.special_timeout,
                self.director == old(self).director,
                self.clock == old(self).clock,
                self.grid.loss_condition == old(self).grid.loss_condition,
            decreases to_receive@.len() - k,
        {
            let rec = to_receive[k];
            self.displace(rec.tile, rec.dir, rec.kind, true);
            proof {
                let recs = to_receive@.take(k + 1);
                assert(recs.drop_last() =~= to_receive@.take(k as int));
                assert(recs.last() == rec);
            }
            k = k + 1;
        }
        let ghost s1 = *self;
        let mut k: usize = 0;
        while k < pushed.len()
            invariant
                self.wf(),
                s1.wf(),
                k <= pushed@.len(),
                pushed@ == old(pushed)@,
                board_of(*self) == apply_records(board_of(s1), pushed@.take(k as int), false),
                k == 0 ==> *self == s1,
                k == 1 ==> displaced(s1, *self, tile_of(pushed@[0].tile), pushed@[0].dir, pushed@[0].kind, false),
                self.clouds@.len() <= old(self).clouds@.len(),
                self.player.input_buffer == old(self).player.input_buffer,
                self.player.special_control == old(self).player.special_control,
                self.player.special_timeout == old(self).player.special_timeout,
                self.director == old(self).director,
                self.clock == old(self).clock,
                self.grid.loss_condition == old(self).grid.loss_condition,
            decreases pushed@.len() - k,
        {
            let rec = pushed[k];
            self.displace(rec.tile, rec.dir, rec.kind, false);
            proof {
                let recs = pushed@.take(k + 1);
                assert(recs.drop_last() =~= pushed@.take(k as int));
                assert(recs.last() == rec);
            }
            k = k + 1;
        }
        proof {
            assert(to_receive@.take(to_receive@.len() as int) =~= to_receive@);
            assert(pushed@.take(pushed@.len() as int) =~= pushed@);
            let pu = old(pushed)@;
            let tr = old(to_receive)@;
            if pu.len() == 1 && paired(pu, tr) && pu[0].kind == PushState::CanPush && tr[0].kind
                != PushState::PushOver && lone_push(s0, tile_of(pu[0].tile), pu[0].dir) {
                lemma_lone_push(s0, s1, *self, tile_of(pu[0].tile), pu[0].dir, tr[0].kind);
            }
        }
        pushed.clear();
        to_receive.clear();
    }

    /// The player's turn: pop the oldest buffered action. A direction moves
    /// the player into an empty cell, or queues a push whose pushed cloud
    /// will cool down; a special adds to the charge, which triggers the
    /// inward pull once full and decays after a few idle turns.
    pub fn pop_player_buffer(&mut self, pushed: &mut Vec<PushRecord>, to_receive: &mut Vec<PushRecord>)
        requires
            old(self).wf(),
            paired(old(pushed)@, old(to_receive)@),
        ensures
            final(self).wf(),
            paired(final(pushed)@, final(to_receive)@),
            final(self).player.input_buffer@ == seq![old(self).player.input_buffer[1], GameControl::Idle],
            ({
                let a = old(self).player.input_buffer[0];
                let p = tile_of(old(self).player.player_pos);
                let d = control_dir(a);
                let q = query(old(self).grid.grid@, offset(p, d), d, TileOccupation::Player);
                &&& is_direction(a) && q == PushState::Empty ==> tile_of(final(self).player.player_pos)
                    == offset(p, d)
                &&& !(is_direction(a) && q == PushState::Empty) ==> final(self).player.player_pos
                    == old(self).player.player_pos
                &&& is_direction(a) && q == PushState::CanPush ==> {
                    &&& final(pushed)@ == old(pushed)@.push(
                        PushRecord { tile: old(self).player.player_pos, dir: d, kind: PushState::CanPush },
                    )
                    &&& final(to_receive)@.len() == old(to_receive)@.len() + 1
                    &&& final(to_receive)@.last().kind == PushState::PlayerCanPush
                }
                &&& !(is_direction(a) && q == PushState::CanPush) ==> final(pushed)@ == old(pushed)@
                    && final(to_receive)@ == old(to_receive)@
            }),
            ({
                let a = old(self).player.input_buffer[0];
                let c = old(self).player.special_control as int;
                let t = old(self).player.special_timeout as int;
                if special_fires(c, t, a) {
                    &&& final(self).player.special_control == 0
                    &&& final(self).player.special_timeout == 0
                    &&& final(self).clouds@.len() == old(self).clouds@.len()
                    &&& forall|i: int|
                        0 <= i < old(self).clouds@.len() ==> #[trigger] final(self).clouds@[i]
                            == turned(tile_of(old(self).player.player_pos), old(self).clouds@[i])
                } else {
                    &&& final(self).player.special_control == charge_after(c, t, a).0
                    &&& final(self).player.special_timeout == charge_after(c, t, a).1
                    &&& final(self).clouds@ == old(self).clouds@
                }
            }),
            final(self).director == old(self).director,
            final(self).clock == old(self).clock,
            final(self).grid.loss_condition == old(self).grid.loss_condition,
    {
        let action = self.player.pop_action();
        let dir = match action {
            GameControl::Up => Some(CloudDir::Up),
            GameControl::Down => Some(CloudDir::Down),
            GameControl::Left => Some(CloudDir::Left),
            GameControl::Right => Some(CloudDir::Right),
            _ => None,
        };
        if let Some(d) = dir {
            let from = self.player.player_pos;
            let target = step_tile(from, d);
            let state = self.grid.is_occupied(target, d, TileOccupation::Player);
            if state == PushState::Empty {
                self.move_player_to(target);
            } else if state == PushState::CanPush {
                pushed.push(PushRecord { tile: from, dir: d, kind: PushState::CanPush });
                to_receive.push(PushRecord { tile: target, dir: d, kind: PushState::PlayerCanPush });
                proof {
                    let n = pushed@.len() - 1;
                    assert(to_receive@[n].tile == target);
                }
            }
        }
        if action == GameControl::Special {
            self.player.special_control = self.player.special_control + 1;
            self.player.special_timeout = 0;
        }
        self.player.special_timeout = self.player.special_timeout + 1;
        // An incomplete charge expires.
        if self.player.special_timeout >= SPECIAL_TIMEOUT {
            self.player.special_timeout = 0;
            self.player.special_control = 0;
        }
        if self.player.special_control >= SPECIAL_ACTIVATION_NB {
            self.play_special();
        }
    }

    /// The special ability: every cloud next to the player turns to face
    /// the player, and any cooldown it had ends; the charge is spent.
    fn play_special(&mut self)
        requires
            old(self).grid.wf(),
            consistent(old(self).grid.grid@, tile_of(old(self).player.player_pos), old(self).clouds@),
            old(self).director.wf(),
            old(self).clock.wf(),
        ensures
            final(self).wf(),
            final(self).clouds@.len() == old(self).clouds@.len(),
            forall|i: int|
                0 <= i < old(self).clouds@.len() ==> #[trigger] final(self).clouds@[i] == turned(
                    tile_of(old(self).player.player_pos),
                    old(self).clouds@[i],
                ),
            final(self).player.special_control == 0,
            final(self).player.special_timeout == 0,
            final(self).player.player_pos == old(self).player.player_pos,
            final(self).player.input_buffer == old(self).player.input_buffer,
            final(self).director == old(self).director,
            final(self).clock == old(self).clock,
            final(self).grid.loss_condition == old(self).grid.loss_condition,
    {
        self.player.special_control = 0;
        self.player.special_timeout = 0;
        let pl = self.player.player_pos;
        let mut i: usize = 0;
        while i < self.clouds.len()
            invariant
                self.wf(),
                i <= self.clouds@.len(),
                self.clouds@.len() == old(self).clouds@.len(),
                pl == old(self).player.player_pos,
                forall|j: int|
                    0 <= j < i ==> #[trigger] self.clouds@[j] == turned(tile_of(pl), old(self).clouds@[j]),
                forall|j: int| i <= j < self.clouds@.len() ==> #[trigger] self.clouds@[j] == old(self).clouds@[j],
                self.player.special_control == 0,
                self.player.special_timeout == 0,
                self.player.player_pos == pl,
                self.player.input_buffer == old(self).player.input_buffer,
                self.director == old(self).director,
                self.clock == old(self).clock,
                self.grid.loss_condition == old(self).grid.loss_condition,
            decreases self.clouds@.len() - i,
        {
            let c = self.clouds[i];
            let facing = if c.pos[0] == pl[0] - 1 && c.pos[1] == pl[1] {
                Some(CloudDir::Right)
            } else if c.pos[0] == pl[0] + 1 && c.pos[1] == pl[1] {
                Some(CloudDir::Left)
            } else if c.pos[0] == pl[0] && c.pos[1] == pl[1] - 1 {
                Some(CloudDir::Up)
            } else if c.pos[0] == pl[0] && c.pos[1] == pl[1] + 1 {
                Some(CloudDir::Down)
            } else {
                None
            };
            if let Some(d) = facing {
                self.set_cloud(i, Cloud { dir: d, is_cooldown: false, cooldown_left: 0, ..c });
            }
            i = i + 1;
        }
    }

    /// One cloud-tick passes for the cooling clouds; those whose cooldown
    /// ends take their facing tag back.
    pub fn reset_cooldown_timers(&mut self)
        requires
            old(self).wf(),
        ensures
            final(self).wf(),
            final(self).clouds@.len() == old(self).clouds@.len(),
            forall|i: int|
                0 <= i < old(self).clouds@.len() ==> {
                    let o = old(self).clouds@[i];
                    let n = #[trigger] final(self).clouds@[i];
                    &&& n.pos == o.pos
                    &&& n.dir == o.dir
                    &&& n.to_despawn == o.to_despawn
                    &&& o.is_cooldown ==> n.cooldown_left == if o.cooldown_left > 0 {
                        o.cooldown_left - 1
                    } else {
                        0
                    }
                    &&& n.is_cooldown == (o.is_cooldown && n.cooldown_left > 0)
                    &&& !o.is_cooldown ==> n == o
                },
            final(self).player == old(self).player,
            final(self).director == old(self).director,
            final(self).clock == old(self).clock,
            final(self).grid.loss_condition == old(self).grid.loss_condition,
    {
        let mut i: usize = 0;
        while i < self.clouds.len()
            invariant
                self.wf(),
                i <= self.clouds@.len(),
                self.clouds@.len() == old(self).clouds@.len(),
                forall|j: int|
                    0 <= j < i ==> {
                        let o = old(self).clouds@[j];
                        let n = #[trigger] self.clouds@[j];
                        &&& n.pos == o.pos
                        &&& n.dir == o.dir
                        &&& n.to_despawn == o.to_despawn
                        &&& o.is_cooldown ==> n.cooldown_left == if o.cooldown_left > 0 {
                            o.cooldown_left - 1
                        } else {
                            0
                        }
                        &&& n.is_cooldown == (o.is_cooldown && n.cooldown_left > 0)
                        &&& !o.is_cooldown ==> n == o
                    },
                forall|j: int| i <= j < self.clouds@.len() ==> #[trigger] self.clouds@[j] == old(self).clouds@[j],
                self.player == old(self).player,
                self.director == old(self).director,
                self.clock == old(self).clock,
                self.grid.loss_condition == old(self).grid.loss_condition,
            decreases self.clouds@.len() - i,
        {
            let c = self.clouds[i];
            if c.is_cooldown {
                let left: u8 = if c.cooldown_left > 0 {
                    c.cooldown_left - 1
                } else {
                    0
                };
                self.set_cloud(i, Cloud { cooldown_left: left, is_cooldown: left > 0, ..c });
            }
            i = i + 1;
        }
    }

    /// Remove every cloud marked as leaving, and its marker.
    pub fn despawn_clouds(&mut self)
        requires
            old(self).wf(),
        ensures
            final(self).wf(),
            forall|k: int|
                0 <= k < final(self).clouds@.len() ==> !(#[trigger] final(self).clouds@[k]).to_despawn,
            forall|k: int|
                0 <= k < GRID_CELLS ==> #[trigger] final(self).grid.grid@[k] != TileOccupation::Despawn,
            forall|i: int|
                0 <= i < old(self).clouds@.len() && !(#[trigger] old(self).clouds@[i]).to_despawn
                    ==> final(self).clouds@.contains(old(self).clouds@[i]),
            forall|k: int|
                0 <= k < final(self).clouds@.len() ==> old(self).clouds@.contains(
                    #[trigger] final(self).clouds@[k],
                ),
            final(self).clouds@.len() <= old(self).clouds@.len(),
            (forall|k: int|
                0 <= k < old(self).clouds@.len() ==> !(#[trigger] old(self).clouds@[k]).to_despawn)
                ==> *final(self) == *old(self),
            final(self).player == old(self).player,
            final(self).director == old(self).director,
            final(self).clock == old(self).clock,
            final(self).grid.loss_condition == old(self).grid.loss_condition,
    {
        let mut i: usize = 0;
        while i < self.clouds.len()
            invariant
                self.wf(),
                i <= self.clouds@.len(),
                forall|k: int| 0 <= k < i ==> !(#[trigger] self.clouds@[k]).to_despawn,
                self.clouds@.len() <= old(self).clouds@.len(),
                (forall|k: int|
                    0 <= k < old(self).clouds@.len() ==> !(#[trigger] old(self).clouds@[k]).to_despawn)
                    ==> *self == *old(self),
                forall|j: int|
                    0 <= j < old(self).clouds@.len() && !(#[trigger] old(self).clouds@[j]).to_despawn
                        ==> self.clouds@.contains(old(self).clouds@[j]),
                forall|k: int|
                    0 <= k < self.clouds@.len() ==> old(self).clouds@.contains(
                        #[trigger] self.clouds@[k],
                    ),
                self.player == old(self).player,
                self.director == old(self).director,
                self.clock == old(self).clock,
                self.grid.loss_condition == old(self).grid.loss_condition,
            decreases self.clouds@.len() - i,
        {
            if self.clouds[i].to_despawn {
                let ghost before = self.clouds@;
                self.remove_cloud(i);
                proof {
                    assert forall|j: int|
                        0 <= j < old(self).clouds@.len() && !(#[trigger] old(self).clouds@[j]).to_despawn
                            implies self.clouds@.contains(old(self).clouds@[j]) by {
                        let k = choose|k: int| 0 <= k < before.len() && before[k] == old(self).clouds@[j];
                        assert(k != i);
                        let nk = if k < i { k } else { k - 1 };
                        assert(self.clouds@[nk] == before[k]);
                    }
                    assert forall|k: int|
                        0 <= k < self.clouds@.len() implies old(self).clouds@.contains(
                            #[trigger] self.clouds@[k],
                        ) by {
                        let ok = if k < i { k } else { k + 1 };
                        assert(self.clouds@[k] == before[ok]);
                    }
                }
            } else {
                i = i + 1;
            }
        }
        proof {
            let g = self.grid.grid@;
            let cs = self.clouds@;
            assert forall|k: int| 0 <= k < GRID_CELLS implies #[trigger] g[k] != TileOccupation::Despawn by {
                if g[k] == TileOccupation::Despawn {
                    if k != cell_index(tile_of(self.player.player_pos)) {
                        let j = choose|j: int| 0 <= j < cs.len() && cell_index(pos_of(#[trigger] cs[j])) == k;
                        assert(cell(g, pos_of(cs[j])) == cloud_tag(cs[j]));
                    }
                }
            }
        }
    }

    /// Loss evaluation. Stuck when every neighbour blocks the player: the
    /// clouds on those cells are flagged as the cause. Otherwise too messy
    /// when more than the allowed number of stage cells hold a cloud. The
    /// mess count is kept for display.
    pub fn check_loss_condition(&mut self) -> (r: LossCondition)
        requires
            old(self).wf(),
        ensures
            final(self).wf(),
            r == final(self).grid.loss_condition,
            final(self).grid.cloud_count == mess_count(old(self).grid.grid@),
            r == if is_stuck(old(self).grid.grid@, tile_of(old(self).player.player_pos)) {
                LossCondition::Stuck
            } else if mess_count(old(self).grid.grid@) > CLOUD_COUNT_LOSE_COND {
                LossCondition::TooMessy
            } else {
                old(self).grid.loss_condition
            },
            final(self).grid.grid@ == old(self).grid.grid@,
            final(self).clouds@.len() == old(self).clouds@.len(),
            forall|i: int|
                0 <= i < old(self).clouds@.len() ==> {
                    let o = old(self).clouds@[i];
                    let n = #[trigger] final(self).clouds@[i];
                    &&& n.loss_cause == (o.loss_cause || (is_stuck(
                        old(self).grid.grid@,
                        tile_of(old(self).player.player_pos),
                    ) && toward(tile_of(old(self).player.player_pos), pos_of(o)).is_some()))
                    &&& n == Cloud { loss_cause: n.loss_cause, ..o }
                },
            final(self).player == old(self).player,
            final(self).director == old(self).director,
            final(self).clock == old(self).clock,
    {
        let pl = self.player.player_pos;
        let count = self.grid.count_clouds();
        self.grid.cloud_count = count;
        let stuck = self.grid.is_stuck(pl);
        if stuck {
            self.grid.loss_condition = LossCondition::Stuck;
        } else if count > CLOUD_COUNT_LOSE_COND {
            self.grid.loss_condition = LossCondition::TooMessy;
        }
        let mut i: usize = 0;
        while i < self.clouds.len()
            invariant
                self.wf(),
                i <= self.clouds@.len(),
                self.clouds@.len() == old(self).clouds@.len(),
                self.grid.grid@ == old(self).grid.grid@,
                self.grid.loss_condition == if stuck {
                    LossCondition::Stuck
                } else if count > CLOUD_COUNT_LOSE_COND {
                    LossCondition::TooMessy
                } else {
                    old(self).grid.loss_condition
                },
                self.grid.cloud_count == count,
                pl == old(self).player.player_pos,
                forall|j: int|
                    0 <= j < i ==> {
                        let o = old(self).clouds@[j];
                        let n = #[trigger] self.clouds@[j];
                        &&& n.loss_cause == (o.loss_cause || (stuck && toward(tile_of(pl), pos_of(o)).is_some()))
                        &&& n == Cloud { loss_cause: n.loss_cause, ..o }
                    },
                forall|j: int| i <= j < self.clouds@.len() ==> #[trigger] self.clouds@[j] == old(self).clouds@[j],
                self.player == old(self).player,
                self.director == old(self).director,
                self.clock == old(self).clock,
            decreases self.clouds@.len() - i,
        {
            let c = self.clouds[i];
            let adjacent = (c.pos[0] == pl[0] - 1 && c.pos[1] == pl[1]) || (c.pos[0] == pl[0] + 1
                && c.pos[1] == pl[1]) || (c.pos[0] == pl[0] && c.pos[1] == pl[1] - 1) || (c.pos[0]
                == pl[0] && c.pos[1] == pl[1] + 1);
            if stuck && adjacent {
                self.set_cloud(i, Cloud { loss_cause: true, ..c });
                proof {
                    assert(cloud_tag(Cloud { loss_cause: true, ..c }) == cloud_tag(c));
                    assert(self.grid.grid@ =~= old(self).grid.grid@);
                }
            }
            i = i + 1;
        }
        self.grid.loss_condition
    }

    /// A run at its start, for the selected track.
    pub fn new(song: SelectedSong) -> (r: Simulation)
        ensures
            r.wf(),
            at_start(r, song),
    {
        let grid = GridState::new();
        let r = Simulation {
            grid,
            clouds: Vec::new(),
            player: PlayerControl::new(),
            director: CloudControl::new(),
            clock: MainClock::new(song.info()),
            next_id: 0,
        };
        proof {
            let g = r.grid.grid@;
            let pl = tile_of(r.player.player_pos);
            assert forall|k: int|
                0 <= k < GRID_CELLS && #[trigger] g[k] != TileOccupation::Empty implies k
                == cell_index(pl) || exists|i: int|
                0 <= i < r.clouds@.len() && cell_index(pos_of(#[trigger] r.clouds@[i])) == k by {
            }
        }
        r
    }

    /// Bring every component back to its state at the start of a run.
    pub fn reset(&mut self, song: SelectedSong)
        ensures
            final(self).wf(),
            at_start(*final(self), song),
    {
        *self = Simulation::new(song);
    }

    /// One frame of the pipeline: clock, player input and turn, cloud
    /// direction, movement, spawn, pushes, removal, loss evaluation. Once
    /// the run is lost nothing changes until a reset.
    pub fn step(&mut self, delta: i64, audio_pos: Option<i64>, input: GameControl) -> (r: LossCondition)
        requires
            old(self).wf(),
            0 <= delta <= MAX_SPAN,
            audio_pos matches Some(p) ==> 0 <= p <= MAX_SPAN,
        ensures
            final(self).wf(),
            r == final(self).grid.loss_condition,
            old(self).grid.loss_condition != LossCondition::NoLoss ==> *final(self) == *old(self),
            old(self).grid.loss_condition == LossCondition::NoLoss ==> {
                let f = *final(self);
                let o = *old(self);
                let buffered = buffer_after_input(o.player.input_buffer@, input);
                &&& ticked(o.clock, f.clock, delta as int, audio_pos)
                &&& directed(o.director, f.director, f.clock.move_clouds)
                &&& f.player.input_buffer@ == if f.clock.move_player {
                    seq![buffered[1], GameControl::Idle]
                } else {
                    buffered
                }
                &&& r == if is_stuck(f.grid.grid@, tile_of(f.player.player_pos)) {
                    LossCondition::Stuck
                } else if mess_count(f.grid.grid@) > CLOUD_COUNT_LOSE_COND {
                    LossCondition::TooMessy
                } else {
                    LossCondition::NoLoss
                }
                &&& f.grid.cloud_count == mess_count(f.grid.grid@)
                &&& f.clouds@.len() <= o.clouds@.len() + if f.director.cur_new_cloud.is_some() {
                    1int
                } else {
                    0
                }
                &&& !f.clock.move_player && !f.clock.move_clouds && (forall|k: int|
                    0 <= k < o.clouds@.len() ==> !(#[trigger] o.clouds@[k]).to_despawn) ==> {
                    &&& f.grid.grid@ == o.grid.grid@
                    &&& f.player.player_pos == o.player.player_pos
                    &&& f.player.special_timeout == o.player.special_timeout
                    &&& f.clouds@.len() == o.clouds@.len()
                    &&& forall|k: int|
                        0 <= k < o.clouds@.len() ==> #[trigger] f.clouds@[k] == Cloud {
                            loss_cause: f.clouds@[k].loss_cause,
                            ..o.clouds@[k]
                        }
                }
                &&& forall|k: int|
                    0 <= k < final(self).clouds@.len() ==> !(#[trigger] final(self).clouds@[k]).to_despawn
                &&& forall|k: int|
                    0 <= k < GRID_CELLS ==> #[trigger] final(self).grid.grid@[k]
                        != TileOccupation::Despawn
            },
    {
        if self.grid.loss_condition != LossCondition::NoLoss {
            return self.grid.loss_condition;
        }
        self.clock.tick_timers(delta, audio_pos);
        let mut actions = Actions { next_action: input };
        fill_player_buffer(&mut actions, &mut self.player);
        let mut pushed: Vec<PushRecord> = Vec::new();
        let mut to_receive: Vec<PushRecord> = Vec::new();
        if self.clock.move_player {
            self.pop_player_buffer(&mut pushed, &mut to_receive);
        }
        let move_clouds = self.clock.move_clouds;
        self.director.set_cloud_direction(move_clouds);
        if move_clouds {
            self.reset_cooldown_timers();
            if let Some(d) = self.director.cur_cloud_move {
                self.move_clouds(d, &mut pushed, &mut to_receive);
            }
                if let Some(d) = self.director.cur_new_cloud {
                self.new_cloud(d);
            }
        }
        let ghost before_push = *self;
        self.push_clouds(&mut pushed, &mut to_receive);
        proof {
            if !self.clock.move_player && !self.clock.move_clouds {
                assert(board_of(*self) == board_of(before_push));
            }
        }
        self.despawn_clouds();
        self.check_loss_condition()
    }
}

/// Grid and entities agree: an occupied cell belongs to exactly one live
/// entity (the player or a single cloud), and every cloud's recorded
/// position is an occupied cell on the board.
pub proof fn lemma_one_owner_per_cell(
    g: Seq<TileOccupation>,
    player: (int, int),
    clouds: Seq<Cloud>,
    p: (int, int),
)
    requires
        consistent(g, player, clouds),
        in_range(p),
    ensures
        cell(g, p) != TileOccupation::Empty ==> {
            ||| p == player && forall|i: int| 0 <= i < clouds.len() ==> pos_of(#[trigger] clouds[i]) != p
            ||| p != player && exists|i: int|
                0 <= i < clouds.len() && pos_of(#[trigger] clouds[i]) == p && forall|j: int|
                    0 <= j < clouds.len() && pos_of(#[trigger] clouds[j]) == p ==> j == i
        },
        forall|i: int| 0 <= i < clouds.len() ==> cell(g, pos_of(#[trigger] clouds[i])) != TileOccupation::Empty,
{
    lemma_cell_index_injective(p, player);
    if cell(g, p) != TileOccupation::Empty && p != player {
        let k = cell_index(p);
        let i = choose|i: int| 0 <= i < clouds.len() && cell_index(pos_of(#[trigger] clouds[i])) == k;
        lemma_cell_index_injective(p, pos_of(clouds[i]));
        assert(pos_of(clouds[i]) == p);
    }
}

/// A player whose four neighbours all hold cooling clouds is stuck.
pub proof fn lemma_cooldown_ring_is_stuck(g: Seq<TileOccupation>, p: (int, int))
    requires
        g.len() == GRID_CELLS,
        in_range(p),
        !in_sky(p),
        cell(g, offset(p, CloudDir::Left)) == TileOccupation::CooldownCloud,
        cell(g, offset(p, CloudDir::Right)) == TileOccupation::CooldownCloud,
        cell(g, offset(p, CloudDir::Up)) == TileOccupation::CooldownCloud,
        cell(g, offset(p, CloudDir::Down)) == TileOccupation::CooldownCloud,
    ensures
        is_stuck(g, p),
{
}

} // verus!
