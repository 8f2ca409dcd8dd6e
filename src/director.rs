//! The cloud director: the rotation of the active direction and the
//! per-direction spawn throttling.
use crate::grid::CloudDir;
use vstd::arithmetic::div_mod::{lemma_add_mod_noop, lemma_small_mod};
use vstd::prelude::*;

verus! {

/// A direction spawns a cloud once every this many of its turns.
pub const SPAWN_FREQUENCY: u8 = 3;

/// Position of a direction in the rotation Left, Up, Right, Down.
pub open spec fn dir_rank(d: CloudDir) -> int {
    match d {
        CloudDir::Left => 0,
        CloudDir::Up => 1,
        CloudDir::Right => 2,
        CloudDir::Down => 3,
    }
}

/// The direction that follows `d` in the rotation.
pub open spec fn next_dir(d: CloudDir) -> CloudDir {
    match d {
        CloudDir::Left => CloudDir::Up,
        CloudDir::Up => CloudDir::Right,
        CloudDir::Right => CloudDir::Down,
        CloudDir::Down => CloudDir::Left,
    }
}

/// Phase offset of the spawn counter of each direction, by rank.
pub open spec fn spawn_offset(rank: int) -> u8 {
    if rank == 1 || rank == 3 {
        1
    } else {
        0
    }
}

/// The spawn counter of a direction before its `k`-th turn (from 0), when
/// it started at `offset`.
pub open spec fn counter_before_turn(offset: int, k: nat) -> int
    decreases k,
{
    if k == 0 {
        offset
    } else {
        (counter_before_turn(offset, (k - 1) as nat) + 1) % (SPAWN_FREQUENCY as int)
    }
}

/// A direction spawns on its `k`-th turn when its counter stands at zero.
pub open spec fn spawns_on_turn(offset: int, k: nat) -> bool {
    counter_before_turn(offset, k) == 0
}

/// Position of a direction in the rotation.
pub fn dir_index(cloud_dir: CloudDir) -> (r: usize)
    ensures
        r == dir_rank(cloud_dir),
        r < 4,
{
    match cloud_dir {
        CloudDir::Left => 0,
        CloudDir::Up => 1,
        CloudDir::Right => 2,
        CloudDir::Down => 3,
    }
}

/// The director `n` is the director `o` after a frame that is a
/// cloud-tick exactly when `move_clouds` holds.
pub open spec fn directed(o: CloudControl, n: CloudControl, move_clouds: bool) -> bool {
    &&& !move_clouds ==> {
        &&& n.cur_cloud == o.cur_cloud
        &&& n.spawn_counter == o.spawn_counter
        &&& n.cur_cloud_move.is_none()
        &&& n.cur_new_cloud.is_none()
    }
    &&& move_clouds ==> {
        let d = next_dir(o.cur_cloud);
        let i = dir_rank(d);
        &&& n.cur_cloud == d
        &&& n.cur_cloud_move == Some(d)
        &&& n.spawn_counter@ == o.spawn_counter@.update(
            i,
            ((o.spawn_counter[i] + 1) % (SPAWN_FREQUENCY as int)) as u8,
        )
        &&& n.cur_new_cloud == if o.spawn_counter[i] == 0 {
            Some(d)
        } else {
            None::<CloudDir>
        }
    }
}

pub struct CloudControl {
    /// Direction in which a cloud spawns this cloud-tick, if any.
    pub cur_new_cloud: Option<CloudDir>,
    /// Direction whose clouds advance this cloud-tick, if any.
    pub cur_cloud_move: Option<CloudDir>,
    pub cur_cloud: CloudDir,
    pub spawn_counter: [u8; 4],
}

impl CloudControl {
    pub open spec fn wf(&self) -> bool {
        forall|i: int| 0 <= i < 4 ==> #[trigger] self.spawn_counter[i] < SPAWN_FREQUENCY
    }

    /// The director at the start of a run.
    pub fn new() -> (r: CloudControl)
        ensures
            r.wf(),
            r.cur_new_cloud.is_none(),
            r.cur_cloud_move.is_none(),
            r.cur_cloud == CloudDir::Left,
            forall|i: int| 0 <= i < 4 ==> #[trigger] r.spawn_counter[i] == spawn_offset(i),
    {
        CloudControl {
            cur_new_cloud: None,
            cur_cloud_move: None,
            cur_cloud: CloudDir::Left,
            spawn_counter: [0, 1, 0, 1],
        }
    }

    /// Step the rotation and return the new active direction.
    pub fn next_cloud_direction(&mut self) -> (r: CloudDir)
        ensures
            r == next_dir(old(self).cur_cloud),
            final(self).cur_cloud == r,
            final(self).cur_new_cloud == old(self).cur_new_cloud,
            final(self).cur_cloud_move == old(self).cur_cloud_move,
            final(self).spawn_counter == old(self).spawn_counter,
    {
        let next = match self.cur_cloud {
            CloudDir::Left => CloudDir::Up,
            CloudDir::Up => CloudDir::Right,
            CloudDir::Right => CloudDir::Down,
            CloudDir::Down => CloudDir::Left,
        };
        self.cur_cloud = next;
        next
    }

    /// On a cloud-tick, pick the next active direction and decide whether
    /// it spawns a cloud; between cloud-ticks nothing is active.
    pub fn set_cloud_direction(&mut self, move_clouds: bool)
        requires
            old(self).wf(),
        ensures
            final(self).wf(),
            directed(*old(self), *final(self), move_clouds),
    {
        if !move_clouds {
            self.cur_cloud_move = None;
            self.cur_new_cloud = None;
            return ;
        }
        let d = self.next_cloud_direction();
        self.cur_cloud_move = Some(d);
        let i = dir_index(d);
        let counter = self.spawn_counter[i];
        if counter == 0 {
            self.cur_new_cloud = Some(d);
        } else {
            self.cur_new_cloud = None;
        }
        self.spawn_counter[i] = (counter + 1) % SPAWN_FREQUENCY;
        assert(forall|j: int| 0 <= j < 4 && j != i ==> self.spawn_counter[j] == old(self).spawn_counter[j]);
    }
}

/// Before the `k`-th turn, a counter that started at `offset` stands at
/// `(offset + k) mod SPAWN_FREQUENCY`.
pub proof fn lemma_counter_before_turn(offset: int, k: nat)
    requires
        0 <= offset < SPAWN_FREQUENCY,
    ensures
        counter_before_turn(offset, k) == (offset + k) % (SPAWN_FREQUENCY as int),
    decreases k,
{
    if k == 0 {
        lemma_small_mod(offset as nat, SPAWN_FREQUENCY as nat);
    } else {
        lemma_counter_before_turn(offset, (k - 1) as nat);
        lemma_add_mod_noop(offset + k - 1, 1, SPAWN_FREQUENCY as int);
        lemma_small_mod(1, SPAWN_FREQUENCY as nat);
    }
}

/// Spawn throttling: a direction whose counter starts at phase 0 spawns on
/// its turns 0, 3, 6, ... and on no other.
pub proof fn lemma_spawn_throttling(k: nat)
    ensures
        spawns_on_turn(0, k) <==> k % (SPAWN_FREQUENCY as nat) == 0,
{
    lemma_counter_before_turn(0, k);
}

} // verus!
