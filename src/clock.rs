//! The beat-quantised clock. Times are integer microseconds.
use vstd::arithmetic::div_mod::{lemma_mod_multiples_basic, lemma_small_mod};
use vstd::prelude::*;

verus! {

/// Sub-beats per beat: the player may act on each, clouds on every last one.
pub const TIMER_SCALE_FACTOR: u8 = 4;
/// How long after a sub-beat the player may still act (microseconds).
pub const FORGIVENESS_MARGIN: i64 = 50_000;
/// Largest duration the clock accepts (microseconds, about eleven days).
pub const MAX_SPAN: i64 = 1_000_000_000_000;

/// Tempo metadata of a track (microseconds).
#[derive(Clone, Copy, Debug, PartialEq, Eq, Structural)]
pub struct SongInfo {
    pub length: i64,
    pub beat_length: i64,
    pub intro_length: i64,
}

#[derive(Clone, Copy, Debug, PartialEq, Eq, Structural)]
pub enum SelectedSong {
    Song1,
    Song2,
}

/// Tempo metadata of each track (microseconds).
pub open spec fn song_info(s: SelectedSong) -> SongInfo {
    match s {
        SelectedSong::Song1 => SongInfo {
            length: 60_000_000,
            beat_length: 600_000,
            intro_length: 2_400_000,
        },
        SelectedSong::Song2 => SongInfo {
            length: 57_600_000,
            beat_length: 600_000,
            intro_length: 2_400_000,
        },
    }
}

impl SelectedSong {
    pub open spec fn valid_info(info: SongInfo) -> bool {
        &&& 0 < info.beat_length <= MAX_SPAN
        &&& 0 <= info.intro_length <= MAX_SPAN
        &&& 0 < info.length <= MAX_SPAN
        &&& info.beat_length >= TIMER_SCALE_FACTOR
    }

    /// Tempo metadata of the selected track.
    pub fn info(&self) -> (r: SongInfo)
        ensures
            Self::valid_info(r),
            r == song_info(*self),
            r.beat_length == 600_000,
            r.intro_length == 2_400_000,
            *self == SelectedSong::Song1 ==> r.length == 60_000_000,
            *self == SelectedSong::Song2 ==> r.length == 57_600_000,
    {
        match self {
            SelectedSong::Song1 => SongInfo {
                length: 60_000_000,
                beat_length: 600_000,
                intro_length: 2_400_000,
            },
            SelectedSong::Song2 => SongInfo {
                length: 57_600_000,
                beat_length: 600_000,
                intro_length: 2_400_000,
            },
        }
    }
}

pub open spec fn abs(x: int) -> int {
    if x < 0 {
        -x
    } else {
        x
    }
}

/// Tick length of a frame of length `delta` with pending correction `x`.
/// Never negative: a correction larger than a frame is spread over frames.
pub open spec fn corrected_tick(x: int, delta: int) -> int {
    if abs(x) <= delta {
        delta + x
    } else if x > 0 {
        delta + delta
    } else {
        0
    }
}

/// The correction carried to the next frame.
pub open spec fn carried_excess(x: int, delta: int) -> int {
    if abs(x) <= delta {
        0
    } else if x > 0 {
        x - delta
    } else {
        delta + x
    }
}

/// The correction after `n` frames of length `delta`, with no resync.
pub open spec fn excess_after(x: int, delta: int, n: nat) -> int
    decreases n,
{
    if n == 0 {
        x
    } else {
        excess_after(carried_excess(x, delta), delta, (n - 1) as nat)
    }
}

/// The correction that brings the clock back to the audio position, at most
/// one sub-beat in magnitude (the song loops).
pub open spec fn resync_excess(sync: int, sub_beat: int) -> int {
    if sync >= 0 {
        sync % sub_beat
    } else {
        -((-sync) % sub_beat)
    }
}

/// A repeating timer that runs `d` on from `elapsed`.
pub open spec fn timer_after(elapsed: int, d: int, period: int) -> int {
    (elapsed + d) % period
}

/// The clock `f` is the clock `o` one frame of length `delta` later, with
/// the audio position `audio_pos` when the track plays.
pub open spec fn ticked(o: MainClock, f: MainClock, delta: int, audio_pos: Option<i64>) -> bool {
    let r = corrected_tick(o.excess_time as int, delta);
    let main_total = o.main_elapsed + r;
    let abs_total = o.absolute_elapsed + r;
    let current_abs = abs_total % (o.loop_length as int);
    let abs_next = if abs_total >= o.loop_length {
        timer_after(current_abs, o.intro_length as int, o.loop_length as int)
    } else {
        current_abs
    };
    &&& f.sub_beat == o.sub_beat
    &&& f.loop_length == o.loop_length
    &&& f.intro_length == o.intro_length
    &&& f.forgiveness_margin == o.forgiveness_margin
    &&& f.main_elapsed == main_total % (o.sub_beat as int)
    &&& f.absolute_elapsed == abs_next
    &&& if main_total >= o.sub_beat {
        &&& f.move_player
        &&& f.move_clouds == (o.cloud_counter + 1 >= TIMER_SCALE_FACTOR)
        &&& f.cloud_counter == if o.cloud_counter + 1 >= TIMER_SCALE_FACTOR {
            0
        } else {
            o.cloud_counter + 1
        }
        &&& match audio_pos {
            Some(p) => {
                &&& f.excess_time == resync_excess(p - current_abs, o.sub_beat as int)
                &&& f.last_absolute_timer == abs_next
                &&& f.last_audio_time == p
            },
            None => {
                &&& f.excess_time == carried_excess(o.excess_time as int, delta)
                &&& f.last_absolute_timer == o.last_absolute_timer
                &&& f.last_audio_time == o.last_audio_time
            },
        }
    } else {
        &&& !f.move_clouds
        &&& f.move_player == (f.main_elapsed < o.forgiveness_margin)
        &&& f.cloud_counter == o.cloud_counter
        &&& f.excess_time == carried_excess(o.excess_time as int, delta)
        &&& f.last_absolute_timer == o.last_absolute_timer
        &&& f.last_audio_time == o.last_audio_time
    }
}

pub struct MainClock {
    /// Period of the sub-beat timer.
    pub sub_beat: i64,
    pub main_elapsed: i64,
    /// Period of the absolute timer: the intro and one loop of the song.
    pub loop_length: i64,
    pub absolute_elapsed: i64,
    pub intro_length: i64,
    pub last_absolute_timer: i64,
    pub last_audio_time: i64,
    pub excess_time: i64,
    pub move_player: bool,
    pub move_clouds: bool,
    pub forgiveness_margin: i64,
    pub cloud_counter: u8,
}

impl MainClock {
    pub open spec fn wf(&self) -> bool {
        &&& 0 < self.sub_beat <= MAX_SPAN
        &&& 0 <= self.main_elapsed < self.sub_beat
        &&& 0 < self.loop_length <= 2 * MAX_SPAN
        &&& 0 <= self.absolute_elapsed < self.loop_length
        &&& 0 <= self.intro_length <= MAX_SPAN
        &&& abs(self.excess_time as int) <= MAX_SPAN
        &&& 0 <= self.forgiveness_margin
        &&& self.cloud_counter < TIMER_SCALE_FACTOR
    }

    /// A clock at the start of a track.
    pub fn new(song: SongInfo) -> (r: MainClock)
        requires
            SelectedSong::valid_info(song),
        ensures
            r.wf(),
            r.sub_beat == song.beat_length / (TIMER_SCALE_FACTOR as i64),
            r.loop_length == song.length + song.intro_length,
            r.intro_length == song.intro_length,
            r.main_elapsed == 0,
            r.absolute_elapsed == 0,
            r.excess_time == 0,
            r.cloud_counter == 0,
            !r.move_player,
            !r.move_clouds,
            r.forgiveness_margin == FORGIVENESS_MARGIN,
    {
        MainClock {
            sub_beat: song.beat_length / (TIMER_SCALE_FACTOR as i64),
            main_elapsed: 0,
            loop_length: song.length + song.intro_length,
            absolute_elapsed: 0,
            intro_length: song.intro_length,
            last_absolute_timer: 0,
            last_audio_time: 0,
            excess_time: 0,
            move_player: false,
            move_clouds: false,
            forgiveness_margin: FORGIVENESS_MARGIN,
            cloud_counter: 0,
        }
    }

    /// Advance the clock by one frame of length `delta`, with the audio
    /// playback position when the track plays. Returns the tick length
    /// that was applied, after correction.
    pub fn tick_timers(&mut self, delta: i64, audio_pos: Option<i64>) -> (r: i64)
        requires
            old(self).wf(),
            0 <= delta <= MAX_SPAN,
            audio_pos matches Some(p) ==> 0 <= p <= MAX_SPAN,
        ensures
            final(self).wf(),
            r >= 0,
            r == corrected_tick(old(self).excess_time as int, delta as int),
            ticked(*old(self), *final(self), delta as int, audio_pos),
    {
        let x = self.excess_time;
        let tick: i64;
        if (x >= 0 && x <= delta) || (x < 0 && -x <= delta) {
            tick = delta + x;
            self.excess_time = 0;
        } else if x > 0 {
            tick = delta + delta;
            self.excess_time = x - delta;
        } else {
            // A negative tick is clipped to zero; the rest waits.
            tick = 0;
            self.excess_time = delta + x;
        }
        let main_total = self.main_elapsed + tick;
        let main_finished = main_total >= self.sub_beat;
        self.main_elapsed = main_total % self.sub_beat;
        let abs_total = self.absolute_elapsed + tick;
        let abs_finished = abs_total >= self.loop_length;
        let current_abs = abs_total % self.loop_length;
        self.absolute_elapsed = current_abs;
        // The audio loops after the intro: jump over it to stay in step.
        if abs_finished {
            self.absolute_elapsed = (current_abs + self.intro_length) % self.loop_length;
        }
        if main_finished {
            if let Some(p) = audio_pos {
                // Positive when the logic runs late, negative when early.
                let sync = p - current_abs;
                if sync >= 0 {
                    self.excess_time = sync % self.sub_beat;
                } else {
                    self.excess_time = -((-sync) % self.sub_beat);
                }
                self.last_absolute_timer = self.absolute_elapsed;
                self.last_audio_time = p;
            }
            self.move_player = true;
            if self.cloud_counter + 1 >= TIMER_SCALE_FACTOR {
                self.move_clouds = true;
                self.cloud_counter = 0;
            } else {
                self.move_clouds = false;
                self.cloud_counter = self.cloud_counter + 1;
            }
        } else {
            self.move_clouds = false;
            self.move_player = self.main_elapsed < self.forgiveness_margin;
        }
        tick
    }
}

/// A frame never ticks the clock backwards, and the pending correction
/// shrinks by a whole frame or is used up.
pub proof fn lemma_correction_step(x: int, delta: int)
    requires
        delta >= 0,
    ensures
        corrected_tick(x, delta) >= 0,
        abs(carried_excess(x, delta)) <= abs(x),
        carried_excess(x, delta) == 0 || abs(carried_excess(x, delta)) == abs(x) - delta,
{
}

/// After a resync the pending correction is under one sub-beat, whatever
/// the offset between the clock and the audio position.
pub proof fn lemma_resync_within_sub_beat(sync: int, sub_beat: int)
    requires
        sub_beat > 0,
    ensures
        abs(resync_excess(sync, sub_beat)) < sub_beat,
        abs(sync) < sub_beat ==> resync_excess(sync, sub_beat) == sync,
{
    if abs(sync) < sub_beat {
        if sync >= 0 {
            lemma_small_mod(sync as nat, sub_beat as nat);
        } else {
            lemma_small_mod((-sync) as nat, sub_beat as nat);
        }
    }
}

/// A pending correction is used up within `n` frames of length `delta` as
/// soon as `n * delta` covers it, with no tick ever negative on the way.
pub proof fn lemma_correction_closes(x: int, delta: int, n: nat)
    requires
        delta > 0,
        n * delta >= abs(x),
    ensures
        excess_after(x, delta, n) == 0,
    decreases n,
{
    if n > 0 {
        let y = carried_excess(x, delta);
        lemma_correction_step(x, delta);
        if y != 0 {
            assert((n - 1) as nat * delta == n * delta - delta) by (nonlinear_arith)
                requires n > 0;
        } else {
            assert((n - 1) as nat * delta >= 0) by (nonlinear_arith)
                requires delta > 0;
        }
        lemma_correction_closes(y, delta, (n - 1) as nat);
    } else {
        assert(n * delta == 0) by (nonlinear_arith)
            requires n == 0;
    }
}

/// Whatever the offset `sync` between the audio position and the clock
/// when a sub-beat resyncs, the correction is under one sub-beat, and
/// frames of length `delta` use it up within `sub_beat / delta + 1`
/// frames. An offset of a whole beat needs no correction at all.
pub proof fn lemma_audio_offset_resyncs(sync: int, sub_beat: int, delta: int)
    requires
        sub_beat > 0,
        delta > 0,
    ensures
        abs(resync_excess(sync, sub_beat)) < sub_beat,
        excess_after(resync_excess(sync, sub_beat), delta, (sub_beat / delta + 1) as nat) == 0,
        sync == TIMER_SCALE_FACTOR * sub_beat ==> resync_excess(sync, sub_beat) == 0,
{
    let x = resync_excess(sync, sub_beat);
    lemma_resync_within_sub_beat(sync, sub_beat);
    let n = sub_beat / delta + 1;
    assert(n * delta >= sub_beat) by (nonlinear_arith)
        requires
            n == sub_beat / delta + 1,
            delta > 0,
            sub_beat > 0,
    ;
    lemma_correction_closes(x, delta, n as nat);
    if sync == TIMER_SCALE_FACTOR * sub_beat {
        lemma_mod_multiples_basic(TIMER_SCALE_FACTOR as int, sub_beat);
    }
}

} // verus!
