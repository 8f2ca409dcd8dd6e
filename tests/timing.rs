use cloud_sweeper::clock::{MainClock, SelectedSong, FORGIVENESS_MARGIN};
use cloud_sweeper::director::{dir_index, CloudControl};
use cloud_sweeper::grid::CloudDir;

fn clock() -> MainClock {
    MainClock::new(SelectedSong::Song1.info())
}

#[test]
fn song_tempo_in_microseconds() {
    let a = SelectedSong::Song1.info();
    assert_eq!(a.beat_length, 600_000);
    assert_eq!(a.intro_length, 2_400_000);
    assert_eq!(a.length, 60_000_000);
    assert_eq!(SelectedSong::Song2.info().length, 57_600_000);
    let c = clock();
    assert_eq!(c.sub_beat, 150_000);
    assert_eq!(c.loop_length, 62_400_000);
}

#[test]
fn sub_beat_lets_the_player_act_and_every_fourth_moves_clouds() {
    let mut c = clock();
    let mut player_ticks = 0;
    let mut cloud_ticks = 0;
    for _ in 0..16 {
        let t = c.tick_timers(150_000, None);
        assert_eq!(t, 150_000);
        assert!(c.move_player);
        player_ticks += 1;
        if c.move_clouds {
            cloud_ticks += 1;
        }
    }
    assert_eq!(player_ticks, 16);
    assert_eq!(cloud_ticks, 4);
}

#[test]
fn forgiveness_window_after_a_sub_beat() {
    let mut c = clock();
    c.tick_timers(150_000, None);
    assert!(c.move_player);
    c.tick_timers(FORGIVENESS_MARGIN - 10_000, None);
    assert!(c.move_player);
    assert!(!c.move_clouds);
    c.tick_timers(20_000, None);
    assert!(!c.move_player);
}

#[test]
fn small_correction_is_used_in_one_frame() {
    let mut c = clock();
    c.excess_time = -10_000;
    assert_eq!(c.tick_timers(16_000, None), 6_000);
    assert_eq!(c.excess_time, 0);
}

#[test]
fn large_positive_correction_is_spread() {
    let mut c = clock();
    c.excess_time = 50_000;
    assert_eq!(c.tick_timers(16_000, None), 32_000);
    assert_eq!(c.excess_time, 34_000);
}

#[test]
fn large_negative_correction_clips_the_tick_to_zero() {
    let mut c = clock();
    c.excess_time = -50_000;
    assert_eq!(c.tick_timers(16_000, None), 0);
    assert_eq!(c.excess_time, -34_000);
    assert_eq!(c.main_elapsed, 0);
}

#[test]
fn one_beat_audio_offset_resyncs_within_a_sub_beat() {
    let mut c = clock();
    // The clock reaches its first sub-beat while the audio is one beat ahead.
    c.tick_timers(150_000, Some(150_000 + 600_000));
    assert!(c.excess_time.abs() < c.sub_beat);
    assert_eq!(c.excess_time, 0);
    assert_eq!(c.last_audio_time, 750_000);
}

#[test]
fn offset_past_a_beat_closes_within_frames() {
    let mut c = clock();
    c.tick_timers(150_000, Some(150_000 + 600_000 + 30_000));
    assert_eq!(c.excess_time, 30_000);
    let mut frames = 0;
    while c.excess_time != 0 {
        let t = c.tick_timers(16_667, None);
        assert!(t >= 0);
        frames += 1;
        assert!(frames <= 3);
    }
    assert_eq!(frames, 2);
}

#[test]
fn audio_behind_gives_negative_correction() {
    let mut c = clock();
    c.tick_timers(150_000, Some(100_000));
    assert_eq!(c.excess_time, -50_000);
    let t = c.tick_timers(16_000, None);
    assert_eq!(t, 0);
}

#[test]
fn absolute_timer_skips_the_intro_when_the_song_loops() {
    let mut c = clock();
    c.absolute_elapsed = c.loop_length - 100_000;
    c.tick_timers(150_000, None);
    assert_eq!(c.absolute_elapsed, 50_000 + 2_400_000);
}

#[test]
fn rotation_of_the_active_direction() {
    let mut d = CloudControl::new();
    assert_eq!(d.next_cloud_direction(), CloudDir::Up);
    assert_eq!(d.next_cloud_direction(), CloudDir::Right);
    assert_eq!(d.next_cloud_direction(), CloudDir::Down);
    assert_eq!(d.next_cloud_direction(), CloudDir::Left);
    assert_eq!(dir_index(CloudDir::Left), 0);
    assert_eq!(dir_index(CloudDir::Down), 3);
}

#[test]
fn spawn_throttling_with_phase_zero() {
    let mut d = CloudControl::new();
    assert_eq!(d.spawn_counter[dir_index(CloudDir::Left)], 0);
    let mut left_turn = 0;
    let mut spawned_turns = Vec::new();
    for _ in 0..40 {
        d.set_cloud_direction(true);
        if d.cur_cloud_move == Some(CloudDir::Left) {
            if d.cur_new_cloud == Some(CloudDir::Left) {
                spawned_turns.push(left_turn);
            }
            left_turn += 1;
        }
    }
    assert_eq!(left_turn, 10);
    assert_eq!(spawned_turns, vec![0, 3, 6, 9]);
}

#[test]
fn no_direction_between_cloud_ticks() {
    let mut d = CloudControl::new();
    d.set_cloud_direction(true);
    assert_eq!(d.cur_cloud_move, Some(CloudDir::Up));
    d.set_cloud_direction(false);
    assert_eq!(d.cur_cloud_move, None);
    assert_eq!(d.cur_new_cloud, None);
    assert_eq!(d.cur_cloud, CloudDir::Up);
}

#[test]
fn whole_beat_offset_needs_no_correction() {
    let mut c = clock();
    c.tick_timers(150_000, Some(150_000 + 2 * 600_000));
    assert_eq!(c.excess_time, 0);
    let mut d = clock();
    d.tick_timers(150_000, Some(150_000 + 600_000 - 20_000));
    assert_eq!(d.excess_time, 130_000);
    let mut frames = 0;
    while d.excess_time != 0 {
        assert!(d.tick_timers(16_667, None) >= 0);
        frames += 1;
    }
    assert!(frames <= 150_000 / 16_667 + 1);
}
