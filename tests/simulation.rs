use cloud_sweeper::clock::SelectedSong;
use cloud_sweeper::grid::{dir_to_tile, CloudDir, LossCondition, PushState, TileOccupation};
use cloud_sweeper::logic::{Cloud, PushRecord, Simulation, CLOUD_COUNT_LOSE_COND};
use cloud_sweeper::player::GameControl;

fn place(sim: &mut Simulation, pos: [i8; 2], dir: CloudDir, cooling: bool) {
    let tag = if cooling { TileOccupation::CooldownCloud } else { dir_to_tile(dir) };
    sim.grid.set(pos, tag);
    let id = sim.clouds.len() as u64 + 100;
    sim.clouds.push(Cloud {
        id,
        dir,
        pos,
        old_pos: pos,
        is_pushed: false,
        is_cooldown: cooling,
        cooldown_left: if cooling { 4 } else { 0 },
        to_despawn: false,
        loss_cause: false,
    });
}

fn cloud_at(sim: &Simulation, pos: [i8; 2]) -> Option<Cloud> {
    sim.clouds.iter().copied().find(|c| c.pos == pos)
}

/// Every occupied cell is the position of exactly one entity, and back.
fn assert_consistent(sim: &Simulation) {
    for x in 0..10i8 {
        for y in 0..10i8 {
            let owners = sim.clouds.iter().filter(|c| c.pos == [x, y]).count()
                + usize::from(sim.player.player_pos == [x, y]);
            let occupied = sim.grid.get([x, y]) != TileOccupation::Empty;
            assert_eq!(owners, usize::from(occupied), "cell {:?}", [x, y]);
        }
    }
    assert_eq!(sim.grid.get(sim.player.player_pos), TileOccupation::Player);
}

fn resolve(sim: &mut Simulation, dir: CloudDir) {
    let mut pushed: Vec<PushRecord> = Vec::new();
    let mut to_receive: Vec<PushRecord> = Vec::new();
    sim.move_clouds(dir, &mut pushed, &mut to_receive);
    sim.push_clouds(&mut pushed, &mut to_receive);
    assert!(pushed.is_empty() && to_receive.is_empty());
    sim.despawn_clouds();
}

fn player_turn(sim: &mut Simulation, action: GameControl) {
    sim.player.input_buffer = [action, GameControl::Idle];
    let mut pushed: Vec<PushRecord> = Vec::new();
    let mut to_receive: Vec<PushRecord> = Vec::new();
    sim.pop_player_buffer(&mut pushed, &mut to_receive);
    sim.push_clouds(&mut pushed, &mut to_receive);
    sim.despawn_clouds();
}

#[test]
fn a_new_run_is_consistent() {
    let sim = Simulation::new(SelectedSong::Song2);
    assert_consistent(&sim);
    assert!(sim.clouds.is_empty());
    assert_eq!(sim.player.player_pos, [5, 5]);
}

#[test]
fn cloud_moves_one_cell_in_the_active_direction() {
    let mut sim = Simulation::new(SelectedSong::Song1);
    place(&mut sim, [3, 3], CloudDir::Left, false);
    place(&mut sim, [6, 6], CloudDir::Up, false);
    resolve(&mut sim, CloudDir::Left);
    assert_eq!(cloud_at(&sim, [2, 3]).unwrap().old_pos, [3, 3]);
    assert!(cloud_at(&sim, [6, 6]).is_some());
    assert_consistent(&sim);
}

#[test]
fn player_moves_and_is_kept_on_the_stage() {
    let mut sim = Simulation::new(SelectedSong::Song1);
    player_turn(&mut sim, GameControl::Up);
    assert_eq!(sim.player.player_pos, [5, 6]);
    player_turn(&mut sim, GameControl::Up);
    player_turn(&mut sim, GameControl::Up);
    assert_eq!(sim.player.player_pos, [5, 7]);
    assert_consistent(&sim);
}

#[test]
fn player_push_moves_both_and_cools_the_cloud() {
    let mut sim = Simulation::new(SelectedSong::Song1);
    place(&mut sim, [6, 5], CloudDir::Up, false);
    player_turn(&mut sim, GameControl::Right);
    assert_eq!(sim.player.player_pos, [6, 5]);
    let c = cloud_at(&sim, [7, 5]).unwrap();
    assert!(c.is_cooldown && c.is_pushed);
    assert_eq!(sim.grid.get([7, 5]), TileOccupation::CooldownCloud);
    assert_consistent(&sim);
}

#[test]
fn chain_push_moves_pusher_and_pushed() {
    let mut sim = Simulation::new(SelectedSong::Song1);
    place(&mut sim, [5, 3], CloudDir::Right, false);
    place(&mut sim, [6, 3], CloudDir::Up, false);
    resolve(&mut sim, CloudDir::Right);
    assert_eq!(cloud_at(&sim, [6, 3]).unwrap().dir, CloudDir::Right);
    assert_eq!(cloud_at(&sim, [7, 3]).unwrap().dir, CloudDir::Up);
    assert!(cloud_at(&sim, [5, 3]).is_none());
    assert_consistent(&sim);
}

#[test]
fn cloud_pushes_the_player() {
    let mut sim = Simulation::new(SelectedSong::Song1);
    place(&mut sim, [4, 5], CloudDir::Right, false);
    resolve(&mut sim, CloudDir::Right);
    assert_eq!(sim.player.player_pos, [6, 5]);
    assert!(cloud_at(&sim, [5, 5]).is_some());
    assert_consistent(&sim);
}

#[test]
fn chain_blocked_at_the_edge_moves_nothing() {
    let mut sim = Simulation::new(SelectedSong::Song1);
    place(&mut sim, [8, 4], CloudDir::Right, false);
    place(&mut sim, [9, 4], CloudDir::Left, false);
    resolve(&mut sim, CloudDir::Right);
    assert!(cloud_at(&sim, [8, 4]).is_some());
    assert!(cloud_at(&sim, [9, 4]).is_some());
    assert_consistent(&sim);
}

#[test]
fn chain_blocked_by_a_third_entity_moves_nothing() {
    let mut sim = Simulation::new(SelectedSong::Song1);
    place(&mut sim, [6, 5], CloudDir::Up, false);
    place(&mut sim, [7, 5], CloudDir::Up, false);
    player_turn(&mut sim, GameControl::Right);
    assert_eq!(sim.player.player_pos, [5, 5]);
    assert!(cloud_at(&sim, [6, 5]).is_some());
    assert!(cloud_at(&sim, [7, 5]).is_some());
    assert_consistent(&sim);
}

#[test]
fn cloud_leaving_the_board_is_removed() {
    let mut sim = Simulation::new(SelectedSong::Song1);
    place(&mut sim, [0, 4], CloudDir::Left, false);
    let mut pushed: Vec<PushRecord> = Vec::new();
    let mut to_receive: Vec<PushRecord> = Vec::new();
    sim.move_clouds(CloudDir::Left, &mut pushed, &mut to_receive);
    assert!(cloud_at(&sim, [0, 4]).unwrap().to_despawn);
    assert_eq!(sim.grid.get([0, 4]), TileOccupation::Despawn);
    sim.despawn_clouds();
    assert!(sim.clouds.is_empty());
    assert_eq!(sim.grid.get([0, 4]), TileOccupation::Empty);
    assert_consistent(&sim);
}

#[test]
fn cloud_pushed_past_the_edge_is_ejected() {
    let mut sim = Simulation::new(SelectedSong::Song1);
    place(&mut sim, [1, 8], CloudDir::Left, false);
    place(&mut sim, [0, 8], CloudDir::Up, false);
    let mut pushed: Vec<PushRecord> = Vec::new();
    let mut to_receive: Vec<PushRecord> = Vec::new();
    sim.move_clouds(CloudDir::Left, &mut pushed, &mut to_receive);
    assert_eq!(to_receive[0].kind, PushState::PushOver);
    sim.push_clouds(&mut pushed, &mut to_receive);
    sim.despawn_clouds();
    assert_eq!(sim.clouds.len(), 1);
    assert_eq!(cloud_at(&sim, [0, 8]).unwrap().dir, CloudDir::Left);
    assert_consistent(&sim);
}

#[test]
fn cooling_clouds_do_not_move_until_their_timer_ends() {
    let mut sim = Simulation::new(SelectedSong::Song1);
    place(&mut sim, [3, 3], CloudDir::Left, true);
    resolve(&mut sim, CloudDir::Left);
    assert!(cloud_at(&sim, [3, 3]).is_some());
    for _ in 0..4 {
        sim.reset_cooldown_timers();
    }
    let c = cloud_at(&sim, [3, 3]).unwrap();
    assert!(!c.is_cooldown);
    assert_eq!(sim.grid.get([3, 3]), TileOccupation::LeftCloud);
    resolve(&mut sim, CloudDir::Left);
    assert!(cloud_at(&sim, [2, 3]).is_some());
    assert_consistent(&sim);
}

#[test]
fn special_turns_neighbours_toward_the_player() {
    let mut sim = Simulation::new(SelectedSong::Song1);
    place(&mut sim, [4, 5], CloudDir::Up, false);
    place(&mut sim, [6, 5], CloudDir::Up, false);
    place(&mut sim, [5, 4], CloudDir::Left, false);
    place(&mut sim, [5, 6], CloudDir::Left, false);
    place(&mut sim, [3, 3], CloudDir::Up, false);
    player_turn(&mut sim, GameControl::Special);
    assert_eq!(sim.player.special_control, 1);
    player_turn(&mut sim, GameControl::Special);
    assert_eq!(sim.player.special_control, 0);
    assert_eq!(cloud_at(&sim, [4, 5]).unwrap().dir, CloudDir::Right);
    assert_eq!(cloud_at(&sim, [6, 5]).unwrap().dir, CloudDir::Left);
    assert_eq!(cloud_at(&sim, [5, 4]).unwrap().dir, CloudDir::Up);
    assert_eq!(cloud_at(&sim, [5, 6]).unwrap().dir, CloudDir::Down);
    assert_eq!(cloud_at(&sim, [3, 3]).unwrap().dir, CloudDir::Up);
    assert_eq!(sim.grid.get([5, 6]), TileOccupation::DownCloud);
    assert_consistent(&sim);
}

#[test]
fn special_charge_decays() {
    let mut sim = Simulation::new(SelectedSong::Song1);
    player_turn(&mut sim, GameControl::Special);
    for _ in 0..3 {
        player_turn(&mut sim, GameControl::Idle);
    }
    assert_eq!(sim.player.special_control, 0);
}

#[test]
fn stuck_by_four_cooling_clouds() {
    let mut sim = Simulation::new(SelectedSong::Song1);
    for t in [[4i8, 5], [6, 5], [5, 4], [5, 6]] {
        place(&mut sim, t, CloudDir::Up, true);
    }
    place(&mut sim, [3, 3], CloudDir::Up, false);
    assert_eq!(sim.check_loss_condition(), LossCondition::Stuck);
    let flagged: Vec<[i8; 2]> = sim.clouds.iter().filter(|c| c.loss_cause).map(|c| c.pos).collect();
    assert_eq!(flagged, vec![[4, 5], [6, 5], [5, 4], [5, 6]]);
}

#[test]
fn mess_up_to_the_threshold_is_no_loss() {
    let mut sim = Simulation::new(SelectedSong::Song1);
    let mut n = 0;
    'fill: for x in 2..=7i8 {
        for y in 2..=7i8 {
            if n == CLOUD_COUNT_LOSE_COND {
                break 'fill;
            }
            if [x, y] != [5, 5] && (x - 5).abs() + (y - 5).abs() > 1 {
                place(&mut sim, [x, y], CloudDir::Up, false);
                n += 1;
            }
        }
    }
    assert_eq!(sim.check_loss_condition(), LossCondition::NoLoss);
    assert_eq!(sim.grid.cloud_count, CLOUD_COUNT_LOSE_COND);
    place(&mut sim, [7, 7], CloudDir::Up, false);
    assert_eq!(sim.check_loss_condition(), LossCondition::TooMessy);
    assert_eq!(sim.grid.cloud_count, CLOUD_COUNT_LOSE_COND + 1);
}

#[test]
fn spawned_cloud_joins_the_arena() {
    let mut sim = Simulation::new(SelectedSong::Song1);
    let spot = sim.new_cloud(CloudDir::Right).unwrap();
    assert_eq!(spot[0], 0);
    assert_eq!(sim.clouds.len(), 1);
    assert_eq!(sim.clouds[0].dir, CloudDir::Right);
    assert_consistent(&sim);
}

#[test]
fn frames_keep_grid_and_entities_in_agreement() {
    let mut sim = Simulation::new(SelectedSong::Song1);
    let inputs = [
        GameControl::Up,
        GameControl::Idle,
        GameControl::Left,
        GameControl::Special,
        GameControl::Special,
        GameControl::Down,
        GameControl::Right,
    ];
    for f in 0..2000usize {
        let input = inputs[f % inputs.len()];
        sim.step(37_500, None, input);
        assert_consistent(&sim);
        assert!(sim.clouds.iter().all(|c| !c.to_despawn));
        if sim.grid.loss_condition != LossCondition::NoLoss {
            break;
        }
    }
    assert!(!sim.clouds.is_empty() || sim.grid.loss_condition != LossCondition::NoLoss);
}

#[test]
fn a_lost_run_stays_still_until_reset() {
    let mut sim = Simulation::new(SelectedSong::Song1);
    sim.grid.loss_condition = LossCondition::TooMessy;
    let before = sim.player.player_pos;
    assert_eq!(sim.step(150_000, None, GameControl::Up), LossCondition::TooMessy);
    assert_eq!(sim.player.player_pos, before);
    sim.reset(SelectedSong::Song1);
    assert_eq!(sim.grid.loss_condition, LossCondition::NoLoss);
    assert!(sim.clouds.is_empty());
}

#[test]
fn landing_on_a_leaving_cloud_removes_it() {
    let mut sim = Simulation::new(SelectedSong::Song1);
    place(&mut sim, [0, 3], CloudDir::Left, false);
    place(&mut sim, [2, 3], CloudDir::Left, false);
    place(&mut sim, [1, 3], CloudDir::Down, false);
    let mut pushed: Vec<PushRecord> = Vec::new();
    let mut to_receive: Vec<PushRecord> = Vec::new();
    sim.move_clouds(CloudDir::Left, &mut pushed, &mut to_receive);
    assert_eq!(sim.grid.get([0, 3]), TileOccupation::Despawn);
    assert_eq!(to_receive.len(), 1);
    assert_eq!(to_receive[0].kind, PushState::CanPush);
    sim.push_clouds(&mut pushed, &mut to_receive);
    sim.despawn_clouds();
    assert_eq!(sim.clouds.len(), 2);
    assert_eq!(cloud_at(&sim, [0, 3]).unwrap().dir, CloudDir::Down);
    assert_eq!(cloud_at(&sim, [1, 3]).unwrap().dir, CloudDir::Left);
    assert_consistent(&sim);
}

#[test]
fn displace_without_room_changes_nothing() {
    let mut sim = Simulation::new(SelectedSong::Song1);
    place(&mut sim, [5, 6], CloudDir::Up, false);
    place(&mut sim, [5, 7], CloudDir::Up, false);
    sim.displace([5, 6], CloudDir::Up, PushState::CanPush, true);
    assert!(cloud_at(&sim, [5, 6]).is_some());
    sim.displace([5, 5], CloudDir::Up, PushState::CanPush, false);
    assert_eq!(sim.player.player_pos, [5, 5]);
    sim.displace([5, 6], CloudDir::Up, PushState::PushOver, true);
    assert!(cloud_at(&sim, [5, 6]).is_none());
    assert_eq!(sim.grid.get([5, 6]), TileOccupation::Empty);
    assert_consistent(&sim);
}

#[test]
fn special_ends_the_cooldown_of_turned_clouds() {
    let mut sim = Simulation::new(SelectedSong::Song1);
    place(&mut sim, [4, 5], CloudDir::Up, true);
    place(&mut sim, [3, 3], CloudDir::Up, true);
    player_turn(&mut sim, GameControl::Special);
    player_turn(&mut sim, GameControl::Special);
    let turned = cloud_at(&sim, [4, 5]).unwrap();
    assert_eq!(turned.dir, CloudDir::Right);
    assert!(!turned.is_cooldown);
    assert_eq!(turned.cooldown_left, 0);
    assert_eq!(sim.grid.get([4, 5]), TileOccupation::RightCloud);
    let far = cloud_at(&sim, [3, 3]).unwrap();
    assert!(far.is_cooldown);
    assert_eq!(sim.grid.get([3, 3]), TileOccupation::CooldownCloud);
    assert_consistent(&sim);
}

#[test]
fn off_beat_frame_leaves_the_board_alone() {
    let mut sim = Simulation::new(SelectedSong::Song1);
    place(&mut sim, [3, 3], CloudDir::Left, false);
    let grid_before = sim.grid.grid.clone();
    sim.step(100_000, None, GameControl::Up);
    assert!(!sim.clock.move_player && !sim.clock.move_clouds);
    assert_eq!(sim.grid.grid, grid_before);
    assert_eq!(sim.player.player_pos, [5, 5]);
    assert_eq!(sim.player.input_buffer, [GameControl::Up, GameControl::Idle]);
    sim.step(50_000, None, GameControl::Idle);
    assert!(sim.clock.move_player);
    assert_eq!(sim.player.player_pos, [5, 6]);
}

#[test]
fn blocked_cloud_queues_nothing() {
    let mut sim = Simulation::new(SelectedSong::Song1);
    place(&mut sim, [3, 3], CloudDir::Left, false);
    place(&mut sim, [2, 3], CloudDir::Up, false);
    place(&mut sim, [1, 3], CloudDir::Up, false);
    place(&mut sim, [6, 6], CloudDir::Left, true);
    let mut pushed: Vec<PushRecord> = Vec::new();
    let mut to_receive: Vec<PushRecord> = Vec::new();
    sim.move_clouds(CloudDir::Left, &mut pushed, &mut to_receive);
    assert!(pushed.is_empty() && to_receive.is_empty());
    assert!(cloud_at(&sim, [3, 3]).is_some());
    assert!(cloud_at(&sim, [6, 6]).is_some());
}
