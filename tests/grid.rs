use cloud_sweeper::grid::{
    dir_to_tile, CloudDir, GridState, LossCondition, PushState, TileOccupation, INIT_POS,
    LEVEL_SIZE,
};

fn empty_grid() -> GridState {
    let mut g = GridState::new();
    g.set(INIT_POS, TileOccupation::Empty);
    g
}

#[test]
fn new_grid_holds_only_the_player() {
    let g = GridState::new();
    assert_eq!(g.grid.len(), 100);
    assert_eq!(g.get([5, 5]), TileOccupation::Player);
    let occupied = g.grid.iter().filter(|t| **t != TileOccupation::Empty).count();
    assert_eq!(occupied, 1);
    assert_eq!(g.loss_condition, LossCondition::NoLoss);
}

#[test]
fn range_and_sky() {
    let g = GridState::new();
    assert!(g.is_out_of_range([-1, 3]));
    assert!(g.is_out_of_range([3, LEVEL_SIZE]));
    assert!(!g.is_out_of_range([0, 9]));
    assert!(g.is_sky([1, 5]));
    assert!(g.is_sky([5, 8]));
    assert!(!g.is_sky([2, 7]));
}

#[test]
fn query_off_board_is_despawn() {
    let g = empty_grid();
    assert_eq!(g.is_occupied([-1, 4], CloudDir::Left, TileOccupation::LeftCloud), PushState::Despawn);
}

#[test]
fn query_player_into_sky_is_blocked() {
    let g = empty_grid();
    assert_eq!(g.is_occupied([1, 4], CloudDir::Left, TileOccupation::Player), PushState::Blocked);
    assert_eq!(g.is_occupied([1, 4], CloudDir::Left, TileOccupation::LeftCloud), PushState::Empty);
}

#[test]
fn query_empty_cell() {
    let g = empty_grid();
    assert_eq!(g.is_occupied([4, 4], CloudDir::Up, TileOccupation::Player), PushState::Empty);
}

#[test]
fn query_can_push_into_free_cell() {
    let mut g = empty_grid();
    g.set([4, 4], TileOccupation::UpCloud);
    assert_eq!(g.is_occupied([4, 4], CloudDir::Right, TileOccupation::Player), PushState::CanPush);
}

#[test]
fn query_blocked_when_beyond_is_occupied() {
    let mut g = empty_grid();
    g.set([4, 4], TileOccupation::UpCloud);
    g.set([5, 4], TileOccupation::DownCloud);
    assert_eq!(g.is_occupied([4, 4], CloudDir::Right, TileOccupation::Player), PushState::Blocked);
}

#[test]
fn query_despawn_marker_beyond_counts_as_free() {
    let mut g = empty_grid();
    g.set([4, 4], TileOccupation::UpCloud);
    g.set([5, 4], TileOccupation::Despawn);
    assert_eq!(g.is_occupied([4, 4], CloudDir::Right, TileOccupation::Player), PushState::CanPush);
}

#[test]
fn query_cooldown_cloud_is_blocked() {
    let mut g = empty_grid();
    g.set([4, 4], TileOccupation::CooldownCloud);
    assert_eq!(g.is_occupied([4, 4], CloudDir::Right, TileOccupation::Player), PushState::Blocked);
}

#[test]
fn query_opposite_facing_cloud_is_blocked() {
    let mut g = empty_grid();
    g.set([4, 4], TileOccupation::LeftCloud);
    assert_eq!(
        g.is_occupied([4, 4], CloudDir::Right, TileOccupation::RightCloud),
        PushState::Blocked
    );
    g.set([4, 4], TileOccupation::UpCloud);
    assert_eq!(
        g.is_occupied([4, 4], CloudDir::Right, TileOccupation::RightCloud),
        PushState::CanPush
    );
}

#[test]
fn query_board_edge_pushes_over() {
    let mut g = empty_grid();
    g.set([0, 4], TileOccupation::UpCloud);
    assert_eq!(
        g.is_occupied([0, 4], CloudDir::Left, TileOccupation::LeftCloud),
        PushState::PushOver
    );
    g.set([0, 4], TileOccupation::RightCloud);
    assert_eq!(
        g.is_occupied([0, 4], CloudDir::Left, TileOccupation::LeftCloud),
        PushState::Blocked
    );
}

#[test]
fn query_player_on_stage_edge_is_blocked() {
    let mut g = empty_grid();
    g.set([2, 4], TileOccupation::Player);
    assert_eq!(g.is_occupied([2, 4], CloudDir::Left, TileOccupation::LeftCloud), PushState::Blocked);
    assert_eq!(g.is_occupied([2, 4], CloudDir::Right, TileOccupation::RightCloud), PushState::CanPush);
}

#[test]
fn move_on_grid_moves_and_marks_removal() {
    let mut g = empty_grid();
    g.set([3, 3], TileOccupation::LeftCloud);
    g.move_on_grid([3, 3], [2, 3], TileOccupation::LeftCloud);
    assert_eq!(g.get([3, 3]), TileOccupation::Empty);
    assert_eq!(g.get([2, 3]), TileOccupation::LeftCloud);
    g.set([0, 3], TileOccupation::LeftCloud);
    g.move_on_grid([0, 3], [-1, 3], TileOccupation::LeftCloud);
    assert_eq!(g.get([0, 3]), TileOccupation::Despawn);
}

#[test]
fn spawn_lanes_follow_the_incoming_direction() {
    let g = empty_grid();
    let down = g.spawn_lane(CloudDir::Down);
    assert_eq!(down, vec![[2, 9], [3, 9], [4, 9], [5, 9], [6, 9], [7, 9]]);
    let left = g.spawn_lane(CloudDir::Left);
    assert_eq!(left[0], [9, 2]);
    let right = g.spawn_lane(CloudDir::Right);
    assert_eq!(right[5], [0, 7]);
    let up = g.spawn_lane(CloudDir::Up);
    assert_eq!(up[3], [5, 0]);
}

#[test]
fn new_cloud_lands_on_a_free_lane_cell() {
    for _ in 0..20 {
        let mut g = empty_grid();
        g.set([2, 0], TileOccupation::DownCloud);
        g.set([3, 0], TileOccupation::DownCloud);
        let spot = g.new_cloud(CloudDir::Up).expect("lane has room");
        assert_eq!(spot[1], 0);
        assert!(spot[0] >= 4 && spot[0] <= 7);
        assert_eq!(g.get(spot), dir_to_tile(CloudDir::Up));
    }
}

#[test]
fn new_cloud_single_free_cell_is_picked() {
    let mut g = empty_grid();
    for x in [2i8, 3, 4, 6, 7] {
        g.set([x, 9], TileOccupation::UpCloud);
    }
    assert_eq!(g.new_cloud(CloudDir::Down), Some([5, 9]));
    assert_eq!(g.get([5, 9]), TileOccupation::DownCloud);
}

#[test]
fn new_cloud_full_lane_gives_none() {
    let mut g = empty_grid();
    for y in 2i8..=7 {
        g.set([9, y], TileOccupation::UpCloud);
    }
    let before = g.grid.clone();
    assert_eq!(g.new_cloud(CloudDir::Left), None);
    assert_eq!(g.grid, before);
}

#[test]
fn count_clouds_counts_stage_clouds_of_every_kind() {
    let mut g = empty_grid();
    g.set([2, 2], TileOccupation::LeftCloud);
    g.set([3, 2], TileOccupation::RightCloud);
    g.set([4, 2], TileOccupation::UpCloud);
    g.set([5, 2], TileOccupation::DownCloud);
    g.set([6, 2], TileOccupation::CooldownCloud);
    g.set([7, 2], TileOccupation::Despawn);
    g.set([1, 2], TileOccupation::LeftCloud);
    g.set([3, 3], TileOccupation::Player);
    assert_eq!(g.count_clouds(), 5);
}

#[test]
fn stuck_when_surrounded_by_cooling_clouds() {
    let mut g = GridState::new();
    for t in [[4i8, 5], [6, 5], [5, 4], [5, 6]] {
        g.set(t, TileOccupation::CooldownCloud);
    }
    assert!(g.is_stuck([5, 5]));
    g.set([5, 6], TileOccupation::Empty);
    assert!(!g.is_stuck([5, 5]));
}

#[test]
fn stuck_in_a_stage_corner() {
    let mut g = empty_grid();
    g.set([2, 2], TileOccupation::Player);
    g.set([3, 2], TileOccupation::CooldownCloud);
    g.set([2, 3], TileOccupation::CooldownCloud);
    assert!(g.is_stuck([2, 2]));
}

#[test]
fn reset_grid_restores_the_start() {
    let mut g = empty_grid();
    g.set([3, 3], TileOccupation::UpCloud);
    g.cloud_count = 7;
    g.loss_condition = LossCondition::Stuck;
    g.reset_grid();
    assert_eq!(g.grid, GridState::new().grid);
    assert_eq!(g.cloud_count, 0);
    assert_eq!(g.loss_condition, LossCondition::NoLoss);
}
