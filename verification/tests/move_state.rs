use delphai::move_state::MoveState;
use delphai::pathfinding::TilePos;

#[test]
fn new_initializes_prev_equal_to_current_and_no_target() {
    let m = MoveState::new(TilePos::new(2, 3));
    assert_eq!(m.tile_pos, TilePos::new(2, 3));
    assert_eq!(m.prev_tile_pos, TilePos::new(2, 3));
    assert_eq!(m.move_target, None);
}

#[test]
fn step_with_no_target_is_idle_and_resets_prev() {
    let mut m = MoveState::new(TilePos::new(5, 5));
    m.step();
    assert_eq!(m.tile_pos, TilePos::new(5, 5));
    assert_eq!(m.prev_tile_pos, TilePos::new(5, 5));
}

#[test]
fn step_moves_diagonally_when_both_axes_need_to_change() {
    let mut m = MoveState::new(TilePos::new(0, 0));
    m.move_target = Some(TilePos::new(3, 3));
    m.step();
    assert_eq!(m.tile_pos, TilePos::new(1, 1));
    m.step();
    assert_eq!(m.tile_pos, TilePos::new(2, 2));
    m.step();
    assert_eq!(m.tile_pos, TilePos::new(3, 3));
    assert_eq!(m.move_target, None, "target cleared on arrival");
}

#[test]
fn step_moves_diagonally_toward_negative_target() {
    let mut m = MoveState::new(TilePos::new(0, 0));
    m.move_target = Some(TilePos::new(-2, -2));
    m.step();
    assert_eq!(m.tile_pos, TilePos::new(-1, -1));
    m.step();
    assert_eq!(m.tile_pos, TilePos::new(-2, -2));
    assert_eq!(m.move_target, None);
}

#[test]
fn step_falls_back_to_axis_step_when_only_one_axis_differs() {
    let mut m = MoveState::new(TilePos::new(5, 5));
    m.move_target = Some(TilePos::new(5, 2));
    m.step();
    assert_eq!(m.tile_pos, TilePos::new(5, 4));
    m.step();
    assert_eq!(m.tile_pos, TilePos::new(5, 3));
    m.step();
    assert_eq!(m.tile_pos, TilePos::new(5, 2));

    let mut n = MoveState::new(TilePos::new(0, 0));
    n.move_target = Some(TilePos::new(3, 0));
    n.step();
    assert_eq!(n.tile_pos, TilePos::new(1, 0));
    n.step();
    assert_eq!(n.tile_pos, TilePos::new(2, 0));
    n.step();
    assert_eq!(n.tile_pos, TilePos::new(3, 0));
}

#[test]
fn step_diagonal_then_axis_when_target_is_not_equidistant() {
    let mut m = MoveState::new(TilePos::new(0, 0));
    m.move_target = Some(TilePos::new(3, 1));
    m.step();
    assert_eq!(m.tile_pos, TilePos::new(1, 1));
    m.step();
    assert_eq!(m.tile_pos, TilePos::new(2, 1));
    m.step();
    assert_eq!(m.tile_pos, TilePos::new(3, 1));
}

#[test]
fn step_records_previous_tile() {
    let mut m = MoveState::new(TilePos::new(0, 0));
    m.move_target = Some(TilePos::new(2, 0));
    m.step();
    assert_eq!(m.prev_tile_pos, TilePos::new(0, 0));
    assert_eq!(m.move_target, Some(TilePos::new(2, 0)));
    m.step();
    assert_eq!(m.prev_tile_pos, TilePos::new(1, 0));
    assert_eq!(m.move_target, None);
    m.step();
    assert_eq!(m.prev_tile_pos, TilePos::new(2, 0));
    assert_eq!(m.tile_pos, TilePos::new(2, 0));
}

#[test]
fn step_onto_own_tile_clears_target_without_moving() {
    let mut m = MoveState::new(TilePos::new(4, 4));
    m.move_target = Some(TilePos::new(4, 4));
    m.step();
    assert_eq!(m.tile_pos, TilePos::new(4, 4));
    assert_eq!(m.move_target, None);
}

#[test]
fn arrival_takes_chebyshev_distance_steps() {
    let mut m = MoveState::new(TilePos::new(-3, 2));
    m.move_target = Some(TilePos::new(4, -1));
    for _ in 0..6 {
        m.step();
        assert!(m.move_target.is_some());
    }
    m.step();
    assert_eq!(m.tile_pos, TilePos::new(4, -1));
    assert_eq!(m.move_target, None);
}

#[test]
fn default_move_state_is_idle_at_origin() {
    let m = MoveState::default();
    assert_eq!(m, MoveState::new(TilePos::new(0, 0)));
}
