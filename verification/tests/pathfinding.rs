use delphai::pathfinding::{TilePos, WalkGrid};

#[test]
fn tile_pos_equality() {
    assert_eq!(TilePos::new(1, 2), TilePos { x: 1, y: 2 });
    assert_ne!(TilePos::new(1, 2), TilePos::new(2, 1));
}

#[test]
fn tile_pos_default_is_origin() {
    assert_eq!(TilePos::default(), TilePos { x: 0, y: 0 });
}

#[test]
fn walk_grid_new_all_walkable_has_expected_size() {
    let g = WalkGrid::new_all_walkable(5, 3);
    assert_eq!(g.width(), 5);
    assert_eq!(g.height(), 3);
    for y in 0..3 {
        for x in 0..5 {
            assert!(g.is_walkable(TilePos::new(x, y)));
        }
    }
}

#[test]
fn walk_grid_out_of_bounds_is_not_walkable() {
    let g = WalkGrid::new_all_walkable(3, 2);
    assert!(!g.is_walkable(TilePos::new(-1, 0)));
    assert!(!g.is_walkable(TilePos::new(0, -1)));
    assert!(!g.is_walkable(TilePos::new(3, 0)));
    assert!(!g.is_walkable(TilePos::new(0, 2)));
    assert!(!g.is_walkable(TilePos::new(100, 100)));
}

#[test]
fn walk_grid_set_marks_tile_non_walkable() {
    let mut g = WalkGrid::new_all_walkable(4, 4);
    g.set(TilePos::new(2, 1), false);
    assert!(!g.is_walkable(TilePos::new(2, 1)));
    assert!(g.is_walkable(TilePos::new(1, 1)));
    assert!(g.is_walkable(TilePos::new(3, 1)));
}

#[test]
fn walk_grid_from_row_major_preserves_order() {
    let cells = vec![true, false, true, false, true, false];
    let g = WalkGrid::from_row_major(3, 2, cells);
    assert!(g.is_walkable(TilePos::new(0, 0)));
    assert!(!g.is_walkable(TilePos::new(1, 0)));
    assert!(g.is_walkable(TilePos::new(2, 0)));
    assert!(!g.is_walkable(TilePos::new(0, 1)));
    assert!(g.is_walkable(TilePos::new(1, 1)));
    assert!(!g.is_walkable(TilePos::new(2, 1)));
}

#[test]
fn walk_grid_set_out_of_bounds_is_silent_noop() {
    let mut g = WalkGrid::new_all_walkable(2, 2);
    g.set(TilePos::new(-1, 0), false);
    g.set(TilePos::new(5, 5), false);
    for y in 0..2 {
        for x in 0..2 {
            assert!(g.is_walkable(TilePos::new(x, y)));
        }
    }
}

#[test]
fn walk_grid_negative_size_is_clamped_to_empty() {
    let g = WalkGrid::new_all_walkable(-3, 4);
    assert_eq!(g.width(), 0);
    assert_eq!(g.height(), 4);
    assert!(!g.is_walkable(TilePos::new(0, 0)));
    let h = WalkGrid::from_row_major(2, -1, vec![]);
    assert_eq!(h.width(), 2);
    assert_eq!(h.height(), 0);
}

#[test]
fn walk_grid_set_can_reopen_a_tile() {
    let mut g = WalkGrid::new_all_walkable(2, 2);
    g.set(TilePos::new(1, 1), false);
    g.set(TilePos::new(1, 1), true);
    assert!(g.is_walkable(TilePos::new(1, 1)));
}

#[test]
fn manhattan_dist_sums_axis_distances() {
    assert_eq!(TilePos::new(0, 0).manhattan_dist(TilePos::new(3, -4)), 7);
    assert_eq!(TilePos::new(5, 5).manhattan_dist(TilePos::new(5, 5)), 0);
    assert_eq!(
        TilePos::new(i16::MIN, i16::MIN).manhattan_dist(TilePos::new(i16::MAX, i16::MAX)),
        131070
    );
}

#[test]
fn default_walk_grid_is_empty() {
    let g = WalkGrid::default();
    assert_eq!(g.width(), 0);
    assert_eq!(g.height(), 0);
    assert!(!g.is_walkable(TilePos::new(0, 0)));
}
