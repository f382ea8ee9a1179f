use delphai::move_state::MoveState;
use delphai::pathfinding::TilePos;
use delphai::world::{is_fresh_target, max_draws, MapBounds, World, HISTORY_LEN};

fn chebyshev(a: TilePos, b: TilePos) -> i32 {
    let dx = (a.x as i32 - b.x as i32).abs();
    let dy = (a.y as i32 - b.y as i32).abs();
    dx.max(dy)
}

#[test]
fn new_world_has_zero_tick_count() {
    let w: World<String> = World::new();
    assert_eq!(w.tick_count, 0);
    assert!(w.citizens.is_empty());
}

#[test]
fn tick_increments_tick_count() {
    let mut w: World<String> = World::new();
    w.tick();
    assert_eq!(w.tick_count, 1);
    w.tick();
    assert_eq!(w.tick_count, 2);
}

#[test]
fn spawn_citizen_stores_name_and_position() {
    let mut w = World::new();
    let idx = w.spawn_citizen("Kael".to_string(), TilePos { x: 3, y: 7 });
    assert_eq!(idx, 0);
    assert_eq!(w.citizens.len(), 1);
    assert_eq!(w.citizens[0], "Kael");
    assert_eq!(w.citizen_moves[0].tile_pos, TilePos { x: 3, y: 7 });
}

#[test]
fn spawn_citizen_assigns_sequential_indices() {
    let mut w = World::new();
    let a = w.spawn_citizen("A".to_string(), TilePos { x: 0, y: 0 });
    let b = w.spawn_citizen("B".to_string(), TilePos { x: 1, y: 2 });
    assert_eq!(a, 0);
    assert_eq!(b, 1);
    assert_eq!(w.citizen_moves[1].tile_pos, TilePos { x: 1, y: 2 });
}

#[test]
fn tick_moves_citizen_one_step_toward_target() {
    let mut w = World::new();
    let idx = w.spawn_citizen("Mover".to_string(), TilePos::new(0, 0));
    w.set_move_target(idx, TilePos::new(3, 0));
    w.tick();
    assert_eq!(w.citizen_moves[idx].tile_pos, TilePos::new(1, 0));
    assert_eq!(w.citizen_moves[idx].prev_tile_pos, TilePos::new(0, 0));
    w.tick();
    assert_eq!(w.citizen_moves[idx].tile_pos, TilePos::new(2, 0));
    assert_eq!(w.citizen_moves[idx].prev_tile_pos, TilePos::new(1, 0));
}

#[test]
fn distance_to_target_monotonically_decreases_during_journey() {
    let mut w = World::new();
    let idx = w.spawn_citizen("Mover".to_string(), TilePos::new(0, 0));
    let target = TilePos::new(20, 20);
    w.set_move_target(idx, target);
    let mut prev_dist = chebyshev(w.citizen_moves[idx].tile_pos, target);
    for _ in 0..16 {
        w.tick();
        let new_dist = chebyshev(w.citizen_moves[idx].tile_pos, target);
        assert!(new_dist < prev_dist);
        prev_dist = new_dist;
    }
}

#[test]
fn random_walk_reissues_target_after_arrival() {
    let mut w = World::new();
    let idx = w.spawn_citizen("Wanderer".to_string(), TilePos::new(2, 2));
    w.enable_random_walk(42, MapBounds { width: 10, height: 10 });
    w.tick();
    assert!(
        w.citizen_moves[idx].move_target.is_some(),
        "random walk must issue a target on first idle tick"
    );
}

#[test]
fn random_walk_keeps_citizen_moving_for_100_ticks() {
    let mut w = World::new();
    let idx = w.spawn_citizen("Wanderer".to_string(), TilePos::new(5, 5));
    w.enable_random_walk(0xC0FFEE, MapBounds { width: 12, height: 8 });
    w.tick();
    let mut last = w.citizen_moves[idx].tile_pos;
    for tick_i in 0..100 {
        w.tick();
        let now = w.citizen_moves[idx].tile_pos;
        assert_ne!(now, last, "random walk did not move at tick {}", tick_i);
        last = now;
    }
}

#[test]
fn random_walk_keeps_citizen_inside_bounds() {
    let mut w = World::new();
    let idx = w.spawn_citizen("Wanderer".to_string(), TilePos::new(0, 0));
    w.enable_random_walk(7, MapBounds { width: 6, height: 4 });
    for _ in 0..200 {
        w.tick();
        let p = w.citizen_moves[idx].tile_pos;
        assert!(p.x >= 0 && p.x < 6, "x out of bounds: {}", p.x);
        assert!(p.y >= 0 && p.y < 4, "y out of bounds: {}", p.y);
    }
}

#[test]
fn set_walkable_map_stores_grid() {
    let mut w: World<String> = World::new();
    let cells = vec![true, false, true, true, true, true];
    w.set_walkable_map(3, 2, cells);
    let g = w.walk_grid().expect("grid installed");
    assert_eq!(g.width(), 3);
    assert_eq!(g.height(), 2);
    assert!(g.is_walkable(TilePos::new(0, 0)));
    assert!(!g.is_walkable(TilePos::new(1, 0)));
    assert!(g.is_walkable(TilePos::new(2, 0)));
}

#[test]
fn tick_routes_around_obstacle_when_grid_present() {
    let mut w = World::new();
    let idx = w.spawn_citizen("Pathfinder".to_string(), TilePos::new(0, 0));
    let mut cells = vec![true; 9];
    cells[1] = false;
    w.set_walkable_map(3, 3, cells);
    w.set_move_target(idx, TilePos::new(2, 0));
    for tick_i in 0..30 {
        w.tick();
        let p = w.citizen_moves[idx].tile_pos;
        assert_ne!(p, TilePos::new(1, 0), "stepped on blocked tile at tick {}", tick_i);
        if w.citizen_moves[idx].move_target.is_none() && p == TilePos::new(2, 0) {
            return;
        }
    }
    panic!("did not reach (2,0) within 30 ticks; final pos={:?}", w.citizen_moves[idx].tile_pos);
}

#[test]
fn tick_records_citizen_history_bounded_to_eight() {
    let mut w = World::new();
    let idx = w.spawn_citizen("Hist".to_string(), TilePos::new(0, 0));
    w.set_walkable_map(20, 20, vec![true; 400]);
    w.set_move_target(idx, TilePos::new(15, 0));
    for _ in 0..20 {
        w.tick();
    }
    let hist = w.recent_tiles(idx);
    assert!(hist.len() <= HISTORY_LEN, "history grew past cap: {}", hist.len());
    assert_eq!(hist.len(), HISTORY_LEN, "history should be saturated after a long walk");
}

#[test]
fn random_walk_only_picks_walkable_targets() {
    let mut w = World::new();
    let idx = w.spawn_citizen("Corridor".to_string(), TilePos::new(0, 0));
    let width: i16 = 4;
    let height: i16 = 6;
    let mut cells = vec![false; (width as usize) * (height as usize)];
    for y in 0..height {
        cells[(y as usize) * (width as usize)] = true;
    }
    w.set_walkable_map(width, height, cells);
    w.enable_random_walk(99, MapBounds { width, height });
    for tick_i in 0..50 {
        w.tick();
        if let Some(t) = w.citizen_moves[idx].move_target {
            assert_eq!(t.x, 0, "random walk picked non-walkable x={} at tick {}", t.x, tick_i);
        }
    }
}

#[test]
fn random_walk_is_deterministic_for_fixed_seed() {
    let run = |seed: u64| {
        let mut w = World::new();
        let _ = w.spawn_citizen("W".to_string(), TilePos::new(3, 3));
        w.enable_random_walk(seed, MapBounds { width: 10, height: 10 });
        let mut positions = Vec::new();
        for _ in 0..20 {
            w.tick();
            positions.push(w.citizen_moves[0].tile_pos);
        }
        positions
    };
    assert_eq!(run(123), run(123));
    assert_ne!(run(123), run(456));
}

#[test]
fn history_skips_repeated_tiles_and_keeps_order() {
    let mut w = World::new();
    let idx = w.spawn_citizen("H".to_string(), TilePos::new(0, 0));
    w.set_move_target(idx, TilePos::new(2, 0));
    for _ in 0..5 {
        w.tick();
    }
    assert_eq!(w.recent_tiles(idx), vec![TilePos::new(1, 0), TilePos::new(2, 0)]);
}

#[test]
fn history_drops_oldest_tile_when_full() {
    let mut w = World::new();
    let idx = w.spawn_citizen("H".to_string(), TilePos::new(0, 0));
    w.set_move_target(idx, TilePos::new(10, 0));
    for _ in 0..10 {
        w.tick();
    }
    let expected: Vec<TilePos> = (3..=10).map(|x| TilePos::new(x, 0)).collect();
    assert_eq!(w.recent_tiles(idx), expected);
}

#[test]
fn unreachable_target_is_dropped_with_grid() {
    let mut w = World::new();
    let idx = w.spawn_citizen("U".to_string(), TilePos::new(0, 0));
    w.set_walkable_map(3, 1, vec![true, true, false]);
    w.set_move_target(idx, TilePos::new(2, 0));
    w.tick();
    assert_eq!(w.citizen_moves[idx].tile_pos, TilePos::new(0, 0));
    assert_eq!(w.citizen_moves[idx].move_target, None);
}

#[test]
fn single_tile_bounds_give_current_tile_as_target() {
    let mut w = World::new();
    let idx = w.spawn_citizen("S".to_string(), TilePos::new(0, 0));
    w.enable_random_walk(1, MapBounds { width: 1, height: 0 });
    w.tick();
    assert_eq!(w.citizen_moves[idx].move_target, Some(TilePos::new(0, 0)));
}

#[test]
fn fresh_target_rules() {
    let g = delphai::pathfinding::WalkGrid::from_row_major(2, 1, vec![true, false]);
    let here = TilePos::new(0, 0);
    assert!(!is_fresh_target(here, here, None));
    assert!(is_fresh_target(TilePos::new(1, 0), here, None));
    assert!(!is_fresh_target(TilePos::new(1, 0), here, Some(&g)));
    assert!(!is_fresh_target(TilePos::new(5, 0), here, Some(&g)));
}

#[test]
fn grid_step_detours_at_45_degrees_first() {
    let g = {
        let mut cells = vec![true; 9];
        cells[1] = false; // (1, 0)
        delphai::pathfinding::WalkGrid::from_row_major(3, 3, cells)
    };
    let mut m = MoveState::new(TilePos::new(0, 0));
    m.move_target = Some(TilePos::new(2, 0));
    m.step_with_grid(&g, &[]);
    assert_eq!(m.tile_pos, TilePos::new(1, 1));
    assert_eq!(m.prev_tile_pos, TilePos::new(0, 0));
    m.step_with_grid(&g, &[]);
    assert_eq!(m.tile_pos, TilePos::new(2, 0));
    assert_eq!(m.move_target, None);
}

#[test]
fn grid_step_prefers_tiles_outside_history() {
    let g = delphai::pathfinding::WalkGrid::new_all_walkable(5, 5);
    let mut m = MoveState::new(TilePos::new(2, 2));
    m.move_target = Some(TilePos::new(4, 2));
    // The direct tile (3, 2) was visited recently; the +45° tile (3, 3) is fresh.
    m.step_with_grid(&g, &[TilePos::new(3, 2)]);
    assert_eq!(m.tile_pos, TilePos::new(3, 3));
}

#[test]
fn grid_step_takes_visited_tile_when_nothing_else_is_open() {
    // A one-row corridor: only the direct tile is walkable.
    let g = delphai::pathfinding::WalkGrid::new_all_walkable(5, 1);
    let mut m = MoveState::new(TilePos::new(1, 0));
    m.move_target = Some(TilePos::new(4, 0));
    m.step_with_grid(&g, &[TilePos::new(2, 0)]);
    assert_eq!(m.tile_pos, TilePos::new(2, 0));
}

#[test]
fn grid_step_never_turns_back() {
    // Target to the east behind a wall; only tiles to the west are open.
    let mut g = delphai::pathfinding::WalkGrid::new_all_walkable(4, 3);
    for (x, y) in [(2, 0), (2, 1), (2, 2), (1, 0), (1, 2)] {
        g.set(TilePos::new(x, y), false);
    }
    let mut m = MoveState::new(TilePos::new(1, 1));
    m.move_target = Some(TilePos::new(3, 1));
    m.step_with_grid(&g, &[]);
    // +135° (south-west) is the first open candidate.
    assert_eq!(m.tile_pos, TilePos::new(0, 2));
    // With the diagonals behind closed as well, the citizen stays put rather
    // than stepping straight back.
    g.set(TilePos::new(0, 0), false);
    g.set(TilePos::new(0, 2), false);
    let mut n = MoveState::new(TilePos::new(1, 1));
    n.move_target = Some(TilePos::new(3, 1));
    n.step_with_grid(&g, &[]);
    assert_eq!(n.tile_pos, TilePos::new(1, 1));
    assert_eq!(n.move_target, Some(TilePos::new(3, 1)));
}

#[test]
fn max_draws_follows_the_bounds() {
    assert_eq!(max_draws(MapBounds { width: 1, height: 1 }), 0);
    assert_eq!(max_draws(MapBounds { width: 0, height: -3 }), 0);
    assert_eq!(max_draws(MapBounds { width: 2, height: 3 }), 64);
    assert_eq!(max_draws(MapBounds { width: 10, height: 10 }), 400);
    assert_eq!(max_draws(MapBounds { width: i16::MAX, height: i16::MAX }), 4 * 32767 * 32767);
}

#[test]
fn picker_gives_up_on_a_fully_blocked_map() {
    let mut w = World::new();
    let idx = w.spawn_citizen("B".to_string(), TilePos::new(0, 0));
    w.set_walkable_map(3, 3, vec![false; 9]);
    w.enable_random_walk(5, MapBounds { width: 3, height: 3 });
    w.tick();
    // Every draw is blocked, so after the budget the current tile is chosen.
    assert_eq!(w.citizen_moves[idx].move_target, Some(TilePos::new(0, 0)));
}

#[test]
fn random_targets_spread_over_the_walk_area() {
    let mut w = World::new();
    let idx = w.spawn_citizen("S".to_string(), TilePos::new(0, 0));
    w.enable_random_walk(11, MapBounds { width: 10, height: 10 });
    let mut targets = Vec::new();
    for _ in 0..200 {
        w.tick();
        if let Some(t) = w.citizen_moves[idx].move_target {
            if !targets.contains(&t) {
                targets.push(t);
            }
        }
    }
    assert!(targets.len() > 3, "targets: {:?}", targets);
    assert!(targets.iter().any(|t| t.x >= 5) && targets.iter().any(|t| t.y >= 5));
}
