use delphai::animal::{
    Animal, ANIMAL_RESPAWN_TICKS, FLEE_RADIUS, MAP_H, MAP_W, MIN_RESPAWN_DIST, WANDER_EVERY,
};
use delphai::pathfinding::TilePos;

#[test]
fn deer_starts_alive() {
    let a = Animal::deer(TilePos::new(5, 5));
    assert!(a.alive);
}

#[test]
fn kill_sets_dead_and_starts_timer() {
    let mut a = Animal::deer(TilePos::new(5, 5));
    a.kill();
    assert!(!a.alive);
    assert!(!a.fled);
}

#[test]
fn respawn_after_countdown_returns_to_origin_after_kill() {
    let mut a = Animal::deer(TilePos::new(5, 5));
    a.kill();
    for i in 0..ANIMAL_RESPAWN_TICKS {
        a.tick_respawn(i as u64);
    }
    assert!(a.alive);
    assert_eq!(a.pos, TilePos::new(5, 5));
}

#[test]
fn flee_or_wander_stays_in_bounds_without_threat() {
    let mut a = Animal::deer(TilePos::new(0, 0));
    for seed in 0..20 {
        a.flee_or_wander(None, seed);
        assert!(a.pos.x >= 0 && a.pos.x < MAP_W);
        assert!(a.pos.y >= 0 && a.pos.y < MAP_H);
    }
}

#[test]
fn dead_animal_does_not_move() {
    let mut a = Animal::deer(TilePos::new(5, 5));
    a.kill();
    let start_pos = a.pos;
    a.flee_or_wander(None, 3);
    assert_eq!(a.pos, start_pos);
}

#[test]
fn deer_flees_away_from_human() {
    let mut a = Animal::deer(TilePos::new(5, 8));
    let human = TilePos::new(5, 5);
    a.flee_or_wander(Some(human), 0);
    assert!(a.pos.y >= 8 || a.fled);
}

#[test]
fn deer_marks_fled_when_escaping_edge() {
    let mut a = Animal::deer(TilePos::new(5, MAP_H - 1));
    let human = TilePos::new(5, MAP_H - 4);
    a.flee_or_wander(Some(human), 0);
    if a.fled {
        assert!(!a.alive);
    }
}

#[test]
fn fled_deer_respawns_far_from_escape() {
    let mut a = Animal::deer(TilePos::new(0, 0));
    a.alive = false;
    a.fled = true;
    a.escape_pos = Some(TilePos::new(0, 0));
    a.respawn_timer = 1;
    a.tick_respawn(42);
    a.tick_respawn(99);
    assert!(a.alive);
    assert!(a.pos.manhattan_dist(TilePos::new(0, 0)) >= MIN_RESPAWN_DIST);
}

#[test]
fn deer_ignores_distant_human() {
    let mut a = Animal::deer(TilePos::new(12, 7));
    let far_human = TilePos::new(0, 0);
    a.flee_or_wander(Some(far_human), 3);
    assert!(!a.fled);
}

#[test]
fn kill_sets_respawn_timer_to_full_countdown() {
    let mut a = Animal::deer(TilePos::new(3, 4));
    a.kill();
    assert_eq!(a.respawn_timer, ANIMAL_RESPAWN_TICKS);
    assert!(a.escape_pos.is_none());
}

#[test]
fn kill_of_dead_animal_restarts_countdown() {
    let mut a = Animal::deer(TilePos::new(3, 4));
    a.kill();
    a.tick_respawn(0);
    assert_eq!(a.respawn_timer, ANIMAL_RESPAWN_TICKS - 1);
    a.kill();
    assert_eq!(a.respawn_timer, ANIMAL_RESPAWN_TICKS);
}

#[test]
fn respawn_waits_one_tick_after_timer_runs_out() {
    let mut a = Animal::deer(TilePos::new(5, 5));
    a.kill();
    for i in 0..(ANIMAL_RESPAWN_TICKS - 1) {
        a.tick_respawn(i as u64);
    }
    assert!(!a.alive);
    assert_eq!(a.respawn_timer, 1);
    a.tick_respawn(7);
    assert!(a.alive);
}

#[test]
fn tick_respawn_of_live_animal_is_noop() {
    let mut a = Animal::deer(TilePos::new(2, 2));
    a.tick_respawn(5);
    assert!(a.alive);
    assert_eq!(a.pos, TilePos::new(2, 2));
    assert_eq!(a.respawn_timer, 0);
}

#[test]
fn wander_direction_follows_seed() {
    // seed % 5: 0 stays, 1 up, 2 down, 3 left, 4 right.
    let mut a = Animal::deer(TilePos::new(10, 7));
    a.flee_or_wander(None, 0);
    assert_eq!(a.pos, TilePos::new(10, 7));
    a.flee_or_wander(None, 3);
    assert_eq!(a.pos, TilePos::new(9, 7));
    a.flee_or_wander(None, 7);
    assert_eq!(a.pos, TilePos::new(9, 8));
    a.flee_or_wander(None, 1);
    assert_eq!(a.pos, TilePos::new(9, 7));
    a.flee_or_wander(None, 4);
    assert_eq!(a.pos, TilePos::new(10, 7));
}

#[test]
fn wander_is_clamped_at_map_corner() {
    let mut a = Animal::deer(TilePos::new(0, 0));
    a.flee_or_wander(None, 3);
    assert_eq!(a.pos, TilePos::new(0, 0));
    let mut b = Animal::deer(TilePos::new(MAP_W - 1, MAP_H - 1));
    for seed in 0..5 {
        b.flee_or_wander(None, seed);
        assert!(b.pos.x < MAP_W && b.pos.y < MAP_H);
    }
}

#[test]
fn flee_moves_away_from_close_human() {
    let mut a = Animal::deer(TilePos::new(10, 7));
    let human = TilePos::new(8, 7);
    let before = a.pos.manhattan_dist(human);
    assert!(before <= FLEE_RADIUS);
    a.flee_or_wander(Some(human), 1);
    assert!(a.alive);
    assert!(a.pos.manhattan_dist(human) > before);
}

#[test]
fn flee_off_the_edge_records_escape() {
    let mut a = Animal::deer(TilePos::new(0, 7));
    let human = TilePos::new(1, 7);
    a.flee_or_wander(Some(human), 0);
    assert!(a.fled);
    assert!(!a.alive);
    assert_eq!(a.escape_pos, Some(TilePos::new(0, 7)));
    assert_eq!(a.respawn_timer, ANIMAL_RESPAWN_TICKS);
}

#[test]
fn fled_deer_respawns_on_map() {
    let mut a = Animal::deer(TilePos::new(12, 7));
    a.alive = false;
    a.fled = true;
    a.escape_pos = Some(TilePos::new(12, 7));
    a.respawn_timer = 0;
    a.tick_respawn(1234);
    assert!(a.alive);
    // The escape flag stays up until the caller has seen it.
    assert!(a.fled);
    assert!(a.escape_pos.is_none());
    assert!(a.pos.x >= 0 && a.pos.x < MAP_W && a.pos.y >= 0 && a.pos.y < MAP_H);
    assert!(a.pos.manhattan_dist(TilePos::new(12, 7)) >= MIN_RESPAWN_DIST);
}

#[test]
fn should_wander_every_fourth_tick() {
    assert!(Animal::should_wander(0));
    assert!(!Animal::should_wander(1));
    assert!(!Animal::should_wander(WANDER_EVERY - 1));
    assert!(Animal::should_wander(WANDER_EVERY));
    assert!(Animal::should_wander(WANDER_EVERY * 10));
}
