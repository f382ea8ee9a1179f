use delphai::agent::behavior::{chebyshev, decide, BehaviorAction, BehaviorState, Hunger};
use delphai::pathfinding::TilePos;

// The hunger facts of a citizen whose fullness is 0.9: above the seek
// threshold (0.4), not yet full.
const FED_HIGH: Hunger = Hunger { wants_food: false, can_eat_more: true };
// Fullness 0.2 or 0.3: below the seek threshold.
const FED_LOW: Hunger = Hunger { wants_food: true, can_eat_more: true };
// Fullness 1.0: full.
const FED_FULL: Hunger = Hunger { wants_food: false, can_eat_more: false };
// Fullness 0.5: above the seek threshold, not full.
const FED_MID: Hunger = Hunger { wants_food: false, can_eat_more: true };

#[test]
fn idle_with_high_fed_stays_idle() {
    let (state, action) =
        decide(BehaviorState::Idle, FED_HIGH, TilePos::new(0, 0), Some((0, TilePos::new(5, 5))));
    assert_eq!(state, BehaviorState::Idle);
    assert_eq!(action, BehaviorAction::Idle);
}

#[test]
fn idle_with_low_fed_and_berry_seeks_food() {
    let (state, action) =
        decide(BehaviorState::Idle, FED_LOW, TilePos::new(0, 0), Some((2, TilePos::new(5, 5))));
    assert_eq!(state, BehaviorState::SeekingFood);
    assert_eq!(action, BehaviorAction::SeekFood { target: TilePos::new(5, 5) });
}

#[test]
fn idle_with_low_fed_but_no_berry_stays_idle() {
    let (state, action) = decide(BehaviorState::Idle, FED_LOW, TilePos::new(0, 0), None);
    assert_eq!(state, BehaviorState::Idle);
    assert_eq!(action, BehaviorAction::Idle);
}

#[test]
fn seeking_food_adjacent_transitions_to_gathering() {
    let (state, action) = decide(
        BehaviorState::SeekingFood,
        FED_LOW,
        TilePos::new(1, 0),
        Some((7, TilePos::new(0, 0))),
    );
    assert_eq!(state, BehaviorState::Gathering);
    assert_eq!(action, BehaviorAction::Gather { resource_idx: 7 });
}

#[test]
fn seeking_food_on_same_tile_counts_as_adjacent() {
    let (state, action) = decide(
        BehaviorState::SeekingFood,
        FED_LOW,
        TilePos::new(4, 4),
        Some((3, TilePos::new(4, 4))),
    );
    assert_eq!(state, BehaviorState::Gathering);
    assert_eq!(action, BehaviorAction::Gather { resource_idx: 3 });
}

#[test]
fn seeking_food_far_keeps_seeking() {
    let (state, action) = decide(
        BehaviorState::SeekingFood,
        FED_LOW,
        TilePos::new(0, 0),
        Some((1, TilePos::new(5, 5))),
    );
    assert_eq!(state, BehaviorState::SeekingFood);
    assert_eq!(action, BehaviorAction::SeekFood { target: TilePos::new(5, 5) });
}

#[test]
fn seeking_food_with_berry_gone_returns_to_idle() {
    let (state, action) = decide(BehaviorState::SeekingFood, FED_LOW, TilePos::new(0, 0), None);
    assert_eq!(state, BehaviorState::Idle);
    assert_eq!(action, BehaviorAction::Idle);
}

#[test]
fn gathering_stays_gathering_when_adjacent_and_hungry() {
    let (state, action) = decide(
        BehaviorState::Gathering,
        FED_MID,
        TilePos::new(4, 4),
        Some((3, TilePos::new(4, 4))),
    );
    assert_eq!(state, BehaviorState::Gathering);
    assert_eq!(action, BehaviorAction::Gather { resource_idx: 3 });
}

#[test]
fn gathering_returns_to_idle_when_full() {
    let (state, action) = decide(
        BehaviorState::Gathering,
        FED_FULL,
        TilePos::new(4, 4),
        Some((3, TilePos::new(4, 4))),
    );
    assert_eq!(state, BehaviorState::Idle);
    assert_eq!(action, BehaviorAction::Idle);
}

#[test]
fn gathering_returns_to_idle_when_resource_depleted() {
    let (state, action) = decide(BehaviorState::Gathering, FED_MID, TilePos::new(4, 4), None);
    assert_eq!(state, BehaviorState::Idle);
    assert_eq!(action, BehaviorAction::Idle);
}

#[test]
fn gathering_returns_to_idle_if_wandered_out_of_range() {
    let (state, action) = decide(
        BehaviorState::Gathering,
        FED_MID,
        TilePos::new(0, 0),
        Some((3, TilePos::new(5, 5))),
    );
    assert_eq!(state, BehaviorState::Idle);
    assert_eq!(action, BehaviorAction::Idle);
}

#[test]
fn behavior_state_default_is_idle() {
    assert_eq!(BehaviorState::default(), BehaviorState::Idle);
}

#[test]
fn chebyshev_is_the_larger_axis_distance() {
    assert_eq!(chebyshev(TilePos::new(0, 0), TilePos::new(3, 1)), 3);
    assert_eq!(chebyshev(TilePos::new(-2, 5), TilePos::new(1, -3)), 8);
    assert_eq!(chebyshev(TilePos::new(4, 4), TilePos::new(4, 4)), 0);
    assert_eq!(chebyshev(TilePos::new(i16::MIN, 0), TilePos::new(i16::MAX, 0)), 65535);
}

#[test]
fn diagonal_neighbour_is_in_gather_range() {
    let (state, _) = decide(
        BehaviorState::SeekingFood,
        FED_LOW,
        TilePos::new(3, 3),
        Some((0, TilePos::new(4, 2))),
    );
    assert_eq!(state, BehaviorState::Gathering);
    let (state, _) = decide(
        BehaviorState::SeekingFood,
        FED_LOW,
        TilePos::new(3, 3),
        Some((0, TilePos::new(5, 3))),
    );
    assert_eq!(state, BehaviorState::SeekingFood);
}
