//! The rule-based food behavior: a pure state machine that maps the current
//! state, hunger and the nearest berry bush to an action.
use vstd::prelude::*;

use crate::pathfinding::TilePos;

verus! {

/// Chebyshev distance at or below which a citizen is close enough to a
/// resource to gather from it (one tile in any of 8 directions, or the same
/// tile).
pub const GATHER_RANGE: i16 = 1;

#[derive(Debug, Clone, Copy, PartialEq, Eq, Structural)]
pub enum BehaviorState {
    Idle,
    SeekingFood,
    Gathering,
}

impl Default for BehaviorState {
    fn default() -> (s: BehaviorState)
        ensures
            s == BehaviorState::Idle,
    {
        BehaviorState::Idle
    }
}

/// What the world layer should do for this citizen on the current tick.
#[derive(Debug, Clone, Copy, PartialEq, Eq, Structural)]
pub enum BehaviorAction {
    /// Stay idle.
    Idle,
    /// Walk toward the given resource tile.
    SeekFood { target: TilePos },
    /// Pull from the resource at this index; the citizen is adjacent.
    Gather { resource_idx: usize },
}

/// The two hunger facts the state machine reads from a citizen's fullness.
#[derive(Debug, Clone, Copy, PartialEq, Eq, Structural)]
pub struct Hunger {
    /// Fullness is below the threshold at which a citizen seeks food.
    pub wants_food: bool,
    /// Fullness is below full, so gathering still helps.
    pub can_eat_more: bool,
}

/// Chebyshev (king-move) distance between two tiles.
pub open spec fn chebyshev_spec(a: TilePos, b: TilePos) -> int {
    let dx = if a.x >= b.x {
        a.x - b.x
    } else {
        b.x - a.x
    };
    let dy = if a.y >= b.y {
        a.y - b.y
    } else {
        b.y - a.y
    };
    if dx >= dy {
        dx
    } else {
        dy
    }
}

/// Whether a citizen on `citizen` can gather from `resource`.
pub open spec fn in_gather_range(citizen: TilePos, resource: TilePos) -> bool {
    chebyshev_spec(citizen, resource) <= GATHER_RANGE
}

/// The state machine:
/// - `Idle`: seek the berry when hungry and one is known, else stay idle.
/// - `SeekingFood`: gather when in range, keep seeking otherwise, and go
///   idle when no berry is left.
/// - `Gathering`: keep gathering while in range and not full, else go idle.
pub open spec fn decide_spec(
    state: BehaviorState,
    hunger: Hunger,
    citizen_tile: TilePos,
    nearest_berry: Option<(usize, TilePos)>,
) -> (BehaviorState, BehaviorAction) {
    match state {
        BehaviorState::Idle => if !hunger.wants_food {
            (BehaviorState::Idle, BehaviorAction::Idle)
        } else {
            match nearest_berry {
                Some((_idx, tile)) => (
                    BehaviorState::SeekingFood,
                    BehaviorAction::SeekFood { target: tile },
                ),
                None => (BehaviorState::Idle, BehaviorAction::Idle),
            }
        },
        BehaviorState::SeekingFood => match nearest_berry {
            Some((idx, tile)) => if in_gather_range(citizen_tile, tile) {
                (BehaviorState::Gathering, BehaviorAction::Gather { resource_idx: idx })
            } else {
                (BehaviorState::SeekingFood, BehaviorAction::SeekFood { target: tile })
            },
            None => (BehaviorState::Idle, BehaviorAction::Idle),
        },
        BehaviorState::Gathering => match nearest_berry {
            Some((idx, tile)) => if in_gather_range(citizen_tile, tile) && hunger.can_eat_more {
                (BehaviorState::Gathering, BehaviorAction::Gather { resource_idx: idx })
            } else {
                (BehaviorState::Idle, BehaviorAction::Idle)
            },
            None => (BehaviorState::Idle, BehaviorAction::Idle),
        },
    }
}

/// Chebyshev (king-move) distance between two tiles.
pub fn chebyshev(a: TilePos, b: TilePos) -> (d: i32)
    ensures
        d == chebyshev_spec(a, b),
{
    let dx: i32 = if a.x >= b.x {
        a.x as i32 - b.x as i32
    } else {
        b.x as i32 - a.x as i32
    };
    let dy: i32 = if a.y >= b.y {
        a.y as i32 - b.y as i32
    } else {
        b.y as i32 - a.y as i32
    };
    if dx >= dy {
        dx
    } else {
        dy
    }
}

/// Pure decision function: the action for this tick and the state to keep.
pub fn decide(
    state: BehaviorState,
    hunger: Hunger,
    citizen_tile: TilePos,
    nearest_berry: Option<(usize, TilePos)>,
) -> (r: (BehaviorState, BehaviorAction))
    ensures
        r == decide_spec(state, hunger, citizen_tile, nearest_berry),
{
    match state {
        BehaviorState::Idle => {
            if !hunger.wants_food {
                return (BehaviorState::Idle, BehaviorAction::Idle);
            }
            match nearest_berry {
                Some((_idx, tile)) => (
                    BehaviorState::SeekingFood,
                    BehaviorAction::SeekFood { target: tile },
                ),
                None => (BehaviorState::Idle, BehaviorAction::Idle),
            }
        },
        BehaviorState::SeekingFood => match nearest_berry {
            Some((idx, tile)) => {
                if chebyshev(citizen_tile, tile) <= GATHER_RANGE as i32 {
                    (BehaviorState::Gathering, BehaviorAction::Gather { resource_idx: idx })
                } else {
                    (BehaviorState::SeekingFood, BehaviorAction::SeekFood { target: tile })
                }
            },
            None => (BehaviorState::Idle, BehaviorAction::Idle),
        },
        BehaviorState::Gathering => match nearest_berry {
            Some((idx, tile)) => {
                if chebyshev(citizen_tile, tile) <= GATHER_RANGE as i32 && hunger.can_eat_more {
                    (BehaviorState::Gathering, BehaviorAction::Gather { resource_idx: idx })
                } else {
                    (BehaviorState::Idle, BehaviorAction::Idle)
                }
            },
            None => (BehaviorState::Idle, BehaviorAction::Idle),
        },
    }
}

/// The new state always names the action: idle with `Idle`, seeking with
/// `SeekFood` toward the known berry, gathering with `Gather` from it while
/// the citizen is in range of it.
pub proof fn lemma_state_matches_action(
    state: BehaviorState,
    hunger: Hunger,
    citizen_tile: TilePos,
    nearest_berry: Option<(usize, TilePos)>,
)
    ensures
        ({
            let (s, a) = decide_spec(state, hunger, citizen_tile, nearest_berry);
            &&& (s == BehaviorState::Idle <==> a == BehaviorAction::Idle)
            &&& (s == BehaviorState::SeekingFood <==> a is SeekFood)
            &&& (s == BehaviorState::Gathering <==> a is Gather)
            &&& a matches BehaviorAction::SeekFood { target } ==> nearest_berry is Some
                && target == (nearest_berry->0).1
            &&& a matches BehaviorAction::Gather { resource_idx } ==> nearest_berry is Some
                && resource_idx == (nearest_berry->0).0 && in_gather_range(
                citizen_tile,
                (nearest_berry->0).1,
            )
        }),
{
}

/// Without a known berry every state falls back to idle.
pub proof fn lemma_no_berry_idles(state: BehaviorState, hunger: Hunger, citizen_tile: TilePos)
    ensures
        decide_spec(state, hunger, citizen_tile, None) == (
            BehaviorState::Idle,
            BehaviorAction::Idle,
        ),
{
}

/// A citizen that does not want food never starts seeking it from idle.
pub proof fn lemma_fed_idle_stays_idle(
    hunger: Hunger,
    citizen_tile: TilePos,
    nearest_berry: Option<(usize, TilePos)>,
)
    requires
        !hunger.wants_food,
    ensures
        decide_spec(BehaviorState::Idle, hunger, citizen_tile, nearest_berry) == (
            BehaviorState::Idle,
            BehaviorAction::Idle,
        ),
{
}

/// Gathering goes on while the berry is within one tile in each direction
/// (the same tile counts) and the citizen can eat more; seeking food turns
/// into gathering as soon as the berry is that close.
pub proof fn lemma_gathers_when_adjacent(
    state: BehaviorState,
    hunger: Hunger,
    citizen_tile: TilePos,
    idx: usize,
    tile: TilePos,
)
    requires
        -1 <= citizen_tile.x - tile.x <= 1,
        -1 <= citizen_tile.y - tile.y <= 1,
    ensures
        state == BehaviorState::Gathering && hunger.can_eat_more ==> decide_spec(
            state,
            hunger,
            citizen_tile,
            Some((idx, tile)),
        ) == (BehaviorState::Gathering, BehaviorAction::Gather { resource_idx: idx }),
        state == BehaviorState::SeekingFood ==> decide_spec(
            state,
            hunger,
            citizen_tile,
            Some((idx, tile)),
        ) == (BehaviorState::Gathering, BehaviorAction::Gather { resource_idx: idx }),
{
}

/// A berry two or more tiles away along either axis is out of reach: a
/// gathering citizen stops, and a seeking one keeps walking toward it.
pub proof fn lemma_stops_when_out_of_range(
    state: BehaviorState,
    hunger: Hunger,
    citizen_tile: TilePos,
    idx: usize,
    tile: TilePos,
)
    requires
        citizen_tile.x - tile.x >= 2 || tile.x - citizen_tile.x >= 2 || citizen_tile.y - tile.y
            >= 2 || tile.y - citizen_tile.y >= 2,
    ensures
        state == BehaviorState::Gathering ==> decide_spec(
            state,
            hunger,
            citizen_tile,
            Some((idx, tile)),
        ) == (BehaviorState::Idle, BehaviorAction::Idle),
        state == BehaviorState::SeekingFood ==> decide_spec(
            state,
            hunger,
            citizen_tile,
            Some((idx, tile)),
        ) == (BehaviorState::SeekingFood, BehaviorAction::SeekFood { target: tile }),
{
}

} // verus!
