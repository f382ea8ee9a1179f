use vstd::prelude::*;

use crate::pathfinding::{TilePos, WalkGrid};

verus! {

/// `-1`, `0` or `1` according to the sign of `v`.
pub open spec fn sign(v: int) -> int {
    if v > 0 {
        1
    } else if v < 0 {
        -1
    } else {
        0
    }
}

/// The tile one step from `from` toward `to`: each axis moves by one unit
/// toward the target, so the step is diagonal when both axes differ.
pub open spec fn step_toward(from: TilePos, to: TilePos) -> TilePos {
    TilePos {
        x: (from.x + sign(to.x - from.x)) as i16,
        y: (from.y + sign(to.y - from.y)) as i16,
    }
}

/// Chebyshev (king-move) distance between two tiles.
pub open spec fn chebyshev_dist(a: TilePos, b: TilePos) -> int {
    let dx = if a.x >= b.x {
        a.x - b.x
    } else {
        b.x - a.x
    };
    let dy = if a.y >= b.y {
        a.y - b.y
    } else {
        b.y - a.y
    };
    if dx >= dy {
        dx
    } else {
        dy
    }
}

/// Tile-granular movement state of one citizen.
#[derive(Debug, Clone, Copy, PartialEq, Eq, Structural)]
pub struct MoveState {
    pub tile_pos: TilePos,
    pub prev_tile_pos: TilePos,
    pub move_target: Option<TilePos>,
}

/// The state after one call of `MoveState::step`.
pub open spec fn spec_step(m: MoveState) -> MoveState {
    match m.move_target {
        None => MoveState { prev_tile_pos: m.tile_pos, ..m },
        Some(t) => if t == m.tile_pos {
            MoveState { prev_tile_pos: m.tile_pos, move_target: None, ..m }
        } else {
            let next = step_toward(m.tile_pos, t);
            MoveState {
                tile_pos: next,
                prev_tile_pos: m.tile_pos,
                move_target: if next == t {
                    None
                } else {
                    Some(t)
                },
            }
        },
    }
}

/// The state after `n` consecutive steps.
pub open spec fn spec_steps(m: MoveState, n: nat) -> MoveState
    decreases n,
{
    if n == 0 {
        m
    } else {
        spec_steps(spec_step(m), (n - 1) as nat)
    }
}

/// One signed unit toward `to` from `from`, computed without overflow.
fn unit_toward(from: i16, to: i16) -> (r: i16)
    ensures
        r == sign(to - from),
{
    if to > from {
        1
    } else if to < from {
        -1
    } else {
        0
    }
}

impl MoveState {
    /// A citizen standing on `tile_pos` with no target.
    pub fn new(tile_pos: TilePos) -> (m: MoveState)
        ensures
            m.tile_pos == tile_pos,
            m.prev_tile_pos == tile_pos,
            m.move_target is None,
    {
        MoveState { tile_pos, prev_tile_pos: tile_pos, move_target: None }
    }

    /// Advance one tile toward `move_target`. `prev_tile_pos` always records
    /// the tile occupied before this step; the target is cleared on arrival.
    pub fn step(&mut self)
        ensures
            *final(self) == spec_step(*old(self)),
    {
        self.prev_tile_pos = self.tile_pos;
        let target = match self.move_target {
            None => {
                return ;
            },
            Some(t) => t,
        };
        if target == self.tile_pos {
            self.move_target = None;
            return ;
        }
        let dx = unit_toward(self.tile_pos.x, target.x);
        let dy = unit_toward(self.tile_pos.y, target.y);
        self.tile_pos.x = self.tile_pos.x + dx;
        self.tile_pos.y = self.tile_pos.y + dy;
        if self.tile_pos == target {
            self.move_target = None;
        }
    }
}

impl Default for MoveState {
    /// A citizen on the origin tile with no target.
    fn default() -> (m: MoveState)
        ensures
            m.tile_pos == (TilePos { x: 0, y: 0 }),
            m.prev_tile_pos == (TilePos { x: 0, y: 0 }),
            m.move_target is None,
    {
        MoveState::new(TilePos { x: 0, y: 0 })
    }
}

/// Each step toward a target that has not been reached brings the citizen
/// exactly one tile closer in Chebyshev distance, and never leaves the box
/// spanned by the current tile and the target.
pub proof fn lemma_step_closer(m: MoveState)
    requires
        m.move_target is Some,
        m.move_target->0 != m.tile_pos,
    ensures
        chebyshev_dist(spec_step(m).tile_pos, m.move_target->0) == chebyshev_dist(
            m.tile_pos,
            m.move_target->0,
        ) - 1,
        spec_step(m).move_target is None <==> spec_step(m).tile_pos == m.move_target->0,
        spec_step(m).move_target is Some ==> spec_step(m).move_target == m.move_target,
{
}

/// A citizen with a target reaches it after exactly as many steps as the
/// Chebyshev distance to it, and the target is cleared on arrival.
pub proof fn lemma_arrives(m: MoveState)
    requires
        m.move_target is Some,
        m.move_target->0 != m.tile_pos,
    ensures
        spec_steps(m, chebyshev_dist(m.tile_pos, m.move_target->0) as nat).tile_pos
            == m.move_target->0,
        spec_steps(m, chebyshev_dist(m.tile_pos, m.move_target->0) as nat).move_target is None,
    decreases chebyshev_dist(m.tile_pos, m.move_target->0),
{
    let t = m.move_target->0;
    let d = chebyshev_dist(m.tile_pos, t);
    lemma_step_closer(m);
    let m1 = spec_step(m);
    if m1.move_target is None {
        assert(d == 1);
        assert(spec_steps(m1, 0) == m1);
    } else {
        lemma_arrives(m1);
        assert(spec_steps(m, d as nat) == spec_steps(m1, (d - 1) as nat));
    }
}


/// The eight king-move directions, a quarter turn of 45° apart:
/// east, south-east, south, south-west, west, north-west, north, north-east
/// (y grows southward).
pub open spec fn ring(i: int) -> (int, int) {
    if i == 0 {
        (1, 0)
    } else if i == 1 {
        (1, 1)
    } else if i == 2 {
        (0, 1)
    } else if i == 3 {
        (-1, 1)
    } else if i == 4 {
        (-1, 0)
    } else if i == 5 {
        (-1, -1)
    } else if i == 6 {
        (0, -1)
    } else {
        (1, -1)
    }
}

/// Position in `ring` of the unit direction `(dx, dy)`.
pub open spec fn ring_index(dx: int, dy: int) -> int {
    if dx == 1 && dy == 0 {
        0
    } else if dx == 1 && dy == 1 {
        1
    } else if dx == 0 && dy == 1 {
        2
    } else if dx == -1 && dy == 1 {
        3
    } else if dx == -1 && dy == 0 {
        4
    } else if dx == -1 && dy == -1 {
        5
    } else if dx == 0 && dy == -1 {
        6
    } else {
        7
    }
}

/// Number of detour candidates tried around the direct direction.
pub const DETOUR_CANDIDATES: u8 = 7;

/// Turn of the `k`-th detour candidate, in eighths of a full turn:
/// 0°, +45°, -45°, +90°, -90°, +135°, -135°. Turning back (180°) is never
/// tried, so a citizen does not oscillate between two tiles.
pub open spec fn detour_turn(k: int) -> int {
    if k == 0 {
        0
    } else if k == 1 {
        1
    } else if k == 2 {
        7
    } else if k == 3 {
        2
    } else if k == 4 {
        6
    } else if k == 5 {
        3
    } else {
        5
    }
}

/// The tile of the `k`-th detour candidate for a step from `from` toward
/// `to`, as integer coordinates.
pub open spec fn detour_tile(from: TilePos, to: TilePos, k: int) -> (int, int) {
    let d = ring(
        (ring_index(sign(to.x - from.x), sign(to.y - from.y)) + detour_turn(k)) % 8,
    );
    (from.x + d.0, from.y + d.1)
}

/// Whether a tile appears in the recent-tile history.
pub open spec fn in_history(history: Seq<TilePos>, p: (int, int)) -> bool {
    exists|i: int| 0 <= i < history.len() && history[i].x == p.0 && history[i].y == p.1
}

/// Whether candidate `k` is acceptable: walkable, and outside the history
/// when `fresh_only`.
pub open spec fn acceptable(
    from: TilePos,
    to: TilePos,
    grid: WalkGrid,
    history: Seq<TilePos>,
    fresh_only: bool,
    k: int,
) -> bool {
    let p = detour_tile(from, to, k);
    grid.walkable_at(p.0, p.1) && (!fresh_only || !in_history(history, p))
}

/// The first acceptable candidate at position `k` or later.
pub open spec fn first_candidate(
    from: TilePos,
    to: TilePos,
    grid: WalkGrid,
    history: Seq<TilePos>,
    fresh_only: bool,
    k: nat,
) -> Option<int>
    decreases 7 - k,
{
    if k >= 7 {
        None
    } else if acceptable(from, to, grid, history, fresh_only, k as int) {
        Some(k as int)
    } else {
        first_candidate(from, to, grid, history, fresh_only, k + 1)
    }
}

/// The candidate taken: the first walkable one outside the history, else
/// the first walkable one.
pub open spec fn chosen_candidate(
    from: TilePos,
    to: TilePos,
    grid: WalkGrid,
    history: Seq<TilePos>,
) -> Option<int> {
    match first_candidate(from, to, grid, history, true, 0) {
        Some(k) => Some(k),
        None => first_candidate(from, to, grid, history, false, 0),
    }
}

/// The state after one obstacle-aware step (`MoveState::step_with_grid`).
pub open spec fn spec_step_with_grid(m: MoveState, grid: WalkGrid, history: Seq<TilePos>) -> MoveState {
    match m.move_target {
        None => MoveState { prev_tile_pos: m.tile_pos, ..m },
        Some(t) => if t == m.tile_pos || !grid.walkable_at(t.x as int, t.y as int) {
            MoveState { prev_tile_pos: m.tile_pos, move_target: None, ..m }
        } else {
            match chosen_candidate(m.tile_pos, t, grid, history) {
                None => MoveState { prev_tile_pos: m.tile_pos, ..m },
                Some(k) => {
                    let p = detour_tile(m.tile_pos, t, k);
                    let next = TilePos { x: p.0 as i16, y: p.1 as i16 };
                    MoveState {
                        tile_pos: next,
                        prev_tile_pos: m.tile_pos,
                        move_target: if next == t {
                            None
                        } else {
                            Some(t)
                        },
                    }
                },
            }
        },
    }
}

fn ring_step(i: u8) -> (d: (i32, i32))
    requires
        i < 8,
    ensures
        d.0 == ring(i as int).0,
        d.1 == ring(i as int).1,
{
    if i == 0 {
        (1, 0)
    } else if i == 1 {
        (1, 1)
    } else if i == 2 {
        (0, 1)
    } else if i == 3 {
        (-1, 1)
    } else if i == 4 {
        (-1, 0)
    } else if i == 5 {
        (-1, -1)
    } else if i == 6 {
        (0, -1)
    } else {
        (1, -1)
    }
}

fn ring_index_of(dx: i16, dy: i16) -> (i: u8)
    ensures
        i == ring_index(dx as int, dy as int),
        i < 8,
{
    if dx == 1 && dy == 0 {
        0
    } else if dx == 1 && dy == 1 {
        1
    } else if dx == 0 && dy == 1 {
        2
    } else if dx == -1 && dy == 1 {
        3
    } else if dx == -1 && dy == 0 {
        4
    } else if dx == -1 && dy == -1 {
        5
    } else if dx == 0 && dy == -1 {
        6
    } else {
        7
    }
}

fn detour_turn_of(k: u8) -> (t: u8)
    requires
        k < 7,
    ensures
        t == detour_turn(k as int),
        t < 8,
{
    if k == 0 {
        0
    } else if k == 1 {
        1
    } else if k == 2 {
        7
    } else if k == 3 {
        2
    } else if k == 4 {
        6
    } else if k == 5 {
        3
    } else {
        5
    }
}

/// Whether the integer tile `(x, y)` is walkable; tiles outside the `i16`
/// range are off every grid.
fn walkable_xy(grid: &WalkGrid, x: i32, y: i32) -> (b: bool)
    requires
        grid.wf(),
    ensures
        b == grid.walkable_at(x as int, y as int),
{
    proof {
        grid.lemma_dims();
    }
    if x < i16::MIN as i32 || x > i16::MAX as i32 || y < i16::MIN as i32 || y > i16::MAX as i32 {
        return false;
    }
    grid.is_walkable(TilePos { x: x as i16, y: y as i16 })
}

fn history_has(history: &[TilePos], x: i32, y: i32) -> (b: bool)
    ensures
        b == in_history(history@, (x as int, y as int)),
{
    let mut i: usize = 0;
    while i < history.len()
        invariant
            i <= history@.len(),
            forall|j: int| 0 <= j < i ==> !(history@[j].x == x && history@[j].y == y),
        decreases history@.len() - i,
    {
        if history[i].x as i32 == x && history[i].y as i32 == y {
            return true;
        }
        i = i + 1;
    }
    false
}

fn candidate_tile(from: TilePos, to: TilePos, k: u8) -> (p: (i32, i32))
    requires
        k < 7,
    ensures
        p.0 == detour_tile(from, to, k as int).0,
        p.1 == detour_tile(from, to, k as int).1,
{
    let base = ring_index_of(unit_toward(from.x, to.x), unit_toward(from.y, to.y));
    let turn = detour_turn_of(k);
    let d = ring_step((base + turn) % 8);
    (from.x as i32 + d.0, from.y as i32 + d.1)
}

/// The first acceptable detour candidate, searching from the direct one.
fn find_candidate(
    from: TilePos,
    to: TilePos,
    grid: &WalkGrid,
    history: &[TilePos],
    fresh_only: bool,
) -> (r: Option<u8>)
    requires
        grid.wf(),
    ensures
        match r {
            Some(k) => k < 7 && first_candidate(from, to, *grid, history@, fresh_only, 0) == Some(
                k as int,
            ),
            None => first_candidate(from, to, *grid, history@, fresh_only, 0) is None,
        },
{
    let mut k: u8 = 0;
    while k < DETOUR_CANDIDATES
        invariant
            k <= 7,
            grid.wf(),
            first_candidate(from, to, *grid, history@, fresh_only, 0) == first_candidate(
                from,
                to,
                *grid,
                history@,
                fresh_only,
                k as nat,
            ),
        decreases 7 - k,
    {
        let p = candidate_tile(from, to, k);
        let ok = walkable_xy(grid, p.0, p.1) && (!fresh_only || !history_has(history, p.0, p.1));
        if ok {
            return Some(k);
        }
        k = k + 1;
    }
    None
}

impl MoveState {
    /// Advance one tile toward `move_target` around obstacles of `grid`.
    /// The direct direction is tried first, then turns of 45°, 90° and 135°
    /// to either side (never straight back); tiles in `history` are taken
    /// only when no other candidate is walkable. A target that is not
    /// walkable is dropped, and a citizen boxed in on every candidate stays
    /// put. `prev_tile_pos` records the tile occupied before the step.
    pub fn step_with_grid(&mut self, grid: &WalkGrid, history: &[TilePos])
        requires
            grid.wf(),
        ensures
            *final(self) == spec_step_with_grid(*old(self), *grid, history@),
    {
        self.prev_tile_pos = self.tile_pos;
        let target = match self.move_target {
            None => {
                return ;
            },
            Some(t) => t,
        };
        if target == self.tile_pos || !grid.is_walkable(target) {
            self.move_target = None;
            return ;
        }
        let from = self.tile_pos;
        let chosen = match find_candidate(from, target, grid, history, true) {
            Some(k) => Some(k),
            None => find_candidate(from, target, grid, history, false),
        };
        match chosen {
            None => {},
            Some(k) => {
                let p = candidate_tile(from, target, k);
                proof {
                    grid.lemma_dims();
                }
                let next = TilePos { x: p.0 as i16, y: p.1 as i16 };
                self.tile_pos = next;
                if next == target {
                    self.move_target = None;
                }
            },
        }
    }
}


/// An obstacle-aware step is safe and local: a citizen that moves lands on
/// a walkable tile one king move away and never straight back against the
/// direction of its target; a target that is not walkable is dropped
/// without moving; with the target reached the target is cleared.
pub proof fn lemma_grid_step_safe(m: MoveState, grid: WalkGrid, history: Seq<TilePos>)
    requires
        grid.wf(),
    ensures
        ({
            let n = spec_step_with_grid(m, grid, history);
            &&& n.prev_tile_pos == m.tile_pos
            &&& n.tile_pos != m.tile_pos ==> {
                &&& grid.walkable_at(n.tile_pos.x as int, n.tile_pos.y as int)
                &&& chebyshev_dist(n.tile_pos, m.tile_pos) == 1
                &&& m.move_target matches Some(t) && !(n.tile_pos.x == m.tile_pos.x - sign(
                    t.x - m.tile_pos.x,
                ) && n.tile_pos.y == m.tile_pos.y - sign(t.y - m.tile_pos.y))
            }
            &&& (m.move_target is Some && !grid.walkable_at(
                m.move_target->0.x as int,
                m.move_target->0.y as int,
            )) ==> n == MoveState { prev_tile_pos: m.tile_pos, move_target: None, ..m }
            &&& n.move_target is None ==> m.move_target is None || n.tile_pos == m.move_target->0
                || !grid.walkable_at(m.move_target->0.x as int, m.move_target->0.y as int)
            &&& n.move_target is Some ==> n.move_target == m.move_target
        }),
{
    grid.lemma_dims();
    let n = spec_step_with_grid(m, grid, history);
    if let Some(t) = m.move_target {
        if t != m.tile_pos && grid.walkable_at(t.x as int, t.y as int) {
            if let Some(k) = chosen_candidate(m.tile_pos, t, grid, history) {
                lemma_first_candidate_range(m.tile_pos, t, grid, history, true, 0);
                lemma_first_candidate_range(m.tile_pos, t, grid, history, false, 0);
                assert(acceptable(m.tile_pos, t, grid, history, false, k));
            }
        }
    }
}

/// A found candidate lies in range and is acceptable.
proof fn lemma_first_candidate_range(
    from: TilePos,
    to: TilePos,
    grid: WalkGrid,
    history: Seq<TilePos>,
    fresh_only: bool,
    k: nat,
)
    ensures
        first_candidate(from, to, grid, history, fresh_only, k) matches Some(j) ==> k <= j < 7
            && acceptable(from, to, grid, history, fresh_only, j)
            && acceptable(from, to, grid, history, false, j),
    decreases 7 - k,
{
    if k < 7 && !acceptable(from, to, grid, history, fresh_only, k as int) {
        lemma_first_candidate_range(from, to, grid, history, fresh_only, k + 1);
    }
}

/// With the direct tile walkable and outside the history, the
/// obstacle-aware step is the plain diagonal-first step.
pub proof fn lemma_grid_step_direct(m: MoveState, grid: WalkGrid, history: Seq<TilePos>)
    requires
        grid.wf(),
        m.move_target matches Some(t) && t != m.tile_pos && grid.walkable_at(t.x as int, t.y as int),
        acceptable(m.tile_pos, m.move_target->0, grid, history, true, 0),
    ensures
        spec_step_with_grid(m, grid, history) == spec_step(m),
{
    grid.lemma_dims();
}

/// Some acceptable candidate at or after `k` means the search finds one.
proof fn lemma_first_candidate_exists(
    from: TilePos,
    to: TilePos,
    grid: WalkGrid,
    history: Seq<TilePos>,
    fresh_only: bool,
    k: nat,
    k0: int,
)
    requires
        k <= k0 < 7,
        acceptable(from, to, grid, history, fresh_only, k0),
    ensures
        first_candidate(from, to, grid, history, fresh_only, k) is Some,
    decreases 7 - k,
{
    if !acceptable(from, to, grid, history, fresh_only, k as int) {
        lemma_first_candidate_exists(from, to, grid, history, fresh_only, k + 1, k0);
    }
}

/// The recent-tile history breaks oscillation: when some walkable
/// candidate tile occurs nowhere in the history, the obstacle-aware step
/// moves, and onto a tile that occurs nowhere in the history.
pub proof fn lemma_grid_step_avoids_history(
    m: MoveState,
    grid: WalkGrid,
    history: Seq<TilePos>,
    k0: int,
)
    requires
        grid.wf(),
        m.move_target matches Some(t) && t != m.tile_pos && grid.walkable_at(t.x as int, t.y as int),
        0 <= k0 < 7,
        grid.walkable_at(
            detour_tile(m.tile_pos, m.move_target->0, k0).0,
            detour_tile(m.tile_pos, m.move_target->0, k0).1,
        ),
        forall|i: int|
            0 <= i < history.len() ==> !(history[i].x == detour_tile(
                m.tile_pos,
                m.move_target->0,
                k0,
            ).0 && history[i].y == detour_tile(m.tile_pos, m.move_target->0, k0).1),
    ensures
        spec_step_with_grid(m, grid, history).tile_pos != m.tile_pos,
        forall|i: int|
            0 <= i < history.len() ==> history[i] != spec_step_with_grid(m, grid, history).tile_pos,
{
    let t = m.move_target->0;
    grid.lemma_dims();
    lemma_first_candidate_exists(m.tile_pos, t, grid, history, true, 0, k0);
    lemma_first_candidate_range(m.tile_pos, t, grid, history, true, 0);
    lemma_grid_step_safe(m, grid, history);
    let k = first_candidate(m.tile_pos, t, grid, history, true, 0)->0;
    let p = detour_tile(m.tile_pos, t, k);
    let n = spec_step_with_grid(m, grid, history);
    assert(n.tile_pos.x == p.0 && n.tile_pos.y == p.1);
    assert forall|i: int| 0 <= i < history.len() implies history[i] != n.tile_pos by {
        if history[i] == n.tile_pos {
            assert(in_history(history, p));
        }
    }
}

} // verus!
