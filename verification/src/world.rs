//! The movement world: citizens stepping toward their targets each tick,
//! optionally around the obstacles of a walkable grid, with a short history
//! of recent tiles per citizen and an optional seeded random walk that gives
//! idle citizens a new target.
use vstd::prelude::*;

use std::collections::VecDeque;

use crate::move_state::{lemma_grid_step_safe, spec_step, spec_step_with_grid, MoveState};
use crate::pathfinding::{clamp_nonneg, TilePos, WalkGrid};
use crate::random::Draws;

verus! {

/// Number of recent tiles remembered per citizen.
pub const HISTORY_LEN: usize = 8;

/// Bounds for random-walk targets: `0..width` × `0..height`, each size
/// taken as at least one.
#[derive(Debug, Clone, Copy, PartialEq, Eq, Structural)]
pub struct MapBounds {
    pub width: i16,
    pub height: i16,
}

/// A seeded generator and the bounds of the random walk.
#[derive(Debug)]
struct RandomWalk {
    rng: Draws,
    bounds: MapBounds,
}

/// The world: a tick counter, citizens of type `C` with their movement
/// states (index-parallel), an optional walkable grid, an optional random
/// walk, and the recent tiles of each citizen.
#[derive(Debug)]
pub struct World<C> {
    pub tick_count: u32,
    pub citizens: Vec<C>,
    pub citizen_moves: Vec<MoveState>,
    random_walk: Option<RandomWalk>,
    walk_grid: Option<WalkGrid>,
    citizen_history: Vec<VecDeque<TilePos>>,
}

/// A size taken as at least one.
pub open spec fn span(v: i16) -> int {
    if v < 1 {
        1
    } else {
        v as int
    }
}

/// Whether `cand` may become a new target for a citizen on `current`: a
/// different tile, walkable when a grid is present.
pub open spec fn fresh_target(cand: TilePos, current: TilePos, grid: Option<WalkGrid>) -> bool {
    cand != current && match grid {
        Some(g) => g.walkable_at(cand.x as int, cand.y as int),
        None => true,
    }
}

/// What a random-walk pick may return: a fresh target within the bounds, or
/// the current tile when none was found.
pub open spec fn valid_pick(t: TilePos, current: TilePos, b: MapBounds, grid: Option<WalkGrid>) -> bool {
    t == current || (0 <= t.x < span(b.width) && 0 <= t.y < span(b.height) && fresh_target(
        t,
        current,
        grid,
    ))
}

/// One movement step, obstacle-aware when a grid is present.
pub open spec fn moved(m: MoveState, grid: Option<WalkGrid>, history: Seq<TilePos>) -> MoveState {
    match grid {
        Some(g) => spec_step_with_grid(m, g, history),
        None => spec_step(m),
    }
}

/// The history after standing on `t`: unchanged when `t` is already the
/// latest tile, else `t` appended, the oldest tile dropped when full.
pub open spec fn record_tile(h: Seq<TilePos>, t: TilePos) -> Seq<TilePos> {
    if h.len() > 0 && h.last() == t {
        h
    } else if h.len() == HISTORY_LEN {
        h.drop_first().push(t)
    } else {
        h.push(t)
    }
}

/// The `deref` of an optional grid reference.
pub open spec fn grid_of(g: Option<&WalkGrid>) -> Option<WalkGrid> {
    match g {
        Some(r) => Some(*r),
        None => None,
    }
}

/// What one tick does to a citizen's movement state: it steps (around
/// obstacles when a grid is present) and, when the random walk is on and
/// the citizen ended up without a target, receives a random one.
pub open spec fn after_tick(
    before: MoveState,
    after: MoveState,
    grid: Option<WalkGrid>,
    history: Seq<TilePos>,
    bounds: Option<MapBounds>,
) -> bool {
    let s = moved(before, grid, history);
    &&& after.tile_pos == s.tile_pos
    &&& after.prev_tile_pos == s.prev_tile_pos
    &&& if bounds is Some && s.move_target is None {
        after.move_target is Some && valid_pick(after.move_target->0, s.tile_pos, bounds->0, grid)
    } else {
        after.move_target == s.move_target
    }
}

/// Whether a tile drawn for a citizen on `current` is acceptable as a new
/// target.
pub fn is_fresh_target(cand: TilePos, current: TilePos, grid: Option<&WalkGrid>) -> (b: bool)
    requires
        grid matches Some(g) ==> g.wf(),
    ensures
        b == fresh_target(cand, current, grid_of(grid)),
{
    if cand == current {
        return false;
    }
    match grid {
        Some(g) => g.is_walkable(cand),
        None => true,
    }
}

/// How many tiles a random-walk pick draws at most before it gives up:
/// none when the bounds hold a single tile, else `max(4 · width · height,
/// 64)` with each size taken as at least one.
pub open spec fn draw_budget(b: MapBounds) -> nat {
    if span(b.width) == 1 && span(b.height) == 1 {
        0
    } else if 4 * span(b.width) * span(b.height) > 64 {
        (4 * span(b.width) * span(b.height)) as nat
    } else {
        64
    }
}

/// The number of draws a random-walk pick within `bounds` may make.
pub fn max_draws(bounds: MapBounds) -> (n: u32)
    ensures
        n == draw_budget(bounds),
{
    let w: i16 = if bounds.width < 1 {
        1
    } else {
        bounds.width
    };
    let h: i16 = if bounds.height < 1 {
        1
    } else {
        bounds.height
    };
    if w == 1 && h == 1 {
        return 0;
    }
    assert((w as int) * (h as int) * 4 <= u32::MAX) by (nonlinear_arith)
        requires
            1 <= w <= i16::MAX,
            1 <= h <= i16::MAX,
    ;
    let area: u32 = (w as u32) * (h as u32) * 4;
    assert(area == 4 * span(bounds.width) * span(bounds.height)) by (nonlinear_arith)
        requires
            area == (w as int) * (h as int) * 4,
            w == span(bounds.width),
            h == span(bounds.height),
    ;
    if area > 64 {
        area
    } else {
        64
    }
}

/// A random target for a citizen on `current`: tiles are drawn from `rng`
/// within the bounds until one is fresh (different from `current`, and
/// walkable when a grid is given), and that tile is returned. When all
/// `draw_budget` draws are rejected, or the bounds hold a single tile, the
/// current tile is returned. The second result lists the tiles drawn, in
/// order, and the third the ranges `0..w` × `0..h` each came from, as
/// `(w, h)`. Each tile is two draws of the generator, x then y, and those
/// are exactly the draws the generator's log gains.
fn pick_random_target_on_grid(
    rng: &mut Draws,
    current: TilePos,
    bounds: MapBounds,
    grid: Option<&WalkGrid>,
) -> (r: (TilePos, Ghost<Seq<TilePos>>, Ghost<Seq<(i16, i16)>>))
    requires
        grid matches Some(g) ==> g.wf(),
    ensures
        valid_pick(r.0, current, bounds, grid_of(grid)),
        span(bounds.width) == 1 && span(bounds.height) == 1 ==> r.0 == current,
        final(rng).log().len() == 2 * r.1@.len(),
        forall|k: int|
            0 <= k < r.1@.len() ==> (#[trigger] r.1@[k]).x == final(rng).log()[2 * k].0
                && r.1@[k].y == final(rng).log()[2 * k + 1].0 && final(rng).log()[2 * k].1 == span(
                bounds.width,
            ) && final(rng).log()[2 * k + 1].1 == span(bounds.height),
        r.1@.len() <= draw_budget(bounds),
        r.2@.len() == r.1@.len(),
        forall|k: int|
            0 <= k < r.2@.len() ==> (#[trigger] r.2@[k]) == (
                span(bounds.width) as i16,
                span(bounds.height) as i16,
            ),
        forall|k: int| 0 <= k < r.1@.len() ==> in_walk_bounds(#[trigger] r.1@[k], bounds),
        forall|k: int|
            0 <= k < r.1@.len() - 1 ==> !fresh_target(#[trigger] r.1@[k], current, grid_of(grid)),
        r.0 == current ==> r.1@.len() == draw_budget(bounds) && forall|k: int|
            0 <= k < r.1@.len() ==> !fresh_target(#[trigger] r.1@[k], current, grid_of(grid)),
        r.0 != current ==> r.1@.len() > 0 && r.0 == r.1@.last() && fresh_target(
            r.0,
            current,
            grid_of(grid),
        ),
{
    rng.restart();
    let max_attempts = max_draws(bounds);
    let ghost mut draws: Seq<TilePos> = Seq::empty();
    let ghost mut ranges: Seq<(i16, i16)> = Seq::empty();
    if max_attempts == 0 {
        return (current, Ghost(draws), Ghost(ranges));
    }
    let w: i16 = if bounds.width < 1 {
        1
    } else {
        bounds.width
    };
    let h: i16 = if bounds.height < 1 {
        1
    } else {
        bounds.height
    };
    let mut i: u32 = 0;
    while i < max_attempts
        invariant
            w == span(bounds.width),
            h == span(bounds.height),
            max_attempts == draw_budget(bounds),
            max_attempts > 0,
            !(span(bounds.width) == 1 && span(bounds.height) == 1),
            i <= max_attempts,
            draws.len() == i,
            ranges.len() == i,
            rng.log().len() == 2 * i,
            forall|k: int|
                0 <= k < draws.len() ==> (#[trigger] draws[k]).x == rng.log()[2 * k].0 && draws[k].y == rng.log()[2 * k + 1].0 && rng.log()[2 * k].1 == w && rng.log()[2 * k + 1].1 == h,
            forall|k: int|
                0 <= k < ranges.len() ==> (#[trigger] ranges[k]) == (
                    span(bounds.width) as i16,
                    span(bounds.height) as i16,
                ),
            grid matches Some(g) ==> g.wf(),
            forall|k: int| 0 <= k < draws.len() ==> in_walk_bounds(#[trigger] draws[k], bounds),
            forall|k: int|
                0 <= k < draws.len() ==> !fresh_target(#[trigger] draws[k], current, grid_of(grid)),
        decreases max_attempts - i,
    {
        let ghost before = rng.log();
        let x = rng.draw(w);
        let y = rng.draw(h);
        let cand = TilePos::new(x, y);
        proof {
            draws = draws.push(cand);
            ranges = ranges.push((w, h));
            assert(rng.log() == before.push((x, w)).push((y, h)));
            assert forall|k: int| 0 <= k < draws.len() implies (#[trigger] draws[k]).x == rng.log()[2
                * k].0 && draws[k].y == rng.log()[2 * k + 1].0 && rng.log()[2 * k].1 == w && rng.log()[2 * k + 1].1 == h by {
                if k < i {
                    assert(rng.log()[2 * k] == before[2 * k]);
                    assert(rng.log()[2 * k + 1] == before[2 * k + 1]);
                }
            }
        }
        if is_fresh_target(cand, current, grid) {
            return (cand, Ghost(draws), Ghost(ranges));
        }
        i = i + 1;
    }
    (current, Ghost(draws), Ghost(ranges))
}

/// The copy of a history deque as a `Vec`.
fn deque_to_vec(d: &VecDeque<TilePos>) -> (v: Vec<TilePos>)
    ensures
        v@ == d@,
{
    let mut v: Vec<TilePos> = Vec::new();
    let mut i: usize = 0;
    while i < d.len()
        invariant
            i <= d@.len(),
            v@ == d@.take(i as int),
        decreases d@.len() - i,
    {
        v.push(d[i]);
        i = i + 1;
        assert(v@ =~= d@.take(i as int));
    }
    assert(d@.take(d@.len() as int) =~= d@);
    v
}

/// The history `h` after standing on `t`.
fn recorded(h: &VecDeque<TilePos>, t: TilePos) -> (r: VecDeque<TilePos>)
    requires
        h@.len() <= HISTORY_LEN,
    ensures
        r@ == record_tile(h@, t),
        r@.len() <= HISTORY_LEN,
{
    let mut r: VecDeque<TilePos> = VecDeque::with_capacity(HISTORY_LEN);
    let mut i: usize = 0;
    while i < h.len()
        invariant
            i <= h@.len(),
            r@ == h@.take(i as int),
        decreases h@.len() - i,
    {
        r.push_back(h[i]);
        i = i + 1;
        assert(r@ =~= h@.take(i as int));
    }
    assert(h@.take(h@.len() as int) =~= h@);
    let n = h.len();
    if n > 0 && h[n - 1] == t {
        return r;
    }
    if n == HISTORY_LEN {
        let _ = r.pop_front();
        assert(r@ =~= h@.drop_first());
    }
    r.push_back(t);
    r
}

impl<C> World<C> {
    /// The tick counter.
    pub closed spec fn ticks(&self) -> u32 {
        self.tick_count
    }

    /// The citizens, in spawn order.
    pub closed spec fn citizen_seq(&self) -> Seq<C> {
        self.citizens@
    }

    /// The movement states, index-parallel with the citizens.
    pub closed spec fn moves(&self) -> Seq<MoveState> {
        self.citizen_moves@
    }

    /// The installed walkable grid, if any.
    pub closed spec fn grid(&self) -> Option<WalkGrid> {
        self.walk_grid
    }

    /// The random-walk bounds, when the random walk is enabled.
    pub closed spec fn walk_bounds(&self) -> Option<MapBounds> {
        match self.random_walk {
            Some(rw) => Some(rw.bounds),
            None => None,
        }
    }

    /// Number of citizens with a history.
    pub closed spec fn history_count(&self) -> nat {
        self.citizen_history@.len()
    }

    /// Recent tiles of citizen `i`, oldest first (empty without a history).
    pub closed spec fn history(&self, i: int) -> Seq<TilePos> {
        if 0 <= i < self.citizen_history@.len() {
            self.citizen_history@[i]@
        } else {
            Seq::empty()
        }
    }

    /// Well-formedness: the grid is well formed and no history holds more
    /// than `HISTORY_LEN` tiles.
    pub closed spec fn wf(&self) -> bool {
        &&& (self.walk_grid matches Some(g) ==> g.wf())
        &&& forall|i: int|
            0 <= i < self.citizen_history@.len() ==> (#[trigger] self.citizen_history@[i])@.len()
                <= HISTORY_LEN
    }

    /// Every history is bounded by `HISTORY_LEN`.
    pub proof fn lemma_history_bounded(&self, i: int)
        requires
            self.wf(),
        ensures
            self.history(i).len() <= HISTORY_LEN,
    {
    }

    /// An empty world at tick zero, without grid or random walk.
    pub fn new() -> (w: World<C>)
        ensures
            w.wf(),
            w.ticks() == 0,
            w.citizen_seq() == Seq::<C>::empty(),
            w.moves() == Seq::<MoveState>::empty(),
            w.grid() is None,
            w.walk_bounds() is None,
            w.history_count() == 0,
    {
        World {
            tick_count: 0,
            citizens: Vec::new(),
            citizen_moves: Vec::new(),
            random_walk: None,
            walk_grid: None,
            citizen_history: Vec::new(),
        }
    }

    /// Give idle citizens a new random target within `bounds` on every
    /// tick, drawn from a generator seeded with `seed` so that the walk is
    /// reproducible.
    pub fn enable_random_walk(&mut self, seed: u64, bounds: MapBounds)
        requires
            old(self).wf(),
        ensures
            final(self).wf(),
            final(self).walk_bounds() == Some(bounds),
            final(self).grid() == old(self).grid(),
            final(self).ticks() == old(self).ticks(),
            final(self).citizen_seq() == old(self).citizen_seq(),
            final(self).moves() == old(self).moves(),
            final(self).history_count() == old(self).history_count(),
            forall|i: int| #[trigger] final(self).history(i) == old(self).history(i),
    {
        self.random_walk = Some(RandomWalk { rng: Draws::seeded(seed), bounds });
    }

    /// Install a walkable grid from row-major `cells`; from then on ticks
    /// step around obstacles and random targets are walkable tiles.
    pub fn set_walkable_map(&mut self, width: i16, height: i16, cells: Vec<bool>)
        requires
            old(self).wf(),
            cells@.len() == clamp_nonneg(width as int) * clamp_nonneg(height as int),
        ensures
            final(self).wf(),
            final(self).grid() matches Some(g) && g.spec_width() == clamp_nonneg(width as int)
                && g.spec_height() == clamp_nonneg(height as int) && forall|x: int, y: int|
                g.in_bounds(x, y) ==> #[trigger] g.cell(x, y) == cells@[y * g.spec_width() + x],
            final(self).walk_bounds() == old(self).walk_bounds(),
            final(self).ticks() == old(self).ticks(),
            final(self).citizen_seq() == old(self).citizen_seq(),
            final(self).moves() == old(self).moves(),
            final(self).history_count() == old(self).history_count(),
            forall|i: int| #[trigger] final(self).history(i) == old(self).history(i),
    {
        self.walk_grid = Some(WalkGrid::from_row_major(width, height, cells));
    }

    /// The installed walkable grid, if any.
    pub fn walk_grid(&self) -> (g: Option<&WalkGrid>)
        ensures
            grid_of(g) == self.grid(),
    {
        self.walk_grid.as_ref()
    }

    /// Recent tiles of citizen `idx`, oldest first.
    pub fn recent_tiles(&self, idx: usize) -> (v: Vec<TilePos>)
        ensures
            v@ == self.history(idx as int),
    {
        if idx < self.citizen_history.len() {
            deque_to_vec(&self.citizen_history[idx])
        } else {
            Vec::new()
        }
    }

    /// Add a citizen standing on `tile_pos` with no target and an empty
    /// history. Returns its index in `citizens` and `citizen_moves`.
    pub fn spawn_citizen(&mut self, citizen: C, tile_pos: TilePos) -> (idx: usize)
        requires
            old(self).wf(),
        ensures
            final(self).wf(),
            idx == old(self).citizen_seq().len(),
            final(self).citizen_seq() == old(self).citizen_seq().push(citizen),
            final(self).moves() == old(self).moves().push(
                MoveState { tile_pos, prev_tile_pos: tile_pos, move_target: None },
            ),
            final(self).history_count() == old(self).history_count() + 1,
            final(self).history(old(self).history_count() as int) == Seq::<TilePos>::empty(),
            forall|i: int|
                0 <= i < old(self).history_count() ==> #[trigger] final(self).history(i)
                    == old(self).history(i),
            final(self).grid() == old(self).grid(),
            final(self).walk_bounds() == old(self).walk_bounds(),
            final(self).ticks() == old(self).ticks(),
    {
        let idx = self.citizens.len();
        self.citizens.push(citizen);
        self.citizen_moves.push(MoveState::new(tile_pos));
        self.citizen_history.push(VecDeque::with_capacity(HISTORY_LEN));
        idx
    }

    /// Send citizen `idx` toward `target`.
    pub fn set_move_target(&mut self, idx: usize, target: TilePos)
        requires
            idx < old(self).moves().len(),
        ensures
            final(self).moves() == old(self).moves().update(
                idx as int,
                MoveState { move_target: Some(target), ..old(self).moves()[idx as int] },
            ),
            final(self).citizen_seq() == old(self).citizen_seq(),
            final(self).ticks() == old(self).ticks(),
            final(self).grid() == old(self).grid(),
            final(self).walk_bounds() == old(self).walk_bounds(),
            final(self).history_count() == old(self).history_count(),
            forall|i: int| #[trigger] final(self).history(i) == old(self).history(i),
            final(self).wf() == old(self).wf(),
    {
        let mut m = self.citizen_moves[idx];
        m.move_target = Some(target);
        self.citizen_moves.set(idx, m);
    }
}


impl<C> World<C> {
    /// Step every citizen once, around obstacles when a grid is installed.
    fn step_all(&mut self)
        requires
            old(self).wf(),
        ensures
            final(self).wf(),
            final(self).moves().len() == old(self).moves().len(),
            forall|i: int|
                0 <= i < old(self).moves().len() ==> #[trigger] final(self).moves()[i] == moved(
                    old(self).moves()[i],
                    old(self).grid(),
                    old(self).history(i),
                ),
            final(self).ticks() == old(self).ticks(),
            final(self).citizen_seq() == old(self).citizen_seq(),
            final(self).grid() == old(self).grid(),
            final(self).walk_bounds() == old(self).walk_bounds(),
            final(self).history_count() == old(self).history_count(),
            forall|i: int| #[trigger] final(self).history(i) == old(self).history(i),
    {
        let ghost s0 = *self;
        let n = self.citizen_moves.len();
        let mut i: usize = 0;
        while i < n
            invariant
                s0.wf(),
                n == s0.citizen_moves@.len(),
                self.citizen_moves@.len() == n,
                i <= n,
                self.walk_grid == s0.walk_grid,
                self.citizen_history == s0.citizen_history,
                self.random_walk == s0.random_walk,
                self.citizens == s0.citizens,
                self.tick_count == s0.tick_count,
                forall|j: int|
                    0 <= j < i ==> #[trigger] self.citizen_moves@[j] == moved(
                        s0.citizen_moves@[j],
                        s0.walk_grid,
                        s0.history(j),
                    ),
                forall|j: int| i <= j < n ==> #[trigger] self.citizen_moves@[j] == s0.citizen_moves@[j],
            decreases n - i,
        {
            let hist = self.recent_tiles(i);
            let mut m = self.citizen_moves[i];
            match &self.walk_grid {
                Some(g) => {
                    m.step_with_grid(g, hist.as_slice());
                },
                None => {
                    m.step();
                },
            }
            self.citizen_moves.set(i, m);
            i = i + 1;
        }
    }

    /// Append each citizen's current tile to its history.
    fn record_all(&mut self)
        requires
            old(self).wf(),
        ensures
            final(self).wf(),
            final(self).moves() == old(self).moves(),
            final(self).ticks() == old(self).ticks(),
            final(self).citizen_seq() == old(self).citizen_seq(),
            final(self).grid() == old(self).grid(),
            final(self).walk_bounds() == old(self).walk_bounds(),
            final(self).history_count() == old(self).history_count(),
            forall|i: int|
                #[trigger] final(self).history(i) == if 0 <= i < old(self).moves().len() && i
                    < old(self).history_count() {
                    record_tile(old(self).history(i), old(self).moves()[i].tile_pos)
                } else {
                    old(self).history(i)
                },
    {
        let ghost s0 = *self;
        let n = self.citizen_moves.len();
        let mut i: usize = 0;
        while i < n
            invariant
                s0.wf(),
                self.wf(),
                n == s0.citizen_moves@.len(),
                i <= n,
                self.walk_grid == s0.walk_grid,
                self.citizen_moves == s0.citizen_moves,
                self.random_walk == s0.random_walk,
                self.citizens == s0.citizens,
                self.tick_count == s0.tick_count,
                self.citizen_history@.len() == s0.citizen_history@.len(),
                forall|j: int|
                    #[trigger] self.history(j) == if 0 <= j < i && j < s0.history_count() {
                        record_tile(s0.history(j), s0.citizen_moves@[j].tile_pos)
                    } else {
                        s0.history(j)
                    },
            decreases n - i,
        {
            if i < self.citizen_history.len() {
                let tp = self.citizen_moves[i].tile_pos;
                assert(self.history(i as int) == s0.history(i as int));
                assert(self.citizen_history@[i as int]@ == self.history(i as int));
                let updated = recorded(&self.citizen_history[i], tp);
                let ghost before = *self;
                let ghost upd = updated@;
                assert(upd == record_tile(s0.history(i as int), s0.citizen_moves@[i as int].tile_pos));
                self.citizen_history.set(i, updated);
                assert(self.history(i as int) == upd);
                assert forall|j: int| #[trigger] self.history(j) == if 0 <= j < i + 1 && j
                    < s0.history_count() {
                    record_tile(s0.history(j), s0.citizen_moves@[j].tile_pos)
                } else {
                    s0.history(j)
                } by {
                    if j != i {
                        assert(self.history(j) == before.history(j));
                    }
                }
            }
            i = i + 1;
        }
    }

    /// Give every citizen without a target a random one, when the random
    /// walk is enabled.
    fn retarget_idle(&mut self)
        requires
            old(self).wf(),
        ensures
            final(self).wf(),
            final(self).moves().len() == old(self).moves().len(),
            forall|i: int|
                0 <= i < old(self).moves().len() ==> {
                    let b = old(self).moves()[i];
                    let a = #[trigger] final(self).moves()[i];
                    &&& a.tile_pos == b.tile_pos
                    &&& a.prev_tile_pos == b.prev_tile_pos
                    &&& if old(self).walk_bounds() is Some && b.move_target is None {
                        a.move_target is Some && valid_pick(
                            a.move_target->0,
                            b.tile_pos,
                            old(self).walk_bounds()->0,
                            old(self).grid(),
                        )
                    } else {
                        a.move_target == b.move_target
                    }
                },
            final(self).ticks() == old(self).ticks(),
            final(self).citizen_seq() == old(self).citizen_seq(),
            final(self).grid() == old(self).grid(),
            final(self).walk_bounds() == old(self).walk_bounds(),
            final(self).history_count() == old(self).history_count(),
            forall|i: int| #[trigger] final(self).history(i) == old(self).history(i),
    {
        let ghost s0 = *self;
        let taken = self.random_walk.take();
        let mut rw = match taken {
            None => {
                return ;
            },
            Some(rw) => rw,
        };
        let n = self.citizen_moves.len();
        let mut i: usize = 0;
        while i < n
            invariant
                s0.wf(),
                s0.walk_bounds() == Some(rw.bounds),
                n == s0.citizen_moves@.len(),
                self.citizen_moves@.len() == n,
                i <= n,
                self.walk_grid == s0.walk_grid,
                self.citizen_history == s0.citizen_history,
                self.random_walk is None,
                self.citizens == s0.citizens,
                self.tick_count == s0.tick_count,
                forall|j: int|
                    0 <= j < i ==> {
                        let b = s0.citizen_moves@[j];
                        let a = #[trigger] self.citizen_moves@[j];
                        &&& a.tile_pos == b.tile_pos
                        &&& a.prev_tile_pos == b.prev_tile_pos
                        &&& if b.move_target is None {
                            a.move_target is Some && valid_pick(
                                a.move_target->0,
                                b.tile_pos,
                                rw.bounds,
                                s0.walk_grid,
                            )
                        } else {
                            a.move_target == b.move_target
                        }
                    },
                forall|j: int| i <= j < n ==> #[trigger] self.citizen_moves@[j] == s0.citizen_moves@[j],
            decreases n - i,
        {
            let m = self.citizen_moves[i];
            if m.move_target.is_none() {
                let (t, _draws, _ranges) = pick_random_target_on_grid(
                    &mut rw.rng,
                    m.tile_pos,
                    rw.bounds,
                    self.walk_grid.as_ref(),
                );
                let mut m2 = m;
                m2.move_target = Some(t);
                self.citizen_moves.set(i, m2);
            }
            i = i + 1;
        }
        self.random_walk = Some(rw);
    }

    /// Advance the world one tick: the counter goes up, every citizen steps
    /// toward its target (around obstacles when a grid is installed), each
    /// citizen's new tile enters its history, and with the random walk on
    /// every citizen left without a target gets a random one.
    pub fn tick(&mut self)
        requires
            old(self).wf(),
            old(self).ticks() < u32::MAX,
        ensures
            final(self).wf(),
            final(self).ticks() == old(self).ticks() + 1,
            final(self).citizen_seq() == old(self).citizen_seq(),
            final(self).grid() == old(self).grid(),
            final(self).walk_bounds() == old(self).walk_bounds(),
            final(self).moves().len() == old(self).moves().len(),
            forall|i: int|
                0 <= i < old(self).moves().len() ==> after_tick(
                    old(self).moves()[i],
                    #[trigger] final(self).moves()[i],
                    old(self).grid(),
                    old(self).history(i),
                    old(self).walk_bounds(),
                ),
            final(self).history_count() == old(self).history_count(),
            forall|i: int|
                #[trigger] final(self).history(i) == if 0 <= i < old(self).moves().len() && i
                    < old(self).history_count() {
                    record_tile(
                        old(self).history(i),
                        moved(old(self).moves()[i], old(self).grid(), old(self).history(i)).tile_pos,
                    )
                } else {
                    old(self).history(i)
                },
    {
        self.tick_count = self.tick_count + 1;
        let ghost s0 = *self;
        self.step_all();
        let ghost s1 = *self;
        self.record_all();
        let ghost s2 = *self;
        self.retarget_idle();
        assert forall|i: int| 0 <= i < s0.moves().len() implies after_tick(
            s0.moves()[i],
            #[trigger] self.moves()[i],
            s0.grid(),
            s0.history(i),
            s0.walk_bounds(),
        ) by {
            assert(s1.moves()[i] == moved(s0.moves()[i], s0.grid(), s0.history(i)));
            assert(s2.moves()[i] == s1.moves()[i]);
        }
    }
}


impl<C> Default for World<C> {
    /// The same as `World::new`.
    fn default() -> (w: World<C>)
        ensures
            w.wf(),
            w.ticks() == 0,
            w.citizen_seq() == Seq::<C>::empty(),
            w.moves() == Seq::<MoveState>::empty(),
            w.grid() is None,
            w.walk_bounds() is None,
            w.history_count() == 0,
    {
        World::new()
    }
}

/// Whether a tile lies within the random-walk bounds.
pub open spec fn in_walk_bounds(t: TilePos, b: MapBounds) -> bool {
    0 <= t.x < span(b.width) && 0 <= t.y < span(b.height)
}

/// With a grid installed, a citizen standing on a walkable tile still
/// stands on a walkable tile after a tick: ticks never walk into obstacles.
pub proof fn lemma_tick_avoids_blocked(
    before: MoveState,
    after: MoveState,
    grid: WalkGrid,
    history: Seq<TilePos>,
    bounds: Option<MapBounds>,
)
    requires
        grid.wf(),
        after_tick(before, after, Some(grid), history, bounds),
        grid.walkable_at(before.tile_pos.x as int, before.tile_pos.y as int),
    ensures
        grid.walkable_at(after.tile_pos.x as int, after.tile_pos.y as int),
{
    lemma_grid_step_safe(before, grid, history);
}

/// A random walk keeps citizens inside its bounds: a citizen inside the
/// bounds whose target (if any) is inside them is, after a tick, still
/// inside with its target inside, provided that every walkable tile of the
/// grid (if one is installed) lies inside the bounds.
pub proof fn lemma_tick_stays_in_bounds(
    before: MoveState,
    after: MoveState,
    grid: Option<WalkGrid>,
    history: Seq<TilePos>,
    b: MapBounds,
)
    requires
        grid matches Some(g) ==> g.wf() && forall|x: int, y: int|
            #[trigger] g.walkable_at(x, y) ==> 0 <= x < span(b.width) && 0 <= y < span(b.height),
        after_tick(before, after, grid, history, Some(b)),
        in_walk_bounds(before.tile_pos, b),
        before.move_target matches Some(t) ==> in_walk_bounds(t, b),
    ensures
        in_walk_bounds(after.tile_pos, b),
        after.move_target matches Some(t) ==> in_walk_bounds(t, b),
{
    match grid {
        Some(g) => {
            lemma_grid_step_safe(before, g, history);
        },
        None => {},
    }
}

} // verus!
