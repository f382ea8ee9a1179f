//! Wild deer: they wander, flee from nearby humans, may escape off the map
//! edge, and respawn after a countdown.
use vstd::prelude::*;

use crate::pathfinding::{abs_diff, manhattan, TilePos};

verus! {

pub const MAP_W: i16 = 24;

pub const MAP_H: i16 = 14;

/// Ticks an animal stays gone after being killed or escaping.
pub const ANIMAL_RESPAWN_TICKS: u32 = 300;

/// Animals move once every this many ticks.
pub const WANDER_EVERY: u64 = 4;

/// Manhattan distance within which an animal flees from a human.
pub const FLEE_RADIUS: u32 = 6;

/// Minimum Manhattan distance from the escape point to a respawn tile.
pub const MIN_RESPAWN_DIST: u32 = 8;

/// Number of random respawn candidates tried before the corner fallback.
pub const RESPAWN_ATTEMPTS: u32 = 30;

/// Multiplier of the respawn position generator.
pub const LCG_MUL: u64 = 6364136223846793005;

/// Increment of the respawn position generator.
pub const LCG_INC: u64 = 1442695040888963407;

#[derive(Debug, Clone)]
pub struct Animal {
    pub pos: TilePos,
    /// Tile to respawn at after a regular kill.
    pub origin: TilePos,
    pub alive: bool,
    /// Set once when the animal escapes off the map edge.
    pub fled: bool,
    pub respawn_timer: u32,
    /// Position where the animal last escaped; used to pick a far respawn.
    pub escape_pos: Option<TilePos>,
}

/// Whether a tile lies on the map.
pub open spec fn on_map(t: TilePos) -> bool {
    0 <= t.x < MAP_W && 0 <= t.y < MAP_H
}

/// `v` clamped to `[lo, hi]`.
pub open spec fn clamp_int(v: int, lo: int, hi: int) -> int {
    if v < lo {
        lo
    } else if v > hi {
        hi
    } else {
        v
    }
}

/// Tile reached by a random wander step: `seed % 5` picks stay, up, down,
/// left or right, and the result is clamped onto the map.
pub open spec fn wander_tile(pos: TilePos, seed: u64) -> TilePos {
    let dir = seed % 5;
    let nx = if dir == 3 {
        pos.x - 1
    } else if dir == 4 {
        pos.x + 1
    } else {
        pos.x as int
    };
    let ny = if dir == 1 {
        pos.y - 1
    } else if dir == 2 {
        pos.y + 1
    } else {
        pos.y as int
    };
    TilePos { x: clamp_int(nx, 0, MAP_W - 1) as i16, y: clamp_int(ny, 0, MAP_H - 1) as i16 }
}

/// `-1`, `0` or `1` according to the sign of `v`.
pub open spec fn signum(v: int) -> int {
    if v > 0 {
        1
    } else if v < 0 {
        -1
    } else {
        0
    }
}

/// The unit step directly away from `human`: along the axis of larger
/// separation (x on ties), or a seed-chosen direction when on the same tile.
pub open spec fn flee_delta(pos: TilePos, human: TilePos, seed: u64) -> (int, int) {
    let dx = pos.x - human.x;
    let dy = pos.y - human.y;
    if dx == 0 && dy == 0 {
        let r = seed % 4;
        if r == 0 {
            (0, -1)
        } else if r == 1 {
            (0, 1)
        } else if r == 2 {
            (-1, 0)
        } else {
            (1, 0)
        }
    } else if abs_diff(dx, 0) >= abs_diff(dy, 0) {
        (signum(dx), 0)
    } else {
        (0, signum(dy))
    }
}

/// The animal after one flee step away from `human`.
pub open spec fn flee_result(a: Animal, human: TilePos, seed: u64) -> Animal {
    let (mx, my) = flee_delta(a.pos, human, seed);
    let nx = a.pos.x + mx;
    let ny = a.pos.y + my;
    if !(0 <= nx < MAP_W && 0 <= ny < MAP_H) {
        Animal {
            alive: false,
            fled: true,
            escape_pos: Some(a.pos),
            respawn_timer: ANIMAL_RESPAWN_TICKS,
            ..a
        }
    } else {
        Animal { pos: TilePos { x: nx as i16, y: ny as i16 }, ..a }
    }
}

/// The animal after `flee_or_wander(nearest_human, seed)`.
pub open spec fn flee_or_wander_result(a: Animal, nearest_human: Option<TilePos>, seed: u64) -> Animal {
    if !a.alive {
        a
    } else if nearest_human is Some && manhattan(a.pos, nearest_human->0) <= FLEE_RADIUS {
        flee_result(a, nearest_human->0, seed)
    } else {
        Animal { pos: wander_tile(a.pos, seed), ..a }
    }
}

/// Next state of the 64-bit linear congruential generator.
pub open spec fn lcg_next(s: u64) -> u64 {
    ((s * LCG_MUL + LCG_INC) % 0x1_0000_0000_0000_0000) as u64
}

/// The respawn candidate derived from generator state `s`.
pub open spec fn lcg_candidate(s: u64) -> TilePos {
    TilePos {
        x: (((s / 0x2_0000_0000) as u32) % (MAP_W as u32)) as i16,
        y: ((((s / 0x2_0000) % 0x1_0000_0000) as u32) % (MAP_H as u32)) as i16,
    }
}

/// Corner of the map on the far side from `escape`.
pub open spec fn far_corner(escape: TilePos) -> TilePos {
    TilePos {
        x: if escape.x < MAP_W / 2 {
            (MAP_W - 4) as i16
        } else {
            3
        },
        y: if escape.y < MAP_H / 2 {
            (MAP_H - 4) as i16
        } else {
            3
        },
    }
}

/// Respawn tile search: advance the generator, accept the first candidate at
/// least `MIN_RESPAWN_DIST` from `escape` within `attempts` tries, otherwise
/// use the far corner.
pub open spec fn respawn_search(s: u64, escape: TilePos, attempts: nat) -> TilePos
    decreases attempts,
{
    if attempts == 0 {
        far_corner(escape)
    } else {
        let s2 = lcg_next(s);
        let c = lcg_candidate(s2);
        if manhattan(c, escape) >= MIN_RESPAWN_DIST {
            c
        } else {
            respawn_search(s2, escape, (attempts - 1) as nat)
        }
    }
}

/// Where an animal respawns: its origin after a kill, or a tile far from
/// the escape point after fleeing.
pub open spec fn respawn_tile(a: Animal, seed: u64) -> TilePos {
    match a.escape_pos {
        None => a.origin,
        Some(e) => respawn_search(seed, e, RESPAWN_ATTEMPTS as nat),
    }
}

/// The animal after one `tick_respawn(seed)`.
pub open spec fn tick_respawn_result(a: Animal, seed: u64) -> Animal {
    if a.alive {
        a
    } else {
        let timer = if a.respawn_timer > 0 {
            (a.respawn_timer - 1) as u32
        } else {
            0
        };
        if timer == 0 {
            Animal { alive: true, pos: respawn_tile(a, seed), escape_pos: None, respawn_timer: 0, ..a }
        } else {
            Animal { respawn_timer: timer, ..a }
        }
    }
}

/// The animal after one `tick_respawn` per seed, in order.
pub open spec fn tick_respawn_all(a: Animal, seeds: Seq<u64>) -> Animal
    decreases seeds.len(),
{
    if seeds.len() == 0 {
        a
    } else {
        tick_respawn_all(tick_respawn_result(a, seeds[0]), seeds.drop_first())
    }
}

/// A random wander step always ends on the map.
pub proof fn lemma_wander_on_map(pos: TilePos, seed: u64)
    ensures
        on_map(wander_tile(pos, seed)),
{
}

/// Fleeing moves directly away: an animal that stays on the map ends one
/// tile farther (Manhattan) from the human; one that would leave the map
/// escapes instead, remembering where it left.
pub proof fn lemma_flee_moves_away(a: Animal, human: TilePos, seed: u64)
    requires
        a.alive,
    ensures
        flee_result(a, human, seed).alive ==> a.alive && manhattan(
            flee_result(a, human, seed).pos,
            human,
        ) == manhattan(a.pos, human) + 1,
        !flee_result(a, human, seed).alive ==> flee_result(a, human, seed).fled
            && flee_result(a, human, seed).escape_pos == Some(a.pos) && flee_result(
            a,
            human,
            seed,
        ).respawn_timer == ANIMAL_RESPAWN_TICKS,
{
}

/// A live animal reacts to where it stands now: when its current tile is
/// within `FLEE_RADIUS` (Manhattan) of the nearest human, it ends one tile
/// farther from that human or escapes from where it stood; when it is
/// farther away, it stays alive and moves at most one tile (it wanders).
pub proof fn lemma_flee_reacts_to_current_position(a: Animal, human: TilePos, seed: u64)
    requires
        a.alive,
        0 <= a.pos.x < MAP_W && 0 <= a.pos.y < MAP_H,
    ensures
        ({
            let n = flee_or_wander_result(a, Some(human), seed);
            let dx = if a.pos.x >= human.x { a.pos.x - human.x } else { human.x - a.pos.x };
            let dy = if a.pos.y >= human.y { a.pos.y - human.y } else { human.y - a.pos.y };
            let ndx = if n.pos.x >= human.x { n.pos.x - human.x } else { human.x - n.pos.x };
            let ndy = if n.pos.y >= human.y { n.pos.y - human.y } else { human.y - n.pos.y };
            let mx = if n.pos.x >= a.pos.x { n.pos.x - a.pos.x } else { a.pos.x - n.pos.x };
            let my = if n.pos.y >= a.pos.y { n.pos.y - a.pos.y } else { a.pos.y - n.pos.y };
            &&& dx + dy <= 6 ==> (n.alive && ndx + ndy == dx + dy + 1) || (!n.alive && n.fled
                && n.pos == a.pos && n.escape_pos == Some(a.pos))
            &&& dx + dy > 6 ==> n.alive && n.fled == a.fled && mx + my <= 1
        }),
{
    lemma_flee_moves_away(a, human, seed);
}

/// A live animal on the map is, after `flee_or_wander`, either still alive
/// on the map or escaped (not alive, `fled` set). A dead animal is unchanged.
pub proof fn lemma_flee_or_wander_on_map(a: Animal, nearest_human: Option<TilePos>, seed: u64)
    requires
        a.alive ==> on_map(a.pos),
    ensures
        !a.alive ==> flee_or_wander_result(a, nearest_human, seed) == a,
        a.alive && flee_or_wander_result(a, nearest_human, seed).alive ==> on_map(
            flee_or_wander_result(a, nearest_human, seed).pos,
        ),
        a.alive && !flee_or_wander_result(a, nearest_human, seed).alive
            ==> flee_or_wander_result(a, nearest_human, seed).fled,
{
}

/// The far corner is always at least `MIN_RESPAWN_DIST` from the escape
/// point.
proof fn lemma_far_corner(escape: TilePos)
    ensures
        manhattan(far_corner(escape), escape) >= MIN_RESPAWN_DIST,
        on_map(far_corner(escape)),
{
}

/// Every respawn candidate lies on the map.
proof fn lemma_candidate_on_map(s: u64)
    ensures
        on_map(lcg_candidate(s)),
{
}

/// After fleeing, the respawn tile is on the map and at least
/// `MIN_RESPAWN_DIST` (Manhattan) from the escape point.
pub proof fn lemma_respawn_far(s: u64, escape: TilePos, attempts: nat)
    ensures
        manhattan(respawn_search(s, escape, attempts), escape) >= MIN_RESPAWN_DIST,
        on_map(respawn_search(s, escape, attempts)),
    decreases attempts,
{
    if attempts == 0 {
        lemma_far_corner(escape);
    } else {
        lemma_candidate_on_map(lcg_next(s));
        lemma_respawn_far(lcg_next(s), escape, (attempts - 1) as nat);
    }
}

/// A killed animal revives at its origin after exactly its countdown has
/// run out, whatever seeds the ticks use, and stays dead before that.
pub proof fn lemma_killed_revives_at_origin(a: Animal, seeds: Seq<u64>)
    requires
        !a.alive,
        a.escape_pos is None,
        a.respawn_timer >= 1,
        seeds.len() == a.respawn_timer,
    ensures
        tick_respawn_all(a, seeds).alive,
        tick_respawn_all(a, seeds).pos == a.origin,
        forall|k: int|
            0 <= k < seeds.len() ==> !(#[trigger] tick_respawn_all(a, seeds.take(k))).alive,
    decreases seeds.len(),
{
    let a1 = tick_respawn_result(a, seeds[0]);
    assert(tick_respawn_all(a, seeds.take(0)) == a) by {
        assert(seeds.take(0).len() == 0);
    }
    if a.respawn_timer == 1 {
        assert(seeds.drop_first().len() == 0);
        assert(tick_respawn_all(a, seeds) == tick_respawn_all(a1, seeds.drop_first()));
    } else {
        lemma_killed_revives_at_origin(a1, seeds.drop_first());
        assert forall|k: int| 0 <= k < seeds.len() implies !(#[trigger] tick_respawn_all(
            a,
            seeds.take(k),
        )).alive by {
            if k > 0 {
                assert(seeds.take(k).drop_first() == seeds.drop_first().take(k - 1));
                assert(seeds.take(k)[0] == seeds[0]);
                assert(tick_respawn_all(a, seeds.take(k)) == tick_respawn_all(
                    a1,
                    seeds.drop_first().take(k - 1),
                ));
                assert(!tick_respawn_all(a1, seeds.drop_first().take(k - 1)).alive);
            } else {
                assert(seeds.take(k).len() == 0);
            }
        }
    }
}

fn signum_i32(v: i32) -> (r: i32)
    ensures
        r == signum(v as int),
{
    if v > 0 {
        1
    } else if v < 0 {
        -1
    } else {
        0
    }
}

impl Animal {
    /// A live deer standing on `pos`, which is also its respawn origin.
    pub fn deer(pos: TilePos) -> (a: Animal)
        ensures
            a.pos == pos,
            a.origin == pos,
            a.alive,
            !a.fled,
            a.respawn_timer == 0,
            a.escape_pos is None,
    {
        Animal { pos, origin: pos, alive: true, fled: false, respawn_timer: 0, escape_pos: None }
    }

    /// Move one step: flee from `nearest_human` if it is within
    /// `FLEE_RADIUS`, else wander. Fleeing off the map marks the animal as
    /// escaped (`fled`, not alive) instead of moving it. Dead animals stay
    /// put.
    pub fn flee_or_wander(&mut self, nearest_human: Option<TilePos>, seed: u64)
        ensures
            *final(self) == flee_or_wander_result(*old(self), nearest_human, seed),
    {
        if !self.alive {
            return ;
        }
        if let Some(human) = nearest_human {
            let dist = self.pos.manhattan_dist(human);
            if dist <= FLEE_RADIUS {
                self.flee_step(human, seed);
                return ;
            }
        }
        let dir = seed % 5;
        let x = self.pos.x as i32;
        let y = self.pos.y as i32;
        let nx: i32 = if dir == 3 {
            x - 1
        } else if dir == 4 {
            x + 1
        } else {
            x
        };
        let ny: i32 = if dir == 1 {
            y - 1
        } else if dir == 2 {
            y + 1
        } else {
            y
        };
        let cx: i32 = if nx < 0 {
            0
        } else if nx > (MAP_W - 1) as i32 {
            (MAP_W - 1) as i32
        } else {
            nx
        };
        let cy: i32 = if ny < 0 {
            0
        } else if ny > (MAP_H - 1) as i32 {
            (MAP_H - 1) as i32
        } else {
            ny
        };
        self.pos = TilePos::new(cx as i16, cy as i16);
    }

    /// Move one tile directly away from `human_pos`; stepping off the map
    /// means the animal escaped.
    fn flee_step(&mut self, human_pos: TilePos, seed: u64)
        ensures
            *final(self) == flee_result(*old(self), human_pos, seed),
    {
        let dx: i32 = self.pos.x as i32 - human_pos.x as i32;
        let dy: i32 = self.pos.y as i32 - human_pos.y as i32;
        let adx: i32 = if dx >= 0 {
            dx
        } else {
            -dx
        };
        let ady: i32 = if dy >= 0 {
            dy
        } else {
            -dy
        };
        let (mx, my): (i32, i32) = if dx == 0 && dy == 0 {
            let r = seed % 4;
            if r == 0 {
                (0, -1)
            } else if r == 1 {
                (0, 1)
            } else if r == 2 {
                (-1, 0)
            } else {
                (1, 0)
            }
        } else if adx >= ady {
            (signum_i32(dx), 0)
        } else {
            (0, signum_i32(dy))
        };
        let nx: i32 = self.pos.x as i32 + mx;
        let ny: i32 = self.pos.y as i32 + my;
        if !(0 <= nx && nx < MAP_W as i32 && 0 <= ny && ny < MAP_H as i32) {
            self.alive = false;
            self.fled = true;
            self.escape_pos = Some(self.pos);
            self.respawn_timer = ANIMAL_RESPAWN_TICKS;
        } else {
            self.pos = TilePos::new(nx as i16, ny as i16);
        }
    }

    /// Kill this animal (hunted) and start the respawn countdown; it will
    /// come back at its origin.
    pub fn kill(&mut self)
        ensures
            *final(self) == (Animal {
                alive: false,
                fled: false,
                escape_pos: None,
                respawn_timer: ANIMAL_RESPAWN_TICKS,
                ..*old(self)
            }),
    {
        self.alive = false;
        self.fled = false;
        self.escape_pos = None;
        self.respawn_timer = ANIMAL_RESPAWN_TICKS;
    }

    /// Advance the respawn countdown; when it reaches zero the animal
    /// revives at `respawn_tile`.
    pub fn tick_respawn(&mut self, seed: u64)
        ensures
            *final(self) == tick_respawn_result(*old(self), seed),
    {
        if self.alive {
            return ;
        }
        if self.respawn_timer > 0 {
            self.respawn_timer = self.respawn_timer - 1;
        }
        if self.respawn_timer == 0 {
            self.alive = true;
            self.pos = self.pick_respawn_pos(seed);
            self.escape_pos = None;
        }
    }

    fn pick_respawn_pos(&self, seed: u64) -> (t: TilePos)
        ensures
            t == respawn_tile(*self, seed),
    {
        let escape = match self.escape_pos {
            None => {
                return self.origin;
            },
            Some(e) => e,
        };
        let mut s: u64 = seed;
        let mut k: u32 = 0;
        while k < RESPAWN_ATTEMPTS
            invariant
                k <= RESPAWN_ATTEMPTS,
                self.escape_pos == Some(escape),
                respawn_search(s, escape, (RESPAWN_ATTEMPTS - k) as nat) == respawn_tile(
                    *self,
                    seed,
                ),
            decreases RESPAWN_ATTEMPTS - k,
        {
            let ghost s_old = s;
            s = s.wrapping_mul(LCG_MUL).wrapping_add(LCG_INC);
            proof {
                lemma_lcg_step(s_old, s);
            }
            let x = (((s >> 33u32) as u32) % (MAP_W as u32)) as i16;
            let y = (((s >> 17u32) as u32) % (MAP_H as u32)) as i16;
            proof {
                lemma_candidate(s, x, y);
            }
            let candidate = TilePos::new(x, y);
            if candidate.manhattan_dist(escape) >= MIN_RESPAWN_DIST {
                return candidate;
            }
            k = k + 1;
        }
        let fx: i16 = if escape.x < MAP_W / 2 {
            MAP_W - 4
        } else {
            3
        };
        let fy: i16 = if escape.y < MAP_H / 2 {
            MAP_H - 4
        } else {
            3
        };
        TilePos::new(fx, fy)
    }

    /// Animals move on ticks that are multiples of `WANDER_EVERY`.
    pub fn should_wander(tick_count: u64) -> (b: bool)
        ensures
            b == (tick_count % WANDER_EVERY == 0),
    {
        tick_count % WANDER_EVERY == 0
    }
}

proof fn lemma_lcg_step(s_old: u64, s: u64)
    requires
        s == (s_old * LCG_MUL % 0x1_0000_0000_0000_0000 + LCG_INC) % 0x1_0000_0000_0000_0000,
    ensures
        s == lcg_next(s_old),
{
    let m: int = 0x1_0000_0000_0000_0000;
    let a = s_old * LCG_MUL;
    assert((a % m + LCG_INC) % m == (a + LCG_INC) % m) by (nonlinear_arith)
        requires
            m > 0,
            a >= 0,
    {
        vstd::arithmetic::div_mod::lemma_add_mod_noop(a, LCG_INC as int, m);
        vstd::arithmetic::div_mod::lemma_mod_twice(LCG_INC as int, m);
    }
}

proof fn lemma_candidate(s: u64, x: i16, y: i16)
    requires
        x == (((s >> 33u32) as u32) % (MAP_W as u32)) as i16,
        y == (((s >> 17u32) as u32) % (MAP_H as u32)) as i16,
    ensures
        lcg_candidate(s) == (TilePos { x, y }),
{
    assert(s >> 33u32 == s / 0x2_0000_0000) by (bit_vector);
    assert(((s >> 17u32) as u32) == ((s / 0x2_0000) % 0x1_0000_0000) as u32) by (bit_vector);
}

} // verus!
