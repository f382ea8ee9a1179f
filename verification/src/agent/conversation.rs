//! Who starts a conversation this tick: idle citizens are paired greedily
//! with a nearby idle partner, each citizen in at most one conversation.
//! Positions, distances and the random roll are floating point and are
//! handled by the caller, which hands in a closeness matrix and a rotation.
use vstd::prelude::*;

use crate::agent::behavior::BehaviorState;

verus! {

#[derive(Debug, Clone, PartialEq)]
pub struct ConversationRequest {
    pub initiator: String,
    pub partner: String,
}

/// Indices of the idle citizens, ascending.
pub open spec fn idle_positions(states: Seq<BehaviorState>) -> Seq<int>
    decreases states.len(),
{
    if states.len() == 0 {
        Seq::empty()
    } else if states.last() == BehaviorState::Idle {
        idle_positions(states.drop_last()).push(states.len() - 1)
    } else {
        idle_positions(states.drop_last())
    }
}

/// `order` rotated left by `offset` modulo its length (unrotated when it
/// has at most one element).
pub open spec fn rotated(order: Seq<int>, offset: nat) -> Seq<int> {
    if order.len() <= 1 {
        order
    } else {
        let k = (offset % order.len()) as int;
        order.skip(k) + order.take(k)
    }
}

/// Whether citizens `a` and `b` are close enough to talk.
pub open spec fn is_close(close: Seq<Seq<bool>>, a: int, b: int) -> bool {
    close[a][b]
}

/// First position at or after `j` that is free and close to the citizen at
/// position `i`.
pub open spec fn partner_from(
    order: Seq<int>,
    close: Seq<Seq<bool>>,
    used: Set<int>,
    i: int,
    j: int,
) -> Option<int>
    decreases order.len() - j,
{
    if j >= order.len() || j < 0 {
        None
    } else if !used.contains(j) && is_close(close, order[i], order[j]) {
        Some(j)
    } else {
        partner_from(order, close, used, i, j + 1)
    }
}

/// Greedy pairing over positions `i..` of `order`: each free position takes
/// the first later free position that is close to it.
pub open spec fn greedy(order: Seq<int>, close: Seq<Seq<bool>>, used: Set<int>, i: int) -> Seq<
    (int, int),
>
    decreases order.len() - i,
{
    if i >= order.len() || i < 0 {
        Seq::empty()
    } else if used.contains(i) {
        greedy(order, close, used, i + 1)
    } else {
        match partner_from(order, close, used, i, i + 1) {
            Some(j) => seq![(i, j)] + greedy(order, close, used.insert(i).insert(j), i + 1),
            None => greedy(order, close, used, i + 1),
        }
    }
}

/// The order in which idle citizens get to initiate.
pub open spec fn initiation_order(states: Seq<BehaviorState>, offset: nat) -> Seq<int> {
    rotated(idle_positions(states), offset)
}

/// The conversations, as (initiator, partner) citizen indices.
pub open spec fn conversation_pairs(
    states: Seq<BehaviorState>,
    close: Seq<Seq<bool>>,
    offset: nat,
) -> Seq<(int, int)> {
    let order = initiation_order(states, offset);
    greedy(order, close, Set::empty(), 0).map_values(|pq: (int, int)| (order[pq.0], order[pq.1]))
}

/// Whether `p` is one of the positions in `pairs`.
pub open spec fn pairs_mention(pairs: Seq<(int, int)>, p: int) -> bool {
    exists|k: int| 0 <= k < pairs.len() && (pairs[k].0 == p || pairs[k].1 == p)
}

proof fn lemma_partner_from(order: Seq<int>, close: Seq<Seq<bool>>, used: Set<int>, i: int, j: int)
    requires
        0 <= i < order.len(),
        0 <= j,
    ensures
        match partner_from(order, close, used, i, j) {
            Some(k) => j <= k < order.len() && !used.contains(k) && is_close(
                close,
                order[i],
                order[k],
            ) && forall|q: int|
                j <= q < k ==> used.contains(q) || !is_close(close, order[i], order[q]),
            None => forall|q: int|
                j <= q < order.len() ==> used.contains(q) || !is_close(close, order[i], order[q]),
        },
    decreases order.len() - j,
{
    if j < order.len() && !(!used.contains(j) && is_close(close, order[i], order[j])) {
        lemma_partner_from(order, close, used, i, j + 1);
    }
}

/// Pairs of the greedy pass are ordered, use only free positions from `i`
/// on, and never share a position.
pub proof fn lemma_greedy_disjoint(order: Seq<int>, close: Seq<Seq<bool>>, used: Set<int>, i: int)
    requires
        0 <= i,
    ensures
        forall|k: int|
            0 <= k < greedy(order, close, used, i).len() ==> {
                let (p, q) = #[trigger] greedy(order, close, used, i)[k];
                &&& i <= p < q < order.len()
                &&& !used.contains(p) && !used.contains(q)
                &&& is_close(close, order[p], order[q])
            },
        forall|k: int, l: int|
            0 <= k < l < greedy(order, close, used, i).len() ==> {
                let a = #[trigger] greedy(order, close, used, i)[k];
                let b = #[trigger] greedy(order, close, used, i)[l];
                a.0 != b.0 && a.0 != b.1 && a.1 != b.0 && a.1 != b.1
            },
    decreases order.len() - i,
{
    if i >= order.len() {
        assert(greedy(order, close, used, i).len() == 0);
    } else if used.contains(i) {
        lemma_greedy_disjoint(order, close, used, i + 1);
        assert(greedy(order, close, used, i) == greedy(order, close, used, i + 1));
    } else {
        lemma_partner_from(order, close, used, i, i + 1);
        match partner_from(order, close, used, i, i + 1) {
            Some(j) => {
                let used2 = used.insert(i).insert(j);
                lemma_greedy_disjoint(order, close, used2, i + 1);
                let rest = greedy(order, close, used2, i + 1);
                let all = greedy(order, close, used, i);
                assert(all == seq![(i, j)] + rest);
                assert forall|k: int| 0 <= k < all.len() implies {
                    let (p, q) = #[trigger] all[k];
                    &&& i <= p < q < order.len()
                    &&& !used.contains(p) && !used.contains(q)
                    &&& is_close(close, order[p], order[q])
                } by {
                    if k > 0 {
                        assert(all[k] == rest[k - 1]);
                    }
                }
                assert forall|k: int, l: int| 0 <= k < l < all.len() implies {
                    let a = #[trigger] all[k];
                    let b = #[trigger] all[l];
                    a.0 != b.0 && a.0 != b.1 && a.1 != b.0 && a.1 != b.1
                } by {
                    assert(all[l] == rest[l - 1]);
                    if k > 0 {
                        assert(all[k] == rest[k - 1]);
                    } else {
                        let b = rest[l - 1];
                        assert(!used2.contains(b.0) && !used2.contains(b.1));
                    }
                }
            },
            None => {
                lemma_greedy_disjoint(order, close, used, i + 1);
                assert(greedy(order, close, used, i) == greedy(order, close, used, i + 1));
            },
        }
    }
}

/// The greedy pass is maximal: no two free positions from `i` on that it
/// left unpaired are close, earlier to later.
pub proof fn lemma_greedy_maximal(order: Seq<int>, close: Seq<Seq<bool>>, used: Set<int>, i: int)
    requires
        0 <= i,
    ensures
        forall|p: int, q: int|
            i <= p < q < order.len() && !used.contains(p) && !used.contains(q) && !pairs_mention(
                greedy(order, close, used, i),
                p,
            ) && !pairs_mention(greedy(order, close, used, i), q) ==> !is_close(
                close,
                order[p],
                order[q],
            ),
    decreases order.len() - i,
{
    if i >= order.len() {
    } else if used.contains(i) {
        lemma_greedy_maximal(order, close, used, i + 1);
    } else {
        lemma_partner_from(order, close, used, i, i + 1);
        let all = greedy(order, close, used, i);
        match partner_from(order, close, used, i, i + 1) {
            Some(j) => {
                let used2 = used.insert(i).insert(j);
                lemma_greedy_maximal(order, close, used2, i + 1);
                let rest = greedy(order, close, used2, i + 1);
                assert(all == seq![(i, j)] + rest);
                assert forall|p: int, q: int|
                    i <= p < q < order.len() && !used.contains(p) && !used.contains(q)
                        && !pairs_mention(all, p) && !pairs_mention(all, q) implies !is_close(
                    close,
                    order[p],
                    order[q],
                ) by {
                    assert(all[0] == (i, j));
                    assert(p != i && p != j && q != i && q != j);
                    assert(!pairs_mention(rest, p)) by {
                        if pairs_mention(rest, p) {
                            let k = choose|k: int|
                                0 <= k < rest.len() && (rest[k].0 == p || rest[k].1 == p);
                            assert(all[k + 1] == rest[k]);
                        }
                    }
                    assert(!pairs_mention(rest, q)) by {
                        if pairs_mention(rest, q) {
                            let k = choose|k: int|
                                0 <= k < rest.len() && (rest[k].0 == q || rest[k].1 == q);
                            assert(all[k + 1] == rest[k]);
                        }
                    }
                }
            },
            None => {
                lemma_greedy_maximal(order, close, used, i + 1);
                assert forall|p: int, q: int|
                    i <= p < q < order.len() && !used.contains(p) && !used.contains(q)
                        && !pairs_mention(all, p) && !pairs_mention(all, q) implies !is_close(
                    close,
                    order[p],
                    order[q],
                ) by {
                    if p == i {
                    }
                }
            },
        }
    }
}

proof fn lemma_idle_positions(states: Seq<BehaviorState>)
    ensures
        forall|k: int|
            0 <= k < idle_positions(states).len() ==> 0 <= #[trigger] idle_positions(states)[k]
                < states.len() && states[idle_positions(states)[k]] == BehaviorState::Idle,
        forall|k: int, l: int|
            0 <= k < l < idle_positions(states).len() ==> #[trigger] idle_positions(states)[k]
                < #[trigger] idle_positions(states)[l],
    decreases states.len(),
{
    if states.len() > 0 {
        let prev = states.drop_last();
        lemma_idle_positions(prev);
        assert forall|k: int| 0 <= k < idle_positions(prev).len() implies states[idle_positions(
            prev,
        )[k]] == prev[idle_positions(prev)[k]] by {}
    }
}

proof fn lemma_rotated_index(n: int, offset: nat)
    ensures
        forall|j: int| 0 <= j < n ==> 0 <= #[trigger] rotated_index(j, n, offset) < n,
        forall|j1: int, j2: int|
            0 <= j1 < n && 0 <= j2 < n && j1 != j2 ==> #[trigger] rotated_index(j1, n, offset)
                != #[trigger] rotated_index(j2, n, offset),
{
}

proof fn lemma_rotated(order: Seq<int>, offset: nat)
    ensures
        rotated(order, offset).len() == order.len(),
        forall|j: int|
            0 <= j < order.len() ==> #[trigger] rotated(order, offset)[j] == order[rotated_index(
                j,
                order.len() as int,
                offset,
            )],
{
}

/// Every conversation pairs two different idle citizens who are close,
/// and no citizen is in two conversations.
pub proof fn lemma_conversations_well_formed(
    states: Seq<BehaviorState>,
    close: Seq<Seq<bool>>,
    offset: nat,
)
    ensures
        forall|k: int|
            0 <= k < conversation_pairs(states, close, offset).len() ==> {
                let (a, b) = #[trigger] conversation_pairs(states, close, offset)[k];
                &&& 0 <= a < states.len() && 0 <= b < states.len() && a != b
                &&& states[a] == BehaviorState::Idle && states[b] == BehaviorState::Idle
                &&& is_close(close, a, b)
            },
        forall|k: int, l: int|
            0 <= k < l < conversation_pairs(states, close, offset).len() ==> {
                let x = #[trigger] conversation_pairs(states, close, offset)[k];
                let y = #[trigger] conversation_pairs(states, close, offset)[l];
                x.0 != y.0 && x.0 != y.1 && x.1 != y.0 && x.1 != y.1
            },
{
    let ip = idle_positions(states);
    let order = initiation_order(states, offset);
    let g = greedy(order, close, Set::empty(), 0);
    let pairs = conversation_pairs(states, close, offset);
    lemma_idle_positions(states);
    lemma_rotated(ip, offset);
    lemma_rotated_index(ip.len() as int, offset);
    lemma_greedy_disjoint(order, close, Set::empty(), 0);
    assert forall|p: int, q: int|
        0 <= p < order.len() && 0 <= q < order.len() && p != q implies #[trigger] order[p]
        != #[trigger] order[q] by {
        let ip_p = rotated_index(p, ip.len() as int, offset);
        let ip_q = rotated_index(q, ip.len() as int, offset);
        if ip_p < ip_q {
            assert(ip[ip_p] < ip[ip_q]);
        } else {
            assert(ip[ip_q] < ip[ip_p]);
        }
    }
    assert forall|p: int| 0 <= p < order.len() implies 0 <= #[trigger] order[p] < states.len()
        && states[order[p]] == BehaviorState::Idle by {
        assert(order[p] == ip[rotated_index(p, ip.len() as int, offset)]);
    }
    assert forall|k: int| 0 <= k < pairs.len() implies {
        let (a, b) = #[trigger] pairs[k];
        &&& 0 <= a < states.len() && 0 <= b < states.len() && a != b
        &&& states[a] == BehaviorState::Idle && states[b] == BehaviorState::Idle
        &&& is_close(close, a, b)
    } by {
        let (p, q) = g[k];
        assert(pairs[k] == (order[p], order[q]));
    }
    assert forall|k: int, l: int| 0 <= k < l < pairs.len() implies {
        let x = #[trigger] pairs[k];
        let y = #[trigger] pairs[l];
        x.0 != y.0 && x.0 != y.1 && x.1 != y.0 && x.1 != y.1
    } by {
        assert(pairs[k] == (order[g[k].0], order[g[k].1]));
        assert(pairs[l] == (order[g[l].0], order[g[l].1]));
    }
}

/// Idle citizens left out of every conversation are not close to each
/// other, for the earlier of the two in initiation order.
pub proof fn lemma_conversations_maximal(
    states: Seq<BehaviorState>,
    close: Seq<Seq<bool>>,
    offset: nat,
    p: int,
    q: int,
)
    requires
        0 <= p < q < initiation_order(states, offset).len(),
        !pairs_mention(greedy(initiation_order(states, offset), close, Set::empty(), 0), p),
        !pairs_mention(greedy(initiation_order(states, offset), close, Set::empty(), 0), q),
    ensures
        !is_close(
            close,
            initiation_order(states, offset)[p],
            initiation_order(states, offset)[q],
        ),
{
    lemma_greedy_maximal(initiation_order(states, offset), close, Set::empty(), 0);
}

/// The behavior states of `(name, state)` entries.
pub open spec fn states_of(citizens: Seq<(String, BehaviorState)>) -> Seq<BehaviorState> {
    citizens.map_values(|c: (String, BehaviorState)| c.1)
}

/// A closeness matrix as nested sequences.
pub open spec fn close_view(close: Seq<Vec<bool>>) -> Seq<Seq<bool>> {
    close.map_values(|row: Vec<bool>| row@)
}

/// Indices as integers.
pub open spec fn idx_view(v: Seq<usize>) -> Seq<int> {
    v.map_values(|x: usize| x as int)
}

fn idle_list(citizens: &Vec<(String, BehaviorState)>) -> (v: Vec<usize>)
    ensures
        idx_view(v@) == idle_positions(states_of(citizens@)),
        forall|k: int| 0 <= k < v@.len() ==> (#[trigger] v@[k]) < citizens@.len(),
{
    let ghost states = states_of(citizens@);
    let mut v: Vec<usize> = Vec::new();
    let mut i: usize = 0;
    while i < citizens.len()
        invariant
            i <= citizens@.len(),
            states == states_of(citizens@),
            idx_view(v@) == idle_positions(states.take(i as int)),
            forall|k: int| 0 <= k < v@.len() ==> (#[trigger] v@[k]) < i,
        decreases citizens@.len() - i,
    {
        assert(states.take(i + 1).drop_last() =~= states.take(i as int));
        assert(states.take(i + 1).last() == citizens@[i as int].1);
        if citizens[i].1 == BehaviorState::Idle {
            v.push(i);
            assert(idx_view(v@) =~= idle_positions(states.take(i as int)).push(i as int));
        }
        i = i + 1;
    }
    assert(states.take(citizens@.len() as int) =~= states);
    v
}

/// How many citizens are idle.
pub fn idle_count(citizens: &Vec<(String, BehaviorState)>) -> (n: usize)
    ensures
        n == idle_positions(states_of(citizens@)).len(),
{
    let v = idle_list(citizens);
    v.len()
}

/// Source index of position `j` after rotating a sequence of length `n`
/// left by `offset`.
spec fn rotated_index(j: int, n: int, offset: nat) -> int {
    if n <= 1 {
        j
    } else {
        let k = (offset % (n as nat)) as int;
        if j < n - k {
            j + k
        } else {
            j + k - n
        }
    }
}

fn rotate(v: &Vec<usize>, offset: usize) -> (r: Vec<usize>)
    ensures
        idx_view(r@) == rotated(idx_view(v@), offset as nat),
        r@.len() == v@.len(),
        forall|j: int|
            0 <= j < r@.len() ==> #[trigger] r@[j] == v@[rotated_index(
                j,
                v@.len() as int,
                offset as nat,
            )] && 0 <= rotated_index(j, v@.len() as int, offset as nat) < v@.len(),
{
    let n = v.len();
    if n <= 1 {
        let mut r: Vec<usize> = Vec::new();
        if n == 1 {
            r.push(v[0]);
        }
        assert(r@ =~= v@);
        return r;
    }
    let k = offset % n;
    let mut r: Vec<usize> = Vec::new();
    let mut i: usize = 0;
    while i < n
        invariant
            n == v@.len(),
            n > 1,
            k == offset % n,
            i <= n,
            r@.len() == i,
            forall|j: int|
                0 <= j < i ==> #[trigger] r@[j] == v@[rotated_index(j, n as int, offset as nat)],
        decreases n - i,
    {
        let idx = if i < n - k {
            i + k
        } else {
            i - (n - k)
        };
        r.push(v[idx]);
        i = i + 1;
    }
    assert(idx_view(r@) =~= idx_view(v@).skip(k as int) + idx_view(v@).take(k as int)) by {
        assert forall|j: int| 0 <= j < n implies #[trigger] idx_view(r@)[j] == (idx_view(v@).skip(
            k as int,
        ) + idx_view(v@).take(k as int))[j] by {
            assert(r@[j] == v@[rotated_index(j, n as int, offset as nat)]);
        }
    }
    r
}

/// Pair idle citizens for conversations. `close[a][b]` says whether
/// citizens `a` and `b` stand close enough; the idle citizens, in list
/// order rotated left by `offset`, each take the first later free idle
/// citizen close to them. Every citizen is in at most one conversation.
pub fn pair_conversations(
    citizens: &Vec<(String, BehaviorState)>,
    close: &Vec<Vec<bool>>,
    offset: usize,
) -> (r: Vec<ConversationRequest>)
    requires
        close@.len() == citizens@.len(),
        forall|a: int| 0 <= a < close@.len() ==> (#[trigger] close@[a])@.len() == citizens@.len(),
    ensures
        r@.len() == conversation_pairs(states_of(citizens@), close_view(close@), offset as nat).len(),
        forall|k: int|
            0 <= k < r@.len() ==> {
                let (a, b) = #[trigger] conversation_pairs(
                    states_of(citizens@),
                    close_view(close@),
                    offset as nat,
                )[k];
                &&& 0 <= a < citizens@.len() && 0 <= b < citizens@.len()
                &&& r@[k].initiator@ == citizens@[a].0@
                &&& r@[k].partner@ == citizens@[b].0@
            },
{
    let ghost states = states_of(citizens@);
    let ghost cv = close_view(close@);
    let idle = idle_list(citizens);
    let order = rotate(&idle, offset);
    let ghost ov = idx_view(order@);
    let n = order.len();
    assert forall|k: int| 0 <= k < n implies (#[trigger] order@[k]) < citizens@.len() by {
        assert(order@[k] == idle@[rotated_index(k, idle@.len() as int, offset as nat)]);
    }
    let mut used: Vec<bool> = vec![false; n];
    let ghost mut used_set: Set<int> = Set::empty();
    let ghost mut pairs: Seq<(int, int)> = Seq::empty();
    let mut out: Vec<ConversationRequest> = Vec::new();
    let mut i: usize = 0;
    while i < n
        invariant
            n == order@.len(),
            ov == idx_view(order@),
            ov == initiation_order(states, offset as nat),
            states == states_of(citizens@),
            cv == close_view(close@),
            close@.len() == citizens@.len(),
            forall|a: int| 0 <= a < close@.len() ==> (#[trigger] close@[a])@.len() == citizens@.len(),
            forall|k: int| 0 <= k < n ==> (#[trigger] order@[k]) < citizens@.len(),
            i <= n,
            used@.len() == n,
            forall|p: int| 0 <= p < n ==> used@[p] == #[trigger] used_set.contains(p),
            pairs + greedy(ov, cv, used_set, i as int) == greedy(ov, cv, Set::empty(), 0),
            out@.len() == pairs.len(),
            forall|k: int|
                0 <= k < pairs.len() ==> {
                    let (p, q) = #[trigger] pairs[k];
                    &&& 0 <= p < n && 0 <= q < n
                    &&& out@[k].initiator@ == citizens@[ov[p]].0@
                    &&& out@[k].partner@ == citizens@[ov[q]].0@
                },
        decreases n - i,
    {
        if used[i] {
            assert(greedy(ov, cv, used_set, i as int) == greedy(ov, cv, used_set, i + 1));
            i = i + 1;
            continue;
        }
        let a = order[i];
        let mut j = i + 1;
        while j < n && (used[j] || !close[a][order[j]])
            invariant
                n == order@.len(),
                ov == idx_view(order@),
                cv == close_view(close@),
                close@.len() == citizens@.len(),
                forall|b: int|
                    0 <= b < close@.len() ==> (#[trigger] close@[b])@.len() == citizens@.len(),
                forall|k: int| 0 <= k < n ==> (#[trigger] order@[k]) < citizens@.len(),
                i < j <= n,
                a == order@[i as int],
                used@.len() == n,
                forall|p: int| 0 <= p < n ==> used@[p] == #[trigger] used_set.contains(p),
                partner_from(ov, cv, used_set, i as int, i + 1) == partner_from(
                    ov,
                    cv,
                    used_set,
                    i as int,
                    j as int,
                ),
            decreases n - j,
        {
            j = j + 1;
        }
        if j < n {
            assert(partner_from(ov, cv, used_set, i as int, i + 1) == Some(j as int));
            let ghost old_pairs = pairs;
            let ghost old_used = used_set;
            let initiator = citizens[a].0.clone();
            let partner = citizens[order[j]].0.clone();
            out.push(ConversationRequest { initiator, partner });
            used.set(i, true);
            used.set(j, true);
            proof {
                used_set = used_set.insert(i as int).insert(j as int);
                pairs = pairs.push((i as int, j as int));
                assert(greedy(ov, cv, old_used, i as int) == seq![(i as int, j as int)] + greedy(
                    ov,
                    cv,
                    used_set,
                    i + 1,
                ));
                assert(pairs + greedy(ov, cv, used_set, i + 1) =~= old_pairs + greedy(
                    ov,
                    cv,
                    old_used,
                    i as int,
                ));
                assert forall|k: int| 0 <= k < pairs.len() implies {
                    let (p, q) = #[trigger] pairs[k];
                    &&& 0 <= p < n && 0 <= q < n
                    &&& out@[k].initiator@ == citizens@[ov[p]].0@
                    &&& out@[k].partner@ == citizens@[ov[q]].0@
                } by {
                    if k < old_pairs.len() {
                        assert(pairs[k] == old_pairs[k]);
                    }
                }
            }
        } else {
            assert(partner_from(ov, cv, used_set, i as int, j as int) is None);
            assert(greedy(ov, cv, used_set, i as int) == greedy(ov, cv, used_set, i + 1));
        }
        i = i + 1;
    }
    assert(greedy(ov, cv, used_set, n as int).len() == 0);
    assert(pairs =~= greedy(ov, cv, Set::empty(), 0));
    out
}

} // verus!
