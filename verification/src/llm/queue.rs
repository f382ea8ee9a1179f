//! A priority queue of inference requests that hands out at most a fixed
//! number of requests per turn, highest priority first. Requests of equal
//! priority come out in the order they were pushed.
use vstd::prelude::*;

verus! {

/// Priority levels for inference requests. Higher is processed first.
#[derive(Debug, Clone, Copy, PartialEq, Eq, PartialOrd, Ord, Hash, Structural)]
pub enum InferencePriority {
    /// Background/periodic updates.
    Low,
    /// Event-driven conversations.
    Normal,
    /// Player is watching / divine voice.
    High,
}

/// Numeric rank of a priority: Low 0, Normal 1, High 2.
pub open spec fn rank(p: InferencePriority) -> int {
    match p {
        InferencePriority::Low => 0,
        InferencePriority::Normal => 1,
        InferencePriority::High => 2,
    }
}

/// Pending requests, split by priority, each level in push order.
pub struct InferenceQueue<T> {
    high: Vec<T>,
    normal: Vec<T>,
    low: Vec<T>,
    max_per_turn: usize,
}

/// `a` and `b` minimum.
pub open spec fn min_nat(a: nat, b: nat) -> nat {
    if a <= b {
        a
    } else {
        b
    }
}

/// Removes and returns the first `k` elements of `v`.
fn take_front<T>(v: &mut Vec<T>, k: usize) -> (front: Vec<T>)
    requires
        k <= old(v)@.len(),
    ensures
        front@ == old(v)@.take(k as int),
        final(v)@ == old(v)@.skip(k as int),
{
    let mut rest = v.split_off(k);
    core::mem::swap(v, &mut rest);
    rest
}

impl<T> InferenceQueue<T> {
    /// Requests of priority `High`, in push order.
    pub closed spec fn high_view(&self) -> Seq<T> {
        self.high@
    }

    /// Requests of priority `Normal`, in push order.
    pub closed spec fn normal_view(&self) -> Seq<T> {
        self.normal@
    }

    /// Requests of priority `Low`, in push order.
    pub closed spec fn low_view(&self) -> Seq<T> {
        self.low@
    }

    /// The per-turn limit.
    pub closed spec fn limit(&self) -> nat {
        self.max_per_turn as nat
    }

    /// All pending requests in the order they will be handed out.
    pub open spec fn pending(&self) -> Seq<T> {
        self.high_view() + self.normal_view() + self.low_view()
    }

    /// Requests of priority `p`, in push order.
    pub open spec fn level(&self, p: InferencePriority) -> Seq<T> {
        match p {
            InferencePriority::High => self.high_view(),
            InferencePriority::Normal => self.normal_view(),
            InferencePriority::Low => self.low_view(),
        }
    }

    /// How many requests the next turn takes from level `p`: the high
    /// level first, up to the limit, then the normal level with what is left
    /// of the limit, then the low level.
    pub open spec fn turn_take(&self, p: InferencePriority) -> nat {
        let kh = min_nat(self.limit(), self.high_view().len());
        let kn = min_nat((self.limit() - kh) as nat, self.normal_view().len());
        let kl = min_nat((self.limit() - kh - kn) as nat, self.low_view().len());
        match p {
            InferencePriority::High => kh,
            InferencePriority::Normal => kn,
            InferencePriority::Low => kl,
        }
    }

    /// An empty queue handing out at most `max_per_turn` requests per turn.
    pub fn new(max_per_turn: usize) -> (q: InferenceQueue<T>)
        ensures
            q.pending() == Seq::<T>::empty(),
            q.high_view() == Seq::<T>::empty(),
            q.normal_view() == Seq::<T>::empty(),
            q.low_view() == Seq::<T>::empty(),
            q.limit() == max_per_turn,
    {
        let q = InferenceQueue { high: Vec::new(), normal: Vec::new(), low: Vec::new(), max_per_turn };
        assert(q.pending() =~= Seq::<T>::empty());
        q
    }

    /// Queue `request` at `priority`, behind the requests already waiting
    /// at that priority.
    pub fn push(&mut self, priority: InferencePriority, request: T)
        ensures
            final(self).limit() == old(self).limit(),
            final(self).level(priority) == old(self).level(priority).push(request),
            forall|p: InferencePriority|
                p != priority ==> #[trigger] final(self).level(p) == old(self).level(p),
    {
        match priority {
            InferencePriority::High => self.high.push(request),
            InferencePriority::Normal => self.normal.push(request),
            InferencePriority::Low => self.low.push(request),
        }
    }

    /// Number of pending requests (saturating at `usize::MAX`, which only
    /// zero-sized requests could reach).
    pub fn len(&self) -> (n: usize)
        ensures
            self.pending().len() <= usize::MAX ==> n == self.pending().len(),
            self.pending().len() > usize::MAX ==> n == usize::MAX,
    {
        let h = self.high.len();
        let m = self.normal.len();
        let l = self.low.len();
        if h > usize::MAX - m {
            return usize::MAX;
        }
        let hm = h + m;
        if hm > usize::MAX - l {
            return usize::MAX;
        }
        hm + l
    }

    pub fn is_empty(&self) -> (b: bool)
        ensures
            b == (self.pending().len() == 0),
    {
        self.high.len() == 0 && self.normal.len() == 0 && self.low.len() == 0
    }

    pub fn max_per_turn(&self) -> (n: usize)
        ensures
            n == self.limit(),
    {
        self.max_per_turn
    }

    /// Hand out up to `max_per_turn` requests, highest priority first and
    /// in push order within a priority. The rest stay queued.
    pub fn drain_turn(&mut self) -> (batch: Vec<T>)
        ensures
            batch@ == old(self).pending().take(
                min_nat(old(self).limit(), old(self).pending().len()) as int,
            ),
            final(self).pending() == old(self).pending().skip(
                min_nat(old(self).limit(), old(self).pending().len()) as int,
            ),
            final(self).limit() == old(self).limit(),
            forall|p: InferencePriority|
                #[trigger] final(self).level(p) == old(self).level(p).skip(
                    old(self).turn_take(p) as int,
                ),
    {
        let ghost before = self.pending();
        let ghost s0 = *self;
        let mut budget = self.max_per_turn;
        let kh = if budget < self.high.len() {
            budget
        } else {
            self.high.len()
        };
        let mut batch = take_front(&mut self.high, kh);
        budget = budget - kh;
        let kn = if budget < self.normal.len() {
            budget
        } else {
            self.normal.len()
        };
        let mut part = take_front(&mut self.normal, kn);
        batch.append(&mut part);
        budget = budget - kn;
        let kl = if budget < self.low.len() {
            budget
        } else {
            self.low.len()
        };
        let mut part = take_front(&mut self.low, kl);
        batch.append(&mut part);
        let ghost n = min_nat(self.max_per_turn as nat, before.len());
        assert(batch@ =~= before.take(n as int));
        assert(self.pending() =~= before.skip(n as int));
        assert(kh == s0.turn_take(InferencePriority::High));
        assert(kn == s0.turn_take(InferencePriority::Normal));
        assert(kl == s0.turn_take(InferencePriority::Low));
        batch
    }

    /// Drop all pending requests.
    pub fn clear(&mut self)
        ensures
            final(self).pending() == Seq::<T>::empty(),
            final(self).limit() == old(self).limit(),
    {
        self.high.clear();
        self.normal.clear();
        self.low.clear();
        assert(self.pending() =~= Seq::<T>::empty());
    }
}

/// Highest priority first: a turn hands out high-priority requests before
/// any normal one, and normal ones before any low one; a lower level is
/// reached only once every request above it has been handed out.
pub proof fn lemma_drain_priority_order<T>(high: Seq<T>, normal: Seq<T>, low: Seq<T>, n: int)
    requires
        0 <= n <= high.len() + normal.len() + low.len(),
    ensures
        n <= high.len() ==> (high + normal + low).take(n) == high.take(n),
        high.len() < n <= high.len() + normal.len() ==> (high + normal + low).take(n) == high
            + normal.take(n - high.len()),
        high.len() + normal.len() < n ==> (high + normal + low).take(n) == high + normal
            + low.take(n - high.len() - normal.len()),
{
    if n <= high.len() {
        assert((high + normal + low).take(n) =~= high.take(n));
    } else if n <= high.len() + normal.len() {
        assert((high + normal + low).take(n) =~= high + normal.take(n - high.len()));
    } else {
        assert((high + normal + low).take(n) =~= high + normal + low.take(
            n - high.len() - normal.len(),
        ));
    }
}

/// Nothing is lost or duplicated by a turn: the handed-out batch followed
/// by what stays queued is exactly what was pending, and the batch never
/// exceeds the per-turn limit.
pub proof fn lemma_drain_conserves<T>(before: Seq<T>, batch: Seq<T>, after: Seq<T>, limit: nat)
    requires
        batch == before.take(min_nat(limit, before.len()) as int),
        after == before.skip(min_nat(limit, before.len()) as int),
    ensures
        batch + after == before,
        batch.len() <= limit,
        batch.len() == limit || after.len() == 0,
{
    assert(batch + after =~= before);
}

} // verus!
