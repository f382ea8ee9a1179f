//! Technology tree for the first civilization era.
//!
//! Research points accumulate whenever a citizen gathers food. When enough
//! points are collected, every locked tech whose threshold is reached unlocks.
use vstd::prelude::*;

verus! {

pub type TechNodeId = u32;

/// One technology with the research points it needs.
#[derive(Debug, Clone, Copy)]
pub struct TechNode {
    pub id: TechNodeId,
    pub name: &'static str,
    pub required_points: u32,
    pub unlocked: bool,
}

impl TechNode {
    fn new(id: TechNodeId, name: &'static str, required_points: u32) -> (n: TechNode)
        ensures
            n.id == id,
            n.name == name,
            n.required_points == required_points,
            !n.unlocked,
    {
        TechNode { id, name, required_points, unlocked: false }
    }
}

/// The tree: nodes in unlock order and the points collected so far.
#[derive(Debug, Clone)]
pub struct TechTree {
    pub nodes: Vec<TechNode>,
    pub research_points: u32,
}

/// `a + b`, saturating at `u32::MAX`.
pub open spec fn sat_add_u32(a: u32, b: u32) -> u32 {
    if a + b > u32::MAX {
        u32::MAX
    } else {
        (a + b) as u32
    }
}

/// Whether node `n` unlocks when the point total becomes `points`.
pub open spec fn unlocks_now(n: TechNode, points: u32) -> bool {
    !n.unlocked && points >= n.required_points
}

/// The node after unlocking at `points`: unchanged except for the flag.
pub open spec fn after_unlock(n: TechNode, points: u32) -> TechNode {
    TechNode { unlocked: n.unlocked || points >= n.required_points, ..n }
}

/// Id of the last node (in tree order) that unlocks at `points`, if any.
pub open spec fn last_unlocked_id(nodes: Seq<TechNode>, points: u32) -> Option<TechNodeId>
    decreases nodes.len(),
{
    if nodes.len() == 0 {
        None
    } else if unlocks_now(nodes.last(), points) {
        Some(nodes.last().id)
    } else {
        last_unlocked_id(nodes.drop_last(), points)
    }
}

/// Index of the first node still locked, if any.
pub open spec fn first_locked(nodes: Seq<TechNode>) -> Option<int>
    decreases nodes.len(),
{
    if nodes.len() == 0 {
        None
    } else if !nodes[0].unlocked {
        Some(0)
    } else {
        match first_locked(nodes.drop_first()) {
            Some(i) => Some(i + 1),
            None => None,
        }
    }
}

proof fn lemma_first_locked(nodes: Seq<TechNode>)
    ensures
        match first_locked(nodes) {
            Some(i) => 0 <= i < nodes.len() && !nodes[i].unlocked && forall|j: int|
                0 <= j < i ==> nodes[j].unlocked,
            None => forall|j: int| 0 <= j < nodes.len() ==> nodes[j].unlocked,
        },
    decreases nodes.len(),
{
    if nodes.len() > 0 && nodes[0].unlocked {
        lemma_first_locked(nodes.drop_first());
        match first_locked(nodes.drop_first()) {
            Some(i) => {
                assert forall|j: int| 0 <= j < i + 1 implies nodes[j].unlocked by {
                    if j > 0 {
                        assert(nodes[j] == nodes.drop_first()[j - 1]);
                    }
                }
            },
            None => {
                assert forall|j: int| 0 <= j < nodes.len() implies nodes[j].unlocked by {
                    if j > 0 {
                        assert(nodes[j] == nodes.drop_first()[j - 1]);
                    }
                }
            },
        }
    }
}

impl TechTree {
    /// Every node is unlocked exactly when the collected points reach its
    /// threshold.
    pub open spec fn consistent(&self) -> bool {
        forall|i: int|
            0 <= i < self.nodes@.len() ==> (#[trigger] self.nodes@[i]).unlocked
                == (self.research_points >= self.nodes@[i].required_points)
    }

    /// The first-era tree: stone tools (50), agriculture (200), bronze tools
    /// (500), all locked, with no points collected.
    pub fn new() -> (t: TechTree)
        ensures
            t.research_points == 0,
            t.nodes@.len() == 3,
            t.nodes@[0].id == 0 && t.nodes@[0].name@ == "stone_tools"@
                && t.nodes@[0].required_points == 50,
            t.nodes@[1].id == 1 && t.nodes@[1].name@ == "agriculture"@
                && t.nodes@[1].required_points == 200,
            t.nodes@[2].id == 2 && t.nodes@[2].name@ == "bronze_tools"@
                && t.nodes@[2].required_points == 500,
            forall|i: int| 0 <= i < 3 ==> !(#[trigger] t.nodes@[i]).unlocked,
    {
        let mut nodes: Vec<TechNode> = Vec::new();
        nodes.push(TechNode::new(0, "stone_tools", 50));
        nodes.push(TechNode::new(1, "agriculture", 200));
        nodes.push(TechNode::new(2, "bronze_tools", 500));
        TechTree { nodes, research_points: 0 }
    }

    /// Add `delta` research points (saturating) and unlock every locked node
    /// whose threshold is now reached. Returns the id of the last newly
    /// unlocked node, or `None` when nothing unlocked.
    pub fn add_points(&mut self, delta: u32) -> (r: Option<TechNodeId>)
        ensures
            final(self).research_points == sat_add_u32(old(self).research_points, delta),
            final(self).nodes@ == old(self).nodes@.map_values(
                |n: TechNode| after_unlock(n, final(self).research_points),
            ),
            r == last_unlocked_id(old(self).nodes@, final(self).research_points),
            r is None <==> final(self).nodes@ == old(self).nodes@,
            r matches Some(id) ==> exists|i: int|
                0 <= i < old(self).nodes@.len() && (#[trigger] old(self).nodes@[i]).id == id
                    && !old(self).nodes@[i].unlocked && final(self).nodes@[i].unlocked,
    {
        self.research_points = self.research_points.saturating_add(delta);
        let ghost before = self.nodes@;
        let r = self.try_unlock();
        proof {
            lemma_unlock_none_iff_unchanged(before, self.research_points);
            if let Some(id) = r {
                lemma_unlock_fires_once(before, self.research_points, id);
                let i = choose|i: int|
                    0 <= i < before.len() && (#[trigger] before[i]).id == id && !before[i].unlocked
                        && self.research_points >= before[i].required_points;
                assert(self.nodes@[i] == after_unlock(before[i], self.research_points));
            }
        }
        r
    }

    fn try_unlock(&mut self) -> (r: Option<TechNodeId>)
        ensures
            final(self).research_points == old(self).research_points,
            final(self).nodes@ == old(self).nodes@.map_values(
                |n: TechNode| after_unlock(n, old(self).research_points),
            ),
            r == last_unlocked_id(old(self).nodes@, old(self).research_points),
    {
        let points = self.research_points;
        let ghost orig = self.nodes@;
        let mut last: Option<TechNodeId> = None;
        let mut i: usize = 0;
        while i < self.nodes.len()
            invariant
                self.research_points == points,
                self.nodes@.len() == orig.len(),
                i <= orig.len(),
                forall|j: int|
                    0 <= j < i ==> #[trigger] self.nodes@[j] == after_unlock(orig[j], points),
                forall|j: int| i <= j < orig.len() ==> #[trigger] self.nodes@[j] == orig[j],
                last == last_unlocked_id(orig.take(i as int), points),
            decreases orig.len() - i,
        {
            let node = self.nodes[i];
            assert(orig.take(i + 1).drop_last() == orig.take(i as int));
            if !node.unlocked && points >= node.required_points {
                let mut n = node;
                n.unlocked = true;
                self.nodes.set(i, n);
                last = Some(node.id);
            }
            i = i + 1;
        }
        assert(orig.take(orig.len() as int) == orig);
        assert(self.nodes@ == orig.map_values(|n: TechNode| after_unlock(n, points)));
        last
    }

    /// Whether some node with this id is unlocked.
    pub fn is_unlocked(&self, id: TechNodeId) -> (b: bool)
        ensures
            b == exists|i: int|
                0 <= i < self.nodes@.len() && (#[trigger] self.nodes@[i]).id == id
                    && self.nodes@[i].unlocked,
    {
        let mut i: usize = 0;
        while i < self.nodes.len()
            invariant
                i <= self.nodes@.len(),
                forall|j: int|
                    0 <= j < i ==> !((#[trigger] self.nodes@[j]).id == id
                        && self.nodes@[j].unlocked),
            decreases self.nodes@.len() - i,
        {
            if self.nodes[i].id == id && self.nodes[i].unlocked {
                return true;
            }
            i = i + 1;
        }
        false
    }

    fn first_locked_index(&self) -> (r: Option<usize>)
        ensures
            r is None <==> first_locked(self.nodes@) is None,
            r matches Some(k) ==> first_locked(self.nodes@) == Some(k as int) && k
                < self.nodes@.len(),
    {
        proof {
            lemma_first_locked(self.nodes@);
        }
        let mut i: usize = 0;
        while i < self.nodes.len()
            invariant
                i <= self.nodes@.len(),
                forall|j: int| 0 <= j < i ==> (#[trigger] self.nodes@[j]).unlocked,
                match first_locked(self.nodes@) {
                    Some(k) => 0 <= k < self.nodes@.len() && !self.nodes@[k].unlocked && forall|
                        j: int,
                    | 0 <= j < k ==> self.nodes@[j].unlocked,
                    None => forall|j: int| 0 <= j < self.nodes@.len() ==> self.nodes@[j].unlocked,
                },
            decreases self.nodes@.len() - i,
        {
            if !self.nodes[i].unlocked {
                return Some(i);
            }
            i = i + 1;
        }
        None
    }

    /// Name of the first node not yet unlocked, or `None` when everything is
    /// researched.
    pub fn next_tech_name(&self) -> (r: Option<&'static str>)
        ensures
            first_locked(self.nodes@) matches Some(i) ==> 0 <= i < self.nodes@.len(),
            match first_locked(self.nodes@) {
                Some(i) => r == Some(self.nodes@[i].name),
                None => r is None,
            },
    {
        match self.first_locked_index() {
            Some(i) => Some(self.nodes[i].name),
            None => None,
        }
    }

    /// Points required by the first node not yet unlocked.
    pub fn next_required_points(&self) -> (r: Option<u32>)
        ensures
            first_locked(self.nodes@) matches Some(i) ==> 0 <= i < self.nodes@.len(),
            match first_locked(self.nodes@) {
                Some(i) => r == Some(self.nodes@[i].required_points),
                None => r is None,
            },
    {
        match self.first_locked_index() {
            Some(i) => Some(self.nodes[i].required_points),
            None => None,
        }
    }
}

impl Default for TechTree {
    fn default() -> (t: TechTree)
        ensures
            t.research_points == 0,
            t.nodes@.len() == 3,
            forall|i: int| 0 <= i < 3 ==> !(#[trigger] t.nodes@[i]).unlocked,
    {
        TechTree::new()
    }
}

/// Nothing unlocks exactly when unlocking at `points` leaves every node as
/// it was.
pub proof fn lemma_unlock_none_iff_unchanged(before: Seq<TechNode>, points: u32)
    ensures
        last_unlocked_id(before, points) is None <==> before.map_values(
            |n: TechNode| after_unlock(n, points),
        ) == before,
    decreases before.len(),
{
    let after = before.map_values(|n: TechNode| after_unlock(n, points));
    if before.len() > 0 {
        let rest = before.drop_last();
        lemma_unlock_none_iff_unchanged(rest, points);
        let after_rest = rest.map_values(|n: TechNode| after_unlock(n, points));
        assert(after.drop_last() =~= after_rest);
        if unlocks_now(before.last(), points) {
            assert(after[before.len() - 1] != before[before.len() - 1]);
        } else {
            assert(after[before.len() - 1] == before[before.len() - 1]);
            if after_rest == rest {
                assert forall|j: int| 0 <= j < before.len() implies after[j] == before[j] by {
                    if j < before.len() - 1 {
                        assert(after[j] == after_rest[j]);
                        assert(rest[j] == before[j]);
                    }
                }
                assert(after =~= before);
            } else {
                assert(after.drop_last() != before.drop_last());
            }
        }
    } else {
        assert(after =~= before);
    }
}

/// A fresh tree is consistent: no points, and every threshold is above zero.
pub proof fn lemma_new_tree_consistent(t: TechTree)
    requires
        t.research_points == 0,
        t.nodes@.len() == 3,
        t.nodes@[0].required_points == 50,
        t.nodes@[1].required_points == 200,
        t.nodes@[2].required_points == 500,
        forall|i: int| 0 <= i < 3 ==> !(#[trigger] t.nodes@[i]).unlocked,
    ensures
        t.consistent(),
{
}

/// Adding points keeps the tree consistent: after `add_points` every node is
/// unlocked exactly when the new total reaches its threshold.
pub proof fn lemma_add_points_keeps_consistent(before: TechTree, after: TechTree, delta: u32)
    requires
        before.consistent(),
        after.research_points == sat_add_u32(before.research_points, delta),
        after.nodes@ == before.nodes@.map_values(
            |n: TechNode| after_unlock(n, after.research_points),
        ),
    ensures
        after.consistent(),
{
    assert forall|i: int| 0 <= i < after.nodes@.len() implies (#[trigger] after.nodes@[i]).unlocked
        == (after.research_points >= after.nodes@[i].required_points) by {
        assert(after.nodes@[i] == after_unlock(before.nodes@[i], after.research_points));
    }
}

/// A node unlocks at most once: `add_points` reports only nodes that were
/// locked before the call, and an unlocked node stays unlocked.
pub proof fn lemma_unlock_fires_once(before: Seq<TechNode>, points: u32, id: TechNodeId)
    requires
        last_unlocked_id(before, points) == Some(id),
    ensures
        exists|i: int|
            0 <= i < before.len() && (#[trigger] before[i]).id == id && !before[i].unlocked
                && points >= before[i].required_points,
    decreases before.len(),
{
    if unlocks_now(before.last(), points) {
        assert(before[before.len() - 1] == before.last());
    } else {
        lemma_unlock_fires_once(before.drop_last(), points, id);
        let i = choose|i: int|
            0 <= i < before.drop_last().len() && (#[trigger] before.drop_last()[i]).id == id
                && !before.drop_last()[i].unlocked && points >= before.drop_last()[i].required_points;
        assert(before[i] == before.drop_last()[i]);
    }
}

} // verus!
