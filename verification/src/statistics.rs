//! The statistics and query layer: derived counts and conditional
//! probabilities over a finished state tree.
//!
//! Probabilities are exact ratios of hit counts; turning them into
//! floating-point numbers is left to presentation code.  Everything here
//! is derived data: it can always be recomputed from the tree's node and
//! edge hit counters.

use vstd::prelude::*;

use crate::state::State;
use crate::state_tree::{EdgeRec, StateTree, StateTreeView};

verus! {

/// An exact probability: `num / den`, with a zero denominator standing
/// for "no observations" and reading as zero.
#[derive(Clone, Copy, PartialEq, Eq, Structural, Debug)]
pub struct Ratio {
    pub num: u64,
    pub den: u64,
}

/// `a + b`, saturating.
pub open spec fn spec_sat_add(a: u64, b: u64) -> u64 {
    if a + b > u64::MAX {
        u64::MAX
    } else {
        (a + b) as u64
    }
}

/// The saturating sum of the hit counters of all edges arriving at `n`.
pub open spec fn spec_incoming_hits(edges: Seq<EdgeRec>, n: u32) -> u64
    decreases edges.len(),
{
    if edges.len() == 0 {
        0
    } else {
        let rest = spec_incoming_hits(edges.drop_last(), n);
        if edges.last().to == n {
            spec_sat_add(rest, edges.last().hits)
        } else {
            rest
        }
    }
}

/// The saturating sum of the hit counters of all edges leaving `n`.
pub open spec fn spec_outgoing_hits(edges: Seq<EdgeRec>, n: u32) -> u64
    decreases edges.len(),
{
    if edges.len() == 0 {
        0
    } else {
        let rest = spec_outgoing_hits(edges.drop_last(), n);
        if edges.last().from == n {
            spec_sat_add(rest, edges.last().hits)
        } else {
            rest
        }
    }
}

/// The conditional probability of node `i`: its hits over the hits of
/// all edges arriving at it, the root being certain.
pub open spec fn spec_node_probability(t: StateTreeView, i: int) -> Ratio {
    if i == 0 {
        Ratio { num: 1, den: 1 }
    } else {
        Ratio { num: t.nodes[i].hits, den: spec_incoming_hits(t.edges, i as u32) }
    }
}

/// The conditional probability of edge `e`: its hits over the hits of
/// all edges leaving its source.
pub open spec fn spec_edge_probability(t: StateTreeView, e: int) -> Ratio {
    Ratio { num: t.edges[e].hits, den: spec_outgoing_hits(t.edges, t.edges[e].from) }
}

/// Derived statistics over one tree snapshot: totals, the derived
/// probability graph, and the breadth-first depth of the tree.
pub struct StateTreeStats {
    pub node_count: usize,
    pub edge_count: usize,
    pub total_node_hits: u64,
    pub total_edge_hits: u64,
    pub max_depth: usize,
    pub node_probabilities: Vec<Ratio>,
    pub edge_probabilities: Vec<Ratio>,
}

/// One pass over the tree: counts, the probability graph, and the
/// breadth-first depth from the root.
pub fn compute_statistics(tree: &StateTree) -> (r: StateTreeStats)
    requires
        tree.wf(),
    ensures
        r.node_count == tree@.nodes.len(),
        r.edge_count == tree@.edges.len(),
        r.total_node_hits == tree@.total_node_hits,
        r.total_edge_hits == tree@.total_edge_hits,
        r.max_depth <= tree@.nodes.len(),
        crate::state_tree::spec_neighbors(tree@.edges, 0).len() == 0 ==> r.max_depth == 0,
        r.node_probabilities@.len() == tree@.nodes.len(),
        forall|i: int|
            0 <= i < tree@.nodes.len() ==> #[trigger] r.node_probabilities@[i]
                == spec_node_probability(tree@, i),
        r.edge_probabilities@.len() == tree@.edges.len(),
        forall|e: int|
            0 <= e < tree@.edges.len() ==> #[trigger] r.edge_probabilities@[e]
                == spec_edge_probability(tree@, e),
{
    proof {
        tree.lemma_wf_root();
        tree.lemma_wf_edges();
    }
    let node_count: usize = tree.node_count();
    let edge_count: usize = tree.edge_count();

    let mut node_probabilities: Vec<Ratio> = Vec::new();
    let mut i: usize = 0;
    while i < node_count
        invariant
            tree.wf(),
            node_count == tree@.nodes.len(),
            tree@.nodes.len() <= u32::MAX,
            tree@.edges.len() <= u32::MAX,
            forall|ee: int|
                0 <= ee < tree@.edges.len() ==> (#[trigger] tree@.edges[ee]).from
                    < tree@.nodes.len() && tree@.edges[ee].to < tree@.nodes.len(),
            i <= node_count,
            node_probabilities@.len() == i,
            forall|k: int|
                0 <= k < i ==> #[trigger] node_probabilities@[k] == spec_node_probability(
                    tree@,
                    k,
                ),
        decreases node_count - i,
    {
        let ratio: Ratio = if i == 0 {
            Ratio { num: 1, den: 1 }
        } else {
            let hits: u64 = match tree.get_node_hits(i as u32) {
                Some(h) => h,
                None => 0,
            };
            let den: u64 = incoming_hits(tree, i as u32);
            Ratio { num: hits, den }
        };
        node_probabilities.push(ratio);
        i = i + 1;
    }

    let mut edge_probabilities: Vec<Ratio> = Vec::new();
    let mut e: usize = 0;
    while e < edge_count
        invariant
            tree.wf(),
            edge_count == tree@.edges.len(),
            tree@.nodes.len() <= u32::MAX,
            tree@.edges.len() <= u32::MAX,
            forall|ee: int|
                0 <= ee < tree@.edges.len() ==> (#[trigger] tree@.edges[ee]).from
                    < tree@.nodes.len() && tree@.edges[ee].to < tree@.nodes.len(),
            e <= edge_count,
            edge_probabilities@.len() == e,
            forall|k: int|
                0 <= k < e ==> #[trigger] edge_probabilities@[k] == spec_edge_probability(
                    tree@,
                    k,
                ),
        decreases edge_count - e,
    {
        let edge: EdgeRec = match tree.get_edge_by_index(e as u32) {
            Some(rec) => rec,
            None => EdgeRec {
                from: 0,
                to: 0,
                transition: crate::transition::Transition::Root,
                hits: 0,
            },
        };
        let den: u64 = outgoing_hits(tree, edge.from);
        edge_probabilities.push(Ratio { num: edge.hits, den });
        e = e + 1;
    }

    let max_depth: usize = bfs_depth(tree);

    StateTreeStats {
        node_count,
        edge_count,
        total_node_hits: tree.total_node_hits(),
        total_edge_hits: tree.total_edge_hits(),
        max_depth,
        node_probabilities,
        edge_probabilities,
    }
}

/// The saturating sum of the hits of all edges arriving at `n`.
fn incoming_hits(tree: &StateTree, n: u32) -> (r: u64)
    requires
        tree.wf(),
    ensures
        r == spec_incoming_hits(tree@.edges, n),
{
    proof {
        tree.lemma_wf_root();
    }
    let edge_count: usize = tree.edge_count();
    let mut total: u64 = 0;
    let mut e: usize = 0;
    while e < edge_count
        invariant
            tree.wf(),
            edge_count == tree@.edges.len(),
            edge_count <= u32::MAX,
            e <= edge_count,
            total == spec_incoming_hits(tree@.edges.take(e as int), n),
        decreases edge_count - e,
    {
        let edge: EdgeRec = match tree.get_edge_by_index(e as u32) {
            Some(rec) => rec,
            None => EdgeRec {
                from: 0,
                to: 0,
                transition: crate::transition::Transition::Root,
                hits: 0,
            },
        };
        proof {
            assert(tree@.edges.take(e + 1).drop_last() =~= tree@.edges.take(e as int));
            assert(tree@.edges.take(e + 1).last() == tree@.edges[e as int]);
        }
        if edge.to == n {
            total = if total as u128 + edge.hits as u128 > u64::MAX as u128 {
                u64::MAX
            } else {
                total + edge.hits
            };
        }
        e = e + 1;
    }
    proof {
        assert(tree@.edges.take(edge_count as int) =~= tree@.edges);
    }
    total
}

/// The saturating sum of the hits of all edges leaving `n`.
fn outgoing_hits(tree: &StateTree, n: u32) -> (r: u64)
    requires
        tree.wf(),
    ensures
        r == spec_outgoing_hits(tree@.edges, n),
{
    proof {
        tree.lemma_wf_root();
    }
    let edge_count: usize = tree.edge_count();
    let mut total: u64 = 0;
    let mut e: usize = 0;
    while e < edge_count
        invariant
            tree.wf(),
            edge_count == tree@.edges.len(),
            edge_count <= u32::MAX,
            e <= edge_count,
            total == spec_outgoing_hits(tree@.edges.take(e as int), n),
        decreases edge_count - e,
    {
        let edge: EdgeRec = match tree.get_edge_by_index(e as u32) {
            Some(rec) => rec,
            None => EdgeRec {
                from: 0,
                to: 0,
                transition: crate::transition::Transition::Root,
                hits: 0,
            },
        };
        proof {
            assert(tree@.edges.take(e + 1).drop_last() =~= tree@.edges.take(e as int));
            assert(tree@.edges.take(e + 1).last() == tree@.edges[e as int]);
        }
        if edge.from == n {
            total = if total as u128 + edge.hits as u128 > u64::MAX as u128 {
                u64::MAX
            } else {
                total + edge.hits
            };
        }
        e = e + 1;
    }
    proof {
        assert(tree@.edges.take(edge_count as int) =~= tree@.edges);
    }
    total
}

/// The breadth-first depth of the tree from the root: how many layers of
/// newly discovered nodes lie beyond it.
fn bfs_depth(tree: &StateTree) -> (r: usize)
    requires
        tree.wf(),
    ensures
        r <= tree@.nodes.len(),
        crate::state_tree::spec_neighbors(tree@.edges, 0).len() == 0 ==> r == 0,
{
    proof {
        tree.lemma_wf_root();
        tree.lemma_wf_edges();
    }
    let node_count: usize = tree.node_count();
    let mut visited: Vec<bool> = Vec::new();
    let mut i: usize = 0;
    while i < node_count
        invariant
            i <= node_count,
            visited@.len() == i,
        decreases node_count - i,
    {
        visited.push(false);
        i = i + 1;
    }
    visited.set(0, true);

    let mut frontier: Vec<u32> = Vec::new();
    frontier.push(0);
    let mut depth: usize = 0;

    let ghost root_sealed = crate::state_tree::spec_neighbors(tree@.edges, 0).len() == 0;
    let mut layer: usize = 0;
    while layer < node_count
        invariant
            tree.wf(),
            node_count == tree@.nodes.len(),
            tree@.nodes.len() <= u32::MAX,
            tree@.edges.len() <= u32::MAX,
            forall|ee: int|
                0 <= ee < tree@.edges.len() ==> (#[trigger] tree@.edges[ee]).from
                    < tree@.nodes.len() && tree@.edges[ee].to < tree@.nodes.len(),
            layer <= node_count,
            depth <= layer,
            visited@.len() == node_count,
            forall|k: int| 0 <= k < frontier@.len() ==> (#[trigger] frontier@[k]) < node_count,
            root_sealed == (crate::state_tree::spec_neighbors(tree@.edges, 0).len() == 0),
            root_sealed ==> depth == 0 && frontier@ =~= seq![0u32],
        decreases node_count - layer,
    {
        let mut next: Vec<u32> = Vec::new();
        let m: usize = frontier.len();
        let mut j: usize = 0;
        while j < m
            invariant
                tree.wf(),
                node_count == tree@.nodes.len(),
                tree@.nodes.len() <= u32::MAX,
                tree@.edges.len() <= u32::MAX,
                forall|ee: int|
                    0 <= ee < tree@.edges.len() ==> (#[trigger] tree@.edges[ee]).from
                        < tree@.nodes.len() && tree@.edges[ee].to < tree@.nodes.len(),
                visited@.len() == node_count,
                m == frontier.len(),
                j <= m,
                forall|k: int| 0 <= k < frontier@.len() ==> (#[trigger] frontier@[k]) < node_count,
                forall|k: int| 0 <= k < next@.len() ==> (#[trigger] next@[k]) < node_count,
                root_sealed == (crate::state_tree::spec_neighbors(tree@.edges, 0).len() == 0),
                root_sealed ==> frontier@ =~= seq![0u32] && next@.len() == 0,
            decreases m - j,
        {
            let node: u32 = frontier[j];
            let targets = tree.neighbors(node);
            let tn: usize = targets.len();
            let mut q: usize = 0;
            while q < tn
                invariant
                    tree.wf(),
                    node_count == tree@.nodes.len(),
                    tree@.nodes.len() <= u32::MAX,
                    tree@.edges.len() <= u32::MAX,
                    forall|ee: int|
                        0 <= ee < tree@.edges.len() ==> (#[trigger] tree@.edges[ee]).from
                            < tree@.nodes.len() && tree@.edges[ee].to < tree@.nodes.len(),
                    visited@.len() == node_count,
                    tn == targets.len(),
                    q <= tn,
                    targets@ == spec_neighbors_of(tree@, node),
                    node < node_count,
                    forall|k: int| 0 <= k < next@.len() ==> (#[trigger] next@[k]) < node_count,
                    root_sealed == (crate::state_tree::spec_neighbors(tree@.edges, 0).len() == 0),
                    root_sealed ==> node == 0 && tn == 0 && next@.len() == 0,
                decreases tn - q,
            {
                let to: u32 = targets[q];
                proof {
                    assert(spec_neighbors_of(tree@, node).contains(to));
                    lemma_neighbor_in_range(tree@, node, to);
                }
                if !visited[to as usize] {
                    visited.set(to as usize, true);
                    next.push(to);
                }
                q = q + 1;
            }
            j = j + 1;
        }
        if next.len() == 0 {
            return depth;
        }
        frontier = next;
        if depth < node_count {
            depth = depth + 1;
        }
        layer = layer + 1;
    }
    depth
}

/// The adjacency of `node` when it exists, else nothing.
pub open spec fn spec_neighbors_of(t: StateTreeView, node: u32) -> Seq<u32> {
    if node < t.nodes.len() {
        crate::state_tree::spec_neighbors(t.edges, node)
    } else {
        Seq::<u32>::empty()
    }
}

/// Every recorded neighbor is a node of the tree.
proof fn lemma_neighbor_in_range(t: StateTreeView, node: u32, to: u32)
    requires
        spec_neighbors_of(t, node).contains(to),
        t.nodes.len() <= u32::MAX,
        forall|e: int|
            0 <= e < t.edges.len() ==> (#[trigger] t.edges[e]).from < t.nodes.len() && t.edges[e].to
                < t.nodes.len(),
    ensures
        to < t.nodes.len(),
    decreases t.edges.len(),
{
    if node < t.nodes.len() {
        lemma_neighbors_range(t.edges, node, to, t.nodes.len() as u32);
    }
}

/// A neighbor drawn from edges whose targets are bounded is bounded.
proof fn lemma_neighbors_range(edges: Seq<EdgeRec>, from: u32, to: u32, bound: u32)
    requires
        crate::state_tree::spec_neighbors(edges, from).contains(to),
        forall|e: int| 0 <= e < edges.len() ==> (#[trigger] edges[e]).to < bound,
    ensures
        to < bound,
    decreases edges.len(),
{
    if edges.len() > 0 {
        if edges.last().from == from && edges.last().to == to {
        } else {
            assert(forall|j: int| 0 <= j < edges.len() - 1 ==> (#[trigger] edges.drop_last()[j])
                == edges[j]);
            if edges.last().from == from {
                if edges.last().to != to {
                    assert(crate::state_tree::spec_neighbors(edges.drop_last(), from).contains(to));
                    lemma_neighbors_range(edges.drop_last(), from, to, bound);
                }
            } else {
                lemma_neighbors_range(edges.drop_last(), from, to, bound);
            }
        }
    }
}

/// The saturating sum of the hit counters of collected entries.
pub open spec fn spec_sum_hits(entries: Seq<(State, u64)>) -> u64
    decreases entries.len(),
{
    if entries.len() == 0 {
        0
    } else {
        spec_sat_add(spec_sum_hits(entries.drop_last()), entries.last().1)
    }
}

/// The saturating sum of the hit counters of the accepted entries.
pub open spec fn spec_sum_selected(entries: Seq<(State, u64)>, accepted: Seq<bool>) -> u64
    decreases entries.len(),
{
    if entries.len() == 0 {
        0
    } else {
        let rest = spec_sum_selected(entries.drop_last(), accepted.drop_last());
        if accepted.len() == entries.len() && accepted.last() {
            spec_sat_add(rest, entries.last().1)
        } else {
            rest
        }
    }
}

/// A saturating hit sum is at least any one entry's hits.
proof fn lemma_sum_hits_lower(entries: Seq<(State, u64)>, k: int)
    requires
        0 <= k < entries.len(),
    ensures
        spec_sum_hits(entries) >= entries[k].1 || spec_sum_hits(entries) == u64::MAX,
    decreases entries.len(),
{
    if k < entries.len() - 1 {
        lemma_sum_hits_lower(entries.drop_last(), k);
        assert(entries.drop_last()[k] == entries[k]);
    }
}

/// The probability that the entries accepted by `condition` carry of the
/// whole collection: accepted hits over all hits, an empty collection
/// reading as zero.  The denominator is exactly the (saturating) sum of
/// all entry hits and the numerator the sum over the entries the
/// condition accepted; the ratio never exceeds one, and a condition that
/// accepts every state makes it exactly one.
pub fn outcome_probability_over<F: Fn(&State) -> bool>(entries: &Vec<(State, u64)>, condition: &F) -> (r:
    Ratio)
    requires
        forall|s: &State| #[trigger] condition.requires((s,)),
    ensures
        r.den == spec_sum_hits(entries@),
        exists|accepted: Seq<bool>|
            #![trigger spec_sum_selected(entries@, accepted)]
            {
                &&& accepted.len() == entries@.len()
                &&& (forall|k: int|
                    0 <= k < accepted.len() ==> condition.ensures(
                        (&entries@[k].0,),
                        #[trigger] accepted[k],
                    ))
                &&& r.num == spec_sum_selected(entries@, accepted)
            },
        r.num <= r.den,
        r.den == 0 ==> r.num == 0,
        (forall|s: &State, b: bool| #[trigger] condition.ensures((s,), b) ==> b) ==> r.num == r.den,
{
    let n: usize = entries.len();
    let mut num: u64 = 0;
    let mut den: u64 = 0;
    let ghost mut accepted: Seq<bool> = Seq::empty();
    let mut i: usize = 0;
    while i < n
        invariant
            n == entries.len(),
            i <= n,
            accepted.len() == i,
            forall|k: int|
                0 <= k < i ==> condition.ensures((&entries@[k].0,), #[trigger] accepted[k]),
            den == spec_sum_hits(entries@.take(i as int)),
            num == spec_sum_selected(entries@.take(i as int), accepted),
            num <= den,
            den == 0 ==> num == 0,
            forall|s: &State| #[trigger] condition.requires((s,)),
            (forall|s: &State, b: bool| #[trigger] condition.ensures((s,), b) ==> b) ==> num
                == den,
        decreases n - i,
    {
        let hits: u64 = entries[i].1;
        let ghost prev_den = den;
        den = if den as u128 + hits as u128 > u64::MAX as u128 {
            u64::MAX
        } else {
            den + hits
        };
        let verdict: bool = condition(&entries[i].0);
        if verdict {
            num = if num as u128 + hits as u128 > u64::MAX as u128 {
                u64::MAX
            } else {
                num + hits
            };
        }
        proof {
            let prev_acc = accepted;
            accepted = accepted.push(verdict);
            assert(entries@.take(i + 1).drop_last() =~= entries@.take(i as int));
            assert(entries@.take(i + 1).last() == entries@[i as int]);
            assert(accepted.drop_last() =~= prev_acc);
            assert(accepted.last() == verdict);
            assert(den == spec_sat_add(prev_den, hits));
            if !verdict {
                if forall|s: &State, b: bool| #[trigger] condition.ensures((s,), b) ==> b {
                    assert(condition.ensures((&entries@[i as int].0,), verdict));
                    assert(false);
                }
            }
        }
        i = i + 1;
    }
    proof {
        assert(entries@.take(n as int) =~= entries@);
    }
    Ratio { num, den }
}

/// The probability that a terminal state satisfies `condition`: the hits
/// of the collected terminal states it accepts over the hits of all
/// terminal states collected, an empty collection reading as zero.  The
/// ratio never exceeds one; a condition that accepts every state makes
/// it exactly one, and when the root itself is terminal the denominator
/// is positive, so that certainty is exact.
pub fn outcome_condition_probability<F: Fn(&State) -> bool>(tree: &StateTree, condition: &F) -> (r:
    Ratio)
    requires
        tree.wf(),
        forall|s: &State| #[trigger] condition.requires((s,)),
    ensures
        r.num <= r.den,
        r.den == 0 ==> r.num == 0,
        (forall|s: &State, b: bool| #[trigger] condition.ensures((s,), b) ==> b) ==> r.num == r.den,
        crate::state_tree::spec_neighbors(tree@.edges, 0).len() == 0 ==> r.den >= 1,
        exists|entries: Seq<(State, u64)>|
            #![trigger spec_sum_hits(entries)]
            {
                &&& (forall|k: int|
                    0 <= k < entries.len() ==> crate::state_tree::collected_ok(
                        tree@,
                        (#[trigger] entries[k]).0@,
                        entries[k].1,
                        true,
                    ))
                &&& entries.len() <= tree@.nodes.len()
                &&& r.den == spec_sum_hits(entries)
            },
{
    proof {
        tree.lemma_wf_root();
    }
    let entries = tree.collect_states(true);
    let r = outcome_probability_over(&entries, condition);
    proof {
        if crate::state_tree::spec_neighbors(tree@.edges, 0).len() == 0 {
            lemma_sum_hits_lower(entries@, 0);
            assert(entries@[0].1 == tree@.nodes[0].hits);
            assert(tree@.nodes[0].hits >= 1);
        }
        assert(spec_sum_hits(entries@) == r.den);
    }
    r
}

/// The conditional probability recorded for node `node`, or zero when no
/// such node exists.
pub fn state_probability(stats: &StateTreeStats, node: u32) -> (r: Ratio)
    ensures
        r == if node < stats.node_probabilities@.len() {
            stats.node_probabilities@[node as int]
        } else {
            Ratio { num: 0, den: 0 }
        },
{
    if (node as usize) < stats.node_probabilities.len() {
        stats.node_probabilities[node as usize]
    } else {
        Ratio { num: 0, den: 0 }
    }
}

impl crate::integration::Integrator {
    /// Derived statistics over the tree accumulated so far.
    pub fn compute_statistics(&self) -> (r: StateTreeStats)
        requires
            self.inv(),
        ensures
            r.node_count == self.spec_tree().nodes.len(),
            r.edge_count == self.spec_tree().edges.len(),
            r.total_node_hits == self.spec_tree().total_node_hits,
            r.total_edge_hits == self.spec_tree().total_edge_hits,
            r.max_depth <= self.spec_tree().nodes.len(),
            r.node_probabilities@.len() == self.spec_tree().nodes.len(),
            forall|i: int|
                0 <= i < self.spec_tree().nodes.len() ==> #[trigger] r.node_probabilities@[i]
                    == spec_node_probability(self.spec_tree(), i),
            r.edge_probabilities@.len() == self.spec_tree().edges.len(),
            forall|e: int|
                0 <= e < self.spec_tree().edges.len() ==> #[trigger] r.edge_probabilities@[e]
                    == spec_edge_probability(self.spec_tree(), e),
    {
        compute_statistics(self.state_tree())
    }
}

} // verus!
