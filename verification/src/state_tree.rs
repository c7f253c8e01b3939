//! The state tree: a deduplicated graph of every combat state reached by
//! any trial, with per-node and per-edge hit counters.
//!
//! Nodes are keyed by the canonical structural digest of the full state;
//! a state reached again (by any trial) lands on the same node and only
//! bumps its hit counter.  Edges carry the transition that produced
//! them; recording the same node pair with a different transition is a
//! determinism failure and is reported, never ignored.  No state is
//! stored per node: any node's state is recovered by replaying the edge
//! transitions from the root.

use std::collections::HashMap;

use vstd::prelude::*;

use crate::codec::spec_state_digest;
use crate::error::SimError;
use crate::state::{State, StateView};
use crate::transition::{spec_apply, Transition};

verus! {

broadcast use vstd::std_specs::hash::group_hash_axioms;

/// One deduplicated state: its structural digest and how many times any
/// trial visited it.
#[derive(Clone, Copy, PartialEq, Eq, Structural, Debug)]
pub struct NodeRec {
    pub digest: u64,
    pub hits: u64,
}

/// One recorded transition between two nodes, with how many times any
/// trial traversed it.
#[derive(Clone, Copy, PartialEq, Eq, Structural, Debug)]
pub struct EdgeRec {
    pub from: u32,
    pub to: u32,
    pub transition: Transition,
    pub hits: u64,
}

/// The mathematical value of a [`StateTree`].
pub ghost struct StateTreeView {
    pub initial_state: StateView,
    pub nodes: Seq<NodeRec>,
    pub edges: Seq<EdgeRec>,
    pub total_node_hits: u64,
    pub total_edge_hits: u64,
}

/// The index of the first node with digest `d`, if any.
pub open spec fn spec_find_node(nodes: Seq<NodeRec>, d: u64) -> Option<int>
    decreases nodes.len(),
{
    if nodes.len() == 0 {
        None
    } else if nodes.first().digest == d {
        Some(0int)
    } else {
        match spec_find_node(nodes.drop_first(), d) {
            Some(i) => Some(i + 1),
            None => None,
        }
    }
}

/// The index of the first edge from `from` to `to`, if any.
pub open spec fn spec_find_edge(edges: Seq<EdgeRec>, from: u32, to: u32) -> Option<int>
    decreases edges.len(),
{
    if edges.len() == 0 {
        None
    } else if edges.first().from == from && edges.first().to == to {
        Some(0int)
    } else {
        match spec_find_edge(edges.drop_first(), from, to) {
            Some(i) => Some(i + 1),
            None => None,
        }
    }
}

/// The targets of all edges leaving `from`, in recording order.
pub open spec fn spec_neighbors(edges: Seq<EdgeRec>, from: u32) -> Seq<u32>
    decreases edges.len(),
{
    if edges.len() == 0 {
        Seq::empty()
    } else {
        let rest = spec_neighbors(edges.drop_last(), from);
        if edges.last().from == from {
            rest.push(edges.last().to)
        } else {
            rest
        }
    }
}

/// `t + 1`, saturating.
pub open spec fn spec_sat_inc(t: u64) -> u64 {
    if t == u64::MAX {
        t
    } else {
        (t + 1) as u64
    }
}

/// The packed map key of the ordered node pair `(from, to)`.
pub open spec fn spec_edge_key(from: u32, to: u32) -> u64 {
    (from * 0x1_0000_0000 + to) as u64
}

/// Packed edge keys are injective.
pub proof fn lemma_edge_key_injective(f1: u32, t1: u32, f2: u32, t2: u32)
    requires
        spec_edge_key(f1, t1) == spec_edge_key(f2, t2),
    ensures
        f1 == f2 && t1 == t2,
{
    assert(f1 == f2 && t1 == t2) by (nonlinear_arith)
        requires
            f1 * 0x1_0000_0000 + t1 == f2 * 0x1_0000_0000 + t2,
            0 <= t1 < 0x1_0000_0000,
            0 <= t2 < 0x1_0000_0000,
            f1 >= 0,
            f2 >= 0,
    ;
}

/// Replaying a transition sequence from a state, in order: the resulting
/// state, or nothing if some transition fails along the way.  This is a
/// function of the starting state and the sequence alone, which is what
/// makes replay deterministic.
pub open spec fn replay(s: StateView, ts: Seq<Transition>) -> Option<StateView>
    decreases ts.len(),
{
    if ts.len() == 0 {
        Some(s)
    } else {
        match spec_apply(ts.first(), s) {
            Ok(s2) => replay(s2, ts.drop_first()),
            Err(_) => None,
        }
    }
}

/// Replaying one more transition applies it to the replayed state.
pub proof fn lemma_replay_snoc(s: StateView, ts: Seq<Transition>, t: Transition)
    ensures
        replay(s, ts.push(t)) == match replay(s, ts) {
            Some(s2) => match spec_apply(t, s2) {
                Ok(s3) => Some(s3),
                Err(_) => None::<StateView>,
            },
            None => None::<StateView>,
        },
    decreases ts.len(),
{
    if ts.len() == 0 {
        assert(ts.push(t).first() == t);
        assert(ts.push(t).drop_first() =~= Seq::<Transition>::empty());
        match spec_apply(t, s) {
            Ok(s2) => {
                assert(replay(s2, Seq::<Transition>::empty()) == Some(s2));
            },
            Err(_) => {},
        }
    } else {
        assert(ts.push(t).first() == ts.first());
        assert(ts.push(t).drop_first() =~= ts.drop_first().push(t));
        match spec_apply(ts.first(), s) {
            Ok(s2) => {
                lemma_replay_snoc(s2, ts.drop_first(), t);
            },
            Err(_) => {},
        }
    }
}

/// Replay correctness: applying a sequence of transitions step by step,
/// as the executor does while it runs a combat, reaches exactly the
/// state that replaying the same sequence from the same start yields, as
/// the tree does when it reconstructs a node.  Replay is a function, so
/// any two ways of walking the same transitions from the same state
/// agree.
pub proof fn law_replay_correctness(
    s: StateView,
    ts: Seq<Transition>,
    live: StateView,
    replayed: StateView,
)
    requires
        replay(s, ts) == Some(live),
        replay(s, ts) == Some(replayed),
    ensures
        live == replayed,
{
}

/// A walk through the tree: it starts at the root, and every step
/// follows a recorded edge.
pub open spec fn edge_path(t: StateTreeView, path: Seq<u32>) -> bool {
    &&& path.len() >= 1
    &&& path.first() == 0u32
    &&& forall|i: int|
        0 <= i < path.len() - 1 ==> spec_find_edge(t.edges, path[i], #[trigger] path[i + 1]) is Some
}

/// The transitions carried by the edges of a walk.
pub open spec fn path_transitions(t: StateTreeView, path: Seq<u32>) -> Seq<Transition>
    decreases path.len(),
{
    if path.len() <= 1 {
        Seq::empty()
    } else {
        let front = path.drop_last();
        let last_edge = spec_find_edge(t.edges, path[path.len() - 2], path.last());
        match last_edge {
            Some(e) => path_transitions(t, front).push(t.edges[e].transition),
            None => path_transitions(t, front),
        }
    }
}

/// The deduplicated graph of every state reached by any trial.
pub struct StateTree {
    initial_state: State,
    nodes: Vec<NodeRec>,
    edges: Vec<EdgeRec>,
    node_index: HashMap<u64, u32>,
    edge_index: HashMap<u64, u32>,
    neighbors: Vec<Vec<u32>>,
    total_node_hits: u64,
    total_edge_hits: u64,
}

impl View for StateTree {
    type V = StateTreeView;

    closed spec fn view(&self) -> StateTreeView {
        StateTreeView {
            initial_state: self.initial_state@,
            nodes: self.nodes@,
            edges: self.edges@,
            total_node_hits: self.total_node_hits,
            total_edge_hits: self.total_edge_hits,
        }
    }
}

impl StateTree {
    /// The tree's internal consistency: the root exists and carries the
    /// initial state's digest, node digests are unique and indexed, every
    /// edge connects existing nodes under its packed key, and the
    /// adjacency lists mirror the edge list.
    pub closed spec fn wf(&self) -> bool {
        &&& 1 <= self.nodes@.len() <= u32::MAX
        &&& self.edges@.len() <= u32::MAX
        &&& self.nodes@[0].digest == spec_state_digest(self.initial_state@)
        &&& self.neighbors@.len() == self.nodes@.len()
        // every counter counts at least the visit that created its record
        &&& forall|i: int| 0 <= i < self.nodes@.len() ==> (#[trigger] self.nodes@[i]).hits >= 1
        &&& forall|e: int| 0 <= e < self.edges@.len() ==> (#[trigger] self.edges@[e]).hits >= 1
        // node digests are unique
        &&& forall|i: int, j: int|
            0 <= i < j < self.nodes@.len() ==> (#[trigger] self.nodes@[i]).digest != (
            #[trigger] self.nodes@[j]).digest
        // the digest index is sound and complete
        &&& forall|d: u64|
            self.node_index@.contains_key(d) ==> (#[trigger] self.node_index@[d]) < self.nodes@.len()
                && self.nodes@[self.node_index@[d] as int].digest == d
        &&& forall|i: int|
            0 <= i < self.nodes@.len() ==> self.node_index@.contains_key(
                (#[trigger] self.nodes@[i]).digest,
            )
        // edges connect existing nodes
        &&& forall|e: int|
            0 <= e < self.edges@.len() ==> (#[trigger] self.edges@[e]).from < self.nodes@.len()
                && self.edges@[e].to < self.nodes@.len()
        // node pairs are unique among edges
        &&& forall|e: int, f: int|
            0 <= e < f < self.edges@.len() ==> !((#[trigger] self.edges@[e]).from == (
            #[trigger] self.edges@[f]).from && self.edges@[e].to == self.edges@[f].to)
        // the edge index is sound and complete
        &&& forall|k: u64|
            self.edge_index@.contains_key(k) ==> (#[trigger] self.edge_index@[k])
                < self.edges@.len() && spec_edge_key(
                self.edges@[self.edge_index@[k] as int].from,
                self.edges@[self.edge_index@[k] as int].to,
            ) == k
        &&& forall|e: int|
            0 <= e < self.edges@.len() ==> self.edge_index@.contains_key(
                spec_edge_key((#[trigger] self.edges@[e]).from, self.edges@[e].to),
            )
        // adjacency mirrors the edge list
        &&& forall|n: int|
            0 <= n < self.neighbors@.len() ==> (#[trigger] self.neighbors@[n])@ == spec_neighbors(
                self.edges@,
                n as u32,
            )
    }

    /// A consistent tree always holds its root node.
    pub proof fn lemma_wf_root(&self)
        requires
            self.wf(),
        ensures
            self@.nodes.len() >= 1,
            self@.nodes.len() <= u32::MAX,
            self@.edges.len() <= u32::MAX,
            forall|i: int| 0 <= i < self@.nodes.len() ==> (#[trigger] self@.nodes[i]).hits >= 1,
    {
    }

    /// Every recorded edge connects nodes of the tree.
    pub proof fn lemma_wf_edges(&self)
        requires
            self.wf(),
        ensures
            forall|e: int|
                0 <= e < self@.edges.len() ==> (#[trigger] self@.edges[e]).from < self@.nodes.len()
                    && self@.edges[e].to < self@.nodes.len(),
    {
    }

    /// A fresh tree over `initial_state`: one root node with one hit.
    pub fn new(initial_state: State) -> (r: StateTree)
        ensures
            r.wf(),
            r@.initial_state == initial_state@,
            r@.nodes =~= seq![
                NodeRec { digest: spec_state_digest(initial_state@), hits: 1u64 },
            ],
            r@.edges =~= Seq::<EdgeRec>::empty(),
            r@.total_node_hits == 1,
            r@.total_edge_hits == 0,
    {
        let digest: u64 = crate::codec::state_digest(&initial_state);
        let mut nodes: Vec<NodeRec> = Vec::new();
        nodes.push(NodeRec { digest, hits: 1 });
        let mut node_index: HashMap<u64, u32> = HashMap::new();
        node_index.insert(digest, 0);
        let mut neighbors: Vec<Vec<u32>> = Vec::new();
        neighbors.push(Vec::new());
        let r = StateTree {
            initial_state,
            nodes,
            edges: Vec::new(),
            node_index,
            edge_index: HashMap::new(),
            neighbors,
            total_node_hits: 1,
            total_edge_hits: 0,
        };
        proof {
            assert forall|n: int| 0 <= n < r.neighbors@.len() implies (
            #[trigger] r.neighbors@[n])@ == spec_neighbors(r.edges@, n as u32) by {
                assert(spec_neighbors(r.edges@, n as u32) =~= Seq::<u32>::empty());
                assert(r.neighbors@[n]@ =~= Seq::<u32>::empty());
            }
        }
        r
    }

    /// The root node's index.
    pub fn root(&self) -> (r: u32)
        ensures
            r == 0,
    {
        0
    }

    /// How many distinct states the tree has seen.
    pub fn node_count(&self) -> (r: usize)
        ensures
            r == self@.nodes.len(),
    {
        self.nodes.len()
    }

    /// How many distinct transitions between state pairs the tree has
    /// seen.
    pub fn edge_count(&self) -> (r: usize)
        ensures
            r == self@.edges.len(),
    {
        self.edges.len()
    }

    /// The initial state the tree was built over.
    pub fn initial_state(&self) -> (r: &State)
        ensures
            r@ == self@.initial_state,
    {
        &self.initial_state
    }

    /// The total of all node visits, saturating.
    pub fn total_node_hits(&self) -> (r: u64)
        ensures
            r == self@.total_node_hits,
    {
        self.total_node_hits
    }

    /// The total of all edge traversals, saturating.
    pub fn total_edge_hits(&self) -> (r: u64)
        ensures
            r == self@.total_edge_hits,
    {
        self.total_edge_hits
    }

    /// The hit count of node `index`, if it exists.
    pub fn get_node_hits(&self, index: u32) -> (r: Option<u64>)
        ensures
            r == if index < self@.nodes.len() {
                Some(self@.nodes[index as int].hits)
            } else {
                None::<u64>
            },
    {
        if (index as usize) < self.nodes.len() {
            Some(self.nodes[index as usize].hits)
        } else {
            None
        }
    }

    /// The node record at `index`, if it exists.
    pub fn get_node(&self, index: u32) -> (r: Option<NodeRec>)
        ensures
            r == if index < self@.nodes.len() {
                Some(self@.nodes[index as int])
            } else {
                None::<NodeRec>
            },
    {
        if (index as usize) < self.nodes.len() {
            Some(self.nodes[index as usize])
        } else {
            None
        }
    }

    /// The edge record at `index`, if it exists.
    pub fn get_edge_by_index(&self, index: u32) -> (r: Option<EdgeRec>)
        ensures
            r == if index < self@.edges.len() {
                Some(self@.edges[index as int])
            } else {
                None::<EdgeRec>
            },
    {
        if (index as usize) < self.edges.len() {
            Some(self.edges[index as usize])
        } else {
            None
        }
    }

    /// The recorded edge from `from` to `to`, if any.
    pub fn get_edge(&self, from: u32, to: u32) -> (r: Option<EdgeRec>)
        requires
            self.wf(),
        ensures
            r == match spec_find_edge(self@.edges, from, to) {
                Some(e) => Some(self@.edges[e]),
                None => None::<EdgeRec>,
            },
    {
        let key: u64 = (from as u64) * 0x1_0000_0000u64 + (to as u64);
        proof {
            assert(key == spec_edge_key(from, to));
        }
        match self.edge_index.get(&key) {
            Some(eref) => {
                let e: u32 = *eref;
                let edge = self.edges[e as usize];
                proof {
                    lemma_edge_key_injective(edge.from, edge.to, from, to);
                    lemma_find_edge_at(self@.edges, e as int);
                }
                Some(edge)
            },
            None => {
                proof {
                    if spec_find_edge(self@.edges, from, to) is Some {
                        let e = spec_find_edge(self@.edges, from, to).unwrap();
                        lemma_find_edge_props(self@.edges, from, to);
                        assert(self.edge_index@.contains_key(
                            spec_edge_key(self@.edges[e].from, self@.edges[e].to),
                        ));
                    }
                }
                None
            },
        }
    }

    /// The targets of the edges leaving `node`, in recording order.
    pub fn neighbors(&self, node: u32) -> (r: Vec<u32>)
        requires
            self.wf(),
        ensures
            r@ == if node < self@.nodes.len() {
                spec_neighbors(self@.edges, node)
            } else {
                Seq::<u32>::empty()
            },
    {
        if (node as usize) < self.neighbors.len() {
            crate::utils::copy_vec(&self.neighbors[node as usize])
        } else {
            proof {
                assert(self.neighbors@.len() == self@.nodes.len());
            }
            Vec::new()
        }
    }

    /// Record one visit to `state`: a state seen before only bumps its
    /// node's hit counter; a new state gains a node with one hit.  The
    /// index of the state's node comes back either way.
    pub fn add_node(&mut self, state: &State) -> (idx: u32)
        requires
            old(self).wf(),
            old(self)@.nodes.len() < u32::MAX,
        ensures
            final(self).wf(),
            final(self)@.initial_state == old(self)@.initial_state,
            final(self)@.edges == old(self)@.edges,
            final(self)@.total_edge_hits == old(self)@.total_edge_hits,
            final(self)@.total_node_hits == spec_sat_inc(old(self)@.total_node_hits),
            idx < final(self)@.nodes.len(),
            final(self)@.nodes[idx as int].digest == spec_state_digest(state@),
            match spec_find_node(old(self)@.nodes, spec_state_digest(state@)) {
                Some(j) => idx == j && final(self)@.nodes =~= old(self)@.nodes.update(
                    j,
                    NodeRec {
                        digest: spec_state_digest(state@),
                        hits: spec_sat_inc(old(self)@.nodes[j].hits),
                    },
                ),
                None => idx == old(self)@.nodes.len() && final(self)@.nodes =~= old(
                    self,
                )@.nodes.push(NodeRec { digest: spec_state_digest(state@), hits: 1u64 }),
            },
    {
        let digest: u64 = crate::codec::state_digest(state);
        self.total_node_hits = if self.total_node_hits < u64::MAX {
            self.total_node_hits + 1
        } else {
            self.total_node_hits
        };
        let found: Option<u32> = match self.node_index.get(&digest) {
            Some(iref) => Some(*iref),
            None => None,
        };
        match found {
            Some(i) => {
                let node = self.nodes[i as usize];
                let new_hits: u64 = if node.hits < u64::MAX {
                    node.hits + 1
                } else {
                    node.hits
                };
                let ghost before = self.nodes@;
                self.nodes.set(i as usize, NodeRec { digest: node.digest, hits: new_hits });
                proof {
                    lemma_find_node_at(before, i as int);
                    assert(self.nodes@ =~= before.update(
                        i as int,
                        NodeRec { digest, hits: spec_sat_inc(before[i as int].hits) },
                    ));
                    assert forall|n: int| 0 <= n < self.neighbors@.len() implies (
                    #[trigger] self.neighbors@[n])@ == spec_neighbors(self.edges@, n as u32) by {
                        assert(old(self).neighbors@[n]@ == spec_neighbors(self.edges@, n as u32));
                    }
                }
                i
            },
            None => {
                let idx: u32 = self.nodes.len() as u32;
                let ghost before = self.nodes@;
                self.nodes.push(NodeRec { digest, hits: 1 });
                self.node_index.insert(digest, idx);
                self.neighbors.push(Vec::new());
                proof {
                    lemma_find_node_absent(before, digest);
                    assert(self.nodes@ =~= before.push(NodeRec { digest, hits: 1u64 }));
                    assert forall|n: int| 0 <= n < self.neighbors@.len() implies (
                    #[trigger] self.neighbors@[n])@ == spec_neighbors(self.edges@, n as u32) by {
                        if n < before.len() {
                            assert(old(self).neighbors@[n]@ == spec_neighbors(
                                self.edges@,
                                n as u32,
                            ));
                        } else {
                            assert(self.neighbors@[n]@ =~= Seq::<u32>::empty());
                            lemma_neighbors_absent(
                                self.edges@,
                                n as u32,
                                (self@.nodes.len() - 1) as u32,
                            );
                        }
                    }
                }
                idx
            },
        }
    }

    /// Record one traversal of the edge `(from, to)` carrying
    /// `transition`.  A new pair gains an edge with one hit; a known pair
    /// with the same transition only bumps its hit counter; a known pair
    /// with a different transition is a determinism failure: the tree is
    /// left untouched and the mismatch is reported.  In particular, a
    /// node pair never holds two edges.
    pub fn add_edge(&mut self, from: u32, to: u32, transition: Transition) -> (r: Result<
        (),
        SimError,
    >)
        requires
            old(self).wf(),
            from < old(self)@.nodes.len(),
            to < old(self)@.nodes.len(),
            old(self)@.edges.len() < u32::MAX,
        ensures
            final(self).wf(),
            final(self)@.initial_state == old(self)@.initial_state,
            final(self)@.nodes == old(self)@.nodes,
            final(self)@.total_node_hits == old(self)@.total_node_hits,
            match spec_find_edge(old(self)@.edges, from, to) {
                Some(e) => {
                    if old(self)@.edges[e].transition == transition {
                        &&& r is Ok
                        &&& 0 <= e < old(self)@.edges.len()
                        &&& final(self)@.edges =~= old(self)@.edges.update(
                            e,
                            EdgeRec {
                                from,
                                to,
                                transition,
                                hits: spec_sat_inc(old(self)@.edges[e].hits),
                            },
                        )
                        &&& final(self)@.total_edge_hits == spec_sat_inc(
                            old(self)@.total_edge_hits,
                        )
                    } else {
                        &&& r == Err::<(), SimError>(SimError::EdgeTransitionMismatch)
                        &&& final(self)@ == old(self)@
                    }
                },
                None => {
                    &&& r is Ok
                    &&& final(self)@.edges =~= old(self)@.edges.push(
                        EdgeRec { from, to, transition, hits: 1u64 },
                    )
                    &&& final(self)@.total_edge_hits == spec_sat_inc(old(self)@.total_edge_hits)
                },
            },
            // on success, the recorded pair is found carrying exactly this transition
            r is Ok ==> ({
                let found = spec_find_edge(final(self)@.edges, from, to);
                &&& found is Some
                &&& final(self)@.edges[found.unwrap()].from == from
                &&& final(self)@.edges[found.unwrap()].to == to
                &&& final(self)@.edges[found.unwrap()].transition == transition
            }),
    {
        let key: u64 = (from as u64) * 0x1_0000_0000u64 + (to as u64);
        proof {
            assert(key == spec_edge_key(from, to));
        }
        let found: Option<u32> = match self.edge_index.get(&key) {
            Some(eref) => Some(*eref),
            None => None,
        };
        match found {
            Some(e) => {
                let edge = self.edges[e as usize];
                proof {
                    lemma_edge_key_injective(edge.from, edge.to, from, to);
                    lemma_find_edge_at(self@.edges, e as int);
                }
                if !transitions_equal(&edge.transition, &transition) {
                    return Err(SimError::EdgeTransitionMismatch);
                }
                let new_hits: u64 = if edge.hits < u64::MAX {
                    edge.hits + 1
                } else {
                    edge.hits
                };
                let ghost before = self.edges@;
                self.edges.set(e as usize, EdgeRec { from, to, transition, hits: new_hits });
                self.total_edge_hits = if self.total_edge_hits < u64::MAX {
                    self.total_edge_hits + 1
                } else {
                    self.total_edge_hits
                };
                proof {
                    assert(self.edges@ =~= before.update(
                        e as int,
                        EdgeRec {
                            from,
                            to,
                            transition,
                            hits: spec_sat_inc(before[e as int].hits),
                        },
                    ));
                    lemma_neighbors_update_same(before, self.edges@);
                    assert forall|n: int| 0 <= n < self.neighbors@.len() implies (
                    #[trigger] self.neighbors@[n])@ == spec_neighbors(self.edges@, n as u32) by {
                        assert(old(self).neighbors@[n]@ == spec_neighbors(before, n as u32));
                    }
                    lemma_find_edge_at(self.edges@, e as int);
                }
                Ok(())
            },
            None => {
                proof {
                    if spec_find_edge(self@.edges, from, to) is Some {
                        let e = spec_find_edge(self@.edges, from, to).unwrap();
                        lemma_find_edge_props(self@.edges, from, to);
                        assert(self.edge_index@.contains_key(
                            spec_edge_key(self@.edges[e].from, self@.edges[e].to),
                        ));
                    }
                }
                let e: u32 = self.edges.len() as u32;
                let ghost before = self.edges@;
                self.edges.push(EdgeRec { from, to, transition, hits: 1 });
                self.edge_index.insert(key, e);
                self.total_edge_hits = if self.total_edge_hits < u64::MAX {
                    self.total_edge_hits + 1
                } else {
                    self.total_edge_hits
                };
                let ghost nbefore = self.neighbors@;
                let mut row = crate::utils::copy_vec(&self.neighbors[from as usize]);
                row.push(to);
                self.neighbors.set(from as usize, row);
                proof {
                    assert(self.edges@ =~= before.push(
                        EdgeRec { from, to, transition, hits: 1u64 },
                    ));
                    lemma_neighbors_push(before, EdgeRec { from, to, transition, hits: 1u64 });
                    assert(self.edges@[before.len() as int] == EdgeRec {
                        from,
                        to,
                        transition,
                        hits: 1u64,
                    });
                    assert forall|n: int| 0 <= n < self.neighbors@.len() implies (
                    #[trigger] self.neighbors@[n])@ == spec_neighbors(self.edges@, n as u32) by {
                        assert(nbefore[n]@ == spec_neighbors(before, n as u32));
                        if n == from {
                            assert(self.neighbors@[n]@ =~= nbefore[n]@.push(to));
                        } else {
                            assert(self.neighbors@[n]@ == nbefore[n]@);
                        }
                    }
                    lemma_find_edge_at(self.edges@, before.len() as int);
                }
                Ok(())
            },
        }
    }
}

/// How many flags in `s` are still clear.
pub open spec fn count_false(s: Seq<bool>) -> nat
    decreases s.len(),
{
    if s.len() == 0 {
        0
    } else {
        count_false(s.drop_last()) + if s.last() {
            0nat
        } else {
            1nat
        }
    }
}

/// A vector of clear flags has as many clear flags as entries.
proof fn lemma_count_false_all_clear(s: Seq<bool>)
    requires
        forall|k: int| 0 <= k < s.len() ==> !(#[trigger] s[k]),
    ensures
        count_false(s) == s.len(),
    decreases s.len(),
{
    if s.len() > 0 {
        assert(forall|k: int| 0 <= k < s.len() - 1 ==> (#[trigger] s.drop_last()[k]) == s[k]);
        lemma_count_false_all_clear(s.drop_last());
    }
}

/// Setting a clear flag lowers the count of clear flags by one.
proof fn lemma_count_false_set_true(s: Seq<bool>, i: int)
    requires
        0 <= i < s.len(),
        !s[i],
    ensures
        count_false(s.update(i, true)) + 1 == count_false(s),
    decreases s.len(),
{
    let u = s.update(i, true);
    if i == s.len() - 1 {
        assert(u.drop_last() =~= s.drop_last());
        assert(u.last());
    } else {
        assert(u.drop_last() =~= s.drop_last().update(i, true));
        assert(u.last() == s.last());
        lemma_count_false_set_true(s.drop_last(), i);
    }
}

/// What holds of a traversal work item: the node exists, and some walk
/// from the root reaches it whose replayed state is exactly the carried
/// one.
pub open spec fn entry_ok(t: StateTreeView, node: u32, state: StateView) -> bool {
    &&& node < t.nodes.len()
    &&& exists|p: Seq<u32>|
        #![trigger path_transitions(t, p)]
        edge_path(t, p) && p.last() == node && replay(t.initial_state, path_transitions(t, p))
            == Some(state)
}

/// What holds of a collected entry: some walk from the root reaches a
/// node whose replayed state and hit counter are exactly the carried
/// ones, and, when only terminal states were asked for, that node has no
/// outgoing edges.
pub open spec fn collected_ok(
    t: StateTreeView,
    state: StateView,
    hits: u64,
    externals_only: bool,
) -> bool {
    exists|n: u32|
        #![trigger t.nodes[n as int]]
        n < t.nodes.len() && entry_ok(t, n, state) && hits == t.nodes[n as int].hits && (
        externals_only ==> spec_neighbors(t.edges, n).len() == 0)
}

impl StateTree {
    /// Reconstruct the state of `node` by replaying the transitions of a
    /// recorded walk from the root, if the node is reachable and every
    /// transition along the walk applies cleanly.
    pub fn resolve_state(&self, node: u32) -> (r: Option<State>)
        requires
            self.wf(),
        ensures
            match r {
                Some(st) => entry_ok(self@, node, st@),
                None => true,
            },
            node == 0 ==> r is Some && r.unwrap()@ == self@.initial_state,
            node >= self@.nodes.len() ==> r is None,
    {
        proof {
            self.lemma_wf_root();
        }
        if node == 0 {
            let root_state = self.initial_state.clone();
            proof {
                lemma_root_entry_ok(self@);
            }
            return Some(root_state);
        }
        if (node as usize) >= self.nodes.len() {
            return None;
        }
        let mut stack: Vec<(u32, State)> = Vec::new();
        let mut visited: Vec<bool> = make_flags(self.nodes.len());
        let root_state = self.initial_state.clone();
        proof {
            lemma_root_entry_ok(self@);
        }
        stack.push((0, root_state));
        loop
            invariant
                self.wf(),
                node != 0,
                visited@.len() == self@.nodes.len(),
                forall|k: int|
                    0 <= k < stack@.len() ==> (#[trigger] stack@[k]).0 < self@.nodes.len()
                        && entry_ok(self@, stack@[k].0, stack@[k].1@),
            decreases count_false(visited@), stack@.len(),
        {
            match stack.pop() {
                Some((n, st)) => {
                    if n == node {
                        return Some(st);
                    }
                    if !visited[n as usize] {
                        proof {
                            lemma_count_false_set_true(visited@, n as int);
                        }
                        visited.set(n as usize, true);
                        self.push_successors(n, &st, &mut stack);
                    }
                },
                None => {
                    return None;
                },
            }
        }
    }

    /// Push every successor of `n`, with its replayed state, onto the
    /// work stack; successors whose transition fails to apply are
    /// skipped.
    fn push_successors(&self, n: u32, st: &State, stack: &mut Vec<(u32, State)>)
        requires
            self.wf(),
            entry_ok(self@, n, st@),
            n < self@.nodes.len(),
            forall|k: int|
                0 <= k < old(stack)@.len() ==> (#[trigger] old(stack)@[k]).0 < self@.nodes.len()
                    && entry_ok(self@, old(stack)@[k].0, old(stack)@[k].1@),
        ensures
            forall|k: int|
                0 <= k < final(stack)@.len() ==> (#[trigger] final(stack)@[k]).0
                    < self@.nodes.len() && entry_ok(self@, final(stack)@[k].0, final(stack)@[k].1@),
    {
        let targets = self.neighbors(n);
        let m: usize = targets.len();
        let mut j: usize = 0;
        while j < m
            invariant
                self.wf(),
                entry_ok(self@, n, st@),
                n < self@.nodes.len(),
                m == targets.len(),
                j <= m,
                targets@ == spec_neighbors(self@.edges, n),
                forall|k: int|
                    0 <= k < stack@.len() ==> (#[trigger] stack@[k]).0 < self@.nodes.len()
                        && entry_ok(self@, stack@[k].0, stack@[k].1@),
            decreases m - j,
        {
            let to: u32 = targets[j];
            proof {
                assert(spec_neighbors(self@.edges, n).contains(to));
                lemma_neighbors_member(self@.edges, n, to);
                lemma_find_edge_exists(self@.edges, n, to);
            }
            match self.get_edge(n, to) {
                Some(edge) => {
                    let mut next_state = st.clone();
                    match edge.transition.apply(&mut next_state) {
                        Ok(()) => {
                            proof {
                                lemma_step_entry_ok(self@, n, st@, to, next_state@);
                            }
                            stack.push((to, next_state));
                        },
                        Err(_) => {},
                    }
                },
                None => {},
            }
            j = j + 1;
        }
    }

    /// Every reachable state, replayed on the fly, with its node's hit
    /// counter — all of them, or only the terminal ones (nodes with no
    /// outgoing edges) when `externals_only` is set.  Each node is
    /// reported at most once.
    pub fn collect_states(&self, externals_only: bool) -> (r: Vec<(State, u64)>)
        requires
            self.wf(),
        ensures
            forall|k: int|
                0 <= k < r@.len() ==> collected_ok(
                    self@,
                    (#[trigger] r@[k]).0@,
                    r@[k].1,
                    externals_only,
                ),
            // each node is reported at most once
            r@.len() <= self@.nodes.len(),
            // the root itself is always walked: it is reported first
            // whenever it qualifies
            !externals_only || spec_neighbors(self@.edges, 0).len() == 0 ==> r@.len() >= 1
                && r@[0].0@ == self@.initial_state && r@[0].1 == self@.nodes[0].hits,
    {
        proof {
            self.lemma_wf_root();
        }
        let mut out: Vec<(State, u64)> = Vec::new();
        let mut stack: Vec<(u32, State)> = Vec::new();
        let mut visited: Vec<bool> = make_flags(self.nodes.len());
        let root_state = self.initial_state.clone();
        proof {
            lemma_root_entry_ok(self@);
            lemma_count_false_all_clear(visited@);
        }
        stack.push((0, root_state));

        // the first step is the root: report it when it qualifies
        match stack.pop() {
            Some((n, st)) => {
                proof {
                    lemma_count_false_set_true(visited@, n as int);
                }
                visited.set(n as usize, true);
                let targets = self.neighbors(n);
                let should_collect: bool = if externals_only {
                    targets.len() == 0
                } else {
                    true
                };
                if should_collect {
                    let hits: u64 = self.nodes[n as usize].hits;
                    let kept = st.clone();
                    proof {
                        assert(entry_ok(self@, n, kept@));
                        assert(collected_ok(self@, kept@, hits, externals_only));
                    }
                    out.push((kept, hits));
                }
                self.push_successors(n, &st, &mut stack);
            },
            None => {},
        }

        loop
            invariant
                self.wf(),
                visited@.len() == self@.nodes.len(),
                out@.len() + count_false(visited@) <= self@.nodes.len(),
                forall|k: int|
                    0 <= k < stack@.len() ==> (#[trigger] stack@[k]).0 < self@.nodes.len()
                        && entry_ok(self@, stack@[k].0, stack@[k].1@),
                forall|k: int|
                    0 <= k < out@.len() ==> collected_ok(
                        self@,
                        (#[trigger] out@[k]).0@,
                        out@[k].1,
                        externals_only,
                    ),
                !externals_only || spec_neighbors(self@.edges, 0).len() == 0 ==> out@.len() >= 1
                    && out@[0].0@ == self@.initial_state && out@[0].1 == self@.nodes[0].hits,
            decreases count_false(visited@), stack@.len(),
        {
            match stack.pop() {
                Some((n, st)) => {
                    if !visited[n as usize] {
                        proof {
                            lemma_count_false_set_true(visited@, n as int);
                        }
                        visited.set(n as usize, true);
                        let targets = self.neighbors(n);
                        let should_collect: bool = if externals_only {
                            targets.len() == 0
                        } else {
                            true
                        };
                        if should_collect {
                            let hits: u64 = self.nodes[n as usize].hits;
                            let kept = st.clone();
                            proof {
                                assert(entry_ok(self@, n, kept@));
                                assert(collected_ok(self@, kept@, hits, externals_only));
                            }
                            out.push((kept, hits));
                        }
                        self.push_successors(n, &st, &mut stack);
                    }
                },
                None => {
                    return out;
                },
            }
        }
    }

    /// Walk every reachable state (or only the terminal ones), replaying
    /// on the fly, and hand each with its hit counter to `visitor`; the
    /// visitor may end the walk early by returning false.
    pub fn visit_states<V: StateVisitor>(&self, externals_only: bool, visitor: &mut V)
        requires
            self.wf(),
    {
        let entries = self.collect_states(externals_only);
        let n: usize = entries.len();
        let mut i: usize = 0;
        while i < n
            invariant
                n == entries.len(),
                i <= n,
            decreases n - i,
        {
            let keep_going: bool = visitor.visit(&entries[i].0, entries[i].1);
            if !keep_going {
                return ;
            }
            i = i + 1;
        }
    }
}

/// A callback over the states a traversal visits.
pub trait StateVisitor {
    /// One visited state and its hit counter; return false to stop the
    /// traversal.
    fn visit(&mut self, state: &State, hits: u64) -> bool;
}

/// A vector of `n` cleared flags.
fn make_flags(n: usize) -> (r: Vec<bool>)
    ensures
        r@.len() == n,
        forall|k: int| 0 <= k < n ==> !(#[trigger] r@[k]),
{
    let mut v: Vec<bool> = Vec::new();
    let mut i: usize = 0;
    while i < n
        invariant
            i <= n,
            v@.len() == i,
            forall|k: int| 0 <= k < i ==> !(#[trigger] v@[k]),
        decreases n - i,
    {
        v.push(false);
        i = i + 1;
    }
    v
}

/// The root work item is sound: the one-node walk at the root replays to
/// the initial state.
proof fn lemma_root_entry_ok(t: StateTreeView)
    requires
        t.nodes.len() >= 1,
    ensures
        entry_ok(t, 0, t.initial_state),
{
    let p = seq![0u32];
    assert(edge_path(t, p));
    assert(path_transitions(t, p) =~= Seq::<Transition>::empty());
    assert(replay(t.initial_state, path_transitions(t, p)) == Some(t.initial_state));
}

/// Following one recorded edge whose transition applies cleanly extends
/// a sound work item to its target.
proof fn lemma_step_entry_ok(t: StateTreeView, n: u32, s: StateView, to: u32, s2: StateView)
    requires
        entry_ok(t, n, s),
        spec_find_edge(t.edges, n, to) is Some,
        to < t.nodes.len(),
        spec_apply(t.edges[spec_find_edge(t.edges, n, to).unwrap()].transition, s) == Ok::<
            StateView,
            crate::error::SimError,
        >(s2),
    ensures
        entry_ok(t, to, s2),
{
    let p = choose|p: Seq<u32>|
        #![trigger path_transitions(t, p)]
        edge_path(t, p) && p.last() == n && replay(t.initial_state, path_transitions(t, p))
            == Some(s);
    let e = spec_find_edge(t.edges, n, to).unwrap();
    let p2 = p.push(to);
    assert(p2.last() == to);
    assert(p2.first() == p.first());
    assert forall|i: int|
        0 <= i < p2.len() - 1 implies spec_find_edge(t.edges, p2[i], #[trigger] p2[i + 1]) is Some by {
        if i < p.len() - 1 {
            assert(p2[i] == p[i] && p2[i + 1] == p[i + 1]);
            assert(spec_find_edge(t.edges, p[i], p[i + 1]) is Some);
        } else {
            assert(p2[i] == n && p2[i + 1] == to);
        }
    }
    assert(edge_path(t, p2));
    assert(p2.drop_last() =~= p);
    assert(p2[p2.len() - 2] == n && p2.last() == to);
    assert(path_transitions(t, p2) == path_transitions(t, p).push(t.edges[e].transition));
    lemma_replay_snoc(t.initial_state, path_transitions(t, p), t.edges[e].transition);
}

/// A neighbor recorded in an adjacency comes from some edge.
proof fn lemma_neighbors_member(edges: Seq<EdgeRec>, from: u32, to: u32)
    requires
        spec_neighbors(edges, from).contains(to),
    ensures
        exists|e: int|
            0 <= e < edges.len() && (#[trigger] edges[e]).from == from && edges[e].to == to,
    decreases edges.len(),
{
    if edges.len() > 0 {
        if edges.last().from == from && edges.last().to == to {
            assert(edges[edges.len() - 1].from == from && edges[edges.len() - 1].to == to);
        } else {
            if edges.last().from == from {
                assert(spec_neighbors(edges, from) == spec_neighbors(edges.drop_last(), from).push(
                    edges.last().to,
                ));
                assert(spec_neighbors(edges.drop_last(), from).contains(to));
            } else {
                assert(spec_neighbors(edges, from) == spec_neighbors(edges.drop_last(), from));
            }
            lemma_neighbors_member(edges.drop_last(), from, to);
            let e = choose|e: int|
                0 <= e < edges.drop_last().len() && (#[trigger] edges.drop_last()[e]).from == from
                    && edges.drop_last()[e].to == to;
            assert(edges[e].from == from && edges[e].to == to);
        }
    }
}

/// A node pair held by some edge is found.
proof fn lemma_find_edge_exists(edges: Seq<EdgeRec>, from: u32, to: u32)
    requires
        exists|e: int|
            0 <= e < edges.len() && (#[trigger] edges[e]).from == from && edges[e].to == to,
    ensures
        spec_find_edge(edges, from, to) is Some,
    decreases edges.len(),
{
    let e = choose|e: int|
        0 <= e < edges.len() && (#[trigger] edges[e]).from == from && edges[e].to == to;
    if e == 0 {
    } else {
        assert(forall|j: int| 0 <= j < edges.len() - 1 ==> (#[trigger] edges.drop_first()[j])
            == edges[j + 1]);
        assert(edges.drop_first()[e - 1].from == from && edges.drop_first()[e - 1].to == to);
        lemma_find_edge_exists(edges.drop_first(), from, to);
    }
}

/// Whether two transitions are equal.
fn transitions_equal(a: &Transition, b: &Transition) -> (r: bool)
    ensures
        r == (a == b),
{
    *a == *b
}

/// The edge at a valid index is found at or before that index; with
/// unique node pairs it is found exactly there.
proof fn lemma_find_edge_at(edges: Seq<EdgeRec>, e: int)
    requires
        0 <= e < edges.len(),
        forall|i: int, j: int|
            0 <= i < j < edges.len() ==> !((#[trigger] edges[i]).from == (#[trigger] edges[j]).from
                && edges[i].to == edges[j].to),
    ensures
        spec_find_edge(edges, edges[e].from, edges[e].to) == Some(e),
    decreases edges.len(),
{
    if e > 0 {
        assert(forall|j: int| 0 <= j < edges.len() - 1 ==> (#[trigger] edges.drop_first()[j])
            == edges[j + 1]);
        assert(!(edges[0].from == edges[e].from && edges[0].to == edges[e].to));
        lemma_find_edge_at(edges.drop_first(), e - 1);
    }
}

/// A found edge really has the looked-up endpoints.
proof fn lemma_find_edge_props(edges: Seq<EdgeRec>, from: u32, to: u32)
    requires
        spec_find_edge(edges, from, to) is Some,
    ensures
        0 <= spec_find_edge(edges, from, to).unwrap() < edges.len(),
        edges[spec_find_edge(edges, from, to).unwrap()].from == from,
        edges[spec_find_edge(edges, from, to).unwrap()].to == to,
    decreases edges.len(),
{
    if edges.len() > 0 && !(edges.first().from == from && edges.first().to == to) {
        lemma_find_edge_props(edges.drop_first(), from, to);
        assert(forall|j: int| 0 <= j < edges.len() - 1 ==> (#[trigger] edges.drop_first()[j])
            == edges[j + 1]);
    }
}

/// The node at a valid index is found exactly there when digests are
/// unique.
proof fn lemma_find_node_at(nodes: Seq<NodeRec>, i: int)
    requires
        0 <= i < nodes.len(),
        forall|a: int, b: int|
            0 <= a < b < nodes.len() ==> (#[trigger] nodes[a]).digest != (
            #[trigger] nodes[b]).digest,
    ensures
        spec_find_node(nodes, nodes[i].digest) == Some(i),
    decreases nodes.len(),
{
    if i > 0 {
        assert(forall|j: int| 0 <= j < nodes.len() - 1 ==> (#[trigger] nodes.drop_first()[j])
            == nodes[j + 1]);
        assert(nodes[0].digest != nodes[i].digest);
        lemma_find_node_at(nodes.drop_first(), i - 1);
    }
}

/// A digest held by no node is not found.
proof fn lemma_find_node_absent(nodes: Seq<NodeRec>, d: u64)
    requires
        forall|j: int| 0 <= j < nodes.len() ==> (#[trigger] nodes[j]).digest != d,
    ensures
        spec_find_node(nodes, d) is None,
    decreases nodes.len(),
{
    if nodes.len() > 0 {
        assert(forall|j: int| 0 <= j < nodes.len() - 1 ==> (#[trigger] nodes.drop_first()[j])
            == nodes[j + 1]);
        lemma_find_node_absent(nodes.drop_first(), d);
    }
}

/// A node no edge leaves has no neighbors.
proof fn lemma_neighbors_absent(edges: Seq<EdgeRec>, n: u32, bound: u32)
    requires
        forall|e: int| 0 <= e < edges.len() ==> (#[trigger] edges[e]).from < bound,
        n >= bound,
    ensures
        spec_neighbors(edges, n) =~= Seq::<u32>::empty(),
    decreases edges.len(),
{
    if edges.len() > 0 {
        assert(forall|j: int| 0 <= j < edges.len() - 1 ==> (#[trigger] edges.drop_last()[j])
            == edges[j]);
        lemma_neighbors_absent(edges.drop_last(), n, bound);
    }
}

/// Two edge lists with the same endpoints everywhere have the same
/// adjacencies; in particular, updating an edge's hit counter changes
/// none of them.
proof fn lemma_neighbors_update_same(before: Seq<EdgeRec>, after: Seq<EdgeRec>)
    requires
        after.len() == before.len(),
        forall|j: int|
            0 <= j < before.len() ==> (#[trigger] after[j]).from == before[j].from && after[j].to
                == before[j].to,
    ensures
        forall|n: u32| spec_neighbors(after, n) =~= #[trigger] spec_neighbors(before, n),
    decreases before.len(),
{
    if before.len() > 0 {
        assert(forall|j: int| 0 <= j < before.len() - 1 ==> (#[trigger] before.drop_last()[j])
            == before[j]);
        assert(forall|j: int| 0 <= j < after.len() - 1 ==> (#[trigger] after.drop_last()[j])
            == after[j]);
        lemma_neighbors_update_same(before.drop_last(), after.drop_last());
        assert forall|n: u32| spec_neighbors(after, n) =~= #[trigger] spec_neighbors(before, n) by {
            assert(after.last().from == before.last().from && after.last().to == before.last().to);
            assert(spec_neighbors(after.drop_last(), n) =~= spec_neighbors(before.drop_last(), n));
        }
    }
}

/// Appending an edge extends exactly its source's adjacency by its
/// target.
proof fn lemma_neighbors_push(edges: Seq<EdgeRec>, e: EdgeRec)
    ensures
        spec_neighbors(edges.push(e), e.from) =~= spec_neighbors(edges, e.from).push(e.to),
        forall|n: u32|
            n != e.from ==> spec_neighbors(edges.push(e), n) =~= #[trigger] spec_neighbors(
                edges,
                n,
            ),
{
    assert(edges.push(e).drop_last() =~= edges);
    assert(edges.push(e).last() == e);
}


// ---------------------------------------------------------------------
// serialization and deserialization

/// The plain data a serialized tree holds: enough to rebuild hit counts
/// and to replay every recorded state.
pub struct TreeSnapshot {
    pub initial_state: State,
    pub nodes: Vec<NodeRec>,
    pub edges: Vec<EdgeRec>,
    pub total_node_hits: u64,
    pub total_edge_hits: u64,
}

impl StateTree {
    /// The canonical serialized form of the tree.
    pub fn serialize(&self) -> (r: Vec<u64>)
        ensures
            r@ == crate::codec::enc_tree(self@),
            crate::codec::tree_bounded(self@),
    {
        let mut out: Vec<u64> = Vec::new();
        let ghost base = out@;
        crate::codec::encode_state(&self.initial_state, &mut out);
        let ghost b0 = out@;
        crate::codec::encode_node_recs(&self.nodes, &mut out);
        let ghost b1 = out@;
        crate::codec::encode_edge_recs(&self.edges, &mut out);
        let ghost b2 = out@;
        crate::codec::encode_u64_pub(self.total_node_hits, &mut out);
        let ghost b3 = out@;
        crate::codec::encode_u64_pub(self.total_edge_hits, &mut out);
        proof {
            reveal(crate::codec::enc_tree);
            let e0 = crate::codec::enc_state(self@.initial_state);
            let e1 = crate::codec::enc_seq(self@.nodes, crate::codec::node_rec_enc());
            let e2 = crate::codec::enc_seq(self@.edges, crate::codec::edge_rec_enc());
            let e3 = crate::codec::enc_u64(self@.total_node_hits);
            let e4 = crate::codec::enc_u64(self@.total_edge_hits);
            let x4x = e4;
            let x3x = e3 + x4x;
            let x2x = e2 + x3x;
            let x1x = e1 + x2x;
            assert(b0 == base + e0);
            crate::codec::seq_assoc_pub(base, e0, x1x);
            assert(base + crate::codec::enc_tree(self@) =~= b0 + x1x);
            crate::codec::seq_assoc_pub(b0, e1, x2x);
            assert(b0 + x1x =~= b1 + x2x);
            crate::codec::seq_assoc_pub(b1, e2, x3x);
            assert(b1 + x2x =~= b2 + x3x);
            crate::codec::seq_assoc_pub(b2, e3, x4x);
            assert(b2 + x3x =~= b3 + x4x);
            assert(b3 + x4x =~= out@);
            assert(out@ =~= base + crate::codec::enc_tree(self@));
            assert(base =~= Seq::<u64>::empty());
            assert(out@ =~= crate::codec::enc_tree(self@));
        }
        out
    }
}

} // verus!
