//! State-tree checks: deduplication, edge hit counting, divergence
//! detection, replay, and the serialization round trip.

use antikythera::actor::ActorBuilder;
use antikythera::codec::encode_state_tokens;
use antikythera::decode::{decode_state, decode_tree};
use antikythera::error::SimError;
use antikythera::state::State;
use antikythera::state_tree::StateTree;
use antikythera::transition::Transition;

fn base_state() -> State {
    let mut state = State::new();
    let hero = state.add_actor(ActorBuilder::new("Hero").max_health(1000000).build());
    let goblin = state.add_actor(ActorBuilder::new("Goblin").max_health(1000000).build());
    state.add_ally_group(vec![hero]);
    state.add_ally_group(vec![goblin]);
    state
}

#[test]
fn add_node_deduplicates_by_structure() {
    let state = base_state();
    let mut tree = StateTree::new(state.clone());
    assert_eq!(tree.node_count(), 1);
    assert_eq!(tree.get_node_hits(0), Some(1));

    // the same structural state lands on the root again
    let same = state.clone();
    let node = tree.add_node(&same);
    assert_eq!(node, 0);
    assert_eq!(tree.node_count(), 1);
    assert_eq!(tree.get_node_hits(0), Some(2));

    // a different state gains a fresh node
    let mut other = state.clone();
    let target = other.actors[0].id;
    let hit = Transition::HealthModification { target, delta: -1 };
    assert!(hit.apply(&mut other).is_ok());
    let node2 = tree.add_node(&other);
    assert_eq!(node2, 1);
    assert_eq!(tree.node_count(), 2);
    assert_eq!(tree.get_node_hits(1), Some(1));
}

#[test]
fn repeated_edge_only_increments_hits() {
    let state = base_state();
    let mut tree = StateTree::new(state.clone());
    let mut next = state.clone();
    let target = next.actors[0].id;
    let t = Transition::HealthModification { target, delta: -1 };
    assert!(t.apply(&mut next).is_ok());
    let node = tree.add_node(&next);

    assert!(tree.add_edge(0, node, t).is_ok());
    assert_eq!(tree.edge_count(), 1);
    assert_eq!(tree.get_edge(0, node).unwrap().hits, 1);

    // the same pair with an equal transition: one edge, two hits
    assert!(tree.add_edge(0, node, t).is_ok());
    assert_eq!(tree.edge_count(), 1);
    assert_eq!(tree.get_edge(0, node).unwrap().hits, 2);
    assert_eq!(tree.get_edge(0, node).unwrap().transition, t);
}

#[test]
fn diverging_edge_transition_is_detected() {
    let state = base_state();
    let mut tree = StateTree::new(state.clone());
    let mut next = state.clone();
    let target = next.actors[0].id;
    let t = Transition::HealthModification { target, delta: -1 };
    assert!(t.apply(&mut next).is_ok());
    let node = tree.add_node(&next);
    assert!(tree.add_edge(0, node, t).is_ok());

    let different = Transition::HealthModification { target, delta: -2 };
    assert_eq!(tree.add_edge(0, node, different), Err(SimError::EdgeTransitionMismatch));
    // nothing changed
    assert_eq!(tree.edge_count(), 1);
    assert_eq!(tree.get_edge(0, node).unwrap().hits, 1);
    assert_eq!(tree.get_edge(0, node).unwrap().transition, t);
}

#[test]
fn resolve_state_replays_the_recorded_path() {
    let state = base_state();
    let mut tree = StateTree::new(state.clone());
    let target = state.actors[0].id;

    let mut live = state.clone();
    let mut current: u32 = 0;
    for step in 1..=4i32 {
        let t = Transition::HealthModification { target, delta: -step };
        assert!(t.apply(&mut live).is_ok());
        let node = tree.add_node(&live);
        assert!(tree.add_edge(current, node, t).is_ok());
        current = node;
    }

    // the executor-side state and the tree-side replay agree
    let resolved = tree.resolve_state(current).unwrap();
    assert_eq!(resolved, live);
    assert_eq!(resolved.get_actor(target).unwrap().health, 1000000 - 10);

    // the root resolves to the initial state
    assert_eq!(tree.resolve_state(0).unwrap(), state);
}

#[test]
fn collect_states_sees_the_leaves() {
    let state = base_state();
    let mut tree = StateTree::new(state.clone());
    let target = state.actors[0].id;

    // a fork: two different first steps from the root
    for delta in [-1i32, -2i32] {
        let mut live = state.clone();
        let t = Transition::HealthModification { target, delta };
        assert!(t.apply(&mut live).is_ok());
        let node = tree.add_node(&live);
        assert!(tree.add_edge(0, node, t).is_ok());
    }

    let leaves = tree.collect_states(true);
    assert_eq!(leaves.len(), 2);
    for (leaf, hits) in leaves.iter() {
        let health = leaf.get_actor(target).unwrap().health;
        assert!(health == 1000000 - 1 || health == 1000000 - 2);
        assert_eq!(*hits, 1);
    }

    let everything = tree.collect_states(false);
    assert_eq!(everything.len(), 3);
}

#[test]
fn serialization_round_trips_a_large_tree() {
    let state = base_state();
    let mut tree = StateTree::new(state.clone());
    let target = state.actors[0].id;

    // a chain of more than a thousand distinct states
    let mut live = state.clone();
    let mut current: u32 = 0;
    for _step in 0..1100i32 {
        let t = Transition::HealthModification { target, delta: -1 };
        assert!(t.apply(&mut live).is_ok());
        let node = tree.add_node(&live);
        assert!(tree.add_edge(current, node, t).is_ok());
        current = node;
    }
    assert!(tree.node_count() >= 1000);

    let tokens = tree.serialize();
    let snapshot = decode_tree(&tokens).expect("a serialized tree reads back");

    // identical initial state, node hit counts, and edges
    assert_eq!(snapshot.initial_state, state);
    assert_eq!(snapshot.nodes.len(), tree.node_count());
    for i in 0..snapshot.nodes.len() {
        assert_eq!(Some(snapshot.nodes[i].hits), tree.get_node_hits(i as u32));
    }
    assert_eq!(snapshot.edges.len(), tree.edge_count());
    for e in 0..snapshot.edges.len() {
        let edge = tree.get_edge_by_index(e as u32).unwrap();
        assert_eq!(snapshot.edges[e], edge);
    }
    assert_eq!(snapshot.total_node_hits, tree.total_node_hits());
    assert_eq!(snapshot.total_edge_hits, tree.total_edge_hits());

    // and the serialized form itself is deterministic
    assert_eq!(tree.serialize(), tokens);
}

#[test]
fn state_tokens_round_trip() {
    let state = base_state();
    let tokens = encode_state_tokens(&state);
    let back = decode_state(&tokens).expect("a serialized state reads back");
    assert_eq!(back, state);
}

#[test]
fn decode_rejects_a_truncated_stream() {
    let state = base_state();
    let tree = StateTree::new(state);
    let tokens = tree.serialize();
    let mut truncated = tokens.clone();
    truncated.pop();
    assert!(decode_tree(&truncated).is_none());
}
