//! Transition-model checks: exact application semantics, the error
//! cases, and determinism of replay.

use antikythera::actions::{ActionEconomyUsage, ActionEconomy};
use antikythera::actions::Action;
use antikythera::actor::{ActorBuilder, ActorId};
use antikythera::error::SimError;
use antikythera::state::State;
use antikythera::stats::Stat;
use antikythera::transition::{Transition, TransitionType};

fn two_actor_state() -> (State, ActorId, ActorId) {
    let mut state = State::new();
    let first = state.add_actor(ActorBuilder::new("First").max_health(12).build());
    let second = state.add_actor(ActorBuilder::new("Second").max_health(9).build());
    state.add_ally_group(vec![first]);
    state.add_ally_group(vec![second]);
    (state, first, second)
}

#[test]
fn begin_combat_points_at_the_top_of_the_order() {
    let (mut state, _, _) = two_actor_state();
    assert_eq!(state.current_turn_index, None);
    assert!(Transition::BeginCombat.apply(&mut state).is_ok());
    assert_eq!(state.current_turn_index, Some(0));
}

#[test]
fn health_modification_shifts_health() {
    let (mut state, first, _) = two_actor_state();
    let hit = Transition::HealthModification { target: first, delta: -5 };
    assert!(hit.apply(&mut state).is_ok());
    assert_eq!(state.get_actor(first).unwrap().health, 7);
    let heal = Transition::HealthModification { target: first, delta: 2 };
    assert!(heal.apply(&mut state).is_ok());
    assert_eq!(state.get_actor(first).unwrap().health, 9);
}

#[test]
fn health_modification_saturates_instead_of_wrapping() {
    let (mut state, first, _) = two_actor_state();
    let crush = Transition::HealthModification { target: first, delta: i32::MIN };
    assert!(crush.apply(&mut state).is_ok());
    assert_eq!(state.get_actor(first).unwrap().health, i32::MIN + 12);
    assert!(crush.apply(&mut state).is_ok());
    assert_eq!(state.get_actor(first).unwrap().health, i32::MIN);
}

#[test]
fn missing_actor_is_reported() {
    let (mut state, _, _) = two_actor_state();
    let ghost_town = ActorId(777);
    let before = state.clone();
    let hit = Transition::HealthModification { target: ghost_town, delta: -1 };
    assert_eq!(hit.apply(&mut state), Err(SimError::MissingActor(ghost_town)));
    assert_eq!(state, before);
    let begin = Transition::BeginTurn { actor: ghost_town };
    assert_eq!(begin.apply(&mut state), Err(SimError::MissingActor(ghost_town)));
    let end = Transition::EndTurn { actor: ghost_town };
    assert_eq!(end.apply(&mut state), Err(SimError::MissingActor(ghost_town)));
}

#[test]
fn stat_modification_wraps_like_machine_arithmetic() {
    let (mut state, first, _) = two_actor_state();
    let up = Transition::StatModification { target: first, stat: Stat::Strength, delta: 6 };
    assert!(up.apply(&mut state).is_ok());
    assert_eq!(state.get_actor(first).unwrap().stats.get(Stat::Strength), 16);
    let down = Transition::StatModification { target: first, stat: Stat::Strength, delta: -20 };
    assert!(down.apply(&mut state).is_ok());
    // 16 - 20 wraps modulo two to the thirty-second
    assert_eq!(state.get_actor(first).unwrap().stats.get(Stat::Strength), 4294967292);
}

#[test]
fn action_economy_used_fails_on_a_spent_slot() {
    let (mut state, first, _) = two_actor_state();
    let spend = Transition::ActionEconomyUsed { target: first, action_type: ActionEconomyUsage::Action };
    assert!(spend.apply(&mut state).is_ok());
    assert_eq!(
        spend.apply(&mut state),
        Err(SimError::ActionAlreadyUsed(ActionEconomyUsage::Action))
    );
    // the turn refresh clears the slot again
    let refresh = Transition::BeginTurn { actor: first };
    assert!(refresh.apply(&mut state).is_ok());
    assert!(spend.apply(&mut state).is_ok());
}

#[test]
fn initiative_roll_orders_descending_with_stable_ties() {
    let mut state = State::new();
    let a = state.add_actor(ActorBuilder::new("A").build());
    let b = state.add_actor(ActorBuilder::new("B").build());
    let c = state.add_actor(ActorBuilder::new("C").build());
    assert!(Transition::InitiativeRoll { actor: a, roll: 7 }.apply(&mut state).is_ok());
    assert_eq!(state.initiative_order, vec![a, b, c]);
    assert!(Transition::InitiativeRoll { actor: b, roll: 12 }.apply(&mut state).is_ok());
    assert_eq!(state.initiative_order, vec![b, a, c]);
    assert!(Transition::InitiativeRoll { actor: c, roll: 7 }.apply(&mut state).is_ok());
    // ties keep state order: A comes before C
    assert_eq!(state.initiative_order, vec![b, a, c]);
}

#[test]
fn advance_initiative_rotates_and_counts_rounds() {
    let mut state = State::new();
    let a = state.add_actor(ActorBuilder::new("A").build());
    let b = state.add_actor(ActorBuilder::new("B").build());
    assert!(Transition::InitiativeRoll { actor: a, roll: 10 }.apply(&mut state).is_ok());
    assert!(Transition::InitiativeRoll { actor: b, roll: 5 }.apply(&mut state).is_ok());
    assert!(Transition::BeginCombat.apply(&mut state).is_ok());
    let turn_before = state.turn;
    assert!(Transition::AdvanceInitiative.apply(&mut state).is_ok());
    assert_eq!(state.current_turn_index, Some(1));
    assert_eq!(state.turn, turn_before);
    assert!(Transition::AdvanceInitiative.apply(&mut state).is_ok());
    assert_eq!(state.current_turn_index, Some(0));
    assert_eq!(state.turn, turn_before + 1);
}

#[test]
fn advance_initiative_with_empty_order_is_reported() {
    let mut state = State::new();
    state.add_actor(ActorBuilder::new("Lonely").build());
    assert!(Transition::BeginCombat.apply(&mut state).is_ok());
    assert_eq!(
        Transition::AdvanceInitiative.apply(&mut state),
        Err(SimError::EmptyInitiativeOrder)
    );
}

#[test]
fn end_combat_resets_the_bookkeeping() {
    let mut state = State::new();
    let a = state.add_actor(ActorBuilder::new("A").build());
    assert!(Transition::InitiativeRoll { actor: a, roll: 15 }.apply(&mut state).is_ok());
    assert!(Transition::BeginCombat.apply(&mut state).is_ok());
    assert!(Transition::AdvanceInitiative.apply(&mut state).is_ok());
    assert!(Transition::EndCombat.apply(&mut state).is_ok());
    assert_eq!(state.turn, 0);
    assert_eq!(state.current_turn_index, None);
    assert!(state.initiative_order.is_empty());
    assert_eq!(state.get_actor(a).unwrap().initiative, None);
}

#[test]
fn applying_the_same_transitions_is_deterministic() {
    // the executor-side and replay-side application of one transition
    // sequence always land on the same state
    let script = vec![
        Transition::BeginCombat,
        Transition::HealthModification { target: ActorId(1), delta: -3 },
        Transition::ActionEconomyUsed { target: ActorId(2), action_type: ActionEconomyUsage::Action },
        Transition::AdvanceInitiative,
    ];
    let (base, a, _) = two_actor_state();
    let mut live = base.clone();
    let mut replayed = base.clone();
    for t in script.iter() {
        let _ = t.apply(&mut live);
    }
    for t in script.iter() {
        let _ = t.apply(&mut replayed);
    }
    assert_eq!(live, replayed);
    assert_eq!(live.get_actor(a).unwrap().health, 9);
}

#[test]
fn transition_kind_helpers() {
    assert_eq!(Transition::Root.transition_type(), TransitionType::Root);
    assert_eq!(
        Transition::HealthModification { target: ActorId(1), delta: -1 }.transition_type(),
        TransitionType::HealthModification
    );
    assert!(Transition::AdvanceInitiative.is_quiet());
    assert!(
        Transition::ActionEconomyUsed { target: ActorId(1), action_type: ActionEconomyUsage::Action }
            .is_quiet()
    );
    assert!(!Transition::BeginCombat.is_quiet());
    let _ = ActionEconomy::default();
    let _ = Action::Wait;
}
