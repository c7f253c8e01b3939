//! Action-evaluation checks: economy spending, attack resolution, and
//! the failure cases.

use antikythera::actions::{Action, ActionEconomyUsage, ActionTaken, AttackAction, UnarmedStrikeAction};
use antikythera::actor::ActorBuilder;
use antikythera::dice::{Advantage, RollPlan, RollSettings};
use antikythera::error::SimError;
use antikythera::evaluator::ActionEvaluator;
use antikythera::items::{ItemId, ItemType, Potion, WeaponBuilder, WeaponType};
use antikythera::policy::{NoOpPolicy, Policy, RandomPolicy};
use antikythera::roller::Roller;
use antikythera::state::State;
use antikythera::stats::Stat;
use antikythera::transition::Transition;

fn settings() -> RollSettings {
    RollSettings {
        advantage: Advantage::Normal,
        minimum_die_value: None,
        maximum_die_value: None,
        reroll_dice_below: None,
    }
}

fn arena() -> (State, antikythera::actor::ActorId, antikythera::actor::ActorId) {
    let mut state = State::new();
    let bruiser = state.add_actor(
        ActorBuilder::new("Bruiser").stat(Stat::Strength, 18).max_health(20).armor_class(10).build(),
    );
    let target = state.add_actor(ActorBuilder::new("Target").max_health(20).armor_class(0).build());
    state.add_ally_group(vec![bruiser]);
    state.add_ally_group(vec![target]);
    (state, bruiser, target)
}

#[test]
fn unarmed_strike_spends_the_slot_and_deals_damage() {
    let (state, bruiser, target) = arena();
    let evaluator = ActionEvaluator;
    let mut rng = Roller::from_seed(1);
    let action = ActionTaken {
        actor: bruiser,
        action: Action::UnarmedStrike(UnarmedStrikeAction {
            target,
            attack_roll_settings: settings(),
        }),
        action_type: ActionEconomyUsage::Action,
    };
    // armor class zero: only a critical failure misses, so damage shows
    // up quickly over a few evaluations
    let mut saw_damage = false;
    for _ in 0..20 {
        let ts = evaluator.evaluate_action(bruiser, &action, &state, &mut rng).unwrap();
        assert!(!ts.is_empty());
        assert_eq!(
            ts[0],
            Transition::ActionEconomyUsed { target: bruiser, action_type: ActionEconomyUsage::Action }
        );
        if ts.len() == 2 {
            match ts[1] {
                Transition::HealthModification { target: hit, delta } => {
                    assert_eq!(hit, target);
                    // unarmed: 1d4 (or 2d4) plus a +4 strength modifier
                    assert!(delta <= -5);
                    saw_damage = true;
                },
                _ => panic!("only damage may follow the economy spend"),
            }
        }
    }
    assert!(saw_damage);
}

#[test]
fn spent_slot_evaluates_to_nothing() {
    let (mut state, bruiser, target) = arena();
    let spend = Transition::ActionEconomyUsed { target: bruiser, action_type: ActionEconomyUsage::Action };
    assert!(spend.apply(&mut state).is_ok());
    let evaluator = ActionEvaluator;
    let mut rng = Roller::from_seed(1);
    let action = ActionTaken {
        actor: bruiser,
        action: Action::UnarmedStrike(UnarmedStrikeAction {
            target,
            attack_roll_settings: settings(),
        }),
        action_type: ActionEconomyUsage::Action,
    };
    let ts = evaluator.evaluate_action(bruiser, &action, &state, &mut rng).unwrap();
    assert!(ts.is_empty());
}

#[test]
fn attack_requires_a_held_weapon() {
    let (state, bruiser, target) = arena();
    let evaluator = ActionEvaluator;
    let mut rng = Roller::from_seed(1);
    let absent = ItemId(42);
    let action = ActionTaken {
        actor: bruiser,
        action: Action::Attack(AttackAction {
            weapon_used: absent,
            target,
            attack_roll_settings: settings(),
        }),
        action_type: ActionEconomyUsage::Action,
    };
    assert_eq!(
        evaluator.evaluate_action(bruiser, &action, &state, &mut rng),
        Err(SimError::MissingItem(absent))
    );
}

#[test]
fn attack_with_a_potion_is_not_a_weapon() {
    let mut state = State::new();
    let potion = state.add_item(
        "Tonic",
        ItemType::Potion(Potion {
            healing_amount: RollPlan { num_dice: 2, die_size: 4, modifier: 2, settings: settings() },
        }),
    );
    let potion_id = potion.id;
    let mut drinker = ActorBuilder::new("Bruiser").stat(Stat::Strength, 18).max_health(20).build();
    drinker.give_item(potion, 1);
    let bruiser = state.add_actor(drinker);
    let target = state.add_actor(ActorBuilder::new("Target").max_health(20).armor_class(0).build());
    state.add_ally_group(vec![bruiser]);
    state.add_ally_group(vec![target]);
    let evaluator = ActionEvaluator;
    let mut rng = Roller::from_seed(1);
    let action = ActionTaken {
        actor: bruiser,
        action: Action::Attack(AttackAction {
            weapon_used: potion_id,
            target,
            attack_roll_settings: settings(),
        }),
        action_type: ActionEconomyUsage::Action,
    };
    assert_eq!(
        evaluator.evaluate_action(bruiser, &action, &state, &mut rng),
        Err(SimError::NotAWeapon(potion_id))
    );
}

#[test]
fn armed_attack_uses_the_weapon_damage() {
    let mut state = State::new();
    let sword = WeaponBuilder::new(WeaponType::Longsword)
        .attack_bonus(1)
        .damage(RollPlan { num_dice: 1, die_size: 8, modifier: 3, settings: settings() })
        .build();
    let sword = state.add_item("Longsword", ItemType::Weapon(sword));
    let mut wielder = ActorBuilder::new("Bruiser").stat(Stat::Strength, 18).max_health(20).build();
    wielder.give_item(sword.clone(), 1);
    let bruiser = state.add_actor(wielder);
    let target = state.add_actor(ActorBuilder::new("Target").max_health(20).armor_class(0).build());
    state.add_ally_group(vec![bruiser]);
    state.add_ally_group(vec![target]);
    let evaluator = ActionEvaluator;
    let mut rng = Roller::from_seed(9);
    let action = ActionTaken {
        actor: bruiser,
        action: Action::Attack(AttackAction {
            weapon_used: sword.id,
            target,
            attack_roll_settings: settings(),
        }),
        action_type: ActionEconomyUsage::Action,
    };
    let mut saw_damage = false;
    for _ in 0..20 {
        let ts = evaluator.evaluate_action(bruiser, &action, &state, &mut rng).unwrap();
        if ts.len() == 2 {
            match ts[1] {
                Transition::HealthModification { target: hit, delta } => {
                    assert_eq!(hit, target);
                    // longsword: 1d8+3, so at least four damage
                    assert!(delta <= -4 && delta >= -11);
                    saw_damage = true;
                },
                _ => panic!("only damage may follow the economy spend"),
            }
        }
    }
    assert!(saw_damage);
}

#[test]
fn unsupported_actions_are_reported() {
    let (state, bruiser, _) = arena();
    let evaluator = ActionEvaluator;
    let mut rng = Roller::from_seed(1);
    let action = ActionTaken {
        actor: bruiser,
        action: Action::Dash,
        action_type: ActionEconomyUsage::Action,
    };
    assert_eq!(
        evaluator.evaluate_action(bruiser, &action, &state, &mut rng),
        Err(SimError::UnsupportedAction)
    );
}

#[test]
fn policies_always_choose() {
    let (state, bruiser, _) = arena();
    let mut rng = Roller::from_seed(4);
    for slot in [ActionEconomyUsage::Action, ActionEconomyUsage::BonusAction] {
        let idle = NoOpPolicy.take_action(slot, bruiser, &state, &mut rng).unwrap();
        assert_eq!(idle.actor, bruiser);
        assert_eq!(idle.action_type, slot);
        assert_eq!(idle.action, Action::Wait);
        let aggressive = RandomPolicy.take_action(slot, bruiser, &state, &mut rng).unwrap();
        assert_eq!(aggressive.actor, bruiser);
        assert_eq!(aggressive.action_type, slot);
    }
}

#[test]
fn missing_actor_is_reported_by_the_evaluator() {
    let (state, _, target) = arena();
    let evaluator = ActionEvaluator;
    let mut rng = Roller::from_seed(1);
    let ghost_town = antikythera::actor::ActorId(99);
    let action = ActionTaken {
        actor: ghost_town,
        action: Action::UnarmedStrike(UnarmedStrikeAction {
            target,
            attack_roll_settings: settings(),
        }),
        action_type: ActionEconomyUsage::Action,
    };
    assert_eq!(
        evaluator.evaluate_action(ghost_town, &action, &state, &mut rng),
        Err(SimError::MissingActor(ghost_town))
    );
}
