//! End-to-end simulation checks: whole runs, scenario outcomes,
//! determinism across runs, and outcome queries.

use antikythera::actor::ActorBuilder;
use antikythera::dice::{Advantage, RollPlan, RollSettings};
use antikythera::integration::Integrator;
use antikythera::items::{ItemType, WeaponBuilder, WeaponProficiency, WeaponType};
use antikythera::roller::Roller;
use antikythera::saves::SavingThrow;
use antikythera::skills::{Proficiency, Skill};
use antikythera::state::State;
use antikythera::statistics::{compute_statistics, outcome_condition_probability, state_probability};
use antikythera::stats::Stat;
use antikythera::transition::{Transition, TransitionType};

fn plain_roll(num_dice: u32, die_size: u32, modifier: i32) -> RollPlan {
    RollPlan {
        num_dice,
        die_size,
        modifier,
        settings: RollSettings {
            advantage: Advantage::Normal,
            minimum_die_value: None,
            maximum_die_value: None,
            reroll_dice_below: None,
        },
    }
}

fn duel_state(hero_strength: u32) -> State {
    let mut state = State::new();
    let hero = state.add_actor(
        ActorBuilder::new("Hero").max_health(10).armor_class(10).stat(Stat::Strength, hero_strength).build(),
    );
    let goblin = state.add_actor(
        ActorBuilder::new("Goblin").max_health(7).armor_class(10).build(),
    );
    state.add_ally_group(vec![hero]);
    state.add_ally_group(vec![goblin]);
    state
}

#[test]
fn single_combat_scenario() {
    // one Hero (10 HP, AC 10) against one Goblin (7 HP, AC 10), a fixed
    // seed, one combat
    let state = duel_state(10);
    let mut integrator = Integrator::new(1, Roller::from_seed(2024), state);
    integrator.run().expect("the duel runs to completion");
    assert_eq!(integrator.combats_run(), 1);

    let tree = integrator.state_tree();
    // the root was visited exactly once
    assert_eq!(tree.get_node_hits(tree.root()), Some(1));

    // at least one health-modification edge exists
    let mut damage_edges = 0u32;
    for e in 0..tree.edge_count() {
        let edge = tree.get_edge_by_index(e as u32).unwrap();
        if edge.transition.transition_type() == TransitionType::HealthModification {
            damage_edges += 1;
        }
    }
    assert!(damage_edges >= 1);

    // exactly one terminal node has only one allied group alive
    let leaves = tree.collect_states(true);
    let decided = leaves.iter().filter(|(leaf, _)| leaf.is_combat_over()).count();
    assert_eq!(decided, 1);
}

#[test]
fn repeated_runs_with_one_seed_are_identical() {
    // the same seed, the same trial count, twice: the resulting trees
    // are identical token for token
    let trials = 10_000u64;
    let first = {
        let mut integrator = Integrator::new(trials, Roller::from_seed(1234), duel_state(18));
        integrator.run().expect("the first run completes");
        integrator.state_tree().serialize()
    };
    let second = {
        let mut integrator = Integrator::new(trials, Roller::from_seed(1234), duel_state(18));
        integrator.run().expect("the second run completes");
        integrator.state_tree().serialize()
    };
    assert_eq!(first, second);
}

#[test]
fn leaf_probabilities_sum_to_one_for_an_always_true_condition() {
    let mut integrator = Integrator::new(200, Roller::from_seed(7), duel_state(10));
    integrator.run().expect("the run completes");
    let tree = integrator.state_tree();

    // an always-true condition over the terminal states is certain
    let always = |_s: &State| true;
    let certain = outcome_condition_probability(tree, &always);
    assert!(certain.den > 0);
    assert_eq!(certain.num, certain.den);
    assert!((certain.num as f64 / certain.den as f64 - 1.0).abs() < 1e-12);

    // any condition stays within one
    let goblin_id = tree.initial_state().actors[1].id;
    let goblin_lives = move |s: &State| s.get_actor(goblin_id).map(|a| a.is_alive()).unwrap_or(false);
    let partial = outcome_condition_probability(tree, &goblin_lives);
    assert!(partial.num <= partial.den);
    let hero_id = tree.initial_state().actors[0].id;
    let hero_lives = move |s: &State| s.get_actor(hero_id).map(|a| a.is_alive()).unwrap_or(false);
    let complement = outcome_condition_probability(tree, &hero_lives);
    // someone died in every finished duel, and nothing was visited twice
    assert!(complement.num <= complement.den);
}

#[test]
fn test_demo() {
    let mut state = State::new();

    let sword = WeaponBuilder::new(WeaponType::Longsword)
        .attack_bonus(1)
        .damage(plain_roll(1, 8, 3))
        .critical_damage(plain_roll(2, 8, 3))
        .build();

    let sword = state.add_item("Longsword", ItemType::Weapon(sword));

    let mut hero = ActorBuilder::new("Hero")
        .stat(Stat::Strength, 16)
        .stat(Stat::Dexterity, 14)
        .stat(Stat::Constitution, 14)
        .stat(Stat::Intelligence, 10)
        .stat(Stat::Wisdom, 12)
        .stat(Stat::Charisma, 10)
        .movement_speed(30)
        .skill_proficiency(Skill::Athletics, Proficiency::Proficient)
        .skill_proficiency(Skill::Perception, Proficiency::HalfProficient)
        .saving_throw_proficiency(SavingThrow::Strength, true)
        .saving_throw_proficiency(SavingThrow::Constitution, true)
        .weapon_proficiency(WeaponType::Longsword, WeaponProficiency::Proficient)
        .armor_class(16)
        .max_health(30)
        .level(3)
        .build();

    hero.give_item(sword.clone(), 1);

    let mut goblin = ActorBuilder::new("Goblin")
        .stat(Stat::Strength, 8)
        .stat(Stat::Dexterity, 14)
        .stat(Stat::Constitution, 10)
        .stat(Stat::Intelligence, 10)
        .stat(Stat::Wisdom, 8)
        .stat(Stat::Charisma, 8)
        .movement_speed(30)
        .skill_proficiency(Skill::Stealth, Proficiency::Proficient)
        .saving_throw_proficiency(SavingThrow::Dexterity, true)
        .armor_class(15)
        .max_health(13)
        .level(1)
        .build();

    goblin.give_item(sword.clone(), 1);

    let goblin2 = goblin.clone();

    let hero = state.add_actor(hero);
    let goblin = state.add_actor(goblin);
    let goblin2 = state.add_actor(goblin2);
    state.add_ally_group(vec![hero]);
    state.add_ally_group(vec![goblin, goblin2]);

    let roller = Roller::new();
    let mut integrator = Integrator::new(100, roller, state);
    integrator.run().expect("the demo run completes");
    assert_eq!(integrator.combats_run(), 100);

    let stats = integrator.compute_statistics();
    println!(
        "nodes: {} edges: {} max depth: {}",
        stats.node_count, stats.edge_count, stats.max_depth
    );
    let root = state_probability(&stats, 0);
    assert_eq!((root.num, root.den), (1, 1));

    let tree = integrator.state_tree();
    let hero_alive = move |s: &State| s.get_actor(hero).map(|a| a.is_alive()).unwrap_or(false);
    let p_hero = outcome_condition_probability(tree, &hero_alive);
    println!(
        "Probability that hero is alive: {:.2}%",
        p_hero.num as f64 / p_hero.den as f64 * 100.0
    );
    let goblin_alive = move |s: &State| s.get_actor(goblin).map(|a| a.is_alive()).unwrap_or(false);
    let p_goblin = outcome_condition_probability(tree, &goblin_alive);
    println!(
        "Probability that goblin 1 is alive: {:.2}%",
        p_goblin.num as f64 / p_goblin.den as f64 * 100.0
    );
    let goblin2_alive = move |s: &State| s.get_actor(goblin2).map(|a| a.is_alive()).unwrap_or(false);
    let p_goblin2 = outcome_condition_probability(tree, &goblin2_alive);
    println!(
        "Probability that goblin 2 is alive: {:.2}%",
        p_goblin2.num as f64 / p_goblin2.den as f64 * 100.0
    );
    assert!(p_hero.num <= p_hero.den && p_goblin.num <= p_goblin.den && p_goblin2.num <= p_goblin2.den);
}

#[test]
fn statistics_probabilities_are_exact_ratios() {
    let mut integrator = Integrator::new(50, Roller::from_seed(5), duel_state(10));
    integrator.run().expect("the run completes");
    let tree = integrator.state_tree();
    let stats = compute_statistics(tree);
    assert_eq!(stats.node_count, tree.node_count());
    assert_eq!(stats.edge_count, tree.edge_count());
    assert!(stats.max_depth <= stats.node_count);

    // each non-root node's probability is its hits over its incoming hits
    for i in 1..stats.node_count {
        let ratio = stats.node_probabilities[i];
        assert_eq!(Some(ratio.num), tree.get_node_hits(i as u32));
        let mut incoming = 0u64;
        for e in 0..stats.edge_count {
            let edge = tree.get_edge_by_index(e as u32).unwrap();
            if edge.to == i as u32 {
                incoming = incoming.saturating_add(edge.hits);
            }
        }
        assert_eq!(ratio.den, incoming);
        assert!(ratio.num <= ratio.den);
    }

    // each edge's probability is its hits over its source's outgoing hits
    for e in 0..stats.edge_count {
        let edge = tree.get_edge_by_index(e as u32).unwrap();
        let ratio = stats.edge_probabilities[e];
        assert_eq!(ratio.num, edge.hits);
        let mut outgoing = 0u64;
        for f in 0..stats.edge_count {
            let other = tree.get_edge_by_index(f as u32).unwrap();
            if other.from == edge.from {
                outgoing = outgoing.saturating_add(other.hits);
            }
        }
        assert_eq!(ratio.den, outgoing);
        assert!(ratio.num <= ratio.den);
    }
}
