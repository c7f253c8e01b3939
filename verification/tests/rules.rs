//! Rule-content checks: ability scores, skills, saves, death saves, and
//! small combinatorics.

use antikythera::actions::ActionEconomy;
use antikythera::actions::ActionEconomyUsage;
use antikythera::actor::{Actor, ActorId};
use antikythera::death::DeathSaves;
use antikythera::dice::{Advantage, RollSettings};
use antikythera::error::SimError;
use antikythera::items::{EquippedItems, Inventory, WeaponProficiencies};
use antikythera::pmf::factorial;
use antikythera::saves::SavingThrowProficiencies;
use antikythera::skills::{Proficiency, Skill, SkillCheck, SkillProficiencies};
use antikythera::stats::{Stat, Stats};

fn test_actor(id: u32, name: &str) -> Actor {
    Actor {
        id: ActorId(id),
        name: name.to_string(),
        level: 1,
        armor_class: 10,
        max_health: 10,
        health: 10,
        stats: Stats::default(),
        movement_speed: 30,
        skill_proficiencies: SkillProficiencies::default(),
        saving_throw_proficiencies: SavingThrowProficiencies::default(),
        death_saves: DeathSaves::default(),
        initiative: None,
        action_economy: ActionEconomy::default(),
        equipped_items: EquippedItems::default(),
        inventory: Inventory::default(),
        weapon_proficiencies: WeaponProficiencies::default(),
    }
}

#[test]
fn actor_test_actor_is_alive() {
    let actor = test_actor(1, "Test Actor");
    assert!(actor.is_alive());
    assert!(!actor.is_dead());
}

#[test]
fn stats_test_stat_block_default() {
    let stats = Stats::default();
    for stat in Stat::all() {
        assert_eq!(stats.get(stat), 10);
        assert_eq!(stats.modifier(stat), 0);
    }
}

#[test]
fn stats_test_stat_block_with_stat() {
    let stats = Stats::default().with_stat(Stat::Strength, 16);
    assert_eq!(stats.get(Stat::Strength), 16);
    assert_eq!(stats.modifier(Stat::Strength), 3);
}

#[test]
fn stats_test_stat_block_set() {
    let mut stats = Stats::default();
    stats.set(Stat::Dexterity, 14);
    assert_eq!(stats.get(Stat::Dexterity), 14);
    assert_eq!(stats.modifier(Stat::Dexterity), 2);
}

#[test]
fn stats_test_stat_block_modifier() {
    let stats = Stats::default()
        .with_stat(Stat::Constitution, 8)
        .with_stat(Stat::Intelligence, 18);
    assert_eq!(stats.modifier(Stat::Constitution), -1);
    assert_eq!(stats.modifier(Stat::Intelligence), 4);
}

#[test]
fn test_skill_check_total_modifier() {
    let check = SkillCheck {
        skill: Skill::Stealth,
        proficiency: Proficiency::Proficient,
        proficiency_bonus: 4,
        modifier: 1,
        roll_settings: RollSettings {
            advantage: Advantage::Normal,
            minimum_die_value: None,
            maximum_die_value: None,
            reroll_dice_below: None,
        },
    };
    assert_eq!(check.total_modifier(), 5);
}

#[test]
fn test_skill_check_roll() {
    let check = SkillCheck {
        skill: Skill::Stealth,
        proficiency: Proficiency::Expert,
        proficiency_bonus: 4,
        modifier: 1,
        roll_settings: RollSettings {
            advantage: Advantage::Advantage,
            minimum_die_value: None,
            maximum_die_value: None,
            reroll_dice_below: None,
        },
    };
    let roll = check.roll();
    assert_eq!(roll.num_dice, 1);
    assert_eq!(roll.die_size, 20);
    assert_eq!(roll.modifier, 9);
    assert_eq!(roll.settings.advantage, Advantage::Advantage);
}

#[test]
fn test_factorial() {
    assert_eq!(factorial(0), 1);
    assert_eq!(factorial(1), 1);
    assert_eq!(factorial(5), 120);
}

#[test]
fn death_saves_progression() {
    let mut saves = DeathSaves::default();
    assert!(!saves.is_stable());
    assert!(!saves.is_dead());
    saves.record_failure();
    saves.record_failure();
    assert!(!saves.is_dead());
    saves.record_failure();
    assert!(saves.is_dead());
    saves.record_failure();
    assert_eq!(saves.failures, 3);
    saves.record_success();
    saves.record_success();
    saves.record_success();
    assert!(saves.is_stable());
    saves.reset();
    assert_eq!(saves.successes, 0);
    assert_eq!(saves.failures, 0);
}

#[test]
fn action_economy_spends_each_slot_once() {
    let mut economy = ActionEconomy::default();
    assert!(economy.can_take_action(ActionEconomyUsage::Action));
    assert!(economy.use_action(ActionEconomyUsage::Action).is_ok());
    assert!(!economy.can_take_action(ActionEconomyUsage::Action));
    assert_eq!(
        economy.use_action(ActionEconomyUsage::Action),
        Err(SimError::ActionAlreadyUsed(ActionEconomyUsage::Action))
    );
    assert!(economy.can_take_action(ActionEconomyUsage::BonusAction));
    assert!(economy.use_action(ActionEconomyUsage::BonusAction).is_ok());
    economy.reset();
    assert!(economy.can_take_action(ActionEconomyUsage::Action));
    assert!(economy.can_take_action(ActionEconomyUsage::BonusAction));
}

#[test]
fn proficiency_bonus_by_level() {
    let mut actor = test_actor(1, "Scaler");
    let expectations = vec![(1u32, 2u32), (4, 2), (5, 3), (8, 3), (9, 4), (12, 4), (13, 5), (16, 5), (17, 6), (20, 6), (21, 7)];
    for (level, bonus) in expectations {
        actor.level = level;
        assert_eq!(actor.proficiency_bonus(), bonus);
    }
}
