//! Dice-engine checks: roll bounds, rerolls, clamps, and the critical
//! short-circuit rules.

use antikythera::dice::{Advantage, Critical, RollPlan, RollResult, RollSettings};
use antikythera::roller::Roller;

fn plain(advantage: Advantage) -> RollSettings {
    RollSettings {
        advantage,
        minimum_die_value: None,
        maximum_die_value: None,
        reroll_dice_below: None,
    }
}

#[test]
fn dice_test_roll() {
    let roll = RollPlan { num_dice: 2, die_size: 6, modifier: 3, settings: plain(Advantage::Normal) };
    let mut rng = Roller::from_seed(42);
    for _ in 0..10000 {
        let result = roll.roll(&mut rng);
        assert!(result.total >= 5 && result.total <= 15);
    }
}

#[test]
fn dice_test_roll_reroll_below() {
    let roll = RollPlan {
        num_dice: 1,
        die_size: 6,
        modifier: 0,
        settings: RollSettings {
            advantage: Advantage::Normal,
            minimum_die_value: None,
            maximum_die_value: None,
            reroll_dice_below: Some(3),
        },
    };
    let mut rng = Roller::from_seed(42);
    for _ in 0..10000 {
        let result = roll.roll(&mut rng);
        assert!(result.total >= 3 && result.total <= 6);
    }
}

#[test]
fn dice_test_roll_min_max() {
    let roll = RollPlan {
        num_dice: 1,
        die_size: 6,
        modifier: 0,
        settings: RollSettings {
            advantage: Advantage::Normal,
            minimum_die_value: Some(3),
            maximum_die_value: Some(5),
            reroll_dice_below: None,
        },
    };
    let mut rng = Roller::from_seed(42);
    for _ in 0..10000 {
        let result = roll.roll(&mut rng);
        assert!(result.total >= 3 && result.total <= 5);
    }
}

fn check_crit_rules(result: &RollResult, dc: i32) {
    // criticality is one of the three cases, and meets_dc respects the
    // critical short-circuits exactly
    match result.critical {
        Critical::Success => assert!(result.meets_dc(dc)),
        Critical::Failure => assert!(!result.meets_dc(dc)),
        Critical::Normal => assert_eq!(result.meets_dc(dc), result.total >= dc),
    }
    // crit flags agree with the counted faces
    let natural_twenties = result.individual_rolls.iter().filter(|&&f| f == 20).count();
    let natural_ones = result.individual_rolls.iter().filter(|&&f| f == 1).count();
    let expected = if natural_twenties > natural_ones {
        Critical::Success
    } else if natural_ones > natural_twenties {
        Critical::Failure
    } else {
        Critical::Normal
    };
    assert_eq!(result.critical, expected);
}

#[test]
fn twenty_sided_criticality_over_random_plans() {
    let mut rng = Roller::from_seed(7);
    let advantages = [Advantage::Normal, Advantage::Advantage, Advantage::Disadvantage];
    for trial in 0..3000u32 {
        let advantage = advantages[(trial % 3) as usize];
        let num_dice = 1 + trial % 4;
        let modifier = (trial % 11) as i32 - 5;
        let plan = RollPlan { num_dice, die_size: 20, modifier, settings: plain(advantage) };
        let result = plan.roll(&mut rng);
        assert_eq!(result.individual_rolls.len() as u32, num_dice);
        for &face in result.individual_rolls.iter() {
            assert!(face >= 1 && face <= 20);
        }
        let face_sum: i32 = result.individual_rolls.iter().map(|&f| f as i32).sum();
        assert_eq!(result.total, modifier + face_sum);
        let dc = (trial % 30) as i32 - 2;
        check_crit_rules(&result, dc);
    }
}

#[test]
fn small_dice_never_crit() {
    let mut rng = Roller::from_seed(11);
    let plan = RollPlan { num_dice: 2, die_size: 4, modifier: 0, settings: plain(Advantage::Normal) };
    for _ in 0..2000 {
        let result = plan.roll(&mut rng);
        assert_eq!(result.critical, Critical::Normal);
    }
}

#[test]
fn roller_die_stays_in_range() {
    let mut rng = Roller::from_seed(3);
    let mut seen_low = false;
    let mut seen_high = false;
    for _ in 0..5000 {
        let face = rng.d(6);
        assert!(face >= 1 && face <= 6);
        if face == 1 {
            seen_low = true;
        }
        if face == 6 {
            seen_high = true;
        }
    }
    assert!(seen_low && seen_high);
}

#[test]
fn forked_rollers_are_reproducible() {
    let mut parent_a = Roller::from_seed(99);
    let mut parent_b = Roller::from_seed(99);
    let mut child_a = parent_a.fork();
    let mut child_b = parent_b.fork();
    for _ in 0..100 {
        assert_eq!(child_a.d(20), child_b.d(20));
    }
}
