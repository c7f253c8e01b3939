//! Combat-state checks: registration, ally and enemy queries, the
//! combat-over rule, inventories, and the small helpers.

use antikythera::actor::ActorBuilder;
use antikythera::dice::{Advantage, RollPlan, RollSettings};
use antikythera::items::{
    EquipSlot, ItemId, ItemType, Potion, WeaponBuilder, WeaponProficiencies, WeaponProficiency,
    WeaponType,
};
use antikythera::state::State;
use antikythera::transition::Transition;
use antikythera::utils::ProtectedCell;

fn potion() -> ItemType {
    ItemType::Potion(Potion {
        healing_amount: RollPlan {
            num_dice: 2,
            die_size: 4,
            modifier: 2,
            settings: RollSettings {
                advantage: Advantage::Normal,
                minimum_die_value: None,
                maximum_die_value: None,
                reroll_dice_below: None,
            },
        },
    })
}

#[test]
fn registration_hands_out_fresh_identifiers() {
    let mut state = State::new();
    let a = state.add_actor(ActorBuilder::new("A").build());
    let b = state.add_actor(ActorBuilder::new("B").build());
    assert_ne!(a, b);
    assert_eq!(state.get_actor(a).unwrap().name, "A");
    assert_eq!(state.get_actor(b).unwrap().name, "B");
    assert!(state.get_actor(antikythera::actor::ActorId(999)).is_none());

    let tonic = state.add_item("Tonic", potion());
    let brew = state.add_item("Brew", potion());
    assert_ne!(tonic.id, brew.id);
    assert_eq!(state.get_item(tonic.id).unwrap().name, "Tonic");
    assert!(state.get_item(ItemId(999)).is_none());
}

#[test]
fn allies_and_enemies_follow_the_groups() {
    let mut state = State::new();
    let a = state.add_actor(ActorBuilder::new("A").build());
    let b = state.add_actor(ActorBuilder::new("B").build());
    let c = state.add_actor(ActorBuilder::new("C").build());
    state.add_ally_group(vec![a, b]);
    state.add_ally_group(vec![c]);
    // a duplicate group is not recorded twice
    state.add_ally_group(vec![a, b]);

    assert!(state.are_allies(a, b));
    assert!(!state.are_allies(a, c));
    assert!(state.are_enemies(a, c));
    assert_eq!(state.allies_of(a).unwrap(), vec![a, b]);
    assert_eq!(state.enemies_of(a), vec![c]);
    assert_eq!(state.enemies_of(c), vec![a, b]);
}

#[test]
fn combat_ends_when_one_group_stands() {
    let mut state = State::new();
    let a = state.add_actor(ActorBuilder::new("A").max_health(5).build());
    let b = state.add_actor(ActorBuilder::new("B").max_health(5).build());
    state.add_ally_group(vec![a]);
    state.add_ally_group(vec![b]);
    assert!(!state.is_combat_over());

    let down_b = Transition::HealthModification { target: b, delta: -5 };
    assert!(down_b.apply(&mut state).is_ok());
    assert!(state.is_combat_over());

    let heal_b = Transition::HealthModification { target: b, delta: 3 };
    assert!(heal_b.apply(&mut state).is_ok());
    assert!(!state.is_combat_over());
}

#[test]
fn inventory_counts_items_and_removes_empties() {
    let mut state = State::new();
    let tonic = state.add_item("Tonic", potion());
    let mut carrier = ActorBuilder::new("Carrier").build();
    carrier.give_item(tonic.clone(), 2);
    carrier.give_item(tonic.clone(), 1);
    assert!(carrier.inventory.has_item(tonic.id, 3));
    assert!(!carrier.inventory.has_item(tonic.id, 4));

    let removed = carrier.inventory.remove_item(tonic.id, 2);
    assert_eq!(removed.unwrap().id, tonic.id);
    assert!(carrier.inventory.has_item(tonic.id, 1));
    let removed = carrier.inventory.remove_item(tonic.id, 1);
    assert_eq!(removed.unwrap().id, tonic.id);
    assert!(!carrier.inventory.has_item(tonic.id, 1));
    assert!(carrier.inventory.get(tonic.id).is_none());
}

#[test]
fn weapon_proficiencies_default_to_untrained() {
    let profs = WeaponProficiencies::default();
    assert_eq!(profs.get(WeaponType::Longsword), WeaponProficiency::NotProficient);
    let profs = profs.with_proficiency(WeaponType::Longsword, WeaponProficiency::Proficient);
    assert_eq!(profs.get(WeaponType::Longsword), WeaponProficiency::Proficient);
    assert_eq!(profs.get(WeaponType::Dagger), WeaponProficiency::NotProficient);
    assert_eq!(WeaponType::all().len(), 36);
}

#[test]
fn equipment_slots_hold_one_item_each() {
    let mut actor = ActorBuilder::new("Knight").build();
    assert_eq!(actor.equipped_items.get_equipped(EquipSlot::Shield), None);
    actor.equipped_items.slots.push((EquipSlot::Shield, ItemId(4)));
    assert_eq!(actor.equipped_items.get_equipped(EquipSlot::Shield), Some(ItemId(4)));
    assert_eq!(actor.equipped_items.get_equipped(EquipSlot::Head), None);
}

#[test]
fn weapon_builder_fills_every_field() {
    let damage = RollPlan {
        num_dice: 1,
        die_size: 8,
        modifier: 3,
        settings: RollSettings {
            advantage: Advantage::Normal,
            minimum_die_value: None,
            maximum_die_value: None,
            reroll_dice_below: None,
        },
    };
    let weapon = WeaponBuilder::new(WeaponType::Longbow)
        .attack_bonus(2)
        .damage(damage)
        .range(150)
        .build();
    assert_eq!(weapon.weapon_type, WeaponType::Longbow);
    assert_eq!(weapon.attack_bonus, 2);
    assert_eq!(weapon.damage, damage);
    assert_eq!(weapon.critical_damage, None);
    assert!(weapon.is_ranged());
    assert!(!weapon.is_melee());
}

#[test]
fn protected_cell_reads_and_writes_deliberately() {
    let mut cell = ProtectedCell::new(5u32);
    assert_eq!(*cell.get(), 5);
    *ProtectedCell::get_mut(&mut cell) += 1;
    assert_eq!(*cell.get(), 6);
}
