//! Deserialization of the canonical token stream: the executable
//! counterpart of the `sdec_*` specifications.  Each reader is proved to
//! agree with its specification decoder, so the round-trip law
//! [`crate::codec::lemma_rt_tree`] carries over to the executable pair:
//! decoding a serialized tree yields exactly the tree's data back.

use vstd::prelude::*;

use crate::actions::ActionEconomy;
use crate::actions::ActionEconomyUsage;
use crate::actor::{Actor, ActorId};
use crate::codec::{
    sdec_action_economy, sdec_actor, sdec_actor_ref, sdec_advantage, sdec_armor, sdec_bool,
    sdec_death_saves, sdec_edge_rec, sdec_equip_pair, sdec_group, sdec_i32, sdec_item,
    sdec_item_ref, sdec_item_type, sdec_items, sdec_inventory_entry, sdec_node_rec, sdec_opt_i32,
    sdec_opt_roll_plan, sdec_opt_u32, sdec_opt_usize, sdec_proficiency, sdec_prof9,
    sdec_roll_plan, sdec_roll_settings, sdec_save_profs, sdec_seq, sdec_skill_profs, sdec_spell_ref,
    sdec_potion, sdec_scroll, sdec_wp_pair, sdec_stat, sdec_state, sdec_stats, sdec_str, sdec_chars, sdec_transition, sdec_tree, sdec_u8,
    sdec_u32, sdec_u64, sdec_usize, sdec_weapon, sdec_weapon_proficiency, sdec_weapon_type,
    sdec_equip_slot, sdec_action_economy_usage, skill_profs_front, skill_profs_back,
    spec_char_of, spec_i32_of_u32, is_scalar_token, actor_dec, actor_ref_dec, edge_rec_dec,
    equip_pair_dec, group_dec, inventory_entry_dec, item_dec, node_rec_dec, wp_pair_dec,
};
use crate::death::DeathSaves;
use crate::dice::{Advantage, RollPlan, RollSettings};
use crate::items::{
    Armor, EquipSlot, EquippedItems, Inventory, InventoryEntry, Item, ItemId, ItemType, Potion,
    Scroll, Weapon, WeaponProficiencies, WeaponProficiency, WeaponType,
};
use crate::saves::SavingThrowProficiencies;
use crate::skills::{Proficiency, SkillProficiencies};
use crate::spells::SpellId;
use crate::state::State;
use crate::state_tree::{EdgeRec, NodeRec, TreeSnapshot};
use crate::stats::{Stat, Stats};
use crate::transition::Transition;

verus! {

fn d_u64(buf: &Vec<u64>, pos: &mut usize) -> (r: Option<u64>)
    requires
        *old(pos) <= buf@.len(),
    ensures
        match r {
            Some(v) => *old(pos) <= *final(pos) <= buf@.len() && sdec_u64(
                buf@.skip(*old(pos) as int),
            ) == Some((v, buf@.skip(*final(pos) as int))),
            None => sdec_u64(buf@.skip(*old(pos) as int)) is None,
        },
{
    if *pos < buf.len() {
        let v: u64 = buf[*pos];
        proof {
            assert(buf@.skip(*pos as int).first() == v);
            assert(buf@.skip(*pos as int).drop_first() =~= buf@.skip(*pos + 1));
        }
        *pos = *pos + 1;
        Some(v)
    } else {
        proof {
            assert(buf@.skip(*pos as int).len() == 0);
        }
        None
    }
}

fn d_u32(buf: &Vec<u64>, pos: &mut usize) -> (r: Option<u32>)
    requires
        *old(pos) <= buf@.len(),
    ensures
        match r {
            Some(v) => *old(pos) <= *final(pos) <= buf@.len() && sdec_u32(
                buf@.skip(*old(pos) as int),
            ) == Some((v, buf@.skip(*final(pos) as int))),
            None => sdec_u32(buf@.skip(*old(pos) as int)) is None,
        },
{
    match d_u64(buf, pos) {
        Some(v) => if v <= 0xFFFF_FFFFu64 {
            Some(v as u32)
        } else {
            None
        },
        None => None,
    }
}

fn d_u8(buf: &Vec<u64>, pos: &mut usize) -> (r: Option<u8>)
    requires
        *old(pos) <= buf@.len(),
    ensures
        match r {
            Some(v) => *old(pos) <= *final(pos) <= buf@.len() && sdec_u8(
                buf@.skip(*old(pos) as int),
            ) == Some((v, buf@.skip(*final(pos) as int))),
            None => sdec_u8(buf@.skip(*old(pos) as int)) is None,
        },
{
    match d_u64(buf, pos) {
        Some(v) => if v <= 0xFFu64 {
            Some(v as u8)
        } else {
            None
        },
        None => None,
    }
}

fn d_bool(buf: &Vec<u64>, pos: &mut usize) -> (r: Option<bool>)
    requires
        *old(pos) <= buf@.len(),
    ensures
        match r {
            Some(v) => *old(pos) <= *final(pos) <= buf@.len() && sdec_bool(
                buf@.skip(*old(pos) as int),
            ) == Some((v, buf@.skip(*final(pos) as int))),
            None => sdec_bool(buf@.skip(*old(pos) as int)) is None,
        },
{
    proof {
        reveal(crate::codec::sdec_bool);
    }
    match d_u64(buf, pos) {
        Some(v) => if v <= 1u64 {
            Some(v == 1)
        } else {
            None
        },
        None => None,
    }
}

fn d_usize(buf: &Vec<u64>, pos: &mut usize) -> (r: Option<usize>)
    requires
        *old(pos) <= buf@.len(),
    ensures
        match r {
            Some(v) => *old(pos) <= *final(pos) <= buf@.len() && sdec_usize(
                buf@.skip(*old(pos) as int),
            ) == Some((v, buf@.skip(*final(pos) as int))),
            None => sdec_usize(buf@.skip(*old(pos) as int)) is None,
        },
{
    match d_u64(buf, pos) {
        Some(v) => if v <= usize::MAX as u64 {
            Some(v as usize)
        } else {
            None
        },
        None => None,
    }
}

fn d_i32(buf: &Vec<u64>, pos: &mut usize) -> (r: Option<i32>)
    requires
        *old(pos) <= buf@.len(),
    ensures
        match r {
            Some(v) => *old(pos) <= *final(pos) <= buf@.len() && sdec_i32(
                buf@.skip(*old(pos) as int),
            ) == Some((v, buf@.skip(*final(pos) as int))),
            None => sdec_i32(buf@.skip(*old(pos) as int)) is None,
        },
{
    match d_u32(buf, pos) {
        Some(v) => {
            proof {
                assert(spec_i32_of_u32(v) == if v <= i32::MAX as u32 {
                    v as i32
                } else {
                    ((v as i64) - 0x1_0000_0000i64) as i32
                });
            }
            if v <= i32::MAX as u32 {
                Some(v as i32)
            } else {
                Some(((v as i64) - 0x1_0000_0000i64) as i32)
            }
        },
        None => None,
    }
}

fn d_opt_u32(buf: &Vec<u64>, pos: &mut usize) -> (r: Option<Option<u32>>)
    requires
        *old(pos) <= buf@.len(),
    ensures
        match r {
            Some(v) => *old(pos) <= *final(pos) <= buf@.len() && sdec_opt_u32(
                buf@.skip(*old(pos) as int),
            ) == Some((v, buf@.skip(*final(pos) as int))),
            None => sdec_opt_u32(buf@.skip(*old(pos) as int)) is None,
        },
{
    proof {
        reveal(crate::codec::sdec_opt_u32);
    }
    let ghost s0 = buf@.skip(*pos as int);
    match d_u64(buf, pos) {
        Some(tag) => {
            proof {
                assert(s0.len() >= 1 && s0.first() == tag);
                assert(s0.drop_first() =~= buf@.skip(*pos as int));
            }
            if tag == 1 {
                match d_u32(buf, pos) {
                    Some(v) => Some(Some(v)),
                    None => None,
                }
            } else if tag == 0 {
                Some(None)
            } else {
                None
            }
        },
        None => None,
    }
}

fn d_opt_i32(buf: &Vec<u64>, pos: &mut usize) -> (r: Option<Option<i32>>)
    requires
        *old(pos) <= buf@.len(),
    ensures
        match r {
            Some(v) => *old(pos) <= *final(pos) <= buf@.len() && sdec_opt_i32(
                buf@.skip(*old(pos) as int),
            ) == Some((v, buf@.skip(*final(pos) as int))),
            None => sdec_opt_i32(buf@.skip(*old(pos) as int)) is None,
        },
{
    proof {
        reveal(crate::codec::sdec_opt_i32);
    }
    let ghost s0 = buf@.skip(*pos as int);
    match d_u64(buf, pos) {
        Some(tag) => {
            proof {
                assert(s0.len() >= 1 && s0.first() == tag);
                assert(s0.drop_first() =~= buf@.skip(*pos as int));
            }
            if tag == 1 {
                match d_i32(buf, pos) {
                    Some(v) => Some(Some(v)),
                    None => None,
                }
            } else if tag == 0 {
                Some(None)
            } else {
                None
            }
        },
        None => None,
    }
}

fn d_opt_usize(buf: &Vec<u64>, pos: &mut usize) -> (r: Option<Option<usize>>)
    requires
        *old(pos) <= buf@.len(),
    ensures
        match r {
            Some(v) => *old(pos) <= *final(pos) <= buf@.len() && sdec_opt_usize(
                buf@.skip(*old(pos) as int),
            ) == Some((v, buf@.skip(*final(pos) as int))),
            None => sdec_opt_usize(buf@.skip(*old(pos) as int)) is None,
        },
{
    proof {
        reveal(crate::codec::sdec_opt_usize);
    }
    let ghost s0 = buf@.skip(*pos as int);
    match d_u64(buf, pos) {
        Some(tag) => {
            proof {
                assert(s0.len() >= 1 && s0.first() == tag);
                assert(s0.drop_first() =~= buf@.skip(*pos as int));
            }
            if tag == 1 {
                match d_usize(buf, pos) {
                    Some(v) => Some(Some(v)),
                    None => None,
                }
            } else if tag == 0 {
                Some(None)
            } else {
                None
            }
        },
        None => None,
    }
}

fn d_advantage(buf: &Vec<u64>, pos: &mut usize) -> (r: Option<Advantage>)
    requires
        *old(pos) <= buf@.len(),
    ensures
        match r {
            Some(v) => *old(pos) <= *final(pos) <= buf@.len() && sdec_advantage(
                buf@.skip(*old(pos) as int),
            ) == Some((v, buf@.skip(*final(pos) as int))),
            None => sdec_advantage(buf@.skip(*old(pos) as int)) is None,
        },
{
    proof {
        reveal(crate::codec::sdec_advantage);
    }
    let ghost s0 = buf@.skip(*pos as int);
    match d_u64(buf, pos) {
        Some(tag) => {
            proof {
                assert(s0.len() >= 1 && s0.first() == tag);
                assert(s0.drop_first() =~= buf@.skip(*pos as int));
            }
            match tag {
                0u64 => Some(Advantage::Normal),
                1u64 => Some(Advantage::Advantage),
                2u64 => Some(Advantage::Disadvantage),
                _ => None,
            }
        },
        None => None,
    }
}

fn d_stat(buf: &Vec<u64>, pos: &mut usize) -> (r: Option<Stat>)
    requires
        *old(pos) <= buf@.len(),
    ensures
        match r {
            Some(v) => *old(pos) <= *final(pos) <= buf@.len() && sdec_stat(
                buf@.skip(*old(pos) as int),
            ) == Some((v, buf@.skip(*final(pos) as int))),
            None => sdec_stat(buf@.skip(*old(pos) as int)) is None,
        },
{
    proof {
        reveal(crate::codec::sdec_stat);
    }
    let ghost s0 = buf@.skip(*pos as int);
    match d_u64(buf, pos) {
        Some(tag) => {
            proof {
                assert(s0.len() >= 1 && s0.first() == tag);
                assert(s0.drop_first() =~= buf@.skip(*pos as int));
            }
            match tag {
                0u64 => Some(Stat::Strength),
                1u64 => Some(Stat::Dexterity),
                2u64 => Some(Stat::Constitution),
                3u64 => Some(Stat::Intelligence),
                4u64 => Some(Stat::Wisdom),
                5u64 => Some(Stat::Charisma),
                _ => None,
            }
        },
        None => None,
    }
}

fn d_proficiency(buf: &Vec<u64>, pos: &mut usize) -> (r: Option<Proficiency>)
    requires
        *old(pos) <= buf@.len(),
    ensures
        match r {
            Some(v) => *old(pos) <= *final(pos) <= buf@.len() && sdec_proficiency(
                buf@.skip(*old(pos) as int),
            ) == Some((v, buf@.skip(*final(pos) as int))),
            None => sdec_proficiency(buf@.skip(*old(pos) as int)) is None,
        },
{
    proof {
        reveal(crate::codec::sdec_proficiency);
    }
    let ghost s0 = buf@.skip(*pos as int);
    match d_u64(buf, pos) {
        Some(tag) => {
            proof {
                assert(s0.len() >= 1 && s0.first() == tag);
                assert(s0.drop_first() =~= buf@.skip(*pos as int));
            }
            match tag {
                0u64 => Some(Proficiency::Untrained),
                1u64 => Some(Proficiency::HalfProficient),
                2u64 => Some(Proficiency::Proficient),
                3u64 => Some(Proficiency::Expert),
                _ => None,
            }
        },
        None => None,
    }
}

fn d_weapon_proficiency(buf: &Vec<u64>, pos: &mut usize) -> (r: Option<WeaponProficiency>)
    requires
        *old(pos) <= buf@.len(),
    ensures
        match r {
            Some(v) => *old(pos) <= *final(pos) <= buf@.len() && sdec_weapon_proficiency(
                buf@.skip(*old(pos) as int),
            ) == Some((v, buf@.skip(*final(pos) as int))),
            None => sdec_weapon_proficiency(buf@.skip(*old(pos) as int)) is None,
        },
{
    proof {
        reveal(crate::codec::sdec_weapon_proficiency);
    }
    let ghost s0 = buf@.skip(*pos as int);
    match d_u64(buf, pos) {
        Some(tag) => {
            proof {
                assert(s0.len() >= 1 && s0.first() == tag);
                assert(s0.drop_first() =~= buf@.skip(*pos as int));
            }
            match tag {
                0u64 => Some(WeaponProficiency::NotProficient),
                1u64 => Some(WeaponProficiency::HalfProficient),
                2u64 => Some(WeaponProficiency::Proficient),
                _ => None,
            }
        },
        None => None,
    }
}

fn d_equip_slot(buf: &Vec<u64>, pos: &mut usize) -> (r: Option<EquipSlot>)
    requires
        *old(pos) <= buf@.len(),
    ensures
        match r {
            Some(v) => *old(pos) <= *final(pos) <= buf@.len() && sdec_equip_slot(
                buf@.skip(*old(pos) as int),
            ) == Some((v, buf@.skip(*final(pos) as int))),
            None => sdec_equip_slot(buf@.skip(*old(pos) as int)) is None,
        },
{
    proof {
        reveal(crate::codec::sdec_equip_slot);
    }
    let ghost s0 = buf@.skip(*pos as int);
    match d_u64(buf, pos) {
        Some(tag) => {
            proof {
                assert(s0.len() >= 1 && s0.first() == tag);
                assert(s0.drop_first() =~= buf@.skip(*pos as int));
            }
            match tag {
                0u64 => Some(EquipSlot::Head),
                1u64 => Some(EquipSlot::Chest),
                2u64 => Some(EquipSlot::Legs),
                3u64 => Some(EquipSlot::Feet),
                4u64 => Some(EquipSlot::Hands),
                5u64 => Some(EquipSlot::Shield),
                6u64 => Some(EquipSlot::Accessory),
                _ => None,
            }
        },
        None => None,
    }
}

fn d_action_economy_usage(buf: &Vec<u64>, pos: &mut usize) -> (r: Option<ActionEconomyUsage>)
    requires
        *old(pos) <= buf@.len(),
    ensures
        match r {
            Some(v) => *old(pos) <= *final(pos) <= buf@.len() && sdec_action_economy_usage(
                buf@.skip(*old(pos) as int),
            ) == Some((v, buf@.skip(*final(pos) as int))),
            None => sdec_action_economy_usage(buf@.skip(*old(pos) as int)) is None,
        },
{
    proof {
        reveal(crate::codec::sdec_action_economy_usage);
    }
    let ghost s0 = buf@.skip(*pos as int);
    match d_u64(buf, pos) {
        Some(tag) => {
            proof {
                assert(s0.len() >= 1 && s0.first() == tag);
                assert(s0.drop_first() =~= buf@.skip(*pos as int));
            }
            match tag {
                0u64 => Some(ActionEconomyUsage::Action),
                1u64 => Some(ActionEconomyUsage::BonusAction),
                _ => None,
            }
        },
        None => None,
    }
}

#[verifier::rlimit(100)]
fn d_weapon_type(buf: &Vec<u64>, pos: &mut usize) -> (r: Option<WeaponType>)
    requires
        *old(pos) <= buf@.len(),
    ensures
        match r {
            Some(v) => *old(pos) <= *final(pos) <= buf@.len() && sdec_weapon_type(
                buf@.skip(*old(pos) as int),
            ) == Some((v, buf@.skip(*final(pos) as int))),
            None => sdec_weapon_type(buf@.skip(*old(pos) as int)) is None,
        },
{
    proof {
        reveal(crate::codec::sdec_weapon_type);
    }
    let ghost s0 = buf@.skip(*pos as int);
    match d_u64(buf, pos) {
        Some(tag) => {
            proof {
                assert(s0.len() >= 1 && s0.first() == tag);
                assert(s0.drop_first() =~= buf@.skip(*pos as int));
            }
            match tag {
                0u64 => Some(WeaponType::Club),
                1u64 => Some(WeaponType::Dagger),
                2u64 => Some(WeaponType::Greatclub),
                3u64 => Some(WeaponType::Handaxe),
                4u64 => Some(WeaponType::Javelin),
                5u64 => Some(WeaponType::LightHammer),
                6u64 => Some(WeaponType::Mace),
                7u64 => Some(WeaponType::Quarterstaff),
                8u64 => Some(WeaponType::Sickle),
                9u64 => Some(WeaponType::Spear),
                10u64 => Some(WeaponType::CrossbowLight),
                11u64 => Some(WeaponType::Dart),
                12u64 => Some(WeaponType::Shortbow),
                13u64 => Some(WeaponType::Sling),
                14u64 => Some(WeaponType::Battleaxe),
                15u64 => Some(WeaponType::Flail),
                16u64 => Some(WeaponType::Glaive),
                17u64 => Some(WeaponType::Greataxe),
                18u64 => Some(WeaponType::Greatsword),
                19u64 => Some(WeaponType::Halberd),
                20u64 => Some(WeaponType::Lance),
                21u64 => Some(WeaponType::Longsword),
                22u64 => Some(WeaponType::Maul),
                23u64 => Some(WeaponType::Morningstar),
                24u64 => Some(WeaponType::Pike),
                25u64 => Some(WeaponType::Rapier),
                26u64 => Some(WeaponType::Scimitar),
                27u64 => Some(WeaponType::Shortsword),
                28u64 => Some(WeaponType::Trident),
                29u64 => Some(WeaponType::WarPick),
                30u64 => Some(WeaponType::Warhammer),
                31u64 => Some(WeaponType::Whip),
                32u64 => Some(WeaponType::Blowgun),
                33u64 => Some(WeaponType::CrossbowHeavy),
                34u64 => Some(WeaponType::Longbow),
                35u64 => Some(WeaponType::Net),
                _ => None,
            }
        },
        None => None,
    }
}

#[verifier::rlimit(60)]
fn d_roll_settings(buf: &Vec<u64>, pos: &mut usize) -> (r: Option<RollSettings>)
    requires
        *old(pos) <= buf@.len(),
    ensures
        match r {
            Some(v) => *old(pos) <= *final(pos) <= buf@.len() && sdec_roll_settings(
                buf@.skip(*old(pos) as int),
            ) == Some((v, buf@.skip(*final(pos) as int))),
            None => sdec_roll_settings(buf@.skip(*old(pos) as int)) is None,
        },
{
    proof {
        reveal(crate::codec::sdec_roll_settings);
    }
    let advantage = match d_advantage(buf, pos) {
        Some(v) => v,
        None => {
            return None;
        },
    };
    let minimum_die_value = match d_opt_u32(buf, pos) {
        Some(v) => v,
        None => {
            return None;
        },
    };
    let maximum_die_value = match d_opt_u32(buf, pos) {
        Some(v) => v,
        None => {
            return None;
        },
    };
    let reroll_dice_below = match d_opt_u32(buf, pos) {
        Some(v) => v,
        None => {
            return None;
        },
    };
    Some(RollSettings { advantage, minimum_die_value, maximum_die_value, reroll_dice_below })
}

#[verifier::rlimit(60)]
fn d_roll_plan(buf: &Vec<u64>, pos: &mut usize) -> (r: Option<RollPlan>)
    requires
        *old(pos) <= buf@.len(),
    ensures
        match r {
            Some(v) => *old(pos) <= *final(pos) <= buf@.len() && sdec_roll_plan(
                buf@.skip(*old(pos) as int),
            ) == Some((v, buf@.skip(*final(pos) as int))),
            None => sdec_roll_plan(buf@.skip(*old(pos) as int)) is None,
        },
{
    proof {
        reveal(crate::codec::sdec_roll_plan);
    }
    let num_dice = match d_u32(buf, pos) {
        Some(v) => v,
        None => {
            return None;
        },
    };
    let die_size = match d_u32(buf, pos) {
        Some(v) => v,
        None => {
            return None;
        },
    };
    let modifier = match d_i32(buf, pos) {
        Some(v) => v,
        None => {
            return None;
        },
    };
    let settings = match d_roll_settings(buf, pos) {
        Some(v) => v,
        None => {
            return None;
        },
    };
    Some(RollPlan { num_dice, die_size, modifier, settings })
}

fn d_opt_roll_plan(buf: &Vec<u64>, pos: &mut usize) -> (r: Option<Option<RollPlan>>)
    requires
        *old(pos) <= buf@.len(),
    ensures
        match r {
            Some(v) => *old(pos) <= *final(pos) <= buf@.len() && sdec_opt_roll_plan(
                buf@.skip(*old(pos) as int),
            ) == Some((v, buf@.skip(*final(pos) as int))),
            None => sdec_opt_roll_plan(buf@.skip(*old(pos) as int)) is None,
        },
{
    proof {
        reveal(crate::codec::sdec_opt_roll_plan);
    }
    let ghost s0 = buf@.skip(*pos as int);
    match d_u64(buf, pos) {
        Some(tag) => {
            proof {
                assert(s0.len() >= 1 && s0.first() == tag);
                assert(s0.drop_first() =~= buf@.skip(*pos as int));
            }
            if tag == 1 {
                match d_roll_plan(buf, pos) {
                    Some(v) => Some(Some(v)),
                    None => None,
                }
            } else if tag == 0 {
                Some(None)
            } else {
                None
            }
        },
        None => None,
    }
}

#[verifier::rlimit(60)]
fn d_stats(buf: &Vec<u64>, pos: &mut usize) -> (r: Option<Stats>)
    requires
        *old(pos) <= buf@.len(),
    ensures
        match r {
            Some(v) => *old(pos) <= *final(pos) <= buf@.len() && sdec_stats(
                buf@.skip(*old(pos) as int),
            ) == Some((v, buf@.skip(*final(pos) as int))),
            None => sdec_stats(buf@.skip(*old(pos) as int)) is None,
        },
{
    proof {
        reveal(crate::codec::sdec_stats);
    }
    let strength = match d_u32(buf, pos) {
        Some(v) => v,
        None => {
            return None;
        },
    };
    let dexterity = match d_u32(buf, pos) {
        Some(v) => v,
        None => {
            return None;
        },
    };
    let constitution = match d_u32(buf, pos) {
        Some(v) => v,
        None => {
            return None;
        },
    };
    let intelligence = match d_u32(buf, pos) {
        Some(v) => v,
        None => {
            return None;
        },
    };
    let wisdom = match d_u32(buf, pos) {
        Some(v) => v,
        None => {
            return None;
        },
    };
    let charisma = match d_u32(buf, pos) {
        Some(v) => v,
        None => {
            return None;
        },
    };
    Some(Stats { strength, dexterity, constitution, intelligence, wisdom, charisma })
}

#[verifier::rlimit(100)]
fn d_prof9(buf: &Vec<u64>, pos: &mut usize) -> (r: Option<(Proficiency, Proficiency, Proficiency, Proficiency, Proficiency, Proficiency, Proficiency, Proficiency, Proficiency)>)
    requires
        *old(pos) <= buf@.len(),
    ensures
        match r {
            Some(v) => *old(pos) <= *final(pos) <= buf@.len() && sdec_prof9(
                buf@.skip(*old(pos) as int),
            ) == Some((v, buf@.skip(*final(pos) as int))),
            None => sdec_prof9(buf@.skip(*old(pos) as int)) is None,
        },
{
    proof {
        reveal(crate::codec::sdec_prof9);
    }
    let x0 = match d_proficiency(buf, pos) {
        Some(v) => v,
        None => {
            return None;
        },
    };
    let x1 = match d_proficiency(buf, pos) {
        Some(v) => v,
        None => {
            return None;
        },
    };
    let x2 = match d_proficiency(buf, pos) {
        Some(v) => v,
        None => {
            return None;
        },
    };
    let x3 = match d_proficiency(buf, pos) {
        Some(v) => v,
        None => {
            return None;
        },
    };
    let x4 = match d_proficiency(buf, pos) {
        Some(v) => v,
        None => {
            return None;
        },
    };
    let x5 = match d_proficiency(buf, pos) {
        Some(v) => v,
        None => {
            return None;
        },
    };
    let x6 = match d_proficiency(buf, pos) {
        Some(v) => v,
        None => {
            return None;
        },
    };
    let x7 = match d_proficiency(buf, pos) {
        Some(v) => v,
        None => {
            return None;
        },
    };
    let x8 = match d_proficiency(buf, pos) {
        Some(v) => v,
        None => {
            return None;
        },
    };
    Some((x0, x1, x2, x3, x4, x5, x6, x7, x8))
}

#[verifier::rlimit(60)]
fn d_skill_profs(buf: &Vec<u64>, pos: &mut usize) -> (r: Option<SkillProficiencies>)
    requires
        *old(pos) <= buf@.len(),
    ensures
        match r {
            Some(v) => *old(pos) <= *final(pos) <= buf@.len() && sdec_skill_profs(
                buf@.skip(*old(pos) as int),
            ) == Some((v, buf@.skip(*final(pos) as int))),
            None => sdec_skill_profs(buf@.skip(*old(pos) as int)) is None,
        },
{
    proof {
        reveal(crate::codec::sdec_skill_profs);
    }
    let front = match d_prof9(buf, pos) {
        Some(v) => v,
        None => {
            return None;
        },
    };
    let back = match d_prof9(buf, pos) {
        Some(v) => v,
        None => {
            return None;
        },
    };
    Some(SkillProficiencies {
        acrobatics: front.0,
        animal_handling: front.1,
        arcana: front.2,
        athletics: front.3,
        deception: front.4,
        history: front.5,
        insight: front.6,
        intimidation: front.7,
        investigation: front.8,
        medicine: back.0,
        nature: back.1,
        perception: back.2,
        performance: back.3,
        persuasion: back.4,
        religion: back.5,
        sleight_of_hand: back.6,
        stealth: back.7,
        survival: back.8,
    })
}

#[verifier::rlimit(60)]
fn d_save_profs(buf: &Vec<u64>, pos: &mut usize) -> (r: Option<SavingThrowProficiencies>)
    requires
        *old(pos) <= buf@.len(),
    ensures
        match r {
            Some(v) => *old(pos) <= *final(pos) <= buf@.len() && sdec_save_profs(
                buf@.skip(*old(pos) as int),
            ) == Some((v, buf@.skip(*final(pos) as int))),
            None => sdec_save_profs(buf@.skip(*old(pos) as int)) is None,
        },
{
    proof {
        reveal(crate::codec::sdec_save_profs);
    }
    let strength = match d_bool(buf, pos) {
        Some(v) => v,
        None => {
            return None;
        },
    };
    let dexterity = match d_bool(buf, pos) {
        Some(v) => v,
        None => {
            return None;
        },
    };
    let constitution = match d_bool(buf, pos) {
        Some(v) => v,
        None => {
            return None;
        },
    };
    let intelligence = match d_bool(buf, pos) {
        Some(v) => v,
        None => {
            return None;
        },
    };
    let wisdom = match d_bool(buf, pos) {
        Some(v) => v,
        None => {
            return None;
        },
    };
    let charisma = match d_bool(buf, pos) {
        Some(v) => v,
        None => {
            return None;
        },
    };
    Some(SavingThrowProficiencies { strength, dexterity, constitution, intelligence, wisdom, charisma })
}

fn d_death_saves(buf: &Vec<u64>, pos: &mut usize) -> (r: Option<DeathSaves>)
    requires
        *old(pos) <= buf@.len(),
    ensures
        match r {
            Some(v) => *old(pos) <= *final(pos) <= buf@.len() && sdec_death_saves(
                buf@.skip(*old(pos) as int),
            ) == Some((v, buf@.skip(*final(pos) as int))),
            None => sdec_death_saves(buf@.skip(*old(pos) as int)) is None,
        },
{
    proof {
        reveal(crate::codec::sdec_death_saves);
    }
    let successes = match d_u8(buf, pos) {
        Some(v) => v,
        None => {
            return None;
        },
    };
    let failures = match d_u8(buf, pos) {
        Some(v) => v,
        None => {
            return None;
        },
    };
    Some(DeathSaves { successes, failures })
}

#[verifier::rlimit(60)]
fn d_action_economy(buf: &Vec<u64>, pos: &mut usize) -> (r: Option<ActionEconomy>)
    requires
        *old(pos) <= buf@.len(),
    ensures
        match r {
            Some(v) => *old(pos) <= *final(pos) <= buf@.len() && sdec_action_economy(
                buf@.skip(*old(pos) as int),
            ) == Some((v, buf@.skip(*final(pos) as int))),
            None => sdec_action_economy(buf@.skip(*old(pos) as int)) is None,
        },
{
    proof {
        reveal(crate::codec::sdec_action_economy);
    }
    let action_used = match d_bool(buf, pos) {
        Some(v) => v,
        None => {
            return None;
        },
    };
    let bonus_action_used = match d_bool(buf, pos) {
        Some(v) => v,
        None => {
            return None;
        },
    };
    let reaction_used = match d_bool(buf, pos) {
        Some(v) => v,
        None => {
            return None;
        },
    };
    let free_actions_used = match d_u32(buf, pos) {
        Some(v) => v,
        None => {
            return None;
        },
    };
    let movement_used = match d_u32(buf, pos) {
        Some(v) => v,
        None => {
            return None;
        },
    };
    Some(ActionEconomy { action_used, bonus_action_used, reaction_used, free_actions_used, movement_used })
}

fn d_armor(buf: &Vec<u64>, pos: &mut usize) -> (r: Option<Armor>)
    requires
        *old(pos) <= buf@.len(),
    ensures
        match r {
            Some(v) => *old(pos) <= *final(pos) <= buf@.len() && sdec_armor(
                buf@.skip(*old(pos) as int),
            ) == Some((v, buf@.skip(*final(pos) as int))),
            None => sdec_armor(buf@.skip(*old(pos) as int)) is None,
        },
{
    proof {
        reveal(crate::codec::sdec_armor);
    }
    let ac_bonus = match d_u32(buf, pos) {
        Some(v) => v,
        None => {
            return None;
        },
    };
    let stealth_disadvantage = match d_bool(buf, pos) {
        Some(v) => v,
        None => {
            return None;
        },
    };
    Some(Armor { ac_bonus, stealth_disadvantage })
}

fn d_spell_ref(buf: &Vec<u64>, pos: &mut usize) -> (r: Option<SpellId>)
    requires
        *old(pos) <= buf@.len(),
    ensures
        match r {
            Some(v) => *old(pos) <= *final(pos) <= buf@.len() && sdec_spell_ref(
                buf@.skip(*old(pos) as int),
            ) == Some((v, buf@.skip(*final(pos) as int))),
            None => sdec_spell_ref(buf@.skip(*old(pos) as int)) is None,
        },
{
    proof {
        reveal(crate::codec::sdec_spell_ref);
    }
    let raw = match d_u32(buf, pos) {
        Some(v) => v,
        None => {
            return None;
        },
    };
    Some(SpellId(raw))
}

fn d_actor_ref(buf: &Vec<u64>, pos: &mut usize) -> (r: Option<ActorId>)
    requires
        *old(pos) <= buf@.len(),
    ensures
        match r {
            Some(v) => *old(pos) <= *final(pos) <= buf@.len() && sdec_actor_ref(
                buf@.skip(*old(pos) as int),
            ) == Some((v, buf@.skip(*final(pos) as int))),
            None => sdec_actor_ref(buf@.skip(*old(pos) as int)) is None,
        },
{
    proof {
        reveal(crate::codec::sdec_actor_ref);
    }
    let raw = match d_u32(buf, pos) {
        Some(v) => v,
        None => {
            return None;
        },
    };
    Some(ActorId(raw))
}

fn d_item_ref(buf: &Vec<u64>, pos: &mut usize) -> (r: Option<ItemId>)
    requires
        *old(pos) <= buf@.len(),
    ensures
        match r {
            Some(v) => *old(pos) <= *final(pos) <= buf@.len() && sdec_item_ref(
                buf@.skip(*old(pos) as int),
            ) == Some((v, buf@.skip(*final(pos) as int))),
            None => sdec_item_ref(buf@.skip(*old(pos) as int)) is None,
        },
{
    proof {
        reveal(crate::codec::sdec_item_ref);
    }
    let raw = match d_u32(buf, pos) {
        Some(v) => v,
        None => {
            return None;
        },
    };
    Some(ItemId(raw))
}

#[verifier::rlimit(100)]
fn d_weapon(buf: &Vec<u64>, pos: &mut usize) -> (r: Option<Weapon>)
    requires
        *old(pos) <= buf@.len(),
    ensures
        match r {
            Some(v) => *old(pos) <= *final(pos) <= buf@.len() && sdec_weapon(
                buf@.skip(*old(pos) as int),
            ) == Some((v, buf@.skip(*final(pos) as int))),
            None => sdec_weapon(buf@.skip(*old(pos) as int)) is None,
        },
{
    proof {
        reveal(crate::codec::sdec_weapon);
    }
    let weapon_type = match d_weapon_type(buf, pos) {
        Some(v) => v,
        None => {
            return None;
        },
    };
    let attack_bonus = match d_i32(buf, pos) {
        Some(v) => v,
        None => {
            return None;
        },
    };
    let damage = match d_roll_plan(buf, pos) {
        Some(v) => v,
        None => {
            return None;
        },
    };
    let critical_damage = match d_opt_roll_plan(buf, pos) {
        Some(v) => v,
        None => {
            return None;
        },
    };
    let range = match d_opt_u32(buf, pos) {
        Some(v) => v,
        None => {
            return None;
        },
    };
    Some(Weapon { weapon_type, attack_bonus, damage, critical_damage, range })
}

fn d_potion(buf: &Vec<u64>, pos: &mut usize) -> (r: Option<Potion>)
    requires
        *old(pos) <= buf@.len(),
    ensures
        match r {
            Some(v) => *old(pos) <= *final(pos) <= buf@.len() && sdec_potion(
                buf@.skip(*old(pos) as int),
            ) == Some((v, buf@.skip(*final(pos) as int))),
            None => sdec_potion(buf@.skip(*old(pos) as int)) is None,
        },
{
    proof {
        reveal(crate::codec::sdec_potion);
    }
    let healing_amount = match d_roll_plan(buf, pos) {
        Some(v) => v,
        None => {
            return None;
        },
    };
    Some(Potion { healing_amount })
}

fn d_equip_pair(buf: &Vec<u64>, pos: &mut usize) -> (r: Option<(EquipSlot, ItemId)>)
    requires
        *old(pos) <= buf@.len(),
    ensures
        match r {
            Some(v) => *old(pos) <= *final(pos) <= buf@.len() && sdec_equip_pair(
                buf@.skip(*old(pos) as int),
            ) == Some((v, buf@.skip(*final(pos) as int))),
            None => sdec_equip_pair(buf@.skip(*old(pos) as int)) is None,
        },
{
    proof {
        reveal(crate::codec::sdec_equip_pair);
    }
    let slot = match d_equip_slot(buf, pos) {
        Some(v) => v,
        None => {
            return None;
        },
    };
    let item = match d_item_ref(buf, pos) {
        Some(v) => v,
        None => {
            return None;
        },
    };
    Some((slot, item))
}

fn d_wp_pair(buf: &Vec<u64>, pos: &mut usize) -> (r: Option<(WeaponType, WeaponProficiency)>)
    requires
        *old(pos) <= buf@.len(),
    ensures
        match r {
            Some(v) => *old(pos) <= *final(pos) <= buf@.len() && sdec_wp_pair(
                buf@.skip(*old(pos) as int),
            ) == Some((v, buf@.skip(*final(pos) as int))),
            None => sdec_wp_pair(buf@.skip(*old(pos) as int)) is None,
        },
{
    proof {
        reveal(crate::codec::sdec_wp_pair);
    }
    let wt = match d_weapon_type(buf, pos) {
        Some(v) => v,
        None => {
            return None;
        },
    };
    let wp = match d_weapon_proficiency(buf, pos) {
        Some(v) => v,
        None => {
            return None;
        },
    };
    Some((wt, wp))
}

fn d_str(buf: &Vec<u64>, pos: &mut usize) -> (r: Option<String>)
    requires
        *old(pos) <= buf@.len(),
    ensures
        match r {
            Some(v) => *old(pos) <= *final(pos) <= buf@.len() && sdec_str(
                buf@.skip(*old(pos) as int),
            ) == Some((v@, buf@.skip(*final(pos) as int))),
            None => sdec_str(buf@.skip(*old(pos) as int)) is None,
        },
{
    let ghost s0 = buf@.skip(*pos as int);
    let n: u64 = match d_u64(buf, pos) {
        Some(v) => v,
        None => {
            return None;
        },
    };
    let ghost s1 = buf@.skip(*pos as int);
    let mut out = String::new();
    let mut i: u64 = 0;
    while i < n
        invariant
            *pos <= buf@.len(),
            *old(pos) <= *pos,
            i <= n,
            out@.len() == i,
            s0 == buf@.skip(*old(pos) as int),
            sdec_u64(s0) == Some((n, s1)),
            match sdec_chars(buf@.skip(*pos as int), (n - i) as nat) {
                Some(p) => sdec_chars(s1, n as nat) == Some((out@ + p.0, p.1)),
                None => sdec_chars(s1, n as nat) is None,
            },
        decreases n - i,
    {
        let ghost pre = buf@.skip(*pos as int);
        let ghost prev_out = out@;
        let token: u64 = match d_u64(buf, pos) {
            Some(v) => v,
            None => {
                proof {
                    assert(pre.len() == 0);
                    assert(sdec_chars(pre, (n - i) as nat) is None);
                }
                return None;
            },
        };
        proof {
            assert(pre.len() >= 1 && pre.first() == token);
            assert(pre.drop_first() =~= buf@.skip(*pos as int));
        }
        if token > 0xFFFF_FFFFu64 {
            proof {
                assert(!is_scalar_token(token));
                assert(sdec_chars(pre, (n - i) as nat) is None);
            }
            return None;
        }
        let c: char = match crate::codec::char_of_u32(token as u32) {
            Some(c) => c,
            None => {
                proof {
                    assert(!is_scalar_token(token));
                    assert(sdec_chars(pre, (n - i) as nat) is None);
                }
                return None;
            },
        };
        proof {
            assert(is_scalar_token(token));
            vstd::utf8::char_u32_cast(c, token as u32);
            assert(spec_char_of(token as u32) == c);
            match sdec_chars(buf@.skip(*pos as int), (n - i - 1) as nat) {
                Some(q) => {
                    assert(sdec_chars(pre, (n - i) as nat) == Some((seq![c] + q.0, q.1)));
                    assert(prev_out + (seq![c] + q.0) =~= prev_out.push(c) + q.0);
                },
                None => {
                    assert(sdec_chars(pre, (n - i) as nat) is None);
                },
            }
        }
        crate::codec::push_char(&mut out, c);
        i = i + 1;
    }
    proof {
        assert(sdec_chars(buf@.skip(*pos as int), 0) == Some((
            Seq::<char>::empty(),
            buf@.skip(*pos as int),
        )));
        assert(out@ + Seq::<char>::empty() =~= out@);
    }
    Some(out)
}

fn d_scroll(buf: &Vec<u64>, pos: &mut usize) -> (r: Option<Scroll>)
    requires
        *old(pos) <= buf@.len(),
    ensures
        match r {
            Some(v) => *old(pos) <= *final(pos) <= buf@.len() && sdec_scroll(
                buf@.skip(*old(pos) as int),
            ) == Some((v, buf@.skip(*final(pos) as int))),
            None => sdec_scroll(buf@.skip(*old(pos) as int)) is None,
        },
{
    proof {
        reveal(crate::codec::sdec_scroll);
    }
    let spell_id = match d_spell_ref(buf, pos) {
        Some(v) => v,
        None => {
            return None;
        },
    };
    Some(Scroll { spell_id })
}

#[verifier::rlimit(60)]
fn d_item_type(buf: &Vec<u64>, pos: &mut usize) -> (r: Option<ItemType>)
    requires
        *old(pos) <= buf@.len(),
    ensures
        match r {
            Some(v) => *old(pos) <= *final(pos) <= buf@.len() && sdec_item_type(
                buf@.skip(*old(pos) as int),
            ) == Some((v, buf@.skip(*final(pos) as int))),
            None => sdec_item_type(buf@.skip(*old(pos) as int)) is None,
        },
{
    proof {
        reveal(crate::codec::sdec_item_type);
    }
    let ghost s0 = buf@.skip(*pos as int);
    match d_u64(buf, pos) {
        Some(tag) => {
            proof {
                assert(s0.len() >= 1 && s0.first() == tag);
                assert(s0.drop_first() =~= buf@.skip(*pos as int));
            }
            match tag {
                0u64 => match d_potion(buf, pos) {
                    Some(p) => Some(ItemType::Potion(p)),
                    None => None,
                },
                1u64 => match d_scroll(buf, pos) {
                    Some(sc) => Some(ItemType::Scroll(sc)),
                    None => None,
                },
                2u64 => match d_weapon(buf, pos) {
                    Some(w) => Some(ItemType::Weapon(w)),
                    None => None,
                },
                3u64 => match d_armor(buf, pos) {
                    Some(a) => Some(ItemType::Armor(a)),
                    None => None,
                },
                _ => None,
            }
        },
        None => None,
    }
}

#[verifier::rlimit(60)]
fn d_item(buf: &Vec<u64>, pos: &mut usize) -> (r: Option<Item>)
    requires
        *old(pos) <= buf@.len(),
    ensures
        match r {
            Some(v) => *old(pos) <= *final(pos) <= buf@.len() && sdec_item(
                buf@.skip(*old(pos) as int),
            ) == Some((v@, buf@.skip(*final(pos) as int))),
            None => sdec_item(buf@.skip(*old(pos) as int)) is None,
        },
{
    proof {
        reveal(crate::codec::sdec_item);
    }
    let id = match d_item_ref(buf, pos) {
        Some(v) => v,
        None => {
            return None;
        },
    };
    let name = match d_str(buf, pos) {
        Some(v) => v,
        None => {
            return None;
        },
    };
    let item_type = match d_item_type(buf, pos) {
        Some(v) => v,
        None => {
            return None;
        },
    };
    Some(Item { id, name, item_type })
}

#[verifier::rlimit(60)]
fn d_inventory_entry(buf: &Vec<u64>, pos: &mut usize) -> (r: Option<InventoryEntry>)
    requires
        *old(pos) <= buf@.len(),
    ensures
        match r {
            Some(v) => *old(pos) <= *final(pos) <= buf@.len() && sdec_inventory_entry(
                buf@.skip(*old(pos) as int),
            ) == Some((v@, buf@.skip(*final(pos) as int))),
            None => sdec_inventory_entry(buf@.skip(*old(pos) as int)) is None,
        },
{
    proof {
        reveal(crate::codec::sdec_inventory_entry);
    }
    let item = match d_item(buf, pos) {
        Some(v) => v,
        None => {
            return None;
        },
    };
    let quantity = match d_u32(buf, pos) {
        Some(v) => v,
        None => {
            return None;
        },
    };
    Some(InventoryEntry { item, quantity })
}

#[verifier::rlimit(60)]
fn d_equip_pairs(buf: &Vec<u64>, pos: &mut usize) -> (r: Option<Vec<(EquipSlot, ItemId)>>)
    requires
        *old(pos) <= buf@.len(),
    ensures
        match r {
            Some(v) => *old(pos) <= *final(pos) <= buf@.len() && sdec_seq(
                buf@.skip(*old(pos) as int),
                equip_pair_dec(),
            ) == Some((v@, buf@.skip(*final(pos) as int))),
            None => sdec_seq(buf@.skip(*old(pos) as int), equip_pair_dec()) is None,
        },
{
    let ghost s0 = buf@.skip(*pos as int);
    let n: u64 = match d_u64(buf, pos) {
        Some(v) => v,
        None => {
            return None;
        },
    };
    let ghost s1 = buf@.skip(*pos as int);
    let mut out: Vec<(EquipSlot, ItemId)> = Vec::new();
    let mut i: u64 = 0;
    while i < n
        invariant
            *pos <= buf@.len(),
            *old(pos) <= *pos,
            i <= n,
            (out@).len() == i,
            s0 == buf@.skip(*old(pos) as int),
            sdec_u64(s0) == Some((n, s1)),
            match sdec_items(buf@.skip(*pos as int), (n - i) as nat, equip_pair_dec()) {
                Some(p) => sdec_items(s1, n as nat, equip_pair_dec()) == Some((
                    (out@) + p.0,
                    p.1,
                )),
                None => sdec_items(s1, n as nat, equip_pair_dec()) is None,
            },
        decreases n - i,
    {
        let ghost pre = buf@.skip(*pos as int);
        let ghost prev_out = out@;
        match d_equip_pair(buf, pos) {
            Some(v) => {
                proof {
                    assert(equip_pair_dec()(pre) == Some((v, buf@.skip(*pos as int))));
                    match sdec_items(buf@.skip(*pos as int), (n - i - 1) as nat, equip_pair_dec()) {
                        Some(q) => {
                            assert(sdec_items(pre, (n - i) as nat, equip_pair_dec()) == Some((
                                seq![v] + q.0,
                                q.1,
                            )));
                            assert(prev_out + (seq![v] + q.0) =~= prev_out.push(
                                v,
                            ) + q.0);
                        },
                        None => {
                            assert(sdec_items(pre, (n - i) as nat, equip_pair_dec()) is None);
                        },
                    }
                }
                out.push(v);
                proof {
                    assert(out@ =~= prev_out.push(v));
                }
            },
            None => {
                proof {
                    assert(equip_pair_dec()(pre) is None);
                    assert(sdec_items(pre, (n - i) as nat, equip_pair_dec()) is None);
                }
                return None;
            },
        }
        i = i + 1;
    }
    proof {
        assert(sdec_items(
            buf@.skip(*pos as int),
            0,
            equip_pair_dec(),
        ) == Some((Seq::<(EquipSlot, ItemId)>::empty(), buf@.skip(*pos as int))));
        assert((out@) + Seq::empty() =~= out@);
    }
    Some(out)
}

#[verifier::rlimit(60)]
fn d_wp_pairs(buf: &Vec<u64>, pos: &mut usize) -> (r: Option<Vec<(WeaponType, WeaponProficiency)>>)
    requires
        *old(pos) <= buf@.len(),
    ensures
        match r {
            Some(v) => *old(pos) <= *final(pos) <= buf@.len() && sdec_seq(
                buf@.skip(*old(pos) as int),
                wp_pair_dec(),
            ) == Some((v@, buf@.skip(*final(pos) as int))),
            None => sdec_seq(buf@.skip(*old(pos) as int), wp_pair_dec()) is None,
        },
{
    let ghost s0 = buf@.skip(*pos as int);
    let n: u64 = match d_u64(buf, pos) {
        Some(v) => v,
        None => {
            return None;
        },
    };
    let ghost s1 = buf@.skip(*pos as int);
    let mut out: Vec<(WeaponType, WeaponProficiency)> = Vec::new();
    let mut i: u64 = 0;
    while i < n
        invariant
            *pos <= buf@.len(),
            *old(pos) <= *pos,
            i <= n,
            (out@).len() == i,
            s0 == buf@.skip(*old(pos) as int),
            sdec_u64(s0) == Some((n, s1)),
            match sdec_items(buf@.skip(*pos as int), (n - i) as nat, wp_pair_dec()) {
                Some(p) => sdec_items(s1, n as nat, wp_pair_dec()) == Some((
                    (out@) + p.0,
                    p.1,
                )),
                None => sdec_items(s1, n as nat, wp_pair_dec()) is None,
            },
        decreases n - i,
    {
        let ghost pre = buf@.skip(*pos as int);
        let ghost prev_out = out@;
        match d_wp_pair(buf, pos) {
            Some(v) => {
                proof {
                    assert(wp_pair_dec()(pre) == Some((v, buf@.skip(*pos as int))));
                    match sdec_items(buf@.skip(*pos as int), (n - i - 1) as nat, wp_pair_dec()) {
                        Some(q) => {
                            assert(sdec_items(pre, (n - i) as nat, wp_pair_dec()) == Some((
                                seq![v] + q.0,
                                q.1,
                            )));
                            assert(prev_out + (seq![v] + q.0) =~= prev_out.push(
                                v,
                            ) + q.0);
                        },
                        None => {
                            assert(sdec_items(pre, (n - i) as nat, wp_pair_dec()) is None);
                        },
                    }
                }
                out.push(v);
                proof {
                    assert(out@ =~= prev_out.push(v));
                }
            },
            None => {
                proof {
                    assert(wp_pair_dec()(pre) is None);
                    assert(sdec_items(pre, (n - i) as nat, wp_pair_dec()) is None);
                }
                return None;
            },
        }
        i = i + 1;
    }
    proof {
        assert(sdec_items(
            buf@.skip(*pos as int),
            0,
            wp_pair_dec(),
        ) == Some((Seq::<(WeaponType, WeaponProficiency)>::empty(), buf@.skip(*pos as int))));
        assert((out@) + Seq::empty() =~= out@);
    }
    Some(out)
}

#[verifier::rlimit(60)]
fn d_ids(buf: &Vec<u64>, pos: &mut usize) -> (r: Option<Vec<ActorId>>)
    requires
        *old(pos) <= buf@.len(),
    ensures
        match r {
            Some(v) => *old(pos) <= *final(pos) <= buf@.len() && sdec_seq(
                buf@.skip(*old(pos) as int),
                actor_ref_dec(),
            ) == Some((v@, buf@.skip(*final(pos) as int))),
            None => sdec_seq(buf@.skip(*old(pos) as int), actor_ref_dec()) is None,
        },
{
    let ghost s0 = buf@.skip(*pos as int);
    let n: u64 = match d_u64(buf, pos) {
        Some(v) => v,
        None => {
            return None;
        },
    };
    let ghost s1 = buf@.skip(*pos as int);
    let mut out: Vec<ActorId> = Vec::new();
    let mut i: u64 = 0;
    while i < n
        invariant
            *pos <= buf@.len(),
            *old(pos) <= *pos,
            i <= n,
            (out@).len() == i,
            s0 == buf@.skip(*old(pos) as int),
            sdec_u64(s0) == Some((n, s1)),
            match sdec_items(buf@.skip(*pos as int), (n - i) as nat, actor_ref_dec()) {
                Some(p) => sdec_items(s1, n as nat, actor_ref_dec()) == Some((
                    (out@) + p.0,
                    p.1,
                )),
                None => sdec_items(s1, n as nat, actor_ref_dec()) is None,
            },
        decreases n - i,
    {
        let ghost pre = buf@.skip(*pos as int);
        let ghost prev_out = out@;
        match d_actor_ref(buf, pos) {
            Some(v) => {
                proof {
                    assert(actor_ref_dec()(pre) == Some((v, buf@.skip(*pos as int))));
                    match sdec_items(buf@.skip(*pos as int), (n - i - 1) as nat, actor_ref_dec()) {
                        Some(q) => {
                            assert(sdec_items(pre, (n - i) as nat, actor_ref_dec()) == Some((
                                seq![v] + q.0,
                                q.1,
                            )));
                            assert(prev_out + (seq![v] + q.0) =~= prev_out.push(
                                v,
                            ) + q.0);
                        },
                        None => {
                            assert(sdec_items(pre, (n - i) as nat, actor_ref_dec()) is None);
                        },
                    }
                }
                out.push(v);
                proof {
                    assert(out@ =~= prev_out.push(v));
                }
            },
            None => {
                proof {
                    assert(actor_ref_dec()(pre) is None);
                    assert(sdec_items(pre, (n - i) as nat, actor_ref_dec()) is None);
                }
                return None;
            },
        }
        i = i + 1;
    }
    proof {
        assert(sdec_items(
            buf@.skip(*pos as int),
            0,
            actor_ref_dec(),
        ) == Some((Seq::<ActorId>::empty(), buf@.skip(*pos as int))));
        assert((out@) + Seq::empty() =~= out@);
    }
    Some(out)
}

#[verifier::rlimit(60)]
fn d_entries(buf: &Vec<u64>, pos: &mut usize) -> (r: Option<Vec<InventoryEntry>>)
    requires
        *old(pos) <= buf@.len(),
    ensures
        match r {
            Some(v) => *old(pos) <= *final(pos) <= buf@.len() && sdec_seq(
                buf@.skip(*old(pos) as int),
                inventory_entry_dec(),
            ) == Some((v@.map_values(|e: InventoryEntry| e@), buf@.skip(*final(pos) as int))),
            None => sdec_seq(buf@.skip(*old(pos) as int), inventory_entry_dec()) is None,
        },
{
    let ghost s0 = buf@.skip(*pos as int);
    let n: u64 = match d_u64(buf, pos) {
        Some(v) => v,
        None => {
            return None;
        },
    };
    let ghost s1 = buf@.skip(*pos as int);
    let mut out: Vec<InventoryEntry> = Vec::new();
    let mut i: u64 = 0;
    while i < n
        invariant
            *pos <= buf@.len(),
            *old(pos) <= *pos,
            i <= n,
            (out@.map_values(|e: InventoryEntry| e@)).len() == i,
            s0 == buf@.skip(*old(pos) as int),
            sdec_u64(s0) == Some((n, s1)),
            match sdec_items(buf@.skip(*pos as int), (n - i) as nat, inventory_entry_dec()) {
                Some(p) => sdec_items(s1, n as nat, inventory_entry_dec()) == Some((
                    (out@.map_values(|e: InventoryEntry| e@)) + p.0,
                    p.1,
                )),
                None => sdec_items(s1, n as nat, inventory_entry_dec()) is None,
            },
        decreases n - i,
    {
        let ghost pre = buf@.skip(*pos as int);
        let ghost prev_out = out@.map_values(|e: InventoryEntry| e@);
        match d_inventory_entry(buf, pos) {
            Some(v) => {
                proof {
                    assert(inventory_entry_dec()(pre) == Some((v@, buf@.skip(*pos as int))));
                    match sdec_items(buf@.skip(*pos as int), (n - i - 1) as nat, inventory_entry_dec()) {
                        Some(q) => {
                            assert(sdec_items(pre, (n - i) as nat, inventory_entry_dec()) == Some((
                                seq![v@] + q.0,
                                q.1,
                            )));
                            assert(prev_out + (seq![v@] + q.0) =~= prev_out.push(
                                v@,
                            ) + q.0);
                        },
                        None => {
                            assert(sdec_items(pre, (n - i) as nat, inventory_entry_dec()) is None);
                        },
                    }
                }
                out.push(v);
                proof {
                    assert(out@.map_values(|e: InventoryEntry| e@) =~= prev_out.push(v@));
                }
            },
            None => {
                proof {
                    assert(inventory_entry_dec()(pre) is None);
                    assert(sdec_items(pre, (n - i) as nat, inventory_entry_dec()) is None);
                }
                return None;
            },
        }
        i = i + 1;
    }
    proof {
        assert(sdec_items(
            buf@.skip(*pos as int),
            0,
            inventory_entry_dec(),
        ) == Some((Seq::<crate::items::InventoryEntryView>::empty(), buf@.skip(*pos as int))));
        assert((out@.map_values(|e: InventoryEntry| e@)) + Seq::empty() =~= out@.map_values(|e: InventoryEntry| e@));
    }
    Some(out)
}

#[verifier::rlimit(60)]
fn d_actors(buf: &Vec<u64>, pos: &mut usize) -> (r: Option<Vec<Actor>>)
    requires
        *old(pos) <= buf@.len(),
    ensures
        match r {
            Some(v) => *old(pos) <= *final(pos) <= buf@.len() && sdec_seq(
                buf@.skip(*old(pos) as int),
                actor_dec(),
            ) == Some((v@.map_values(|a: Actor| a@), buf@.skip(*final(pos) as int))),
            None => sdec_seq(buf@.skip(*old(pos) as int), actor_dec()) is None,
        },
{
    let ghost s0 = buf@.skip(*pos as int);
    let n: u64 = match d_u64(buf, pos) {
        Some(v) => v,
        None => {
            return None;
        },
    };
    let ghost s1 = buf@.skip(*pos as int);
    let mut out: Vec<Actor> = Vec::new();
    let mut i: u64 = 0;
    while i < n
        invariant
            *pos <= buf@.len(),
            *old(pos) <= *pos,
            i <= n,
            (out@.map_values(|a: Actor| a@)).len() == i,
            s0 == buf@.skip(*old(pos) as int),
            sdec_u64(s0) == Some((n, s1)),
            match sdec_items(buf@.skip(*pos as int), (n - i) as nat, actor_dec()) {
                Some(p) => sdec_items(s1, n as nat, actor_dec()) == Some((
                    (out@.map_values(|a: Actor| a@)) + p.0,
                    p.1,
                )),
                None => sdec_items(s1, n as nat, actor_dec()) is None,
            },
        decreases n - i,
    {
        let ghost pre = buf@.skip(*pos as int);
        let ghost prev_out = out@.map_values(|a: Actor| a@);
        match d_actor(buf, pos) {
            Some(v) => {
                proof {
                    assert(actor_dec()(pre) == Some((v@, buf@.skip(*pos as int))));
                    match sdec_items(buf@.skip(*pos as int), (n - i - 1) as nat, actor_dec()) {
                        Some(q) => {
                            assert(sdec_items(pre, (n - i) as nat, actor_dec()) == Some((
                                seq![v@] + q.0,
                                q.1,
                            )));
                            assert(prev_out + (seq![v@] + q.0) =~= prev_out.push(
                                v@,
                            ) + q.0);
                        },
                        None => {
                            assert(sdec_items(pre, (n - i) as nat, actor_dec()) is None);
                        },
                    }
                }
                out.push(v);
                proof {
                    assert(out@.map_values(|a: Actor| a@) =~= prev_out.push(v@));
                }
            },
            None => {
                proof {
                    assert(actor_dec()(pre) is None);
                    assert(sdec_items(pre, (n - i) as nat, actor_dec()) is None);
                }
                return None;
            },
        }
        i = i + 1;
    }
    proof {
        assert(sdec_items(
            buf@.skip(*pos as int),
            0,
            actor_dec(),
        ) == Some((Seq::<crate::actor::ActorView>::empty(), buf@.skip(*pos as int))));
        assert((out@.map_values(|a: Actor| a@)) + Seq::empty() =~= out@.map_values(|a: Actor| a@));
    }
    Some(out)
}

#[verifier::rlimit(60)]
fn d_items_list(buf: &Vec<u64>, pos: &mut usize) -> (r: Option<Vec<Item>>)
    requires
        *old(pos) <= buf@.len(),
    ensures
        match r {
            Some(v) => *old(pos) <= *final(pos) <= buf@.len() && sdec_seq(
                buf@.skip(*old(pos) as int),
                item_dec(),
            ) == Some((v@.map_values(|it: Item| it@), buf@.skip(*final(pos) as int))),
            None => sdec_seq(buf@.skip(*old(pos) as int), item_dec()) is None,
        },
{
    let ghost s0 = buf@.skip(*pos as int);
    let n: u64 = match d_u64(buf, pos) {
        Some(v) => v,
        None => {
            return None;
        },
    };
    let ghost s1 = buf@.skip(*pos as int);
    let mut out: Vec<Item> = Vec::new();
    let mut i: u64 = 0;
    while i < n
        invariant
            *pos <= buf@.len(),
            *old(pos) <= *pos,
            i <= n,
            (out@.map_values(|it: Item| it@)).len() == i,
            s0 == buf@.skip(*old(pos) as int),
            sdec_u64(s0) == Some((n, s1)),
            match sdec_items(buf@.skip(*pos as int), (n - i) as nat, item_dec()) {
                Some(p) => sdec_items(s1, n as nat, item_dec()) == Some((
                    (out@.map_values(|it: Item| it@)) + p.0,
                    p.1,
                )),
                None => sdec_items(s1, n as nat, item_dec()) is None,
            },
        decreases n - i,
    {
        let ghost pre = buf@.skip(*pos as int);
        let ghost prev_out = out@.map_values(|it: Item| it@);
        match d_item(buf, pos) {
            Some(v) => {
                proof {
                    assert(item_dec()(pre) == Some((v@, buf@.skip(*pos as int))));
                    match sdec_items(buf@.skip(*pos as int), (n - i - 1) as nat, item_dec()) {
                        Some(q) => {
                            assert(sdec_items(pre, (n - i) as nat, item_dec()) == Some((
                                seq![v@] + q.0,
                                q.1,
                            )));
                            assert(prev_out + (seq![v@] + q.0) =~= prev_out.push(
                                v@,
                            ) + q.0);
                        },
                        None => {
                            assert(sdec_items(pre, (n - i) as nat, item_dec()) is None);
                        },
                    }
                }
                out.push(v);
                proof {
                    assert(out@.map_values(|it: Item| it@) =~= prev_out.push(v@));
                }
            },
            None => {
                proof {
                    assert(item_dec()(pre) is None);
                    assert(sdec_items(pre, (n - i) as nat, item_dec()) is None);
                }
                return None;
            },
        }
        i = i + 1;
    }
    proof {
        assert(sdec_items(
            buf@.skip(*pos as int),
            0,
            item_dec(),
        ) == Some((Seq::<crate::items::ItemView>::empty(), buf@.skip(*pos as int))));
        assert((out@.map_values(|it: Item| it@)) + Seq::empty() =~= out@.map_values(|it: Item| it@));
    }
    Some(out)
}

#[verifier::rlimit(60)]
fn d_groups(buf: &Vec<u64>, pos: &mut usize) -> (r: Option<Vec<Vec<ActorId>>>)
    requires
        *old(pos) <= buf@.len(),
    ensures
        match r {
            Some(v) => *old(pos) <= *final(pos) <= buf@.len() && sdec_seq(
                buf@.skip(*old(pos) as int),
                group_dec(),
            ) == Some((v@.map_values(|g: Vec<ActorId>| g@), buf@.skip(*final(pos) as int))),
            None => sdec_seq(buf@.skip(*old(pos) as int), group_dec()) is None,
        },
{
    let ghost s0 = buf@.skip(*pos as int);
    let n: u64 = match d_u64(buf, pos) {
        Some(v) => v,
        None => {
            return None;
        },
    };
    let ghost s1 = buf@.skip(*pos as int);
    let mut out: Vec<Vec<ActorId>> = Vec::new();
    let mut i: u64 = 0;
    while i < n
        invariant
            *pos <= buf@.len(),
            *old(pos) <= *pos,
            i <= n,
            (out@.map_values(|g: Vec<ActorId>| g@)).len() == i,
            s0 == buf@.skip(*old(pos) as int),
            sdec_u64(s0) == Some((n, s1)),
            match sdec_items(buf@.skip(*pos as int), (n - i) as nat, group_dec()) {
                Some(p) => sdec_items(s1, n as nat, group_dec()) == Some((
                    (out@.map_values(|g: Vec<ActorId>| g@)) + p.0,
                    p.1,
                )),
                None => sdec_items(s1, n as nat, group_dec()) is None,
            },
        decreases n - i,
    {
        let ghost pre = buf@.skip(*pos as int);
        let ghost prev_out = out@.map_values(|g: Vec<ActorId>| g@);
        match d_group(buf, pos) {
            Some(v) => {
                proof {
                    assert(group_dec()(pre) == Some((v@, buf@.skip(*pos as int))));
                    match sdec_items(buf@.skip(*pos as int), (n - i - 1) as nat, group_dec()) {
                        Some(q) => {
                            assert(sdec_items(pre, (n - i) as nat, group_dec()) == Some((
                                seq![v@] + q.0,
                                q.1,
                            )));
                            assert(prev_out + (seq![v@] + q.0) =~= prev_out.push(
                                v@,
                            ) + q.0);
                        },
                        None => {
                            assert(sdec_items(pre, (n - i) as nat, group_dec()) is None);
                        },
                    }
                }
                out.push(v);
                proof {
                    assert(out@.map_values(|g: Vec<ActorId>| g@) =~= prev_out.push(v@));
                }
            },
            None => {
                proof {
                    assert(group_dec()(pre) is None);
                    assert(sdec_items(pre, (n - i) as nat, group_dec()) is None);
                }
                return None;
            },
        }
        i = i + 1;
    }
    proof {
        assert(sdec_items(
            buf@.skip(*pos as int),
            0,
            group_dec(),
        ) == Some((Seq::<Seq<ActorId>>::empty(), buf@.skip(*pos as int))));
        assert((out@.map_values(|g: Vec<ActorId>| g@)) + Seq::empty() =~= out@.map_values(|g: Vec<ActorId>| g@));
    }
    Some(out)
}

#[verifier::rlimit(60)]
fn d_node_recs(buf: &Vec<u64>, pos: &mut usize) -> (r: Option<Vec<NodeRec>>)
    requires
        *old(pos) <= buf@.len(),
    ensures
        match r {
            Some(v) => *old(pos) <= *final(pos) <= buf@.len() && sdec_seq(
                buf@.skip(*old(pos) as int),
                node_rec_dec(),
            ) == Some((v@, buf@.skip(*final(pos) as int))),
            None => sdec_seq(buf@.skip(*old(pos) as int), node_rec_dec()) is None,
        },
{
    let ghost s0 = buf@.skip(*pos as int);
    let n: u64 = match d_u64(buf, pos) {
        Some(v) => v,
        None => {
            return None;
        },
    };
    let ghost s1 = buf@.skip(*pos as int);
    let mut out: Vec<NodeRec> = Vec::new();
    let mut i: u64 = 0;
    while i < n
        invariant
            *pos <= buf@.len(),
            *old(pos) <= *pos,
            i <= n,
            (out@).len() == i,
            s0 == buf@.skip(*old(pos) as int),
            sdec_u64(s0) == Some((n, s1)),
            match sdec_items(buf@.skip(*pos as int), (n - i) as nat, node_rec_dec()) {
                Some(p) => sdec_items(s1, n as nat, node_rec_dec()) == Some((
                    (out@) + p.0,
                    p.1,
                )),
                None => sdec_items(s1, n as nat, node_rec_dec()) is None,
            },
        decreases n - i,
    {
        let ghost pre = buf@.skip(*pos as int);
        let ghost prev_out = out@;
        match d_node_rec(buf, pos) {
            Some(v) => {
                proof {
                    assert(node_rec_dec()(pre) == Some((v, buf@.skip(*pos as int))));
                    match sdec_items(buf@.skip(*pos as int), (n - i - 1) as nat, node_rec_dec()) {
                        Some(q) => {
                            assert(sdec_items(pre, (n - i) as nat, node_rec_dec()) == Some((
                                seq![v] + q.0,
                                q.1,
                            )));
                            assert(prev_out + (seq![v] + q.0) =~= prev_out.push(
                                v,
                            ) + q.0);
                        },
                        None => {
                            assert(sdec_items(pre, (n - i) as nat, node_rec_dec()) is None);
                        },
                    }
                }
                out.push(v);
                proof {
                    assert(out@ =~= prev_out.push(v));
                }
            },
            None => {
                proof {
                    assert(node_rec_dec()(pre) is None);
                    assert(sdec_items(pre, (n - i) as nat, node_rec_dec()) is None);
                }
                return None;
            },
        }
        i = i + 1;
    }
    proof {
        assert(sdec_items(
            buf@.skip(*pos as int),
            0,
            node_rec_dec(),
        ) == Some((Seq::<NodeRec>::empty(), buf@.skip(*pos as int))));
        assert((out@) + Seq::empty() =~= out@);
    }
    Some(out)
}

#[verifier::rlimit(60)]
fn d_edge_recs(buf: &Vec<u64>, pos: &mut usize) -> (r: Option<Vec<EdgeRec>>)
    requires
        *old(pos) <= buf@.len(),
    ensures
        match r {
            Some(v) => *old(pos) <= *final(pos) <= buf@.len() && sdec_seq(
                buf@.skip(*old(pos) as int),
                edge_rec_dec(),
            ) == Some((v@, buf@.skip(*final(pos) as int))),
            None => sdec_seq(buf@.skip(*old(pos) as int), edge_rec_dec()) is None,
        },
{
    let ghost s0 = buf@.skip(*pos as int);
    let n: u64 = match d_u64(buf, pos) {
        Some(v) => v,
        None => {
            return None;
        },
    };
    let ghost s1 = buf@.skip(*pos as int);
    let mut out: Vec<EdgeRec> = Vec::new();
    let mut i: u64 = 0;
    while i < n
        invariant
            *pos <= buf@.len(),
            *old(pos) <= *pos,
            i <= n,
            (out@).len() == i,
            s0 == buf@.skip(*old(pos) as int),
            sdec_u64(s0) == Some((n, s1)),
            match sdec_items(buf@.skip(*pos as int), (n - i) as nat, edge_rec_dec()) {
                Some(p) => sdec_items(s1, n as nat, edge_rec_dec()) == Some((
                    (out@) + p.0,
                    p.1,
                )),
                None => sdec_items(s1, n as nat, edge_rec_dec()) is None,
            },
        decreases n - i,
    {
        let ghost pre = buf@.skip(*pos as int);
        let ghost prev_out = out@;
        match d_edge_rec(buf, pos) {
            Some(v) => {
                proof {
                    assert(edge_rec_dec()(pre) == Some((v, buf@.skip(*pos as int))));
                    match sdec_items(buf@.skip(*pos as int), (n - i - 1) as nat, edge_rec_dec()) {
                        Some(q) => {
                            assert(sdec_items(pre, (n - i) as nat, edge_rec_dec()) == Some((
                                seq![v] + q.0,
                                q.1,
                            )));
                            assert(prev_out + (seq![v] + q.0) =~= prev_out.push(
                                v,
                            ) + q.0);
                        },
                        None => {
                            assert(sdec_items(pre, (n - i) as nat, edge_rec_dec()) is None);
                        },
                    }
                }
                out.push(v);
                proof {
                    assert(out@ =~= prev_out.push(v));
                }
            },
            None => {
                proof {
                    assert(edge_rec_dec()(pre) is None);
                    assert(sdec_items(pre, (n - i) as nat, edge_rec_dec()) is None);
                }
                return None;
            },
        }
        i = i + 1;
    }
    proof {
        assert(sdec_items(
            buf@.skip(*pos as int),
            0,
            edge_rec_dec(),
        ) == Some((Seq::<EdgeRec>::empty(), buf@.skip(*pos as int))));
        assert((out@) + Seq::empty() =~= out@);
    }
    Some(out)
}

fn d_group(buf: &Vec<u64>, pos: &mut usize) -> (r: Option<Vec<ActorId>>)
    requires
        *old(pos) <= buf@.len(),
    ensures
        match r {
            Some(v) => *old(pos) <= *final(pos) <= buf@.len() && sdec_group(
                buf@.skip(*old(pos) as int),
            ) == Some((v@, buf@.skip(*final(pos) as int))),
            None => sdec_group(buf@.skip(*old(pos) as int)) is None,
        },
{
    proof {
        reveal(crate::codec::sdec_group);
    }
    d_ids(buf, pos)
}

#[verifier::rlimit(100)]
fn d_actor(buf: &Vec<u64>, pos: &mut usize) -> (r: Option<Actor>)
    requires
        *old(pos) <= buf@.len(),
    ensures
        match r {
            Some(v) => *old(pos) <= *final(pos) <= buf@.len() && sdec_actor(
                buf@.skip(*old(pos) as int),
            ) == Some((v@, buf@.skip(*final(pos) as int))),
            None => sdec_actor(buf@.skip(*old(pos) as int)) is None,
        },
{
    proof {
        reveal(crate::codec::sdec_actor);
    }
    let id = match d_actor_ref(buf, pos) {
        Some(v) => v,
        None => {
            return None;
        },
    };
    let name = match d_str(buf, pos) {
        Some(v) => v,
        None => {
            return None;
        },
    };
    let level = match d_u32(buf, pos) {
        Some(v) => v,
        None => {
            return None;
        },
    };
    let armor_class = match d_u32(buf, pos) {
        Some(v) => v,
        None => {
            return None;
        },
    };
    let max_health = match d_i32(buf, pos) {
        Some(v) => v,
        None => {
            return None;
        },
    };
    let health = match d_i32(buf, pos) {
        Some(v) => v,
        None => {
            return None;
        },
    };
    let stats = match d_stats(buf, pos) {
        Some(v) => v,
        None => {
            return None;
        },
    };
    let movement_speed = match d_u32(buf, pos) {
        Some(v) => v,
        None => {
            return None;
        },
    };
    let skill_proficiencies = match d_skill_profs(buf, pos) {
        Some(v) => v,
        None => {
            return None;
        },
    };
    let saving_throw_proficiencies = match d_save_profs(buf, pos) {
        Some(v) => v,
        None => {
            return None;
        },
    };
    let death_saves = match d_death_saves(buf, pos) {
        Some(v) => v,
        None => {
            return None;
        },
    };
    let initiative = match d_opt_i32(buf, pos) {
        Some(v) => v,
        None => {
            return None;
        },
    };
    let action_economy = match d_action_economy(buf, pos) {
        Some(v) => v,
        None => {
            return None;
        },
    };
    let equipped = match d_equip_pairs(buf, pos) {
        Some(v) => v,
        None => {
            return None;
        },
    };
    let entries = match d_entries(buf, pos) {
        Some(v) => v,
        None => {
            return None;
        },
    };
    let wps = match d_wp_pairs(buf, pos) {
        Some(v) => v,
        None => {
            return None;
        },
    };
    let built = Actor {
        id,
        name,
        level,
        armor_class,
        max_health,
        health,
        stats,
        movement_speed,
        skill_proficiencies,
        saving_throw_proficiencies,
        death_saves,
        initiative,
        action_economy,
        equipped_items: EquippedItems { slots: equipped },
        inventory: Inventory { items: entries },
        weapon_proficiencies: WeaponProficiencies { entries: wps },
    };
    Some(built)
}

#[verifier::rlimit(100)]
fn d_state(buf: &Vec<u64>, pos: &mut usize) -> (r: Option<State>)
    requires
        *old(pos) <= buf@.len(),
    ensures
        match r {
            Some(v) => *old(pos) <= *final(pos) <= buf@.len() && sdec_state(
                buf@.skip(*old(pos) as int),
            ) == Some((v@, buf@.skip(*final(pos) as int))),
            None => sdec_state(buf@.skip(*old(pos) as int)) is None,
        },
{
    proof {
        reveal(crate::codec::sdec_state);
    }
    let turn = match d_u64(buf, pos) {
        Some(v) => v,
        None => {
            return None;
        },
    };
    let actors = match d_actors(buf, pos) {
        Some(v) => v,
        None => {
            return None;
        },
    };
    let next_actor_id = match d_u32(buf, pos) {
        Some(v) => v,
        None => {
            return None;
        },
    };
    let items = match d_items_list(buf, pos) {
        Some(v) => v,
        None => {
            return None;
        },
    };
    let next_item_id = match d_u32(buf, pos) {
        Some(v) => v,
        None => {
            return None;
        },
    };
    let allied_groups = match d_groups(buf, pos) {
        Some(v) => v,
        None => {
            return None;
        },
    };
    let initiative_order = match d_ids(buf, pos) {
        Some(v) => v,
        None => {
            return None;
        },
    };
    let current_turn_index = match d_opt_usize(buf, pos) {
        Some(v) => v,
        None => {
            return None;
        },
    };
    let built = State {
        turn,
        actors,
        next_actor_id,
        items,
        next_item_id,
        allied_groups,
        initiative_order,
        current_turn_index,
    };
    Some(built)
}

#[verifier::rlimit(100)]
fn d_transition(buf: &Vec<u64>, pos: &mut usize) -> (r: Option<Transition>)
    requires
        *old(pos) <= buf@.len(),
    ensures
        match r {
            Some(v) => *old(pos) <= *final(pos) <= buf@.len() && sdec_transition(
                buf@.skip(*old(pos) as int),
            ) == Some((v, buf@.skip(*final(pos) as int))),
            None => sdec_transition(buf@.skip(*old(pos) as int)) is None,
        },
{
    proof {
        reveal(crate::codec::sdec_transition);
    }
    let ghost s0 = buf@.skip(*pos as int);
    match d_u64(buf, pos) {
        Some(tag) => {
            proof {
                assert(s0.len() >= 1 && s0.first() == tag);
                assert(s0.drop_first() =~= buf@.skip(*pos as int));
            }
            match tag {
                0u64 => Some(Transition::Root),
                1u64 => Some(Transition::BeginCombat),
                2u64 => Some(Transition::EndCombat),
                3u64 => match d_actor_ref(buf, pos) {
                    Some(actor) => match d_i32(buf, pos) {
                        Some(roll) => Some(Transition::InitiativeRoll { actor, roll }),
                        None => None,
                    },
                    None => None,
                },
                4u64 => match d_actor_ref(buf, pos) {
                    Some(actor) => Some(Transition::BeginTurn { actor }),
                    None => None,
                },
                5u64 => match d_actor_ref(buf, pos) {
                    Some(actor) => Some(Transition::EndTurn { actor }),
                    None => None,
                },
                6u64 => Some(Transition::AdvanceInitiative),
                7u64 => match d_actor_ref(buf, pos) {
                    Some(target) => match d_i32(buf, pos) {
                        Some(delta) => Some(Transition::HealthModification { target, delta }),
                        None => None,
                    },
                    None => None,
                },
                8u64 => match d_actor_ref(buf, pos) {
                    Some(target) => match d_stat(buf, pos) {
                        Some(stat) => match d_i32(buf, pos) {
                            Some(delta) => Some(
                                Transition::StatModification { target, stat, delta },
                            ),
                            None => None,
                        },
                        None => None,
                    },
                    None => None,
                },
                9u64 => match d_actor_ref(buf, pos) {
                    Some(target) => match d_action_economy_usage(buf, pos) {
                        Some(action_type) => Some(
                            Transition::ActionEconomyUsed { target, action_type },
                        ),
                        None => None,
                    },
                    None => None,
                },
                _ => None,
            }
        },
        None => None,
    }
}

fn d_node_rec(buf: &Vec<u64>, pos: &mut usize) -> (r: Option<NodeRec>)
    requires
        *old(pos) <= buf@.len(),
    ensures
        match r {
            Some(v) => *old(pos) <= *final(pos) <= buf@.len() && sdec_node_rec(
                buf@.skip(*old(pos) as int),
            ) == Some((v, buf@.skip(*final(pos) as int))),
            None => sdec_node_rec(buf@.skip(*old(pos) as int)) is None,
        },
{
    let digest = match d_u64(buf, pos) {
        Some(v) => v,
        None => {
            return None;
        },
    };
    let hits = match d_u64(buf, pos) {
        Some(v) => v,
        None => {
            return None;
        },
    };
    Some(NodeRec { digest, hits })
}

#[verifier::rlimit(60)]
fn d_edge_rec(buf: &Vec<u64>, pos: &mut usize) -> (r: Option<EdgeRec>)
    requires
        *old(pos) <= buf@.len(),
    ensures
        match r {
            Some(v) => *old(pos) <= *final(pos) <= buf@.len() && sdec_edge_rec(
                buf@.skip(*old(pos) as int),
            ) == Some((v, buf@.skip(*final(pos) as int))),
            None => sdec_edge_rec(buf@.skip(*old(pos) as int)) is None,
        },
{
    proof {
        reveal(crate::codec::sdec_edge_rec);
    }
    let from_node = match d_u32(buf, pos) {
        Some(v) => v,
        None => {
            return None;
        },
    };
    let to_node = match d_u32(buf, pos) {
        Some(v) => v,
        None => {
            return None;
        },
    };
    let transition = match d_transition(buf, pos) {
        Some(v) => v,
        None => {
            return None;
        },
    };
    let hits = match d_u64(buf, pos) {
        Some(v) => v,
        None => {
            return None;
        },
    };
    Some(EdgeRec { from: from_node, to: to_node, transition, hits })
}

/// Read a serialized state back from its canonical tokens: the result is
/// exactly what the specification decoder yields on those tokens.
pub fn decode_state(buf: &Vec<u64>) -> (r: Option<State>)
    ensures
        match r {
            Some(v) => sdec_state(buf@) is Some && sdec_state(buf@).unwrap().0 == v@,
            None => sdec_state(buf@) is None,
        },
{
    let mut pos: usize = 0;
    proof {
        assert(buf@.skip(0) =~= buf@);
    }
    d_state(buf, &mut pos)
}

/// Read a serialized tree back as its plain data: the initial state, the
/// nodes with their hit counters, the edges with their transitions and
/// hit counters, and the saturating totals — exactly the components the
/// specification decoder yields, so with [`crate::codec::lemma_rt_tree`]
/// decoding a serialized tree gives the tree's own data back.
#[verifier::rlimit(100)]
pub fn decode_tree(buf: &Vec<u64>) -> (r: Option<TreeSnapshot>)
    ensures
        match r {
            Some(snap) => sdec_tree(buf@) is Some && ({
                let decoded = sdec_tree(buf@).unwrap().0;
                &&& snap.initial_state@ == decoded.initial_state
                &&& snap.nodes@ == decoded.nodes
                &&& snap.edges@ == decoded.edges
                &&& snap.total_node_hits == decoded.total_node_hits
                &&& snap.total_edge_hits == decoded.total_edge_hits
            }),
            None => true,
        },
{
    proof {
        reveal(crate::codec::sdec_tree);
        assert(buf@.skip(0) =~= buf@);
    }
    let mut pos: usize = 0;
    let initial_state = match d_state(buf, &mut pos) {
        Some(v) => v,
        None => {
            return None;
        },
    };
    let nodes = match d_node_recs(buf, &mut pos) {
        Some(v) => v,
        None => {
            return None;
        },
    };
    let edges = match d_edge_recs(buf, &mut pos) {
        Some(v) => v,
        None => {
            return None;
        },
    };
    let total_node_hits = match d_u64(buf, &mut pos) {
        Some(v) => v,
        None => {
            return None;
        },
    };
    let total_edge_hits = match d_u64(buf, &mut pos) {
        Some(v) => v,
        None => {
            return None;
        },
    };
    Some(TreeSnapshot { initial_state, nodes, edges, total_node_hits, total_edge_hits })
}

} // verus!
