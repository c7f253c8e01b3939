//! A canonical token encoding of simulation data.
//!
//! Every persisted structure is laid out as a stream of 64-bit tokens by
//! the `enc_*` spec functions; the executable encoders produce exactly
//! those tokens and the decoders recover exactly the encoded value
//! (`lemma_rt_*`: decoding an encoding yields the value back).  The
//! stream is canonical — equal values encode to equal streams — which
//! also makes it the basis of the structural state digest.

use vstd::prelude::*;

use crate::dice::{Advantage, RollPlan, RollSettings};

verus! {

// ---------------------------------------------------------------------
// primitives

/// One token per 64-bit value.
pub open spec fn enc_u64(v: u64) -> Seq<u64> {
    seq![v]
}

pub open spec fn sdec_u64(s: Seq<u64>) -> Option<(u64, Seq<u64>)> {
    if s.len() >= 1 {
        Some((s.first(), s.drop_first()))
    } else {
        None
    }
}

pub proof fn lemma_rt_u64(v: u64, rest: Seq<u64>)
    ensures
        sdec_u64(enc_u64(v) + rest) == Some((v, rest)),
{
    assert((enc_u64(v) + rest).first() == v);
    assert((enc_u64(v) + rest).drop_first() =~= rest);
}

pub open spec fn enc_u32(v: u32) -> Seq<u64> {
    seq![v as u64]
}

pub open spec fn sdec_u32(s: Seq<u64>) -> Option<(u32, Seq<u64>)> {
    if s.len() >= 1 && s.first() <= u32::MAX {
        Some((s.first() as u32, s.drop_first()))
    } else {
        None
    }
}

pub proof fn lemma_rt_u32(v: u32, rest: Seq<u64>)
    ensures
        sdec_u32(enc_u32(v) + rest) == Some((v, rest)),
{
    assert((enc_u32(v) + rest).first() == v as u64);
    assert((enc_u32(v) + rest).drop_first() =~= rest);
}

pub open spec fn enc_u8(v: u8) -> Seq<u64> {
    seq![v as u64]
}

pub open spec fn sdec_u8(s: Seq<u64>) -> Option<(u8, Seq<u64>)> {
    if s.len() >= 1 && s.first() <= u8::MAX {
        Some((s.first() as u8, s.drop_first()))
    } else {
        None
    }
}

pub proof fn lemma_rt_u8(v: u8, rest: Seq<u64>)
    ensures
        sdec_u8(enc_u8(v) + rest) == Some((v, rest)),
{
    assert((enc_u8(v) + rest).first() == v as u64);
    assert((enc_u8(v) + rest).drop_first() =~= rest);
}

#[verifier::opaque]
pub open spec fn enc_bool(v: bool) -> Seq<u64> {
    seq![if v { 1u64 } else { 0u64 }]
}

#[verifier::opaque]
pub open spec fn sdec_bool(s: Seq<u64>) -> Option<(bool, Seq<u64>)> {
    if s.len() >= 1 && s.first() <= 1 {
        Some((s.first() == 1, s.drop_first()))
    } else {
        None
    }
}

pub proof fn lemma_rt_bool(v: bool, rest: Seq<u64>)
    ensures
        sdec_bool(enc_bool(v) + rest) == Some((v, rest)),
{
    reveal(enc_bool);
    reveal(sdec_bool);
    assert((enc_bool(v) + rest).drop_first() =~= rest);
}

pub open spec fn enc_usize(v: usize) -> Seq<u64> {
    seq![v as u64]
}

pub open spec fn sdec_usize(s: Seq<u64>) -> Option<(usize, Seq<u64>)> {
    if s.len() >= 1 && s.first() <= usize::MAX as u64 {
        Some((s.first() as usize, s.drop_first()))
    } else {
        None
    }
}

pub proof fn lemma_rt_usize(v: usize, rest: Seq<u64>)
    ensures
        sdec_usize(enc_usize(v) + rest) == Some((v, rest)),
{
    assert((enc_usize(v) + rest).first() == v as u64);
    assert((enc_usize(v) + rest).drop_first() =~= rest);
}

/// A 32-bit signed value, stored as its two's-complement reading.
pub open spec fn enc_i32(v: i32) -> Seq<u64> {
    seq![crate::transition::spec_u32_of_i32(v) as u64]
}

pub open spec fn spec_i32_of_u32(v: u32) -> i32 {
    if v <= i32::MAX as u32 {
        v as i32
    } else {
        (v - 0x1_0000_0000) as i32
    }
}

pub open spec fn sdec_i32(s: Seq<u64>) -> Option<(i32, Seq<u64>)> {
    if s.len() >= 1 && s.first() <= u32::MAX {
        Some((spec_i32_of_u32(s.first() as u32), s.drop_first()))
    } else {
        None
    }
}

pub proof fn lemma_rt_i32(v: i32, rest: Seq<u64>)
    ensures
        sdec_i32(enc_i32(v) + rest) == Some((v, rest)),
{
    assert((enc_i32(v) + rest).first() == crate::transition::spec_u32_of_i32(v) as u64);
    assert((enc_i32(v) + rest).drop_first() =~= rest);
    assert(spec_i32_of_u32(crate::transition::spec_u32_of_i32(v)) == v);
}

#[verifier::opaque]
pub open spec fn enc_opt_u32(v: Option<u32>) -> Seq<u64> {
    match v {
        Some(x) => seq![1u64] + enc_u32(x),
        None => seq![0u64],
    }
}

#[verifier::opaque]
pub open spec fn sdec_opt_u32(s: Seq<u64>) -> Option<(Option<u32>, Seq<u64>)> {
    if s.len() >= 1 && s.first() == 1 {
        match sdec_u32(s.drop_first()) {
            Some((x, rest)) => Some((Some(x), rest)),
            None => None,
        }
    } else if s.len() >= 1 && s.first() == 0 {
        Some((None, s.drop_first()))
    } else {
        None
    }
}

pub proof fn lemma_rt_opt_u32(v: Option<u32>, rest: Seq<u64>)
    ensures
        sdec_opt_u32(enc_opt_u32(v) + rest) == Some((v, rest)),
{
    reveal(enc_opt_u32);
    reveal(sdec_opt_u32);
    match v {
        Some(x) => {
            assert((enc_opt_u32(v) + rest).drop_first() =~= enc_u32(x) + rest);
            lemma_rt_u32(x, rest);
        },
        None => {
            assert((enc_opt_u32(v) + rest).drop_first() =~= rest);
        },
    }
}

#[verifier::opaque]
pub open spec fn enc_opt_i32(v: Option<i32>) -> Seq<u64> {
    match v {
        Some(x) => seq![1u64] + enc_i32(x),
        None => seq![0u64],
    }
}

#[verifier::opaque]
pub open spec fn sdec_opt_i32(s: Seq<u64>) -> Option<(Option<i32>, Seq<u64>)> {
    if s.len() >= 1 && s.first() == 1 {
        match sdec_i32(s.drop_first()) {
            Some((x, rest)) => Some((Some(x), rest)),
            None => None,
        }
    } else if s.len() >= 1 && s.first() == 0 {
        Some((None, s.drop_first()))
    } else {
        None
    }
}

pub proof fn lemma_rt_opt_i32(v: Option<i32>, rest: Seq<u64>)
    ensures
        sdec_opt_i32(enc_opt_i32(v) + rest) == Some((v, rest)),
{
    reveal(enc_opt_i32);
    reveal(sdec_opt_i32);
    match v {
        Some(x) => {
            assert((enc_opt_i32(v) + rest).drop_first() =~= enc_i32(x) + rest);
            lemma_rt_i32(x, rest);
        },
        None => {
            assert((enc_opt_i32(v) + rest).drop_first() =~= rest);
        },
    }
}

#[verifier::opaque]
pub open spec fn enc_opt_usize(v: Option<usize>) -> Seq<u64> {
    match v {
        Some(x) => seq![1u64] + enc_usize(x),
        None => seq![0u64],
    }
}

#[verifier::opaque]
pub open spec fn sdec_opt_usize(s: Seq<u64>) -> Option<(Option<usize>, Seq<u64>)> {
    if s.len() >= 1 && s.first() == 1 {
        match sdec_usize(s.drop_first()) {
            Some((x, rest)) => Some((Some(x), rest)),
            None => None,
        }
    } else if s.len() >= 1 && s.first() == 0 {
        Some((None, s.drop_first()))
    } else {
        None
    }
}

pub proof fn lemma_rt_opt_usize(v: Option<usize>, rest: Seq<u64>)
    ensures
        sdec_opt_usize(enc_opt_usize(v) + rest) == Some((v, rest)),
{
    reveal(enc_opt_usize);
    reveal(sdec_opt_usize);
    match v {
        Some(x) => {
            assert((enc_opt_usize(v) + rest).drop_first() =~= enc_usize(x) + rest);
            lemma_rt_usize(x, rest);
        },
        None => {
            assert((enc_opt_usize(v) + rest).drop_first() =~= rest);
        },
    }
}

/// A string: its length, then one token per character.
pub open spec fn enc_chars(cs: Seq<char>) -> Seq<u64>
    decreases cs.len(),
{
    if cs.len() == 0 {
        Seq::empty()
    } else {
        seq![(cs.first() as u32) as u64] + enc_chars(cs.drop_first())
    }
}

pub open spec fn enc_str(cs: Seq<char>) -> Seq<u64> {
    enc_u64(cs.len() as u64) + enc_chars(cs)
}

/// The first `n` tokens of `s` decoded as characters.
pub open spec fn sdec_chars(s: Seq<u64>, n: nat) -> Option<(Seq<char>, Seq<u64>)>
    decreases n,
{
    if n == 0 {
        Some((Seq::empty(), s))
    } else if s.len() >= 1 && is_scalar_token(s.first()) {
        match sdec_chars(s.drop_first(), (n - 1) as nat) {
            Some((cs, rest)) => Some((seq![spec_char_of(s.first() as u32)] + cs, rest)),
            None => None,
        }
    } else {
        None
    }
}

/// Whether a token is a unicode scalar value.
pub open spec fn is_scalar_token(t: u64) -> bool {
    t <= u32::MAX && vstd::utf8::is_scalar(t as u32)
}

/// The character with scalar value `v` (meaningful when `v` is a scalar
/// value).
pub open spec fn spec_char_of(v: u32) -> char {
    v as char
}

/// Relies on `char::from_u32`: yields the character with scalar value
/// `v` exactly when `v` is a unicode scalar value (below the surrogate
/// range, or between the surrogates and the last code point).
#[verifier::external_body]
pub(crate) fn char_of_u32(v: u32) -> (r: Option<char>)
    ensures
        r is Some <==> is_scalar_token(v as u64),
        match r {
            Some(c) => c as u32 == v,
            None => true,
        },
{
    char::from_u32(v)
}

pub open spec fn sdec_str(s: Seq<u64>) -> Option<(Seq<char>, Seq<u64>)> {
    match sdec_u64(s) {
        Some((n, rest)) => sdec_chars(rest, n as nat),
        None => None,
    }
}

pub proof fn lemma_rt_chars(cs: Seq<char>, rest: Seq<u64>)
    ensures
        sdec_chars(enc_chars(cs) + rest, cs.len()) == Some((cs, rest)),
    decreases cs.len(),
{
    if cs.len() == 0 {
        assert(enc_chars(cs) + rest =~= rest);
    } else {
        let c = cs.first();
        let v: u32 = c as u32;
        vstd::utf8::char_is_scalar(c);
        let whole = enc_chars(cs) + rest;
        assert(whole.first() == v as u64);
        assert(is_scalar_token(v as u64));
        assert(whole.drop_first() =~= enc_chars(cs.drop_first()) + rest);
        lemma_rt_chars(cs.drop_first(), rest);
        lemma_char_of_cast(c);
        assert(spec_char_of(whole.first() as u32) == c);
        assert(seq![c] + cs.drop_first() =~= cs);
    }
}

/// Casting a character to its scalar value and back yields the same
/// character.
pub proof fn lemma_char_of_cast(c: char)
    ensures
        spec_char_of(c as u32) == c,
{
    vstd::utf8::char_u32_cast(c, c as u32);
}

pub proof fn lemma_rt_str(cs: Seq<char>, rest: Seq<u64>)
    requires
        cs.len() <= u64::MAX,
    ensures
        sdec_str(enc_str(cs) + rest) == Some((cs, rest)),
{
    assert(enc_str(cs) + rest =~= enc_u64(cs.len() as u64) + (enc_chars(cs) + rest));
    lemma_rt_u64(cs.len() as u64, enc_chars(cs) + rest);
    lemma_rt_chars(cs, rest);
}

// ---------------------------------------------------------------------
// dice types

#[verifier::opaque]
pub open spec fn enc_advantage(v: Advantage) -> Seq<u64> {
    match v {
        Advantage::Normal => seq![0u64],
        Advantage::Advantage => seq![1u64],
        Advantage::Disadvantage => seq![2u64],
    }
}

#[verifier::opaque]
pub open spec fn sdec_advantage(s: Seq<u64>) -> Option<(Advantage, Seq<u64>)> {
    if s.len() >= 1 && s.first() == 0 {
        Some((Advantage::Normal, s.drop_first()))
    } else if s.len() >= 1 && s.first() == 1 {
        Some((Advantage::Advantage, s.drop_first()))
    } else if s.len() >= 1 && s.first() == 2 {
        Some((Advantage::Disadvantage, s.drop_first()))
    } else {
        None
    }
}

pub proof fn lemma_rt_advantage(v: Advantage, rest: Seq<u64>)
    ensures
        sdec_advantage(enc_advantage(v) + rest) == Some((v, rest)),
{
    reveal(enc_advantage);
    reveal(sdec_advantage);
    assert((enc_advantage(v) + rest).drop_first() =~= rest);
}

#[verifier::opaque]
pub open spec fn enc_roll_settings(v: RollSettings) -> Seq<u64> {
    enc_advantage(v.advantage) + enc_opt_u32(v.minimum_die_value) + enc_opt_u32(
        v.maximum_die_value,
    ) + enc_opt_u32(v.reroll_dice_below)
}

#[verifier::opaque]
pub open spec fn sdec_roll_settings(s: Seq<u64>) -> Option<(RollSettings, Seq<u64>)> {
    match sdec_advantage(s) {
        Some((advantage, s1)) => match sdec_opt_u32(s1) {
            Some((minimum_die_value, s2)) => match sdec_opt_u32(s2) {
                Some((maximum_die_value, s3)) => match sdec_opt_u32(s3) {
                    Some((reroll_dice_below, s4)) => Some(
                        (
                            RollSettings {
                                advantage,
                                minimum_die_value,
                                maximum_die_value,
                                reroll_dice_below,
                            },
                            s4,
                        ),
                    ),
                    None => None,
                },
                None => None,
            },
            None => None,
        },
        None => None,
    }
}

#[verifier::rlimit(50)]
pub proof fn lemma_rt_roll_settings(v: RollSettings, rest: Seq<u64>)
    ensures
        sdec_roll_settings(enc_roll_settings(v) + rest) == Some((v, rest)),
{
    reveal(enc_roll_settings);
    reveal(sdec_roll_settings);
    let t1 = enc_opt_u32(v.minimum_die_value) + (enc_opt_u32(v.maximum_die_value) + (enc_opt_u32(
        v.reroll_dice_below,
    ) + rest));
    assert(enc_roll_settings(v) + rest =~= enc_advantage(v.advantage) + t1);
    lemma_rt_advantage(v.advantage, t1);
    let t2 = enc_opt_u32(v.maximum_die_value) + (enc_opt_u32(v.reroll_dice_below) + rest);
    lemma_rt_opt_u32(v.minimum_die_value, t2);
    let t3 = enc_opt_u32(v.reroll_dice_below) + rest;
    lemma_rt_opt_u32(v.maximum_die_value, t3);
    lemma_rt_opt_u32(v.reroll_dice_below, rest);
}

#[verifier::opaque]
pub open spec fn enc_roll_plan(v: RollPlan) -> Seq<u64> {
    enc_u32(v.num_dice) + enc_u32(v.die_size) + enc_i32(v.modifier) + enc_roll_settings(v.settings)
}

#[verifier::opaque]
pub open spec fn sdec_roll_plan(s: Seq<u64>) -> Option<(RollPlan, Seq<u64>)> {
    match sdec_u32(s) {
        Some((num_dice, s1)) => match sdec_u32(s1) {
            Some((die_size, s2)) => match sdec_i32(s2) {
                Some((modifier, s3)) => match sdec_roll_settings(s3) {
                    Some((settings, s4)) => Some(
                        (RollPlan { num_dice, die_size, modifier, settings }, s4),
                    ),
                    None => None,
                },
                None => None,
            },
            None => None,
        },
        None => None,
    }
}

#[verifier::rlimit(50)]
pub proof fn lemma_rt_roll_plan(v: RollPlan, rest: Seq<u64>)
    ensures
        sdec_roll_plan(enc_roll_plan(v) + rest) == Some((v, rest)),
{
    reveal(enc_roll_plan);
    reveal(sdec_roll_plan);
    let t1 = enc_u32(v.die_size) + (enc_i32(v.modifier) + (enc_roll_settings(v.settings) + rest));
    assert(enc_roll_plan(v) + rest =~= enc_u32(v.num_dice) + t1);
    lemma_rt_u32(v.num_dice, t1);
    let t2 = enc_i32(v.modifier) + (enc_roll_settings(v.settings) + rest);
    lemma_rt_u32(v.die_size, t2);
    let t3 = enc_roll_settings(v.settings) + rest;
    lemma_rt_i32(v.modifier, t3);
    lemma_rt_roll_settings(v.settings, rest);
}

#[verifier::opaque]
pub open spec fn enc_opt_roll_plan(v: Option<RollPlan>) -> Seq<u64> {
    match v {
        Some(x) => seq![1u64] + enc_roll_plan(x),
        None => seq![0u64],
    }
}

#[verifier::opaque]
pub open spec fn sdec_opt_roll_plan(s: Seq<u64>) -> Option<(Option<RollPlan>, Seq<u64>)> {
    if s.len() >= 1 && s.first() == 1 {
        match sdec_roll_plan(s.drop_first()) {
            Some((x, rest)) => Some((Some(x), rest)),
            None => None,
        }
    } else if s.len() >= 1 && s.first() == 0 {
        Some((None, s.drop_first()))
    } else {
        None
    }
}

pub proof fn lemma_rt_opt_roll_plan(v: Option<RollPlan>, rest: Seq<u64>)
    ensures
        sdec_opt_roll_plan(enc_opt_roll_plan(v) + rest) == Some((v, rest)),
{
    reveal(enc_opt_roll_plan);
    reveal(sdec_opt_roll_plan);
    match v {
        Some(x) => {
            assert((enc_opt_roll_plan(v) + rest).drop_first() =~= enc_roll_plan(x) + rest);
            lemma_rt_roll_plan(x, rest);
        },
        None => {
            assert((enc_opt_roll_plan(v) + rest).drop_first() =~= rest);
        },
    }
}

// ---------------------------------------------------------------------
// enum tags

#[verifier::opaque]
pub open spec fn enc_stat(v: crate::stats::Stat) -> Seq<u64> {
    match v {
        crate::stats::Stat::Strength => seq![0u64],
        crate::stats::Stat::Dexterity => seq![1u64],
        crate::stats::Stat::Constitution => seq![2u64],
        crate::stats::Stat::Intelligence => seq![3u64],
        crate::stats::Stat::Wisdom => seq![4u64],
        crate::stats::Stat::Charisma => seq![5u64],
    }
}

#[verifier::opaque]
pub open spec fn sdec_stat(s: Seq<u64>) -> Option<(crate::stats::Stat, Seq<u64>)> {
    if s.len() == 0 {
        None
    }
     else if s.first() == 0 {
        Some((crate::stats::Stat::Strength, s.drop_first()))
    }
     else if s.first() == 1 {
        Some((crate::stats::Stat::Dexterity, s.drop_first()))
    }
     else if s.first() == 2 {
        Some((crate::stats::Stat::Constitution, s.drop_first()))
    }
     else if s.first() == 3 {
        Some((crate::stats::Stat::Intelligence, s.drop_first()))
    }
     else if s.first() == 4 {
        Some((crate::stats::Stat::Wisdom, s.drop_first()))
    }
     else if s.first() == 5 {
        Some((crate::stats::Stat::Charisma, s.drop_first()))
    }
     else {
        None
    }
}

pub proof fn lemma_rt_stat(v: crate::stats::Stat, rest: Seq<u64>)
    ensures
        sdec_stat(enc_stat(v) + rest) == Some((v, rest)),
{
    reveal(enc_stat);
    reveal(sdec_stat);
    assert((enc_stat(v) + rest).drop_first() =~= rest);
}

#[verifier::opaque]
pub open spec fn enc_proficiency(v: crate::skills::Proficiency) -> Seq<u64> {
    match v {
        crate::skills::Proficiency::Untrained => seq![0u64],
        crate::skills::Proficiency::HalfProficient => seq![1u64],
        crate::skills::Proficiency::Proficient => seq![2u64],
        crate::skills::Proficiency::Expert => seq![3u64],
    }
}

#[verifier::opaque]
pub open spec fn sdec_proficiency(s: Seq<u64>) -> Option<(crate::skills::Proficiency, Seq<u64>)> {
    if s.len() == 0 {
        None
    }
     else if s.first() == 0 {
        Some((crate::skills::Proficiency::Untrained, s.drop_first()))
    }
     else if s.first() == 1 {
        Some((crate::skills::Proficiency::HalfProficient, s.drop_first()))
    }
     else if s.first() == 2 {
        Some((crate::skills::Proficiency::Proficient, s.drop_first()))
    }
     else if s.first() == 3 {
        Some((crate::skills::Proficiency::Expert, s.drop_first()))
    }
     else {
        None
    }
}

pub proof fn lemma_rt_proficiency(v: crate::skills::Proficiency, rest: Seq<u64>)
    ensures
        sdec_proficiency(enc_proficiency(v) + rest) == Some((v, rest)),
{
    reveal(enc_proficiency);
    reveal(sdec_proficiency);
    assert((enc_proficiency(v) + rest).drop_first() =~= rest);
}

#[verifier::opaque]
pub open spec fn enc_weapon_proficiency(v: crate::items::WeaponProficiency) -> Seq<u64> {
    match v {
        crate::items::WeaponProficiency::NotProficient => seq![0u64],
        crate::items::WeaponProficiency::HalfProficient => seq![1u64],
        crate::items::WeaponProficiency::Proficient => seq![2u64],
    }
}

#[verifier::opaque]
pub open spec fn sdec_weapon_proficiency(s: Seq<u64>) -> Option<(crate::items::WeaponProficiency, Seq<u64>)> {
    if s.len() == 0 {
        None
    }
     else if s.first() == 0 {
        Some((crate::items::WeaponProficiency::NotProficient, s.drop_first()))
    }
     else if s.first() == 1 {
        Some((crate::items::WeaponProficiency::HalfProficient, s.drop_first()))
    }
     else if s.first() == 2 {
        Some((crate::items::WeaponProficiency::Proficient, s.drop_first()))
    }
     else {
        None
    }
}

pub proof fn lemma_rt_weapon_proficiency(v: crate::items::WeaponProficiency, rest: Seq<u64>)
    ensures
        sdec_weapon_proficiency(enc_weapon_proficiency(v) + rest) == Some((v, rest)),
{
    reveal(enc_weapon_proficiency);
    reveal(sdec_weapon_proficiency);
    assert((enc_weapon_proficiency(v) + rest).drop_first() =~= rest);
}

#[verifier::opaque]
pub open spec fn enc_equip_slot(v: crate::items::EquipSlot) -> Seq<u64> {
    match v {
        crate::items::EquipSlot::Head => seq![0u64],
        crate::items::EquipSlot::Chest => seq![1u64],
        crate::items::EquipSlot::Legs => seq![2u64],
        crate::items::EquipSlot::Feet => seq![3u64],
        crate::items::EquipSlot::Hands => seq![4u64],
        crate::items::EquipSlot::Shield => seq![5u64],
        crate::items::EquipSlot::Accessory => seq![6u64],
    }
}

#[verifier::opaque]
pub open spec fn sdec_equip_slot(s: Seq<u64>) -> Option<(crate::items::EquipSlot, Seq<u64>)> {
    if s.len() == 0 {
        None
    }
     else if s.first() == 0 {
        Some((crate::items::EquipSlot::Head, s.drop_first()))
    }
     else if s.first() == 1 {
        Some((crate::items::EquipSlot::Chest, s.drop_first()))
    }
     else if s.first() == 2 {
        Some((crate::items::EquipSlot::Legs, s.drop_first()))
    }
     else if s.first() == 3 {
        Some((crate::items::EquipSlot::Feet, s.drop_first()))
    }
     else if s.first() == 4 {
        Some((crate::items::EquipSlot::Hands, s.drop_first()))
    }
     else if s.first() == 5 {
        Some((crate::items::EquipSlot::Shield, s.drop_first()))
    }
     else if s.first() == 6 {
        Some((crate::items::EquipSlot::Accessory, s.drop_first()))
    }
     else {
        None
    }
}

pub proof fn lemma_rt_equip_slot(v: crate::items::EquipSlot, rest: Seq<u64>)
    ensures
        sdec_equip_slot(enc_equip_slot(v) + rest) == Some((v, rest)),
{
    reveal(enc_equip_slot);
    reveal(sdec_equip_slot);
    assert((enc_equip_slot(v) + rest).drop_first() =~= rest);
}

#[verifier::opaque]
pub open spec fn enc_action_economy_usage(v: crate::actions::ActionEconomyUsage) -> Seq<u64> {
    match v {
        crate::actions::ActionEconomyUsage::Action => seq![0u64],
        crate::actions::ActionEconomyUsage::BonusAction => seq![1u64],
    }
}

#[verifier::opaque]
pub open spec fn sdec_action_economy_usage(s: Seq<u64>) -> Option<(crate::actions::ActionEconomyUsage, Seq<u64>)> {
    if s.len() == 0 {
        None
    }
     else if s.first() == 0 {
        Some((crate::actions::ActionEconomyUsage::Action, s.drop_first()))
    }
     else if s.first() == 1 {
        Some((crate::actions::ActionEconomyUsage::BonusAction, s.drop_first()))
    }
     else {
        None
    }
}

pub proof fn lemma_rt_action_economy_usage(v: crate::actions::ActionEconomyUsage, rest: Seq<u64>)
    ensures
        sdec_action_economy_usage(enc_action_economy_usage(v) + rest) == Some((v, rest)),
{
    reveal(enc_action_economy_usage);
    reveal(sdec_action_economy_usage);
    assert((enc_action_economy_usage(v) + rest).drop_first() =~= rest);
}

#[verifier::opaque]
pub open spec fn enc_weapon_type(v: crate::items::WeaponType) -> Seq<u64> {
    match v {
        crate::items::WeaponType::Club => seq![0u64],
        crate::items::WeaponType::Dagger => seq![1u64],
        crate::items::WeaponType::Greatclub => seq![2u64],
        crate::items::WeaponType::Handaxe => seq![3u64],
        crate::items::WeaponType::Javelin => seq![4u64],
        crate::items::WeaponType::LightHammer => seq![5u64],
        crate::items::WeaponType::Mace => seq![6u64],
        crate::items::WeaponType::Quarterstaff => seq![7u64],
        crate::items::WeaponType::Sickle => seq![8u64],
        crate::items::WeaponType::Spear => seq![9u64],
        crate::items::WeaponType::CrossbowLight => seq![10u64],
        crate::items::WeaponType::Dart => seq![11u64],
        crate::items::WeaponType::Shortbow => seq![12u64],
        crate::items::WeaponType::Sling => seq![13u64],
        crate::items::WeaponType::Battleaxe => seq![14u64],
        crate::items::WeaponType::Flail => seq![15u64],
        crate::items::WeaponType::Glaive => seq![16u64],
        crate::items::WeaponType::Greataxe => seq![17u64],
        crate::items::WeaponType::Greatsword => seq![18u64],
        crate::items::WeaponType::Halberd => seq![19u64],
        crate::items::WeaponType::Lance => seq![20u64],
        crate::items::WeaponType::Longsword => seq![21u64],
        crate::items::WeaponType::Maul => seq![22u64],
        crate::items::WeaponType::Morningstar => seq![23u64],
        crate::items::WeaponType::Pike => seq![24u64],
        crate::items::WeaponType::Rapier => seq![25u64],
        crate::items::WeaponType::Scimitar => seq![26u64],
        crate::items::WeaponType::Shortsword => seq![27u64],
        crate::items::WeaponType::Trident => seq![28u64],
        crate::items::WeaponType::WarPick => seq![29u64],
        crate::items::WeaponType::Warhammer => seq![30u64],
        crate::items::WeaponType::Whip => seq![31u64],
        crate::items::WeaponType::Blowgun => seq![32u64],
        crate::items::WeaponType::CrossbowHeavy => seq![33u64],
        crate::items::WeaponType::Longbow => seq![34u64],
        crate::items::WeaponType::Net => seq![35u64],
    }
}

#[verifier::opaque]
pub open spec fn sdec_weapon_type(s: Seq<u64>) -> Option<(crate::items::WeaponType, Seq<u64>)> {
    if s.len() == 0 {
        None
    }
     else if s.first() == 0 {
        Some((crate::items::WeaponType::Club, s.drop_first()))
    }
     else if s.first() == 1 {
        Some((crate::items::WeaponType::Dagger, s.drop_first()))
    }
     else if s.first() == 2 {
        Some((crate::items::WeaponType::Greatclub, s.drop_first()))
    }
     else if s.first() == 3 {
        Some((crate::items::WeaponType::Handaxe, s.drop_first()))
    }
     else if s.first() == 4 {
        Some((crate::items::WeaponType::Javelin, s.drop_first()))
    }
     else if s.first() == 5 {
        Some((crate::items::WeaponType::LightHammer, s.drop_first()))
    }
     else if s.first() == 6 {
        Some((crate::items::WeaponType::Mace, s.drop_first()))
    }
     else if s.first() == 7 {
        Some((crate::items::WeaponType::Quarterstaff, s.drop_first()))
    }
     else if s.first() == 8 {
        Some((crate::items::WeaponType::Sickle, s.drop_first()))
    }
     else if s.first() == 9 {
        Some((crate::items::WeaponType::Spear, s.drop_first()))
    }
     else if s.first() == 10 {
        Some((crate::items::WeaponType::CrossbowLight, s.drop_first()))
    }
     else if s.first() == 11 {
        Some((crate::items::WeaponType::Dart, s.drop_first()))
    }
     else if s.first() == 12 {
        Some((crate::items::WeaponType::Shortbow, s.drop_first()))
    }
     else if s.first() == 13 {
        Some((crate::items::WeaponType::Sling, s.drop_first()))
    }
     else if s.first() == 14 {
        Some((crate::items::WeaponType::Battleaxe, s.drop_first()))
    }
     else if s.first() == 15 {
        Some((crate::items::WeaponType::Flail, s.drop_first()))
    }
     else if s.first() == 16 {
        Some((crate::items::WeaponType::Glaive, s.drop_first()))
    }
     else if s.first() == 17 {
        Some((crate::items::WeaponType::Greataxe, s.drop_first()))
    }
     else if s.first() == 18 {
        Some((crate::items::WeaponType::Greatsword, s.drop_first()))
    }
     else if s.first() == 19 {
        Some((crate::items::WeaponType::Halberd, s.drop_first()))
    }
     else if s.first() == 20 {
        Some((crate::items::WeaponType::Lance, s.drop_first()))
    }
     else if s.first() == 21 {
        Some((crate::items::WeaponType::Longsword, s.drop_first()))
    }
     else if s.first() == 22 {
        Some((crate::items::WeaponType::Maul, s.drop_first()))
    }
     else if s.first() == 23 {
        Some((crate::items::WeaponType::Morningstar, s.drop_first()))
    }
     else if s.first() == 24 {
        Some((crate::items::WeaponType::Pike, s.drop_first()))
    }
     else if s.first() == 25 {
        Some((crate::items::WeaponType::Rapier, s.drop_first()))
    }
     else if s.first() == 26 {
        Some((crate::items::WeaponType::Scimitar, s.drop_first()))
    }
     else if s.first() == 27 {
        Some((crate::items::WeaponType::Shortsword, s.drop_first()))
    }
     else if s.first() == 28 {
        Some((crate::items::WeaponType::Trident, s.drop_first()))
    }
     else if s.first() == 29 {
        Some((crate::items::WeaponType::WarPick, s.drop_first()))
    }
     else if s.first() == 30 {
        Some((crate::items::WeaponType::Warhammer, s.drop_first()))
    }
     else if s.first() == 31 {
        Some((crate::items::WeaponType::Whip, s.drop_first()))
    }
     else if s.first() == 32 {
        Some((crate::items::WeaponType::Blowgun, s.drop_first()))
    }
     else if s.first() == 33 {
        Some((crate::items::WeaponType::CrossbowHeavy, s.drop_first()))
    }
     else if s.first() == 34 {
        Some((crate::items::WeaponType::Longbow, s.drop_first()))
    }
     else if s.first() == 35 {
        Some((crate::items::WeaponType::Net, s.drop_first()))
    }
     else {
        None
    }
}

#[verifier::rlimit(50)]
pub proof fn lemma_rt_weapon_type(v: crate::items::WeaponType, rest: Seq<u64>)
    ensures
        sdec_weapon_type(enc_weapon_type(v) + rest) == Some((v, rest)),
{
    reveal(enc_weapon_type);
    reveal(sdec_weapon_type);
    assert((enc_weapon_type(v) + rest).drop_first() =~= rest);
}


// ---------------------------------------------------------------------
// lists

/// Each item in turn, by the element encoder `f`.
pub open spec fn enc_list<T>(items: Seq<T>, f: spec_fn(T) -> Seq<u64>) -> Seq<u64>
    decreases items.len(),
{
    if items.len() == 0 {
        Seq::empty()
    } else {
        f(items.first()) + enc_list(items.drop_first(), f)
    }
}

/// A sequence: its length, then each item.
pub open spec fn enc_seq<T>(items: Seq<T>, f: spec_fn(T) -> Seq<u64>) -> Seq<u64> {
    enc_u64(items.len() as u64) + enc_list(items, f)
}

/// `n` items decoded in turn by the element decoder `g`.
pub open spec fn sdec_items<T>(
    s: Seq<u64>,
    n: nat,
    g: spec_fn(Seq<u64>) -> Option<(T, Seq<u64>)>,
) -> Option<(Seq<T>, Seq<u64>)>
    decreases n,
{
    if n == 0 {
        Some((Seq::empty(), s))
    } else {
        match g(s) {
            Some(p) => match sdec_items(p.1, (n - 1) as nat, g) {
                Some(q) => Some((seq![p.0] + q.0, q.1)),
                None => None,
            },
            None => None,
        }
    }
}

pub open spec fn sdec_seq<T>(s: Seq<u64>, g: spec_fn(Seq<u64>) -> Option<(T, Seq<u64>)>) -> Option<
    (Seq<T>, Seq<u64>),
> {
    match sdec_u64(s) {
        Some(p) => sdec_items(p.1, p.0 as nat, g),
        None => None,
    }
}

/// Decoding an encoded list element by element yields the list back,
/// provided each element satisfies the bound `p` under which the element
/// round trip holds.
pub proof fn lemma_rt_items<T>(
    items: Seq<T>,
    f: spec_fn(T) -> Seq<u64>,
    g: spec_fn(Seq<u64>) -> Option<(T, Seq<u64>)>,
    p: spec_fn(T) -> bool,
    rest: Seq<u64>,
)
    requires
        forall|v: T, r: Seq<u64>| p(v) ==> #[trigger] g(f(v) + r) == Some((v, r)),
        forall|k: int| 0 <= k < items.len() ==> p(#[trigger] items[k]),
    ensures
        sdec_items(enc_list(items, f) + rest, items.len(), g) == Some((items, rest)),
    decreases items.len(),
{
    if items.len() == 0 {
        assert(enc_list(items, f) + rest =~= rest);
        assert(sdec_items(rest, 0, g) == Some((Seq::<T>::empty(), rest)));
        assert(items =~= Seq::<T>::empty());
    } else {
        let first = items.first();
        let tail = items.drop_first();
        assert(p(items[0]));
        assert(enc_list(items, f) + rest =~= f(first) + (enc_list(tail, f) + rest));
        assert(g(f(first) + (enc_list(tail, f) + rest)) == Some((first, enc_list(tail, f) + rest)));
        assert(forall|k: int| 0 <= k < tail.len() ==> p(#[trigger] tail[k]));
        lemma_rt_items(tail, f, g, p, rest);
        assert(seq![first] + tail =~= items);
    }
}

/// Decoding an encoded sequence yields it back.
pub proof fn lemma_rt_seq<T>(
    items: Seq<T>,
    f: spec_fn(T) -> Seq<u64>,
    g: spec_fn(Seq<u64>) -> Option<(T, Seq<u64>)>,
    p: spec_fn(T) -> bool,
    rest: Seq<u64>,
)
    requires
        items.len() <= u64::MAX,
        forall|v: T, r: Seq<u64>| p(v) ==> #[trigger] g(f(v) + r) == Some((v, r)),
        forall|k: int| 0 <= k < items.len() ==> p(#[trigger] items[k]),
    ensures
        sdec_seq(enc_seq(items, f) + rest, g) == Some((items, rest)),
{
    assert(enc_seq(items, f) + rest =~= enc_u64(items.len() as u64) + (enc_list(items, f) + rest));
    lemma_rt_u64(items.len() as u64, enc_list(items, f) + rest);
    lemma_rt_items(items, f, g, p, rest);
}

// ---------------------------------------------------------------------
// record types

#[verifier::opaque]
pub open spec fn enc_actor_ref(v: crate::actor::ActorId) -> Seq<u64> {
    enc_u32(v.0)
}

#[verifier::opaque]
pub open spec fn sdec_actor_ref(s0: Seq<u64>) -> Option<(crate::actor::ActorId, Seq<u64>)> {
    match sdec_u32(s0) {
        Some((x0, s1)) => {
            Some((crate::actor::ActorId(x0), s1))
        },
        None => None,
    }
}

pub proof fn lemma_rt_actor_ref(v: crate::actor::ActorId, rest: Seq<u64>)
    ensures
        sdec_actor_ref(enc_actor_ref(v) + rest) == Some((v, rest)),
{
    reveal(enc_actor_ref);
    reveal(sdec_actor_ref);
    lemma_rt_u32(v.0, rest);
}

#[verifier::opaque]
pub open spec fn enc_item_ref(v: crate::items::ItemId) -> Seq<u64> {
    enc_u32(v.0)
}

#[verifier::opaque]
pub open spec fn sdec_item_ref(s0: Seq<u64>) -> Option<(crate::items::ItemId, Seq<u64>)> {
    match sdec_u32(s0) {
        Some((x0, s1)) => {
            Some((crate::items::ItemId(x0), s1))
        },
        None => None,
    }
}

pub proof fn lemma_rt_item_ref(v: crate::items::ItemId, rest: Seq<u64>)
    ensures
        sdec_item_ref(enc_item_ref(v) + rest) == Some((v, rest)),
{
    reveal(enc_item_ref);
    reveal(sdec_item_ref);
    lemma_rt_u32(v.0, rest);
}

#[verifier::opaque]
pub open spec fn enc_spell_ref(v: crate::spells::SpellId) -> Seq<u64> {
    enc_u32(v.0)
}

#[verifier::opaque]
pub open spec fn sdec_spell_ref(s0: Seq<u64>) -> Option<(crate::spells::SpellId, Seq<u64>)> {
    match sdec_u32(s0) {
        Some((x0, s1)) => {
            Some((crate::spells::SpellId(x0), s1))
        },
        None => None,
    }
}

pub proof fn lemma_rt_spell_ref(v: crate::spells::SpellId, rest: Seq<u64>)
    ensures
        sdec_spell_ref(enc_spell_ref(v) + rest) == Some((v, rest)),
{
    reveal(enc_spell_ref);
    reveal(sdec_spell_ref);
    lemma_rt_u32(v.0, rest);
}

#[verifier::opaque]
pub open spec fn enc_stats(v: crate::stats::Stats) -> Seq<u64> {
    enc_u32(v.strength) + (enc_u32(v.dexterity) + (enc_u32(v.constitution) + (enc_u32(v.intelligence) + (enc_u32(v.wisdom) + (enc_u32(v.charisma))))))
}

#[verifier::opaque]
pub open spec fn sdec_stats(s0: Seq<u64>) -> Option<(crate::stats::Stats, Seq<u64>)> {
    match sdec_u32(s0) {
        Some((x0, s1)) => {
            match sdec_u32(s1) {
                Some((x1, s2)) => {
                    match sdec_u32(s2) {
                        Some((x2, s3)) => {
                            match sdec_u32(s3) {
                                Some((x3, s4)) => {
                                    match sdec_u32(s4) {
                                        Some((x4, s5)) => {
                                            match sdec_u32(s5) {
                                                Some((x5, s6)) => {
                                                    Some((crate::stats::Stats { strength: x0, dexterity: x1, constitution: x2, intelligence: x3, wisdom: x4, charisma: x5 }, s6))
                                                },
                                                None => None,
                                            }
                                        },
                                        None => None,
                                    }
                                },
                                None => None,
                            }
                        },
                        None => None,
                    }
                },
                None => None,
            }
        },
        None => None,
    }
}

pub proof fn lemma_rt_stats(v: crate::stats::Stats, rest: Seq<u64>)
    ensures
        sdec_stats(enc_stats(v) + rest) == Some((v, rest)),
{
    reveal(enc_stats);
    reveal(sdec_stats);
    assert((enc_u32(v.strength) + (enc_u32(v.dexterity) + (enc_u32(v.constitution) + (enc_u32(v.intelligence) + (enc_u32(v.wisdom) + (enc_u32(v.charisma))))))) + rest =~= enc_u32(v.strength) + (enc_u32(v.dexterity) + (enc_u32(v.constitution) + (enc_u32(v.intelligence) + (enc_u32(v.wisdom) + (enc_u32(v.charisma))))) + rest));
    lemma_rt_u32(v.strength, enc_u32(v.dexterity) + (enc_u32(v.constitution) + (enc_u32(v.intelligence) + (enc_u32(v.wisdom) + (enc_u32(v.charisma))))) + rest);
    assert((enc_u32(v.dexterity) + (enc_u32(v.constitution) + (enc_u32(v.intelligence) + (enc_u32(v.wisdom) + (enc_u32(v.charisma)))))) + rest =~= enc_u32(v.dexterity) + (enc_u32(v.constitution) + (enc_u32(v.intelligence) + (enc_u32(v.wisdom) + (enc_u32(v.charisma)))) + rest));
    lemma_rt_u32(v.dexterity, enc_u32(v.constitution) + (enc_u32(v.intelligence) + (enc_u32(v.wisdom) + (enc_u32(v.charisma)))) + rest);
    assert((enc_u32(v.constitution) + (enc_u32(v.intelligence) + (enc_u32(v.wisdom) + (enc_u32(v.charisma))))) + rest =~= enc_u32(v.constitution) + (enc_u32(v.intelligence) + (enc_u32(v.wisdom) + (enc_u32(v.charisma))) + rest));
    lemma_rt_u32(v.constitution, enc_u32(v.intelligence) + (enc_u32(v.wisdom) + (enc_u32(v.charisma))) + rest);
    assert((enc_u32(v.intelligence) + (enc_u32(v.wisdom) + (enc_u32(v.charisma)))) + rest =~= enc_u32(v.intelligence) + (enc_u32(v.wisdom) + (enc_u32(v.charisma)) + rest));
    lemma_rt_u32(v.intelligence, enc_u32(v.wisdom) + (enc_u32(v.charisma)) + rest);
    assert((enc_u32(v.wisdom) + (enc_u32(v.charisma))) + rest =~= enc_u32(v.wisdom) + (enc_u32(v.charisma) + rest));
    lemma_rt_u32(v.wisdom, enc_u32(v.charisma) + rest);
    lemma_rt_u32(v.charisma, rest);
}

/// Nine proficiency levels at once.
pub open spec fn enc_prof9(
    v: (
        crate::skills::Proficiency,
        crate::skills::Proficiency,
        crate::skills::Proficiency,
        crate::skills::Proficiency,
        crate::skills::Proficiency,
        crate::skills::Proficiency,
        crate::skills::Proficiency,
        crate::skills::Proficiency,
        crate::skills::Proficiency,
    ),
) -> Seq<u64> {
    enc_proficiency(v.0) + (enc_proficiency(v.1) + (enc_proficiency(v.2) + (enc_proficiency(v.3)
        + (enc_proficiency(v.4) + (enc_proficiency(v.5) + (enc_proficiency(v.6) + (enc_proficiency(
        v.7,
    ) + enc_proficiency(v.8))))))))
}

pub open spec fn sdec_prof9(s0: Seq<u64>) -> Option<
    (
        (
            crate::skills::Proficiency,
            crate::skills::Proficiency,
            crate::skills::Proficiency,
            crate::skills::Proficiency,
            crate::skills::Proficiency,
            crate::skills::Proficiency,
            crate::skills::Proficiency,
            crate::skills::Proficiency,
            crate::skills::Proficiency,
        ),
        Seq<u64>,
    ),
> {
    match sdec_proficiency(s0) {
        Some((x0, s1)) => match sdec_proficiency(s1) {
            Some((x1, s2)) => match sdec_proficiency(s2) {
                Some((x2, s3)) => match sdec_proficiency(s3) {
                    Some((x3, s4)) => match sdec_proficiency(s4) {
                        Some((x4, s5)) => match sdec_proficiency(s5) {
                            Some((x5, s6)) => match sdec_proficiency(s6) {
                                Some((x6, s7)) => match sdec_proficiency(s7) {
                                    Some((x7, s8)) => match sdec_proficiency(s8) {
                                        Some((x8, s9)) => Some(
                                            ((x0, x1, x2, x3, x4, x5, x6, x7, x8), s9),
                                        ),
                                        None => None,
                                    },
                                    None => None,
                                },
                                None => None,
                            },
                            None => None,
                        },
                        None => None,
                    },
                    None => None,
                },
                None => None,
            },
            None => None,
        },
        None => None,
    }
}

/// Concatenation of token streams is associative.
proof fn seq_assoc(a: Seq<u64>, b: Seq<u64>, c: Seq<u64>)
    ensures
        (a + b) + c =~= a + (b + c),
{
}

#[verifier::rlimit(100)]
pub proof fn lemma_rt_prof9(
    v: (
        crate::skills::Proficiency,
        crate::skills::Proficiency,
        crate::skills::Proficiency,
        crate::skills::Proficiency,
        crate::skills::Proficiency,
        crate::skills::Proficiency,
        crate::skills::Proficiency,
        crate::skills::Proficiency,
        crate::skills::Proficiency,
    ),
    rest: Seq<u64>,
)
    ensures
        sdec_prof9(enc_prof9(v) + rest) == Some((v, rest)),
{
    let e0 = enc_proficiency(v.0);
    let e1 = enc_proficiency(v.1);
    let e2 = enc_proficiency(v.2);
    let e3 = enc_proficiency(v.3);
    let e4 = enc_proficiency(v.4);
    let e5 = enc_proficiency(v.5);
    let e6 = enc_proficiency(v.6);
    let e7 = enc_proficiency(v.7);
    let e8 = enc_proficiency(v.8);
    let x8 = e8;
    let x7 = e7 + x8;
    let x6 = e6 + x7;
    let x5 = e5 + x6;
    let x4 = e4 + x5;
    let x3 = e3 + x4;
    let x2 = e2 + x3;
    let x1 = e1 + x2;
    assert(enc_prof9(v) == e0 + x1);
    seq_assoc(e0, x1, rest);
    let t0 = x1 + rest;
    assert(enc_prof9(v) + rest =~= e0 + t0);
    lemma_rt_proficiency(v.0, t0);
    seq_assoc(e1, x2, rest);
    let t1 = x2 + rest;
    assert(t0 =~= e1 + t1);
    lemma_rt_proficiency(v.1, t1);
    seq_assoc(e2, x3, rest);
    let t2 = x3 + rest;
    assert(t1 =~= e2 + t2);
    lemma_rt_proficiency(v.2, t2);
    seq_assoc(e3, x4, rest);
    let t3 = x4 + rest;
    assert(t2 =~= e3 + t3);
    lemma_rt_proficiency(v.3, t3);
    seq_assoc(e4, x5, rest);
    let t4 = x5 + rest;
    assert(t3 =~= e4 + t4);
    lemma_rt_proficiency(v.4, t4);
    seq_assoc(e5, x6, rest);
    let t5 = x6 + rest;
    assert(t4 =~= e5 + t5);
    lemma_rt_proficiency(v.5, t5);
    seq_assoc(e6, x7, rest);
    let t6 = x7 + rest;
    assert(t5 =~= e6 + t6);
    lemma_rt_proficiency(v.6, t6);
    seq_assoc(e7, x8, rest);
    let t7 = x8 + rest;
    assert(t6 =~= e7 + t7);
    lemma_rt_proficiency(v.7, t7);
    assert(t7 =~= e8 + rest);
    lemma_rt_proficiency(v.8, rest);
}

/// The first nine skill proficiencies, in canonical order.
pub open spec fn skill_profs_front(v: crate::skills::SkillProficiencies) -> (
    crate::skills::Proficiency,
    crate::skills::Proficiency,
    crate::skills::Proficiency,
    crate::skills::Proficiency,
    crate::skills::Proficiency,
    crate::skills::Proficiency,
    crate::skills::Proficiency,
    crate::skills::Proficiency,
    crate::skills::Proficiency,
) {
    (
        v.acrobatics,
        v.animal_handling,
        v.arcana,
        v.athletics,
        v.deception,
        v.history,
        v.insight,
        v.intimidation,
        v.investigation,
    )
}

/// The last nine skill proficiencies, in canonical order.
pub open spec fn skill_profs_back(v: crate::skills::SkillProficiencies) -> (
    crate::skills::Proficiency,
    crate::skills::Proficiency,
    crate::skills::Proficiency,
    crate::skills::Proficiency,
    crate::skills::Proficiency,
    crate::skills::Proficiency,
    crate::skills::Proficiency,
    crate::skills::Proficiency,
    crate::skills::Proficiency,
) {
    (
        v.medicine,
        v.nature,
        v.perception,
        v.performance,
        v.persuasion,
        v.religion,
        v.sleight_of_hand,
        v.stealth,
        v.survival,
    )
}

#[verifier::opaque]
pub open spec fn enc_skill_profs(v: crate::skills::SkillProficiencies) -> Seq<u64> {
    enc_prof9(skill_profs_front(v)) + enc_prof9(skill_profs_back(v))
}

#[verifier::opaque]
pub open spec fn sdec_skill_profs(s0: Seq<u64>) -> Option<
    (crate::skills::SkillProficiencies, Seq<u64>),
> {
    match sdec_prof9(s0) {
        Some((a, s1)) => match sdec_prof9(s1) {
            Some((b, s2)) => Some(
                (
                    crate::skills::SkillProficiencies {
                        acrobatics: a.0,
                        animal_handling: a.1,
                        arcana: a.2,
                        athletics: a.3,
                        deception: a.4,
                        history: a.5,
                        insight: a.6,
                        intimidation: a.7,
                        investigation: a.8,
                        medicine: b.0,
                        nature: b.1,
                        perception: b.2,
                        performance: b.3,
                        persuasion: b.4,
                        religion: b.5,
                        sleight_of_hand: b.6,
                        stealth: b.7,
                        survival: b.8,
                    },
                    s2,
                ),
            ),
            None => None,
        },
        None => None,
    }
}

#[verifier::rlimit(60)]
pub proof fn lemma_rt_skill_profs(v: crate::skills::SkillProficiencies, rest: Seq<u64>)
    ensures
        sdec_skill_profs(enc_skill_profs(v) + rest) == Some((v, rest)),
{
    reveal(enc_skill_profs);
    reveal(sdec_skill_profs);
    let front = skill_profs_front(v);
    let back = skill_profs_back(v);
    assert(enc_skill_profs(v) + rest =~= enc_prof9(front) + (enc_prof9(back) + rest));
    lemma_rt_prof9(front, enc_prof9(back) + rest);
    lemma_rt_prof9(back, rest);
}

#[verifier::opaque]
pub open spec fn enc_save_profs(v: crate::saves::SavingThrowProficiencies) -> Seq<u64> {
    enc_bool(v.strength) + (enc_bool(v.dexterity) + (enc_bool(v.constitution) + (enc_bool(v.intelligence) + (enc_bool(v.wisdom) + (enc_bool(v.charisma))))))
}

#[verifier::opaque]
pub open spec fn sdec_save_profs(s0: Seq<u64>) -> Option<(crate::saves::SavingThrowProficiencies, Seq<u64>)> {
    match sdec_bool(s0) {
        Some((x0, s1)) => {
            match sdec_bool(s1) {
                Some((x1, s2)) => {
                    match sdec_bool(s2) {
                        Some((x2, s3)) => {
                            match sdec_bool(s3) {
                                Some((x3, s4)) => {
                                    match sdec_bool(s4) {
                                        Some((x4, s5)) => {
                                            match sdec_bool(s5) {
                                                Some((x5, s6)) => {
                                                    Some((crate::saves::SavingThrowProficiencies { strength: x0, dexterity: x1, constitution: x2, intelligence: x3, wisdom: x4, charisma: x5 }, s6))
                                                },
                                                None => None,
                                            }
                                        },
                                        None => None,
                                    }
                                },
                                None => None,
                            }
                        },
                        None => None,
                    }
                },
                None => None,
            }
        },
        None => None,
    }
}

#[verifier::rlimit(60)]
pub proof fn lemma_rt_save_profs(v: crate::saves::SavingThrowProficiencies, rest: Seq<u64>)
    ensures
        sdec_save_profs(enc_save_profs(v) + rest) == Some((v, rest)),
{
    reveal(enc_save_profs);
    reveal(sdec_save_profs);
    assert((enc_bool(v.strength) + (enc_bool(v.dexterity) + (enc_bool(v.constitution) + (enc_bool(v.intelligence) + (enc_bool(v.wisdom) + (enc_bool(v.charisma))))))) + rest =~= enc_bool(v.strength) + (enc_bool(v.dexterity) + (enc_bool(v.constitution) + (enc_bool(v.intelligence) + (enc_bool(v.wisdom) + (enc_bool(v.charisma))))) + rest));
    lemma_rt_bool(v.strength, enc_bool(v.dexterity) + (enc_bool(v.constitution) + (enc_bool(v.intelligence) + (enc_bool(v.wisdom) + (enc_bool(v.charisma))))) + rest);
    assert((enc_bool(v.dexterity) + (enc_bool(v.constitution) + (enc_bool(v.intelligence) + (enc_bool(v.wisdom) + (enc_bool(v.charisma)))))) + rest =~= enc_bool(v.dexterity) + (enc_bool(v.constitution) + (enc_bool(v.intelligence) + (enc_bool(v.wisdom) + (enc_bool(v.charisma)))) + rest));
    lemma_rt_bool(v.dexterity, enc_bool(v.constitution) + (enc_bool(v.intelligence) + (enc_bool(v.wisdom) + (enc_bool(v.charisma)))) + rest);
    assert((enc_bool(v.constitution) + (enc_bool(v.intelligence) + (enc_bool(v.wisdom) + (enc_bool(v.charisma))))) + rest =~= enc_bool(v.constitution) + (enc_bool(v.intelligence) + (enc_bool(v.wisdom) + (enc_bool(v.charisma))) + rest));
    lemma_rt_bool(v.constitution, enc_bool(v.intelligence) + (enc_bool(v.wisdom) + (enc_bool(v.charisma))) + rest);
    assert((enc_bool(v.intelligence) + (enc_bool(v.wisdom) + (enc_bool(v.charisma)))) + rest =~= enc_bool(v.intelligence) + (enc_bool(v.wisdom) + (enc_bool(v.charisma)) + rest));
    lemma_rt_bool(v.intelligence, enc_bool(v.wisdom) + (enc_bool(v.charisma)) + rest);
    assert((enc_bool(v.wisdom) + (enc_bool(v.charisma))) + rest =~= enc_bool(v.wisdom) + (enc_bool(v.charisma) + rest));
    lemma_rt_bool(v.wisdom, enc_bool(v.charisma) + rest);
    lemma_rt_bool(v.charisma, rest);
}

#[verifier::opaque]
pub open spec fn enc_death_saves(v: crate::death::DeathSaves) -> Seq<u64> {
    enc_u8(v.successes) + (enc_u8(v.failures))
}

#[verifier::opaque]
pub open spec fn sdec_death_saves(s0: Seq<u64>) -> Option<(crate::death::DeathSaves, Seq<u64>)> {
    match sdec_u8(s0) {
        Some((x0, s1)) => {
            match sdec_u8(s1) {
                Some((x1, s2)) => {
                    Some((crate::death::DeathSaves { successes: x0, failures: x1 }, s2))
                },
                None => None,
            }
        },
        None => None,
    }
}

pub proof fn lemma_rt_death_saves(v: crate::death::DeathSaves, rest: Seq<u64>)
    ensures
        sdec_death_saves(enc_death_saves(v) + rest) == Some((v, rest)),
{
    reveal(enc_death_saves);
    reveal(sdec_death_saves);
    assert((enc_u8(v.successes) + (enc_u8(v.failures))) + rest =~= enc_u8(v.successes) + (enc_u8(v.failures) + rest));
    lemma_rt_u8(v.successes, enc_u8(v.failures) + rest);
    lemma_rt_u8(v.failures, rest);
}

#[verifier::opaque]
pub open spec fn enc_action_economy(v: crate::actions::ActionEconomy) -> Seq<u64> {
    enc_bool(v.action_used) + (enc_bool(v.bonus_action_used) + (enc_bool(v.reaction_used) + (enc_u32(v.free_actions_used) + (enc_u32(v.movement_used)))))
}

#[verifier::opaque]
pub open spec fn sdec_action_economy(s0: Seq<u64>) -> Option<(crate::actions::ActionEconomy, Seq<u64>)> {
    match sdec_bool(s0) {
        Some((x0, s1)) => {
            match sdec_bool(s1) {
                Some((x1, s2)) => {
                    match sdec_bool(s2) {
                        Some((x2, s3)) => {
                            match sdec_u32(s3) {
                                Some((x3, s4)) => {
                                    match sdec_u32(s4) {
                                        Some((x4, s5)) => {
                                            Some((crate::actions::ActionEconomy { action_used: x0, bonus_action_used: x1, reaction_used: x2, free_actions_used: x3, movement_used: x4 }, s5))
                                        },
                                        None => None,
                                    }
                                },
                                None => None,
                            }
                        },
                        None => None,
                    }
                },
                None => None,
            }
        },
        None => None,
    }
}

#[verifier::rlimit(60)]
pub proof fn lemma_rt_action_economy(v: crate::actions::ActionEconomy, rest: Seq<u64>)
    ensures
        sdec_action_economy(enc_action_economy(v) + rest) == Some((v, rest)),
{
    reveal(enc_action_economy);
    reveal(sdec_action_economy);
    assert((enc_bool(v.action_used) + (enc_bool(v.bonus_action_used) + (enc_bool(v.reaction_used) + (enc_u32(v.free_actions_used) + (enc_u32(v.movement_used)))))) + rest =~= enc_bool(v.action_used) + (enc_bool(v.bonus_action_used) + (enc_bool(v.reaction_used) + (enc_u32(v.free_actions_used) + (enc_u32(v.movement_used)))) + rest));
    lemma_rt_bool(v.action_used, enc_bool(v.bonus_action_used) + (enc_bool(v.reaction_used) + (enc_u32(v.free_actions_used) + (enc_u32(v.movement_used)))) + rest);
    assert((enc_bool(v.bonus_action_used) + (enc_bool(v.reaction_used) + (enc_u32(v.free_actions_used) + (enc_u32(v.movement_used))))) + rest =~= enc_bool(v.bonus_action_used) + (enc_bool(v.reaction_used) + (enc_u32(v.free_actions_used) + (enc_u32(v.movement_used))) + rest));
    lemma_rt_bool(v.bonus_action_used, enc_bool(v.reaction_used) + (enc_u32(v.free_actions_used) + (enc_u32(v.movement_used))) + rest);
    assert((enc_bool(v.reaction_used) + (enc_u32(v.free_actions_used) + (enc_u32(v.movement_used)))) + rest =~= enc_bool(v.reaction_used) + (enc_u32(v.free_actions_used) + (enc_u32(v.movement_used)) + rest));
    lemma_rt_bool(v.reaction_used, enc_u32(v.free_actions_used) + (enc_u32(v.movement_used)) + rest);
    assert((enc_u32(v.free_actions_used) + (enc_u32(v.movement_used))) + rest =~= enc_u32(v.free_actions_used) + (enc_u32(v.movement_used) + rest));
    lemma_rt_u32(v.free_actions_used, enc_u32(v.movement_used) + rest);
    lemma_rt_u32(v.movement_used, rest);
}

#[verifier::opaque]
pub open spec fn enc_armor(v: crate::items::Armor) -> Seq<u64> {
    enc_u32(v.ac_bonus) + (enc_bool(v.stealth_disadvantage))
}

#[verifier::opaque]
pub open spec fn sdec_armor(s0: Seq<u64>) -> Option<(crate::items::Armor, Seq<u64>)> {
    match sdec_u32(s0) {
        Some((x0, s1)) => {
            match sdec_bool(s1) {
                Some((x1, s2)) => {
                    Some((crate::items::Armor { ac_bonus: x0, stealth_disadvantage: x1 }, s2))
                },
                None => None,
            }
        },
        None => None,
    }
}

pub proof fn lemma_rt_armor(v: crate::items::Armor, rest: Seq<u64>)
    ensures
        sdec_armor(enc_armor(v) + rest) == Some((v, rest)),
{
    reveal(enc_armor);
    reveal(sdec_armor);
    assert((enc_u32(v.ac_bonus) + (enc_bool(v.stealth_disadvantage))) + rest =~= enc_u32(v.ac_bonus) + (enc_bool(v.stealth_disadvantage) + rest));
    lemma_rt_u32(v.ac_bonus, enc_bool(v.stealth_disadvantage) + rest);
    lemma_rt_bool(v.stealth_disadvantage, rest);
}

#[verifier::opaque]
pub open spec fn enc_potion(v: crate::items::Potion) -> Seq<u64> {
    enc_roll_plan(v.healing_amount)
}

#[verifier::opaque]
pub open spec fn sdec_potion(s0: Seq<u64>) -> Option<(crate::items::Potion, Seq<u64>)> {
    match sdec_roll_plan(s0) {
        Some((x0, s1)) => {
            Some((crate::items::Potion { healing_amount: x0 }, s1))
        },
        None => None,
    }
}

pub proof fn lemma_rt_potion(v: crate::items::Potion, rest: Seq<u64>)
    ensures
        sdec_potion(enc_potion(v) + rest) == Some((v, rest)),
{
    reveal(enc_potion);
    reveal(sdec_potion);
    lemma_rt_roll_plan(v.healing_amount, rest);
}

#[verifier::opaque]
pub open spec fn enc_scroll(v: crate::items::Scroll) -> Seq<u64> {
    enc_spell_ref(v.spell_id)
}

#[verifier::opaque]
pub open spec fn sdec_scroll(s0: Seq<u64>) -> Option<(crate::items::Scroll, Seq<u64>)> {
    match sdec_spell_ref(s0) {
        Some((x0, s1)) => {
            Some((crate::items::Scroll { spell_id: x0 }, s1))
        },
        None => None,
    }
}

pub proof fn lemma_rt_scroll(v: crate::items::Scroll, rest: Seq<u64>)
    ensures
        sdec_scroll(enc_scroll(v) + rest) == Some((v, rest)),
{
    reveal(enc_scroll);
    reveal(sdec_scroll);
    lemma_rt_spell_ref(v.spell_id, rest);
}

#[verifier::opaque]
pub open spec fn enc_weapon(v: crate::items::Weapon) -> Seq<u64> {
    enc_weapon_type(v.weapon_type) + (enc_i32(v.attack_bonus) + (enc_roll_plan(v.damage) + (enc_opt_roll_plan(v.critical_damage) + (enc_opt_u32(v.range)))))
}

#[verifier::opaque]
pub open spec fn sdec_weapon(s0: Seq<u64>) -> Option<(crate::items::Weapon, Seq<u64>)> {
    match sdec_weapon_type(s0) {
        Some((x0, s1)) => {
            match sdec_i32(s1) {
                Some((x1, s2)) => {
                    match sdec_roll_plan(s2) {
                        Some((x2, s3)) => {
                            match sdec_opt_roll_plan(s3) {
                                Some((x3, s4)) => {
                                    match sdec_opt_u32(s4) {
                                        Some((x4, s5)) => {
                                            Some((crate::items::Weapon { weapon_type: x0, attack_bonus: x1, damage: x2, critical_damage: x3, range: x4 }, s5))
                                        },
                                        None => None,
                                    }
                                },
                                None => None,
                            }
                        },
                        None => None,
                    }
                },
                None => None,
            }
        },
        None => None,
    }
}

#[verifier::rlimit(100)]
pub proof fn lemma_rt_weapon(v: crate::items::Weapon, rest: Seq<u64>)
    ensures
        sdec_weapon(enc_weapon(v) + rest) == Some((v, rest)),
{
    reveal(enc_weapon);
    reveal(sdec_weapon);
    assert((enc_weapon_type(v.weapon_type) + (enc_i32(v.attack_bonus) + (enc_roll_plan(v.damage) + (enc_opt_roll_plan(v.critical_damage) + (enc_opt_u32(v.range)))))) + rest =~= enc_weapon_type(v.weapon_type) + (enc_i32(v.attack_bonus) + (enc_roll_plan(v.damage) + (enc_opt_roll_plan(v.critical_damage) + (enc_opt_u32(v.range)))) + rest));
    lemma_rt_weapon_type(v.weapon_type, enc_i32(v.attack_bonus) + (enc_roll_plan(v.damage) + (enc_opt_roll_plan(v.critical_damage) + (enc_opt_u32(v.range)))) + rest);
    assert((enc_i32(v.attack_bonus) + (enc_roll_plan(v.damage) + (enc_opt_roll_plan(v.critical_damage) + (enc_opt_u32(v.range))))) + rest =~= enc_i32(v.attack_bonus) + (enc_roll_plan(v.damage) + (enc_opt_roll_plan(v.critical_damage) + (enc_opt_u32(v.range))) + rest));
    lemma_rt_i32(v.attack_bonus, enc_roll_plan(v.damage) + (enc_opt_roll_plan(v.critical_damage) + (enc_opt_u32(v.range))) + rest);
    assert((enc_roll_plan(v.damage) + (enc_opt_roll_plan(v.critical_damage) + (enc_opt_u32(v.range)))) + rest =~= enc_roll_plan(v.damage) + (enc_opt_roll_plan(v.critical_damage) + (enc_opt_u32(v.range)) + rest));
    lemma_rt_roll_plan(v.damage, enc_opt_roll_plan(v.critical_damage) + (enc_opt_u32(v.range)) + rest);
    assert((enc_opt_roll_plan(v.critical_damage) + (enc_opt_u32(v.range))) + rest =~= enc_opt_roll_plan(v.critical_damage) + (enc_opt_u32(v.range) + rest));
    lemma_rt_opt_roll_plan(v.critical_damage, enc_opt_u32(v.range) + rest);
    lemma_rt_opt_u32(v.range, rest);
}

#[verifier::opaque]
pub open spec fn enc_equip_pair(v: (crate::items::EquipSlot, crate::items::ItemId)) -> Seq<u64> {
    enc_equip_slot(v.0) + (enc_item_ref(v.1))
}

#[verifier::opaque]
pub open spec fn sdec_equip_pair(s0: Seq<u64>) -> Option<((crate::items::EquipSlot, crate::items::ItemId), Seq<u64>)> {
    match sdec_equip_slot(s0) {
        Some((x0, s1)) => {
            match sdec_item_ref(s1) {
                Some((x1, s2)) => {
                    Some(((x0, x1), s2))
                },
                None => None,
            }
        },
        None => None,
    }
}

pub proof fn lemma_rt_equip_pair(v: (crate::items::EquipSlot, crate::items::ItemId), rest: Seq<u64>)
    ensures
        sdec_equip_pair(enc_equip_pair(v) + rest) == Some((v, rest)),
{
    reveal(enc_equip_pair);
    reveal(sdec_equip_pair);
    assert((enc_equip_slot(v.0) + (enc_item_ref(v.1))) + rest =~= enc_equip_slot(v.0) + (enc_item_ref(v.1) + rest));
    lemma_rt_equip_slot(v.0, enc_item_ref(v.1) + rest);
    lemma_rt_item_ref(v.1, rest);
}

#[verifier::opaque]
pub open spec fn enc_wp_pair(v: (crate::items::WeaponType, crate::items::WeaponProficiency)) -> Seq<u64> {
    enc_weapon_type(v.0) + (enc_weapon_proficiency(v.1))
}

#[verifier::opaque]
pub open spec fn sdec_wp_pair(s0: Seq<u64>) -> Option<((crate::items::WeaponType, crate::items::WeaponProficiency), Seq<u64>)> {
    match sdec_weapon_type(s0) {
        Some((x0, s1)) => {
            match sdec_weapon_proficiency(s1) {
                Some((x1, s2)) => {
                    Some(((x0, x1), s2))
                },
                None => None,
            }
        },
        None => None,
    }
}

pub proof fn lemma_rt_wp_pair(v: (crate::items::WeaponType, crate::items::WeaponProficiency), rest: Seq<u64>)
    ensures
        sdec_wp_pair(enc_wp_pair(v) + rest) == Some((v, rest)),
{
    reveal(enc_wp_pair);
    reveal(sdec_wp_pair);
    assert((enc_weapon_type(v.0) + (enc_weapon_proficiency(v.1))) + rest =~= enc_weapon_type(v.0) + (enc_weapon_proficiency(v.1) + rest));
    lemma_rt_weapon_type(v.0, enc_weapon_proficiency(v.1) + rest);
    lemma_rt_weapon_proficiency(v.1, rest);
}

// ---------------------------------------------------------------------
// aggregates

#[verifier::opaque]
pub open spec fn enc_item_type(v: crate::items::ItemType) -> Seq<u64> {
    match v {
        crate::items::ItemType::Potion(p) => seq![0u64] + enc_potion(p),
        crate::items::ItemType::Scroll(sc) => seq![1u64] + enc_scroll(sc),
        crate::items::ItemType::Weapon(w) => seq![2u64] + enc_weapon(w),
        crate::items::ItemType::Armor(a) => seq![3u64] + enc_armor(a),
    }
}

#[verifier::opaque]
pub open spec fn sdec_item_type(s: Seq<u64>) -> Option<(crate::items::ItemType, Seq<u64>)> {
    if s.len() >= 1 && s.first() == 0 {
        match sdec_potion(s.drop_first()) {
            Some((p, rest)) => Some((crate::items::ItemType::Potion(p), rest)),
            None => None,
        }
    } else if s.len() >= 1 && s.first() == 1 {
        match sdec_scroll(s.drop_first()) {
            Some((sc, rest)) => Some((crate::items::ItemType::Scroll(sc), rest)),
            None => None,
        }
    } else if s.len() >= 1 && s.first() == 2 {
        match sdec_weapon(s.drop_first()) {
            Some((w, rest)) => Some((crate::items::ItemType::Weapon(w), rest)),
            None => None,
        }
    } else if s.len() >= 1 && s.first() == 3 {
        match sdec_armor(s.drop_first()) {
            Some((a, rest)) => Some((crate::items::ItemType::Armor(a), rest)),
            None => None,
        }
    } else {
        None
    }
}

pub proof fn lemma_rt_item_type(v: crate::items::ItemType, rest: Seq<u64>)
    ensures
        sdec_item_type(enc_item_type(v) + rest) == Some((v, rest)),
{
    reveal(enc_item_type);
    reveal(sdec_item_type);
    match v {
        crate::items::ItemType::Potion(p) => {
            assert((enc_item_type(v) + rest).drop_first() =~= enc_potion(p) + rest);
            lemma_rt_potion(p, rest);
        },
        crate::items::ItemType::Scroll(sc) => {
            assert((enc_item_type(v) + rest).drop_first() =~= enc_scroll(sc) + rest);
            lemma_rt_scroll(sc, rest);
        },
        crate::items::ItemType::Weapon(w) => {
            assert((enc_item_type(v) + rest).drop_first() =~= enc_weapon(w) + rest);
            lemma_rt_weapon(w, rest);
        },
        crate::items::ItemType::Armor(a) => {
            assert((enc_item_type(v) + rest).drop_first() =~= enc_armor(a) + rest);
            lemma_rt_armor(a, rest);
        },
    }
}

/// Encodable bounds: every length stored in the stream fits a token.
pub open spec fn item_bounded(i: crate::items::ItemView) -> bool {
    i.name.len() <= u64::MAX
}

pub open spec fn entry_bounded(e: crate::items::InventoryEntryView) -> bool {
    item_bounded(e.item)
}

pub open spec fn actor_bounded(a: crate::actor::ActorView) -> bool {
    &&& a.name.len() <= u64::MAX
    &&& a.equipped_items.len() <= u64::MAX
    &&& a.inventory.len() <= u64::MAX
    &&& a.weapon_proficiencies.len() <= u64::MAX
    &&& forall|k: int| 0 <= k < a.inventory.len() ==> entry_bounded(#[trigger] a.inventory[k])
}

pub open spec fn group_bounded(g: Seq<crate::actor::ActorId>) -> bool {
    g.len() <= u64::MAX
}

pub open spec fn state_bounded(s: crate::state::StateView) -> bool {
    &&& s.actors.len() <= u64::MAX
    &&& forall|k: int| 0 <= k < s.actors.len() ==> actor_bounded(#[trigger] s.actors[k])
    &&& s.items.len() <= u64::MAX
    &&& forall|k: int| 0 <= k < s.items.len() ==> item_bounded(#[trigger] s.items[k])
    &&& s.allied_groups.len() <= u64::MAX
    &&& forall|k: int| 0 <= k < s.allied_groups.len() ==> group_bounded(#[trigger] s.allied_groups[k])
    &&& s.initiative_order.len() <= u64::MAX
}

#[verifier::opaque]
pub open spec fn enc_item(v: crate::items::ItemView) -> Seq<u64> {
    enc_item_ref(v.id) + (enc_str(v.name) + (enc_item_type(v.item_type)))
}

#[verifier::opaque]
pub open spec fn sdec_item(s0: Seq<u64>) -> Option<(crate::items::ItemView, Seq<u64>)> {
    match sdec_item_ref(s0) {
        Some((x0, s1)) => {
            match sdec_str(s1) {
                Some((x1, s2)) => {
                    match sdec_item_type(s2) {
                        Some((x2, s3)) => {
                            Some((crate::items::ItemView { id: x0, name: x1, item_type: x2 }, s3))
                        },
                        None => None,
                    }
                },
                None => None,
            }
        },
        None => None,
    }
}

#[verifier::rlimit(60)]
pub proof fn lemma_rt_item(v: crate::items::ItemView, rest: Seq<u64>)
    requires
        item_bounded(v),
    ensures
        sdec_item(enc_item(v) + rest) == Some((v, rest)),
{
    reveal(enc_item);
    reveal(sdec_item);
    let e0 = enc_item_ref(v.id);
    let e1 = enc_str(v.name);
    let e2 = enc_item_type(v.item_type);
    let x2x = e2;
    let x1x = e1 + x2x;
    assert(enc_item(v) == e0 + x1x);
    seq_assoc(e0, x1x, rest);
    let t0 = x1x + rest;
    assert(enc_item(v) + rest =~= e0 + t0);
    lemma_rt_item_ref(v.id, t0);
    seq_assoc(e1, x2x, rest);
    let t1 = x2x + rest;
    assert(t0 =~= e1 + t1);
    lemma_rt_str(v.name, t1);
    assert(t1 =~= e2 + rest);
    lemma_rt_item_type(v.item_type, rest);
}

#[verifier::opaque]
pub open spec fn enc_inventory_entry(v: crate::items::InventoryEntryView) -> Seq<u64> {
    enc_item(v.item) + (enc_u32(v.quantity))
}

#[verifier::opaque]
pub open spec fn sdec_inventory_entry(s0: Seq<u64>) -> Option<(crate::items::InventoryEntryView, Seq<u64>)> {
    match sdec_item(s0) {
        Some((x0, s1)) => {
            match sdec_u32(s1) {
                Some((x1, s2)) => {
                    Some((crate::items::InventoryEntryView { item: x0, quantity: x1 }, s2))
                },
                None => None,
            }
        },
        None => None,
    }
}

pub proof fn lemma_rt_inventory_entry(v: crate::items::InventoryEntryView, rest: Seq<u64>)
    requires
        entry_bounded(v),
    ensures
        sdec_inventory_entry(enc_inventory_entry(v) + rest) == Some((v, rest)),
{
    reveal(enc_inventory_entry);
    reveal(sdec_inventory_entry);
    let e0 = enc_item(v.item);
    let e1 = enc_u32(v.quantity);
    let x1x = e1;
    assert(enc_inventory_entry(v) == e0 + x1x);
    seq_assoc(e0, x1x, rest);
    let t0 = x1x + rest;
    assert(enc_inventory_entry(v) + rest =~= e0 + t0);
    lemma_rt_item(v.item, t0);
    assert(t0 =~= e1 + rest);
    lemma_rt_u32(v.quantity, rest);
}

pub open spec fn equip_pair_enc() -> spec_fn((crate::items::EquipSlot, crate::items::ItemId)) -> Seq<u64> {
    |x: (crate::items::EquipSlot, crate::items::ItemId)| enc_equip_pair(x)
}

pub open spec fn equip_pair_dec() -> spec_fn(Seq<u64>) -> Option<((crate::items::EquipSlot, crate::items::ItemId), Seq<u64>)> {
    |s: Seq<u64>| sdec_equip_pair(s)
}

pub open spec fn equip_pair_bound() -> spec_fn((crate::items::EquipSlot, crate::items::ItemId)) -> bool {
    |x: (crate::items::EquipSlot, crate::items::ItemId)| true
}

pub proof fn lemma_seq_rt_equip_pair(items: Seq<(crate::items::EquipSlot, crate::items::ItemId)>, rest: Seq<u64>)
    requires
        items.len() <= u64::MAX,
        forall|k: int| 0 <= k < items.len() ==> #[trigger] equip_pair_bound()(items[k]),
    ensures
        sdec_seq(enc_seq(items, equip_pair_enc()) + rest, equip_pair_dec()) == Some((items, rest)),
{
    assert forall|x: (crate::items::EquipSlot, crate::items::ItemId), r: Seq<u64>| equip_pair_bound()(x) implies #[trigger] equip_pair_dec()(
        equip_pair_enc()(x) + r,
    ) == Some((x, r)) by {
        lemma_rt_equip_pair(x, r);
    }
    lemma_rt_seq(items, equip_pair_enc(), equip_pair_dec(), equip_pair_bound(), rest);
}

pub open spec fn wp_pair_enc() -> spec_fn((crate::items::WeaponType, crate::items::WeaponProficiency)) -> Seq<u64> {
    |x: (crate::items::WeaponType, crate::items::WeaponProficiency)| enc_wp_pair(x)
}

pub open spec fn wp_pair_dec() -> spec_fn(Seq<u64>) -> Option<((crate::items::WeaponType, crate::items::WeaponProficiency), Seq<u64>)> {
    |s: Seq<u64>| sdec_wp_pair(s)
}

pub open spec fn wp_pair_bound() -> spec_fn((crate::items::WeaponType, crate::items::WeaponProficiency)) -> bool {
    |x: (crate::items::WeaponType, crate::items::WeaponProficiency)| true
}

pub proof fn lemma_seq_rt_wp_pair(items: Seq<(crate::items::WeaponType, crate::items::WeaponProficiency)>, rest: Seq<u64>)
    requires
        items.len() <= u64::MAX,
        forall|k: int| 0 <= k < items.len() ==> #[trigger] wp_pair_bound()(items[k]),
    ensures
        sdec_seq(enc_seq(items, wp_pair_enc()) + rest, wp_pair_dec()) == Some((items, rest)),
{
    assert forall|x: (crate::items::WeaponType, crate::items::WeaponProficiency), r: Seq<u64>| wp_pair_bound()(x) implies #[trigger] wp_pair_dec()(
        wp_pair_enc()(x) + r,
    ) == Some((x, r)) by {
        lemma_rt_wp_pair(x, r);
    }
    lemma_rt_seq(items, wp_pair_enc(), wp_pair_dec(), wp_pair_bound(), rest);
}

pub open spec fn inventory_entry_enc() -> spec_fn(crate::items::InventoryEntryView) -> Seq<u64> {
    |x: crate::items::InventoryEntryView| enc_inventory_entry(x)
}

pub open spec fn inventory_entry_dec() -> spec_fn(Seq<u64>) -> Option<(crate::items::InventoryEntryView, Seq<u64>)> {
    |s: Seq<u64>| sdec_inventory_entry(s)
}

pub open spec fn inventory_entry_bound() -> spec_fn(crate::items::InventoryEntryView) -> bool {
    |x: crate::items::InventoryEntryView| entry_bounded(x)
}

pub proof fn lemma_seq_rt_inventory_entry(items: Seq<crate::items::InventoryEntryView>, rest: Seq<u64>)
    requires
        items.len() <= u64::MAX,
        forall|k: int| 0 <= k < items.len() ==> #[trigger] inventory_entry_bound()(items[k]),
    ensures
        sdec_seq(enc_seq(items, inventory_entry_enc()) + rest, inventory_entry_dec()) == Some((items, rest)),
{
    assert forall|x: crate::items::InventoryEntryView, r: Seq<u64>| inventory_entry_bound()(x) implies #[trigger] inventory_entry_dec()(
        inventory_entry_enc()(x) + r,
    ) == Some((x, r)) by {
        lemma_rt_inventory_entry(x, r);
    }
    lemma_rt_seq(items, inventory_entry_enc(), inventory_entry_dec(), inventory_entry_bound(), rest);
}

pub open spec fn actor_ref_enc() -> spec_fn(crate::actor::ActorId) -> Seq<u64> {
    |x: crate::actor::ActorId| enc_actor_ref(x)
}

pub open spec fn actor_ref_dec() -> spec_fn(Seq<u64>) -> Option<(crate::actor::ActorId, Seq<u64>)> {
    |s: Seq<u64>| sdec_actor_ref(s)
}

pub open spec fn actor_ref_bound() -> spec_fn(crate::actor::ActorId) -> bool {
    |x: crate::actor::ActorId| true
}

pub proof fn lemma_seq_rt_actor_ref(items: Seq<crate::actor::ActorId>, rest: Seq<u64>)
    requires
        items.len() <= u64::MAX,
        forall|k: int| 0 <= k < items.len() ==> #[trigger] actor_ref_bound()(items[k]),
    ensures
        sdec_seq(enc_seq(items, actor_ref_enc()) + rest, actor_ref_dec()) == Some((items, rest)),
{
    assert forall|x: crate::actor::ActorId, r: Seq<u64>| actor_ref_bound()(x) implies #[trigger] actor_ref_dec()(
        actor_ref_enc()(x) + r,
    ) == Some((x, r)) by {
        lemma_rt_actor_ref(x, r);
    }
    lemma_rt_seq(items, actor_ref_enc(), actor_ref_dec(), actor_ref_bound(), rest);
}

#[verifier::opaque]
pub open spec fn enc_actor(v: crate::actor::ActorView) -> Seq<u64> {
    enc_actor_ref(v.id) + (enc_str(v.name) + (enc_u32(v.level) + (enc_u32(v.armor_class) + (enc_i32(v.max_health) + (enc_i32(v.health) + (enc_stats(v.stats) + (enc_u32(v.movement_speed) + (enc_skill_profs(v.skill_proficiencies) + (enc_save_profs(v.saving_throw_proficiencies) + (enc_death_saves(v.death_saves) + (enc_opt_i32(v.initiative) + (enc_action_economy(v.action_economy) + (enc_seq(v.equipped_items, equip_pair_enc()) + (enc_seq(v.inventory, inventory_entry_enc()) + (enc_seq(v.weapon_proficiencies, wp_pair_enc()))))))))))))))))
}

#[verifier::opaque]
pub open spec fn sdec_actor(s0: Seq<u64>) -> Option<(crate::actor::ActorView, Seq<u64>)> {
    match sdec_actor_ref(s0) {
        Some((x0, s1)) => {
            match sdec_str(s1) {
                Some((x1, s2)) => {
                    match sdec_u32(s2) {
                        Some((x2, s3)) => {
                            match sdec_u32(s3) {
                                Some((x3, s4)) => {
                                    match sdec_i32(s4) {
                                        Some((x4, s5)) => {
                                            match sdec_i32(s5) {
                                                Some((x5, s6)) => {
                                                    match sdec_stats(s6) {
                                                        Some((x6, s7)) => {
                                                            match sdec_u32(s7) {
                                                                Some((x7, s8)) => {
                                                                    match sdec_skill_profs(s8) {
                                                                        Some((x8, s9)) => {
                                                                            match sdec_save_profs(s9) {
                                                                                Some((x9, s10)) => {
                                                                                    match sdec_death_saves(s10) {
                                                                                        Some((x10, s11)) => {
                                                                                            match sdec_opt_i32(s11) {
                                                                                                Some((x11, s12)) => {
                                                                                                    match sdec_action_economy(s12) {
                                                                                                        Some((x12, s13)) => {
                                                                                                            match sdec_seq(s13, equip_pair_dec()) {
                                                                                                                Some((x13, s14)) => {
                                                                                                                    match sdec_seq(s14, inventory_entry_dec()) {
                                                                                                                        Some((x14, s15)) => {
                                                                                                                            match sdec_seq(s15, wp_pair_dec()) {
                                                                                                                                Some((x15, s16)) => {
                                                                                                                                    Some((crate::actor::ActorView { id: x0, name: x1, level: x2, armor_class: x3, max_health: x4, health: x5, stats: x6, movement_speed: x7, skill_proficiencies: x8, saving_throw_proficiencies: x9, death_saves: x10, initiative: x11, action_economy: x12, equipped_items: x13, inventory: x14, weapon_proficiencies: x15 }, s16))
                                                                                                                                },
                                                                                                                                None => None,
                                                                                                                            }
                                                                                                                        },
                                                                                                                        None => None,
                                                                                                                    }
                                                                                                                },
                                                                                                                None => None,
                                                                                                            }
                                                                                                        },
                                                                                                        None => None,
                                                                                                    }
                                                                                                },
                                                                                                None => None,
                                                                                            }
                                                                                        },
                                                                                        None => None,
                                                                                    }
                                                                                },
                                                                                None => None,
                                                                            }
                                                                        },
                                                                        None => None,
                                                                    }
                                                                },
                                                                None => None,
                                                            }
                                                        },
                                                        None => None,
                                                    }
                                                },
                                                None => None,
                                            }
                                        },
                                        None => None,
                                    }
                                },
                                None => None,
                            }
                        },
                        None => None,
                    }
                },
                None => None,
            }
        },
        None => None,
    }
}

#[verifier::rlimit(100)]
pub proof fn lemma_rt_actor(v: crate::actor::ActorView, rest: Seq<u64>)
    requires
        actor_bounded(v),
    ensures
        sdec_actor(enc_actor(v) + rest) == Some((v, rest)),
{
    reveal(enc_actor);
    reveal(sdec_actor);
    let e0 = enc_actor_ref(v.id);
    let e1 = enc_str(v.name);
    let e2 = enc_u32(v.level);
    let e3 = enc_u32(v.armor_class);
    let e4 = enc_i32(v.max_health);
    let e5 = enc_i32(v.health);
    let e6 = enc_stats(v.stats);
    let e7 = enc_u32(v.movement_speed);
    let e8 = enc_skill_profs(v.skill_proficiencies);
    let e9 = enc_save_profs(v.saving_throw_proficiencies);
    let e10 = enc_death_saves(v.death_saves);
    let e11 = enc_opt_i32(v.initiative);
    let e12 = enc_action_economy(v.action_economy);
    let e13 = enc_seq(v.equipped_items, equip_pair_enc());
    let e14 = enc_seq(v.inventory, inventory_entry_enc());
    let e15 = enc_seq(v.weapon_proficiencies, wp_pair_enc());
    let x15x = e15;
    let x14x = e14 + x15x;
    let x13x = e13 + x14x;
    let x12x = e12 + x13x;
    let x11x = e11 + x12x;
    let x10x = e10 + x11x;
    let x9x = e9 + x10x;
    let x8x = e8 + x9x;
    let x7x = e7 + x8x;
    let x6x = e6 + x7x;
    let x5x = e5 + x6x;
    let x4x = e4 + x5x;
    let x3x = e3 + x4x;
    let x2x = e2 + x3x;
    let x1x = e1 + x2x;
    assert(enc_actor(v) == e0 + x1x);
    seq_assoc(e0, x1x, rest);
    let t0 = x1x + rest;
    assert(enc_actor(v) + rest =~= e0 + t0);
    lemma_rt_actor_ref(v.id, t0);
    seq_assoc(e1, x2x, rest);
    let t1 = x2x + rest;
    assert(t0 =~= e1 + t1);
    lemma_rt_str(v.name, t1);
    seq_assoc(e2, x3x, rest);
    let t2 = x3x + rest;
    assert(t1 =~= e2 + t2);
    lemma_rt_u32(v.level, t2);
    seq_assoc(e3, x4x, rest);
    let t3 = x4x + rest;
    assert(t2 =~= e3 + t3);
    lemma_rt_u32(v.armor_class, t3);
    seq_assoc(e4, x5x, rest);
    let t4 = x5x + rest;
    assert(t3 =~= e4 + t4);
    lemma_rt_i32(v.max_health, t4);
    seq_assoc(e5, x6x, rest);
    let t5 = x6x + rest;
    assert(t4 =~= e5 + t5);
    lemma_rt_i32(v.health, t5);
    seq_assoc(e6, x7x, rest);
    let t6 = x7x + rest;
    assert(t5 =~= e6 + t6);
    lemma_rt_stats(v.stats, t6);
    seq_assoc(e7, x8x, rest);
    let t7 = x8x + rest;
    assert(t6 =~= e7 + t7);
    lemma_rt_u32(v.movement_speed, t7);
    seq_assoc(e8, x9x, rest);
    let t8 = x9x + rest;
    assert(t7 =~= e8 + t8);
    lemma_rt_skill_profs(v.skill_proficiencies, t8);
    seq_assoc(e9, x10x, rest);
    let t9 = x10x + rest;
    assert(t8 =~= e9 + t9);
    lemma_rt_save_profs(v.saving_throw_proficiencies, t9);
    seq_assoc(e10, x11x, rest);
    let t10 = x11x + rest;
    assert(t9 =~= e10 + t10);
    lemma_rt_death_saves(v.death_saves, t10);
    seq_assoc(e11, x12x, rest);
    let t11 = x12x + rest;
    assert(t10 =~= e11 + t11);
    lemma_rt_opt_i32(v.initiative, t11);
    seq_assoc(e12, x13x, rest);
    let t12 = x13x + rest;
    assert(t11 =~= e12 + t12);
    lemma_rt_action_economy(v.action_economy, t12);
    seq_assoc(e13, x14x, rest);
    let t13 = x14x + rest;
    assert(t12 =~= e13 + t13);
    lemma_seq_rt_equip_pair(v.equipped_items, t13);
    seq_assoc(e14, x15x, rest);
    let t14 = x15x + rest;
    assert(t13 =~= e14 + t14);
    lemma_seq_rt_inventory_entry(v.inventory, t14);
    assert(t14 =~= e15 + rest);
    lemma_seq_rt_wp_pair(v.weapon_proficiencies, rest);
}

#[verifier::opaque]
pub open spec fn enc_group(g: Seq<crate::actor::ActorId>) -> Seq<u64> {
    enc_seq(g, actor_ref_enc())
}

#[verifier::opaque]
pub open spec fn sdec_group(s: Seq<u64>) -> Option<(Seq<crate::actor::ActorId>, Seq<u64>)> {
    sdec_seq(s, actor_ref_dec())
}

pub proof fn lemma_rt_group(g: Seq<crate::actor::ActorId>, rest: Seq<u64>)
    requires
        group_bounded(g),
    ensures
        sdec_group(enc_group(g) + rest) == Some((g, rest)),
{
    reveal(enc_group);
    reveal(sdec_group);
    lemma_seq_rt_actor_ref(g, rest);
}

pub open spec fn actor_enc() -> spec_fn(crate::actor::ActorView) -> Seq<u64> {
    |x: crate::actor::ActorView| enc_actor(x)
}

pub open spec fn actor_dec() -> spec_fn(Seq<u64>) -> Option<(crate::actor::ActorView, Seq<u64>)> {
    |s: Seq<u64>| sdec_actor(s)
}

pub open spec fn actor_bound() -> spec_fn(crate::actor::ActorView) -> bool {
    |x: crate::actor::ActorView| actor_bounded(x)
}

pub proof fn lemma_seq_rt_actor(items: Seq<crate::actor::ActorView>, rest: Seq<u64>)
    requires
        items.len() <= u64::MAX,
        forall|k: int| 0 <= k < items.len() ==> #[trigger] actor_bound()(items[k]),
    ensures
        sdec_seq(enc_seq(items, actor_enc()) + rest, actor_dec()) == Some((items, rest)),
{
    assert forall|x: crate::actor::ActorView, r: Seq<u64>| actor_bound()(x) implies #[trigger] actor_dec()(
        actor_enc()(x) + r,
    ) == Some((x, r)) by {
        lemma_rt_actor(x, r);
    }
    lemma_rt_seq(items, actor_enc(), actor_dec(), actor_bound(), rest);
}

pub open spec fn item_enc() -> spec_fn(crate::items::ItemView) -> Seq<u64> {
    |x: crate::items::ItemView| enc_item(x)
}

pub open spec fn item_dec() -> spec_fn(Seq<u64>) -> Option<(crate::items::ItemView, Seq<u64>)> {
    |s: Seq<u64>| sdec_item(s)
}

pub open spec fn item_bound() -> spec_fn(crate::items::ItemView) -> bool {
    |x: crate::items::ItemView| item_bounded(x)
}

pub proof fn lemma_seq_rt_item(items: Seq<crate::items::ItemView>, rest: Seq<u64>)
    requires
        items.len() <= u64::MAX,
        forall|k: int| 0 <= k < items.len() ==> #[trigger] item_bound()(items[k]),
    ensures
        sdec_seq(enc_seq(items, item_enc()) + rest, item_dec()) == Some((items, rest)),
{
    assert forall|x: crate::items::ItemView, r: Seq<u64>| item_bound()(x) implies #[trigger] item_dec()(
        item_enc()(x) + r,
    ) == Some((x, r)) by {
        lemma_rt_item(x, r);
    }
    lemma_rt_seq(items, item_enc(), item_dec(), item_bound(), rest);
}

pub open spec fn group_enc() -> spec_fn(Seq<crate::actor::ActorId>) -> Seq<u64> {
    |x: Seq<crate::actor::ActorId>| enc_group(x)
}

pub open spec fn group_dec() -> spec_fn(Seq<u64>) -> Option<(Seq<crate::actor::ActorId>, Seq<u64>)> {
    |s: Seq<u64>| sdec_group(s)
}

pub open spec fn group_bound() -> spec_fn(Seq<crate::actor::ActorId>) -> bool {
    |x: Seq<crate::actor::ActorId>| group_bounded(x)
}

pub proof fn lemma_seq_rt_group(items: Seq<Seq<crate::actor::ActorId>>, rest: Seq<u64>)
    requires
        items.len() <= u64::MAX,
        forall|k: int| 0 <= k < items.len() ==> #[trigger] group_bound()(items[k]),
    ensures
        sdec_seq(enc_seq(items, group_enc()) + rest, group_dec()) == Some((items, rest)),
{
    assert forall|x: Seq<crate::actor::ActorId>, r: Seq<u64>| group_bound()(x) implies #[trigger] group_dec()(
        group_enc()(x) + r,
    ) == Some((x, r)) by {
        lemma_rt_group(x, r);
    }
    lemma_rt_seq(items, group_enc(), group_dec(), group_bound(), rest);
}

#[verifier::opaque]
pub open spec fn enc_state(v: crate::state::StateView) -> Seq<u64> {
    enc_u64(v.turn) + (enc_seq(v.actors, actor_enc()) + (enc_u32(v.next_actor_id) + (enc_seq(
        v.items,
        item_enc(),
    ) + (enc_u32(v.next_item_id) + (enc_seq(v.allied_groups, group_enc()) + (enc_seq(
        v.initiative_order,
        actor_ref_enc(),
    ) + enc_opt_usize(v.current_turn_index)))))))
}

#[verifier::opaque]
pub open spec fn sdec_state(s0: Seq<u64>) -> Option<(crate::state::StateView, Seq<u64>)> {
    match sdec_u64(s0) {
        Some((x0, s1)) => match sdec_seq(s1, actor_dec()) {
            Some((x1, s2)) => match sdec_u32(s2) {
                Some((x2, s3)) => match sdec_seq(s3, item_dec()) {
                    Some((x3, s4)) => match sdec_u32(s4) {
                        Some((x4, s5)) => match sdec_seq(s5, group_dec()) {
                            Some((x5, s6)) => match sdec_seq(s6, actor_ref_dec()) {
                                Some((x6, s7)) => match sdec_opt_usize(s7) {
                                    Some((x7, s8)) => Some(
                                        (
                                            crate::state::StateView {
                                                turn: x0,
                                                actors: x1,
                                                next_actor_id: x2,
                                                items: x3,
                                                next_item_id: x4,
                                                allied_groups: x5,
                                                initiative_order: x6,
                                                current_turn_index: x7,
                                            },
                                            s8,
                                        ),
                                    ),
                                    None => None,
                                },
                                None => None,
                            },
                            None => None,
                        },
                        None => None,
                    },
                    None => None,
                },
                None => None,
            },
            None => None,
        },
        None => None,
    }
}

#[verifier::rlimit(100)]
pub proof fn lemma_rt_state(v: crate::state::StateView, rest: Seq<u64>)
    requires
        state_bounded(v),
    ensures
        sdec_state(enc_state(v) + rest) == Some((v, rest)),
{
    reveal(enc_state);
    reveal(sdec_state);
    let e0 = enc_u64(v.turn);
    let e1 = enc_seq(v.actors, actor_enc());
    let e2 = enc_u32(v.next_actor_id);
    let e3 = enc_seq(v.items, item_enc());
    let e4 = enc_u32(v.next_item_id);
    let e5 = enc_seq(v.allied_groups, group_enc());
    let e6 = enc_seq(v.initiative_order, actor_ref_enc());
    let e7 = enc_opt_usize(v.current_turn_index);
    let x7x = e7;
    let x6x = e6 + x7x;
    let x5x = e5 + x6x;
    let x4x = e4 + x5x;
    let x3x = e3 + x4x;
    let x2x = e2 + x3x;
    let x1x = e1 + x2x;
    assert(enc_state(v) == e0 + x1x);
    seq_assoc(e0, x1x, rest);
    let t0 = x1x + rest;
    assert(enc_state(v) + rest =~= e0 + t0);
    lemma_rt_u64(v.turn, t0);
    seq_assoc(e1, x2x, rest);
    let t1 = x2x + rest;
    assert(t0 =~= e1 + t1);
    lemma_seq_rt_actor(v.actors, t1);
    seq_assoc(e2, x3x, rest);
    let t2 = x3x + rest;
    assert(t1 =~= e2 + t2);
    lemma_rt_u32(v.next_actor_id, t2);
    seq_assoc(e3, x4x, rest);
    let t3 = x4x + rest;
    assert(t2 =~= e3 + t3);
    lemma_seq_rt_item(v.items, t3);
    seq_assoc(e4, x5x, rest);
    let t4 = x5x + rest;
    assert(t3 =~= e4 + t4);
    lemma_rt_u32(v.next_item_id, t4);
    seq_assoc(e5, x6x, rest);
    let t5 = x6x + rest;
    assert(t4 =~= e5 + t5);
    lemma_seq_rt_group(v.allied_groups, t5);
    seq_assoc(e6, x7x, rest);
    let t6 = x7x + rest;
    assert(t5 =~= e6 + t6);
    lemma_seq_rt_actor_ref(v.initiative_order, t6);
    assert(t6 =~= e7 + rest);
    lemma_rt_opt_usize(v.current_turn_index, rest);
}

#[verifier::opaque]
pub open spec fn enc_transition(v: crate::transition::Transition) -> Seq<u64> {
    match v {
        crate::transition::Transition::Root => seq![0u64],
        crate::transition::Transition::BeginCombat => seq![1u64],
        crate::transition::Transition::EndCombat => seq![2u64],
        crate::transition::Transition::InitiativeRoll { actor, roll } => seq![3u64] + (enc_actor_ref(
            actor,
        ) + enc_i32(roll)),
        crate::transition::Transition::BeginTurn { actor } => seq![4u64] + enc_actor_ref(actor),
        crate::transition::Transition::EndTurn { actor } => seq![5u64] + enc_actor_ref(actor),
        crate::transition::Transition::AdvanceInitiative => seq![6u64],
        crate::transition::Transition::HealthModification { target, delta } => seq![7u64]
            + (enc_actor_ref(target) + enc_i32(delta)),
        crate::transition::Transition::StatModification { target, stat, delta } => seq![8u64]
            + (enc_actor_ref(target) + (enc_stat(stat) + enc_i32(delta))),
        crate::transition::Transition::ActionEconomyUsed { target, action_type } => seq![9u64]
            + (enc_actor_ref(target) + enc_action_economy_usage(action_type)),
    }
}

#[verifier::opaque]
pub open spec fn sdec_transition(s: Seq<u64>) -> Option<
    (crate::transition::Transition, Seq<u64>),
> {
    if s.len() == 0 {
        None
    } else if s.first() == 0 {
        Some((crate::transition::Transition::Root, s.drop_first()))
    } else if s.first() == 1 {
        Some((crate::transition::Transition::BeginCombat, s.drop_first()))
    } else if s.first() == 2 {
        Some((crate::transition::Transition::EndCombat, s.drop_first()))
    } else if s.first() == 3 {
        match sdec_actor_ref(s.drop_first()) {
            Some((actor, s1)) => match sdec_i32(s1) {
                Some((roll, s2)) => Some(
                    (crate::transition::Transition::InitiativeRoll { actor, roll }, s2),
                ),
                None => None,
            },
            None => None,
        }
    } else if s.first() == 4 {
        match sdec_actor_ref(s.drop_first()) {
            Some((actor, s1)) => Some((crate::transition::Transition::BeginTurn { actor }, s1)),
            None => None,
        }
    } else if s.first() == 5 {
        match sdec_actor_ref(s.drop_first()) {
            Some((actor, s1)) => Some((crate::transition::Transition::EndTurn { actor }, s1)),
            None => None,
        }
    } else if s.first() == 6 {
        Some((crate::transition::Transition::AdvanceInitiative, s.drop_first()))
    } else if s.first() == 7 {
        match sdec_actor_ref(s.drop_first()) {
            Some((target, s1)) => match sdec_i32(s1) {
                Some((delta, s2)) => Some(
                    (crate::transition::Transition::HealthModification { target, delta }, s2),
                ),
                None => None,
            },
            None => None,
        }
    } else if s.first() == 8 {
        match sdec_actor_ref(s.drop_first()) {
            Some((target, s1)) => match sdec_stat(s1) {
                Some((stat, s2)) => match sdec_i32(s2) {
                    Some((delta, s3)) => Some(
                        (
                            crate::transition::Transition::StatModification {
                                target,
                                stat,
                                delta,
                            },
                            s3,
                        ),
                    ),
                    None => None,
                },
                None => None,
            },
            None => None,
        }
    } else if s.first() == 9 {
        match sdec_actor_ref(s.drop_first()) {
            Some((target, s1)) => match sdec_action_economy_usage(s1) {
                Some((action_type, s2)) => Some(
                    (
                        crate::transition::Transition::ActionEconomyUsed { target, action_type },
                        s2,
                    ),
                ),
                None => None,
            },
            None => None,
        }
    } else {
        None
    }
}

#[verifier::rlimit(100)]
pub proof fn lemma_rt_transition(v: crate::transition::Transition, rest: Seq<u64>)
    ensures
        sdec_transition(enc_transition(v) + rest) == Some((v, rest)),
{
    reveal(enc_transition);
    reveal(sdec_transition);
    match v {
        crate::transition::Transition::Root => {
            assert((enc_transition(v) + rest).drop_first() =~= rest);
        },
        crate::transition::Transition::BeginCombat => {
            assert((enc_transition(v) + rest).drop_first() =~= rest);
        },
        crate::transition::Transition::EndCombat => {
            assert((enc_transition(v) + rest).drop_first() =~= rest);
        },
        crate::transition::Transition::InitiativeRoll { actor, roll } => {
            assert((enc_transition(v) + rest).drop_first() =~= enc_actor_ref(actor) + (enc_i32(
                roll,
            ) + rest));
            lemma_rt_actor_ref(actor, enc_i32(roll) + rest);
            lemma_rt_i32(roll, rest);
        },
        crate::transition::Transition::BeginTurn { actor } => {
            assert((enc_transition(v) + rest).drop_first() =~= enc_actor_ref(actor) + rest);
            lemma_rt_actor_ref(actor, rest);
        },
        crate::transition::Transition::EndTurn { actor } => {
            assert((enc_transition(v) + rest).drop_first() =~= enc_actor_ref(actor) + rest);
            lemma_rt_actor_ref(actor, rest);
        },
        crate::transition::Transition::AdvanceInitiative => {
            assert((enc_transition(v) + rest).drop_first() =~= rest);
        },
        crate::transition::Transition::HealthModification { target, delta } => {
            assert((enc_transition(v) + rest).drop_first() =~= enc_actor_ref(target) + (enc_i32(
                delta,
            ) + rest));
            lemma_rt_actor_ref(target, enc_i32(delta) + rest);
            lemma_rt_i32(delta, rest);
        },
        crate::transition::Transition::StatModification { target, stat, delta } => {
            assert((enc_transition(v) + rest).drop_first() =~= enc_actor_ref(target) + (enc_stat(
                stat,
            ) + (enc_i32(delta) + rest)));
            lemma_rt_actor_ref(target, enc_stat(stat) + (enc_i32(delta) + rest));
            lemma_rt_stat(stat, enc_i32(delta) + rest);
            lemma_rt_i32(delta, rest);
        },
        crate::transition::Transition::ActionEconomyUsed { target, action_type } => {
            assert((enc_transition(v) + rest).drop_first() =~= enc_actor_ref(target)
                + (enc_action_economy_usage(action_type) + rest));
            lemma_rt_actor_ref(target, enc_action_economy_usage(action_type) + rest);
            lemma_rt_action_economy_usage(action_type, rest);
        },
    }
}


// ---------------------------------------------------------------------
// executable encoding

/// Relies on `str::chars`: the characters of a string, in order, are
/// exactly its view.
#[verifier::external_body]
pub(crate) fn chars_vec(s: &str) -> (r: Vec<char>)
    ensures
        r@ == s@,
{
    s.chars().collect()
}

/// Relies on `String::push`: appends one character to the string.
#[verifier::external_body]
pub(crate) fn push_char(s: &mut String, c: char)
    ensures
        final(s)@ == old(s)@.push(c),
{
    s.push(c);
}

/// Appending one more element extends the encoded list by its encoding.
pub proof fn lemma_enc_list_push<T>(s: Seq<T>, x: T, f: spec_fn(T) -> Seq<u64>)
    ensures
        enc_list(s.push(x), f) =~= enc_list(s, f) + f(x),
    decreases s.len(),
{
    if s.len() == 0 {
        assert(s.push(x).drop_first() =~= Seq::<T>::empty());
        assert(enc_list(s, f) + f(x) =~= f(x));
        assert(enc_list(s.push(x), f) =~= f(x) + enc_list(Seq::<T>::empty(), f));
        assert(f(x) + enc_list(Seq::<T>::empty(), f) =~= f(x));
    } else {
        assert(s.push(x).first() == s.first());
        assert(s.push(x).drop_first() =~= s.drop_first().push(x));
        lemma_enc_list_push(s.drop_first(), x, f);
        seq_assoc_pub(f(s.first()), enc_list(s.drop_first(), f), f(x));
    }
}

/// Concatenation of token streams is associative.
pub proof fn seq_assoc_pub(a: Seq<u64>, b: Seq<u64>, c: Seq<u64>)
    ensures
        (a + b) + c =~= a + (b + c),
{
}

/// Appending one more character extends the encoded text by one token.
pub proof fn lemma_enc_chars_push(s: Seq<char>, x: char)
    ensures
        enc_chars(s.push(x)) =~= enc_chars(s) + seq![(x as u32) as u64],
    decreases s.len(),
{
    if s.len() == 0 {
        assert(s.push(x).first() == x);
        assert(s.push(x).drop_first() =~= Seq::<char>::empty());
        assert(enc_chars(s.push(x)) =~= seq![(x as u32) as u64] + enc_chars(
            Seq::<char>::empty(),
        ));
        assert(enc_chars(s) + seq![(x as u32) as u64] =~= seq![(x as u32) as u64]);
    } else {
        assert(s.push(x).first() == s.first());
        assert(s.push(x).drop_first() =~= s.drop_first().push(x));
        lemma_enc_chars_push(s.drop_first(), x);
        seq_assoc_pub(
            seq![(s.first() as u32) as u64],
            enc_chars(s.drop_first()),
            seq![(x as u32) as u64],
        );
    }
}

fn encode_u64(v: u64, out: &mut Vec<u64>)
    ensures
        final(out)@ == old(out)@ + enc_u64(v),
{
    out.push(v);
    proof {
        assert(out@ =~= old(out)@ + enc_u64(v));
    }
}

/// Append one raw token.
pub(crate) fn encode_u64_pub(v: u64, out: &mut Vec<u64>)
    ensures
        final(out)@ == old(out)@ + enc_u64(v),
{
    encode_u64(v, out)
}

fn encode_u32(v: u32, out: &mut Vec<u64>)
    ensures
        final(out)@ == old(out)@ + enc_u32(v),
{
    out.push(v as u64);
    proof {
        assert(out@ =~= old(out)@ + enc_u32(v));
    }
}

fn encode_u8(v: u8, out: &mut Vec<u64>)
    ensures
        final(out)@ == old(out)@ + enc_u8(v),
{
    out.push(v as u64);
    proof {
        assert(out@ =~= old(out)@ + enc_u8(v));
    }
}

fn encode_bool(v: bool, out: &mut Vec<u64>)
    ensures
        final(out)@ == old(out)@ + enc_bool(v),
{
    out.push(if v { 1u64 } else { 0u64 });
    proof {
        reveal(enc_bool);
        assert(out@ =~= old(out)@ + enc_bool(v));
    }
}

fn encode_usize(v: usize, out: &mut Vec<u64>)
    ensures
        final(out)@ == old(out)@ + enc_usize(v),
{
    out.push(v as u64);
    proof {
        assert(out@ =~= old(out)@ + enc_usize(v));
    }
}

fn encode_i32(v: i32, out: &mut Vec<u64>)
    ensures
        final(out)@ == old(out)@ + enc_i32(v),
{
    let unsigned: u32 = if v >= 0 {
        v as u32
    } else {
        let magnitude: i64 = -(v as i64);
        (0x1_0000_0000i64 - magnitude) as u32
    };
    proof {
        assert(unsigned == crate::transition::spec_u32_of_i32(v));
    }
    out.push(unsigned as u64);
    proof {
        assert(out@ =~= old(out)@ + enc_i32(v));
    }
}

fn encode_opt_u32(v: Option<u32>, out: &mut Vec<u64>)
    ensures
        final(out)@ == old(out)@ + enc_opt_u32(v),
{
    proof {
        reveal(enc_opt_u32);
    }
    match v {
        Some(x) => {
            out.push(1u64);
            let ghost b0 = out@;
            encode_u32(x, out);
            proof {
                assert(b0 =~= old(out)@ + seq![1u64]);
                seq_assoc_pub(old(out)@, seq![1u64], enc_u32(x));
                assert(out@ =~= old(out)@ + enc_opt_u32(v));
            }
        },
        None => {
            out.push(0u64);
            proof {
                assert(out@ =~= old(out)@ + enc_opt_u32(v));
            }
        },
    }
}

fn encode_opt_i32(v: Option<i32>, out: &mut Vec<u64>)
    ensures
        final(out)@ == old(out)@ + enc_opt_i32(v),
{
    proof {
        reveal(enc_opt_i32);
    }
    match v {
        Some(x) => {
            out.push(1u64);
            let ghost b0 = out@;
            encode_i32(x, out);
            proof {
                assert(b0 =~= old(out)@ + seq![1u64]);
                seq_assoc_pub(old(out)@, seq![1u64], enc_i32(x));
                assert(out@ =~= old(out)@ + enc_opt_i32(v));
            }
        },
        None => {
            out.push(0u64);
            proof {
                assert(out@ =~= old(out)@ + enc_opt_i32(v));
            }
        },
    }
}

fn encode_opt_usize(v: Option<usize>, out: &mut Vec<u64>)
    ensures
        final(out)@ == old(out)@ + enc_opt_usize(v),
{
    proof {
        reveal(enc_opt_usize);
    }
    match v {
        Some(x) => {
            out.push(1u64);
            let ghost b0 = out@;
            encode_usize(x, out);
            proof {
                assert(b0 =~= old(out)@ + seq![1u64]);
                seq_assoc_pub(old(out)@, seq![1u64], enc_usize(x));
                assert(out@ =~= old(out)@ + enc_opt_usize(v));
            }
        },
        None => {
            out.push(0u64);
            proof {
                assert(out@ =~= old(out)@ + enc_opt_usize(v));
            }
        },
    }
}

fn encode_str(s: &str, out: &mut Vec<u64>)
    ensures
        final(out)@ == old(out)@ + enc_str(s@),
        s@.len() <= u64::MAX,
{
    let cs = chars_vec(s);
    let n: usize = cs.len();
    let ghost base = out@;
    encode_u64(n as u64, out);
    let ghost b0 = out@;
    let mut i: usize = 0;
    while i < n
        invariant
            n == cs.len(),
            cs@ == s@,
            i <= n,
            b0 == base + enc_u64(n as u64),
            out@ =~= b0 + enc_chars(s@.take(i as int)),
        decreases n - i,
    {
        let c: char = cs[i];
        out.push((c as u32) as u64);
        proof {
            assert(s@.take(i + 1) =~= s@.take(i as int).push(c));
            lemma_enc_chars_push(s@.take(i as int), c);
            seq_assoc_pub(b0, enc_chars(s@.take(i as int)), seq![(c as u32) as u64]);
        }
        i = i + 1;
    }
    proof {
        assert(s@.take(n as int) =~= s@);
        seq_assoc_pub(base, enc_u64(n as u64), enc_chars(s@));
        assert(out@ =~= base + enc_str(s@));
    }
}

fn encode_stat(v: crate::stats::Stat, out: &mut Vec<u64>)
    ensures
        final(out)@ == old(out)@ + enc_stat(v),
{
    let tag: u64 = match v {
        crate::stats::Stat::Strength => 0,
        crate::stats::Stat::Dexterity => 1,
        crate::stats::Stat::Constitution => 2,
        crate::stats::Stat::Intelligence => 3,
        crate::stats::Stat::Wisdom => 4,
        crate::stats::Stat::Charisma => 5,
    };
    out.push(tag);
    proof {
        reveal(enc_stat);
        assert(out@ =~= old(out)@ + enc_stat(v));
    }
}

fn encode_proficiency(v: crate::skills::Proficiency, out: &mut Vec<u64>)
    ensures
        final(out)@ == old(out)@ + enc_proficiency(v),
{
    let tag: u64 = match v {
        crate::skills::Proficiency::Untrained => 0,
        crate::skills::Proficiency::HalfProficient => 1,
        crate::skills::Proficiency::Proficient => 2,
        crate::skills::Proficiency::Expert => 3,
    };
    out.push(tag);
    proof {
        reveal(enc_proficiency);
        assert(out@ =~= old(out)@ + enc_proficiency(v));
    }
}

fn encode_weapon_proficiency(v: crate::items::WeaponProficiency, out: &mut Vec<u64>)
    ensures
        final(out)@ == old(out)@ + enc_weapon_proficiency(v),
{
    let tag: u64 = match v {
        crate::items::WeaponProficiency::NotProficient => 0,
        crate::items::WeaponProficiency::HalfProficient => 1,
        crate::items::WeaponProficiency::Proficient => 2,
    };
    out.push(tag);
    proof {
        reveal(enc_weapon_proficiency);
        assert(out@ =~= old(out)@ + enc_weapon_proficiency(v));
    }
}

fn encode_equip_slot(v: crate::items::EquipSlot, out: &mut Vec<u64>)
    ensures
        final(out)@ == old(out)@ + enc_equip_slot(v),
{
    let tag: u64 = match v {
        crate::items::EquipSlot::Head => 0,
        crate::items::EquipSlot::Chest => 1,
        crate::items::EquipSlot::Legs => 2,
        crate::items::EquipSlot::Feet => 3,
        crate::items::EquipSlot::Hands => 4,
        crate::items::EquipSlot::Shield => 5,
        crate::items::EquipSlot::Accessory => 6,
    };
    out.push(tag);
    proof {
        reveal(enc_equip_slot);
        assert(out@ =~= old(out)@ + enc_equip_slot(v));
    }
}

fn encode_action_economy_usage(v: crate::actions::ActionEconomyUsage, out: &mut Vec<u64>)
    ensures
        final(out)@ == old(out)@ + enc_action_economy_usage(v),
{
    let tag: u64 = match v {
        crate::actions::ActionEconomyUsage::Action => 0,
        crate::actions::ActionEconomyUsage::BonusAction => 1,
    };
    out.push(tag);
    proof {
        reveal(enc_action_economy_usage);
        assert(out@ =~= old(out)@ + enc_action_economy_usage(v));
    }
}

fn encode_advantage(v: crate::dice::Advantage, out: &mut Vec<u64>)
    ensures
        final(out)@ == old(out)@ + enc_advantage(v),
{
    let tag: u64 = match v {
        crate::dice::Advantage::Normal => 0,
        crate::dice::Advantage::Advantage => 1,
        crate::dice::Advantage::Disadvantage => 2,
    };
    out.push(tag);
    proof {
        reveal(enc_advantage);
        assert(out@ =~= old(out)@ + enc_advantage(v));
    }
}

#[verifier::rlimit(50)]
fn encode_weapon_type(v: crate::items::WeaponType, out: &mut Vec<u64>)
    ensures
        final(out)@ == old(out)@ + enc_weapon_type(v),
{
    let tag: u64 = match v {
        crate::items::WeaponType::Club => 0,
        crate::items::WeaponType::Dagger => 1,
        crate::items::WeaponType::Greatclub => 2,
        crate::items::WeaponType::Handaxe => 3,
        crate::items::WeaponType::Javelin => 4,
        crate::items::WeaponType::LightHammer => 5,
        crate::items::WeaponType::Mace => 6,
        crate::items::WeaponType::Quarterstaff => 7,
        crate::items::WeaponType::Sickle => 8,
        crate::items::WeaponType::Spear => 9,
        crate::items::WeaponType::CrossbowLight => 10,
        crate::items::WeaponType::Dart => 11,
        crate::items::WeaponType::Shortbow => 12,
        crate::items::WeaponType::Sling => 13,
        crate::items::WeaponType::Battleaxe => 14,
        crate::items::WeaponType::Flail => 15,
        crate::items::WeaponType::Glaive => 16,
        crate::items::WeaponType::Greataxe => 17,
        crate::items::WeaponType::Greatsword => 18,
        crate::items::WeaponType::Halberd => 19,
        crate::items::WeaponType::Lance => 20,
        crate::items::WeaponType::Longsword => 21,
        crate::items::WeaponType::Maul => 22,
        crate::items::WeaponType::Morningstar => 23,
        crate::items::WeaponType::Pike => 24,
        crate::items::WeaponType::Rapier => 25,
        crate::items::WeaponType::Scimitar => 26,
        crate::items::WeaponType::Shortsword => 27,
        crate::items::WeaponType::Trident => 28,
        crate::items::WeaponType::WarPick => 29,
        crate::items::WeaponType::Warhammer => 30,
        crate::items::WeaponType::Whip => 31,
        crate::items::WeaponType::Blowgun => 32,
        crate::items::WeaponType::CrossbowHeavy => 33,
        crate::items::WeaponType::Longbow => 34,
        crate::items::WeaponType::Net => 35,
    };
    out.push(tag);
    proof {
        reveal(enc_weapon_type);
        assert(out@ =~= old(out)@ + enc_weapon_type(v));
    }
}

fn encode_actor_ref(v: crate::actor::ActorId, out: &mut Vec<u64>)
    ensures
        final(out)@ == old(out)@ + enc_actor_ref(v),
{
    let ghost base = out@;
    encode_u32(v.0, out);
    let ghost b0 = out@;
    proof {
        reveal(enc_actor_ref);
        let e0 = enc_u32(v.0);
        let x0x = e0;
        assert(out@ =~= base + enc_actor_ref(v));
    }
}

fn encode_item_ref(v: crate::items::ItemId, out: &mut Vec<u64>)
    ensures
        final(out)@ == old(out)@ + enc_item_ref(v),
{
    let ghost base = out@;
    encode_u32(v.0, out);
    let ghost b0 = out@;
    proof {
        reveal(enc_item_ref);
        let e0 = enc_u32(v.0);
        let x0x = e0;
        assert(out@ =~= base + enc_item_ref(v));
    }
}

fn encode_spell_ref(v: crate::spells::SpellId, out: &mut Vec<u64>)
    ensures
        final(out)@ == old(out)@ + enc_spell_ref(v),
{
    let ghost base = out@;
    encode_u32(v.0, out);
    let ghost b0 = out@;
    proof {
        reveal(enc_spell_ref);
        let e0 = enc_u32(v.0);
        let x0x = e0;
        assert(out@ =~= base + enc_spell_ref(v));
    }
}

fn encode_stats(v: crate::stats::Stats, out: &mut Vec<u64>)
    ensures
        final(out)@ == old(out)@ + enc_stats(v),
{
    let ghost base = out@;
    encode_u32(v.strength, out);
    let ghost b0 = out@;
    encode_u32(v.dexterity, out);
    let ghost b1 = out@;
    encode_u32(v.constitution, out);
    let ghost b2 = out@;
    encode_u32(v.intelligence, out);
    let ghost b3 = out@;
    encode_u32(v.wisdom, out);
    let ghost b4 = out@;
    encode_u32(v.charisma, out);
    let ghost b5 = out@;
    proof {
        reveal(enc_stats);
        let e0 = enc_u32(v.strength);
        let e1 = enc_u32(v.dexterity);
        let e2 = enc_u32(v.constitution);
        let e3 = enc_u32(v.intelligence);
        let e4 = enc_u32(v.wisdom);
        let e5 = enc_u32(v.charisma);
        let x5x = e5;
        let x4x = e4 + x5x;
        let x3x = e3 + x4x;
        let x2x = e2 + x3x;
        let x1x = e1 + x2x;
        assert(b0 == base + e0);
        seq_assoc_pub(base, e0, x1x);
        assert(base + enc_stats(v) =~= b0 + x1x);
        seq_assoc_pub(b0, e1, x2x);
        assert(b0 + x1x =~= b1 + x2x);
        seq_assoc_pub(b1, e2, x3x);
        assert(b1 + x2x =~= b2 + x3x);
        seq_assoc_pub(b2, e3, x4x);
        assert(b2 + x3x =~= b3 + x4x);
        seq_assoc_pub(b3, e4, x5x);
        assert(b3 + x4x =~= b4 + x5x);
        assert(b4 + x5x =~= b5);
        assert(out@ =~= base + enc_stats(v));
    }
}

#[verifier::rlimit(60)]
fn encode_prof9(v: (crate::skills::Proficiency, crate::skills::Proficiency, crate::skills::Proficiency, crate::skills::Proficiency, crate::skills::Proficiency, crate::skills::Proficiency, crate::skills::Proficiency, crate::skills::Proficiency, crate::skills::Proficiency), out: &mut Vec<u64>)
    ensures
        final(out)@ == old(out)@ + enc_prof9(v),
{
    let ghost base = out@;
    encode_proficiency(v.0, out);
    let ghost b0 = out@;
    encode_proficiency(v.1, out);
    let ghost b1 = out@;
    encode_proficiency(v.2, out);
    let ghost b2 = out@;
    encode_proficiency(v.3, out);
    let ghost b3 = out@;
    encode_proficiency(v.4, out);
    let ghost b4 = out@;
    encode_proficiency(v.5, out);
    let ghost b5 = out@;
    encode_proficiency(v.6, out);
    let ghost b6 = out@;
    encode_proficiency(v.7, out);
    let ghost b7 = out@;
    encode_proficiency(v.8, out);
    let ghost b8 = out@;
    proof {
        reveal(enc_prof9);
        let e0 = enc_proficiency(v.0);
        let e1 = enc_proficiency(v.1);
        let e2 = enc_proficiency(v.2);
        let e3 = enc_proficiency(v.3);
        let e4 = enc_proficiency(v.4);
        let e5 = enc_proficiency(v.5);
        let e6 = enc_proficiency(v.6);
        let e7 = enc_proficiency(v.7);
        let e8 = enc_proficiency(v.8);
        let x8x = e8;
        let x7x = e7 + x8x;
        let x6x = e6 + x7x;
        let x5x = e5 + x6x;
        let x4x = e4 + x5x;
        let x3x = e3 + x4x;
        let x2x = e2 + x3x;
        let x1x = e1 + x2x;
        assert(b0 == base + e0);
        seq_assoc_pub(base, e0, x1x);
        assert(base + enc_prof9(v) =~= b0 + x1x);
        seq_assoc_pub(b0, e1, x2x);
        assert(b0 + x1x =~= b1 + x2x);
        seq_assoc_pub(b1, e2, x3x);
        assert(b1 + x2x =~= b2 + x3x);
        seq_assoc_pub(b2, e3, x4x);
        assert(b2 + x3x =~= b3 + x4x);
        seq_assoc_pub(b3, e4, x5x);
        assert(b3 + x4x =~= b4 + x5x);
        seq_assoc_pub(b4, e5, x6x);
        assert(b4 + x5x =~= b5 + x6x);
        seq_assoc_pub(b5, e6, x7x);
        assert(b5 + x6x =~= b6 + x7x);
        seq_assoc_pub(b6, e7, x8x);
        assert(b6 + x7x =~= b7 + x8x);
        assert(b7 + x8x =~= b8);
        assert(out@ =~= base + enc_prof9(v));
    }
}

fn encode_save_profs(v: crate::saves::SavingThrowProficiencies, out: &mut Vec<u64>)
    ensures
        final(out)@ == old(out)@ + enc_save_profs(v),
{
    let ghost base = out@;
    encode_bool(v.strength, out);
    let ghost b0 = out@;
    encode_bool(v.dexterity, out);
    let ghost b1 = out@;
    encode_bool(v.constitution, out);
    let ghost b2 = out@;
    encode_bool(v.intelligence, out);
    let ghost b3 = out@;
    encode_bool(v.wisdom, out);
    let ghost b4 = out@;
    encode_bool(v.charisma, out);
    let ghost b5 = out@;
    proof {
        reveal(enc_save_profs);
        let e0 = enc_bool(v.strength);
        let e1 = enc_bool(v.dexterity);
        let e2 = enc_bool(v.constitution);
        let e3 = enc_bool(v.intelligence);
        let e4 = enc_bool(v.wisdom);
        let e5 = enc_bool(v.charisma);
        let x5x = e5;
        let x4x = e4 + x5x;
        let x3x = e3 + x4x;
        let x2x = e2 + x3x;
        let x1x = e1 + x2x;
        assert(b0 == base + e0);
        seq_assoc_pub(base, e0, x1x);
        assert(base + enc_save_profs(v) =~= b0 + x1x);
        seq_assoc_pub(b0, e1, x2x);
        assert(b0 + x1x =~= b1 + x2x);
        seq_assoc_pub(b1, e2, x3x);
        assert(b1 + x2x =~= b2 + x3x);
        seq_assoc_pub(b2, e3, x4x);
        assert(b2 + x3x =~= b3 + x4x);
        seq_assoc_pub(b3, e4, x5x);
        assert(b3 + x4x =~= b4 + x5x);
        assert(b4 + x5x =~= b5);
        assert(out@ =~= base + enc_save_profs(v));
    }
}

fn encode_death_saves(v: crate::death::DeathSaves, out: &mut Vec<u64>)
    ensures
        final(out)@ == old(out)@ + enc_death_saves(v),
{
    let ghost base = out@;
    encode_u8(v.successes, out);
    let ghost b0 = out@;
    encode_u8(v.failures, out);
    let ghost b1 = out@;
    proof {
        reveal(enc_death_saves);
        let e0 = enc_u8(v.successes);
        let e1 = enc_u8(v.failures);
        let x1x = e1;
        assert(b0 == base + e0);
        seq_assoc_pub(base, e0, x1x);
        assert(base + enc_death_saves(v) =~= b0 + x1x);
        assert(b0 + x1x =~= b1);
        assert(out@ =~= base + enc_death_saves(v));
    }
}

fn encode_action_economy(v: crate::actions::ActionEconomy, out: &mut Vec<u64>)
    ensures
        final(out)@ == old(out)@ + enc_action_economy(v),
{
    let ghost base = out@;
    encode_bool(v.action_used, out);
    let ghost b0 = out@;
    encode_bool(v.bonus_action_used, out);
    let ghost b1 = out@;
    encode_bool(v.reaction_used, out);
    let ghost b2 = out@;
    encode_u32(v.free_actions_used, out);
    let ghost b3 = out@;
    encode_u32(v.movement_used, out);
    let ghost b4 = out@;
    proof {
        reveal(enc_action_economy);
        let e0 = enc_bool(v.action_used);
        let e1 = enc_bool(v.bonus_action_used);
        let e2 = enc_bool(v.reaction_used);
        let e3 = enc_u32(v.free_actions_used);
        let e4 = enc_u32(v.movement_used);
        let x4x = e4;
        let x3x = e3 + x4x;
        let x2x = e2 + x3x;
        let x1x = e1 + x2x;
        assert(b0 == base + e0);
        seq_assoc_pub(base, e0, x1x);
        assert(base + enc_action_economy(v) =~= b0 + x1x);
        seq_assoc_pub(b0, e1, x2x);
        assert(b0 + x1x =~= b1 + x2x);
        seq_assoc_pub(b1, e2, x3x);
        assert(b1 + x2x =~= b2 + x3x);
        seq_assoc_pub(b2, e3, x4x);
        assert(b2 + x3x =~= b3 + x4x);
        assert(b3 + x4x =~= b4);
        assert(out@ =~= base + enc_action_economy(v));
    }
}

fn encode_armor(v: crate::items::Armor, out: &mut Vec<u64>)
    ensures
        final(out)@ == old(out)@ + enc_armor(v),
{
    let ghost base = out@;
    encode_u32(v.ac_bonus, out);
    let ghost b0 = out@;
    encode_bool(v.stealth_disadvantage, out);
    let ghost b1 = out@;
    proof {
        reveal(enc_armor);
        let e0 = enc_u32(v.ac_bonus);
        let e1 = enc_bool(v.stealth_disadvantage);
        let x1x = e1;
        assert(b0 == base + e0);
        seq_assoc_pub(base, e0, x1x);
        assert(base + enc_armor(v) =~= b0 + x1x);
        assert(b0 + x1x =~= b1);
        assert(out@ =~= base + enc_armor(v));
    }
}

fn encode_roll_settings(v: crate::dice::RollSettings, out: &mut Vec<u64>)
    ensures
        final(out)@ == old(out)@ + enc_roll_settings(v),
{
    let ghost base = out@;
    encode_advantage(v.advantage, out);
    let ghost b0 = out@;
    encode_opt_u32(v.minimum_die_value, out);
    let ghost b1 = out@;
    encode_opt_u32(v.maximum_die_value, out);
    let ghost b2 = out@;
    encode_opt_u32(v.reroll_dice_below, out);
    let ghost b3 = out@;
    proof {
        reveal(enc_roll_settings);
        let e0 = enc_advantage(v.advantage);
        let e1 = enc_opt_u32(v.minimum_die_value);
        let e2 = enc_opt_u32(v.maximum_die_value);
        let e3 = enc_opt_u32(v.reroll_dice_below);
        let x3x = e3;
        let x2x = e2 + x3x;
        let x1x = e1 + x2x;
        assert(b0 == base + e0);
        seq_assoc_pub(base, e0, x1x);
        assert(base + enc_roll_settings(v) =~= b0 + x1x);
        seq_assoc_pub(b0, e1, x2x);
        assert(b0 + x1x =~= b1 + x2x);
        seq_assoc_pub(b1, e2, x3x);
        assert(b1 + x2x =~= b2 + x3x);
        assert(b2 + x3x =~= b3);
        assert(out@ =~= base + enc_roll_settings(v));
    }
}

fn encode_roll_plan(v: crate::dice::RollPlan, out: &mut Vec<u64>)
    ensures
        final(out)@ == old(out)@ + enc_roll_plan(v),
{
    let ghost base = out@;
    encode_u32(v.num_dice, out);
    let ghost b0 = out@;
    encode_u32(v.die_size, out);
    let ghost b1 = out@;
    encode_i32(v.modifier, out);
    let ghost b2 = out@;
    encode_roll_settings(v.settings, out);
    let ghost b3 = out@;
    proof {
        reveal(enc_roll_plan);
        let e0 = enc_u32(v.num_dice);
        let e1 = enc_u32(v.die_size);
        let e2 = enc_i32(v.modifier);
        let e3 = enc_roll_settings(v.settings);
        let x3x = e3;
        let x2x = e2 + x3x;
        let x1x = e1 + x2x;
        assert(b0 == base + e0);
        seq_assoc_pub(base, e0, x1x);
        assert(base + enc_roll_plan(v) =~= b0 + x1x);
        seq_assoc_pub(b0, e1, x2x);
        assert(b0 + x1x =~= b1 + x2x);
        seq_assoc_pub(b1, e2, x3x);
        assert(b1 + x2x =~= b2 + x3x);
        assert(b2 + x3x =~= b3);
        assert(out@ =~= base + enc_roll_plan(v));
    }
}

fn encode_opt_roll_plan(v: Option<crate::dice::RollPlan>, out: &mut Vec<u64>)
    ensures
        final(out)@ == old(out)@ + enc_opt_roll_plan(v),
{
    proof {
        reveal(enc_opt_roll_plan);
    }
    match v {
        Some(x) => {
            out.push(1u64);
            let ghost b0 = out@;
            encode_roll_plan(x, out);
            proof {
                assert(b0 =~= old(out)@ + seq![1u64]);
                seq_assoc_pub(old(out)@, seq![1u64], enc_roll_plan(x));
                assert(out@ =~= old(out)@ + enc_opt_roll_plan(v));
            }
        },
        None => {
            out.push(0u64);
            proof {
                assert(out@ =~= old(out)@ + enc_opt_roll_plan(v));
            }
        },
    }
}

fn encode_potion(v: crate::items::Potion, out: &mut Vec<u64>)
    ensures
        final(out)@ == old(out)@ + enc_potion(v),
{
    let ghost base = out@;
    encode_roll_plan(v.healing_amount, out);
    let ghost b0 = out@;
    proof {
        reveal(enc_potion);
        let e0 = enc_roll_plan(v.healing_amount);
        let x0x = e0;
        assert(out@ =~= base + enc_potion(v));
    }
}

fn encode_scroll(v: crate::items::Scroll, out: &mut Vec<u64>)
    ensures
        final(out)@ == old(out)@ + enc_scroll(v),
{
    let ghost base = out@;
    encode_spell_ref(v.spell_id, out);
    let ghost b0 = out@;
    proof {
        reveal(enc_scroll);
        let e0 = enc_spell_ref(v.spell_id);
        let x0x = e0;
        assert(out@ =~= base + enc_scroll(v));
    }
}

fn encode_weapon(v: crate::items::Weapon, out: &mut Vec<u64>)
    ensures
        final(out)@ == old(out)@ + enc_weapon(v),
{
    let ghost base = out@;
    encode_weapon_type(v.weapon_type, out);
    let ghost b0 = out@;
    encode_i32(v.attack_bonus, out);
    let ghost b1 = out@;
    encode_roll_plan(v.damage, out);
    let ghost b2 = out@;
    encode_opt_roll_plan(v.critical_damage, out);
    let ghost b3 = out@;
    encode_opt_u32(v.range, out);
    let ghost b4 = out@;
    proof {
        reveal(enc_weapon);
        let e0 = enc_weapon_type(v.weapon_type);
        let e1 = enc_i32(v.attack_bonus);
        let e2 = enc_roll_plan(v.damage);
        let e3 = enc_opt_roll_plan(v.critical_damage);
        let e4 = enc_opt_u32(v.range);
        let x4x = e4;
        let x3x = e3 + x4x;
        let x2x = e2 + x3x;
        let x1x = e1 + x2x;
        assert(b0 == base + e0);
        seq_assoc_pub(base, e0, x1x);
        assert(base + enc_weapon(v) =~= b0 + x1x);
        seq_assoc_pub(b0, e1, x2x);
        assert(b0 + x1x =~= b1 + x2x);
        seq_assoc_pub(b1, e2, x3x);
        assert(b1 + x2x =~= b2 + x3x);
        seq_assoc_pub(b2, e3, x4x);
        assert(b2 + x3x =~= b3 + x4x);
        assert(b3 + x4x =~= b4);
        assert(out@ =~= base + enc_weapon(v));
    }
}

fn encode_equip_pair(v: (crate::items::EquipSlot, crate::items::ItemId), out: &mut Vec<u64>)
    ensures
        final(out)@ == old(out)@ + enc_equip_pair(v),
{
    let ghost base = out@;
    encode_equip_slot(v.0, out);
    let ghost b0 = out@;
    encode_item_ref(v.1, out);
    let ghost b1 = out@;
    proof {
        reveal(enc_equip_pair);
        let e0 = enc_equip_slot(v.0);
        let e1 = enc_item_ref(v.1);
        let x1x = e1;
        assert(b0 == base + e0);
        seq_assoc_pub(base, e0, x1x);
        assert(base + enc_equip_pair(v) =~= b0 + x1x);
        assert(b0 + x1x =~= b1);
        assert(out@ =~= base + enc_equip_pair(v));
    }
}

fn encode_wp_pair(v: (crate::items::WeaponType, crate::items::WeaponProficiency), out: &mut Vec<u64>)
    ensures
        final(out)@ == old(out)@ + enc_wp_pair(v),
{
    let ghost base = out@;
    encode_weapon_type(v.0, out);
    let ghost b0 = out@;
    encode_weapon_proficiency(v.1, out);
    let ghost b1 = out@;
    proof {
        reveal(enc_wp_pair);
        let e0 = enc_weapon_type(v.0);
        let e1 = enc_weapon_proficiency(v.1);
        let x1x = e1;
        assert(b0 == base + e0);
        seq_assoc_pub(base, e0, x1x);
        assert(base + enc_wp_pair(v) =~= b0 + x1x);
        assert(b0 + x1x =~= b1);
        assert(out@ =~= base + enc_wp_pair(v));
    }
}

fn encode_skill_profs(v: crate::skills::SkillProficiencies, out: &mut Vec<u64>)
    ensures
        final(out)@ == old(out)@ + enc_skill_profs(v),
{
    let ghost base = out@;
    let front = (
        v.acrobatics,
        v.animal_handling,
        v.arcana,
        v.athletics,
        v.deception,
        v.history,
        v.insight,
        v.intimidation,
        v.investigation,
    );
    let back = (
        v.medicine,
        v.nature,
        v.perception,
        v.performance,
        v.persuasion,
        v.religion,
        v.sleight_of_hand,
        v.stealth,
        v.survival,
    );
    encode_prof9(front, out);
    let ghost b0 = out@;
    encode_prof9(back, out);
    proof {
        reveal(enc_skill_profs);
        assert(front == skill_profs_front(v));
        assert(back == skill_profs_back(v));
        seq_assoc_pub(base, enc_prof9(skill_profs_front(v)), enc_prof9(skill_profs_back(v)));
        assert(out@ =~= base + enc_skill_profs(v));
    }
}

fn encode_item_type(v: crate::items::ItemType, out: &mut Vec<u64>)
    ensures
        final(out)@ == old(out)@ + enc_item_type(v),
{
    proof {
        reveal(enc_item_type);
    }
    match v {
        crate::items::ItemType::Potion(p) => {
            out.push(0u64);
            let ghost b0 = out@;
            encode_potion(p, out);
            proof {
                assert(b0 =~= old(out)@ + seq![0u64]);
                seq_assoc_pub(old(out)@, seq![0u64], enc_potion(p));
                assert(out@ =~= old(out)@ + enc_item_type(v));
            }
        },
        crate::items::ItemType::Scroll(sc) => {
            out.push(1u64);
            let ghost b0 = out@;
            encode_scroll(sc, out);
            proof {
                assert(b0 =~= old(out)@ + seq![1u64]);
                seq_assoc_pub(old(out)@, seq![1u64], enc_scroll(sc));
                assert(out@ =~= old(out)@ + enc_item_type(v));
            }
        },
        crate::items::ItemType::Weapon(w) => {
            out.push(2u64);
            let ghost b0 = out@;
            encode_weapon(w, out);
            proof {
                assert(b0 =~= old(out)@ + seq![2u64]);
                seq_assoc_pub(old(out)@, seq![2u64], enc_weapon(w));
                assert(out@ =~= old(out)@ + enc_item_type(v));
            }
        },
        crate::items::ItemType::Armor(a) => {
            out.push(3u64);
            let ghost b0 = out@;
            encode_armor(a, out);
            proof {
                assert(b0 =~= old(out)@ + seq![3u64]);
                seq_assoc_pub(old(out)@, seq![3u64], enc_armor(a));
                assert(out@ =~= old(out)@ + enc_item_type(v));
            }
        },
    }
}

fn encode_item(v: &crate::items::Item, out: &mut Vec<u64>)
    ensures
        final(out)@ == old(out)@ + enc_item(v@),
        item_bounded(v@),
{
    let ghost base = out@;
    encode_item_ref(v.id, out);
    let ghost b0 = out@;
    encode_str(v.name.as_str(), out);
    let ghost b1 = out@;
    encode_item_type(v.item_type, out);
    let ghost b2 = out@;
    proof {
        reveal(enc_item);
        let e0 = enc_item_ref(v@.id);
        let e1 = enc_str(v@.name);
        let e2 = enc_item_type(v@.item_type);
        let x2x = e2;
        let x1x = e1 + x2x;
        assert(b0 == base + e0);
        seq_assoc_pub(base, e0, x1x);
        assert(base + enc_item(v@) =~= b0 + x1x);
        seq_assoc_pub(b0, e1, x2x);
        assert(b0 + x1x =~= b1 + x2x);
        assert(b1 + x2x =~= b2);
        assert(out@ =~= base + enc_item(v@));
    }
}

fn encode_inventory_entry(v: &crate::items::InventoryEntry, out: &mut Vec<u64>)
    ensures
        final(out)@ == old(out)@ + enc_inventory_entry(v@),
        entry_bounded(v@),
{
    let ghost base = out@;
    encode_item(&v.item, out);
    let ghost b0 = out@;
    encode_u32(v.quantity, out);
    let ghost b1 = out@;
    proof {
        reveal(enc_inventory_entry);
        let e0 = enc_item(v@.item);
        let e1 = enc_u32(v@.quantity);
        let x1x = e1;
        assert(b0 == base + e0);
        seq_assoc_pub(base, e0, x1x);
        assert(base + enc_inventory_entry(v@) =~= b0 + x1x);
        assert(b0 + x1x =~= b1);
        assert(out@ =~= base + enc_inventory_entry(v@));
    }
}

fn encode_equip_pairs(items: &Vec<(crate::items::EquipSlot, crate::items::ItemId)>, out: &mut Vec<u64>)
    ensures
        final(out)@ == old(out)@ + enc_seq(items@, equip_pair_enc()),
        (items@).len() <= u64::MAX,
{
    let ghost base = out@;
    let ghost vs = items@;
    let n: usize = items.len();
    encode_u64(n as u64, out);
    let ghost b0 = out@;
    let mut i: usize = 0;
    while i < n
        invariant
            n == items.len(),
            vs == items@,
            vs.len() == n,
            i <= n,
            b0 == base + enc_u64(n as u64),
            out@ =~= b0 + enc_list(vs.take(i as int), equip_pair_enc()),
        decreases n - i,
    {
        let ghost prev = vs.take(i as int);
        encode_equip_pair(items[i], out);
        proof {
            assert(vs[i as int] == items@[i as int]);
            assert(vs.take(i + 1) =~= prev.push(vs[i as int]));
            lemma_enc_list_push(prev, vs[i as int], equip_pair_enc());
            seq_assoc_pub(b0, enc_list(prev, equip_pair_enc()), equip_pair_enc()(vs[i as int]));
        }
        i = i + 1;
    }
    proof {
        assert(vs.take(n as int) =~= vs);
        seq_assoc_pub(base, enc_u64(n as u64), enc_list(vs, equip_pair_enc()));
        assert(out@ =~= base + enc_seq(vs, equip_pair_enc()));
    }
}

fn encode_wp_pairs(items: &Vec<(crate::items::WeaponType, crate::items::WeaponProficiency)>, out: &mut Vec<u64>)
    ensures
        final(out)@ == old(out)@ + enc_seq(items@, wp_pair_enc()),
        (items@).len() <= u64::MAX,
{
    let ghost base = out@;
    let ghost vs = items@;
    let n: usize = items.len();
    encode_u64(n as u64, out);
    let ghost b0 = out@;
    let mut i: usize = 0;
    while i < n
        invariant
            n == items.len(),
            vs == items@,
            vs.len() == n,
            i <= n,
            b0 == base + enc_u64(n as u64),
            out@ =~= b0 + enc_list(vs.take(i as int), wp_pair_enc()),
        decreases n - i,
    {
        let ghost prev = vs.take(i as int);
        encode_wp_pair(items[i], out);
        proof {
            assert(vs[i as int] == items@[i as int]);
            assert(vs.take(i + 1) =~= prev.push(vs[i as int]));
            lemma_enc_list_push(prev, vs[i as int], wp_pair_enc());
            seq_assoc_pub(b0, enc_list(prev, wp_pair_enc()), wp_pair_enc()(vs[i as int]));
        }
        i = i + 1;
    }
    proof {
        assert(vs.take(n as int) =~= vs);
        seq_assoc_pub(base, enc_u64(n as u64), enc_list(vs, wp_pair_enc()));
        assert(out@ =~= base + enc_seq(vs, wp_pair_enc()));
    }
}

fn encode_ids(items: &Vec<crate::actor::ActorId>, out: &mut Vec<u64>)
    ensures
        final(out)@ == old(out)@ + enc_seq(items@, actor_ref_enc()),
        (items@).len() <= u64::MAX,
{
    let ghost base = out@;
    let ghost vs = items@;
    let n: usize = items.len();
    encode_u64(n as u64, out);
    let ghost b0 = out@;
    let mut i: usize = 0;
    while i < n
        invariant
            n == items.len(),
            vs == items@,
            vs.len() == n,
            i <= n,
            b0 == base + enc_u64(n as u64),
            out@ =~= b0 + enc_list(vs.take(i as int), actor_ref_enc()),
        decreases n - i,
    {
        let ghost prev = vs.take(i as int);
        encode_actor_ref(items[i], out);
        proof {
            assert(vs[i as int] == items@[i as int]);
            assert(vs.take(i + 1) =~= prev.push(vs[i as int]));
            lemma_enc_list_push(prev, vs[i as int], actor_ref_enc());
            seq_assoc_pub(b0, enc_list(prev, actor_ref_enc()), actor_ref_enc()(vs[i as int]));
        }
        i = i + 1;
    }
    proof {
        assert(vs.take(n as int) =~= vs);
        seq_assoc_pub(base, enc_u64(n as u64), enc_list(vs, actor_ref_enc()));
        assert(out@ =~= base + enc_seq(vs, actor_ref_enc()));
    }
}

fn encode_entries(items: &Vec<crate::items::InventoryEntry>, out: &mut Vec<u64>)
    ensures
        final(out)@ == old(out)@ + enc_seq(items@.map_values(|e: crate::items::InventoryEntry| e@), inventory_entry_enc()),
        (items@.map_values(|e: crate::items::InventoryEntry| e@)).len() <= u64::MAX,
        forall|j: int| 0 <= j < items@.len() ==> entry_bounded((#[trigger] items@[j])@),
{
    let ghost base = out@;
    let ghost vs = items@.map_values(|e: crate::items::InventoryEntry| e@);
    let n: usize = items.len();
    encode_u64(n as u64, out);
    let ghost b0 = out@;
    let mut i: usize = 0;
    while i < n
        invariant
            n == items.len(),
            vs == items@.map_values(|e: crate::items::InventoryEntry| e@),
            vs.len() == n,
            i <= n,
            b0 == base + enc_u64(n as u64),
            out@ =~= b0 + enc_list(vs.take(i as int), inventory_entry_enc()),
            forall|j: int| 0 <= j < i ==> #[trigger] inventory_entry_bound()(vs[j]),
        decreases n - i,
    {
        let ghost prev = vs.take(i as int);
        encode_inventory_entry(&items[i], out);
        proof {
            assert(vs[i as int] == items@[i as int]@);
            assert(vs.take(i + 1) =~= prev.push(vs[i as int]));
            lemma_enc_list_push(prev, vs[i as int], inventory_entry_enc());
            seq_assoc_pub(b0, enc_list(prev, inventory_entry_enc()), inventory_entry_enc()(vs[i as int]));
        }
        i = i + 1;
    }
    proof {
        assert(vs.take(n as int) =~= vs);
        seq_assoc_pub(base, enc_u64(n as u64), enc_list(vs, inventory_entry_enc()));
        assert(out@ =~= base + enc_seq(vs, inventory_entry_enc()));
        assert forall|j: int| 0 <= j < items@.len() implies entry_bounded(
            (#[trigger] items@[j])@,
        ) by {
            assert(inventory_entry_bound()(vs[j]));
            assert(vs[j] == items@[j]@);
        }
    }
}

fn encode_group(items: &Vec<crate::actor::ActorId>, out: &mut Vec<u64>)
    ensures
        final(out)@ == old(out)@ + enc_group(items@),
        group_bounded(items@),
{
    encode_ids(items, out);
    proof {
        reveal(enc_group);
    }
}

#[verifier::rlimit(100)]
fn encode_actor(v: &crate::actor::Actor, out: &mut Vec<u64>)
    ensures
        final(out)@ == old(out)@ + enc_actor(v@),
        actor_bounded(v@),
{
    let ghost base = out@;
    encode_actor_ref(v.id, out);
    let ghost b0 = out@;
    encode_str(v.name.as_str(), out);
    let ghost b1 = out@;
    encode_u32(v.level, out);
    let ghost b2 = out@;
    encode_u32(v.armor_class, out);
    let ghost b3 = out@;
    encode_i32(v.max_health, out);
    let ghost b4 = out@;
    encode_i32(v.health, out);
    let ghost b5 = out@;
    encode_stats(v.stats, out);
    let ghost b6 = out@;
    encode_u32(v.movement_speed, out);
    let ghost b7 = out@;
    encode_skill_profs(v.skill_proficiencies, out);
    let ghost b8 = out@;
    encode_save_profs(v.saving_throw_proficiencies, out);
    let ghost b9 = out@;
    encode_death_saves(v.death_saves, out);
    let ghost b10 = out@;
    encode_opt_i32(v.initiative, out);
    let ghost b11 = out@;
    encode_action_economy(v.action_economy, out);
    let ghost b12 = out@;
    encode_equip_pairs(&v.equipped_items.slots, out);
    let ghost b13 = out@;
    encode_entries(&v.inventory.items, out);
    let ghost b14 = out@;
    encode_wp_pairs(&v.weapon_proficiencies.entries, out);
    let ghost b15 = out@;
    proof {
        reveal(enc_actor);
        let e0 = enc_actor_ref(v@.id);
        let e1 = enc_str(v@.name);
        let e2 = enc_u32(v@.level);
        let e3 = enc_u32(v@.armor_class);
        let e4 = enc_i32(v@.max_health);
        let e5 = enc_i32(v@.health);
        let e6 = enc_stats(v@.stats);
        let e7 = enc_u32(v@.movement_speed);
        let e8 = enc_skill_profs(v@.skill_proficiencies);
        let e9 = enc_save_profs(v@.saving_throw_proficiencies);
        let e10 = enc_death_saves(v@.death_saves);
        let e11 = enc_opt_i32(v@.initiative);
        let e12 = enc_action_economy(v@.action_economy);
        let e13 = enc_seq(v@.equipped_items, equip_pair_enc());
        let e14 = enc_seq(v@.inventory, inventory_entry_enc());
        let e15 = enc_seq(v@.weapon_proficiencies, wp_pair_enc());
        let x15x = e15;
        let x14x = e14 + x15x;
        let x13x = e13 + x14x;
        let x12x = e12 + x13x;
        let x11x = e11 + x12x;
        let x10x = e10 + x11x;
        let x9x = e9 + x10x;
        let x8x = e8 + x9x;
        let x7x = e7 + x8x;
        let x6x = e6 + x7x;
        let x5x = e5 + x6x;
        let x4x = e4 + x5x;
        let x3x = e3 + x4x;
        let x2x = e2 + x3x;
        let x1x = e1 + x2x;
        assert(b0 == base + e0);
        seq_assoc_pub(base, e0, x1x);
        assert(base + enc_actor(v@) =~= b0 + x1x);
        seq_assoc_pub(b0, e1, x2x);
        assert(b0 + x1x =~= b1 + x2x);
        seq_assoc_pub(b1, e2, x3x);
        assert(b1 + x2x =~= b2 + x3x);
        seq_assoc_pub(b2, e3, x4x);
        assert(b2 + x3x =~= b3 + x4x);
        seq_assoc_pub(b3, e4, x5x);
        assert(b3 + x4x =~= b4 + x5x);
        seq_assoc_pub(b4, e5, x6x);
        assert(b4 + x5x =~= b5 + x6x);
        seq_assoc_pub(b5, e6, x7x);
        assert(b5 + x6x =~= b6 + x7x);
        seq_assoc_pub(b6, e7, x8x);
        assert(b6 + x7x =~= b7 + x8x);
        seq_assoc_pub(b7, e8, x9x);
        assert(b7 + x8x =~= b8 + x9x);
        seq_assoc_pub(b8, e9, x10x);
        assert(b8 + x9x =~= b9 + x10x);
        seq_assoc_pub(b9, e10, x11x);
        assert(b9 + x10x =~= b10 + x11x);
        seq_assoc_pub(b10, e11, x12x);
        assert(b10 + x11x =~= b11 + x12x);
        seq_assoc_pub(b11, e12, x13x);
        assert(b11 + x12x =~= b12 + x13x);
        seq_assoc_pub(b12, e13, x14x);
        assert(b12 + x13x =~= b13 + x14x);
        seq_assoc_pub(b13, e14, x15x);
        assert(b13 + x14x =~= b14 + x15x);
        assert(b14 + x15x =~= b15);
        assert(out@ =~= base + enc_actor(v@));
    }
}

fn encode_actors(items: &Vec<crate::actor::Actor>, out: &mut Vec<u64>)
    ensures
        final(out)@ == old(out)@ + enc_seq(items@.map_values(|a: crate::actor::Actor| a@), actor_enc()),
        (items@.map_values(|a: crate::actor::Actor| a@)).len() <= u64::MAX,
        forall|j: int| 0 <= j < items@.len() ==> actor_bounded((#[trigger] items@[j])@),
{
    let ghost base = out@;
    let ghost vs = items@.map_values(|a: crate::actor::Actor| a@);
    let n: usize = items.len();
    encode_u64(n as u64, out);
    let ghost b0 = out@;
    let mut i: usize = 0;
    while i < n
        invariant
            n == items.len(),
            vs == items@.map_values(|a: crate::actor::Actor| a@),
            vs.len() == n,
            i <= n,
            b0 == base + enc_u64(n as u64),
            out@ =~= b0 + enc_list(vs.take(i as int), actor_enc()),
            forall|j: int| 0 <= j < i ==> #[trigger] actor_bound()(vs[j]),
        decreases n - i,
    {
        let ghost prev = vs.take(i as int);
        encode_actor(&items[i], out);
        proof {
            assert(vs[i as int] == items@[i as int]@);
            assert(vs.take(i + 1) =~= prev.push(vs[i as int]));
            lemma_enc_list_push(prev, vs[i as int], actor_enc());
            seq_assoc_pub(b0, enc_list(prev, actor_enc()), actor_enc()(vs[i as int]));
        }
        i = i + 1;
    }
    proof {
        assert(vs.take(n as int) =~= vs);
        seq_assoc_pub(base, enc_u64(n as u64), enc_list(vs, actor_enc()));
        assert(out@ =~= base + enc_seq(vs, actor_enc()));
        assert forall|j: int| 0 <= j < items@.len() implies actor_bounded((#[trigger] items@[j])@) by {
            assert(actor_bound()(vs[j]));
            assert(vs[j] == items@[j]@);
        }
    }
}

fn encode_items_list(items: &Vec<crate::items::Item>, out: &mut Vec<u64>)
    ensures
        final(out)@ == old(out)@ + enc_seq(items@.map_values(|it: crate::items::Item| it@), item_enc()),
        (items@.map_values(|it: crate::items::Item| it@)).len() <= u64::MAX,
        forall|j: int| 0 <= j < items@.len() ==> item_bounded((#[trigger] items@[j])@),
{
    let ghost base = out@;
    let ghost vs = items@.map_values(|it: crate::items::Item| it@);
    let n: usize = items.len();
    encode_u64(n as u64, out);
    let ghost b0 = out@;
    let mut i: usize = 0;
    while i < n
        invariant
            n == items.len(),
            vs == items@.map_values(|it: crate::items::Item| it@),
            vs.len() == n,
            i <= n,
            b0 == base + enc_u64(n as u64),
            out@ =~= b0 + enc_list(vs.take(i as int), item_enc()),
            forall|j: int| 0 <= j < i ==> #[trigger] item_bound()(vs[j]),
        decreases n - i,
    {
        let ghost prev = vs.take(i as int);
        encode_item(&items[i], out);
        proof {
            assert(vs[i as int] == items@[i as int]@);
            assert(vs.take(i + 1) =~= prev.push(vs[i as int]));
            lemma_enc_list_push(prev, vs[i as int], item_enc());
            seq_assoc_pub(b0, enc_list(prev, item_enc()), item_enc()(vs[i as int]));
        }
        i = i + 1;
    }
    proof {
        assert(vs.take(n as int) =~= vs);
        seq_assoc_pub(base, enc_u64(n as u64), enc_list(vs, item_enc()));
        assert(out@ =~= base + enc_seq(vs, item_enc()));
        assert forall|j: int| 0 <= j < items@.len() implies item_bounded((#[trigger] items@[j])@) by {
            assert(item_bound()(vs[j]));
            assert(vs[j] == items@[j]@);
        }
    }
}

fn encode_groups(items: &Vec<Vec<crate::actor::ActorId>>, out: &mut Vec<u64>)
    ensures
        final(out)@ == old(out)@ + enc_seq(items@.map_values(|g: Vec<crate::actor::ActorId>| g@), group_enc()),
        (items@.map_values(|g: Vec<crate::actor::ActorId>| g@)).len() <= u64::MAX,
        forall|j: int| 0 <= j < items@.len() ==> group_bounded((#[trigger] items@[j])@),
{
    let ghost base = out@;
    let ghost vs = items@.map_values(|g: Vec<crate::actor::ActorId>| g@);
    let n: usize = items.len();
    encode_u64(n as u64, out);
    let ghost b0 = out@;
    let mut i: usize = 0;
    while i < n
        invariant
            n == items.len(),
            vs == items@.map_values(|g: Vec<crate::actor::ActorId>| g@),
            vs.len() == n,
            i <= n,
            b0 == base + enc_u64(n as u64),
            out@ =~= b0 + enc_list(vs.take(i as int), group_enc()),
            forall|j: int| 0 <= j < i ==> #[trigger] group_bound()(vs[j]),
        decreases n - i,
    {
        let ghost prev = vs.take(i as int);
        encode_group(&items[i], out);
        proof {
            assert(vs[i as int] == items@[i as int]@);
            assert(vs.take(i + 1) =~= prev.push(vs[i as int]));
            lemma_enc_list_push(prev, vs[i as int], group_enc());
            seq_assoc_pub(b0, enc_list(prev, group_enc()), group_enc()(vs[i as int]));
        }
        i = i + 1;
    }
    proof {
        assert(vs.take(n as int) =~= vs);
        seq_assoc_pub(base, enc_u64(n as u64), enc_list(vs, group_enc()));
        assert(out@ =~= base + enc_seq(vs, group_enc()));
        assert forall|j: int| 0 <= j < items@.len() implies group_bounded(
            (#[trigger] items@[j])@,
        ) by {
            assert(group_bound()(vs[j]));
            assert(vs[j] == items@[j]@);
        }
    }
}

#[verifier::rlimit(100)]
pub fn encode_state(v: &crate::state::State, out: &mut Vec<u64>)
    ensures
        final(out)@ == old(out)@ + enc_state(v@),
        state_bounded(v@),
{
    let ghost base = out@;
    encode_u64(v.turn, out);
    let ghost b0 = out@;
    encode_actors(&v.actors, out);
    let ghost b1 = out@;
    encode_u32(v.next_actor_id, out);
    let ghost b2 = out@;
    encode_items_list(&v.items, out);
    let ghost b3 = out@;
    encode_u32(v.next_item_id, out);
    let ghost b4 = out@;
    encode_groups(&v.allied_groups, out);
    let ghost b5 = out@;
    encode_ids(&v.initiative_order, out);
    let ghost b6 = out@;
    encode_opt_usize(v.current_turn_index, out);
    let ghost b7 = out@;
    proof {
        reveal(enc_state);
        let e0 = enc_u64(v@.turn);
        let e1 = enc_seq(v@.actors, actor_enc());
        let e2 = enc_u32(v@.next_actor_id);
        let e3 = enc_seq(v@.items, item_enc());
        let e4 = enc_u32(v@.next_item_id);
        let e5 = enc_seq(v@.allied_groups, group_enc());
        let e6 = enc_seq(v@.initiative_order, actor_ref_enc());
        let e7 = enc_opt_usize(v@.current_turn_index);
        let x7x = e7;
        let x6x = e6 + x7x;
        let x5x = e5 + x6x;
        let x4x = e4 + x5x;
        let x3x = e3 + x4x;
        let x2x = e2 + x3x;
        let x1x = e1 + x2x;
        assert(b0 == base + e0);
        seq_assoc_pub(base, e0, x1x);
        assert(base + enc_state(v@) =~= b0 + x1x);
        seq_assoc_pub(b0, e1, x2x);
        assert(b0 + x1x =~= b1 + x2x);
        seq_assoc_pub(b1, e2, x3x);
        assert(b1 + x2x =~= b2 + x3x);
        seq_assoc_pub(b2, e3, x4x);
        assert(b2 + x3x =~= b3 + x4x);
        seq_assoc_pub(b3, e4, x5x);
        assert(b3 + x4x =~= b4 + x5x);
        seq_assoc_pub(b4, e5, x6x);
        assert(b4 + x5x =~= b5 + x6x);
        seq_assoc_pub(b5, e6, x7x);
        assert(b5 + x6x =~= b6 + x7x);
        assert(b6 + x7x =~= b7);
        assert(out@ =~= base + enc_state(v@));
        assert forall|k: int| 0 <= k < v@.actors.len() implies actor_bounded(
            #[trigger] v@.actors[k],
        ) by {
            assert(v@.actors[k] == v.actors@[k]@);
        }
        assert forall|k: int| 0 <= k < v@.items.len() implies item_bounded(
            #[trigger] v@.items[k],
        ) by {
            assert(v@.items[k] == v.items@[k]@);
        }
        assert forall|k: int| 0 <= k < v@.allied_groups.len() implies group_bounded(
            #[trigger] v@.allied_groups[k],
        ) by {
            assert(v@.allied_groups[k] == v.allied_groups@[k]@);
        }
    }
}


/// Append the encoding of a transition.
pub fn encode_transition(v: &crate::transition::Transition, out: &mut Vec<u64>)
    ensures
        final(out)@ == old(out)@ + enc_transition(*v),
{
    proof {
        reveal(enc_transition);
    }
    let ghost base = out@;
    match *v {
        crate::transition::Transition::Root => {
            out.push(0u64);
            proof {
                assert(out@ =~= base + enc_transition(*v));
            }
        },
        crate::transition::Transition::BeginCombat => {
            out.push(1u64);
            proof {
                assert(out@ =~= base + enc_transition(*v));
            }
        },
        crate::transition::Transition::EndCombat => {
            out.push(2u64);
            proof {
                assert(out@ =~= base + enc_transition(*v));
            }
        },
        crate::transition::Transition::InitiativeRoll { actor, roll } => {
            out.push(3u64);
            let ghost b0 = out@;
            encode_actor_ref(actor, out);
            let ghost b1 = out@;
            encode_i32(roll, out);
            proof {
                assert(b0 =~= base + seq![3u64]);
                seq_assoc_pub(base, seq![3u64], enc_actor_ref(actor) + enc_i32(roll));
                seq_assoc_pub(b0, enc_actor_ref(actor), enc_i32(roll));
                assert(out@ =~= base + enc_transition(*v));
            }
        },
        crate::transition::Transition::BeginTurn { actor } => {
            out.push(4u64);
            let ghost b0 = out@;
            encode_actor_ref(actor, out);
            proof {
                assert(b0 =~= base + seq![4u64]);
                seq_assoc_pub(base, seq![4u64], enc_actor_ref(actor));
                assert(out@ =~= base + enc_transition(*v));
            }
        },
        crate::transition::Transition::EndTurn { actor } => {
            out.push(5u64);
            let ghost b0 = out@;
            encode_actor_ref(actor, out);
            proof {
                assert(b0 =~= base + seq![5u64]);
                seq_assoc_pub(base, seq![5u64], enc_actor_ref(actor));
                assert(out@ =~= base + enc_transition(*v));
            }
        },
        crate::transition::Transition::AdvanceInitiative => {
            out.push(6u64);
            proof {
                assert(out@ =~= base + enc_transition(*v));
            }
        },
        crate::transition::Transition::HealthModification { target, delta } => {
            out.push(7u64);
            let ghost b0 = out@;
            encode_actor_ref(target, out);
            let ghost b1 = out@;
            encode_i32(delta, out);
            proof {
                assert(b0 =~= base + seq![7u64]);
                seq_assoc_pub(base, seq![7u64], enc_actor_ref(target) + enc_i32(delta));
                seq_assoc_pub(b0, enc_actor_ref(target), enc_i32(delta));
                assert(out@ =~= base + enc_transition(*v));
            }
        },
        crate::transition::Transition::StatModification { target, stat, delta } => {
            out.push(8u64);
            let ghost b0 = out@;
            encode_actor_ref(target, out);
            let ghost b1 = out@;
            encode_stat(stat, out);
            let ghost b2 = out@;
            encode_i32(delta, out);
            proof {
                assert(b0 =~= base + seq![8u64]);
                seq_assoc_pub(
                    base,
                    seq![8u64],
                    enc_actor_ref(target) + (enc_stat(stat) + enc_i32(delta)),
                );
                seq_assoc_pub(b0, enc_actor_ref(target), enc_stat(stat) + enc_i32(delta));
                seq_assoc_pub(b1, enc_stat(stat), enc_i32(delta));
                assert(out@ =~= base + enc_transition(*v));
            }
        },
        crate::transition::Transition::ActionEconomyUsed { target, action_type } => {
            out.push(9u64);
            let ghost b0 = out@;
            encode_actor_ref(target, out);
            let ghost b1 = out@;
            encode_action_economy_usage(action_type, out);
            proof {
                assert(b0 =~= base + seq![9u64]);
                seq_assoc_pub(
                    base,
                    seq![9u64],
                    enc_actor_ref(target) + enc_action_economy_usage(action_type),
                );
                seq_assoc_pub(b0, enc_actor_ref(target), enc_action_economy_usage(action_type));
                assert(out@ =~= base + enc_transition(*v));
            }
        },
    }
}

// ---------------------------------------------------------------------
// the structural digest

/// One digest step: mix a token into the running hash by xor, then
/// multiply by the prime, keeping 64 bits.
pub open spec fn digest_step(h: u64, t: u64) -> u64 {
    ((((h ^ t) as int) * 0x100000001b3) % 0x10000000000000000) as u64
}

/// The digest folded over a token stream from a running hash.
pub open spec fn digest_fold(tokens: Seq<u64>, h: u64) -> u64
    decreases tokens.len(),
{
    if tokens.len() == 0 {
        h
    } else {
        digest_fold(tokens.drop_first(), digest_step(h, tokens.first()))
    }
}

/// The structural digest of a token stream.  This is a fixed,
/// version-independent function of the tokens alone: equal streams give
/// equal digests on every machine and in every build.
pub open spec fn digest_of_tokens(tokens: Seq<u64>) -> u64 {
    digest_fold(tokens, 0xcbf29ce484222325u64)
}

/// The structural digest of a whole state: the digest of its canonical
/// encoding, so structurally equal states always share a digest.
pub open spec fn spec_state_digest(s: crate::state::StateView) -> u64 {
    digest_of_tokens(enc_state(s))
}

/// Compute the digest of a token stream.
pub fn digest_tokens(tokens: &Vec<u64>) -> (r: u64)
    ensures
        r == digest_of_tokens(tokens@),
{
    let mut h: u64 = 0xcbf29ce484222325u64;
    let n: usize = tokens.len();
    let mut i: usize = 0;
    proof {
        assert(tokens@.skip(0) =~= tokens@);
    }
    while i < n
        invariant
            n == tokens.len(),
            i <= n,
            digest_of_tokens(tokens@) == digest_fold(tokens@.skip(i as int), h),
        decreases n - i,
    {
        let t: u64 = tokens[i];
        proof {
            assert(tokens@.skip(i as int).first() == t);
            assert(tokens@.skip(i as int).drop_first() =~= tokens@.skip(i + 1));
        }
        let ghost hprev = h;
        let mixed: u64 = h ^ t;
        let wide: u128 = (mixed as u128) * 0x100000001b3u128;
        h = (wide % 0x10000000000000000u128) as u64;
        proof {
            assert(h == digest_step(hprev, t));
        }
        i = i + 1;
    }
    proof {
        assert(tokens@.skip(n as int).len() == 0);
    }
    h
}

/// The canonical serialized form of one state.
pub fn encode_state_tokens(s: &crate::state::State) -> (r: Vec<u64>)
    ensures
        r@ == enc_state(s@),
        state_bounded(s@),
{
    let mut out: Vec<u64> = Vec::new();
    encode_state(s, &mut out);
    proof {
        assert(out@ =~= enc_state(s@));
    }
    out
}

/// The structural digest of a state.
pub fn state_digest(s: &crate::state::State) -> (r: u64)
    ensures
        r == spec_state_digest(s@),
        state_bounded(s@),
{
    let mut buf: Vec<u64> = Vec::new();
    encode_state(s, &mut buf);
    proof {
        assert(buf@ =~= enc_state(s@));
    }
    digest_tokens(&buf)
}


// ---------------------------------------------------------------------
// tree serialization

pub open spec fn enc_node_rec(v: crate::state_tree::NodeRec) -> Seq<u64> {
    enc_u64(v.digest) + enc_u64(v.hits)
}

pub open spec fn sdec_node_rec(s0: Seq<u64>) -> Option<(crate::state_tree::NodeRec, Seq<u64>)> {
    match sdec_u64(s0) {
        Some((x0, s1)) => match sdec_u64(s1) {
            Some((x1, s2)) => Some((crate::state_tree::NodeRec { digest: x0, hits: x1 }, s2)),
            None => None,
        },
        None => None,
    }
}

pub proof fn lemma_rt_node_rec(v: crate::state_tree::NodeRec, rest: Seq<u64>)
    ensures
        sdec_node_rec(enc_node_rec(v) + rest) == Some((v, rest)),
{
    assert(enc_node_rec(v) + rest =~= enc_u64(v.digest) + (enc_u64(v.hits) + rest));
    lemma_rt_u64(v.digest, enc_u64(v.hits) + rest);
    lemma_rt_u64(v.hits, rest);
}

#[verifier::opaque]
pub open spec fn enc_edge_rec(v: crate::state_tree::EdgeRec) -> Seq<u64> {
    enc_u32(v.from) + (enc_u32(v.to) + (enc_transition(v.transition) + enc_u64(v.hits)))
}

#[verifier::opaque]
pub open spec fn sdec_edge_rec(s0: Seq<u64>) -> Option<(crate::state_tree::EdgeRec, Seq<u64>)> {
    match sdec_u32(s0) {
        Some((x0, s1)) => match sdec_u32(s1) {
            Some((x1, s2)) => match sdec_transition(s2) {
                Some((x2, s3)) => match sdec_u64(s3) {
                    Some((x3, s4)) => Some(
                        (
                            crate::state_tree::EdgeRec {
                                from: x0,
                                to: x1,
                                transition: x2,
                                hits: x3,
                            },
                            s4,
                        ),
                    ),
                    None => None,
                },
                None => None,
            },
            None => None,
        },
        None => None,
    }
}

pub proof fn lemma_rt_edge_rec(v: crate::state_tree::EdgeRec, rest: Seq<u64>)
    ensures
        sdec_edge_rec(enc_edge_rec(v) + rest) == Some((v, rest)),
{
    reveal(enc_edge_rec);
    reveal(sdec_edge_rec);
    let e0 = enc_u32(v.from);
    let e1 = enc_u32(v.to);
    let e2 = enc_transition(v.transition);
    let e3 = enc_u64(v.hits);
    let x3x = e3;
    let x2x = e2 + x3x;
    let x1x = e1 + x2x;
    assert(enc_edge_rec(v) == e0 + x1x);
    seq_assoc_pub(e0, x1x, rest);
    let t0 = x1x + rest;
    assert(enc_edge_rec(v) + rest =~= e0 + t0);
    lemma_rt_u32(v.from, t0);
    seq_assoc_pub(e1, x2x, rest);
    let t1 = x2x + rest;
    assert(t0 =~= e1 + t1);
    lemma_rt_u32(v.to, t1);
    seq_assoc_pub(e2, x3x, rest);
    let t2 = x3x + rest;
    assert(t1 =~= e2 + t2);
    lemma_rt_transition(v.transition, t2);
    assert(t2 =~= e3 + rest);
    lemma_rt_u64(v.hits, rest);
}

pub open spec fn node_rec_enc() -> spec_fn(crate::state_tree::NodeRec) -> Seq<u64> {
    |x: crate::state_tree::NodeRec| enc_node_rec(x)
}

pub open spec fn node_rec_dec() -> spec_fn(Seq<u64>) -> Option<
    (crate::state_tree::NodeRec, Seq<u64>),
> {
    |s: Seq<u64>| sdec_node_rec(s)
}

pub open spec fn node_rec_bound() -> spec_fn(crate::state_tree::NodeRec) -> bool {
    |x: crate::state_tree::NodeRec| true
}

pub proof fn lemma_seq_rt_node_rec(items: Seq<crate::state_tree::NodeRec>, rest: Seq<u64>)
    requires
        items.len() <= u64::MAX,
    ensures
        sdec_seq(enc_seq(items, node_rec_enc()) + rest, node_rec_dec()) == Some((items, rest)),
{
    assert forall|x: crate::state_tree::NodeRec, r: Seq<u64>| node_rec_bound()(x)
        implies #[trigger] node_rec_dec()(node_rec_enc()(x) + r) == Some((x, r)) by {
        lemma_rt_node_rec(x, r);
    }
    lemma_rt_seq(items, node_rec_enc(), node_rec_dec(), node_rec_bound(), rest);
}

pub open spec fn edge_rec_enc() -> spec_fn(crate::state_tree::EdgeRec) -> Seq<u64> {
    |x: crate::state_tree::EdgeRec| enc_edge_rec(x)
}

pub open spec fn edge_rec_dec() -> spec_fn(Seq<u64>) -> Option<
    (crate::state_tree::EdgeRec, Seq<u64>),
> {
    |s: Seq<u64>| sdec_edge_rec(s)
}

pub open spec fn edge_rec_bound() -> spec_fn(crate::state_tree::EdgeRec) -> bool {
    |x: crate::state_tree::EdgeRec| true
}

pub proof fn lemma_seq_rt_edge_rec(items: Seq<crate::state_tree::EdgeRec>, rest: Seq<u64>)
    requires
        items.len() <= u64::MAX,
    ensures
        sdec_seq(enc_seq(items, edge_rec_enc()) + rest, edge_rec_dec()) == Some((items, rest)),
{
    assert forall|x: crate::state_tree::EdgeRec, r: Seq<u64>| edge_rec_bound()(x)
        implies #[trigger] edge_rec_dec()(edge_rec_enc()(x) + r) == Some((x, r)) by {
        lemma_rt_edge_rec(x, r);
    }
    lemma_rt_seq(items, edge_rec_enc(), edge_rec_dec(), edge_rec_bound(), rest);
}

/// The serialized form of a whole tree: its initial state, its nodes,
/// its edges, and its saturating totals.
#[verifier::opaque]
pub open spec fn enc_tree(t: crate::state_tree::StateTreeView) -> Seq<u64> {
    enc_state(t.initial_state) + (enc_seq(t.nodes, node_rec_enc()) + (enc_seq(
        t.edges,
        edge_rec_enc(),
    ) + (enc_u64(t.total_node_hits) + enc_u64(t.total_edge_hits))))
}

#[verifier::opaque]
pub open spec fn sdec_tree(s0: Seq<u64>) -> Option<
    (crate::state_tree::StateTreeView, Seq<u64>),
> {
    match sdec_state(s0) {
        Some((x0, s1)) => match sdec_seq(s1, node_rec_dec()) {
            Some((x1, s2)) => match sdec_seq(s2, edge_rec_dec()) {
                Some((x2, s3)) => match sdec_u64(s3) {
                    Some((x3, s4)) => match sdec_u64(s4) {
                        Some((x4, s5)) => Some(
                            (
                                crate::state_tree::StateTreeView {
                                    initial_state: x0,
                                    nodes: x1,
                                    edges: x2,
                                    total_node_hits: x3,
                                    total_edge_hits: x4,
                                },
                                s5,
                            ),
                        ),
                        None => None,
                    },
                    None => None,
                },
                None => None,
            },
            None => None,
        },
        None => None,
    }
}

/// The bounds under which a tree's serialized form is faithful: its
/// initial state is bounded and its node and edge lists fit the length
/// tokens.
pub open spec fn tree_bounded(t: crate::state_tree::StateTreeView) -> bool {
    &&& state_bounded(t.initial_state)
    &&& t.nodes.len() <= u64::MAX
    &&& t.edges.len() <= u64::MAX
}

/// The serialization round trip: decoding an encoded state tree yields
/// exactly the tree back — the same initial state, the same node and
/// edge hit counters, and therefore the same replayable states.
pub proof fn lemma_rt_tree(t: crate::state_tree::StateTreeView, rest: Seq<u64>)
    requires
        tree_bounded(t),
    ensures
        sdec_tree(enc_tree(t) + rest) == Some((t, rest)),
{
    reveal(enc_tree);
    reveal(sdec_tree);
    let e0 = enc_state(t.initial_state);
    let e1 = enc_seq(t.nodes, node_rec_enc());
    let e2 = enc_seq(t.edges, edge_rec_enc());
    let e3 = enc_u64(t.total_node_hits);
    let e4 = enc_u64(t.total_edge_hits);
    let x4x = e4;
    let x3x = e3 + x4x;
    let x2x = e2 + x3x;
    let x1x = e1 + x2x;
    assert(enc_tree(t) == e0 + x1x);
    seq_assoc_pub(e0, x1x, rest);
    let t0 = x1x + rest;
    assert(enc_tree(t) + rest =~= e0 + t0);
    lemma_rt_state(t.initial_state, t0);
    seq_assoc_pub(e1, x2x, rest);
    let t1 = x2x + rest;
    assert(t0 =~= e1 + t1);
    lemma_seq_rt_node_rec(t.nodes, t1);
    seq_assoc_pub(e2, x3x, rest);
    let t2 = x3x + rest;
    assert(t1 =~= e2 + t2);
    lemma_seq_rt_edge_rec(t.edges, t2);
    seq_assoc_pub(e3, x4x, rest);
    let t3 = x4x + rest;
    assert(t2 =~= e3 + t3);
    lemma_rt_u64(t.total_node_hits, t3);
    assert(t3 =~= e4 + rest);
    lemma_rt_u64(t.total_edge_hits, rest);
}

fn encode_node_rec(v: crate::state_tree::NodeRec, out: &mut Vec<u64>)
    ensures
        final(out)@ == old(out)@ + enc_node_rec(v),
{
    let ghost base = out@;
    encode_u64(v.digest, out);
    let ghost b0 = out@;
    encode_u64(v.hits, out);
    proof {
        seq_assoc_pub(base, enc_u64(v.digest), enc_u64(v.hits));
        assert(out@ =~= base + enc_node_rec(v));
    }
}

fn encode_edge_rec(v: crate::state_tree::EdgeRec, out: &mut Vec<u64>)
    ensures
        final(out)@ == old(out)@ + enc_edge_rec(v),
{
    let ghost base = out@;
    encode_u32(v.from, out);
    let ghost b0 = out@;
    encode_u32(v.to, out);
    let ghost b1 = out@;
    encode_transition(&v.transition, out);
    let ghost b2 = out@;
    encode_u64(v.hits, out);
    proof {
        reveal(enc_edge_rec);
        let e0 = enc_u32(v.from);
        let e1 = enc_u32(v.to);
        let e2 = enc_transition(v.transition);
        let e3 = enc_u64(v.hits);
        let x3x = e3;
        let x2x = e2 + x3x;
        let x1x = e1 + x2x;
        assert(b0 == base + e0);
        seq_assoc_pub(base, e0, x1x);
        assert(base + enc_edge_rec(v) =~= b0 + x1x);
        seq_assoc_pub(b0, e1, x2x);
        assert(b0 + x1x =~= b1 + x2x);
        seq_assoc_pub(b1, e2, x3x);
        assert(b1 + x2x =~= b2 + x3x);
        assert(b2 + x3x =~= out@);
        assert(out@ =~= base + enc_edge_rec(v));
    }
}

pub(crate) fn encode_node_recs(items: &Vec<crate::state_tree::NodeRec>, out: &mut Vec<u64>)
    ensures
        final(out)@ == old(out)@ + enc_seq(items@, node_rec_enc()),
        items@.len() <= u64::MAX,
{
    let ghost base = out@;
    let ghost vs = items@;
    let n: usize = items.len();
    encode_u64(n as u64, out);
    let ghost b0 = out@;
    let mut i: usize = 0;
    while i < n
        invariant
            n == items.len(),
            vs == items@,
            i <= n,
            b0 == base + enc_u64(n as u64),
            out@ =~= b0 + enc_list(vs.take(i as int), node_rec_enc()),
        decreases n - i,
    {
        let ghost prev = vs.take(i as int);
        encode_node_rec(items[i], out);
        proof {
            assert(vs.take(i + 1) =~= prev.push(vs[i as int]));
            lemma_enc_list_push(prev, vs[i as int], node_rec_enc());
            seq_assoc_pub(b0, enc_list(prev, node_rec_enc()), node_rec_enc()(vs[i as int]));
        }
        i = i + 1;
    }
    proof {
        assert(vs.take(n as int) =~= vs);
        seq_assoc_pub(base, enc_u64(n as u64), enc_list(vs, node_rec_enc()));
        assert(out@ =~= base + enc_seq(vs, node_rec_enc()));
    }
}

pub(crate) fn encode_edge_recs(items: &Vec<crate::state_tree::EdgeRec>, out: &mut Vec<u64>)
    ensures
        final(out)@ == old(out)@ + enc_seq(items@, edge_rec_enc()),
        items@.len() <= u64::MAX,
{
    let ghost base = out@;
    let ghost vs = items@;
    let n: usize = items.len();
    encode_u64(n as u64, out);
    let ghost b0 = out@;
    let mut i: usize = 0;
    while i < n
        invariant
            n == items.len(),
            vs == items@,
            i <= n,
            b0 == base + enc_u64(n as u64),
            out@ =~= b0 + enc_list(vs.take(i as int), edge_rec_enc()),
        decreases n - i,
    {
        let ghost prev = vs.take(i as int);
        encode_edge_rec(items[i], out);
        proof {
            assert(vs.take(i + 1) =~= prev.push(vs[i as int]));
            lemma_enc_list_push(prev, vs[i as int], edge_rec_enc());
            seq_assoc_pub(b0, enc_list(prev, edge_rec_enc()), edge_rec_enc()(vs[i as int]));
        }
        i = i + 1;
    }
    proof {
        assert(vs.take(n as int) =~= vs);
        seq_assoc_pub(base, enc_u64(n as u64), enc_list(vs, edge_rec_enc()));
        assert(out@ =~= base + enc_seq(vs, edge_rec_enc()));
    }
}

} // verus!
