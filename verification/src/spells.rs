//! Spells: identifiers, effects, components, and targeting kinds.

use vstd::prelude::*;

use crate::damage::DamageInstance;
use crate::dice::RollPlan;
use crate::items::ItemId;
use crate::stats::Stat;

verus! {

/// Identifies a spell.
#[derive(Clone, Copy, PartialEq, Eq, Structural, Debug, Hash)]
pub struct SpellId(pub u32);

/// One effect a spell has when cast.
#[derive(Clone, PartialEq, Eq, Debug, Hash)]
pub enum SpellEffect {
    SpellAttack { to_hit: RollPlan, damage: Vec<DamageInstance> },
    Damage { damage: Vec<DamageInstance> },
    Heal { amount: RollPlan },
    Buff { stat: Stat, amount: i32, duration_rounds: u32 },
    Debuff { stat: Stat, amount: i32, duration_rounds: u32 },
}

/// What a spell needs to be cast.
#[derive(Clone, Copy, PartialEq, Eq, Structural, Debug, Hash)]
pub struct SpellComponents {
    pub verbal: bool,
    pub somatic: bool,
    pub material: Option<ItemId>,
}

/// What a spell may target.
#[derive(Clone, Copy, PartialEq, Eq, Structural, Debug, Hash)]
pub enum SpellTargetType {
    SelfTarget,
    Ally,
    Enemy,
    Area,
}

/// A spell as the rules describe it.
#[derive(Clone, PartialEq, Eq, Debug, Hash)]
pub struct Spell {
    pub id: SpellId,
    pub name: String,
    pub level: u8,
    pub casting_time: String,
    pub range: String,
    pub components: SpellComponents,
    pub duration_rounds: Option<u32>,
    pub target_types: Vec<SpellTargetType>,
    pub effects: Vec<SpellEffect>,
}

} // verus!
