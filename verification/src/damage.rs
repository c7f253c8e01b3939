//! Damage kinds and damage rolls.

use vstd::prelude::*;

use crate::dice::RollPlan;

verus! {

/// The kind of damage an effect deals.
#[derive(Clone, Copy, PartialEq, Eq, Structural, Debug, Hash)]
pub enum DamageType {
    Bludgeoning,
    Piercing,
    Slashing,
    Fire,
    Cold,
    Lightning,
    Acid,
    Poison,
    Psychic,
    Necrotic,
    Radiant,
    Thunder,
}

/// One roll of damage of one kind.
#[derive(Clone, Copy, PartialEq, Eq, Structural, Debug, Hash)]
pub struct DamageInstance {
    pub roll: RollPlan,
    pub damage_type: DamageType,
}

} // verus!
