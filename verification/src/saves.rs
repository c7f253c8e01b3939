//! Saving throws and saving-throw proficiencies.

use vstd::prelude::*;

use crate::stats::Stat;

verus! {

/// The six saving throws, one per ability score.
#[derive(Clone, Copy, PartialEq, Eq, Structural, Debug, Hash)]
pub enum SavingThrow {
    Strength,
    Dexterity,
    Constitution,
    Intelligence,
    Wisdom,
    Charisma,
}

/// The ability score a saving throw is rolled against.
pub open spec fn spec_save_stat(save: SavingThrow) -> Stat {
    match save {
        SavingThrow::Strength => Stat::Strength,
        SavingThrow::Dexterity => Stat::Dexterity,
        SavingThrow::Constitution => Stat::Constitution,
        SavingThrow::Intelligence => Stat::Intelligence,
        SavingThrow::Wisdom => Stat::Wisdom,
        SavingThrow::Charisma => Stat::Charisma,
    }
}

/// The saving throw that belongs to an ability score.
pub open spec fn spec_save_of_stat(stat: Stat) -> SavingThrow {
    match stat {
        Stat::Strength => SavingThrow::Strength,
        Stat::Dexterity => SavingThrow::Dexterity,
        Stat::Constitution => SavingThrow::Constitution,
        Stat::Intelligence => SavingThrow::Intelligence,
        Stat::Wisdom => SavingThrow::Wisdom,
        Stat::Charisma => SavingThrow::Charisma,
    }
}

impl SavingThrow {
    /// Every saving throw, in a fixed canonical order.
    pub fn all() -> (r: Vec<SavingThrow>)
        ensures
            r@ =~= seq![
                SavingThrow::Strength,
                SavingThrow::Dexterity,
                SavingThrow::Constitution,
                SavingThrow::Intelligence,
                SavingThrow::Wisdom,
                SavingThrow::Charisma,
            ],
    {
        let mut v: Vec<SavingThrow> = Vec::new();
        v.push(SavingThrow::Strength);
        v.push(SavingThrow::Dexterity);
        v.push(SavingThrow::Constitution);
        v.push(SavingThrow::Intelligence);
        v.push(SavingThrow::Wisdom);
        v.push(SavingThrow::Charisma);
        v
    }

    /// The ability score this saving throw is rolled against.
    pub fn to_stat(&self) -> (r: Stat)
        ensures
            r == spec_save_stat(*self),
    {
        match self {
            SavingThrow::Strength => Stat::Strength,
            SavingThrow::Dexterity => Stat::Dexterity,
            SavingThrow::Constitution => Stat::Constitution,
            SavingThrow::Intelligence => Stat::Intelligence,
            SavingThrow::Wisdom => Stat::Wisdom,
            SavingThrow::Charisma => Stat::Charisma,
        }
    }

    /// The saving throw that belongs to `stat`.
    pub fn from_stat(stat: Stat) -> (r: SavingThrow)
        ensures
            r == spec_save_of_stat(stat),
    {
        match stat {
            Stat::Strength => SavingThrow::Strength,
            Stat::Dexterity => SavingThrow::Dexterity,
            Stat::Constitution => SavingThrow::Constitution,
            Stat::Intelligence => SavingThrow::Intelligence,
            Stat::Wisdom => SavingThrow::Wisdom,
            Stat::Charisma => SavingThrow::Charisma,
        }
    }
}

/// Which saving throws an actor is proficient in.
#[derive(Clone, Copy, PartialEq, Eq, Structural, Debug, Hash)]
pub struct SavingThrowProficiencies {
    pub strength: bool,
    pub dexterity: bool,
    pub constitution: bool,
    pub intelligence: bool,
    pub wisdom: bool,
    pub charisma: bool,
}

impl SavingThrowProficiencies {
    /// Whether the actor is proficient in `save`.
    pub open spec fn spec_get(&self, save: SavingThrow) -> bool {
        match save {
            SavingThrow::Strength => self.strength,
            SavingThrow::Dexterity => self.dexterity,
            SavingThrow::Constitution => self.constitution,
            SavingThrow::Intelligence => self.intelligence,
            SavingThrow::Wisdom => self.wisdom,
            SavingThrow::Charisma => self.charisma,
        }
    }

    #[verifier::when_used_as_spec(spec_get)]
    pub fn get(&self, save: SavingThrow) -> (r: bool)
        ensures
            r == self.spec_get(save),
    {
        match save {
            SavingThrow::Strength => self.strength,
            SavingThrow::Dexterity => self.dexterity,
            SavingThrow::Constitution => self.constitution,
            SavingThrow::Intelligence => self.intelligence,
            SavingThrow::Wisdom => self.wisdom,
            SavingThrow::Charisma => self.charisma,
        }
    }

    pub fn set(&mut self, save: SavingThrow, proficient: bool)
        ensures
            final(self).spec_get(save) == proficient,
            forall|other: SavingThrow|
                other != save ==> final(self).spec_get(other) == old(self).spec_get(other),
    {
        match save {
            SavingThrow::Strength => self.strength = proficient,
            SavingThrow::Dexterity => self.dexterity = proficient,
            SavingThrow::Constitution => self.constitution = proficient,
            SavingThrow::Intelligence => self.intelligence = proficient,
            SavingThrow::Wisdom => self.wisdom = proficient,
            SavingThrow::Charisma => self.charisma = proficient,
        }
    }

    /// Builder form of [`SavingThrowProficiencies::set`].
    pub fn with_proficiency(self, save: SavingThrow, proficient: bool) -> (r: Self)
        ensures
            r.spec_get(save) == proficient,
            forall|other: SavingThrow| other != save ==> r.spec_get(other) == self.spec_get(other),
    {
        let mut s = self;
        s.set(save, proficient);
        s
    }
}

impl Default for SavingThrowProficiencies {
    /// No proficiency in any saving throw.
    fn default() -> (r: Self)
        ensures
            forall|save: SavingThrow| !r.spec_get(save),
    {
        SavingThrowProficiencies {
            strength: false,
            dexterity: false,
            constitution: false,
            intelligence: false,
            wisdom: false,
            charisma: false,
        }
    }
}

} // verus!
