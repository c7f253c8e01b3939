//! Ability scores and their derived modifiers.

use vstd::prelude::*;

verus! {

/// The six ability scores an actor carries.
#[derive(Clone, Copy, PartialEq, Eq, Structural, Debug, Hash)]
pub enum Stat {
    Strength,
    Dexterity,
    Constitution,
    Intelligence,
    Wisdom,
    Charisma,
}

impl Stat {
    /// Every ability score, in a fixed canonical order.
    pub fn all() -> (r: Vec<Stat>)
        ensures
            r@ =~= seq![
                Stat::Strength,
                Stat::Dexterity,
                Stat::Constitution,
                Stat::Intelligence,
                Stat::Wisdom,
                Stat::Charisma,
            ],
    {
        let mut v: Vec<Stat> = Vec::new();
        v.push(Stat::Strength);
        v.push(Stat::Dexterity);
        v.push(Stat::Constitution);
        v.push(Stat::Intelligence);
        v.push(Stat::Wisdom);
        v.push(Stat::Charisma);
        v
    }
}

/// A full block of ability scores, one value per [`Stat`].
#[derive(Clone, Copy, PartialEq, Eq, Structural, Debug, Hash)]
pub struct Stats {
    pub strength: u32,
    pub dexterity: u32,
    pub constitution: u32,
    pub intelligence: u32,
    pub wisdom: u32,
    pub charisma: u32,
}

/// The ability modifier derived from a raw score: `score / 2 - 5`.
pub open spec fn modifier_of(value: u32) -> int {
    value as int / 2 - 5
}

impl Stats {
    /// The value recorded for `stat`.
    pub open spec fn spec_get(&self, stat: Stat) -> u32 {
        match stat {
            Stat::Strength => self.strength,
            Stat::Dexterity => self.dexterity,
            Stat::Constitution => self.constitution,
            Stat::Intelligence => self.intelligence,
            Stat::Wisdom => self.wisdom,
            Stat::Charisma => self.charisma,
        }
    }

    /// The block with `stat` replaced by `value`.
    pub open spec fn spec_set(self, stat: Stat, value: u32) -> Stats {
        match stat {
            Stat::Strength => Stats { strength: value, ..self },
            Stat::Dexterity => Stats { dexterity: value, ..self },
            Stat::Constitution => Stats { constitution: value, ..self },
            Stat::Intelligence => Stats { intelligence: value, ..self },
            Stat::Wisdom => Stats { wisdom: value, ..self },
            Stat::Charisma => Stats { charisma: value, ..self },
        }
    }

    #[verifier::when_used_as_spec(spec_get)]
    pub fn get(&self, stat: Stat) -> (r: u32)
        ensures
            r == self.spec_get(stat),
    {
        match stat {
            Stat::Strength => self.strength,
            Stat::Dexterity => self.dexterity,
            Stat::Constitution => self.constitution,
            Stat::Intelligence => self.intelligence,
            Stat::Wisdom => self.wisdom,
            Stat::Charisma => self.charisma,
        }
    }

    pub fn set(&mut self, stat: Stat, value: u32)
        ensures
            *final(self) == old(self).spec_set(stat, value),
    {
        match stat {
            Stat::Strength => self.strength = value,
            Stat::Dexterity => self.dexterity = value,
            Stat::Constitution => self.constitution = value,
            Stat::Intelligence => self.intelligence = value,
            Stat::Wisdom => self.wisdom = value,
            Stat::Charisma => self.charisma = value,
        }
    }

    /// Builder form of [`Stats::set`].
    pub fn with_stat(self, stat: Stat, value: u32) -> (r: Stats)
        ensures
            r == self.spec_set(stat, value),
    {
        let mut s = self;
        s.set(stat, value);
        s
    }

    /// The ability modifier for `stat`: `score / 2 - 5`.
    pub fn modifier(&self, stat: Stat) -> (r: i32)
        ensures
            r == modifier_of(self.spec_get(stat)),
    {
        let v: u32 = self.get(stat);
        (v / 2) as i32 - 5
    }
}

impl Default for Stats {
    /// Every score starts at 10, for a modifier of 0.
    fn default() -> (r: Self)
        ensures
            forall|stat: Stat| r.spec_get(stat) == 10u32,
    {
        Stats {
            strength: 10,
            dexterity: 10,
            constitution: 10,
            intelligence: 10,
            wisdom: 10,
            charisma: 10,
        }
    }
}

} // verus!
