//! Skills, skill proficiencies, and skill checks.

use vstd::prelude::*;

use crate::dice::{RollPlan, RollSettings};
use crate::stats::Stat;

verus! {

/// The skills an actor can be proficient in.
#[derive(Clone, Copy, PartialEq, Eq, Structural, Debug, Hash)]
pub enum Skill {
    Acrobatics,
    AnimalHandling,
    Arcana,
    Athletics,
    Deception,
    History,
    Insight,
    Intimidation,
    Investigation,
    Medicine,
    Nature,
    Perception,
    Performance,
    Persuasion,
    Religion,
    SleightOfHand,
    Stealth,
    Survival,
}

/// The canonical order of all skills.
pub open spec fn all_skills() -> Seq<Skill> {
    seq![
        Skill::Acrobatics,
        Skill::AnimalHandling,
        Skill::Arcana,
        Skill::Athletics,
        Skill::Deception,
        Skill::History,
        Skill::Insight,
        Skill::Intimidation,
        Skill::Investigation,
        Skill::Medicine,
        Skill::Nature,
        Skill::Perception,
        Skill::Performance,
        Skill::Persuasion,
        Skill::Religion,
        Skill::SleightOfHand,
        Skill::Stealth,
        Skill::Survival,
    ]
}

/// The ability score a skill check is rolled against.
pub open spec fn spec_associated_stat(skill: Skill) -> Stat {
    match skill {
        Skill::Acrobatics => Stat::Dexterity,
        Skill::AnimalHandling => Stat::Wisdom,
        Skill::Arcana => Stat::Intelligence,
        Skill::Athletics => Stat::Strength,
        Skill::Deception => Stat::Charisma,
        Skill::History => Stat::Intelligence,
        Skill::Insight => Stat::Wisdom,
        Skill::Intimidation => Stat::Charisma,
        Skill::Investigation => Stat::Intelligence,
        Skill::Medicine => Stat::Wisdom,
        Skill::Nature => Stat::Intelligence,
        Skill::Perception => Stat::Wisdom,
        Skill::Performance => Stat::Charisma,
        Skill::Persuasion => Stat::Charisma,
        Skill::Religion => Stat::Intelligence,
        Skill::SleightOfHand => Stat::Dexterity,
        Skill::Stealth => Stat::Dexterity,
        Skill::Survival => Stat::Wisdom,
    }
}

impl Skill {
    /// Every skill, in the canonical order.
    pub fn all() -> (r: Vec<Skill>)
        ensures
            r@ =~= all_skills(),
    {
        let mut v: Vec<Skill> = Vec::new();
        v.push(Skill::Acrobatics);
        v.push(Skill::AnimalHandling);
        v.push(Skill::Arcana);
        v.push(Skill::Athletics);
        v.push(Skill::Deception);
        v.push(Skill::History);
        v.push(Skill::Insight);
        v.push(Skill::Intimidation);
        v.push(Skill::Investigation);
        v.push(Skill::Medicine);
        v.push(Skill::Nature);
        v.push(Skill::Perception);
        v.push(Skill::Performance);
        v.push(Skill::Persuasion);
        v.push(Skill::Religion);
        v.push(Skill::SleightOfHand);
        v.push(Skill::Stealth);
        v.push(Skill::Survival);
        v
    }

    /// The ability score this skill is rolled against.
    pub fn associated_stat(&self) -> (r: Stat)
        ensures
            r == spec_associated_stat(*self),
    {
        match self {
            Skill::Acrobatics => Stat::Dexterity,
            Skill::AnimalHandling => Stat::Wisdom,
            Skill::Arcana => Stat::Intelligence,
            Skill::Athletics => Stat::Strength,
            Skill::Deception => Stat::Charisma,
            Skill::History => Stat::Intelligence,
            Skill::Insight => Stat::Wisdom,
            Skill::Intimidation => Stat::Charisma,
            Skill::Investigation => Stat::Intelligence,
            Skill::Medicine => Stat::Wisdom,
            Skill::Nature => Stat::Intelligence,
            Skill::Perception => Stat::Wisdom,
            Skill::Performance => Stat::Charisma,
            Skill::Persuasion => Stat::Charisma,
            Skill::Religion => Stat::Intelligence,
            Skill::SleightOfHand => Stat::Dexterity,
            Skill::Stealth => Stat::Dexterity,
            Skill::Survival => Stat::Wisdom,
        }
    }
}

/// How proficient an actor is at a skill.
#[derive(Clone, Copy, PartialEq, Eq, Structural, Debug, Hash)]
pub enum Proficiency {
    Untrained,
    HalfProficient,
    Proficient,
    Expert,
}

/// The proficiency bonus scaled by a proficiency level: none, half,
/// full, or double.
pub open spec fn scaled_proficiency_bonus(proficiency: Proficiency, bonus: u32) -> int {
    match proficiency {
        Proficiency::Untrained => 0,
        Proficiency::HalfProficient => bonus as int / 2,
        Proficiency::Proficient => bonus as int,
        Proficiency::Expert => bonus as int * 2,
    }
}

/// An actor's proficiency level in each skill.
#[derive(Clone, Copy, PartialEq, Eq, Structural, Debug, Hash)]
pub struct SkillProficiencies {
    pub acrobatics: Proficiency,
    pub animal_handling: Proficiency,
    pub arcana: Proficiency,
    pub athletics: Proficiency,
    pub deception: Proficiency,
    pub history: Proficiency,
    pub insight: Proficiency,
    pub intimidation: Proficiency,
    pub investigation: Proficiency,
    pub medicine: Proficiency,
    pub nature: Proficiency,
    pub perception: Proficiency,
    pub performance: Proficiency,
    pub persuasion: Proficiency,
    pub religion: Proficiency,
    pub sleight_of_hand: Proficiency,
    pub stealth: Proficiency,
    pub survival: Proficiency,
}

impl SkillProficiencies {
    /// The proficiency level recorded for `skill`.
    pub open spec fn spec_get(&self, skill: Skill) -> Proficiency {
        match skill {
            Skill::Acrobatics => self.acrobatics,
            Skill::AnimalHandling => self.animal_handling,
            Skill::Arcana => self.arcana,
            Skill::Athletics => self.athletics,
            Skill::Deception => self.deception,
            Skill::History => self.history,
            Skill::Insight => self.insight,
            Skill::Intimidation => self.intimidation,
            Skill::Investigation => self.investigation,
            Skill::Medicine => self.medicine,
            Skill::Nature => self.nature,
            Skill::Perception => self.perception,
            Skill::Performance => self.performance,
            Skill::Persuasion => self.persuasion,
            Skill::Religion => self.religion,
            Skill::SleightOfHand => self.sleight_of_hand,
            Skill::Stealth => self.stealth,
            Skill::Survival => self.survival,
        }
    }

    #[verifier::when_used_as_spec(spec_get)]
    pub fn get(&self, skill: Skill) -> (r: Proficiency)
        ensures
            r == self.spec_get(skill),
    {
        match skill {
            Skill::Acrobatics => self.acrobatics,
            Skill::AnimalHandling => self.animal_handling,
            Skill::Arcana => self.arcana,
            Skill::Athletics => self.athletics,
            Skill::Deception => self.deception,
            Skill::History => self.history,
            Skill::Insight => self.insight,
            Skill::Intimidation => self.intimidation,
            Skill::Investigation => self.investigation,
            Skill::Medicine => self.medicine,
            Skill::Nature => self.nature,
            Skill::Perception => self.perception,
            Skill::Performance => self.performance,
            Skill::Persuasion => self.persuasion,
            Skill::Religion => self.religion,
            Skill::SleightOfHand => self.sleight_of_hand,
            Skill::Stealth => self.stealth,
            Skill::Survival => self.survival,
        }
    }

    pub fn set(&mut self, skill: Skill, proficiency: Proficiency)
        ensures
            final(self).spec_get(skill) == proficiency,
            forall|other: Skill| other != skill ==> final(self).spec_get(other) == old(self).spec_get(other),
    {
        match skill {
            Skill::Acrobatics => self.acrobatics = proficiency,
            Skill::AnimalHandling => self.animal_handling = proficiency,
            Skill::Arcana => self.arcana = proficiency,
            Skill::Athletics => self.athletics = proficiency,
            Skill::Deception => self.deception = proficiency,
            Skill::History => self.history = proficiency,
            Skill::Insight => self.insight = proficiency,
            Skill::Intimidation => self.intimidation = proficiency,
            Skill::Investigation => self.investigation = proficiency,
            Skill::Medicine => self.medicine = proficiency,
            Skill::Nature => self.nature = proficiency,
            Skill::Perception => self.perception = proficiency,
            Skill::Performance => self.performance = proficiency,
            Skill::Persuasion => self.persuasion = proficiency,
            Skill::Religion => self.religion = proficiency,
            Skill::SleightOfHand => self.sleight_of_hand = proficiency,
            Skill::Stealth => self.stealth = proficiency,
            Skill::Survival => self.survival = proficiency,
        }
    }

    /// Builder form of [`SkillProficiencies::set`].
    pub fn with_proficiency(self, skill: Skill, proficiency: Proficiency) -> (r: Self)
        ensures
            r.spec_get(skill) == proficiency,
            forall|other: Skill| other != skill ==> r.spec_get(other) == self.spec_get(other),
    {
        let mut s = self;
        s.set(skill, proficiency);
        s
    }
}

impl Default for SkillProficiencies {
    /// No proficiency in any skill.
    fn default() -> (r: Self)
        ensures
            forall|skill: Skill| r.spec_get(skill) == Proficiency::Untrained,
    {
        SkillProficiencies {
            acrobatics: Proficiency::Untrained,
            animal_handling: Proficiency::Untrained,
            arcana: Proficiency::Untrained,
            athletics: Proficiency::Untrained,
            deception: Proficiency::Untrained,
            history: Proficiency::Untrained,
            insight: Proficiency::Untrained,
            intimidation: Proficiency::Untrained,
            investigation: Proficiency::Untrained,
            medicine: Proficiency::Untrained,
            nature: Proficiency::Untrained,
            perception: Proficiency::Untrained,
            performance: Proficiency::Untrained,
            persuasion: Proficiency::Untrained,
            religion: Proficiency::Untrained,
            sleight_of_hand: Proficiency::Untrained,
            stealth: Proficiency::Untrained,
            survival: Proficiency::Untrained,
        }
    }
}

/// A fully-resolved skill check: the skill, the proficiency applied,
/// the actor's proficiency bonus, the flat ability modifier, and the
/// roll settings to use.
#[derive(Clone, Copy, PartialEq, Eq, Structural, Debug, Hash)]
pub struct SkillCheck {
    pub skill: Skill,
    pub proficiency: Proficiency,
    pub proficiency_bonus: u32,
    pub modifier: i32,
    pub roll_settings: RollSettings,
}

impl SkillCheck {
    /// The flat modifier plus the scaled proficiency bonus.
    pub fn total_modifier(&self) -> (r: i32)
        requires
            scaled_proficiency_bonus(self.proficiency, self.proficiency_bonus) <= i32::MAX,
            self.modifier + scaled_proficiency_bonus(self.proficiency, self.proficiency_bonus)
                <= i32::MAX,
        ensures
            r == self.modifier + scaled_proficiency_bonus(self.proficiency, self.proficiency_bonus),
    {
        let bonus: u32 = match self.proficiency {
            Proficiency::Untrained => 0,
            Proficiency::HalfProficient => self.proficiency_bonus / 2,
            Proficiency::Proficient => self.proficiency_bonus,
            Proficiency::Expert => {
                if self.proficiency_bonus <= u32::MAX / 2 {
                    self.proficiency_bonus * 2
                } else {
                    // unreachable under the requires; keep the arithmetic total
                    u32::MAX
                }
            },
        };
        self.modifier + bonus as i32
    }

    /// The d20 roll this check makes.
    pub fn roll(&self) -> (r: RollPlan)
        requires
            scaled_proficiency_bonus(self.proficiency, self.proficiency_bonus) <= i32::MAX,
            self.modifier + scaled_proficiency_bonus(self.proficiency, self.proficiency_bonus)
                <= i32::MAX,
        ensures
            r.num_dice == 1,
            r.die_size == 20,
            r.modifier == self.modifier
                + scaled_proficiency_bonus(self.proficiency, self.proficiency_bonus),
            r.settings == self.roll_settings,
    {
        RollPlan {
            num_dice: 1,
            die_size: 20,
            modifier: self.total_modifier(),
            settings: self.roll_settings,
        }
    }
}

} // verus!
