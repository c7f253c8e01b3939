//! Actors: the creatures that fight, with their scores, proficiencies,
//! health, inventory, and per-turn bookkeeping.

use vstd::prelude::*;

use crate::actions::ActionEconomy;
use crate::death::DeathSaves;
use crate::dice::{abs_i32, RollPlan, RollSettings};
use crate::stats::modifier_of;
use crate::items::{
    spec_weapon_prof_lookup, spec_weapon_to_proficiency, EquipSlot, Inventory, InventoryEntryView,
    Item, ItemId, ItemType, Weapon, WeaponProficiencies, WeaponProficiency, WeaponType,
};
use crate::saves::{spec_save_stat, SavingThrow, SavingThrowProficiencies};
use crate::skills::{
    scaled_proficiency_bonus, spec_associated_stat, Proficiency, Skill, SkillProficiencies,
};
use crate::stats::{Stat, Stats};

verus! {

/// Identifies an actor within one simulation state.
#[derive(Clone, Copy, PartialEq, Eq, Structural, Debug, Hash)]
pub struct ActorId(pub u32);

/// The mathematical value of an [`Actor`].
pub ghost struct ActorView {
    pub id: ActorId,
    pub name: Seq<char>,
    pub level: u32,
    pub armor_class: u32,
    pub max_health: i32,
    pub health: i32,
    pub stats: Stats,
    pub movement_speed: u32,
    pub skill_proficiencies: SkillProficiencies,
    pub saving_throw_proficiencies: SavingThrowProficiencies,
    pub death_saves: DeathSaves,
    pub initiative: Option<i32>,
    pub action_economy: ActionEconomy,
    pub equipped_items: Seq<(EquipSlot, ItemId)>,
    pub inventory: Seq<InventoryEntryView>,
    pub weapon_proficiencies: Seq<(WeaponType, WeaponProficiency)>,
}

/// The proficiency bonus a character of `level` has.
pub open spec fn spec_proficiency_bonus(level: u32) -> int {
    if level <= 4 {
        2
    } else if level <= 8 {
        3
    } else if level <= 12 {
        4
    } else if level <= 16 {
        5
    } else if level <= 20 {
        6
    } else {
        2 + (level - 1) as int / 4
    }
}

/// An actor is alive while its health is positive.
pub open spec fn spec_is_alive(a: ActorView) -> bool {
    a.health > 0
}

/// An actor is dead once its health falls to the negative of its
/// maximum, or its death saves have failed three times.
pub open spec fn spec_is_dead(a: ActorView) -> bool {
    a.health <= -(a.max_health as int) || a.death_saves.failures >= 3
}

/// An actor is unconscious when down but not yet dead.
pub open spec fn spec_is_unconscious(a: ActorView) -> bool {
    a.health <= 0 && !spec_is_dead(a)
}

/// The modifier an actor adds to a check of `skill`.
pub open spec fn spec_skill_modifier(a: ActorView, skill: Skill) -> int {
    modifier_of(a.stats.spec_get(spec_associated_stat(skill))) + scaled_proficiency_bonus(
        a.skill_proficiencies.spec_get(skill),
        spec_proficiency_bonus(a.level) as u32,
    )
}

/// The modifier an actor adds to a saving throw of `save`.
pub open spec fn spec_saving_throw_modifier(a: ActorView, save: SavingThrow) -> int {
    modifier_of(a.stats.spec_get(spec_save_stat(save))) + if a.saving_throw_proficiencies.spec_get(
        save,
    ) {
        a.level as int
    } else {
        0
    }
}

/// The modifier an actor adds to an attack with `weapon`.
pub open spec fn spec_attack_modifier(a: ActorView, weapon: Weapon) -> int {
    weapon.attack_bonus + scaled_proficiency_bonus(
        spec_weapon_to_proficiency(spec_weapon_prof_lookup(a.weapon_proficiencies, weapon.weapon_type)),
        spec_proficiency_bonus(a.level) as u32,
    )
}

/// The bounds an actor must stay within for every roll the engine can
/// build from it to fit 32-bit arithmetic.
pub open spec fn actor_wf(a: ActorView) -> bool {
    &&& 1 <= a.level <= 100_000
    &&& a.armor_class <= 1_000_000
    &&& 0 <= a.max_health
    &&& forall|stat: Stat| a.stats.spec_get(stat) <= 1_000_000
    &&& forall|j: int|
        0 <= j < a.inventory.len() ==> crate::items::item_wf((#[trigger] a.inventory[j]).item)
}

/// An actor: identity, scores, proficiencies, health, and gear.
#[derive(PartialEq, Eq, Debug, Hash)]
pub struct Actor {
    pub id: ActorId,
    pub name: String,
    pub level: u32,
    pub armor_class: u32,
    pub max_health: i32,
    pub health: i32,
    pub stats: Stats,
    pub movement_speed: u32,
    pub skill_proficiencies: SkillProficiencies,
    pub saving_throw_proficiencies: SavingThrowProficiencies,
    pub death_saves: DeathSaves,
    pub initiative: Option<i32>,
    pub action_economy: ActionEconomy,
    pub equipped_items: crate::items::EquippedItems,
    pub inventory: Inventory,
    pub weapon_proficiencies: WeaponProficiencies,
}

impl View for Actor {
    type V = ActorView;

    open spec fn view(&self) -> ActorView {
        ActorView {
            id: self.id,
            name: self.name@,
            level: self.level,
            armor_class: self.armor_class,
            max_health: self.max_health,
            health: self.health,
            stats: self.stats,
            movement_speed: self.movement_speed,
            skill_proficiencies: self.skill_proficiencies,
            saving_throw_proficiencies: self.saving_throw_proficiencies,
            death_saves: self.death_saves,
            initiative: self.initiative,
            action_economy: self.action_economy,
            equipped_items: self.equipped_items@,
            inventory: self.inventory@,
            weapon_proficiencies: self.weapon_proficiencies@,
        }
    }
}

impl Clone for Actor {
    fn clone(&self) -> (r: Self)
        ensures
            r@ == self@,
    {
        let r = Actor {
            id: self.id,
            name: self.name.clone(),
            level: self.level,
            armor_class: self.armor_class,
            max_health: self.max_health,
            health: self.health,
            stats: self.stats,
            movement_speed: self.movement_speed,
            skill_proficiencies: self.skill_proficiencies,
            saving_throw_proficiencies: self.saving_throw_proficiencies,
            death_saves: self.death_saves,
            initiative: self.initiative,
            action_economy: self.action_economy,
            equipped_items: self.equipped_items.clone(),
            inventory: self.inventory.clone(),
            weapon_proficiencies: self.weapon_proficiencies.clone(),
        };
        proof {
            assert(r@.equipped_items =~= self@.equipped_items);
            assert(r@.inventory =~= self@.inventory);
            assert(r@.weapon_proficiencies =~= self@.weapon_proficiencies);
        }
        r
    }
}

impl Actor {
    /// Alive means health above zero.
    pub fn is_alive(&self) -> (r: bool)
        ensures
            r == spec_is_alive(self@),
    {
        self.health > 0
    }

    /// Dead means health at or below the negative of maximum health, or
    /// three failed death saves.
    pub fn is_dead(&self) -> (r: bool)
        requires
            self@.max_health >= 0,
        ensures
            r == spec_is_dead(self@),
    {
        self.health <= -self.max_health || self.death_saves.is_dead()
    }

    /// Unconscious means down but not dead.
    pub fn is_unconscious(&self) -> (r: bool)
        requires
            self@.max_health >= 0,
        ensures
            r == spec_is_unconscious(self@),
    {
        self.health <= 0 && !self.is_dead()
    }

    /// The proficiency bonus for this actor's level.
    pub fn proficiency_bonus(&self) -> (r: u32)
        requires
            1 <= self@.level,
        ensures
            r == spec_proficiency_bonus(self@.level),
    {
        if self.level <= 4 {
            2
        } else if self.level <= 8 {
            3
        } else if self.level <= 12 {
            4
        } else if self.level <= 16 {
            5
        } else if self.level <= 20 {
            6
        } else {
            2 + (self.level - 1) / 4
        }
    }

    /// The proficiency bonus scaled by a proficiency level.
    pub fn proficiency_bonus_with(&self, proficiency: Proficiency) -> (r: u32)
        requires
            1 <= self@.level <= 100_000,
        ensures
            r == scaled_proficiency_bonus(
                proficiency,
                spec_proficiency_bonus(self@.level) as u32,
            ),
    {
        let bonus: u32 = self.proficiency_bonus();
        match proficiency {
            Proficiency::Untrained => 0,
            Proficiency::HalfProficient => bonus / 2,
            Proficiency::Proficient => bonus,
            Proficiency::Expert => bonus * 2,
        }
    }

    /// The raw ability modifier for `stat`.
    pub fn stat_modifier(&self, stat: Stat) -> (r: i32)
        ensures
            r == modifier_of(self@.stats.spec_get(stat)),
    {
        self.stats.modifier(stat)
    }

    /// The modifier added to a check of `skill`.
    pub fn skill_modifier(&self, skill: Skill) -> (r: i32)
        requires
            actor_wf(self@),
        ensures
            r == spec_skill_modifier(self@, skill),
    {
        let stat = skill.associated_stat();
        let stat_mod: i32 = self.stats.modifier(stat);
        let proficiency = self.skill_proficiencies.get(skill);
        let proficiency_bonus: u32 = self.proficiency_bonus_with(proficiency);
        proof {
            assert(self@.stats.spec_get(stat) <= 1_000_000);
            assert(spec_proficiency_bonus(self@.level) <= 25_001);
        }
        stat_mod + proficiency_bonus as i32
    }

    /// The modifier added to a saving throw of `save`.
    pub fn saving_throw_modifier(&self, save: SavingThrow) -> (r: i32)
        requires
            actor_wf(self@),
        ensures
            r == spec_saving_throw_modifier(self@, save),
    {
        let stat = save.to_stat();
        let stat_mod: i32 = self.stats.modifier(stat);
        let is_proficient: bool = self.saving_throw_proficiencies.get(save);
        let proficiency_bonus: u32 = if is_proficient {
            self.level
        } else {
            0
        };
        proof {
            assert(self@.stats.spec_get(stat) <= 1_000_000);
        }
        stat_mod + proficiency_bonus as i32
    }

    /// The d20 attack roll of an unarmed strike.
    pub fn plan_unarmed_strike_roll(&self, roll_settings: RollSettings) -> (r: RollPlan)
        ensures
            r == (RollPlan {
                num_dice: 1,
                die_size: 20,
                modifier: modifier_of(self@.stats.spec_get(Stat::Strength)) as i32,
                settings: roll_settings,
            }),
    {
        RollPlan {
            num_dice: 1,
            die_size: 20,
            modifier: self.stat_modifier(Stat::Strength),
            settings: roll_settings,
        }
    }

    /// The damage roll of an unarmed strike.
    pub fn plan_unarmed_strike_damage(&self) -> (r: RollPlan)
        ensures
            r == (RollPlan {
                num_dice: 1,
                die_size: 4,
                modifier: modifier_of(self@.stats.spec_get(Stat::Strength)) as i32,
                settings: RollSettings {
                    advantage: crate::dice::Advantage::Normal,
                    minimum_die_value: None,
                    maximum_die_value: None,
                    reroll_dice_below: None,
                },
            }),
    {
        RollPlan {
            num_dice: 1,
            die_size: 4,
            modifier: self.stat_modifier(Stat::Strength),
            settings: Default::default(),
        }
    }

    /// The damage roll of a critical unarmed strike: twice the dice.
    pub fn plan_unarmed_strike_crit_damage(&self) -> (r: RollPlan)
        ensures
            r == (RollPlan {
                num_dice: 2,
                die_size: 4,
                modifier: modifier_of(self@.stats.spec_get(Stat::Strength)) as i32,
                settings: RollSettings {
                    advantage: crate::dice::Advantage::Normal,
                    minimum_die_value: None,
                    maximum_die_value: None,
                    reroll_dice_below: None,
                },
            }),
    {
        RollPlan {
            num_dice: 2,
            die_size: 4,
            modifier: self.stat_modifier(Stat::Strength),
            settings: Default::default(),
        }
    }

    /// The d20 attack roll with `weapon`.
    pub fn plan_attack_roll(&self, weapon: &Weapon, roll_settings: RollSettings) -> (r: RollPlan)
        requires
            actor_wf(self@),
            abs_i32(weapon.attack_bonus) <= 1_000_000,
        ensures
            r == (RollPlan {
                num_dice: 1,
                die_size: 20,
                modifier: spec_attack_modifier(self@, *weapon) as i32,
                settings: roll_settings,
            }),
    {
        let prof: WeaponProficiency = self.weapon_proficiencies.get(weapon.weapon_type);
        let scaled: u32 = self.proficiency_bonus_with(prof.to_proficiency());
        let attack_modifier: i32 = weapon.attack_bonus + scaled as i32;
        RollPlan { num_dice: 1, die_size: 20, modifier: attack_modifier, settings: roll_settings }
    }

    /// The d20 roll of a check of `skill`.
    pub fn plan_skill_check(&self, skill: Skill, roll_settings: RollSettings) -> (r: RollPlan)
        requires
            actor_wf(self@),
        ensures
            r == (RollPlan {
                num_dice: 1,
                die_size: 20,
                modifier: spec_skill_modifier(self@, skill) as i32,
                settings: roll_settings,
            }),
    {
        RollPlan {
            num_dice: 1,
            die_size: 20,
            modifier: self.skill_modifier(skill),
            settings: roll_settings,
        }
    }

    /// The d20 roll of a saving throw of `save`.
    pub fn plan_saving_throw(&self, save: SavingThrow, roll_settings: RollSettings) -> (r: RollPlan)
        requires
            actor_wf(self@),
        ensures
            r == (RollPlan {
                num_dice: 1,
                die_size: 20,
                modifier: spec_saving_throw_modifier(self@, save) as i32,
                settings: roll_settings,
            }),
    {
        RollPlan {
            num_dice: 1,
            die_size: 20,
            modifier: self.saving_throw_modifier(save),
            settings: roll_settings,
        }
    }

    /// The unmodified d20 roll of a death saving throw.
    pub fn plan_death_saving_throw(&self, roll_settings: RollSettings) -> (r: RollPlan)
        ensures
            r == (RollPlan { num_dice: 1, die_size: 20, modifier: 0, settings: roll_settings }),
    {
        RollPlan { num_dice: 1, die_size: 20, modifier: 0, settings: roll_settings }
    }

    /// The d20 initiative roll: dexterity decides.
    pub fn plan_initiative_roll(&self, roll_settings: RollSettings) -> (r: RollPlan)
        ensures
            r == (RollPlan {
                num_dice: 1,
                die_size: 20,
                modifier: modifier_of(self@.stats.spec_get(Stat::Dexterity)) as i32,
                settings: roll_settings,
            }),
    {
        RollPlan {
            num_dice: 1,
            die_size: 20,
            modifier: self.stat_modifier(Stat::Dexterity),
            settings: roll_settings,
        }
    }

    /// Record an initiative roll on the actor.
    pub fn set_initiative(&mut self, initiative: i32)
        ensures
            final(self)@ == (ActorView { initiative: Some(initiative), ..old(self)@ }),
    {
        self.initiative = Some(initiative);
    }

    /// Put `quantity` of `item` into the actor's inventory.
    pub fn give_item(&mut self, item: Item, quantity: u32)
        requires
            match crate::items::spec_inventory_find(old(self)@.inventory, item@.id) {
                Some(i) => old(self)@.inventory[i].quantity + quantity <= u32::MAX,
                None => true,
            },
        ensures
            final(self)@ == (ActorView { inventory: final(self)@.inventory, ..old(self)@ }),
            match crate::items::spec_inventory_find(old(self)@.inventory, item@.id) {
                Some(i) => final(self)@.inventory =~= old(self)@.inventory.update(
                    i,
                    InventoryEntryView {
                        item: old(self)@.inventory[i].item,
                        quantity: (old(self)@.inventory[i].quantity + quantity) as u32,
                    },
                ),
                None => final(self)@.inventory =~= old(self)@.inventory.push(
                    InventoryEntryView { item: item@, quantity },
                ),
            },
    {
        self.inventory.add_item(item, quantity);
    }
}


/// Builds an [`Actor`] field by field, starting from a level-one
/// baseline with ten in everything.
pub struct ActorBuilder {
    actor: Actor,
}

impl ActorBuilder {
    /// The actor under construction.
    pub closed spec fn spec_actor(&self) -> ActorView {
        self.actor@
    }

    /// A fresh level-one actor called `name`: armor class ten, ten
    /// health, default scores, and no proficiencies or gear.  Its
    /// identifier is a placeholder until the actor joins a state.
    pub fn new(name: &str) -> (r: ActorBuilder)
        ensures
            r.spec_actor().name == name@,
            r.spec_actor().level == 1,
            r.spec_actor().armor_class == 10,
            r.spec_actor().max_health == 10,
            r.spec_actor().health == 10,
            crate::actor::actor_wf(r.spec_actor()),
    {
        ActorBuilder {
            actor: Actor {
                id: ActorId(0),
                name: name.to_owned(),
                level: 1,
                armor_class: 10,
                max_health: 10,
                health: 10,
                stats: Default::default(),
                movement_speed: 30,
                skill_proficiencies: Default::default(),
                saving_throw_proficiencies: Default::default(),
                death_saves: Default::default(),
                initiative: None,
                action_economy: Default::default(),
                equipped_items: Default::default(),
                inventory: Default::default(),
                weapon_proficiencies: Default::default(),
            },
        }
    }

    pub fn level(self, level: u32) -> (r: Self)
        ensures
            r.spec_actor() == (ActorView { level, ..self.spec_actor() }),
    {
        let mut b = self;
        b.actor.level = level;
        b
    }

    pub fn armor_class(self, armor_class: u32) -> (r: Self)
        ensures
            r.spec_actor() == (ActorView { armor_class, ..self.spec_actor() }),
    {
        let mut b = self;
        b.actor.armor_class = armor_class;
        b
    }

    /// Set the maximum health; the actor starts at full health.
    pub fn max_health(self, max_health: i32) -> (r: Self)
        ensures
            r.spec_actor() == (ActorView {
                max_health,
                health: max_health,
                ..self.spec_actor()
            }),
    {
        let mut b = self;
        b.actor.max_health = max_health;
        b.actor.health = max_health;
        b
    }

    pub fn stats(self, stats: Stats) -> (r: Self)
        ensures
            r.spec_actor() == (ActorView { stats, ..self.spec_actor() }),
    {
        let mut b = self;
        b.actor.stats = stats;
        b
    }

    pub fn stat(self, stat: Stat, value: u32) -> (r: Self)
        ensures
            r.spec_actor() == (ActorView {
                stats: self.spec_actor().stats.spec_set(stat, value),
                ..self.spec_actor()
            }),
    {
        let mut b = self;
        b.actor.stats.set(stat, value);
        b
    }

    pub fn movement_speed(self, speed: u32) -> (r: Self)
        ensures
            r.spec_actor() == (ActorView { movement_speed: speed, ..self.spec_actor() }),
    {
        let mut b = self;
        b.actor.movement_speed = speed;
        b
    }

    pub fn skill_proficiencies(self, proficiencies: SkillProficiencies) -> (r: Self)
        ensures
            r.spec_actor() == (ActorView {
                skill_proficiencies: proficiencies,
                ..self.spec_actor()
            }),
    {
        let mut b = self;
        b.actor.skill_proficiencies = proficiencies;
        b
    }

    pub fn skill_proficiency(self, skill: Skill, proficiency: Proficiency) -> (r: Self)
        ensures
            r.spec_actor().skill_proficiencies.spec_get(skill) == proficiency,
            forall|other: Skill|
                other != skill ==> r.spec_actor().skill_proficiencies.spec_get(other)
                    == self.spec_actor().skill_proficiencies.spec_get(other),
            r.spec_actor() == (ActorView {
                skill_proficiencies: r.spec_actor().skill_proficiencies,
                ..self.spec_actor()
            }),
    {
        let mut b = self;
        b.actor.skill_proficiencies.set(skill, proficiency);
        b
    }

    pub fn saving_throw_proficiencies(self, proficiencies: SavingThrowProficiencies) -> (r: Self)
        ensures
            r.spec_actor() == (ActorView {
                saving_throw_proficiencies: proficiencies,
                ..self.spec_actor()
            }),
    {
        let mut b = self;
        b.actor.saving_throw_proficiencies = proficiencies;
        b
    }

    pub fn saving_throw_proficiency(self, save: SavingThrow, proficient: bool) -> (r: Self)
        ensures
            r.spec_actor().saving_throw_proficiencies.spec_get(save) == proficient,
            forall|other: SavingThrow|
                other != save ==> r.spec_actor().saving_throw_proficiencies.spec_get(other)
                    == self.spec_actor().saving_throw_proficiencies.spec_get(other),
            r.spec_actor() == (ActorView {
                saving_throw_proficiencies: r.spec_actor().saving_throw_proficiencies,
                ..self.spec_actor()
            }),
    {
        let mut b = self;
        b.actor.saving_throw_proficiencies.set(save, proficient);
        b
    }

    pub fn weapon_proficiencies(self, proficiencies: WeaponProficiencies) -> (r: Self)
        ensures
            r.spec_actor().weapon_proficiencies == proficiencies@,
            r.spec_actor() == (ActorView {
                weapon_proficiencies: proficiencies@,
                ..self.spec_actor()
            }),
    {
        let mut b = self;
        b.actor.weapon_proficiencies = proficiencies;
        b
    }

    pub fn weapon_proficiency(self, weapon_type: WeaponType, proficiency: WeaponProficiency) -> (r:
        Self)
        ensures
            spec_weapon_prof_lookup(r.spec_actor().weapon_proficiencies, weapon_type)
                == proficiency,
            forall|other: WeaponType|
                other != weapon_type ==> spec_weapon_prof_lookup(
                    r.spec_actor().weapon_proficiencies,
                    other,
                ) == spec_weapon_prof_lookup(self.spec_actor().weapon_proficiencies, other),
            r.spec_actor() == (ActorView {
                weapon_proficiencies: r.spec_actor().weapon_proficiencies,
                ..self.spec_actor()
            }),
    {
        let mut b = self;
        b.actor.weapon_proficiencies.set(weapon_type, proficiency);
        b
    }

    /// The finished actor.
    pub fn build(self) -> (r: Actor)
        ensures
            r@ == self.spec_actor(),
    {
        self.actor
    }
}

} // verus!
