//! Decision policies: how an actor's turn is turned into a chosen
//! action.
//!
//! A policy reads the state and may consume randomness from the supplied
//! roller; it never mutates the state.

use vstd::prelude::*;

use crate::actions::{Action, ActionEconomyUsage, ActionTaken, AttackAction, UnarmedStrikeAction};
use crate::actor::ActorId;
use crate::dice::RollSettings;
use crate::error::SimError;
use crate::items::ItemType;
use crate::roller::Roller;
use crate::state::{spec_find_actor, State};

verus! {

/// Roll settings a policy may hand the evaluator: bounds that keep every
/// twenty-sided attack plan built from them well-formed.
pub open spec fn settings_sane(s: RollSettings) -> bool {
    &&& match s.reroll_dice_below {
        Some(x) => 1 <= x <= 20,
        None => true,
    }
    &&& match (s.minimum_die_value, s.maximum_die_value) {
        (Some(a), Some(b)) => a <= b && b <= 1_000_000,
        (Some(a), None) => a <= 20,
        (None, Some(b)) => 1 <= b <= 1_000_000,
        (None, None) => true,
    }
}

/// An action a policy may choose: any attack settings are sane.
pub open spec fn action_sane(a: Action) -> bool {
    match a {
        Action::UnarmedStrike(strike) => settings_sane(strike.attack_roll_settings),
        Action::Attack(attack) => settings_sane(attack.attack_roll_settings),
        _ => true,
    }
}

/// A decision policy: turns the current state into a chosen action for
/// the acting actor and slot.  Policies read the state only and draw
/// randomness only from the supplied roller.
pub trait Policy {
    /// Choose what `actor` does with the slot `action_type`.
    fn take_action(
        &self,
        action_type: ActionEconomyUsage,
        actor: ActorId,
        state: &State,
        rng: &mut Roller,
    ) -> (r: Result<ActionTaken, SimError>)
        requires
            crate::state::state_wf(state@),
            spec_find_actor(state@.actors, actor) is Some,
        ensures
            match r {
                Ok(a) => a.actor == actor && a.action_type == action_type && action_sane(a.action),
                Err(_) => true,
            },
    ;
}

/// A policy that always waits.
pub struct NoOpPolicy;

impl Policy for NoOpPolicy {
    fn take_action(
        &self,
        action_type: ActionEconomyUsage,
        actor: ActorId,
        state: &State,
        rng: &mut Roller,
    ) -> (r: Result<ActionTaken, SimError>)
        ensures
            r is Ok && r.unwrap() == (ActionTaken { actor, action: Action::Wait, action_type }),
    {
        Ok(ActionTaken { actor, action: Action::Wait, action_type })
    }
}

/// A policy that attacks a uniformly chosen enemy with the first weapon
/// in the actor's inventory, or with an unarmed strike when the actor
/// carries none; bonus-action slots are spent waiting.
pub struct RandomPolicy;

impl RandomPolicy {
    /// A random aggressive action: pick an enemy uniformly and attack it.
    fn random_action(&self, actor: ActorId, state: &State, rng: &mut Roller) -> (r: Action)
        requires
            crate::state::state_wf(state@),
            spec_find_actor(state@.actors, actor) is Some,
        ensures
            action_sane(r),
    {
        let enemies = state.enemies_of(actor);
        if enemies.len() == 0 || enemies.len() > 0xFFFF_FFFFusize {
            return Action::Wait;
        }
        let pick: u32 = rng.roll(0, (enemies.len() - 1) as u32);
        let target: ActorId = enemies[pick as usize];

        let actor_index = match state.find_actor_index(actor) {
            Some(i) => i,
            None => {
                return Action::Wait;
            },
        };
        let inventory = &state.actors[actor_index].inventory;
        let mut weapon_used: Option<crate::items::ItemId> = None;
        let n: usize = inventory.items.len();
        let mut i: usize = 0;
        while i < n
            invariant
                n == inventory.items.len(),
                i <= n,
            decreases n - i,
        {
            match &inventory.items[i].item.item_type {
                ItemType::Weapon(_) => {
                    weapon_used = Some(inventory.items[i].item.id);
                    i = n;
                },
                _ => {
                    i = i + 1;
                },
            }
        }

        match weapon_used {
            Some(weapon) => Action::Attack(
                AttackAction {
                    weapon_used: weapon,
                    target,
                    attack_roll_settings: Default::default(),
                },
            ),
            None => Action::UnarmedStrike(
                UnarmedStrikeAction { target, attack_roll_settings: Default::default() },
            ),
        }
    }
}

impl Policy for RandomPolicy {
    fn take_action(
        &self,
        action_type: ActionEconomyUsage,
        actor: ActorId,
        state: &State,
        rng: &mut Roller,
    ) -> (r: Result<ActionTaken, SimError>)
        ensures
            r is Ok,
    {
        if !matches!(action_type, ActionEconomyUsage::Action) {
            return Ok(ActionTaken { actor, action: Action::Wait, action_type });
        }
        let action = self.random_action(actor, state, rng);
        Ok(ActionTaken { actor, action, action_type })
    }
}

} // verus!
