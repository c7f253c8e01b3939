//! Actions an actor can take on its turn, and the per-turn action economy.

use vstd::prelude::*;

use crate::actor::ActorId;
use crate::dice::RollSettings;
use crate::error::SimError;
use crate::items::ItemId;

verus! {

/// The kinds of action the rules know.
#[derive(Clone, Copy, PartialEq, Eq, Structural, Debug, Hash)]
pub enum ActionType {
    Wait,
    UnarmedStrike,
    Attack,
    CastSpell,
    UseItem,
    Dash,
    Disengage,
    Dodge,
    Help,
    Hide,
}

/// An unarmed strike against one target.
#[derive(Clone, Copy, PartialEq, Eq, Structural, Debug, Hash)]
pub struct UnarmedStrikeAction {
    pub target: ActorId,
    pub attack_roll_settings: RollSettings,
}

/// A weapon attack against one target.
#[derive(Clone, Copy, PartialEq, Eq, Structural, Debug, Hash)]
pub struct AttackAction {
    pub weapon_used: ItemId,
    pub target: ActorId,
    pub attack_roll_settings: RollSettings,
}

/// Using an item, possibly on a target.
#[derive(Clone, Copy, PartialEq, Eq, Structural, Debug, Hash)]
pub struct UseItemAction {
    pub item_used: ItemId,
    pub target: Option<ActorId>,
}

/// Helping another actor.
#[derive(Clone, Copy, PartialEq, Eq, Structural, Debug, Hash)]
pub struct HelpAction {
    pub target: ActorId,
}

/// A concrete action chosen by a policy.
#[derive(Clone, Copy, PartialEq, Eq, Structural, Debug, Hash)]
#[non_exhaustive]
pub enum Action {
    Wait,
    UnarmedStrike(UnarmedStrikeAction),
    Attack(AttackAction),
    UseItem(UseItemAction),
    Dash,
    Disengage,
    Dodge,
    Help(HelpAction),
    Hide,
}

/// The kind tag of an action.
pub open spec fn spec_action_type(action: Action) -> ActionType {
    match action {
        Action::Wait => ActionType::Wait,
        Action::UnarmedStrike(_) => ActionType::UnarmedStrike,
        Action::Attack(_) => ActionType::Attack,
        Action::UseItem(_) => ActionType::UseItem,
        Action::Dash => ActionType::Dash,
        Action::Disengage => ActionType::Disengage,
        Action::Dodge => ActionType::Dodge,
        Action::Help(_) => ActionType::Help,
        Action::Hide => ActionType::Hide,
    }
}

impl Action {
    /// The kind tag of this action.
    pub fn action_type(&self) -> (r: ActionType)
        ensures
            r == spec_action_type(*self),
    {
        match self {
            Action::Wait => ActionType::Wait,
            Action::UnarmedStrike(_) => ActionType::UnarmedStrike,
            Action::Attack(_) => ActionType::Attack,
            Action::UseItem(_) => ActionType::UseItem,
            Action::Dash => ActionType::Dash,
            Action::Disengage => ActionType::Disengage,
            Action::Dodge => ActionType::Dodge,
            Action::Help(_) => ActionType::Help,
            Action::Hide => ActionType::Hide,
        }
    }
}

/// The two per-turn action-economy slots the executor spends.
#[derive(Clone, Copy, PartialEq, Eq, Structural, Debug, Hash)]
pub enum ActionEconomyUsage {
    Action,
    BonusAction,
}

/// What an actor has already spent this turn.
#[derive(Clone, Copy, PartialEq, Eq, Structural, Debug, Hash)]
pub struct ActionEconomy {
    pub action_used: bool,
    pub bonus_action_used: bool,
    pub reaction_used: bool,
    pub free_actions_used: u32,
    pub movement_used: u32,
}

impl Default for ActionEconomy {
    fn default() -> (r: Self)
        ensures
            r == spec_action_economy_reset(),
    {
        ActionEconomy {
            action_used: false,
            bonus_action_used: false,
            reaction_used: false,
            free_actions_used: 0,
            movement_used: 0,
        }
    }
}

/// A fresh action economy: nothing spent.
pub open spec fn spec_action_economy_reset() -> ActionEconomy {
    ActionEconomy {
        action_used: false,
        bonus_action_used: false,
        reaction_used: false,
        free_actions_used: 0,
        movement_used: 0,
    }
}

/// Whether the slot `usage` is still free in `economy`.
pub open spec fn spec_can_take_action(economy: ActionEconomy, usage: ActionEconomyUsage) -> bool {
    match usage {
        ActionEconomyUsage::Action => !economy.action_used,
        ActionEconomyUsage::BonusAction => !economy.bonus_action_used,
    }
}

/// `economy` with the slot `usage` marked spent.
pub open spec fn spec_use_action(economy: ActionEconomy, usage: ActionEconomyUsage) -> ActionEconomy {
    match usage {
        ActionEconomyUsage::Action => ActionEconomy { action_used: true, ..economy },
        ActionEconomyUsage::BonusAction => ActionEconomy { bonus_action_used: true, ..economy },
    }
}

impl ActionEconomy {
    /// Give the actor a fresh turn: nothing spent.
    pub fn reset(&mut self)
        ensures
            *final(self) == spec_action_economy_reset(),
    {
        self.action_used = false;
        self.bonus_action_used = false;
        self.reaction_used = false;
        self.free_actions_used = 0;
        self.movement_used = 0;
    }

    /// Whether the slot `usage` is still free this turn.
    pub fn can_take_action(&self, usage: ActionEconomyUsage) -> (r: bool)
        ensures
            r == spec_can_take_action(*self, usage),
    {
        match usage {
            ActionEconomyUsage::Action => !self.action_used,
            ActionEconomyUsage::BonusAction => !self.bonus_action_used,
        }
    }

    /// Spend the slot `usage`; spending an already-spent slot is the
    /// action-economy failure the executor treats as a logic bug.
    pub fn use_action(&mut self, usage: ActionEconomyUsage) -> (r: Result<(), SimError>)
        ensures
            match r {
                Ok(()) => spec_can_take_action(*old(self), usage) && *final(self)
                    == spec_use_action(*old(self), usage),
                Err(e) => !spec_can_take_action(*old(self), usage) && e
                    == SimError::ActionAlreadyUsed(usage) && *final(self) == *old(self),
            },
    {
        match usage {
            ActionEconomyUsage::Action => {
                if self.action_used {
                    return Err(SimError::ActionAlreadyUsed(usage));
                }
                self.action_used = true;
            },
            ActionEconomyUsage::BonusAction => {
                if self.bonus_action_used {
                    return Err(SimError::ActionAlreadyUsed(usage));
                }
                self.bonus_action_used = true;
            },
        }
        Ok(())
    }
}

/// A policy's chosen action: who acts, what they do, and which slot it
/// spends.
#[derive(Clone, Copy, PartialEq, Eq, Structural, Debug, Hash)]
pub struct ActionTaken {
    pub actor: ActorId,
    pub action: Action,
    pub action_type: ActionEconomyUsage,
}

} // verus!
