//! The failure taxonomy of the simulation core.
//!
//! Every error here signals a data-integrity problem — a dangling
//! reference or an illegal edit — that aborts the trial it occurs in
//! rather than being silently dropped.

use vstd::prelude::*;

use crate::actions::ActionEconomyUsage;
use crate::actor::ActorId;
use crate::items::ItemId;

verus! {

/// A fatal-to-the-trial failure raised while applying a transition or
/// evaluating an action.
#[derive(Clone, Copy, PartialEq, Eq, Structural, Debug)]
pub enum SimError {
    /// A transition or action referenced an actor that does not exist.
    MissingActor(ActorId),
    /// An action referenced an item that does not exist.
    MissingItem(ItemId),
    /// An attack named an item that is not a weapon.
    NotAWeapon(ItemId),
    /// The named action-economy slot was already consumed this turn.
    ActionAlreadyUsed(ActionEconomyUsage),
    /// Initiative was advanced while the initiative order was empty.
    EmptyInitiativeOrder,
    /// An action kind the evaluator does not implement was chosen.
    UnsupportedAction,
    /// Two trials produced the same state-tree edge with different
    /// transitions: the determinism guarantee is broken.
    EdgeTransitionMismatch,
    /// The state tree reached the most nodes or edges it can index.
    CapacityExceeded,
    /// A combat ran past the round safety limit without ending.
    RoundLimitExceeded,
}

} // verus!
