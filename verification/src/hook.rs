//! Observation hooks: callback points the simulation core raises while
//! it runs, for telemetry and scripting collaborators.
//!
//! All calls are synchronous, on the integrator's thread; a hook cannot
//! abort the simulation.

use vstd::prelude::*;

use crate::actions::ActionTaken;
use crate::actor::ActorId;
use crate::state::State;

verus! {

/// Callback points raised during an integration run.
pub trait Hook {
    /// The run is about to start from `initial_state`.
    fn on_integration_start(&mut self, initial_state: &State);

    /// One combat just began.
    fn on_combat_start(&mut self, state: &State);

    /// An actor's turn just began.
    fn on_turn_start(&mut self, state: &State, actor: ActorId, turn: u64);

    /// The initiative pointer advanced to `actor`.
    fn on_advance_initiative(&mut self, state: &State, actor: ActorId);

    /// An action was just evaluated.
    fn on_action_executed(&mut self, state: &State, action: &ActionTaken);

    /// An actor's turn just ended.
    fn on_turn_end(&mut self, state: &State, actor: ActorId, turn: u64);

    /// One combat just ended.
    fn on_combat_end(&mut self, state: &State);

    /// The whole run just ended.
    fn on_integration_end(&mut self);

    /// Named measurements gathered over the run.
    fn metrics(&self) -> Vec<(String, i64)>;
}

/// A hook that observes nothing.
pub struct NoHook;

impl Hook for NoHook {
    fn on_integration_start(&mut self, initial_state: &State) {
    }

    fn on_combat_start(&mut self, state: &State) {
    }

    fn on_turn_start(&mut self, state: &State, actor: ActorId, turn: u64) {
    }

    fn on_advance_initiative(&mut self, state: &State, actor: ActorId) {
    }

    fn on_action_executed(&mut self, state: &State, action: &ActionTaken) {
    }

    fn on_turn_end(&mut self, state: &State, actor: ActorId, turn: u64) {
    }

    fn on_combat_end(&mut self, state: &State) {
    }

    fn on_integration_end(&mut self) {
    }

    fn metrics(&self) -> Vec<(String, i64)> {
        Vec::new()
    }
}

} // verus!
