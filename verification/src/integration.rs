//! The integrator: runs many independent combat trials from one initial
//! state and merges every transition into one shared state tree.
//!
//! Each trial starts from a fresh clone of the immutable initial state;
//! every transition the executor applies is immediately recorded in the
//! tree, so the live state always equals the replay of its recorded
//! trace ([`replay`]).

use vstd::prelude::*;

use crate::actions::{ActionEconomyUsage, ActionTaken};
use crate::actor::ActorId;
use crate::error::SimError;
use crate::evaluator::ActionEvaluator;
use crate::hook::{Hook, NoHook};
use crate::policy::{Policy, RandomPolicy};
use crate::roller::Roller;
use crate::state::{state_wf, State};
use crate::state_tree::{replay, spec_sat_inc, StateTree};
use crate::transition::{spec_apply, Transition};

verus! {

/// What one finished run reports: how many combats were run, how long
/// the run took, and whatever the hook measured.  The throughput metric
/// (trials per second) is derived by presentation code; it has no effect
/// on tree contents.
pub struct IntegrationResults {
    pub combats_run: u64,
    pub elapsed_ms: i64,
    pub hook_metrics: Vec<(String, i64)>,
}

/// Relies on `chrono::Utc::now`: the current wall-clock time in
/// milliseconds since the epoch.  Nothing is promised of the value; it
/// depends on the machine's clock.
#[verifier::external_body]
fn now_millis() -> i64 {
    chrono::Utc::now().timestamp_millis()
}

/// Runs combats until the requested count is reached, merging every
/// transition into one shared state tree.
pub struct Integrator {
    max_combats: u64,
    combats_run: u64,
    roller: Roller,
    state_tree: StateTree,
    policy: RandomPolicy,
    evaluator: ActionEvaluator,
}

impl Integrator {
    /// The integrator's standing invariant: its tree is consistent and
    /// was built over a bounded initial state.
    pub closed spec fn inv(&self) -> bool {
        &&& self.state_tree.wf()
        &&& state_wf(self.state_tree@.initial_state)
    }

    /// How many combats have completed.
    pub closed spec fn spec_combats_run(&self) -> u64 {
        self.combats_run
    }

    /// How many combats the run aims for.
    pub closed spec fn spec_max_combats(&self) -> u64 {
        self.max_combats
    }

    /// The tree accumulated so far.
    pub closed spec fn spec_tree(&self) -> crate::state_tree::StateTreeView {
        self.state_tree@
    }

    /// An integrator that will run `max_combats` combats from
    /// `initial_state` with randomness from `roller`.
    pub fn new(max_combats: u64, roller: Roller, initial_state: State) -> (r: Integrator)
        requires
            state_wf(initial_state@),
        ensures
            r.inv(),
            r.spec_combats_run() == 0,
            r.spec_max_combats() == max_combats,
            r.spec_tree().initial_state == initial_state@,
            r.spec_tree().nodes.len() == 1,
            r.spec_tree().edges.len() == 0,
    {
        Integrator {
            max_combats,
            combats_run: 0,
            roller,
            state_tree: StateTree::new(initial_state),
            policy: RandomPolicy,
            evaluator: ActionEvaluator,
        }
    }

    /// The shared tree of everything seen so far.
    pub fn state_tree(&self) -> (r: &StateTree)
        requires
            self.inv(),
        ensures
            r.wf(),
            r@ == self.spec_tree(),
    {
        &self.state_tree
    }

    /// How many combats have completed.
    pub fn combats_run(&self) -> (r: u64)
        ensures
            r == self.spec_combats_run(),
    {
        self.combats_run
    }

    /// Whether more combats are still owed.
    pub fn should_continue(&self) -> (r: bool)
        ensures
            r == (self.spec_combats_run() < self.spec_max_combats()),
    {
        self.combats_run < self.max_combats
    }

    /// Count one completed combat, saturating.
    fn record_combat(&mut self)
        ensures
            final(self).spec_combats_run() == spec_sat_inc(old(self).spec_combats_run()),
            final(self).spec_max_combats() == old(self).spec_max_combats(),
            final(self).spec_tree() == old(self).spec_tree(),
            final(self).inv() == old(self).inv(),
    {
        if self.combats_run < u64::MAX {
            self.combats_run = self.combats_run + 1;
        }
    }

    /// Apply `t` to the live state and merge it into the tree at once:
    /// the state becomes exactly what the transition model says, the
    /// visited node and traversed edge are counted, and the recorded
    /// trace extends by `t`, so the live state stays equal to the replay
    /// of its trace.
    fn record<H: Hook>(
        &mut self,
        hook: &mut H,
        state: &mut State,
        current: &mut u32,
        t: Transition,
        Ghost(trace): Ghost<Seq<Transition>>,
    ) -> (r: Result<Ghost<Seq<Transition>>, SimError>)
        requires
            old(self).inv(),
            state_wf(old(state)@),
            !(t is StatModification),
            replay(old(self).spec_tree().initial_state, trace) == Some(old(state)@),
            *old(current) < old(self).spec_tree().nodes.len(),
        ensures
            final(self).inv(),
            final(self).spec_tree().initial_state == old(self).spec_tree().initial_state,
            final(self).spec_combats_run() == old(self).spec_combats_run(),
            final(self).spec_max_combats() == old(self).spec_max_combats(),
            match r {
                Ok(tr2) => {
                    &&& tr2@ == trace.push(t)
                    &&& spec_apply(t, old(state)@) == Ok::<crate::state::StateView, SimError>(
                        final(state)@,
                    )
                    &&& state_wf(final(state)@)
                    &&& replay(final(self).spec_tree().initial_state, tr2@) == Some(
                        final(state)@,
                    )
                    &&& *final(current) < final(self).spec_tree().nodes.len()
                    // the merge itself: the new state's node is counted and carries its
                    // digest, and the edge from the previous node to it carries exactly
                    // this transition
                    &&& final(self).spec_tree().nodes[*final(current) as int].digest
                        == crate::codec::spec_state_digest(final(state)@)
                    &&& ({
                        let found = crate::state_tree::spec_find_edge(
                            final(self).spec_tree().edges,
                            *old(current),
                            *final(current),
                        );
                        &&& found is Some
                        &&& final(self).spec_tree().edges[found.unwrap()].transition == t
                    })
                    &&& final(self).spec_tree().total_node_hits == spec_sat_inc(
                        old(self).spec_tree().total_node_hits,
                    )
                    &&& final(self).spec_tree().total_edge_hits == spec_sat_inc(
                        old(self).spec_tree().total_edge_hits,
                    )
                    &&& final(self).spec_tree().nodes.len() >= old(self).spec_tree().nodes.len()
                    &&& final(self).spec_tree().edges.len() >= old(self).spec_tree().edges.len()
                },
                Err(_) => true,
            },
    {
        match t.apply(state) {
            Ok(()) => {},
            Err(e) => {
                return Err(e);
            },
        }
        proof {
            crate::transition::lemma_apply_preserves_wf(t, old(state)@, state@);
            crate::state_tree::lemma_replay_snoc(self.spec_tree().initial_state, trace, t);
        }
        if self.state_tree.node_count() >= 0xFFFF_FFFFusize {
            return Err(SimError::CapacityExceeded);
        }
        if self.state_tree.edge_count() >= 0xFFFF_FFFFusize {
            return Err(SimError::CapacityExceeded);
        }
        let new_node: u32 = self.state_tree.add_node(state);
        match self.state_tree.add_edge(*current, new_node, t) {
            Ok(()) => {},
            Err(e) => {
                return Err(e);
            },
        }
        *current = new_node;
        match t {
            Transition::BeginCombat => {
                hook.on_combat_start(state);
            },
            Transition::BeginTurn { actor } => {
                hook.on_turn_start(state, actor, state.turn);
            },
            Transition::EndTurn { actor } => {
                hook.on_turn_end(state, actor, state.turn);
            },
            Transition::EndCombat => {
                hook.on_combat_end(state);
            },
            Transition::AdvanceInitiative => {},
            _ => {},
        }
        Ok(Ghost(trace.push(t)))
    }

    /// Ask the policy what `actor` does with `slot`, evaluate it, and
    /// record whatever transitions it caused.
    fn take_turn_slot<H: Hook>(
        &mut self,
        hook: &mut H,
        state: &mut State,
        current: &mut u32,
        actor: ActorId,
        slot: ActionEconomyUsage,
        Ghost(trace): Ghost<Seq<Transition>>,
    ) -> (r: Result<Ghost<Seq<Transition>>, SimError>)
        requires
            old(self).inv(),
            state_wf(old(state)@),
            replay(old(self).spec_tree().initial_state, trace) == Some(old(state)@),
            *old(current) < old(self).spec_tree().nodes.len(),
        ensures
            final(self).inv(),
            final(self).spec_tree().initial_state == old(self).spec_tree().initial_state,
            final(self).spec_combats_run() == old(self).spec_combats_run(),
            final(self).spec_max_combats() == old(self).spec_max_combats(),
            match r {
                Ok(tr2) => {
                    &&& state_wf(final(state)@)
                    &&& replay(final(self).spec_tree().initial_state, tr2@) == Some(
                        final(state)@,
                    )
                    &&& *final(current) < final(self).spec_tree().nodes.len()
                    &&& trace.is_prefix_of(tr2@)
                },
                Err(_) => true,
            },
    {
        match state.find_actor_index(actor) {
            Some(_) => {},
            None => {
                return Err(SimError::MissingActor(actor));
            },
        }
        let action_taken: ActionTaken = match self.policy.take_action(
            slot,
            actor,
            state,
            &mut self.roller,
        ) {
            Ok(a) => a,
            Err(e) => {
                return Err(e);
            },
        };
        let ts: Vec<Transition> = match self.evaluator.evaluate_action(
            actor,
            &action_taken,
            state,
            &mut self.roller,
        ) {
            Ok(ts) => ts,
            Err(e) => {
                return Err(e);
            },
        };
        let ghost mut running = trace;
        proof {
            assert(trace.is_prefix_of(running)) by {
                assert(trace.subrange(0, trace.len() as int) =~= trace);
            }
        }
        let n: usize = ts.len();
        let mut j: usize = 0;
        while j < n
            invariant
                n == ts.len(),
                j <= n,
                self.inv(),
                state_wf(state@),
                crate::evaluator::eval_output_ok(ts@, actor, action_taken),
                trace.is_prefix_of(running),
                replay(self.spec_tree().initial_state, running) == Some(state@),
                *current < self.spec_tree().nodes.len(),
                self.spec_tree().initial_state == old(self).spec_tree().initial_state,
                self.spec_combats_run() == old(self).spec_combats_run(),
                self.spec_max_combats() == old(self).spec_max_combats(),
            decreases n - j,
        {
            let t: Transition = ts[j];
            proof {
                assert(!(t is StatModification));
            }
            let tr = match self.record(hook, state, current, t, Ghost(running)) {
                Ok(tr) => tr,
                Err(e) => {
                    return Err(e);
                },
            };
            proof {
                let prev = running;
                running = tr@;
                assert(running.subrange(0, trace.len() as int) =~= prev.subrange(
                    0,
                    trace.len() as int,
                ));
            }
            j = j + 1;
        }
        hook.on_action_executed(state, &action_taken);
        Ok(Ghost(running))
    }

    /// Run one combat from a fresh clone of the initial state, recording
    /// every transition into the shared tree as it is applied.
    pub fn run_combat<H: Hook>(&mut self, hook: &mut H) -> (r: (Result<(), SimError>, Ghost<
        Seq<Transition>,
    >))
        requires
            old(self).inv(),
        ensures
            final(self).inv(),
            final(self).spec_tree().initial_state == old(self).spec_tree().initial_state,
            final(self).spec_max_combats() == old(self).spec_max_combats(),
            match r.0 {
                Ok(()) => {
                    &&& final(self).spec_combats_run() == spec_sat_inc(
                        old(self).spec_combats_run(),
                    )
                    // the trial emitted a whole combat: it opens with BeginCombat, closes
                    // with EndCombat, and the recorded sequence replays cleanly from the
                    // tree's initial state
                    &&& r.1@.len() >= 2
                    &&& r.1@.first() == Transition::BeginCombat
                    &&& r.1@.last() == Transition::EndCombat
                    &&& replay(final(self).spec_tree().initial_state, r.1@) is Some
                },
                Err(_) => final(self).spec_combats_run() == old(self).spec_combats_run(),
            },
    {
        let mut state: State = self.state_tree.initial_state().clone();
        let mut current: u32 = 0;
        let ghost mut trace: Seq<Transition> = Seq::empty();
        proof {
            self.state_tree.lemma_wf_root();
            assert(replay(self.spec_tree().initial_state, trace) == Some(state@));
        }

        let tr = match self.record(hook, &mut state, &mut current, Transition::BeginCombat, Ghost(trace)) {
            Ok(tr) => tr,
            Err(e) => {
                return (Err(e), Ghost(Seq::empty()));
            },
        };
        proof {
            trace = tr@;
        }

        // roll initiative for everyone, in state order
        let mut rolls: Vec<(ActorId, i32)> = Vec::new();
        let actor_count: usize = state.actors.len();
        let mut i: usize = 0;
        while i < actor_count
            invariant
                actor_count == state.actors.len(),
                i <= actor_count,
                self.inv(),
                state_wf(state@),
                replay(self.spec_tree().initial_state, trace) == Some(state@),
                trace.len() >= 1,
                trace.first() == Transition::BeginCombat,
                current < self.spec_tree().nodes.len(),
                self.spec_tree().initial_state == old(self).spec_tree().initial_state,
                self.spec_combats_run() == old(self).spec_combats_run(),
                self.spec_max_combats() == old(self).spec_max_combats(),
            decreases actor_count - i,
        {
            proof {
                assert(crate::actor::actor_wf(state@.actors[i as int]));
                assert(state@.actors[i as int] == state.actors@[i as int]@);
            }
            let plan = state.actors[i].plan_initiative_roll(Default::default());
            proof {
                assert(state@.actors[i as int].stats.spec_get(crate::stats::Stat::Dexterity)
                    <= 1_000_000);
                assert(plan.wf());
            }
            let result = plan.roll(&mut self.roller);
            rolls.push((state.actors[i].id, result.total));
            i = i + 1;
        }

        let roll_count: usize = rolls.len();
        let mut k: usize = 0;
        while k < roll_count
            invariant
                roll_count == rolls.len(),
                k <= roll_count,
                self.inv(),
                state_wf(state@),
                replay(self.spec_tree().initial_state, trace) == Some(state@),
                trace.len() >= 1,
                trace.first() == Transition::BeginCombat,
                current < self.spec_tree().nodes.len(),
                self.spec_tree().initial_state == old(self).spec_tree().initial_state,
                self.spec_combats_run() == old(self).spec_combats_run(),
                self.spec_max_combats() == old(self).spec_max_combats(),
            decreases roll_count - k,
        {
            let (id, roll): (ActorId, i32) = rolls[k];
            let tr = match self.record(
                hook,
                &mut state,
                &mut current,
                Transition::InitiativeRoll { actor: id, roll },
                Ghost(trace),
            ) {
                Ok(tr) => tr,
                Err(e) => {
                    return (Err(e), Ghost(Seq::empty()));
                },
            };
            proof {
                trace = tr@;
            }
            k = k + 1;
        }

        // the main turn loop, bounded by a round safety limit
        let round_limit: u32 = 1_000_000_000;
        let mut guard: u32 = 0;
        let mut ended_early: bool = false;
        while guard < round_limit && !ended_early
            invariant
                self.inv(),
                state_wf(state@),
                replay(self.spec_tree().initial_state, trace) == Some(state@),
                trace.len() >= 1,
                trace.first() == Transition::BeginCombat,
                current < self.spec_tree().nodes.len(),
                self.spec_tree().initial_state == old(self).spec_tree().initial_state,
                self.spec_combats_run() == old(self).spec_combats_run(),
                self.spec_max_combats() == old(self).spec_max_combats(),
            decreases round_limit - guard, if ended_early {
                0int
            } else {
                1int
            },
        {
            if state.initiative_order.len() == 0 {
                ended_early = true;
            } else if state.is_combat_over() {
                ended_early = true;
            } else {
                let tr = match self.record(
                    hook,
                    &mut state,
                    &mut current,
                    Transition::AdvanceInitiative,
                    Ghost(trace),
                ) {
                    Ok(tr) => tr,
                    Err(e) => {
                        return (Err(e), Ghost(Seq::empty()));
                    },
                };
                proof {
                    trace = tr@;
                }

                let turn_index: usize = match state.current_turn_index {
                    Some(idx) => idx,
                    None => {
                        return (Err(SimError::EmptyInitiativeOrder), Ghost(Seq::empty()));
                    },
                };
                if turn_index >= state.initiative_order.len() {
                    return (Err(SimError::EmptyInitiativeOrder), Ghost(Seq::empty()));
                }
                let actor_id: ActorId = state.initiative_order[turn_index];
                let actor_index: usize = match state.find_actor_index(actor_id) {
                    Some(idx) => idx,
                    None => {
                        return (Err(SimError::MissingActor(actor_id)), Ghost(Seq::empty()));
                    },
                };
                proof {
                    assert(crate::actor::actor_wf(state@.actors[actor_index as int]));
                }
                let down: bool = state.actors[actor_index].is_unconscious()
                    || state.actors[actor_index].is_dead();
                if !down {
                    let tr = match self.record(
                        hook,
                        &mut state,
                        &mut current,
                        Transition::BeginTurn { actor: actor_id },
                        Ghost(trace),
                    ) {
                        Ok(tr) => tr,
                        Err(e) => {
                            return (Err(e), Ghost(Seq::empty()));
                        },
                    };
                    proof {
                        let prev = trace;
                        trace = tr@;
                        assert(prev.is_prefix_of(trace) || trace == prev.push(
                            Transition::BeginTurn { actor: actor_id },
                        ) || trace == prev.push(Transition::EndTurn { actor: actor_id }));
                        assert(trace.first() == Transition::BeginCombat);
                    }

                    let tr = match self.take_turn_slot(
                        hook,
                        &mut state,
                        &mut current,
                        actor_id,
                        ActionEconomyUsage::Action,
                        Ghost(trace),
                    ) {
                        Ok(tr) => tr,
                        Err(e) => {
                            return (Err(e), Ghost(Seq::empty()));
                        },
                    };
                    proof {
                        let prev = trace;
                        trace = tr@;
                        assert(prev.is_prefix_of(trace) || trace == prev.push(
                            Transition::BeginTurn { actor: actor_id },
                        ) || trace == prev.push(Transition::EndTurn { actor: actor_id }));
                        assert(trace.first() == Transition::BeginCombat);
                    }
                    let tr = match self.take_turn_slot(
                        hook,
                        &mut state,
                        &mut current,
                        actor_id,
                        ActionEconomyUsage::BonusAction,
                        Ghost(trace),
                    ) {
                        Ok(tr) => tr,
                        Err(e) => {
                            return (Err(e), Ghost(Seq::empty()));
                        },
                    };
                    proof {
                        let prev = trace;
                        trace = tr@;
                        assert(prev.is_prefix_of(trace) || trace == prev.push(
                            Transition::BeginTurn { actor: actor_id },
                        ) || trace == prev.push(Transition::EndTurn { actor: actor_id }));
                        assert(trace.first() == Transition::BeginCombat);
                    }

                    let tr = match self.record(
                        hook,
                        &mut state,
                        &mut current,
                        Transition::EndTurn { actor: actor_id },
                        Ghost(trace),
                    ) {
                        Ok(tr) => tr,
                        Err(e) => {
                            return (Err(e), Ghost(Seq::empty()));
                        },
                    };
                    proof {
                        let prev = trace;
                        trace = tr@;
                        assert(prev.is_prefix_of(trace) || trace == prev.push(
                            Transition::BeginTurn { actor: actor_id },
                        ) || trace == prev.push(Transition::EndTurn { actor: actor_id }));
                        assert(trace.first() == Transition::BeginCombat);
                    }
                }
                guard = guard + 1;
                if guard == round_limit {
                    return (Err(SimError::RoundLimitExceeded), Ghost(Seq::empty()));
                }
            }
        }

        let tr = match self.record(hook, &mut state, &mut current, Transition::EndCombat, Ghost(trace)) {
            Ok(tr) => tr,
            Err(e) => {
                return (Err(e), Ghost(Seq::empty()));
            },
        };
        proof {
            trace = tr@;
        }

        self.record_combat();
        proof {
            assert(trace.first() == Transition::BeginCombat);
            assert(trace.last() == Transition::EndCombat);
        }
        (Ok(()), Ghost(trace))
    }

    /// Run combats until the requested count is reached, reporting to
    /// `hook` throughout.  A trial that errors aborts the run and is
    /// surfaced to the caller; it never counts toward completion.
    pub fn run_hooked<H: Hook>(&mut self, hook: &mut H) -> (r: Result<IntegrationResults, SimError>)
        requires
            old(self).inv(),
        ensures
            final(self).inv(),
            final(self).spec_tree().initial_state == old(self).spec_tree().initial_state,
            match r {
                Ok(res) => {
                    // exactly the requested count is run (a count already met
                    // stands), and the result reports it
                    &&& final(self).spec_combats_run() == if old(self).spec_combats_run()
                        >= old(self).spec_max_combats() {
                        old(self).spec_combats_run()
                    } else {
                        old(self).spec_max_combats()
                    }
                    &&& res.combats_run == final(self).spec_combats_run()
                },
                Err(_) => true,
            },
    {
        hook.on_integration_start(self.state_tree.initial_state());
        let start_ms: i64 = now_millis();
        let mut more: bool = self.should_continue();
        while more
            invariant
                self.inv(),
                self.spec_tree().initial_state == old(self).spec_tree().initial_state,
                self.spec_max_combats() == old(self).spec_max_combats(),
                more == (self.spec_combats_run() < self.spec_max_combats()),
                self.spec_combats_run() == if old(self).spec_combats_run()
                    >= old(self).spec_max_combats() || self.spec_combats_run()
                    <= old(self).spec_combats_run() {
                    old(self).spec_combats_run()
                } else {
                    self.spec_combats_run()
                },
                old(self).spec_combats_run() <= self.spec_combats_run(),
                self.spec_combats_run() <= old(self).spec_combats_run()
                    || self.spec_combats_run() <= self.spec_max_combats(),
            decreases self.spec_max_combats() - self.spec_combats_run(),
        {
            let (outcome, _combat_trace) = self.run_combat(hook);
            match outcome {
                Ok(()) => {},
                Err(e) => {
                    return Err(e);
                },
            }
            more = self.should_continue();
        }
        let end_ms: i64 = now_millis();
        let wide: i128 = end_ms as i128 - start_ms as i128;
        let elapsed_ms: i64 = if wide > i64::MAX as i128 {
            i64::MAX
        } else if wide < i64::MIN as i128 {
            i64::MIN
        } else {
            wide as i64
        };
        hook.on_integration_end();
        let hook_metrics = hook.metrics();
        Ok(IntegrationResults { combats_run: self.combats_run, elapsed_ms, hook_metrics })
    }

    /// Run combats until the requested count is reached.
    pub fn run(&mut self) -> (r: Result<IntegrationResults, SimError>)
        requires
            old(self).inv(),
        ensures
            final(self).inv(),
            final(self).spec_tree().initial_state == old(self).spec_tree().initial_state,
            match r {
                Ok(res) => {
                    // exactly the requested count is run (a count already met
                    // stands), and the result reports it
                    &&& final(self).spec_combats_run() == if old(self).spec_combats_run()
                        >= old(self).spec_max_combats() {
                        old(self).spec_combats_run()
                    } else {
                        old(self).spec_max_combats()
                    }
                    &&& res.combats_run == final(self).spec_combats_run()
                },
                Err(_) => true,
            },
    {
        let mut hook = NoHook;
        self.run_hooked(&mut hook)
    }
}

} // verus!
