//! The transition model: the closed set of atomic, deterministic state
//! edits, and their exact application semantics.
//!
//! Applying the same transition to the same state always yields the same
//! resulting state: [`spec_apply`] is a function, and the executable
//! [`Transition::apply`] is proved to agree with it exactly, including
//! which error comes back on which state.

use vstd::prelude::*;

use crate::actions::{
    spec_action_economy_reset, spec_can_take_action, spec_use_action, ActionEconomyUsage,
};
use crate::actor::{ActorId, ActorView};
use crate::error::SimError;
use crate::state::{spec_find_actor, State, StateView};
use crate::stats::Stat;

verus! {

/// The kind tag of a transition.
#[derive(Clone, Copy, PartialEq, Eq, Structural, Debug, Hash)]
pub enum TransitionType {
    Root,
    BeginCombat,
    EndCombat,
    InitiativeRoll,
    BeginTurn,
    EndTurn,
    AdvanceInitiative,
    HealthModification,
    StatModification,
    ActionEconomyUsed,
}

/// One atomic, deterministic, side-effect-free edit of a [`State`].
/// Transitions are the only channel through which simulation state is
/// mutated once a trial runs; they carry no randomness and read nothing
/// outside the state they are applied to.
#[derive(Clone, Copy, PartialEq, Eq, Structural, Debug, Hash)]
pub enum Transition {
    Root,
    BeginCombat,
    EndCombat,
    InitiativeRoll { actor: ActorId, roll: i32 },
    BeginTurn { actor: ActorId },
    EndTurn { actor: ActorId },
    AdvanceInitiative,
    HealthModification { target: ActorId, delta: i32 },
    StatModification { target: ActorId, stat: Stat, delta: i32 },
    ActionEconomyUsed { target: ActorId, action_type: ActionEconomyUsage },
}

/// The kind tag of a transition.
pub open spec fn spec_transition_type(t: Transition) -> TransitionType {
    match t {
        Transition::Root => TransitionType::Root,
        Transition::BeginCombat => TransitionType::BeginCombat,
        Transition::EndCombat => TransitionType::EndCombat,
        Transition::InitiativeRoll { .. } => TransitionType::InitiativeRoll,
        Transition::BeginTurn { .. } => TransitionType::BeginTurn,
        Transition::EndTurn { .. } => TransitionType::EndTurn,
        Transition::AdvanceInitiative => TransitionType::AdvanceInitiative,
        Transition::HealthModification { .. } => TransitionType::HealthModification,
        Transition::StatModification { .. } => TransitionType::StatModification,
        Transition::ActionEconomyUsed { .. } => TransitionType::ActionEconomyUsed,
    }
}

/// `a + b` held inside the 32-bit signed range.
pub open spec fn spec_sat_add_i32(a: i32, b: i32) -> i32 {
    if a + b > i32::MAX {
        i32::MAX
    } else if a + b < i32::MIN {
        i32::MIN
    } else {
        (a + b) as i32
    }
}

/// The 32-bit two's-complement reading of `d`.
pub open spec fn spec_u32_of_i32(d: i32) -> u32 {
    if d >= 0 {
        d as u32
    } else {
        (d + 0x1_0000_0000) as u32
    }
}

/// `v + d` modulo two to the thirty-second.
pub open spec fn spec_wrap_add_u32(v: u32, d: u32) -> u32 {
    ((v + d) % 0x1_0000_0000) as u32
}

/// `t + 1`, saturating at the top of the 64-bit range.
pub open spec fn spec_sat_inc_u64(t: u64) -> u64 {
    if t == u64::MAX {
        t
    } else {
        (t + 1) as u64
    }
}

/// Every actor with its initiative forgotten.
pub open spec fn spec_clear_initiative(actors: Seq<ActorView>) -> Seq<ActorView> {
    actors.map_values(|a: ActorView| ActorView { initiative: None, ..a })
}

/// The initiative value an actor sorts by: its recorded roll, or zero.
pub open spec fn spec_initiative_value(a: ActorView) -> i32 {
    match a.initiative {
        Some(r) => r,
        None => 0,
    }
}

/// `entry` inserted into `order` before the first element whose value is
/// strictly smaller: descending order, later entries after equal ones.
pub open spec fn spec_rank_insert(order: Seq<(ActorId, i32)>, entry: (ActorId, i32)) -> Seq<
    (ActorId, i32),
>
    decreases order.len(),
{
    if order.len() == 0 {
        seq![entry]
    } else if order.first().1 >= entry.1 {
        seq![order.first()] + spec_rank_insert(order.drop_first(), entry)
    } else {
        seq![entry] + order
    }
}

/// All actors ranked by descending initiative value, ties keeping state
/// order: a stable insertion sort over the actor list.
pub open spec fn spec_rank_all(actors: Seq<ActorView>) -> Seq<(ActorId, i32)>
    decreases actors.len(),
{
    if actors.len() == 0 {
        Seq::empty()
    } else {
        spec_rank_insert(
            spec_rank_all(actors.drop_last()),
            (actors.last().id, spec_initiative_value(actors.last())),
        )
    }
}

/// The full initiative order recomputed from the actors: identifiers by
/// descending initiative value, ties broken by state order.
pub open spec fn spec_initiative_order(actors: Seq<ActorView>) -> Seq<ActorId> {
    spec_rank_all(actors).map_values(|p: (ActorId, i32)| p.0)
}

/// What applying `t` to `s` yields: the edited state, or the exact error
/// when `t` references a missing actor, advances an empty initiative
/// order, or spends an already-spent action slot.  This is a function of
/// its two arguments alone.
pub open spec fn spec_apply(t: Transition, s: StateView) -> Result<StateView, SimError> {
    match t {
        Transition::Root => Ok(s),
        Transition::BeginCombat => Ok(StateView { current_turn_index: Some(0), ..s }),
        Transition::EndCombat => Ok(
            StateView {
                turn: 0,
                current_turn_index: None,
                initiative_order: Seq::empty(),
                actors: spec_clear_initiative(s.actors),
                ..s
            },
        ),
        Transition::InitiativeRoll { actor, roll } => match spec_find_actor(s.actors, actor) {
            Some(i) => {
                let actors = s.actors.update(
                    i,
                    ActorView { initiative: Some(roll), ..s.actors[i] },
                );
                Ok(StateView { actors, initiative_order: spec_initiative_order(actors), ..s })
            },
            None => Err(SimError::MissingActor(actor)),
        },
        Transition::BeginTurn { actor } => match spec_find_actor(s.actors, actor) {
            Some(i) => Ok(
                StateView {
                    actors: s.actors.update(
                        i,
                        ActorView { action_economy: spec_action_economy_reset(), ..s.actors[i] },
                    ),
                    ..s
                },
            ),
            None => Err(SimError::MissingActor(actor)),
        },
        Transition::EndTurn { actor } => match spec_find_actor(s.actors, actor) {
            Some(_) => Ok(s),
            None => Err(SimError::MissingActor(actor)),
        },
        Transition::AdvanceInitiative => match s.current_turn_index {
            Some(i) => {
                if s.initiative_order.len() == 0 {
                    Err(SimError::EmptyInitiativeOrder)
                } else {
                    let next = (i as int + 1) % (s.initiative_order.len() as int);
                    let turn = if next == 0 {
                        spec_sat_inc_u64(s.turn)
                    } else {
                        s.turn
                    };
                    Ok(StateView { turn, current_turn_index: Some(next as usize), ..s })
                }
            },
            None => Ok(StateView { current_turn_index: Some(0usize), ..s }),
        },
        Transition::HealthModification { target, delta } => match spec_find_actor(
            s.actors,
            target,
        ) {
            Some(i) => Ok(
                StateView {
                    actors: s.actors.update(
                        i,
                        ActorView {
                            health: spec_sat_add_i32(s.actors[i].health, delta),
                            ..s.actors[i]
                        },
                    ),
                    ..s
                },
            ),
            None => Err(SimError::MissingActor(target)),
        },
        Transition::StatModification { target, stat, delta } => match spec_find_actor(
            s.actors,
            target,
        ) {
            Some(i) => Ok(
                StateView {
                    actors: s.actors.update(
                        i,
                        ActorView {
                            stats: s.actors[i].stats.spec_set(
                                stat,
                                spec_wrap_add_u32(
                                    s.actors[i].stats.spec_get(stat),
                                    spec_u32_of_i32(delta),
                                ),
                            ),
                            ..s.actors[i]
                        },
                    ),
                    ..s
                },
            ),
            None => Err(SimError::MissingActor(target)),
        },
        Transition::ActionEconomyUsed { target, action_type } => match spec_find_actor(
            s.actors,
            target,
        ) {
            Some(i) => {
                if spec_can_take_action(s.actors[i].action_economy, action_type) {
                    Ok(
                        StateView {
                            actors: s.actors.update(
                                i,
                                ActorView {
                                    action_economy: spec_use_action(
                                        s.actors[i].action_economy,
                                        action_type,
                                    ),
                                    ..s.actors[i]
                                },
                            ),
                            ..s
                        },
                    )
                } else {
                    Err(SimError::ActionAlreadyUsed(action_type))
                }
            },
            None => Err(SimError::MissingActor(target)),
        },
    }
}

impl Transition {
    /// The kind tag of this transition.
    pub fn transition_type(&self) -> (r: TransitionType)
        ensures
            r == spec_transition_type(*self),
    {
        match self {
            Transition::Root => TransitionType::Root,
            Transition::BeginCombat => TransitionType::BeginCombat,
            Transition::EndCombat => TransitionType::EndCombat,
            Transition::InitiativeRoll { .. } => TransitionType::InitiativeRoll,
            Transition::BeginTurn { .. } => TransitionType::BeginTurn,
            Transition::EndTurn { .. } => TransitionType::EndTurn,
            Transition::AdvanceInitiative => TransitionType::AdvanceInitiative,
            Transition::HealthModification { .. } => TransitionType::HealthModification,
            Transition::StatModification { .. } => TransitionType::StatModification,
            Transition::ActionEconomyUsed { .. } => TransitionType::ActionEconomyUsed,
        }
    }

    /// A glyph for log displays.
    pub fn emoji(&self) -> &'static str {
        match self {
            Transition::Root => "root",
            Transition::ActionEconomyUsed { .. } => "\u{2694}\u{FE0F}",
            Transition::BeginCombat => "\u{1F3AC}",
            Transition::EndCombat => "\u{1F3C1}",
            Transition::InitiativeRoll { .. } => "\u{1F3B2}",
            Transition::BeginTurn { .. } => "\u{25B6}\u{FE0F}",
            Transition::EndTurn { .. } => "\u{23F8}\u{FE0F}",
            Transition::AdvanceInitiative => "\u{27A1}\u{FE0F}",
            Transition::HealthModification { delta, .. } => {
                if *delta >= 0 {
                    "\u{1F49A}"
                } else {
                    "\u{1F494}"
                }
            },
            Transition::StatModification { delta, .. } => {
                if *delta >= 0 {
                    "\u{1F4C8}"
                } else {
                    "\u{1F4C9}"
                }
            },
        }
    }

    /// Whether log displays should skip this transition.
    pub fn is_quiet(&self) -> (r: bool)
        ensures
            r == (self is ActionEconomyUsed || self is AdvanceInitiative),
    {
        match self {
            Transition::ActionEconomyUsed { .. } => true,
            Transition::AdvanceInitiative => true,
            _ => false,
        }
    }

    /// Apply this transition to `state`.  On success the state becomes
    /// exactly what [`spec_apply`] says; on failure the state is
    /// untouched and the error is exactly the one [`spec_apply`] names.
    pub fn apply(&self, state: &mut State) -> (r: Result<(), SimError>)
        ensures
            match r {
                Ok(()) => spec_apply(*self, old(state)@) == Ok::<StateView, SimError>(
                    final(state)@,
                ),
                Err(e) => spec_apply(*self, old(state)@) == Err::<StateView, SimError>(e)
                    && final(state)@ == old(state)@,
            },
    {
        match *self {
            Transition::Root => Ok(()),
            Transition::BeginCombat => {
                state.current_turn_index = Some(0);
                Ok(())
            },
            Transition::EndCombat => {
                state.turn = 0;
                state.current_turn_index = None;
                state.initiative_order = Vec::new();
                clear_initiative(&mut state.actors);
                proof {
                    assert(state@.initiative_order =~= Seq::<ActorId>::empty());
                }
                Ok(())
            },
            Transition::InitiativeRoll { actor, roll } => apply_initiative_roll(
                state,
                actor,
                roll,
            ),
            Transition::BeginTurn { actor } => apply_begin_turn(state, actor),
            Transition::EndTurn { actor } => {
                match state.find_actor_index(actor) {
                    Some(_) => Ok(()),
                    None => Err(SimError::MissingActor(actor)),
                }
            },
            Transition::AdvanceInitiative => {
                match state.current_turn_index {
                    Some(current_index) => {
                        let len: usize = state.initiative_order.len();
                        if len == 0 {
                            return Err(SimError::EmptyInitiativeOrder);
                        }
                        let reduced: usize = current_index % len;
                        let next: usize = if reduced + 1 == len {
                            0
                        } else {
                            reduced + 1
                        };
                        proof {
                            lemma_inc_mod(current_index as int, len as int);
                        }
                        if next == 0 {
                            if state.turn < u64::MAX {
                                state.turn = state.turn + 1;
                            }
                        }
                        state.current_turn_index = Some(next);
                        Ok(())
                    },
                    None => {
                        state.current_turn_index = Some(0);
                        Ok(())
                    },
                }
            },
            Transition::HealthModification { target, delta } => apply_health_modification(
                state,
                target,
                delta,
            ),
            Transition::StatModification { target, stat, delta } => apply_stat_modification(
                state,
                target,
                stat,
                delta,
            ),
            Transition::ActionEconomyUsed { target, action_type } => apply_action_economy_used(
                state,
                target,
                action_type,
            ),
        }
    }
}

/// The [`Transition::InitiativeRoll`] edit: record the roll and rebuild
/// the initiative order.
fn apply_initiative_roll(state: &mut State, actor: ActorId, roll: i32) -> (r: Result<(), SimError>)
    ensures
        match r {
            Ok(()) => spec_apply(Transition::InitiativeRoll { actor, roll }, old(state)@)
                == Ok::<StateView, SimError>(final(state)@),
            Err(e) => spec_apply(Transition::InitiativeRoll { actor, roll }, old(state)@)
                == Err::<StateView, SimError>(e) && final(state)@ == old(state)@,
        },
{
    match state.find_actor_index(actor) {
        Some(i) => {
            let mut changed = state.actors[i].clone();
            changed.initiative = Some(roll);
            let ghost before = state@.actors;
            state.actors.set(i, changed);
            proof {
                assert(state@.actors =~= before.update(
                    i as int,
                    ActorView { initiative: Some(roll), ..before[i as int] },
                ));
            }
            let order = compute_initiative_order(&state.actors);
            state.initiative_order = order;
            Ok(())
        },
        None => Err(SimError::MissingActor(actor)),
    }
}

/// The [`Transition::BeginTurn`] edit: give the actor a fresh action
/// economy.
fn apply_begin_turn(state: &mut State, actor: ActorId) -> (r: Result<(), SimError>)
    ensures
        match r {
            Ok(()) => spec_apply(Transition::BeginTurn { actor }, old(state)@)
                == Ok::<StateView, SimError>(final(state)@),
            Err(e) => spec_apply(Transition::BeginTurn { actor }, old(state)@)
                == Err::<StateView, SimError>(e) && final(state)@ == old(state)@,
        },
{
    match state.find_actor_index(actor) {
        Some(i) => {
            let mut changed = state.actors[i].clone();
            changed.action_economy.reset();
            let ghost before = state@.actors;
            state.actors.set(i, changed);
            proof {
                assert(state@.actors =~= before.update(
                    i as int,
                    ActorView { action_economy: spec_action_economy_reset(), ..before[i as int] },
                ));
            }
            Ok(())
        },
        None => Err(SimError::MissingActor(actor)),
    }
}

/// The [`Transition::HealthModification`] edit: shift the target's
/// health, saturating at the 32-bit bounds.
fn apply_health_modification(state: &mut State, target: ActorId, delta: i32) -> (r: Result<
    (),
    SimError,
>)
    ensures
        match r {
            Ok(()) => spec_apply(Transition::HealthModification { target, delta }, old(state)@)
                == Ok::<StateView, SimError>(final(state)@),
            Err(e) => spec_apply(Transition::HealthModification { target, delta }, old(state)@)
                == Err::<StateView, SimError>(e) && final(state)@ == old(state)@,
        },
{
    match state.find_actor_index(target) {
        Some(i) => {
            let mut changed = state.actors[i].clone();
            let wide: i64 = changed.health as i64 + delta as i64;
            let clamped: i32 = if wide > i32::MAX as i64 {
                i32::MAX
            } else if wide < i32::MIN as i64 {
                i32::MIN
            } else {
                wide as i32
            };
            changed.health = clamped;
            let ghost before = state@.actors;
            state.actors.set(i, changed);
            proof {
                assert(state@.actors =~= before.update(
                    i as int,
                    ActorView {
                        health: spec_sat_add_i32(before[i as int].health, delta),
                        ..before[i as int]
                    },
                ));
            }
            Ok(())
        },
        None => Err(SimError::MissingActor(target)),
    }
}

/// The [`Transition::StatModification`] edit: shift the target's stat,
/// wrapping modulo two to the thirty-second.
fn apply_stat_modification(state: &mut State, target: ActorId, stat: Stat, delta: i32) -> (r:
    Result<(), SimError>)
    ensures
        match r {
            Ok(()) => spec_apply(
                Transition::StatModification { target, stat, delta },
                old(state)@,
            ) == Ok::<StateView, SimError>(final(state)@),
            Err(e) => spec_apply(Transition::StatModification { target, stat, delta }, old(state)@)
                == Err::<StateView, SimError>(e) && final(state)@ == old(state)@,
        },
{
    match state.find_actor_index(target) {
        Some(i) => {
            let mut changed = state.actors[i].clone();
            let unsigned: u32 = if delta >= 0 {
                delta as u32
            } else {
                let magnitude: i64 = -(delta as i64);
                (0x1_0000_0000i64 - magnitude) as u32
            };
            proof {
                assert(unsigned == spec_u32_of_i32(delta));
            }
            let current: u32 = changed.stats.get(stat);
            let wide: u64 = current as u64 + unsigned as u64;
            let wrapped: u32 = (wide % 0x1_0000_0000u64) as u32;
            proof {
                assert(wrapped == spec_wrap_add_u32(current, unsigned));
            }
            changed.stats.set(stat, wrapped);
            let ghost before = state@.actors;
            state.actors.set(i, changed);
            proof {
                assert(state@.actors =~= before.update(
                    i as int,
                    ActorView {
                        stats: before[i as int].stats.spec_set(
                            stat,
                            spec_wrap_add_u32(
                                before[i as int].stats.spec_get(stat),
                                spec_u32_of_i32(delta),
                            ),
                        ),
                        ..before[i as int]
                    },
                ));
            }
            Ok(())
        },
        None => Err(SimError::MissingActor(target)),
    }
}

/// The [`Transition::ActionEconomyUsed`] edit: spend the target's slot,
/// failing when it was already spent.
fn apply_action_economy_used(
    state: &mut State,
    target: ActorId,
    action_type: ActionEconomyUsage,
) -> (r: Result<(), SimError>)
    ensures
        match r {
            Ok(()) => spec_apply(
                Transition::ActionEconomyUsed { target, action_type },
                old(state)@,
            ) == Ok::<StateView, SimError>(final(state)@),
            Err(e) => spec_apply(Transition::ActionEconomyUsed { target, action_type }, old(state)@)
                == Err::<StateView, SimError>(e) && final(state)@ == old(state)@,
        },
{
    match state.find_actor_index(target) {
        Some(i) => {
            let mut changed = state.actors[i].clone();
            match changed.action_economy.use_action(action_type) {
                Ok(()) => {
                    let ghost before = state@.actors;
                    state.actors.set(i, changed);
                    proof {
                        assert(state@.actors =~= before.update(
                            i as int,
                            ActorView {
                                action_economy: spec_use_action(
                                    before[i as int].action_economy,
                                    action_type,
                                ),
                                ..before[i as int]
                            },
                        ));
                    }
                    Ok(())
                },
                Err(_) => Err(SimError::ActionAlreadyUsed(action_type)),
            }
        },
        None => Err(SimError::MissingActor(target)),
    }
}

/// Forget every actor's initiative.
fn clear_initiative(actors: &mut Vec<crate::actor::Actor>)
    ensures
        final(actors)@.map_values(|a: crate::actor::Actor| a@) =~= spec_clear_initiative(
            old(actors)@.map_values(|a: crate::actor::Actor| a@),
        ),
{
    let ghost om = old(actors)@.map_values(|a: crate::actor::Actor| a@);
    let n: usize = actors.len();
    let mut i: usize = 0;
    while i < n
        invariant
            n == actors.len(),
            i <= n,
            om == old(actors)@.map_values(|a: crate::actor::Actor| a@),
            om.len() == n,
            forall|k: int| i <= k < n ==> (#[trigger] actors@[k])@ == om[k],
            forall|k: int|
                0 <= k < i ==> (#[trigger] actors@[k])@ == (ActorView {
                    initiative: None,
                    ..om[k]
                }),
        decreases n - i,
    {
        let mut changed = actors[i].clone();
        changed.initiative = None;
        actors.set(i, changed);
        i = i + 1;
    }
    proof {
        assert forall|k: int| 0 <= k < n implies #[trigger] spec_clear_initiative(om)[k]
            == actors@[k]@ by {
            assert(spec_clear_initiative(om)[k] == (ActorView { initiative: None, ..om[k] }));
        }
        assert(actors@.map_values(|a: crate::actor::Actor| a@) =~= spec_clear_initiative(om));
    }
}

/// Recompute the initiative order from the actors: a stable insertion
/// sort by descending initiative value, then the identifiers in that
/// order.
fn compute_initiative_order(actors: &Vec<crate::actor::Actor>) -> (r: Vec<ActorId>)
    ensures
        r@ == spec_initiative_order(actors@.map_values(|a: crate::actor::Actor| a@)),
{
    let ghost views = actors@.map_values(|a: crate::actor::Actor| a@);
    let mut ranks: Vec<(ActorId, i32)> = Vec::new();
    let n: usize = actors.len();
    let mut i: usize = 0;
    while i < n
        invariant
            n == actors.len(),
            views == actors@.map_values(|a: crate::actor::Actor| a@),
            i <= n,
            ranks@ == spec_rank_all(views.take(i as int)),
        decreases n - i,
    {
        let initiative: i32 = match actors[i].initiative {
            Some(r) => r,
            None => 0,
        };
        let entry: (ActorId, i32) = (actors[i].id, initiative);
        proof {
            assert(views[i as int] == actors@[i as int]@);
            assert(entry == (views[i as int].id, spec_initiative_value(views[i as int])));
            assert(views.take(i + 1).drop_last() =~= views.take(i as int));
            assert(views.take(i + 1).last() == views[i as int]);
        }
        let m: usize = ranks.len();
        let mut j: usize = 0;
        while j < m && ranks[j].1 >= entry.1
            invariant
                m == ranks.len(),
                j <= m,
                forall|k: int| 0 <= k < j ==> (#[trigger] ranks@[k]).1 >= entry.1,
            decreases m - j,
        {
            j = j + 1;
        }
        proof {
            lemma_rank_insert_at(ranks@, entry, j as int);
        }
        ranks.insert(j, entry);
        i = i + 1;
    }
    proof {
        assert(views.take(n as int) =~= views);
    }

    let mut order: Vec<ActorId> = Vec::new();
    let total: usize = ranks.len();
    let mut k: usize = 0;
    while k < total
        invariant
            total == ranks.len(),
            k <= total,
            ranks@ == spec_rank_all(views),
            order@ =~= ranks@.map_values(|p: (ActorId, i32)| p.0).take(k as int),
        decreases total - k,
    {
        order.push(ranks[k].0);
        proof {
            assert(ranks@.map_values(|p: (ActorId, i32)| p.0).take(k + 1) =~= ranks@.map_values(
                |p: (ActorId, i32)| p.0,
            ).take(k as int).push(ranks@[k as int].0));
        }
        k = k + 1;
    }
    proof {
        assert(order@ =~= ranks@.map_values(|p: (ActorId, i32)| p.0));
    }
    order
}

/// Inserting at the first position whose value is strictly smaller is
/// exactly what [`spec_rank_insert`] does.
proof fn lemma_rank_insert_at(order: Seq<(ActorId, i32)>, entry: (ActorId, i32), j: int)
    requires
        0 <= j <= order.len(),
        forall|k: int| 0 <= k < j ==> (#[trigger] order[k]).1 >= entry.1,
        j < order.len() ==> order[j].1 < entry.1,
    ensures
        spec_rank_insert(order, entry) =~= order.insert(j, entry),
    decreases order.len(),
{
    if order.len() == 0 {
        assert(spec_rank_insert(order, entry) =~= order.insert(0, entry));
    } else if j == 0 {
        assert(order.first().1 < entry.1);
        assert(spec_rank_insert(order, entry) =~= seq![entry] + order);
        assert(order.insert(0, entry) =~= seq![entry] + order);
    } else {
        assert(order[0].1 >= entry.1);
        assert(forall|k: int| 0 <= k < j - 1 ==> (#[trigger] order.drop_first()[k]) == order[k + 1]);
        lemma_rank_insert_at(order.drop_first(), entry, j - 1);
        assert(spec_rank_insert(order, entry) == seq![order.first()] + spec_rank_insert(
            order.drop_first(),
            entry,
        ));
        assert(seq![order.first()] + order.drop_first().insert(j - 1, entry) =~= order.insert(
            j,
            entry,
        ));
    }
}

/// Stepping an index forward modulo a positive length.
proof fn lemma_inc_mod(i: int, len: int)
    requires
        len > 0,
        i >= 0,
    ensures
        (i + 1) % len == if i % len + 1 == len {
            0int
        } else {
            i % len + 1
        },
{
    let r = i % len;
    let q = i / len;
    vstd::arithmetic::div_mod::lemma_fundamental_div_mod(i, len);
    vstd::arithmetic::div_mod::lemma_mod_bound(i, len);
    if r + 1 == len {
        assert(i + 1 == (q + 1) * len) by (nonlinear_arith)
            requires
                i == q * len + r,
                r + 1 == len,
        ;
        vstd::arithmetic::div_mod::lemma_mod_multiples_basic(q + 1, len);
    } else {
        assert(i + 1 == q * len + (r + 1));
        vstd::arithmetic::div_mod::lemma_fundamental_div_mod_converse_mod(i + 1, len, q, r + 1);
    }
}


/// Applying any transition other than a stat modification preserves the
/// executor's state bounds: no such edit touches an actor's level,
/// armor class, maximum health, ability scores, or inventory.
pub proof fn lemma_apply_preserves_wf(t: Transition, s: StateView, s2: StateView)
    requires
        spec_apply(t, s) == Ok::<StateView, SimError>(s2),
        !(t is StatModification),
        crate::state::state_wf(s),
    ensures
        crate::state::state_wf(s2),
{
    assert(s2.items == s.items);
    match t {
        Transition::Root => {},
        Transition::BeginCombat => {},
        Transition::EndCombat => {
            assert forall|i: int| 0 <= i < s2.actors.len() implies crate::actor::actor_wf(
                #[trigger] s2.actors[i],
            ) by {
                assert(s2.actors[i] == (ActorView { initiative: None, ..s.actors[i] }));
                assert(crate::actor::actor_wf(s.actors[i]));
            }
            assert forall|i: int| 0 <= i < s2.actors.len() implies (#[trigger] s2.actors[i]).id
                == s.actors[i].id by {
                assert(s2.actors[i] == (ActorView { initiative: None, ..s.actors[i] }));
            }
        },
        Transition::InitiativeRoll { actor, roll } => {
            let j = crate::state::spec_find_actor(s.actors, actor).unwrap();
            lemma_find_actor_in_range(s.actors, actor);
            assert forall|i: int| 0 <= i < s2.actors.len() implies crate::actor::actor_wf(
                #[trigger] s2.actors[i],
            ) by {
                assert(crate::actor::actor_wf(s.actors[i]));
                if i == j {
                    assert(s2.actors[i] == (ActorView { initiative: Some(roll), ..s.actors[i] }));
                }
            }
            assert forall|i: int| 0 <= i < s2.actors.len() implies (#[trigger] s2.actors[i]).id
                == s.actors[i].id by {}
        },
        Transition::BeginTurn { actor } => {
            let j = crate::state::spec_find_actor(s.actors, actor).unwrap();
            lemma_find_actor_in_range(s.actors, actor);
            assert forall|i: int| 0 <= i < s2.actors.len() implies crate::actor::actor_wf(
                #[trigger] s2.actors[i],
            ) by {
                assert(crate::actor::actor_wf(s.actors[i]));
            }
            assert forall|i: int| 0 <= i < s2.actors.len() implies (#[trigger] s2.actors[i]).id
                == s.actors[i].id by {}
        },
        Transition::EndTurn { .. } => {},
        Transition::AdvanceInitiative => {},
        Transition::HealthModification { target, delta } => {
            let j = crate::state::spec_find_actor(s.actors, target).unwrap();
            lemma_find_actor_in_range(s.actors, target);
            assert forall|i: int| 0 <= i < s2.actors.len() implies crate::actor::actor_wf(
                #[trigger] s2.actors[i],
            ) by {
                assert(crate::actor::actor_wf(s.actors[i]));
            }
            assert forall|i: int| 0 <= i < s2.actors.len() implies (#[trigger] s2.actors[i]).id
                == s.actors[i].id by {}
        },
        Transition::StatModification { .. } => {},
        Transition::ActionEconomyUsed { target, .. } => {
            let j = crate::state::spec_find_actor(s.actors, target).unwrap();
            lemma_find_actor_in_range(s.actors, target);
            assert forall|i: int| 0 <= i < s2.actors.len() implies crate::actor::actor_wf(
                #[trigger] s2.actors[i],
            ) by {
                assert(crate::actor::actor_wf(s.actors[i]));
            }
            assert forall|i: int| 0 <= i < s2.actors.len() implies (#[trigger] s2.actors[i]).id
                == s.actors[i].id by {}
        },
    }
}

/// A found actor index lies inside the actor list.
pub proof fn lemma_find_actor_in_range(actors: Seq<ActorView>, id: ActorId)
    requires
        crate::state::spec_find_actor(actors, id) is Some,
    ensures
        0 <= crate::state::spec_find_actor(actors, id).unwrap() < actors.len(),
    decreases actors.len(),
{
    if actors.len() > 0 && actors.first().id != id {
        lemma_find_actor_in_range(actors.drop_first(), id);
    }
}

} // verus!
