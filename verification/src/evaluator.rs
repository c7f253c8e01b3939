//! Turning a chosen action into the transitions it causes: roll the
//! attack, compare against the target's armor class, roll damage on a
//! hit, and spend the action-economy slot.

use vstd::prelude::*;

use crate::actions::{spec_can_take_action, Action, ActionTaken, AttackAction};
use crate::actor::{
    spec_attack_modifier, spec_is_dead, spec_is_unconscious, ActorId, ActorView,
};
use crate::dice::{abs_i32, result_wf, spec_meets_dc, sum_faces, Advantage, RollPlan, RollResult, RollSettings};
use crate::error::SimError;
use crate::items::{spec_inventory_find, ItemId, ItemType, Weapon};
use crate::policy::action_sane;
use crate::roller::Roller;
use crate::state::{spec_find_actor, state_wf, State, StateView};
use crate::stats::{modifier_of, Stat};
use crate::transition::Transition;

verus! {

/// The actor an action is aimed at, if any.
pub open spec fn spec_action_target(a: Action) -> Option<ActorId> {
    match a {
        Action::UnarmedStrike(strike) => Some(strike.target),
        Action::Attack(attack) => Some(attack.target),
        Action::Help(help) => Some(help.target),
        _ => None,
    }
}

/// The outcome class an evaluation must take — success, or which error —
/// decided by the state and the chosen action alone, never by the dice:
/// the acting actor must exist; a downed actor or a spent slot is a
/// successful no-op; a strike needs its target, and an attack also needs
/// the named weapon in the actor's inventory; any other action kind is
/// unsupported.
pub open spec fn spec_eval_outcome(s: StateView, actor: ActorId, a: ActionTaken) -> Result<
    (),
    SimError,
> {
    match spec_find_actor(s.actors, actor) {
        None => Err(SimError::MissingActor(actor)),
        Some(i) => {
            let acting = s.actors[i];
            if spec_is_unconscious(acting) || spec_is_dead(acting) {
                Ok(())
            } else if !spec_can_take_action(acting.action_economy, a.action_type) {
                Ok(())
            } else {
                match a.action {
                    Action::Wait => Ok(()),
                    Action::UnarmedStrike(strike) => match spec_find_actor(
                        s.actors,
                        strike.target,
                    ) {
                        Some(_) => Ok(()),
                        None => Err(SimError::MissingActor(strike.target)),
                    },
                    Action::Attack(attack) => match spec_find_actor(s.actors, attack.target) {
                        None => Err(SimError::MissingActor(attack.target)),
                        Some(_) => match spec_inventory_find(acting.inventory, attack.weapon_used) {
                            None => Err(SimError::MissingItem(attack.weapon_used)),
                            Some(j) => match acting.inventory[j].item.item_type {
                                ItemType::Weapon(_) => Ok(()),
                                _ => Err(SimError::NotAWeapon(attack.weapon_used)),
                            },
                        },
                    },
                    _ => Err(SimError::UnsupportedAction),
                }
            }
        },
    }
}

/// Whether a successful evaluation produces nothing: the actor is down,
/// or the slot was already spent.  (Meaningful when the actor exists.)
pub open spec fn spec_eval_empty(s: StateView, actor: ActorId, a: ActionTaken) -> bool {
    let acting = s.actors[spec_find_actor(s.actors, actor).unwrap()];
    ||| spec_is_unconscious(acting)
    ||| spec_is_dead(acting)
    ||| !spec_can_take_action(acting.action_economy, a.action_type)
}

/// Plain roll settings.
pub open spec fn spec_default_settings() -> RollSettings {
    RollSettings {
        advantage: Advantage::Normal,
        minimum_die_value: None,
        maximum_die_value: None,
        reroll_dice_below: None,
    }
}

/// The weapon an attack action swings (meaningful when the evaluation
/// outcome is success).
pub open spec fn spec_attack_weapon(acting: ActorView, attack: AttackAction) -> Weapon {
    match spec_inventory_find(acting.inventory, attack.weapon_used) {
        Some(j) => match acting.inventory[j].item.item_type {
            ItemType::Weapon(w) => w,
            _ => Weapon {
                weapon_type: crate::items::WeaponType::Club,
                attack_bonus: 0,
                damage: RollPlan {
                    num_dice: 0,
                    die_size: 1,
                    modifier: 0,
                    settings: spec_default_settings(),
                },
                critical_damage: None,
                range: None,
            },
        },
        None => Weapon {
            weapon_type: crate::items::WeaponType::Club,
            attack_bonus: 0,
            damage: RollPlan {
                num_dice: 0,
                die_size: 1,
                modifier: 0,
                settings: spec_default_settings(),
            },
            critical_damage: None,
            range: None,
        },
    }
}

/// The twenty-sided attack roll a strike or attack makes.
pub open spec fn spec_eval_attack_plan(acting: ActorView, a: Action) -> RollPlan {
    match a {
        Action::UnarmedStrike(strike) => RollPlan {
            num_dice: 1,
            die_size: 20,
            modifier: modifier_of(acting.stats.spec_get(Stat::Strength)) as i32,
            settings: strike.attack_roll_settings,
        },
        Action::Attack(attack) => RollPlan {
            num_dice: 1,
            die_size: 20,
            modifier: spec_attack_modifier(acting, spec_attack_weapon(acting, attack)) as i32,
            settings: attack.attack_roll_settings,
        },
        _ => RollPlan { num_dice: 0, die_size: 1, modifier: 0, settings: spec_default_settings() },
    }
}

/// The damage roll a hit deals: the critical plan on a critical success,
/// the plain plan otherwise.
pub open spec fn spec_eval_damage_plan(acting: ActorView, a: Action, crit: bool) -> RollPlan {
    match a {
        Action::UnarmedStrike(_) => RollPlan {
            num_dice: if crit {
                2
            } else {
                1
            },
            die_size: 4,
            modifier: modifier_of(acting.stats.spec_get(Stat::Strength)) as i32,
            settings: spec_default_settings(),
        },
        Action::Attack(attack) => {
            let weapon = spec_attack_weapon(acting, attack);
            if crit {
                match weapon.critical_damage {
                    Some(plan) => plan,
                    None => weapon.damage,
                }
            } else {
                weapon.damage
            }
        },
        _ => RollPlan { num_dice: 0, die_size: 1, modifier: 0, settings: spec_default_settings() },
    }
}

/// The armor class of the action's target (meaningful when the target
/// exists).
pub open spec fn spec_target_ac(s: StateView, a: Action) -> u32 {
    match spec_action_target(a) {
        Some(id) => match spec_find_actor(s.actors, id) {
            Some(i) => s.actors[i].armor_class,
            None => 0,
        },
        None => 0,
    }
}

/// How a strike or attack resolved: some attack roll of the right plan
/// decided it — damage follows exactly when the roll meets the target's
/// armor class, and the damage is a roll of the right plan (the critical
/// plan on a critical success), negated.
pub open spec fn strike_resolved(
    s: StateView,
    acting: ActorView,
    a: ActionTaken,
    ts: Seq<Transition>,
) -> bool {
    exists|ar: RollResult|
        #![trigger result_wf(spec_eval_attack_plan(acting, a.action), ar)]
        {
            &&& result_wf(spec_eval_attack_plan(acting, a.action), ar)
            &&& (ts.len() == 2 <==> spec_meets_dc(ar, spec_target_ac(s, a.action) as i32))
            &&& (ts.len() == 2 ==> exists|dr: RollResult|
                #![trigger result_wf(
                    spec_eval_damage_plan(acting, a.action, ar.critical is Success),
                    dr,
                )]
                {
                    &&& result_wf(
                        spec_eval_damage_plan(acting, a.action, ar.critical is Success),
                        dr,
                    )
                    &&& ts[1] == (Transition::HealthModification {
                        target: spec_action_target(a.action).unwrap(),
                        delta: (-(dr.total as int)) as i32,
                    })
                })
        }
}

/// The shape of an evaluation's output: either nothing (the actor was
/// down or the slot already spent), or the action-economy spend followed
/// by at most one health modification aimed at the action's target.  No
/// other transition kind is ever produced.
pub open spec fn eval_output_ok(ts: Seq<Transition>, actor: ActorId, a: ActionTaken) -> bool {
    ||| ts.len() == 0
    ||| {
        &&& 1 <= ts.len() <= 2
        &&& ts[0] == (Transition::ActionEconomyUsed { target: actor, action_type: a.action_type })
        &&& (ts.len() == 2 ==> match ts[1] {
            Transition::HealthModification { target, delta } => Some(target) == spec_action_target(
                a.action,
            ),
            _ => false,
        })
    }
}

/// Evaluates chosen actions against the current state.
pub struct ActionEvaluator;

impl ActionEvaluator {
    /// Evaluate `action` for `actor`: when the actor is up and the slot
    /// is free, spend it and resolve the attack (if any) into a damage
    /// transition.  Success and each error are decided by the state and
    /// the action alone ([`spec_eval_outcome`]); only which faces the
    /// dice showed is left open, and the damage transition appears
    /// exactly when the attack roll met the target's armor class
    /// ([`strike_resolved`]).  The returned transitions have not been
    /// applied yet.
    pub fn evaluate_action(
        &self,
        actor: ActorId,
        action: &ActionTaken,
        state: &State,
        rng: &mut Roller,
    ) -> (r: Result<Vec<Transition>, SimError>)
        requires
            state_wf(state@),
            action_sane(action.action),
        ensures
            r is Ok <==> spec_eval_outcome(state@, actor, *action) is Ok,
            match r {
                Ok(ts) => {
                    &&& eval_output_ok(ts@, actor, *action)
                    &&& (ts@.len() == 0 <==> spec_eval_empty(state@, actor, *action))
                    &&& (action.action is Wait && ts@.len() != 0 ==> ts@.len() == 1)
                    &&& ((action.action is UnarmedStrike || action.action is Attack) && ts@.len()
                        != 0 ==> strike_resolved(
                        state@,
                        state@.actors[spec_find_actor(state@.actors, actor).unwrap()],
                        *action,
                        ts@,
                    ))
                },
                Err(e) => spec_eval_outcome(state@, actor, *action) == Err::<(), SimError>(e),
            },
    {
        let actor_index: usize = match state.find_actor_index(actor) {
            Some(i) => i,
            None => {
                return Err(SimError::MissingActor(actor));
            },
        };
        let acting = &state.actors[actor_index];
        proof {
            assert(acting@ == state@.actors[actor_index as int]);
            assert(crate::actor::actor_wf(state@.actors[actor_index as int]));
        }

        // a downed actor takes no turn, as if the whole action were skipped
        if acting.is_unconscious() || acting.is_dead() {
            return Ok(Vec::new());
        }

        if !acting.action_economy.can_take_action(action.action_type) {
            return Ok(Vec::new());
        }

        let mut out: Vec<Transition> = Vec::new();
        out.push(Transition::ActionEconomyUsed { target: actor, action_type: action.action_type });

        match &action.action {
            Action::Wait => Ok(out),
            Action::UnarmedStrike(strike) => {
                let target_index: usize = match state.find_actor_index(strike.target) {
                    Some(i) => i,
                    None => {
                        return Err(SimError::MissingActor(strike.target));
                    },
                };
                let target_ac: u32 = state.actors[target_index].armor_class;
                proof {
                    assert(state@.actors[target_index as int] == state.actors@[target_index as int]@);
                    assert(spec_target_ac(state@, action.action) == target_ac);
                }

                let attack_roll = acting.plan_unarmed_strike_roll(strike.attack_roll_settings);
                proof {
                    lemma_sane_d20_plan_wf(attack_roll);
                    assert(attack_roll == spec_eval_attack_plan(acting@, action.action));
                }
                let attack_result = attack_roll.roll(rng);
                let attack_hits: bool = attack_result.meets_dc(target_ac as i32);
                let attack_crits: bool = attack_result.is_critical_success();

                if attack_hits {
                    let damage_roll = if attack_crits {
                        acting.plan_unarmed_strike_crit_damage()
                    } else {
                        acting.plan_unarmed_strike_damage()
                    };
                    proof {
                        let strength = acting@.stats.spec_get(crate::stats::Stat::Strength);
                        assert(strength <= 1_000_000);
                        assert(-5 <= crate::stats::modifier_of(strength) <= 499_995);
                        assert(abs_i32(damage_roll.modifier) <= 500_000);
                        assert(damage_roll.face_hi() == 4);
                        assert(damage_roll.wf());
                        assert(damage_roll == spec_eval_damage_plan(
                            acting@,
                            action.action,
                            attack_result.critical is Success,
                        ));
                    }
                    let damage_result = damage_roll.roll(rng);
                    proof {
                        crate::dice::lemma_sum_faces_nonneg(damage_result.individual_rolls@);
                    }
                    out.push(
                        Transition::HealthModification {
                            target: strike.target,
                            delta: -damage_result.total,
                        },
                    );
                    proof {
                        assert(result_wf(
                            spec_eval_damage_plan(
                                acting@,
                                action.action,
                                attack_result.critical is Success,
                            ),
                            damage_result,
                        ));
                        assert(strike_resolved(state@, acting@, *action, out@));
                    }
                } else {
                    proof {
                        assert(result_wf(
                            spec_eval_attack_plan(acting@, action.action),
                            attack_result,
                        ));
                        assert(strike_resolved(state@, acting@, *action, out@));
                    }
                }
                Ok(out)
            },
            Action::Attack(attack) => {
                let target_index: usize = match state.find_actor_index(attack.target) {
                    Some(i) => i,
                    None => {
                        return Err(SimError::MissingActor(attack.target));
                    },
                };
                let target_ac: u32 = state.actors[target_index].armor_class;
                proof {
                    assert(state@.actors[target_index as int] == state.actors@[target_index as int]@);
                    assert(spec_target_ac(state@, action.action) == target_ac);
                }

                let entry = match acting.inventory.get(attack.weapon_used) {
                    Some(entry) => entry,
                    None => {
                        return Err(SimError::MissingItem(attack.weapon_used));
                    },
                };
                let weapon = match &entry.item.item_type {
                    ItemType::Weapon(w) => w,
                    _ => {
                        return Err(SimError::NotAWeapon(attack.weapon_used));
                    },
                };
                proof {
                    let inv = state@.actors[actor_index as int].inventory;
                    let j = spec_inventory_find(inv, attack.weapon_used).unwrap();
                    assert(crate::actor::actor_wf(state@.actors[actor_index as int]));
                    assert(crate::items::item_wf(inv[j].item));
                    assert(entry@.item == inv[j].item);
                    assert(spec_attack_weapon(acting@, *attack) == *weapon);
                }

                let attack_roll = acting.plan_attack_roll(weapon, attack.attack_roll_settings);
                proof {
                    lemma_sane_d20_plan_wf(attack_roll);
                    assert(attack_roll == spec_eval_attack_plan(acting@, action.action));
                }
                let attack_result = attack_roll.roll(rng);
                let attack_hits: bool = attack_result.meets_dc(target_ac as i32);

                if attack_hits {
                    let attack_crits: bool = attack_result.is_critical_success();
                    let damage_roll: &RollPlan = if attack_crits {
                        match &weapon.critical_damage {
                            Some(crit) => crit,
                            None => &weapon.damage,
                        }
                    } else {
                        &weapon.damage
                    };
                    proof {
                        assert(*damage_roll == spec_eval_damage_plan(
                            acting@,
                            action.action,
                            attack_result.critical is Success,
                        ));
                    }
                    let damage_result = damage_roll.roll(rng);
                    proof {
                        crate::dice::lemma_sum_faces_nonneg(damage_result.individual_rolls@);
                    }
                    out.push(
                        Transition::HealthModification {
                            target: attack.target,
                            delta: -damage_result.total,
                        },
                    );
                    proof {
                        assert(result_wf(
                            spec_eval_damage_plan(
                                acting@,
                                action.action,
                                attack_result.critical is Success,
                            ),
                            damage_result,
                        ));
                        assert(strike_resolved(state@, acting@, *action, out@));
                    }
                } else {
                    proof {
                        assert(result_wf(
                            spec_eval_attack_plan(acting@, action.action),
                            attack_result,
                        ));
                        assert(strike_resolved(state@, acting@, *action, out@));
                    }
                }
                Ok(out)
            },
            _ => Err(SimError::UnsupportedAction),
        }
    }
}

/// A one-die twenty-sided plan with sane settings and a moderate
/// modifier is well-formed.
proof fn lemma_sane_d20_plan_wf(p: RollPlan)
    requires
        p.num_dice == 1,
        p.die_size == 20,
        crate::policy::settings_sane(p.settings),
        abs_i32(p.modifier) <= 2_000_000,
    ensures
        p.wf(),
{
}

} // verus!
