//! A stand-alone evaluator-and-writer for fan plans, driven through a fan
//! actuation service supplied by the caller.
//!
//! Every call made to fan actuation is recorded, with its arguments and
//! outcome, in a ghost log; each contract ties the calls it appends to real
//! calls of the caller's service (`fan_calls_made`, stated with
//! `call_ensures`), from the service as it was to the service as it is left.
use super::contract::{FanPlan, ThermalPolicySettings};
use super::evaluator::{evaluation, PreviousTarget, ThermalPolicyEvaluator};
use super::state::{
    changed_list, changed_targets, clean_writes, failures, lemma_first_failure_at,
    lemma_first_failure_none, outcome, recovered_core, result_view, targets_record, targets_run,
    fan_call_made, fan_calls_made, failure_in, lemma_fan_calls_push, ActuationCore, Effect, FanActuation, Run,
};
use crate::hardware_telemetry::contract::HardwareTelemetrySnapshot;
use std::collections::BTreeMap;
use vstd::prelude::*;

verus! {

broadcast use vstd::std_specs::btree::group_btree_axioms;

/// Returning to System Auto: restore all fans when a manual plan is active,
/// and forget what was applied.
pub open spec fn runtime_restore_run(core: ActuationCore, outcomes: Seq<Option<Seq<char>>>) -> Run {
    if core.manual_plan_active {
        match outcome(outcomes, 0) {
            Some(f) => Run {
                calls: seq![Effect::RestoreAll { failure: Some(f) }],
                core,
                result: Err(f),
            },
            None => Run {
                calls: seq![Effect::RestoreAll { failure: None }],
                core: recovered_core(),
                result: Ok(()),
            },
        }
    } else {
        Run { calls: Seq::empty(), core: recovered_core(), result: Ok(()) }
    }
}

/// Applying a plan (`None` is System Auto).
pub open spec fn runtime_apply_run(
    core: ActuationCore,
    plan: Option<Seq<super::contract::FanTarget>>,
    outcomes: Seq<Option<Seq<char>>>,
) -> Run {
    match plan {
        None => runtime_restore_run(core, outcomes),
        Some(targets) => targets_run(core, targets, outcomes),
    }
}

/// Evaluates snapshots and writes the resulting plans.
pub struct ThermalPolicyRuntime {
    evaluator: ThermalPolicyEvaluator,
    applied_targets: BTreeMap<usize, i32>,
    manual_plan_active: bool,
    effects: Ghost<Seq<Effect>>,
}

impl Default for ThermalPolicyRuntime {
    fn default() -> (runtime: Self)
        ensures
            runtime.history() == Map::<usize, PreviousTarget>::empty(),
            runtime.actuation() == recovered_core(),
            runtime.effects() == Seq::<Effect>::empty(),
    {
        ThermalPolicyRuntime {
            evaluator: ThermalPolicyEvaluator::default(),
            applied_targets: BTreeMap::new(),
            manual_plan_active: false,
            effects: Ghost(Seq::empty()),
        }
    }
}

impl ThermalPolicyRuntime {
    /// The evaluator's history.
    pub closed spec fn history(&self) -> Map<usize, PreviousTarget> {
        self.evaluator.history()
    }

    /// What has been written to the fans.
    pub closed spec fn actuation(&self) -> ActuationCore {
        ActuationCore {
            applied: self.applied_targets@,
            manual_plan_active: self.manual_plan_active,
            system_auto_confirmed: false,
        }
    }

    /// Every fan actuation call made so far, in order.
    pub closed spec fn effects(&self) -> Seq<Effect> {
        self.effects@
    }

    /// Targets are only recorded while a manual plan is active.
    pub open spec fn wf(&self) -> bool {
        !self.actuation().manual_plan_active ==> self.actuation().applied == Map::<usize, i32>::empty()
    }

    /// The calls appended since `earlier`.
    pub open spec fn effects_since(&self, earlier: Seq<Effect>) -> Seq<Effect> {
        self.effects().skip(earlier.len() as int)
    }

    /// Evaluates one snapshot and applies the plan.
    pub fn evaluate_and_apply<F: FanActuation>(
        &mut self,
        settings: &ThermalPolicySettings,
        snapshot: &HardwareTelemetrySnapshot,
        now_unix_ms: u64,
        fan_actuation: &mut F,
    ) -> (r: Result<FanPlan, String>)
        requires
            old(self).wf(),
        ensures
            final(self).wf(),
            final(self).history() == evaluation(old(self).history(), *settings, *snapshot, now_unix_ms).1,
            exists|states: Seq<F>|
                #![trigger fan_calls_made::<F>(final(self).effects_since(old(self).effects()), states)]
                fan_calls_made::<F>(final(self).effects_since(old(self).effects()), states)
                    && states[0] == *old(fan_actuation) && states.last() == *final(fan_actuation),
            ({
                let plan = evaluation(old(self).history(), *settings, *snapshot, now_unix_ms).0;
                let run = runtime_apply_run(
                    old(self).actuation(),
                    plan,
                    failures(final(self).effects_since(old(self).effects())),
                );
                &&& final(self).effects() == old(self).effects() + run.calls
                &&& final(self).actuation() == run.core
                &&& match r {
                    Ok(p) => run.result == Ok::<(), Seq<char>>(()) && p.targets_view() == plan,
                    Err(e) => run.result == Err::<(), Seq<char>>(e@),
                }
            }),
    {
        let plan = self.evaluator.evaluate(settings, snapshot, now_unix_ms);
        match self.apply(&plan, fan_actuation) {
            Ok(()) => Ok(plan),
            Err(e) => Err(e),
        }
    }

    /// Returns to System Auto.
    pub fn restore_system_auto<F: FanActuation>(&mut self, fan_actuation: &mut F) -> (r: Result<
        (),
        String,
    >)
        requires
            old(self).wf(),
        ensures
            final(self).wf(),
            final(self).history() == old(self).history(),
            exists|states: Seq<F>|
                #![trigger fan_calls_made::<F>(final(self).effects_since(old(self).effects()), states)]
                fan_calls_made::<F>(final(self).effects_since(old(self).effects()), states)
                    && states[0] == *old(fan_actuation) && states.last() == *final(fan_actuation),
            ({
                let run = runtime_restore_run(
                    old(self).actuation(),
                    failures(final(self).effects_since(old(self).effects())),
                );
                &&& final(self).effects() == old(self).effects() + run.calls
                &&& final(self).actuation() == run.core
                &&& result_view(r) == run.result
            }),
    {
        let ghost e0 = self.effects@;
        let ghost start = *fan_actuation;
        if self.manual_plan_active {
            let restored = self.logged_restore_all(fan_actuation);
            proof {
                let states = seq![start, *fan_actuation];
                assert(self.effects_since(e0) =~= seq![self.effects@.last()]);
                assert(fan_calls_made::<F>(self.effects_since(e0), states));
            }
            if let Err(e) = restored {
                proof {
                    assert(self.effects_since(e0) =~= seq![Effect::RestoreAll { failure: Some(e@) }]);
                    assert(self.effects@ =~= e0 + self.effects_since(e0));
                }
                return Err(e);
            }
            proof {
                assert(self.effects_since(e0) =~= seq![Effect::RestoreAll { failure: None }]);
                assert(self.effects@ =~= e0 + self.effects_since(e0));
            }
        } else {
            proof {
                assert(self.effects_since(e0) =~= Seq::<Effect>::empty());
                assert(self.effects@ =~= e0 + self.effects_since(e0));
                assert(fan_calls_made::<F>(self.effects_since(e0), seq![start]));
            }
        }
        self.applied_targets.clear();
        self.manual_plan_active = false;
        proof {
            assert(self.actuation().applied =~= Map::<usize, i32>::empty());
        }
        Ok(())
    }

    /// Applies a plan, writing only the targets that changed.
    fn apply<F: FanActuation>(&mut self, plan: &FanPlan, fan_actuation: &mut F) -> (r: Result<
        (),
        String,
    >)
        requires
            old(self).wf(),
        ensures
            final(self).wf(),
            final(self).history() == old(self).history(),
            exists|states: Seq<F>|
                #![trigger fan_calls_made::<F>(final(self).effects_since(old(self).effects()), states)]
                fan_calls_made::<F>(final(self).effects_since(old(self).effects()), states)
                    && states[0] == *old(fan_actuation) && states.last() == *final(fan_actuation),
            ({
                let run = runtime_apply_run(
                    old(self).actuation(),
                    plan.targets_view(),
                    failures(final(self).effects_since(old(self).effects())),
                );
                &&& final(self).effects() == old(self).effects() + run.calls
                &&& final(self).actuation() == run.core
                &&& result_view(r) == run.result
            }),
    {
        match plan {
            FanPlan::SystemAuto => self.restore_system_auto(fan_actuation),
            FanPlan::Targets { targets } => {
                let ghost e0 = self.effects@;
                let ghost c0 = self.actuation();
                let ghost mut states: Seq<F> = seq![*fan_actuation];
                proof {
                    assert(self.effects_since(e0) =~= Seq::<Effect>::empty());
                }
                let changed = changed_list(&self.applied_targets, targets);
                let mut i: usize = 0;
                while i < changed.len()
                    invariant
                        self.wf(),
                        i <= changed@.len(),
                        changed@ == changed_targets(c0.applied, targets@),
                        self.actuation() == c0,
                        self.history() == old(self).history(),
                        e0 == old(self).effects(),
                        c0 == old(self).actuation(),
                        plan.targets_view() == Some(targets@),
                        self.effects@ == e0 + clean_writes(changed@, i as int),
                        fan_calls_made::<F>(self.effects_since(e0), states),
                        states[0] == *old(fan_actuation),
                        states.last() == *fan_actuation,
                    decreases changed.len() - i,
                {
                    let target = changed[i];
                    let ghost calls0 = self.effects_since(e0);
                    let written = self.logged_set_target(fan_actuation, target.fan_id, target.rpm);
                    proof {
                        assert(self.effects_since(e0) =~= calls0.push(self.effects@.last()));
                        lemma_fan_calls_push::<F>(calls0, states, self.effects@.last(), *fan_actuation);
                        states = states.push(*fan_actuation);
                    }
                    if let Err(e) = written {
                        let failed = Ghost(
                            Effect::SetTarget {
                                fan_id: target.fan_id,
                                rpm: target.rpm,
                                failure: Some(e@),
                            },
                        );
                        let ghost calls1 = self.effects_since(e0);
                        let restored = self.logged_restore_all(fan_actuation);
                        let ghost restore_failure = failure_in(restored);
                        proof {
                            assert(self.effects_since(e0) =~= calls1.push(self.effects@.last()));
                            lemma_fan_calls_push::<F>(calls1, states, self.effects@.last(), *fan_actuation);
                            states = states.push(*fan_actuation);
                        }
                        self.applied_targets.clear();
                        self.manual_plan_active = false;
                        proof {
                            let all = self.effects_since(e0);
                            assert(all =~= clean_writes(changed@, i as int).push(failed@).push(
                                Effect::RestoreAll { failure: restore_failure },
                            ));
                            let o = failures(all);
                            assert forall|j: int| 0 <= j < i implies outcome(o, j) is None by {
                                assert(all[j] == clean_writes(changed@, i as int)[j]);
                            }
                            assert(all[i as int] == failed@);
                            lemma_first_failure_at(o, i as int, changed@.len() as int);
                            let run = targets_run(c0, targets@, o);
                            assert(run.calls =~= all);
                            assert(self.effects@ =~= e0 + all);
                            assert(self.actuation().applied =~= Map::<usize, i32>::empty());
                        }
                        return Err(e);
                    }
                    proof {
                        assert(self.effects@ =~= e0 + clean_writes(changed@, i + 1));
                    }
                    i = i + 1;
                }
                self.applied_targets = targets_record(targets);
                self.manual_plan_active = true;
                let ghost n = changed@.len() as int;
                let ghost calls2 = self.effects_since(e0);
                let beat = self.logged_heartbeat(fan_actuation);
                proof {
                    assert(self.effects_since(e0) =~= calls2.push(self.effects@.last()));
                    lemma_fan_calls_push::<F>(calls2, states, self.effects@.last(), *fan_actuation);
                    states = states.push(*fan_actuation);
                }
                if let Err(e) = beat {
                    let ghost calls3 = self.effects_since(e0);
                    let restored = self.logged_restore_all(fan_actuation);
                    let ghost restore_failure = failure_in(restored);
                    proof {
                        assert(self.effects_since(e0) =~= calls3.push(self.effects@.last()));
                        lemma_fan_calls_push::<F>(calls3, states, self.effects@.last(), *fan_actuation);
                        states = states.push(*fan_actuation);
                    }
                    self.applied_targets.clear();
                    self.manual_plan_active = false;
                    proof {
                        let all = self.effects_since(e0);
                        assert(all =~= clean_writes(changed@, n).push(Effect::Heartbeat { failure: Some(e@) }).push(
                            Effect::RestoreAll { failure: restore_failure },
                        ));
                        let o = failures(all);
                        assert forall|j: int| 0 <= j < n implies outcome(o, j) is None by {
                            assert(all[j] == clean_writes(changed@, n)[j]);
                        }
                        assert(all[n] == Effect::Heartbeat { failure: Some(e@) });
                        lemma_first_failure_none(o, n);
                        let run = targets_run(c0, targets@, o);
                        assert(run.calls =~= all);
                        assert(self.effects@ =~= e0 + all);
                        assert(self.actuation().applied =~= Map::<usize, i32>::empty());
                    }
                    return Err(e);
                }
                proof {
                    let all = self.effects_since(e0);
                    assert(all =~= clean_writes(changed@, n).push(Effect::Heartbeat { failure: None }));
                    let o = failures(all);
                    assert forall|j: int| 0 <= j < n implies outcome(o, j) is None by {
                        assert(all[j] == clean_writes(changed@, n)[j]);
                    }
                    assert(all[n] == Effect::Heartbeat { failure: None });
                    lemma_first_failure_none(o, n);
                    let run = targets_run(c0, targets@, o);
                    assert(run.calls =~= all);
                    assert(self.effects@ =~= e0 + all);
                }
                Ok(())
            },
        }
    }
}

impl ThermalPolicyRuntime {
    /// Calls `set_target` and logs the call.
    fn logged_set_target<F: FanActuation>(&mut self, fan_actuation: &mut F, fan_id: usize, rpm: i32) -> (r:
        Result<(), String>)
        ensures
            final(self).effects() == old(self).effects().push(
                Effect::SetTarget { fan_id, rpm, failure: failure_in(r) },
            ),
            fan_call_made::<F>(final(self).effects().last(), *old(fan_actuation)),
            final(self).history() == old(self).history(),
            final(self).actuation() == old(self).actuation(),
    {
        let write = F::set_target;
        let r = write(fan_actuation, fan_id, rpm);
        proof {
            self.effects@ = self.effects@.push(Effect::SetTarget { fan_id, rpm, failure: failure_in(r) });
        }
        r
    }

    /// Calls `restore_all` and logs the call.
    fn logged_restore_all<F: FanActuation>(&mut self, fan_actuation: &mut F) -> (r: Result<(), String>)
        ensures
            final(self).effects() == old(self).effects().push(Effect::RestoreAll { failure: failure_in(r) }),
            fan_call_made::<F>(final(self).effects().last(), *old(fan_actuation)),
            final(self).history() == old(self).history(),
            final(self).actuation() == old(self).actuation(),
    {
        let write = F::restore_all;
        let r = write(fan_actuation);
        proof {
            self.effects@ = self.effects@.push(Effect::RestoreAll { failure: failure_in(r) });
        }
        r
    }

    /// Calls `heartbeat` and logs the call.
    fn logged_heartbeat<F: FanActuation>(&mut self, fan_actuation: &mut F) -> (r: Result<(), String>)
        ensures
            final(self).effects() == old(self).effects().push(Effect::Heartbeat { failure: failure_in(r) }),
            fan_call_made::<F>(final(self).effects().last(), *old(fan_actuation)),
            final(self).history() == old(self).history(),
            final(self).actuation() == old(self).actuation(),
    {
        let write = F::heartbeat;
        let r = write(fan_actuation);
        proof {
            self.effects@ = self.effects@.push(Effect::Heartbeat { failure: failure_in(r) });
        }
        r
    }
}

} // verus!
