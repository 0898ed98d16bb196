//! The thermal policy module: persisted settings, the evaluator, and the one
//! writer of automatic fan behavior.
//!
//! Every call that the module makes to its settings store and to fan
//! actuation is recorded, with its arguments and outcome, in a ghost log
//! (`effects`).  The module's invariant (`wf`) ties every entry to a real
//! call (`call_made`, stated with `call_ensures`): the store's or the fan
//! actuation's method was called, on the component as the previous call
//! left it, with the logged arguments, and returned the logged outcome.  The
//! contracts state, over that log, the calls made for every combination of
//! outcomes.
use super::contract::{FanPlan, FanTarget, ThermalPolicyMode, ThermalPolicySettings, ThermalRule};
use super::evaluator::{evaluation, PreviousTarget, ThermalPolicyEvaluator};
use super::settings::{rules_error, rules_valid, valid_settings, validate};
use crate::hardware_telemetry::contract::{FanActuationStatus, HardwareTelemetrySnapshot};
use crate::text::owned;
use std::collections::BTreeMap;
use vstd::prelude::*;

verus! {

broadcast use vstd::std_specs::btree::group_btree_axioms;

/// Where thermal policy settings persist.
pub trait SettingsStore {
    fn load(&self) -> Result<Option<ThermalPolicySettings>, String>;

    fn save(&mut self, settings: &ThermalPolicySettings) -> Result<(), String>;
}

/// The privileged fan actuation service.
pub trait FanActuation {
    fn set_target(&mut self, fan_id: usize, rpm: i32) -> Result<(), String>;

    fn system_auto(&mut self, fan_id: usize) -> Result<(), String>;

    fn restore_all(&mut self) -> Result<(), String>;

    fn heartbeat(&mut self) -> Result<(), String>;
}

/// A direct request from the user interface.
#[derive(Debug, Clone, Copy, PartialEq, Eq, Structural)]
pub enum DirectFanActuationRequest {
    Target { fan_id: usize, rpm: i32 },
    SystemAuto { fan_id: usize },
}

/// One tagged change to the settings.
#[derive(Debug, Clone, PartialEq, Eq)]
pub enum ThermalPolicyChange {
    SelectMode(ThermalPolicyMode),
    UpsertRule(ThermalRule),
    DeleteRule(String),
}

/// One call that the module made, with its failure message if it failed.
pub enum Effect {
    Loaded { found: Option<(ThermalPolicyMode, Seq<ThermalRule>)> },
    Saved { mode: ThermalPolicyMode, rules: Seq<ThermalRule>, failure: Option<Seq<char>> },
    SetTarget { fan_id: usize, rpm: i32, failure: Option<Seq<char>> },
    SystemAuto { fan_id: usize, failure: Option<Seq<char>> },
    RestoreAll { failure: Option<Seq<char>> },
    Heartbeat { failure: Option<Seq<char>> },
}

/// The failure message of a call, `None` when it succeeded.
pub open spec fn failure_of(effect: Effect) -> Option<Seq<char>> {
    match effect {
        Effect::Loaded { .. } => None,
        Effect::Saved { failure, .. } => failure,
        Effect::SetTarget { failure, .. } => failure,
        Effect::SystemAuto { failure, .. } => failure,
        Effect::RestoreAll { failure } => failure,
        Effect::Heartbeat { failure } => failure,
    }
}

/// The failure messages of a run of calls.
pub open spec fn failures(effects: Seq<Effect>) -> Seq<Option<Seq<char>>> {
    effects.map_values(|e: Effect| failure_of(e))
}

/// The outcome of the `i`-th call of a run (success when there is none).
pub open spec fn outcome(outcomes: Seq<Option<Seq<char>>>, i: int) -> Option<Seq<char>> {
    if 0 <= i < outcomes.len() {
        outcomes[i]
    } else {
        None
    }
}

/// A `Result<(), String>` as the value that the contracts speak of.
pub open spec fn result_view(r: Result<(), String>) -> Result<(), Seq<char>> {
    match r {
        Ok(()) => Ok(()),
        Err(e) => Err(e@),
    }
}

/// The failure message of a call's result, `None` when it succeeded.
pub open spec fn failure_in(r: Result<(), String>) -> Option<Seq<char>> {
    match r {
        Ok(()) => None,
        Err(e) => Some(e@),
    }
}

/// Whether `set_target` was called on `fan` with these arguments and gave
/// this outcome.
pub open spec fn target_written<F: FanActuation>(fan: F, fan_id: usize, rpm: i32, failure: Option<Seq<char>>) -> bool {
    exists|m: &mut F, r: Result<(), String>|
        #![trigger call_ensures(F::set_target, (m, fan_id, rpm), r)]
        *m == fan && call_ensures(F::set_target, (m, fan_id, rpm), r) && failure == failure_in(r)
}

/// Whether `system_auto` was called on `fan` for this fan and gave this
/// outcome.
pub open spec fn fan_restored<F: FanActuation>(fan: F, fan_id: usize, failure: Option<Seq<char>>) -> bool {
    exists|m: &mut F, r: Result<(), String>|
        #![trigger call_ensures(F::system_auto, (m, fan_id), r)]
        *m == fan && call_ensures(F::system_auto, (m, fan_id), r) && failure == failure_in(r)
}

/// Whether a logged call was really made: the store's or the fan
/// actuation's method was called on the component as it was (`before`),
/// with the logged arguments, and returned the logged outcome; the other
/// component was not touched, and `after` is the components afterwards.
pub open spec fn call_made<S: SettingsStore, F: FanActuation>(effect: Effect, before: (S, F), after: (S, F)) -> bool {
    match effect {
        Effect::Loaded { found } => after == before && exists|loaded: Result<Option<ThermalPolicySettings>, String>|
            call_ensures(S::load, (&before.0,), loaded) && found == stored_settings(loaded),
        Effect::Saved { mode, rules, failure } => after.1 == before.1 && exists|
            m: &mut S,
            settings: ThermalPolicySettings,
            r: Result<(), String>,
        |
            *m == before.0 && settings.mode == mode && settings.rules@ == rules && call_ensures(
                S::save,
                (m, &settings),
                r,
            ) && failure == failure_in(r),
        _ => after.0 == before.0 && fan_call_made::<F>(effect, before.1),
    }
}

/// Whether a logged fan actuation call was made on `fan`, with the logged
/// arguments, and gave the logged outcome.
pub open spec fn fan_call_made<F: FanActuation>(effect: Effect, fan: F) -> bool {
    match effect {
        Effect::SetTarget { fan_id, rpm, failure } => target_written(fan, fan_id, rpm, failure),
        Effect::SystemAuto { fan_id, failure } => fan_restored(fan, fan_id, failure),
        Effect::RestoreAll { failure } => all_restored(fan, failure),
        Effect::Heartbeat { failure } => heartbeat_sent(fan, failure),
        _ => false,
    }
}

/// Whether `restore_all` was called on `fan` and gave this outcome.
pub open spec fn all_restored<F: FanActuation>(fan: F, failure: Option<Seq<char>>) -> bool {
    exists|m: &mut F, r: Result<(), String>|
        #![trigger call_ensures(F::restore_all, (m,), r)]
        *m == fan && call_ensures(F::restore_all, (m,), r) && failure == failure_in(r)
}

/// Whether `heartbeat` was called on `fan` and gave this outcome.
pub open spec fn heartbeat_sent<F: FanActuation>(fan: F, failure: Option<Seq<char>>) -> bool {
    exists|m: &mut F, r: Result<(), String>|
        #![trigger call_ensures(F::heartbeat, (m,), r)]
        *m == fan && call_ensures(F::heartbeat, (m,), r) && failure == failure_in(r)
}

/// Each call of a run was made on the fan actuation as the previous call
/// left it: `states[i]` is the service before call `i`, and the last state
/// is the service after the run.
pub open spec fn fan_calls_made<F: FanActuation>(calls: Seq<Effect>, states: Seq<F>) -> bool {
    &&& states.len() == calls.len() + 1
    &&& forall|i: int| 0 <= i < calls.len() ==> fan_call_made::<F>(#[trigger] calls[i], states[i])
}

/// One more call, made on the service as the run left it, extends the run.
pub(crate) proof fn lemma_fan_calls_push<F: FanActuation>(calls: Seq<Effect>, states: Seq<F>, call: Effect, next: F)
    requires
        fan_calls_made::<F>(calls, states),
        fan_call_made::<F>(call, states.last()),
    ensures
        fan_calls_made::<F>(calls.push(call), states.push(next)),
{
    let cs = calls.push(call);
    let ss = states.push(next);
    assert forall|i: int| 0 <= i < cs.len() implies fan_call_made::<F>(#[trigger] cs[i], ss[i]) by {
        if i < calls.len() {
            assert(cs[i] == calls[i] && ss[i] == states[i]);
        }
    }
}

/// Every logged call was made, each on the components as the previous call
/// left them, and the last call left them as `current`.
pub open spec fn log_tied<S: SettingsStore, F: FanActuation>(
    effects: Seq<Effect>,
    states: Seq<((S, F), (S, F))>,
    current: (S, F),
) -> bool {
    let n = effects.len();
    &&& states.len() == n
    &&& forall|i: int| 0 <= i < n ==> call_made::<S, F>(#[trigger] effects[i], states[i].0, states[i].1)
    &&& forall|i: int, j: int|
        0 <= i && j == i + 1 && j < n ==> #[trigger] states[j].0 == #[trigger] states[i].1
    &&& n > 0 ==> states[n - 1].1 == current
}

/// Logging one more call that was made on the current components keeps the
/// log tied.
proof fn lemma_log_push<S: SettingsStore, F: FanActuation>(
    effects: Seq<Effect>,
    states: Seq<((S, F), (S, F))>,
    current: (S, F),
    effect: Effect,
    after: (S, F),
)
    requires
        log_tied::<S, F>(effects, states, current),
        effects.len() > 0,
        call_made::<S, F>(effect, current, after),
    ensures
        log_tied::<S, F>(effects.push(effect), states.push((current, after)), after),
{
    let es = effects.push(effect);
    let ss = states.push((current, after));
    assert forall|i: int| 0 <= i < es.len() implies call_made::<S, F>(#[trigger] es[i], ss[i].0, ss[i].1) by {
        if i < effects.len() {
            assert(es[i] == effects[i] && ss[i] == states[i]);
        }
    }
    assert forall|i: int, j: int| 0 <= i && j == i + 1 && j < es.len() implies #[trigger] ss[j].0
        == #[trigger] ss[i].1 by {
        if j < effects.len() {
            assert(ss[j] == states[j] && ss[i] == states[i]);
        } else {
            assert(ss[i] == states[effects.len() - 1]);
        }
    }
}

/// The module's record of what it has written to the fans.
pub struct ActuationCore {
    pub applied: Map<usize, i32>,
    pub manual_plan_active: bool,
    pub system_auto_confirmed: bool,
}

/// A run of calls: the calls made, the record afterwards and the result.
pub struct Run {
    pub calls: Seq<Effect>,
    pub core: ActuationCore,
    pub result: Result<(), Seq<char>>,
}

/// The record after a failure: nothing applied, nothing confirmed.
pub open spec fn recovered_core() -> ActuationCore {
    ActuationCore {
        applied: Map::empty(),
        manual_plan_active: false,
        system_auto_confirmed: false,
    }
}

/// The record after all fans were returned to System Auto.
pub open spec fn restored_core() -> ActuationCore {
    ActuationCore {
        applied: Map::empty(),
        manual_plan_active: false,
        system_auto_confirmed: true,
    }
}

/// Whether a target differs from what was last applied to its fan.
pub open spec fn is_changed(applied: Map<usize, i32>, t: FanTarget) -> bool {
    !(applied.contains_key(t.fan_id) && applied[t.fan_id] == t.rpm)
}

/// The targets that differ from what was last applied, in order.
pub open spec fn changed_targets(applied: Map<usize, i32>, targets: Seq<FanTarget>) -> Seq<FanTarget>
    decreases targets.len(),
{
    if targets.len() == 0 {
        Seq::empty()
    } else {
        let earlier = changed_targets(applied, targets.drop_last());
        if is_changed(applied, targets.last()) {
            earlier.push(targets.last())
        } else {
            earlier
        }
    }
}

/// The fan-to-RPM record of a list of targets; later targets win.
pub open spec fn targets_map(targets: Seq<FanTarget>) -> Map<usize, i32>
    decreases targets.len(),
{
    if targets.len() == 0 {
        Map::empty()
    } else {
        targets_map(targets.drop_last()).insert(targets.last().fan_id, targets.last().rpm)
    }
}

/// The index of the first failed call among the first `n`.
pub open spec fn first_failure(outcomes: Seq<Option<Seq<char>>>, n: int) -> Option<int>
    decreases n,
{
    if n <= 0 {
        None
    } else {
        match first_failure(outcomes, n - 1) {
            Some(k) => Some(k),
            None => if outcome(outcomes, n - 1) is Some {
                Some(n - 1)
            } else {
                None
            },
        }
    }
}

/// The first `n` target writes, with their outcomes.
pub open spec fn writes(changed: Seq<FanTarget>, outcomes: Seq<Option<Seq<char>>>, n: int) -> Seq<
    Effect,
> {
    Seq::new(
        n as nat,
        |i: int|
            Effect::SetTarget {
                fan_id: changed[i].fan_id,
                rpm: changed[i].rpm,
                failure: outcome(outcomes, i),
            },
    )
}

/// The first `n` target writes, all successful.
pub open spec fn clean_writes(changed: Seq<FanTarget>, n: int) -> Seq<Effect> {
    Seq::new(
        n as nat,
        |j: int| Effect::SetTarget { fan_id: changed[j].fan_id, rpm: changed[j].rpm, failure: None },
    )
}

/// Returning every fan to System Auto unconditionally.
pub open spec fn force_restore_run(core: ActuationCore, outcomes: Seq<Option<Seq<char>>>) -> Run {
    match outcome(outcomes, 0) {
        Some(f) => Run {
            calls: seq![Effect::RestoreAll { failure: Some(f) }],
            core,
            result: Err(f),
        },
        None => Run {
            calls: seq![Effect::RestoreAll { failure: None }],
            core: restored_core(),
            result: Ok(()),
        },
    }
}

/// Applying a System Auto plan: restore all fans unless System Auto is
/// already confirmed and no manual plan is active.
pub open spec fn restore_run(core: ActuationCore, outcomes: Seq<Option<Seq<char>>>) -> Run {
    if core.manual_plan_active || !core.system_auto_confirmed {
        force_restore_run(core, outcomes)
    } else {
        Run { calls: Seq::empty(), core, result: Ok(()) }
    }
}

/// Applying a plan with targets: write each changed target in order, then
/// heartbeat; any failure restores all fans and reports that failure.
pub open spec fn targets_run(
    core: ActuationCore,
    targets: Seq<FanTarget>,
    outcomes: Seq<Option<Seq<char>>>,
) -> Run {
    let changed = changed_targets(core.applied, targets);
    let n = changed.len() as int;
    match first_failure(outcomes, n) {
        Some(k) => Run {
            calls: writes(changed, outcomes, k + 1).push(
                Effect::RestoreAll { failure: outcome(outcomes, k + 1) },
            ),
            core: recovered_core(),
            result: Err(outcome(outcomes, k)->0),
        },
        None => match outcome(outcomes, n) {
            Some(f) => Run {
                calls: writes(changed, outcomes, n).push(
                    Effect::Heartbeat { failure: Some(f) },
                ).push(Effect::RestoreAll { failure: outcome(outcomes, n + 1) }),
                core: recovered_core(),
                result: Err(f),
            },
            None => Run {
                calls: writes(changed, outcomes, n).push(Effect::Heartbeat { failure: None }),
                core: ActuationCore {
                    applied: targets_map(targets),
                    manual_plan_active: true,
                    system_auto_confirmed: false,
                },
                result: Ok(()),
            },
        },
    }
}

/// Applying a plan (`None` is System Auto).
pub open spec fn apply_run(
    core: ActuationCore,
    plan: Option<Seq<FanTarget>>,
    outcomes: Seq<Option<Seq<char>>>,
) -> Run {
    match plan {
        None => restore_run(core, outcomes),
        Some(targets) => targets_run(core, targets, outcomes),
    }
}

/// Processing one snapshot after evaluation: apply the plan, and while the
/// policy is System Auto with a ready helper, heartbeat so that a direct
/// target keeps its lease.
pub open spec fn snapshot_run(
    core: ActuationCore,
    plan: Option<Seq<FanTarget>>,
    heartbeat_due: bool,
    outcomes: Seq<Option<Seq<char>>>,
) -> Run {
    let applied = apply_run(core, plan, outcomes);
    let k = applied.calls.len() as int;
    if applied.result is Err || !heartbeat_due {
        applied
    } else {
        match outcome(outcomes, k) {
            Some(f) => Run {
                calls: applied.calls.push(Effect::Heartbeat { failure: Some(f) }).push(
                    Effect::RestoreAll { failure: outcome(outcomes, k + 1) },
                ),
                core: recovered_core(),
                result: Err(f),
            },
            None => Run {
                calls: applied.calls.push(Effect::Heartbeat { failure: None }),
                core: applied.core,
                result: Ok(()),
            },
        }
    }
}

/// The index of the first rule with the given id.
pub open spec fn first_with_id(rules: Seq<ThermalRule>, id: Seq<char>) -> Option<int>
    decreases rules.len(),
{
    if rules.len() == 0 {
        None
    } else {
        match first_with_id(rules.drop_last(), id) {
            Some(i) => Some(i),
            None => if rules.last().id@ == id {
                Some(rules.len() - 1)
            } else {
                None
            },
        }
    }
}

/// The rules with `rule` replacing the first rule of the same id, or
/// appended when there is none.
pub open spec fn upserted(rules: Seq<ThermalRule>, rule: ThermalRule) -> Seq<ThermalRule> {
    match first_with_id(rules, rule.id@) {
        Some(i) => rules.update(i, rule),
        None => rules.push(rule),
    }
}

/// The rules without those of the given id, in order.
pub open spec fn without_id(rules: Seq<ThermalRule>, id: Seq<char>) -> Seq<ThermalRule>
    decreases rules.len(),
{
    if rules.len() == 0 {
        Seq::empty()
    } else {
        let earlier = without_id(rules.drop_last(), id);
        if rules.last().id@ == id {
            earlier
        } else {
            earlier.push(rules.last())
        }
    }
}

/// The settings that a change asks for: the new mode and rules.
pub open spec fn changed_settings(
    mode: ThermalPolicyMode,
    rules: Seq<ThermalRule>,
    change: ThermalPolicyChange,
) -> (ThermalPolicyMode, Seq<ThermalRule>) {
    match change {
        ThermalPolicyChange::SelectMode(m) => (m, rules),
        ThermalPolicyChange::UpsertRule(rule) => (ThermalPolicyMode::Custom, upserted(rules, rule)),
        ThermalPolicyChange::DeleteRule(id) => (mode, without_id(rules, id@)),
    }
}

/// The settings that loading adopts from what the store returned: valid
/// stored settings, otherwise System Auto with no rules.
pub open spec fn adopted_settings(found: Option<(ThermalPolicyMode, Seq<ThermalRule>)>) -> (
    ThermalPolicyMode,
    Seq<ThermalRule>,
) {
    match found {
        Some(s) => if rules_valid(s.1) {
            s
        } else {
            (ThermalPolicyMode::SystemAuto, Seq::empty())
        },
        None => (ThermalPolicyMode::SystemAuto, Seq::empty()),
    }
}

/// What a direct request does: refused without any call while a policy is
/// active; otherwise exactly one call, whose outcome is the result.
pub open spec fn direct_run(
    mode: ThermalPolicyMode,
    request: DirectFanActuationRequest,
    before: Seq<Effect>,
    after: Seq<Effect>,
    r: Result<(), Seq<char>>,
) -> bool {
    if mode != ThermalPolicyMode::SystemAuto {
        &&& r == Err::<(), Seq<char>>(direct_actuation_disabled_message())
        &&& after == before
    } else {
        &&& after.len() == before.len() + 1
        &&& after.take(before.len() as int) == before
        &&& after.last() == match request {
            DirectFanActuationRequest::Target { fan_id, rpm } => Effect::SetTarget {
                fan_id,
                rpm,
                failure: failure_of(after.last()),
            },
            DirectFanActuationRequest::SystemAuto { fan_id } => Effect::SystemAuto {
                fan_id,
                failure: failure_of(after.last()),
            },
        }
        &&& r == match failure_of(after.last()) {
            Some(f) => Err(f),
            None => Ok(()),
        }
    }
}

/// The message for direct requests while a policy is active.
pub open spec fn direct_actuation_disabled_message() -> Seq<char> {
    "direct Fan actuation is disabled while Thermal policy is active"@
}

/// Thermal policy settings, evaluation and fan actuation, owned together.
pub struct ThermalPolicyState<S, F> {
    store: S,
    fan_actuation: F,
    current: ThermalPolicySettings,
    evaluator: ThermalPolicyEvaluator,
    applied_targets: BTreeMap<usize, i32>,
    manual_plan_active: bool,
    system_auto_confirmed: bool,
    effects: Ghost<Seq<Effect>>,
    call_states: Ghost<Seq<((S, F), (S, F))>>,
}

impl<S: SettingsStore, F: FanActuation> ThermalPolicyState<S, F> {
    /// The committed settings.
    pub closed spec fn settings(&self) -> ThermalPolicySettings {
        self.current
    }

    /// The evaluator's history.
    pub closed spec fn history(&self) -> Map<usize, PreviousTarget> {
        self.evaluator.history()
    }

    /// What the module has written to the fans.
    pub closed spec fn actuation(&self) -> ActuationCore {
        ActuationCore {
            applied: self.applied_targets@,
            manual_plan_active: self.manual_plan_active,
            system_auto_confirmed: self.system_auto_confirmed,
        }
    }

    /// Every call made so far, in order.
    pub closed spec fn effects(&self) -> Seq<Effect> {
        self.effects@
    }

    /// The settings store.
    pub closed spec fn store(&self) -> S {
        self.store
    }

    /// The fan actuation service.
    pub closed spec fn fan_actuation(&self) -> F {
        self.fan_actuation
    }

    /// The store and the fan actuation before and after each logged call.
    pub closed spec fn call_states(&self) -> Seq<((S, F), (S, F))> {
        self.call_states@
    }

    /// Every logged call was made, on the components as the previous call
    /// left them, and the last call left them as they are now.
    pub open spec fn calls_tied(&self) -> bool {
        log_tied::<S, F>(self.effects(), self.call_states(), (self.store(), self.fan_actuation()))
    }

    /// This state's log continues the log of `earlier`.
    pub open spec fn extends(&self, earlier: Self) -> bool {
        &&& earlier.effects().len() <= self.effects().len()
        &&& earlier.effects().len() <= self.call_states().len()
        &&& forall|i: int|
            #![trigger self.effects()[i]]
            #![trigger self.call_states()[i]]
            0 <= i < earlier.effects().len() ==> (self.effects()[i] == earlier.effects()[i]
                && self.call_states()[i] == earlier.call_states()[i])
    }

    /// The module's invariant: committed settings are valid, a manual plan
    /// and a confirmed System Auto exclude each other, targets are only
    /// recorded while a manual plan is active, and the log records the calls
    /// really made.
    pub open spec fn wf(&self) -> bool {
        &&& valid_settings(self.settings())
        &&& !(self.actuation().manual_plan_active && self.actuation().system_auto_confirmed)
        &&& !self.actuation().manual_plan_active ==> self.actuation().applied == Map::<usize, i32>::empty()
        &&& self.calls_tied()
        &&& self.effects().len() > 0
    }

    /// Continuing a log is transitive.
    proof fn lemma_extends_trans(a: Self, b: Self, c: Self)
        requires
            a.extends(b),
            b.extends(c),
        ensures
            a.extends(c),
    {
        assert forall|i: int| 0 <= i < c.effects().len() implies (a.effects()[i] == c.effects()[i]
            && a.call_states()[i] == c.call_states()[i]) by {
            assert(a.effects()[i] == b.effects()[i]);
            assert(b.effects()[i] == c.effects()[i]);
            assert(a.call_states()[i] == b.call_states()[i]);
            assert(b.call_states()[i] == c.call_states()[i]);
        }
    }

    /// The calls appended since `earlier`.
    pub open spec fn effects_since(&self, earlier: Seq<Effect>) -> Seq<Effect> {
        self.effects().skip(earlier.len() as int)
    }

    /// Loads persisted settings, falling back to System Auto when they are
    /// missing, unreadable or invalid.
    pub fn load(store: S, fan_actuation: F) -> (state: Self)
        ensures
            state.wf(),
            state.effects().len() == 1,
            exists|loaded: Result<Option<ThermalPolicySettings>, String>|
                #![trigger call_ensures(S::load, (&store,), loaded)]
                call_ensures(S::load, (&store,), loaded) && state.effects()[0] == (Effect::Loaded {
                    found: stored_settings(loaded),
                }),
            state.call_states()[0].0 == (store, fan_actuation),
            state.effects()[0] matches Effect::Loaded { found } && adopted_settings(found) == (
                state.settings().mode,
                state.settings().rules@,
            ),
            state.history() == Map::<usize, PreviousTarget>::empty(),
            state.actuation() == recovered_core(),
    {
        // The store's method is called as a value, so that the contract can
        // name what the call returned (`call_ensures`).
        let read_store = S::load;
        let loaded = read_store(&store);
        let ghost found = stored_settings(loaded);
        let current = settings_from_store(loaded);
        let effects: Ghost<Seq<Effect>> = Ghost(Seq::<Effect>::empty().push(Effect::Loaded { found }));
        let ghost components = (store, fan_actuation);
        let call_states: Ghost<Seq<((S, F), (S, F))>> = Ghost(
            Seq::<((S, F), (S, F))>::empty().push((components, components)),
        );
        let state = ThermalPolicyState {
            store,
            fan_actuation,
            current,
            evaluator: ThermalPolicyEvaluator::default(),
            applied_targets: BTreeMap::new(),
            manual_plan_active: false,
            system_auto_confirmed: false,
            effects,
            call_states,
        };
        proof {
            assert(call_made::<S, F>(state.effects()[0], state.call_states()[0].0, state.call_states()[0].1));
        }
        state
    }

    /// A copy of the committed settings.
    pub fn current(&self) -> (settings: ThermalPolicySettings)
        ensures
            settings.same_as(self.settings()),
    {
        self.current.clone()
    }

    /// Applies a direct fan request, which is only allowed while the policy
    /// is System Auto.
    pub fn direct_actuation(&mut self, request: DirectFanActuationRequest) -> (r: Result<
        (),
        String,
    >)
        requires
            old(self).wf(),
        ensures
            final(self).wf(),
            final(self).extends(*old(self)),
            final(self).settings() == old(self).settings(),
            final(self).history() == old(self).history(),
            final(self).actuation() == old(self).actuation(),
            direct_run(old(self).settings().mode, request, old(self).effects(), final(self).effects(), result_view(r)),
    {
        if self.current.mode != ThermalPolicyMode::SystemAuto {
            return Err(owned("direct Fan actuation is disabled while Thermal policy is active"));
        }
        match request {
            DirectFanActuationRequest::Target { fan_id, rpm } => {
                let ghost before = self.effects@;
                let r = self.logged_set_target(fan_id, rpm);
                proof {
                    assert(self.effects@.take(before.len() as int) =~= before);
                }
                r
            },
            DirectFanActuationRequest::SystemAuto { fan_id } => {
                let ghost before = self.effects@;
                let r = self.logged_system_auto(fan_id);
                proof {
                    assert(self.effects@.take(before.len() as int) =~= before);
                }
                r
            },
        }
    }
}

impl<S: SettingsStore, F: FanActuation> ThermalPolicyState<S, F> {
    /// Calls `set_target` and logs the call.
    fn logged_set_target(&mut self, fan_id: usize, rpm: i32) -> (r: Result<(), String>)
        requires
            old(self).calls_tied(),
            old(self).effects().len() > 0,
        ensures
            final(self).calls_tied(),
            final(self).extends(*old(self)),
            final(self).effects() == old(self).effects().push(
                Effect::SetTarget { fan_id, rpm, failure: failure_in(r) },
            ),
            final(self).settings() == old(self).settings(),
            final(self).history() == old(self).history(),
            final(self).actuation() == old(self).actuation(),
    {
        let ghost before = (self.store, self.fan_actuation);
        let write = F::set_target;
        let r = write(&mut self.fan_actuation, fan_id, rpm);
        proof {
            assert(exists|m: &mut F| *m == before.1 && call_ensures(F::set_target, (m, fan_id, rpm), r));
            assert(exists|m: &mut F, r2: Result<(), String>|
                *m == before.1 && call_ensures(F::set_target, (m, fan_id, rpm), r2) && failure_in(r) == failure_in(r2));
            let e = Effect::SetTarget { fan_id, rpm, failure: failure_in(r) };
            let after = (self.store, self.fan_actuation);

            assert(call_made::<S, F>(e, before, after));
            let effects0 = self.effects@;
            let states0 = self.call_states@;
            lemma_log_push::<S, F>(effects0, states0, before, e, after);
            self.effects@ = effects0.push(e);
            self.call_states@ = states0.push((before, after));
            assert(self.effects@.take(effects0.len() as int) =~= effects0);
            assert(self.call_states@.take(effects0.len() as int) =~= states0);
        }
        r
    }

    /// Calls `system_auto` and logs the call.
    fn logged_system_auto(&mut self, fan_id: usize) -> (r: Result<(), String>)
        requires
            old(self).calls_tied(),
            old(self).effects().len() > 0,
        ensures
            final(self).calls_tied(),
            final(self).extends(*old(self)),
            final(self).effects() == old(self).effects().push(
                Effect::SystemAuto { fan_id, failure: failure_in(r) },
            ),
            final(self).settings() == old(self).settings(),
            final(self).history() == old(self).history(),
            final(self).actuation() == old(self).actuation(),
    {
        let ghost before = (self.store, self.fan_actuation);
        let write = F::system_auto;
        let r = write(&mut self.fan_actuation, fan_id);
        proof {
            assert(exists|m: &mut F| *m == before.1 && call_ensures(F::system_auto, (m, fan_id), r));
            assert(exists|m: &mut F, r2: Result<(), String>|
                *m == before.1 && call_ensures(F::system_auto, (m, fan_id), r2) && failure_in(r) == failure_in(r2));
            let e = Effect::SystemAuto { fan_id, failure: failure_in(r) };
            let after = (self.store, self.fan_actuation);
            assert(call_made::<S, F>(e, before, after));
            let effects0 = self.effects@;
            let states0 = self.call_states@;
            lemma_log_push::<S, F>(effects0, states0, before, e, after);
            self.effects@ = effects0.push(e);
            self.call_states@ = states0.push((before, after));
            assert(self.effects@.take(effects0.len() as int) =~= effects0);
            assert(self.call_states@.take(effects0.len() as int) =~= states0);
        }
        r
    }

    /// Calls `restore_all` and logs the call.
    fn logged_restore_all(&mut self) -> (r: Result<(), String>)
        requires
            old(self).calls_tied(),
            old(self).effects().len() > 0,
        ensures
            final(self).calls_tied(),
            final(self).extends(*old(self)),
            final(self).effects() == old(self).effects().push(Effect::RestoreAll { failure: failure_in(r) }),
            final(self).settings() == old(self).settings(),
            final(self).history() == old(self).history(),
            final(self).actuation() == old(self).actuation(),
    {
        let ghost before = (self.store, self.fan_actuation);
        let write = F::restore_all;
        let r = write(&mut self.fan_actuation);
        proof {
            assert(exists|m: &mut F| *m == before.1 && call_ensures(F::restore_all, (m,), r));
            assert(exists|m: &mut F, r2: Result<(), String>|
                *m == before.1 && call_ensures(F::restore_all, (m,), r2) && failure_in(r) == failure_in(r2));
            let e = Effect::RestoreAll { failure: failure_in(r) };
            let after = (self.store, self.fan_actuation);
            assert(call_made::<S, F>(e, before, after));
            let effects0 = self.effects@;
            let states0 = self.call_states@;
            lemma_log_push::<S, F>(effects0, states0, before, e, after);
            self.effects@ = effects0.push(e);
            self.call_states@ = states0.push((before, after));
            assert(self.effects@.take(effects0.len() as int) =~= effects0);
            assert(self.call_states@.take(effects0.len() as int) =~= states0);
        }
        r
    }

    /// Calls `heartbeat` and logs the call.
    fn logged_heartbeat(&mut self) -> (r: Result<(), String>)
        requires
            old(self).calls_tied(),
            old(self).effects().len() > 0,
        ensures
            final(self).calls_tied(),
            final(self).extends(*old(self)),
            final(self).effects() == old(self).effects().push(Effect::Heartbeat { failure: failure_in(r) }),
            final(self).settings() == old(self).settings(),
            final(self).history() == old(self).history(),
            final(self).actuation() == old(self).actuation(),
    {
        let ghost before = (self.store, self.fan_actuation);
        let write = F::heartbeat;
        let r = write(&mut self.fan_actuation);
        proof {
            assert(exists|m: &mut F| *m == before.1 && call_ensures(F::heartbeat, (m,), r));
            assert(exists|m: &mut F, r2: Result<(), String>|
                *m == before.1 && call_ensures(F::heartbeat, (m,), r2) && failure_in(r) == failure_in(r2));
            let e = Effect::Heartbeat { failure: failure_in(r) };
            let after = (self.store, self.fan_actuation);
            assert(call_made::<S, F>(e, before, after));
            let effects0 = self.effects@;
            let states0 = self.call_states@;
            lemma_log_push::<S, F>(effects0, states0, before, e, after);
            self.effects@ = effects0.push(e);
            self.call_states@ = states0.push((before, after));
            assert(self.effects@.take(effects0.len() as int) =~= effects0);
            assert(self.call_states@.take(effects0.len() as int) =~= states0);
        }
        r
    }

    /// Calls `save` and logs the call.
    fn logged_save(&mut self, settings: &ThermalPolicySettings) -> (r: Result<(), String>)
        requires
            old(self).calls_tied(),
            old(self).effects().len() > 0,
        ensures
            final(self).calls_tied(),
            final(self).extends(*old(self)),
            final(self).effects() == old(self).effects().push(
                Effect::Saved { mode: settings.mode, rules: settings.rules@, failure: failure_in(r) },
            ),
            final(self).fan_actuation() == old(self).fan_actuation(),
            final(self).settings() == old(self).settings(),
            final(self).history() == old(self).history(),
            final(self).actuation() == old(self).actuation(),
    {
        let ghost before = (self.store, self.fan_actuation);
        let write = S::save;
        let r = write(&mut self.store, settings);
        proof {
            let e = Effect::Saved { mode: settings.mode, rules: settings.rules@, failure: failure_in(r) };
            assert(call_made::<S, F>(e, before, (self.store, self.fan_actuation)));
            let after = (self.store, self.fan_actuation);
            assert(call_made::<S, F>(e, before, after));
            let effects0 = self.effects@;
            let states0 = self.call_states@;
            lemma_log_push::<S, F>(effects0, states0, before, e, after);
            self.effects@ = effects0.push(e);
            self.call_states@ = states0.push((before, after));
            assert(self.effects@.take(effects0.len() as int) =~= effects0);
            assert(self.call_states@.take(effects0.len() as int) =~= states0);
        }
        r
    }
}

impl<S: SettingsStore, F: FanActuation> ThermalPolicyState<S, F> {
    /// Evaluates one snapshot, applies the resulting plan, and heartbeats
    /// while the policy is System Auto with a ready helper.
    pub fn process_snapshot(&mut self, snapshot: &HardwareTelemetrySnapshot, now_unix_ms: u64) -> (r:
        Result<FanPlan, String>)
        requires
            old(self).wf(),
        ensures
            final(self).wf(),
            final(self).extends(*old(self)),
            final(self).settings() == old(self).settings(),
            final(self).history() == evaluation(
                old(self).history(),
                old(self).settings(),
                *snapshot,
                now_unix_ms,
            ).1,
            ({
                let plan = evaluation(old(self).history(), old(self).settings(), *snapshot, now_unix_ms).0;
                let due = old(self).settings().mode == ThermalPolicyMode::SystemAuto
                    && snapshot.fan_actuation_status == FanActuationStatus::Ready;
                let run = snapshot_run(
                    old(self).actuation(),
                    plan,
                    due,
                    failures(final(self).effects_since(old(self).effects())),
                );
                &&& final(self).effects() == old(self).effects() + run.calls
                &&& final(self).actuation() == run.core
                &&& match r {
                    Ok(p) => run.result == Ok::<(), Seq<char>>(()) && p.targets_view() == plan,
                    Err(e) => run.result == Err::<(), Seq<char>>(e@),
                }
            }),
    {
        let ghost e0 = self.effects@;
        let ghost c0 = self.actuation();
        let plan = self.evaluator.evaluate(&self.current, snapshot, now_unix_ms);
        let ghost planned = plan.targets_view();
        let ghost prior = *self;
        let applied = self.apply_plan(&plan);
        proof {
            Self::lemma_extends_trans(*self, prior, *old(self));
        }
        let ghost e1 = self.effects@;
        let ghost a1 = e1.skip(e0.len() as int);
        let ghost run1 = apply_run(c0, planned, failures(a1));
        assert(e1 =~= e0 + a1);
        let due = self.current.mode == ThermalPolicyMode::SystemAuto
            && snapshot.fan_actuation_status == FanActuationStatus::Ready;
        if let Err(e) = applied {
            proof {
                assert(self.effects_since(e0) =~= a1);
            }
            return Err(e);
        }
        if due {
            let ghost prior = *self;
            let beat = self.logged_heartbeat();
            proof {
                Self::lemma_extends_trans(*self, prior, *old(self));
            }
            if let Err(e) = beat {
                let ghost before = self.effects@;
                let ghost prior = *self;
                self.recover_from_actuation_failure();
                proof {
                    Self::lemma_extends_trans(*self, prior, *old(self));
                }
                proof {
                    assert(self.effects@ =~= before.push(self.effects@.last()));
                    let all = self.effects_since(e0);
                    assert(all =~= a1.push(Effect::Heartbeat { failure: Some(e@) }).push(
                        self.effects@.last(),
                    ));
                    lemma_apply_run_extends(c0, planned, failures(a1), failures(all));
                    assert(failures(all)[a1.len() as int] == Some(e@));
                }
                return Err(e);
            }
            proof {
                let all = self.effects_since(e0);
                assert(all =~= a1.push(Effect::Heartbeat { failure: None }));
                lemma_apply_run_extends(c0, planned, failures(a1), failures(all));
                assert(failures(all)[a1.len() as int] == None::<Seq<char>>);
            }
        } else {
            proof {
                assert(self.effects_since(e0) =~= a1);
            }
        }
        Ok(plan)
    }

    /// Applies a plan, writing only the targets that changed.
    fn apply_plan(&mut self, plan: &FanPlan) -> (r: Result<(), String>)
        requires
            old(self).wf(),
        ensures
            final(self).wf(),
            final(self).extends(*old(self)),
            final(self).settings() == old(self).settings(),
            final(self).history() == old(self).history(),
            ({
                let run = apply_run(
                    old(self).actuation(),
                    plan.targets_view(),
                    failures(final(self).effects_since(old(self).effects())),
                );
                &&& final(self).effects() == old(self).effects() + run.calls
                &&& final(self).actuation() == run.core
                &&& result_view(r) == run.result
            }),
    {
        match plan {
            FanPlan::SystemAuto => self.restore_system_auto(),
            FanPlan::Targets { targets } => {
                let ghost e0 = self.effects@;
                let ghost c0 = self.actuation();
                let changed = changed_list(&self.applied_targets, targets);
                let mut i: usize = 0;
                while i < changed.len()
                    invariant
                        self.wf(),
                        self.extends(*old(self)),
                        i <= changed@.len(),
                        changed@ == changed_targets(c0.applied, targets@),
                        self.actuation() == c0,
                        self.settings() == old(self).settings(),
                        self.history() == old(self).history(),
                        e0 == old(self).effects(),
                        c0 == old(self).actuation(),
                        plan.targets_view() == Some(targets@),
                        self.effects@ == e0 + Seq::new(
                            i as nat,
                            |j: int|
                                Effect::SetTarget {
                                    fan_id: changed@[j].fan_id,
                                    rpm: changed@[j].rpm,
                                    failure: None,
                                },
                        ),
                    decreases changed.len() - i,
                {
                    let target = changed[i];
                    let ghost prior = *self;
                    let written = self.logged_set_target(target.fan_id, target.rpm);
                    proof {
                        Self::lemma_extends_trans(*self, prior, *old(self));
                    }
                    if let Err(e) = written {
                        let ghost before = self.effects@;
                        let ghost prior = *self;
                        self.recover_from_actuation_failure();
                        proof {
                            Self::lemma_extends_trans(*self, prior, *old(self));
                        }
                        proof {
                            assert(self.effects@ =~= before.push(self.effects@.last()));
                            let written = Seq::new(
                                i as nat,
                                |j: int|
                                    Effect::SetTarget {
                                        fan_id: changed@[j].fan_id,
                                        rpm: changed@[j].rpm,
                                        failure: None,
                                    },
                            );
                            let failed = Effect::SetTarget {
                                fan_id: target.fan_id,
                                rpm: target.rpm,
                                failure: Some(e@),
                            };
                            let all = self.effects_since(e0);
                            assert(all =~= written.push(failed).push(self.effects@.last()));
                            let o = failures(all);
                            assert(all.len() == i + 2);
                            assert forall|j: int| 0 <= j < i implies outcome(o, j) is None by {
                                assert(all[j] == written[j]);
                            }
                            assert(all[i as int] == failed);
                            assert(outcome(o, i as int) == Some(e@));
                            lemma_first_failure_at(o, i as int, changed@.len() as int);
                            let run = targets_run(c0, targets@, o);
                            assert(run.calls =~= all);
                            assert(self.effects@ =~= e0 + all);
                            assert(run.core == self.actuation());
                            assert(run.result == Err::<(), Seq<char>>(e@));
                            assert(self.wf());
                        }
                        return Err(e);
                    }
                    proof {
                        assert(self.effects@ =~= e0 + Seq::new(
                            (i + 1) as nat,
                            |j: int|
                                Effect::SetTarget {
                                    fan_id: changed@[j].fan_id,
                                    rpm: changed@[j].rpm,
                                    failure: None,
                                },
                        ));
                    }
                    i = i + 1;
                }
                let new_applied = targets_record(targets);
                self.applied_targets = new_applied;
                self.manual_plan_active = true;
                self.system_auto_confirmed = false;
                let ghost n = changed@.len() as int;
                let ghost prior = *self;
                let beat = self.logged_heartbeat();
                proof {
                    Self::lemma_extends_trans(*self, prior, *old(self));
                }
                if let Err(e) = beat {
                    let ghost before = self.effects@;
                    let ghost prior = *self;
                    self.recover_from_actuation_failure();
                    proof {
                        Self::lemma_extends_trans(*self, prior, *old(self));
                    }
                    proof {
                        assert(self.effects@ =~= before.push(self.effects@.last()));
                        let written = Seq::new(
                            n as nat,
                            |j: int|
                                Effect::SetTarget {
                                    fan_id: changed@[j].fan_id,
                                    rpm: changed@[j].rpm,
                                    failure: None,
                                },
                        );
                        let all = self.effects_since(e0);
                        assert(all =~= written.push(Effect::Heartbeat { failure: Some(e@) }).push(
                            self.effects@.last(),
                        ));
                        let o = failures(all);
                        assert(all.len() == n + 2);
                        assert forall|j: int| 0 <= j < n implies outcome(o, j) is None by {
                            assert(all[j] == written[j]);
                        }
                        assert(all[n] == Effect::Heartbeat { failure: Some(e@) });
                        lemma_first_failure_none(o, n);
                        let run = targets_run(c0, targets@, o);
                        assert(run.calls =~= all);
                        assert(self.effects@ =~= e0 + all);
                    }
                    return Err(e);
                }
                proof {
                    let written = Seq::new(
                        n as nat,
                        |j: int|
                            Effect::SetTarget {
                                fan_id: changed@[j].fan_id,
                                rpm: changed@[j].rpm,
                                failure: None,
                            },
                    );
                    let all = self.effects_since(e0);
                    assert(all =~= written.push(Effect::Heartbeat { failure: None }));
                    let o = failures(all);
                    assert(all.len() == n + 1);
                    assert forall|j: int| 0 <= j < n implies outcome(o, j) is None by {
                        assert(all[j] == written[j]);
                    }
                    assert(all[n] == Effect::Heartbeat { failure: None });
                    lemma_first_failure_none(o, n);
                    let run = targets_run(c0, targets@, o);
                    assert(run.calls =~= all);
                    assert(self.effects@ =~= e0 + all);
                    assert(run.core == self.actuation());
                }
                Ok(())
            },
        }
    }

    /// Restores System Auto unless it is already confirmed with no manual
    /// plan active.
    fn restore_system_auto(&mut self) -> (r: Result<(), String>)
        requires
            old(self).wf(),
        ensures
            final(self).wf(),
            final(self).extends(*old(self)),
            final(self).settings() == old(self).settings(),
            final(self).history() == old(self).history(),
            ({
                let run = restore_run(
                    old(self).actuation(),
                    failures(final(self).effects_since(old(self).effects())),
                );
                &&& final(self).effects() == old(self).effects() + run.calls
                &&& final(self).actuation() == run.core
                &&& result_view(r) == run.result
            }),
    {
        if self.manual_plan_active || !self.system_auto_confirmed {
            return self.force_restore_system_auto();
        }
        proof {
            assert(self.effects_since(self.effects@) =~= Seq::<Effect>::empty());
            assert(self.effects@ =~= self.effects@ + Seq::<Effect>::empty());
        }
        Ok(())
    }

    /// Returns every fan to System Auto.
    fn force_restore_system_auto(&mut self) -> (r: Result<(), String>)
        requires
            old(self).wf(),
        ensures
            final(self).wf(),
            final(self).extends(*old(self)),
            final(self).settings() == old(self).settings(),
            final(self).history() == old(self).history(),
            ({
                let run = force_restore_run(
                    old(self).actuation(),
                    failures(final(self).effects_since(old(self).effects())),
                );
                &&& final(self).effects() == old(self).effects() + run.calls
                &&& final(self).actuation() == run.core
                &&& result_view(r) == run.result
            }),
    {
        let ghost e0 = self.effects@;
        let ghost prior = *self;
        let restored = self.logged_restore_all();
        proof {
            Self::lemma_extends_trans(*self, prior, *old(self));
        }
        if let Err(e) = restored {
            proof {
                assert(self.effects_since(e0) =~= seq![Effect::RestoreAll { failure: Some(e@) }]);
                assert(self.effects@ =~= e0 + seq![Effect::RestoreAll { failure: Some(e@) }]);
            }
            return Err(e);
        }
        self.applied_targets.clear();
        self.manual_plan_active = false;
        self.system_auto_confirmed = true;
        proof {
            assert(self.effects_since(e0) =~= seq![Effect::RestoreAll { failure: None }]);
            assert(self.effects@ =~= e0 + seq![Effect::RestoreAll { failure: None }]);
            assert(self.actuation().applied =~= Map::<usize, i32>::empty());
        }
        Ok(())
    }

    /// After a failed write or heartbeat: restore all fans whatever that
    /// returns, and forget what was applied.
    fn recover_from_actuation_failure(&mut self)
        requires
            old(self).wf(),
        ensures
            final(self).wf(),
            final(self).extends(*old(self)),
            final(self).settings() == old(self).settings(),
            final(self).history() == old(self).history(),
            final(self).actuation() == recovered_core(),
            final(self).effects().len() == old(self).effects().len() + 1,
            final(self).effects().take(old(self).effects().len() as int) == old(self).effects(),
            final(self).effects().last() == (Effect::RestoreAll {
                failure: failure_of(final(self).effects().last()),
            }),
    {
        let ghost prior = *self;
        let _ = self.logged_restore_all();
        proof {
            Self::lemma_extends_trans(*self, prior, *old(self));
        }
        self.applied_targets.clear();
        self.manual_plan_active = false;
        self.system_auto_confirmed = false;
        proof {
            assert(self.actuation().applied =~= Map::<usize, i32>::empty());
            assert(self.effects@.take(self.effects@.len() - 1) =~= old(self).effects@);
        }
    }
}

impl<S: SettingsStore, F: FanActuation> ThermalPolicyState<S, F> {
    /// Validates and persists one change, then commits it; selecting System
    /// Auto also returns every fan to System Auto after the commit.
    pub fn update(&mut self, change: ThermalPolicyChange) -> (r: Result<ThermalPolicySettings, String>)
        requires
            old(self).wf(),
        ensures
            final(self).wf(),
            final(self).extends(*old(self)),
            ({
                let requested = changed_settings(
                    old(self).settings().mode,
                    old(self).settings().rules@,
                    change,
                );
                let restore = change == ThermalPolicyChange::SelectMode(ThermalPolicyMode::SystemAuto);
                let appended = final(self).effects_since(old(self).effects());
                match rules_error(requested.1, requested.1.len() as int) {
                    Some(message) => {
                        &&& r matches Err(e) && e@ == message
                        &&& final(self).effects() == old(self).effects()
                        &&& final(self).store() == old(self).store()
                        &&& final(self).fan_actuation() == old(self).fan_actuation()
                        &&& final(self).settings() == old(self).settings()
                        &&& final(self).history() == old(self).history()
                        &&& final(self).actuation() == old(self).actuation()
                    },
                    None => {
                        &&& appended.len() >= 1
                        &&& final(self).effects() == old(self).effects() + appended
                        &&& appended[0] == (Effect::Saved {
                            mode: requested.0,
                            rules: requested.1,
                            failure: failure_of(appended[0]),
                        })
                        &&& match failure_of(appended[0]) {
                            Some(f) => {
                                &&& appended.len() == 1
                                &&& final(self).fan_actuation() == old(self).fan_actuation()
                                &&& r matches Err(e) && e@ == f
                                &&& final(self).settings() == old(self).settings()
                                &&& final(self).history() == old(self).history()
                                &&& final(self).actuation() == old(self).actuation()
                            },
                            None => {
                                &&& (final(self).settings().mode, final(self).settings().rules@)
                                    == requested
                                &&& final(self).history() == Map::<usize, PreviousTarget>::empty()
                                &&& if restore {
                                    let run = force_restore_run(
                                        old(self).actuation(),
                                        failures(appended.skip(1)),
                                    );
                                    &&& appended == seq![appended[0]] + run.calls
                                    &&& final(self).actuation() == run.core
                                    &&& match r {
                                        Ok(updated) => run.result == Ok::<(), Seq<char>>(())
                                            && updated.same_as(final(self).settings()),
                                        Err(e) => run.result == Err::<(), Seq<char>>(e@),
                                    }
                                } else {
                                    &&& appended.len() == 1
                                    &&& final(self).fan_actuation() == old(self).fan_actuation()
                                    &&& final(self).actuation() == old(self).actuation()
                                    &&& r matches Ok(updated) && updated.same_as(
                                        final(self).settings(),
                                    )
                                }
                            },
                        }
                    },
                }
            }),
    {
        let restore = match &change {
            ThermalPolicyChange::SelectMode(ThermalPolicyMode::SystemAuto) => true,
            _ => false,
        };
        let ghost requested = changed_settings(self.current.mode, self.current.rules@, change);
        let mut updated = self.current.clone();
        apply_change(&mut updated, change);
        if let Err(e) = validate(&updated) {
            return Err(e);
        }
        let ghost e0 = self.effects@;
        let ghost prior = *self;
        let saved = self.logged_save(&updated);
        proof {
            Self::lemma_extends_trans(*self, prior, *old(self));
        }
        if let Err(e) = saved {
            proof {
                assert(self.effects_since(e0) =~= seq![self.effects@.last()]);
                assert(self.effects@ =~= e0 + self.effects_since(e0));
            }
            return Err(e);
        }
        let ghost e1 = self.effects@;
        self.current = updated.clone();
        self.evaluator = ThermalPolicyEvaluator::default();
        if restore {
            let ghost prior = *self;
            let restored = self.force_restore_system_auto();
            proof {
                Self::lemma_extends_trans(*self, prior, *old(self));
            }
            proof {
                let appended = self.effects_since(e0);
                let tail = self.effects_since(e1);
                assert(appended =~= seq![e1.last()] + tail);
                assert(appended.skip(1) =~= tail);
                assert(self.effects@ =~= e0 + appended);
            }
            if let Err(e) = restored {
                return Err(e);
            }
        } else {
            proof {
                assert(self.effects_since(e0) =~= seq![e1.last()]);
                assert(self.effects@ =~= e0 + self.effects_since(e0));
            }
        }
        Ok(updated)
    }
}

/// Applies a change to a copy of the settings.
fn apply_change(settings: &mut ThermalPolicySettings, change: ThermalPolicyChange)
    ensures
        (final(settings).mode, final(settings).rules@) == changed_settings(
            old(settings).mode,
            old(settings).rules@,
            change,
        ),
{
    match change {
        ThermalPolicyChange::SelectMode(mode) => {
            settings.mode = mode;
        },
        ThermalPolicyChange::UpsertRule(rule) => {
            let mut i: usize = 0;
            let mut found = false;
            while i < settings.rules.len()
                invariant_except_break
                    i <= settings.rules@.len(),
                    settings.rules@ == old(settings).rules@,
                    settings.mode == old(settings).mode,
                    forall|j: int| 0 <= j < i ==> #[trigger] settings.rules@[j].id@ != rule.id@,
                    !found,
                ensures
                    i <= settings.rules@.len(),
                    settings.rules@ == old(settings).rules@,
                    settings.mode == old(settings).mode,
                    forall|j: int| 0 <= j < i ==> #[trigger] settings.rules@[j].id@ != rule.id@,
                    found ==> i < settings.rules@.len() && settings.rules@[i as int].id@ == rule.id@,
                    !found ==> i == settings.rules@.len(),
                decreases settings.rules.len() - i,
            {
                if settings.rules[i].id == rule.id {
                    found = true;
                    break;
                }
                i = i + 1;
            }
            proof {
                if found {
                    lemma_first_with_id_at(settings.rules@, rule.id@, i as int);
                } else {
                    lemma_first_with_id_none(settings.rules@, rule.id@);
                }
            }
            if found {
                settings.rules.set(i, rule);
            } else {
                settings.rules.push(rule);
            }
            settings.mode = ThermalPolicyMode::Custom;
        },
        ThermalPolicyChange::DeleteRule(id) => {
            let mut kept: Vec<ThermalRule> = Vec::new();
            let ghost rules = settings.rules@;
            while settings.rules.len() > 0
                invariant
                    rules == old(settings).rules@,
                    settings.mode == old(settings).mode,
                    settings.rules@.len() <= rules.len(),
                    settings.rules@ == rules.skip(rules.len() - settings.rules@.len()),
                    kept@ == without_id(rules.take(rules.len() - settings.rules@.len()), id@),
                decreases settings.rules.len(),
            {
                let ghost done = rules.len() - settings.rules@.len();
                let rule = settings.rules.remove(0);
                proof {
                    assert(rules.take(done + 1).drop_last() =~= rules.take(done));
                    assert(rules.take(done + 1).last() == rule);
                    assert(settings.rules@ =~= rules.skip(done + 1));
                }
                if rule.id != id {
                    kept.push(rule);
                }
            }
            proof {
                assert(rules.take(rules.len() as int) =~= rules);
            }
            settings.rules = kept;
        },
    }
}

/// The first index of an id is the first position that holds it.
proof fn lemma_first_with_id_at(rules: Seq<ThermalRule>, id: Seq<char>, i: int)
    requires
        0 <= i < rules.len(),
        forall|j: int| 0 <= j < i ==> #[trigger] rules[j].id@ != id,
        rules[i].id@ == id,
    ensures
        first_with_id(rules, id) == Some(i),
    decreases rules.len(),
{
    if i < rules.len() - 1 {
        lemma_first_with_id_at(rules.drop_last(), id, i);
    } else {
        lemma_first_with_id_none(rules.drop_last(), id);
    }
}

/// No rule holds the id.
proof fn lemma_first_with_id_none(rules: Seq<ThermalRule>, id: Seq<char>)
    requires
        forall|j: int| 0 <= j < rules.len() ==> #[trigger] rules[j].id@ != id,
    ensures
        first_with_id(rules, id) is None,
    decreases rules.len(),
{
    if rules.len() > 0 {
        lemma_first_with_id_none(rules.drop_last(), id);
    }
}

/// The targets that differ from what was last applied.
pub(crate) fn changed_list(applied: &BTreeMap<usize, i32>, targets: &Vec<FanTarget>) -> (changed: Vec<FanTarget>)
    ensures
        changed@ == changed_targets(applied@, targets@),
{
    let mut changed: Vec<FanTarget> = Vec::new();
    let mut i: usize = 0;
    while i < targets.len()
        invariant
            i <= targets@.len(),
            changed@ == changed_targets(applied@, targets@.take(i as int)),
        decreases targets.len() - i,
    {
        let t = targets[i];
        proof {
            assert(targets@.take(i + 1).drop_last() =~= targets@.take(i as int));
            assert(targets@.take(i + 1).last() == t);
        }
        let unchanged = match applied.get(&t.fan_id) {
            Some(rpm) => *rpm == t.rpm,
            None => false,
        };
        if !unchanged {
            changed.push(t);
        }
        i = i + 1;
    }
    proof {
        assert(targets@.take(targets@.len() as int) =~= targets@);
    }
    changed
}

/// The fan-to-RPM record of a plan's targets.
pub(crate) fn targets_record(targets: &Vec<FanTarget>) -> (record: BTreeMap<usize, i32>)
    ensures
        record@ == targets_map(targets@),
{
    let mut record: BTreeMap<usize, i32> = BTreeMap::new();
    let mut i: usize = 0;
    while i < targets.len()
        invariant
            i <= targets@.len(),
            record@ == targets_map(targets@.take(i as int)),
        decreases targets.len() - i,
    {
        let t = targets[i];
        proof {
            assert(targets@.take(i + 1).drop_last() =~= targets@.take(i as int));
            assert(targets@.take(i + 1).last() == t);
        }
        record.insert(t.fan_id, t.rpm);
        i = i + 1;
    }
    proof {
        assert(targets@.take(targets@.len() as int) =~= targets@);
    }
    record
}

/// No failure among the first `n` calls.
pub proof fn lemma_first_failure_none(outcomes: Seq<Option<Seq<char>>>, n: int)
    requires
        forall|j: int| 0 <= j < n ==> outcome(outcomes, j) is None,
    ensures
        first_failure(outcomes, n) is None,
    decreases n,
{
    if n > 0 {
        lemma_first_failure_none(outcomes, n - 1);
    }
}

/// The first failure is the first call that failed.
pub proof fn lemma_first_failure_at(outcomes: Seq<Option<Seq<char>>>, i: int, n: int)
    requires
        0 <= i < n,
        forall|j: int| 0 <= j < i ==> outcome(outcomes, j) is None,
        outcome(outcomes, i) is Some,
    ensures
        first_failure(outcomes, n) == Some(i),
    decreases n,
{
    if n - 1 > i {
        lemma_first_failure_at(outcomes, i, n - 1);
    } else {
        lemma_first_failure_none(outcomes, i);
    }
}

/// `first_failure` only reads the outcomes up to the failure it finds (or
/// up to `n` when it finds none).
proof fn lemma_first_failure_agree(
    o1: Seq<Option<Seq<char>>>,
    o2: Seq<Option<Seq<char>>>,
    n: int,
    m: int,
)
    requires
        forall|i: int| 0 <= i < m ==> outcome(o1, i) == outcome(o2, i),
        first_failure(o1, n) matches Some(k) ==> k < m,
        first_failure(o1, n) is None ==> n <= m,
    ensures
        first_failure(o2, n) == first_failure(o1, n),
    decreases n,
{
    if n > 0 {
        match first_failure(o1, n - 1) {
            Some(k) => {
                lemma_first_failure_agree(o1, o2, n - 1, m);
            },
            None => {
                assert(n - 1 < m);
                lemma_first_failure_agree(o1, o2, n - 1, m);
            },
        }
    }
}

/// A complete run reads only its own outcomes: extending them changes
/// nothing.
proof fn lemma_apply_run_extends(
    core: ActuationCore,
    plan: Option<Seq<FanTarget>>,
    o1: Seq<Option<Seq<char>>>,
    o2: Seq<Option<Seq<char>>>,
)
    requires
        o1.len() == apply_run(core, plan, o1).calls.len(),
        o1.len() <= o2.len(),
        forall|i: int| 0 <= i < o1.len() ==> o1[i] == o2[i],
    ensures
        apply_run(core, plan, o2) == apply_run(core, plan, o1),
{
    assert forall|i: int| 0 <= i < o1.len() implies outcome(o1, i) == outcome(o2, i) by {}
    match plan {
        None => {},
        Some(targets) => {
            let changed = changed_targets(core.applied, targets);
            let n = changed.len() as int;
            match first_failure(o1, n) {
                Some(k) => {
                    lemma_first_failure_agree(o1, o2, n, o1.len() as int);
                    assert(writes(changed, o1, k + 1) =~= writes(changed, o2, k + 1));
                },
                None => {
                    lemma_first_failure_agree(o1, o2, n, o1.len() as int);
                    assert(writes(changed, o1, n) =~= writes(changed, o2, n));
                },
            }
        },
    }
}

/// What a store load returned, when it returned settings.
pub open spec fn stored_settings(loaded: Result<Option<ThermalPolicySettings>, String>) -> Option<
    (ThermalPolicyMode, Seq<ThermalRule>),
> {
    match loaded {
        Ok(Some(s)) => Some((s.mode, s.rules@)),
        _ => None,
    }
}

/// The settings that loading adopts from what the store returned.
pub fn settings_from_store(loaded: Result<Option<ThermalPolicySettings>, String>) -> (settings:
    ThermalPolicySettings)
    ensures
        (settings.mode, settings.rules@) == adopted_settings(stored_settings(loaded)),
        valid_settings(settings),
{
    match loaded {
        Ok(Some(settings)) => {
            if validate(&settings).is_ok() {
                settings
            } else {
                ThermalPolicySettings::default()
            }
        },
        _ => ThermalPolicySettings::default(),
    }
}

} // verus!
