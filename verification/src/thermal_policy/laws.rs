//! Properties of the thermal policy that hold for every input.
use super::contract::{
    FanTarget, ThermalPolicyMode, ThermalPolicySettings, ThermalRule, ThermalTarget,
};
use super::evaluator::{
    curve_request, decided_rpm, elapsed_ms, evaluation, fraction_at_least, held_by_hysteresis,
    hottest_sensor, is_stale, max_decrease, percent_fraction, plan_fans, policy_curves,
    previous_of, requested_rpm, round_div, sensor_reading, strongest_request, target_temperature,
    Curve, PreviousTarget,
    DECREASE_HYSTERESIS_MILLICELSIUS,
};
use super::state::{
    apply_run, changed_settings, changed_targets, clean_writes, first_failure, first_with_id,
    lemma_first_failure_none, outcome, recovered_core, snapshot_run, targets_map, without_id,
    writes, ActuationCore, Effect, ThermalPolicyChange,
};
use crate::hardware_telemetry::contract::{
    Availability, FanReading, HardwareTelemetrySnapshot, TemperatureReading, TemperatureReadings,
};
use vstd::prelude::*;

verus! {

/// System Auto mode always produces a System Auto fan plan and forgets the
/// evaluator's history.
pub proof fn law_system_auto_mode_yields_system_auto(
    history: Map<usize, PreviousTarget>,
    settings: ThermalPolicySettings,
    snapshot: HardwareTelemetrySnapshot,
    now: u64,
)
    requires
        settings.mode == ThermalPolicyMode::SystemAuto,
    ensures
        evaluation(history, settings, snapshot, now).0 is None,
        evaluation(history, settings, snapshot, now).1 == Map::<usize, PreviousTarget>::empty(),
{
}

/// Stale, missing or unavailable hardware data produces System Auto.
pub proof fn law_unusable_snapshot_yields_system_auto(
    history: Map<usize, PreviousTarget>,
    settings: ThermalPolicySettings,
    snapshot: HardwareTelemetrySnapshot,
    now: u64,
)
    requires
        is_stale(snapshot, now) || !(snapshot.temperatures is Available) || !(
        snapshot.fans is Available) || (snapshot.fans matches Availability::Available { value }
            && value@.len() == 0),
    ensures
        evaluation(history, settings, snapshot, now).0 is None,
        evaluation(history, settings, snapshot, now).1 == Map::<usize, PreviousTarget>::empty(),
{
}

/// When no active rule can read its temperature, the plan is System Auto:
/// a missing sensor never produces manual actuation.
pub proof fn law_no_readable_rule_yields_system_auto(
    history: Map<usize, PreviousTarget>,
    settings: ThermalPolicySettings,
    snapshot: HardwareTelemetrySnapshot,
    now: u64,
)
    requires
        snapshot.temperatures matches Availability::Available { value: temps } && forall|i: int|
            0 <= i < policy_curves(settings).len() ==> curve_request(
                #[trigger] policy_curves(settings)[i],
                temps,
            ) is None,
    ensures
        evaluation(history, settings, snapshot, now).0 is None,
{
    let temps = snapshot.temperatures->value;
    lemma_strongest_request_none(policy_curves(settings), temps);
}

proof fn lemma_strongest_request_none(curves: Seq<Curve>, temps: TemperatureReadings)
    requires
        forall|i: int| 0 <= i < curves.len() ==> curve_request(#[trigger] curves[i], temps) is None,
    ensures
        strongest_request(curves, temps) is None,
    decreases curves.len(),
{
    if curves.len() > 0 {
        assert forall|i: int| 0 <= i < curves.drop_last().len() implies curve_request(
            #[trigger] curves.drop_last()[i],
            temps,
        ) is None by {
            assert(curves.drop_last()[i] == curves[i]);
        }
        lemma_strongest_request_none(curves.drop_last(), temps);
        assert(curve_request(curves[curves.len() - 1], temps) is None);
    }
}

/// When several rules apply, the strongest request wins: the chosen fan
/// percentage is at least the percentage of every applicable rule, and it is
/// the request of one of them; with no applicable rule there is no request.
pub proof fn law_highest_request_wins(curves: Seq<Curve>, temps: TemperatureReadings)
    ensures
        strongest_request(curves, temps) matches Some(best) ==> {
            &&& forall|i: int|
                0 <= i < curves.len() && curve_request(#[trigger] curves[i], temps) is Some
                    ==> fraction_at_least(best.1, curve_request(curves[i], temps).unwrap().1)
            &&& exists|i: int|
                0 <= i < curves.len() && curve_request(#[trigger] curves[i], temps) == Some(best)
        },
        strongest_request(curves, temps) is None ==> forall|i: int|
            0 <= i < curves.len() ==> curve_request(#[trigger] curves[i], temps) is None,
    decreases curves.len(),
{
    if curves.len() > 0 {
        let n = curves.len() - 1;
        let rest = curves.drop_last();
        law_highest_request_wins(rest, temps);
        lemma_strongest_positive(rest, temps);
        let last = curves[n];
        lemma_request_positive(last, temps);
        let cand = curve_request(last, temps);
        let earlier = strongest_request(rest, temps);
        assert forall|i: int| 0 <= i < n implies curves[i] == #[trigger] rest[i] by {}
        match strongest_request(curves, temps) {
            None => {
                assert forall|i: int| 0 <= i < curves.len() implies curve_request(
                    #[trigger] curves[i],
                    temps,
                ) is None by {
                    if i < n {
                        assert(curves[i] == rest[i]);
                    }
                }
            },
            Some(best) => {
                assert forall|i: int|
                    0 <= i < curves.len() && curve_request(#[trigger] curves[i], temps)
                        is Some implies fraction_at_least(
                    best.1,
                    curve_request(curves[i], temps).unwrap().1,
                ) by {
                    let q = curve_request(curves[i], temps).unwrap().1;
                    lemma_request_positive(curves[i], temps);
                    if i == n {
                        match earlier {
                            Some(b) => {
                                if fraction_at_least(cand.unwrap().1, b.1) {
                                    lemma_fraction_reflexive(best.1);
                                } else {
                                    lemma_fraction_total(cand.unwrap().1, b.1);
                                }
                            },
                            None => {
                                lemma_fraction_reflexive(best.1);
                            },
                        }
                    } else {
                        assert(curves[i] == rest[i]);
                        match earlier {
                            Some(b) => {
                                assert(fraction_at_least(b.1, q));
                                if best != b {
                                    lemma_fraction_transitive(best.1, b.1, q);
                                }
                            },
                            None => {
                                assert(curve_request(rest[i], temps) is None);
                            },
                        }
                    }
                }
                if earlier == Some(best) {
                    let j = choose|j: int|
                        0 <= j < rest.len() && curve_request(#[trigger] rest[j], temps) == Some(best);
                    assert(curves[j] == rest[j]);
                } else {
                    assert(curve_request(curves[n], temps) == Some(best));
                }
            },
        }
    }
}

proof fn lemma_request_positive(c: Curve, temps: TemperatureReadings)
    ensures
        curve_request(c, temps) matches Some(q) ==> (q.1).1 > 0,
{
}

proof fn lemma_strongest_positive(curves: Seq<Curve>, temps: TemperatureReadings)
    ensures
        strongest_request(curves, temps) matches Some(q) ==> (q.1).1 > 0,
    decreases curves.len(),
{
    if curves.len() > 0 {
        lemma_strongest_positive(curves.drop_last(), temps);
        lemma_request_positive(curves.last(), temps);
    }
}

proof fn lemma_fraction_reflexive(a: (int, int))
    ensures
        fraction_at_least(a, a),
{
    assert(a.0 * a.1 >= a.0 * a.1);
}

proof fn lemma_fraction_total(a: (int, int), b: (int, int))
    ensures
        !fraction_at_least(a, b) ==> fraction_at_least(b, a),
{
}

proof fn lemma_fraction_transitive(a: (int, int), b: (int, int), c: (int, int))
    requires
        a.1 > 0,
        b.1 > 0,
        c.1 > 0,
        fraction_at_least(a, b),
        fraction_at_least(b, c),
    ensures
        fraction_at_least(a, c),
{
    let (a0, a1) = a;
    let (b0, b1) = b;
    let (c0, c1) = c;
    assert(a0 * c1 >= c0 * a1) by (nonlinear_arith)
        requires
            a1 > 0,
            b1 > 0,
            c1 > 0,
            a0 * b1 >= b0 * a1,
            b0 * c1 >= c0 * b1,
    {
        assert((a0 * b1) * c1 >= (b0 * a1) * c1);
        assert((b0 * c1) * a1 >= (c0 * b1) * a1);
        assert((a0 * c1) * b1 >= (c0 * a1) * b1);
    }
}

/// An increase (or an unchanged request) applies immediately.
pub proof fn law_increase_applies_immediately(
    prev: Option<PreviousTarget>,
    requested: int,
    t: int,
    now: u64,
)
    requires
        prev matches Some(p) ==> requested >= p.rpm,
    ensures
        decided_rpm(prev, requested, t, now) == requested,
        !held_by_hysteresis(prev, requested, t),
{
}

/// A decrease is held at the previous target until the temperature has
/// dropped by the hysteresis margin.
pub proof fn law_decrease_requires_hysteresis(p: PreviousTarget, requested: int, t: int, now: u64)
    requires
        requested < p.rpm,
        t > p.millicelsius - DECREASE_HYSTERESIS_MILLICELSIUS,
    ensures
        decided_rpm(Some(p), requested, t, now) == p.rpm,
{
}

/// A decrease never falls below the request, never rises above the previous
/// target, and falls by at most the rate limit for the elapsed time.
pub proof fn law_decrease_is_rate_limited(p: PreviousTarget, requested: int, t: int, now: u64)
    requires
        requested < p.rpm,
    ensures
        requested <= decided_rpm(Some(p), requested, t, now) <= p.rpm,
        decided_rpm(Some(p), requested, t, now) >= p.rpm - max_decrease(
            elapsed_ms(now, p.evaluated_at_unix_ms),
        ),
{
    assert(max_decrease(elapsed_ms(now, p.evaluated_at_unix_ms)) >= 0);
}

/// Whether no fan id occurs twice in a fan list.
pub open spec fn distinct_fan_ids(fans: Seq<FanReading>) -> bool {
    forall|i: int, j: int| 0 <= i < j < fans.len() ==> fans[i].id != fans[j].id
}

/// Planning a list of distinct fans decides each fan against the history
/// from before the evaluation, and leaves the history of other fans alone.
proof fn lemma_plan_fans_against_history(
    fans: Seq<FanReading>,
    p: (int, int),
    t: i32,
    now: u64,
    history: Map<usize, PreviousTarget>,
)
    requires
        distinct_fan_ids(fans),
        plan_fans(fans, p, t, now, history) is Some,
    ensures
        ({
            let planned = plan_fans(fans, p, t, now, history).unwrap();
            &&& planned.0.len() == fans.len()
            &&& forall|i: int|
                0 <= i < fans.len() ==> requested_rpm(#[trigger] fans[i], p) is Some && planned.0[i]
                    == (FanTarget {
                    fan_id: fans[i].id,
                    rpm: decided_rpm(
                        previous_of(history, fans[i].id),
                        requested_rpm(fans[i], p).unwrap(),
                        t as int,
                        now,
                    ) as i32,
                })
            &&& forall|id: usize|
                (forall|i: int| 0 <= i < fans.len() ==> #[trigger] fans[i].id != id) ==> previous_of(
                    planned.1,
                    id,
                ) == previous_of(history, id)
        }),
    decreases fans.len(),
{
    if fans.len() > 0 {
        let rest = fans.drop_last();
        let fan = fans.last();
        assert forall|i: int, j: int| 0 <= i < j < rest.len() implies rest[i].id != rest[j].id by {
            assert(rest[i] == fans[i] && rest[j] == fans[j]);
        }
        lemma_plan_fans_against_history(rest, p, t, now, history);
        let planned = plan_fans(rest, p, t, now, history).unwrap();
        assert forall|i: int| 0 <= i < rest.len() implies #[trigger] rest[i].id != fan.id by {
            assert(rest[i] == fans[i]);
        }
        assert(previous_of(planned.1, fan.id) == previous_of(history, fan.id));
        let all = plan_fans(fans, p, t, now, history).unwrap();
        assert forall|i: int| 0 <= i < fans.len() implies requested_rpm(#[trigger] fans[i], p) is Some
            && all.0[i] == (FanTarget {
            fan_id: fans[i].id,
            rpm: decided_rpm(
                previous_of(history, fans[i].id),
                requested_rpm(fans[i], p).unwrap(),
                t as int,
                now,
            ) as i32,
        }) by {
            if i < rest.len() {
                assert(fans[i] == rest[i]);
            }
        }
        assert forall|id: usize|
            (forall|i: int| 0 <= i < fans.len() ==> #[trigger] fans[i].id != id) implies previous_of(
            all.1,
            id,
        ) == previous_of(history, id) by {
            assert forall|i: int| 0 <= i < rest.len() implies #[trigger] rest[i].id != id by {
                assert(rest[i] == fans[i]);
            }
            assert(fans[fans.len() - 1].id != id);
        }
    }
}

/// Across evaluations, each fan's target follows the decrease policy against
/// the target that earlier evaluations recorded for it: an increase (or a
/// fan with no earlier target) applies at once; a decrease is held at the
/// earlier target until the temperature has dropped by the hysteresis
/// margin; and an accepted decrease stays between the request and the
/// earlier target, falling by at most the rate limit for the time elapsed.
/// (The snapshot lists each fan once.)
pub proof fn law_targets_follow_decrease_policy(
    history: Map<usize, PreviousTarget>,
    settings: ThermalPolicySettings,
    snapshot: HardwareTelemetrySnapshot,
    now: u64,
)
    requires
        evaluation(history, settings, snapshot, now).0 is Some,
        snapshot.fans matches Availability::Available { value } && distinct_fan_ids(value@),
    ensures
        ({
            let targets = evaluation(history, settings, snapshot, now).0.unwrap();
            let fans = snapshot.fans->value@;
            let request = strongest_request(
                policy_curves(settings),
                snapshot.temperatures->value,
            ).unwrap();
            &&& targets.len() == fans.len()
            &&& forall|i: int|
                0 <= i < fans.len() ==> {
                    let prev = previous_of(history, fans[i].id);
                    let requested = requested_rpm(fans[i], request.1).unwrap();
                    let rpm = (#[trigger] targets[i]).rpm as int;
                    &&& targets[i].fan_id == fans[i].id
                    &&& (prev matches Some(q) ==> requested >= q.rpm) ==> rpm == requested
                    &&& held_by_hysteresis(prev, requested, request.0 as int) ==> rpm
                        == prev.unwrap().rpm
                    &&& (prev matches Some(q) && requested < q.rpm) ==> {
                        let q = prev.unwrap();
                        &&& requested <= rpm <= q.rpm
                        &&& rpm >= q.rpm - max_decrease(elapsed_ms(now, q.evaluated_at_unix_ms))
                    }
                }
        }),
{
    let fans = snapshot.fans->value@;
    let temps = snapshot.temperatures->value;
    let request = strongest_request(policy_curves(settings), temps).unwrap();
    lemma_plan_fans_against_history(fans, request.1, request.0, now, history);
    let targets = evaluation(history, settings, snapshot, now).0.unwrap();
    assert forall|i: int| 0 <= i < fans.len() implies {
        let prev = previous_of(history, fans[i].id);
        let requested = requested_rpm(fans[i], request.1).unwrap();
        let rpm = (#[trigger] targets[i]).rpm as int;
        &&& targets[i].fan_id == fans[i].id
        &&& (prev matches Some(q) ==> requested >= q.rpm) ==> rpm == requested
        &&& held_by_hysteresis(prev, requested, request.0 as int) ==> rpm == prev.unwrap().rpm
        &&& (prev matches Some(q) && requested < q.rpm) ==> {
            let q = prev.unwrap();
            &&& requested <= rpm <= q.rpm
            &&& rpm >= q.rpm - max_decrease(elapsed_ms(now, q.evaluated_at_unix_ms))
        }
    } by {
        let prev = previous_of(history, fans[i].id);
        let requested = requested_rpm(fans[i], request.1).unwrap();
        let t = request.0 as int;
        let decided = decided_rpm(prev, requested, t, now);
        assert(i32::MIN <= requested <= i32::MAX);
        match prev {
            Some(q) => {
                if requested < q.rpm {
                    law_decrease_is_rate_limited(q, requested, t, now);
                    if held_by_hysteresis(prev, requested, t) {
                        law_decrease_requires_hysteresis(q, requested, t, now);
                    }
                } else {
                    law_increase_applies_immediately(prev, requested, t, now);
                }
            },
            None => {
                law_increase_applies_immediately(prev, requested, t, now);
            },
        }
        assert(i32::MIN <= decided <= i32::MAX);
        assert(targets[i].rpm as int == decided);
    }
}

/// A held decrease leaves the hysteresis reference where it was, so gradual
/// cooling is measured against the last accepted target.
pub proof fn law_hysteresis_reference_is_kept(
    history: Map<usize, PreviousTarget>,
    fan: crate::hardware_telemetry::contract::FanReading,
    p: (int, int),
    t: i32,
    now: u64,
)
    requires
        requested_rpm(fan, p) matches Some(requested) && held_by_hysteresis(
            previous_of(history, fan.id),
            requested,
            t as int,
        ),
    ensures
        plan_fans(seq![fan], p, t, now, history) matches Some(planned) && planned.1 == history,
{
    reveal_with_fuel(plan_fans, 2);
    assert(seq![fan].drop_last() =~= Seq::<crate::hardware_telemetry::contract::FanReading>::empty());
}

/// A System Auto plan restores all fans unless System Auto is already
/// confirmed with no manual plan active; once applied, no manual plan
/// remains.
pub proof fn law_system_auto_plan_leaves_no_manual_plan(
    core: ActuationCore,
    outcomes: Seq<Option<Seq<char>>>,
)
    ensures
        apply_run(core, None, outcomes).result is Ok ==> {
            &&& !apply_run(core, None, outcomes).core.manual_plan_active
            &&& apply_run(core, None, outcomes).core.system_auto_confirmed
        },
        core.manual_plan_active || !core.system_auto_confirmed ==> apply_run(
            core,
            None,
            outcomes,
        ).calls[0] is RestoreAll,
        !core.manual_plan_active && core.system_auto_confirmed ==> apply_run(
            core,
            None,
            outcomes,
        ).calls.len() == 0,
{
}

/// A failed write or heartbeat is always followed by restoring every fan
/// to System Auto, and the module then records no manual plan.
pub proof fn law_failed_targets_restore_system_auto(
    core: ActuationCore,
    targets: Seq<FanTarget>,
    outcomes: Seq<Option<Seq<char>>>,
)
    ensures
        apply_run(core, Some(targets), outcomes).result is Err ==> {
            &&& apply_run(core, Some(targets), outcomes).calls.last() is RestoreAll
            &&& apply_run(core, Some(targets), outcomes).core == recovered_core()
        },
        apply_run(core, Some(targets), outcomes).result is Ok ==> {
            &&& apply_run(core, Some(targets), outcomes).core.manual_plan_active
            &&& apply_run(core, Some(targets), outcomes).core.applied == targets_map(targets)
            &&& apply_run(core, Some(targets), outcomes).calls.last() == (Effect::Heartbeat {
                failure: None,
            })
        },
{
}

/// Targets that were already applied are not written again: re-applying
/// the same plan (one target per fan) only heartbeats.
pub proof fn law_unchanged_targets_are_not_rewritten(
    targets: Seq<FanTarget>,
    outcomes: Seq<Option<Seq<char>>>,
)
    requires
        outcome(outcomes, 0) is None,
        forall|i: int, j: int|
            0 <= i < j < targets.len() ==> #[trigger] targets[i].fan_id != #[trigger] targets[j].fan_id,
    ensures
        ({
            let core = ActuationCore {
                applied: targets_map(targets),
                manual_plan_active: true,
                system_auto_confirmed: false,
            };
            apply_run(core, Some(targets), outcomes).calls == seq![
                Effect::Heartbeat { failure: None },
            ]
        }),
{
    lemma_targets_map_holds_each(targets);
    lemma_applied_targets_unchanged(targets, targets.len() as int);
    assert(targets.take(targets.len() as int) =~= targets);
    let changed = changed_targets(targets_map(targets), targets);
    assert(writes(changed, outcomes, 0) =~= Seq::<Effect>::empty());
    assert(Seq::<Effect>::empty().push(Effect::Heartbeat { failure: None }) =~= seq![
        Effect::Heartbeat { failure: None },
    ]);
}

proof fn lemma_applied_targets_unchanged(targets: Seq<FanTarget>, n: int)
    requires
        0 <= n <= targets.len(),
        forall|i: int|
            0 <= i < targets.len() ==> targets_map(targets).contains_key(#[trigger] targets[i].fan_id)
                && targets_map(targets)[targets[i].fan_id] == targets[i].rpm,
    ensures
        changed_targets(targets_map(targets), targets.take(n)) == Seq::<FanTarget>::empty(),
    decreases n,
{
    if n > 0 {
        assert(targets.take(n).drop_last() =~= targets.take(n - 1));
        assert(targets.take(n).last() == targets[n - 1]);
        lemma_applied_targets_unchanged(targets, n - 1);
    }
}

/// With one target per fan, the record of a plan holds every target.
proof fn lemma_targets_map_holds_each(targets: Seq<FanTarget>)
    requires
        forall|i: int, j: int|
            0 <= i < j < targets.len() ==> #[trigger] targets[i].fan_id != #[trigger] targets[j].fan_id,
    ensures
        forall|i: int|
            0 <= i < targets.len() ==> targets_map(targets).contains_key(#[trigger] targets[i].fan_id)
                && targets_map(targets)[targets[i].fan_id] == targets[i].rpm,
    decreases targets.len(),
{
    if targets.len() > 0 {
        let rest = targets.drop_last();
        assert forall|i: int, j: int| 0 <= i < j < rest.len() implies #[trigger] rest[i].fan_id
            != #[trigger] rest[j].fan_id by {
            assert(rest[i] == targets[i] && rest[j] == targets[j]);
        }
        lemma_targets_map_holds_each(rest);
        assert forall|i: int| 0 <= i < targets.len() implies targets_map(targets).contains_key(
            #[trigger] targets[i].fan_id,
        ) && targets_map(targets)[targets[i].fan_id] == targets[i].rpm by {
            if i < targets.len() - 1 {
                assert(rest[i] == targets[i]);
                assert(targets[i].fan_id != targets[targets.len() - 1].fan_id);
            }
        }
    }
}

/// Deleting a rule removes every rule with that id and keeps the others in
/// order.
pub proof fn law_delete_removes_only_that_id(rules: Seq<ThermalRule>, id: Seq<char>)
    ensures
        forall|i: int| 0 <= i < without_id(rules, id).len() ==> #[trigger] without_id(rules, id)[i].id@
            != id,
        without_id(rules, id).len() <= rules.len(),
        forall|i: int| 0 <= i < rules.len() && #[trigger] rules[i].id@ != id ==> without_id(
            rules,
            id,
        ).contains(rules[i]),
    decreases rules.len(),
{
    if rules.len() > 0 {
        law_delete_removes_only_that_id(rules.drop_last(), id);
        let earlier = without_id(rules.drop_last(), id);
        assert forall|i: int| 0 <= i < rules.len() && #[trigger] rules[i].id@ != id implies without_id(
            rules,
            id,
        ).contains(rules[i]) by {
            if i < rules.len() - 1 {
                assert(rules.drop_last()[i] == rules[i]);
                let k = choose|k: int| 0 <= k < earlier.len() && earlier[k] == rules[i];
                if rules.last().id@ != id {
                    assert(earlier.push(rules.last())[k] == rules[i]);
                }
            } else {
                assert(without_id(rules, id)[without_id(rules, id).len() - 1] == rules[i]);
            }
        }
    }
}

/// Upserting a rule selects Custom mode and leaves the rule in the list.
pub proof fn law_upsert_selects_custom(mode: ThermalPolicyMode, rules: Seq<ThermalRule>, rule: ThermalRule)
    ensures
        changed_settings(mode, rules, ThermalPolicyChange::UpsertRule(rule)).0
            == ThermalPolicyMode::Custom,
        changed_settings(mode, rules, ThermalPolicyChange::UpsertRule(rule)).1.contains(rule),
{
    lemma_first_with_id_in_range(rules, rule.id@);
    let r = changed_settings(mode, rules, ThermalPolicyChange::UpsertRule(rule)).1;
    match first_with_id(rules, rule.id@) {
        Some(i) => {
            assert(r[i] == rule);
        },
        None => {
            assert(r[rules.len() as int] == rule);
        },
    }
}

proof fn lemma_first_with_id_in_range(rules: Seq<ThermalRule>, id: Seq<char>)
    ensures
        first_with_id(rules, id) matches Some(i) ==> 0 <= i < rules.len(),
    decreases rules.len(),
{
    if rules.len() > 0 {
        lemma_first_with_id_in_range(rules.drop_last(), id);
    }
}

/// Whether a run of calls includes a target write or a heartbeat that
/// failed.
pub open spec fn write_or_heartbeat_failed(calls: Seq<Effect>) -> bool {
    exists|j: int|
        0 <= j < calls.len() && match #[trigger] calls[j] {
            Effect::SetTarget { failure, .. } => failure is Some,
            Effect::Heartbeat { failure } => failure is Some,
            _ => false,
        }
}

/// With nothing recorded as applied, every target counts as changed.
proof fn lemma_nothing_applied_changes_all(targets: Seq<FanTarget>)
    ensures
        changed_targets(Map::<usize, i32>::empty(), targets) == targets,
    decreases targets.len(),
{
    if targets.len() > 0 {
        lemma_nothing_applied_changes_all(targets.drop_last());
        assert(targets.drop_last().push(targets.last()) =~= targets);
    }
}

/// No failure found among the first `n` calls means none of them failed.
proof fn lemma_no_first_failure(outcomes: Seq<Option<Seq<char>>>, n: int)
    requires
        first_failure(outcomes, n) is None,
    ensures
        forall|j: int| 0 <= j < n ==> #[trigger] outcome(outcomes, j) is None,
    decreases n,
{
    if n > 0 {
        lemma_no_first_failure(outcomes, n - 1);
    }
}

/// A snapshot whose target write or heartbeat failed ends in an error with
/// nothing recorded as applied, so the next snapshot with a targets plan
/// writes every one of its targets again, in order, and then heartbeats; when
/// those calls succeed it succeeds, and its targets are recorded as applied.
pub proof fn law_failed_snapshot_recovers_on_the_next(
    core: ActuationCore,
    plan: Option<Seq<FanTarget>>,
    heartbeat_due: bool,
    outcomes: Seq<Option<Seq<char>>>,
    targets: Seq<FanTarget>,
    next_outcomes: Seq<Option<Seq<char>>>,
)
    requires
        write_or_heartbeat_failed(snapshot_run(core, plan, heartbeat_due, outcomes).calls),
        forall|i: int| #[trigger] outcome(next_outcomes, i) is None,
    ensures
        ({
            let failed = snapshot_run(core, plan, heartbeat_due, outcomes);
            let next = snapshot_run(failed.core, Some(targets), false, next_outcomes);
            &&& failed.result is Err
            &&& failed.core == recovered_core()
            &&& next.calls == clean_writes(targets, targets.len() as int).push(
                Effect::Heartbeat { failure: None },
            )
            &&& next.result == Ok::<(), Seq<char>>(())
            &&& next.core == (ActuationCore {
                applied: targets_map(targets),
                manual_plan_active: true,
                system_auto_confirmed: false,
            })
        }),
{
    let failed = snapshot_run(core, plan, heartbeat_due, outcomes);
    let applied = apply_run(core, plan, outcomes);
    let j = choose|j: int|
        0 <= j < failed.calls.len() && match #[trigger] failed.calls[j] {
            Effect::SetTarget { failure, .. } => failure is Some,
            Effect::Heartbeat { failure } => failure is Some,
            _ => false,
        };
    // A run that ended well made no failed write or heartbeat.
    if applied.result is Ok {
        match plan {
            None => {
                assert(applied.calls.len() <= 1);
                assert(applied.calls.len() == 1 ==> applied.calls[0] is RestoreAll);
            },
            Some(t0) => {
                let changed = changed_targets(core.applied, t0);
                let n = changed.len() as int;
                lemma_no_first_failure(outcomes, n);
                assert(forall|i: int| 0 <= i < n ==> #[trigger] writes(changed, outcomes, n)[i] == (
                Effect::SetTarget {
                    fan_id: changed[i].fan_id,
                    rpm: changed[i].rpm,
                    failure: outcome(outcomes, i),
                }));
            },
        }
        assert(forall|i: int|
            0 <= i < applied.calls.len() ==> match #[trigger] applied.calls[i] {
                Effect::SetTarget { failure, .. } => failure is None,
                Effect::Heartbeat { failure } => failure is None,
                _ => true,
            });
    } else {
        if plan is None {
            assert(applied.calls.len() == 1 && applied.calls[0] is RestoreAll);
        }
    }
    assert(failed.result is Err);
    assert(failed.core == recovered_core());
    let n = targets.len() as int;
    lemma_nothing_applied_changes_all(targets);
    lemma_first_failure_none(next_outcomes, n);
    assert(outcome(next_outcomes, n) is None);
    assert(writes(targets, next_outcomes, n) =~= clean_writes(targets, n)) by {
        assert forall|i: int| 0 <= i < n implies outcome(next_outcomes, i) is None by {}
    }
}

/// One call of the evaluator: the settings, the snapshot and the clock.
pub struct EvaluationCall {
    pub settings: ThermalPolicySettings,
    pub snapshot: HardwareTelemetrySnapshot,
    pub now_unix_ms: u64,
}

/// What one evaluation decided, in order: a System Auto result, or one fan
/// entry's target with the temperature and time it was decided at, and
/// whether a decrease was held back by hysteresis.
pub enum DecisionEvent {
    Reset,
    Decided { fan_id: usize, rpm: i32, millicelsius: i32, at_unix_ms: u64, held: bool },
}

/// The latest decision for a fan that was not held back, since the last
/// System Auto result: the reference that the decrease policy measures
/// against.
pub open spec fn latest_record(events: Seq<DecisionEvent>, fan_id: usize) -> Option<PreviousTarget>
    decreases events.len(),
{
    if events.len() == 0 {
        None
    } else {
        match events.last() {
            DecisionEvent::Reset => None,
            DecisionEvent::Decided { fan_id: id, rpm, millicelsius, at_unix_ms, held } => if id
                == fan_id && !held {
                Some(PreviousTarget { rpm, millicelsius, evaluated_at_unix_ms: at_unix_ms })
            } else {
                latest_record(events.drop_last(), fan_id)
            },
        }
    }
}

/// `before` followed by the decisions for the first `n` fan entries of one
/// evaluation, whose plan is `targets`.
pub open spec fn entry_events(
    before: Seq<DecisionEvent>,
    fans: Seq<FanReading>,
    targets: Seq<FanTarget>,
    p: (int, int),
    t: i32,
    now: u64,
    n: int,
) -> Seq<DecisionEvent>
    decreases n,
{
    if n <= 0 {
        before
    } else {
        let events = entry_events(before, fans, targets, p, t, now, n - 1);
        let fan = fans[n - 1];
        events.push(
            DecisionEvent::Decided {
                fan_id: fan.id,
                rpm: targets[n - 1].rpm,
                millicelsius: t,
                at_unix_ms: now,
                held: held_by_hysteresis(
                    latest_record(events, fan.id),
                    requested_rpm(fan, p).unwrap(),
                    t as int,
                ),
            },
        )
    }
}

/// The fan readings of a call's snapshot.
pub open spec fn call_fans(call: EvaluationCall) -> Seq<FanReading> {
    call.snapshot.fans->value@
}

/// The strongest request of a call: the controlling temperature and the fan
/// percentage.
pub open spec fn call_request(call: EvaluationCall) -> (i32, (int, int)) {
    strongest_request(policy_curves(call.settings), call.snapshot.temperatures->value).unwrap()
}

/// After the first `k` calls of a run on a new evaluator: its history (what
/// `ThermalPolicyEvaluator::evaluate` threads from call to call) and every
/// decision made.
pub open spec fn run_after(calls: Seq<EvaluationCall>, k: int) -> (
    Map<usize, PreviousTarget>,
    Seq<DecisionEvent>,
)
    decreases k,
{
    if k <= 0 {
        (Map::empty(), Seq::empty())
    } else {
        let before = run_after(calls, k - 1);
        let c = calls[k - 1];
        let out = evaluation(before.0, c.settings, c.snapshot, c.now_unix_ms);
        (
            out.1,
            match out.0 {
                None => before.1.push(DecisionEvent::Reset),
                Some(targets) => entry_events(
                    before.1,
                    call_fans(c),
                    targets,
                    call_request(c).1,
                    call_request(c).0,
                    c.now_unix_ms,
                    call_fans(c).len() as int,
                ),
            },
        )
    }
}

/// The decisions for a prefix of the entries depend on that prefix only.
proof fn lemma_entry_events_prefix(
    before: Seq<DecisionEvent>,
    fans: Seq<FanReading>,
    targets: Seq<FanTarget>,
    fans2: Seq<FanReading>,
    targets2: Seq<FanTarget>,
    p: (int, int),
    t: i32,
    now: u64,
    k: int,
)
    requires
        forall|i: int| 0 <= i < k ==> fans[i] == fans2[i] && targets[i] == targets2[i],
    ensures
        entry_events(before, fans, targets, p, t, now, k) == entry_events(
            before,
            fans2,
            targets2,
            p,
            t,
            now,
            k,
        ),
    decreases k,
{
    if k > 0 {
        lemma_entry_events_prefix(before, fans, targets, fans2, targets2, p, t, now, k - 1);
        assert(fans[k - 1] == fans2[k - 1] && targets[k - 1] == targets2[k - 1]);
    }
}

/// Planning the fans of one evaluation, when the history holds the latest
/// records of `events`, decides each entry against the latest record before
/// it, and leaves the history holding the latest records afterwards.
proof fn lemma_plan_fans_records(
    fans: Seq<FanReading>,
    p: (int, int),
    t: i32,
    now: u64,
    history: Map<usize, PreviousTarget>,
    events: Seq<DecisionEvent>,
)
    requires
        plan_fans(fans, p, t, now, history) is Some,
        forall|id: usize| #[trigger] previous_of(history, id) == latest_record(events, id),
    ensures
        ({
            let planned = plan_fans(fans, p, t, now, history).unwrap();
            &&& planned.0.len() == fans.len()
            &&& forall|id: usize|
                #[trigger] previous_of(planned.1, id) == latest_record(
                    entry_events(events, fans, planned.0, p, t, now, fans.len() as int),
                    id,
                )
            &&& forall|i: int|
                0 <= i < fans.len() ==> requested_rpm(#[trigger] fans[i], p) is Some && planned.0[i]
                    == (FanTarget {
                    fan_id: fans[i].id,
                    rpm: decided_rpm(
                        latest_record(entry_events(events, fans, planned.0, p, t, now, i), fans[i].id),
                        requested_rpm(fans[i], p).unwrap(),
                        t as int,
                        now,
                    ) as i32,
                })
        }),
    decreases fans.len(),
{
    if fans.len() > 0 {
        let n = fans.len() as int;
        let rest = fans.drop_last();
        let fan = fans.last();
        lemma_plan_fans_records(rest, p, t, now, history, events);
        let planned = plan_fans(rest, p, t, now, history).unwrap();
        let all = plan_fans(fans, p, t, now, history).unwrap();
        let requested = requested_rpm(fan, p).unwrap();
        let prev = previous_of(planned.1, fan.id);
        let earlier = entry_events(events, rest, planned.0, p, t, now, n - 1);
        assert(all.0 == planned.0.push(
            FanTarget { fan_id: fan.id, rpm: decided_rpm(prev, requested, t as int, now) as i32 },
        ));
        assert forall|i: int| 0 <= i < n - 1 implies fans[i] == rest[i] && all.0[i] == planned.0[i] by {}
        lemma_entry_events_prefix(events, fans, all.0, rest, planned.0, p, t, now, n - 1);
        lemma_plan_fans_entries(fans, p, t, now, events, rest, planned.0, all.0);
        let e_all = entry_events(events, fans, all.0, p, t, now, n);
        assert(e_all.drop_last() =~= earlier);
        assert forall|id: usize|
            #[trigger] previous_of(all.1, id) == latest_record(e_all, id) by {
            assert(previous_of(planned.1, id) == latest_record(earlier, id));
        }
    }
}

/// The entries before the last one are decided as they were without it.
proof fn lemma_plan_fans_entries(
    fans: Seq<FanReading>,
    p: (int, int),
    t: i32,
    now: u64,
    events: Seq<DecisionEvent>,
    rest: Seq<FanReading>,
    earlier_targets: Seq<FanTarget>,
    targets: Seq<FanTarget>,
)
    requires
        fans.len() > 0,
        rest == fans.drop_last(),
        earlier_targets.len() == rest.len(),
        targets == earlier_targets.push(targets.last()),
        forall|i: int|
            0 <= i < rest.len() ==> requested_rpm(#[trigger] rest[i], p) is Some && earlier_targets[i]
                == (FanTarget {
                fan_id: rest[i].id,
                rpm: decided_rpm(
                    latest_record(entry_events(events, rest, earlier_targets, p, t, now, i), rest[i].id),
                    requested_rpm(rest[i], p).unwrap(),
                    t as int,
                    now,
                ) as i32,
            }),
        requested_rpm(fans.last(), p) is Some,
        targets.last() == (FanTarget {
            fan_id: fans.last().id,
            rpm: decided_rpm(
                latest_record(
                    entry_events(events, fans, targets, p, t, now, fans.len() - 1),
                    fans.last().id,
                ),
                requested_rpm(fans.last(), p).unwrap(),
                t as int,
                now,
            ) as i32,
        }),
    ensures
        forall|i: int|
            0 <= i < fans.len() ==> requested_rpm(#[trigger] fans[i], p) is Some && targets[i] == (
            FanTarget {
                fan_id: fans[i].id,
                rpm: decided_rpm(
                    latest_record(entry_events(events, fans, targets, p, t, now, i), fans[i].id),
                    requested_rpm(fans[i], p).unwrap(),
                    t as int,
                    now,
                ) as i32,
            }),
{
    assert forall|i: int| 0 <= i < fans.len() implies requested_rpm(#[trigger] fans[i], p) is Some
        && targets[i] == (FanTarget {
        fan_id: fans[i].id,
        rpm: decided_rpm(
            latest_record(entry_events(events, fans, targets, p, t, now, i), fans[i].id),
            requested_rpm(fans[i], p).unwrap(),
            t as int,
            now,
        ) as i32,
    }) by {
        if i < fans.len() - 1 {
            assert(fans[i] == rest[i] && targets[i] == earlier_targets[i]);
            assert forall|j: int| 0 <= j < i implies fans[j] == rest[j] && targets[j]
                == earlier_targets[j] by {}
            lemma_entry_events_prefix(events, fans, targets, rest, earlier_targets, p, t, now, i);
        }
    }
}

/// The evaluator's history always holds, for each fan, the latest decision
/// that was not held back since the last System Auto result.
proof fn lemma_run_history(calls: Seq<EvaluationCall>, k: int)
    requires
        0 <= k <= calls.len(),
    ensures
        forall|id: usize|
            #[trigger] previous_of(run_after(calls, k).0, id) == latest_record(run_after(calls, k).1, id),
    decreases k,
{
    if k > 0 {
        lemma_run_history(calls, k - 1);
        let before = run_after(calls, k - 1);
        let c = calls[k - 1];
        let out = evaluation(before.0, c.settings, c.snapshot, c.now_unix_ms);
        match out.0 {
            None => {
                assert forall|id: usize| #[trigger] previous_of(run_after(calls, k).0, id)
                    == latest_record(run_after(calls, k).1, id) by {
                    assert(run_after(calls, k).1.last() == DecisionEvent::Reset);
                }
            },
            Some(targets) => {
                let request = call_request(c);
                lemma_plan_fans_records(call_fans(c), request.1, request.0, c.now_unix_ms, before.0, before.1);
            },
        }
    }
}

/// Across a run of evaluations, each fan entry's target follows the decrease
/// policy against the latest decision for that fan that was not held back,
/// since the last System Auto result (earlier entries of the same evaluation
/// included): an increase, or a fan with no such decision, applies at once;
/// a decrease is held at that target until the temperature has dropped by
/// the hysteresis margin; and an accepted decrease stays between the request
/// and that target, falling by at most the rate limit for the time elapsed
/// since it.
pub proof fn law_decrease_policy_over_a_run(calls: Seq<EvaluationCall>, k: int, i: int)
    requires
        0 <= k < calls.len(),
        evaluation(
            run_after(calls, k).0,
            calls[k].settings,
            calls[k].snapshot,
            calls[k].now_unix_ms,
        ).0 is Some,
        0 <= i < call_fans(calls[k]).len(),
    ensures
        ({
            let c = calls[k];
            let targets = evaluation(run_after(calls, k).0, c.settings, c.snapshot, c.now_unix_ms).0.unwrap();
            let fan = call_fans(c)[i];
            let request = call_request(c);
            let requested = requested_rpm(fan, request.1).unwrap();
            let record = latest_record(
                entry_events(run_after(calls, k).1, call_fans(c), targets, request.1, request.0, c.now_unix_ms, i),
                fan.id,
            );
            let rpm = targets[i].rpm as int;
            &&& targets[i].fan_id == fan.id
            &&& rpm == decided_rpm(record, requested, request.0 as int, c.now_unix_ms)
            &&& (record matches Some(q) ==> requested >= q.rpm) ==> rpm == requested
            &&& held_by_hysteresis(record, requested, request.0 as int) ==> rpm == record.unwrap().rpm
            &&& (record matches Some(q) && requested < q.rpm) ==> {
                let q = record.unwrap();
                &&& requested <= rpm <= q.rpm
                &&& rpm >= q.rpm - max_decrease(elapsed_ms(c.now_unix_ms, q.evaluated_at_unix_ms))
            }
        }),
{
    let c = calls[k];
    let before = run_after(calls, k);
    lemma_run_history(calls, k);
    let request = call_request(c);
    let fans = call_fans(c);
    lemma_plan_fans_records(fans, request.1, request.0, c.now_unix_ms, before.0, before.1);
    let targets = evaluation(before.0, c.settings, c.snapshot, c.now_unix_ms).0.unwrap();
    let fan = fans[i];
    let requested = requested_rpm(fan, request.1).unwrap();
    let record = latest_record(
        entry_events(before.1, fans, targets, request.1, request.0, c.now_unix_ms, i),
        fan.id,
    );
    let t = request.0 as int;
    let decided = decided_rpm(record, requested, t, c.now_unix_ms);
    assert(i32::MIN <= requested <= i32::MAX);
    match record {
        Some(q) => {
            if requested < q.rpm {
                law_decrease_is_rate_limited(q, requested, t, c.now_unix_ms);
                if held_by_hysteresis(record, requested, t) {
                    law_decrease_requires_hysteresis(q, requested, t, c.now_unix_ms);
                }
            } else {
                law_increase_applies_immediately(record, requested, t, c.now_unix_ms);
            }
        },
        None => {
            law_increase_applies_immediately(record, requested, t, c.now_unix_ms);
        },
    }
    assert(i32::MIN <= decided <= i32::MAX);
    assert(targets[i].rpm as int == decided);
}

/// The hottest of a list of sensors is present exactly when there is a
/// sensor; it is one of the sensors' readings and none is hotter.
proof fn lemma_hottest_sensor(sensors: Seq<TemperatureReading>)
    ensures
        hottest_sensor(sensors) is Some <==> sensors.len() > 0,
        hottest_sensor(sensors) matches Some(h) ==> {
            &&& exists|j: int| 0 <= j < sensors.len() && #[trigger] sensors[j].millicelsius == h
            &&& forall|i: int| 0 <= i < sensors.len() ==> #[trigger] sensors[i].millicelsius <= h
        },
    decreases sensors.len(),
{
    if sensors.len() > 0 {
        let rest = sensors.drop_last();
        lemma_hottest_sensor(rest);
        let n = sensors.len() - 1;
        assert forall|i: int| 0 <= i < n implies #[trigger] sensors[i] == rest[i] by {}
        let h = hottest_sensor(sensors).unwrap();
        if sensors[n].millicelsius == h {
        } else {
            let j = choose|j: int| 0 <= j < rest.len() && #[trigger] rest[j].millicelsius == h;
            assert(sensors[j].millicelsius == h);
        }
        assert forall|i: int| 0 <= i < sensors.len() implies #[trigger] sensors[i].millicelsius <= h by {
            if i < n {
                assert(sensors[i] == rest[i]);
            }
        }
    }
}

/// The Hottest target reads the highest of every present reading: the CPU,
/// the GPU and every sensor.  It has a temperature exactly when some reading
/// is present; that temperature is one of the readings, and no reading is
/// hotter.
pub proof fn law_hottest_reads_the_highest_reading(temps: TemperatureReadings)
    ensures
        ({
            let sensors = temps.sensors@;
            let read = target_temperature(ThermalTarget::Hottest, temps);
            &&& read is Some <==> (temps.cpu_millicelsius is Some || temps.gpu_millicelsius is Some
                || sensors.len() > 0)
            &&& read matches Some(t) ==> {
                &&& temps.cpu_millicelsius matches Some(c) ==> t >= c
                &&& temps.gpu_millicelsius matches Some(g) ==> t >= g
                &&& forall|i: int| 0 <= i < sensors.len() ==> #[trigger] sensors[i].millicelsius <= t
                &&& (temps.cpu_millicelsius == Some(t) || temps.gpu_millicelsius == Some(t)
                    || exists|j: int| 0 <= j < sensors.len() && #[trigger] sensors[j].millicelsius == t)
            }
        }),
{
    lemma_hottest_sensor(temps.sensors@);
}

/// Selecting a mode changes only the mode: the rules are kept as they were,
/// so an update that selects a mode commits and saves the same rules.
pub proof fn law_selecting_a_mode_keeps_the_rules(
    mode: ThermalPolicyMode,
    rules: Seq<ThermalRule>,
    selected: ThermalPolicyMode,
)
    ensures
        changed_settings(mode, rules, ThermalPolicyChange::SelectMode(selected)).0 == selected,
        changed_settings(mode, rules, ThermalPolicyChange::SelectMode(selected)).1 == rules,
{
}

/// The reading of a sensor key is the first sensor with that key, and
/// there is none exactly when no sensor has the key.
proof fn lemma_sensor_reading(sensors: Seq<TemperatureReading>, key: Seq<char>)
    ensures
        sensor_reading(sensors, key) is Some <==> exists|i: int|
            0 <= i < sensors.len() && (#[trigger] sensors[i]).key@ == key,
        sensor_reading(sensors, key) matches Some(t) ==> exists|i: int|
            0 <= i < sensors.len() && (#[trigger] sensors[i]).key@ == key && sensors[i].millicelsius
                == t && forall|j: int| 0 <= j < i ==> (#[trigger] sensors[j]).key@ != key,
    decreases sensors.len(),
{
    if sensors.len() > 0 {
        let rest = sensors.drop_first();
        lemma_sensor_reading(rest, key);
        assert forall|i: int| 0 <= i < rest.len() implies #[trigger] rest[i] == sensors[i + 1] by {}
        if sensors[0].key@ != key {
            if let Some(t) = sensor_reading(sensors, key) {
                let i = choose|i: int|
                    0 <= i < rest.len() && (#[trigger] rest[i]).key@ == key && rest[i].millicelsius
                        == t && forall|j: int| 0 <= j < i ==> (#[trigger] rest[j]).key@ != key;
                assert(sensors[i + 1] == rest[i]);
                assert forall|j: int| 0 <= j < i + 1 implies (#[trigger] sensors[j]).key@ != key by {
                    if j > 0 {
                        assert(sensors[j] == rest[j - 1]);
                    }
                }
            }
            assert((exists|i: int| 0 <= i < sensors.len() && (#[trigger] sensors[i]).key@ == key)
                ==> exists|i: int| 0 <= i < rest.len() && (#[trigger] rest[i]).key@ == key) by {
                if exists|i: int| 0 <= i < sensors.len() && (#[trigger] sensors[i]).key@ == key {
                    let i = choose|i: int| 0 <= i < sensors.len() && (#[trigger] sensors[i]).key@ == key;
                    assert(rest[i - 1] == sensors[i]);
                }
            }
        } else {
            assert(sensors[0].key@ == key);
        }
    }
}

/// The CPU and GPU targets read exactly the CPU and GPU readings, and a
/// sensor key reads the first sensor with that key, with no temperature
/// exactly when no sensor has the key.
pub proof fn law_targets_read_their_own_reading(temps: TemperatureReadings, key: String)
    ensures
        target_temperature(ThermalTarget::Cpu, temps) == temps.cpu_millicelsius,
        target_temperature(ThermalTarget::Gpu, temps) == temps.gpu_millicelsius,
        ({
            let sensors = temps.sensors@;
            let read = target_temperature(ThermalTarget::SensorKey { key }, temps);
            &&& read is Some <==> exists|i: int| 0 <= i < sensors.len() && (#[trigger] sensors[i]).key@ == key@
            &&& read matches Some(t) ==> exists|i: int|
                0 <= i < sensors.len() && (#[trigger] sensors[i]).key@ == key@ && sensors[i].millicelsius
                    == t && forall|j: int| 0 <= j < i ==> (#[trigger] sensors[j]).key@ != key@
        }),
{
    lemma_sensor_reading(temps.sensors@, key@);
}

/// A curve asks for its minimum percentage at or below its low
/// temperature, its maximum at or above its high temperature, and in
/// between moves linearly: half way between the temperatures it asks for
/// half way between the percentages, it stays within them, and it never asks
/// for less at a higher temperature.
pub proof fn law_curve_interpolates_between_its_ends(c: Curve, t: int, hotter: int)
    requires
        c.low < c.high,
        c.min_percent <= c.max_percent,
    ensures
        percent_fraction(c, t).1 > 0,
        t <= c.low ==> percent_fraction(c, t).0 == c.min_percent * percent_fraction(c, t).1,
        t >= c.high ==> percent_fraction(c, t).0 == c.max_percent * percent_fraction(c, t).1,
        2 * t == c.low + c.high ==> 2 * percent_fraction(c, t).0 == (c.min_percent + c.max_percent)
            * percent_fraction(c, t).1,
        c.min_percent * percent_fraction(c, t).1 <= percent_fraction(c, t).0 <= c.max_percent
            * percent_fraction(c, t).1,
        t <= hotter ==> fraction_at_least(percent_fraction(c, hotter), percent_fraction(c, t)),
{
    let (n, d) = percent_fraction(c, t);
    let (n2, d2) = percent_fraction(c, hotter);
    let lo = c.low;
    let hi = c.high;
    let a = c.min_percent;
    let b = c.max_percent;
    if lo < t < hi {
        assert(a * (hi - lo) <= n <= b * (hi - lo)) by (nonlinear_arith)
            requires
                n == a * (hi - lo) + (t - lo) * (b - a),
                lo < t < hi,
                a <= b,
        ;
        if 2 * t == lo + hi {
            assert(2 * n == (a + b) * (hi - lo)) by (nonlinear_arith)
                requires
                    n == a * (hi - lo) + (t - lo) * (b - a),
                    2 * t == lo + hi,
            ;
        }
    }
    if t <= hotter {
        if lo < t < hi && lo < hotter < hi {
            assert(n2 * d >= n * d2) by (nonlinear_arith)
                requires
                    n == a * (hi - lo) + (t - lo) * (b - a),
                    n2 == a * (hi - lo) + (hotter - lo) * (b - a),
                    d == hi - lo,
                    d2 == hi - lo,
                    d > 0,
                    t <= hotter,
                    a <= b,
            ;
        } else if lo < t < hi {
            assert(n2 * d >= n * d2) by (nonlinear_arith)
                requires
                    n <= b * d,
                    n2 == b,
                    d2 == 1,
                    d > 0,
            ;
        } else if lo < hotter < hi {
            assert(n2 * d >= n * d2) by (nonlinear_arith)
                requires
                    n2 >= a * d2,
                    n == a,
                    d == 1,
                    d2 > 0,
            ;
        }
    }
}

/// Rounding a quotient to the nearest integer stays between the bounds that
/// the exact quotient lies between.
proof fn lemma_round_div_between(n: int, d: int, lo: int, hi: int)
    requires
        d > 0,
        lo * d <= n <= hi * d,
    ensures
        lo <= round_div(n, d) <= hi,
        n == lo * d ==> round_div(n, d) == lo,
        n == hi * d ==> round_div(n, d) == hi,
{
    if n >= 0 {
        let q = (2 * n + d) / (2 * d);
        assert(lo <= q <= hi) by (nonlinear_arith)
            requires
                q == (2 * n + d) / (2 * d),
                lo * d <= n <= hi * d,
                d > 0,
                n >= 0,
        ;
        if n == lo * d {
            assert(q == lo) by (nonlinear_arith)
                requires
                    q == (2 * n + d) / (2 * d),
                    n == lo * d,
                    d > 0,
                    n >= 0,
            ;
        }
        if n == hi * d {
            assert(q == hi) by (nonlinear_arith)
                requires
                    q == (2 * n + d) / (2 * d),
                    n == hi * d,
                    d > 0,
                    n >= 0,
            ;
        }
    } else {
        let q = (-2 * n + d) / (2 * d);
        assert(-hi <= q <= -lo) by (nonlinear_arith)
            requires
                q == (-2 * n + d) / (2 * d),
                lo * d <= n <= hi * d,
                d > 0,
                n < 0,
        ;
        if n == lo * d {
            assert(q == -lo) by (nonlinear_arith)
                requires
                    q == (-2 * n + d) / (2 * d),
                    n == lo * d,
                    d > 0,
                    n < 0,
            ;
        }
        if n == hi * d {
            assert(q == -hi) by (nonlinear_arith)
                requires
                    q == (-2 * n + d) / (2 * d),
                    n == hi * d,
                    d > 0,
                    n < 0,
            ;
        }
    }
}

/// A fan percentage of 0–100 % asks a fan with a proper envelope for a
/// speed within that envelope: its minimum at 0 %, its maximum at 100 %;
/// a fan without a proper envelope (a bound missing, or the maximum not above
/// the minimum) is asked for nothing.
pub proof fn law_percentage_maps_onto_the_envelope(fan: FanReading, p: (int, int))
    requires
        p.1 > 0,
        0 <= p.0 <= 100 * p.1,
    ensures
        (fan.min_speed_rpm matches Some(lo) && fan.max_speed_rpm matches Some(hi) && hi > lo)
            <==> requested_rpm(fan, p) is Some,
        requested_rpm(fan, p) matches Some(r) ==> {
            let lo = fan.min_speed_rpm.unwrap() as int;
            let hi = fan.max_speed_rpm.unwrap() as int;
            &&& lo <= r <= hi
            &&& p.0 == 0 ==> r == lo
            &&& p.0 == 100 * p.1 ==> r == hi
        },
{
    if let (Some(lo), Some(hi)) = (fan.min_speed_rpm, fan.max_speed_rpm) {
        if hi > lo {
            let lo = lo as int;
            let hi = hi as int;
            let d = 100 * p.1;
            let n = lo * 100 * p.1 + (hi - lo) * p.0;
            assert(lo * d <= n <= hi * d) by (nonlinear_arith)
                requires
                    d == 100 * p.1,
                    n == lo * 100 * p.1 + (hi - lo) * p.0,
                    0 <= p.0 <= 100 * p.1,
                    lo < hi,
            ;
            if p.0 == 0 {
                assert(n == lo * d) by (nonlinear_arith)
                    requires
                        d == 100 * p.1,
                        n == lo * 100 * p.1 + (hi - lo) * p.0,
                        p.0 == 0,
                ;
            }
            if p.0 == 100 * p.1 {
                assert(n == hi * d) by (nonlinear_arith)
                    requires
                        d == 100 * p.1,
                        n == lo * 100 * p.1 + (hi - lo) * p.0,
                        p.0 == 100 * p.1,
                ;
            }
            lemma_round_div_between(n, d, lo, hi);
        }
    }
}

/// The presets read the hottest reading and ask, respectively, for 20 % at
/// or below 50 °C rising to 75 % at or above 85 °C (Quiet), and for 40 % at
/// or below 40 °C rising to 100 % at or above 75 °C (Performance), with
/// each asking for the mid-point percentage at the mid-point temperature;
/// Custom applies one curve per rule, in order, and System Auto none.
pub proof fn law_presets_follow_their_documented_curves(settings: ThermalPolicySettings, t: int)
    ensures
        settings.mode == ThermalPolicyMode::Quiet ==> ({
            let curves = policy_curves(settings);
            let c = curves[0];
            let f = percent_fraction(c, t);
            &&& curves.len() == 1 && c.active && c.target == ThermalTarget::Hottest
            &&& t <= 50_000 ==> f.0 == 20 * f.1
            &&& t >= 85_000 ==> f.0 == 75 * f.1
            &&& t == 67_500 ==> 2 * f.0 == 95 * f.1
        }),
        settings.mode == ThermalPolicyMode::Performance ==> ({
            let curves = policy_curves(settings);
            let c = curves[0];
            let f = percent_fraction(c, t);
            &&& curves.len() == 1 && c.active && c.target == ThermalTarget::Hottest
            &&& t <= 40_000 ==> f.0 == 40 * f.1
            &&& t >= 75_000 ==> f.0 == 100 * f.1
            &&& t == 57_500 ==> f.0 == 70 * f.1
        }),
        settings.mode == ThermalPolicyMode::Custom ==> policy_curves(settings).len()
            == settings.rules@.len(),
        settings.mode == ThermalPolicyMode::SystemAuto ==> policy_curves(settings).len() == 0,
{
    if settings.mode == ThermalPolicyMode::Quiet {
        law_curve_interpolates_between_its_ends(policy_curves(settings)[0], t, t);
    }
    if settings.mode == ThermalPolicyMode::Performance {
        law_curve_interpolates_between_its_ends(policy_curves(settings)[0], t, t);
    }
}

/// A snapshot is acted on only while it is at most five seconds old: one
/// captured more than five seconds before now always gives System Auto (a
/// clock that went backwards counts as no time).
pub proof fn law_snapshots_older_than_five_seconds_give_system_auto(
    history: Map<usize, PreviousTarget>,
    settings: ThermalPolicySettings,
    snapshot: HardwareTelemetrySnapshot,
    now: u64,
)
    ensures
        is_stale(snapshot, now) <==> now > snapshot.captured_at_unix_ms + 5_000,
        now > snapshot.captured_at_unix_ms + 5_000 ==> evaluation(history, settings, snapshot, now).0
            is None,
{
}

} // verus!
