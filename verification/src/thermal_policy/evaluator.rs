//! Evaluation of the thermal policy against one telemetry snapshot.
//!
//! Fan percentages are kept as exact fractions `numerator / denominator`
//! (denominator positive), and RPM values are rounded half away from zero, so
//! the evaluator computes the policy's curves exactly.
use super::contract::{FanPlan, FanTarget, ThermalPolicyMode, ThermalPolicySettings, ThermalRule, ThermalTarget};
use crate::hardware_telemetry::contract::{
    Availability, FanReading, HardwareTelemetrySnapshot, TemperatureReading, TemperatureReadings,
};
use std::collections::BTreeMap;
use vstd::prelude::*;

verus! {

broadcast use vstd::std_specs::btree::group_btree_axioms;

/// Snapshots older than this produce System Auto.
pub const MAX_SNAPSHOT_AGE_MS: u64 = 5_000;

/// A lower fan target is only accepted once the temperature has dropped by
/// this much since the last accepted target.
pub const DECREASE_HYSTERESIS_MILLICELSIUS: i32 = 2_000;

/// The fastest rate at which a fan target may fall.
pub const MAX_DECREASE_RPM_PER_SECOND: u64 = 400;

/// The last accepted target for one fan.
#[derive(Debug, Clone, Copy, PartialEq, Eq, Structural)]
pub struct PreviousTarget {
    pub rpm: i32,
    pub millicelsius: i32,
    pub evaluated_at_unix_ms: u64,
}

/// The curve parameters that evaluation reads from a rule or a preset.
pub struct Curve {
    pub target: ThermalTarget,
    pub low: int,
    pub high: int,
    pub min_percent: int,
    pub max_percent: int,
    pub active: bool,
}

/// A rule's curve.
pub open spec fn curve_of(rule: ThermalRule) -> Curve {
    Curve {
        target: rule.target,
        low: rule.low_millicelsius as int,
        high: rule.high_millicelsius as int,
        min_percent: rule.min_fan_percent as int,
        max_percent: rule.max_fan_percent as int,
        active: rule.active,
    }
}

/// The Quiet preset: hottest reading, 50–85 °C, 20–75 % fan output.
pub open spec fn quiet_curve() -> Curve {
    Curve {
        target: ThermalTarget::Hottest,
        low: 50_000,
        high: 85_000,
        min_percent: 20,
        max_percent: 75,
        active: true,
    }
}

/// The Performance preset: hottest reading, 40–75 °C, 40–100 % fan output.
pub open spec fn performance_curve() -> Curve {
    Curve {
        target: ThermalTarget::Hottest,
        low: 40_000,
        high: 75_000,
        min_percent: 40,
        max_percent: 100,
        active: true,
    }
}

/// The curves that a policy mode applies, in order.
pub open spec fn policy_curves(settings: ThermalPolicySettings) -> Seq<Curve> {
    match settings.mode {
        ThermalPolicyMode::SystemAuto => Seq::empty(),
        ThermalPolicyMode::Quiet => seq![quiet_curve()],
        ThermalPolicyMode::Performance => seq![performance_curve()],
        ThermalPolicyMode::Custom => settings.rules@.map_values(|rule: ThermalRule| curve_of(rule)),
    }
}

/// The larger of two optional readings.
pub open spec fn max_reading(a: Option<i32>, b: Option<i32>) -> Option<i32> {
    match (a, b) {
        (Some(x), Some(y)) => if x >= y { Some(x) } else { Some(y) },
        (Some(x), None) => Some(x),
        (None, y) => y,
    }
}

/// The hottest of a list of sensors.
pub open spec fn hottest_sensor(sensors: Seq<TemperatureReading>) -> Option<i32>
    decreases sensors.len(),
{
    if sensors.len() == 0 {
        None
    } else {
        max_reading(hottest_sensor(sensors.drop_last()), Some(sensors.last().millicelsius))
    }
}

/// The first sensor reading with the given key.
pub open spec fn sensor_reading(sensors: Seq<TemperatureReading>, key: Seq<char>) -> Option<i32>
    decreases sensors.len(),
{
    if sensors.len() == 0 {
        None
    } else if sensors[0].key@ == key {
        Some(sensors[0].millicelsius)
    } else {
        sensor_reading(sensors.drop_first(), key)
    }
}

/// The temperature that a target reads from a snapshot, if present.
pub open spec fn target_temperature(target: ThermalTarget, temps: TemperatureReadings) -> Option<i32> {
    match target {
        ThermalTarget::Hottest => max_reading(
            max_reading(temps.cpu_millicelsius, temps.gpu_millicelsius),
            hottest_sensor(temps.sensors@),
        ),
        ThermalTarget::Cpu => temps.cpu_millicelsius,
        ThermalTarget::Gpu => temps.gpu_millicelsius,
        ThermalTarget::SensorKey { key } => sensor_reading(temps.sensors@, key@),
    }
}

/// The fan percentage that a curve requests at `t`, as a fraction
/// `(numerator, denominator)`.
pub open spec fn percent_fraction(c: Curve, t: int) -> (int, int) {
    if t <= c.low {
        (c.min_percent, 1)
    } else if t >= c.high {
        (c.max_percent, 1)
    } else {
        (
            c.min_percent * (c.high - c.low) + (t - c.low) * (c.max_percent - c.min_percent),
            c.high - c.low,
        )
    }
}

/// `a >= b` for fractions with positive denominators.
pub open spec fn fraction_at_least(a: (int, int), b: (int, int)) -> bool {
    a.0 * b.1 >= b.0 * a.1
}

/// What a curve requests: the temperature it read and the fan percentage.
pub open spec fn curve_request(c: Curve, temps: TemperatureReadings) -> Option<(i32, (int, int))> {
    if !c.active {
        None
    } else {
        match target_temperature(c.target, temps) {
            Some(t) => Some((t, percent_fraction(c, t as int))),
            None => None,
        }
    }
}

/// The strongest request among the curves; among equal requests the later
/// curve wins.
pub open spec fn strongest_request(curves: Seq<Curve>, temps: TemperatureReadings) -> Option<
    (i32, (int, int)),
>
    decreases curves.len(),
{
    if curves.len() == 0 {
        None
    } else {
        let earlier = strongest_request(curves.drop_last(), temps);
        match curve_request(curves.last(), temps) {
            None => earlier,
            Some(candidate) => match earlier {
                None => Some(candidate),
                Some(best) => if fraction_at_least(candidate.1, best.1) {
                    Some(candidate)
                } else {
                    earlier
                },
            },
        }
    }
}

/// `n / d` rounded to the nearest integer, halves away from zero (`d > 0`).
pub open spec fn round_div(n: int, d: int) -> int {
    if n >= 0 {
        (2 * n + d) / (2 * d)
    } else {
        -((-2 * n + d) / (2 * d))
    }
}

/// Clamps to the `i32` range.
pub open spec fn saturate_i32(x: int) -> int {
    if x > i32::MAX {
        i32::MAX as int
    } else if x < i32::MIN {
        i32::MIN as int
    } else {
        x
    }
}

/// The RPM that a fan percentage means for one fan, when the fan reports a
/// proper speed envelope.
pub open spec fn requested_rpm(fan: FanReading, p: (int, int)) -> Option<int> {
    match (fan.min_speed_rpm, fan.max_speed_rpm) {
        (Some(lo), Some(hi)) => if hi > lo {
            Some(
                saturate_i32(
                    round_div(lo * 100 * p.1 + (hi - lo) * p.0, 100 * p.1),
                ),
            )
        } else {
            None
        },
        _ => None,
    }
}

/// `now - then`, or zero when the clock went backwards.
pub open spec fn elapsed_ms(now: u64, then: u64) -> int {
    if now >= then {
        now - then
    } else {
        0
    }
}

/// How far a target may fall after `elapsed` milliseconds.
pub open spec fn max_decrease(elapsed: int) -> int {
    saturate_i32(round_div(MAX_DECREASE_RPM_PER_SECOND * elapsed, 1000))
}

/// Whether a lower request is held back because the temperature has not
/// dropped by the hysteresis margin.
pub open spec fn held_by_hysteresis(prev: Option<PreviousTarget>, requested: int, t: int) -> bool {
    match prev {
        Some(p) => requested < p.rpm && t > p.millicelsius - DECREASE_HYSTERESIS_MILLICELSIUS,
        None => false,
    }
}

/// The target that the decrease policy accepts for a request.
pub open spec fn decided_rpm(prev: Option<PreviousTarget>, requested: int, t: int, now: u64) -> int {
    match prev {
        Some(p) => if requested < p.rpm {
            if held_by_hysteresis(prev, requested, t) {
                p.rpm as int
            } else {
                let floor = p.rpm - max_decrease(elapsed_ms(now, p.evaluated_at_unix_ms));
                if requested >= floor {
                    requested
                } else {
                    floor
                }
            }
        } else {
            requested
        },
        None => requested,
    }
}

/// The previous target recorded for a fan.
pub open spec fn previous_of(history: Map<usize, PreviousTarget>, fan_id: usize) -> Option<
    PreviousTarget,
> {
    if history.contains_key(fan_id) {
        Some(history[fan_id])
    } else {
        None
    }
}

/// Plans each fan in order from one fan percentage, threading the history.
pub open spec fn plan_fans(
    fans: Seq<FanReading>,
    p: (int, int),
    t: i32,
    now: u64,
    history: Map<usize, PreviousTarget>,
) -> Option<(Seq<FanTarget>, Map<usize, PreviousTarget>)>
    decreases fans.len(),
{
    if fans.len() == 0 {
        Some((Seq::empty(), history))
    } else {
        match plan_fans(fans.drop_last(), p, t, now, history) {
            None => None,
            Some(planned) => {
                let fan = fans.last();
                match requested_rpm(fan, p) {
                    None => None,
                    Some(requested) => {
                        let prev = previous_of(planned.1, fan.id);
                        let rpm = decided_rpm(prev, requested, t as int, now);
                        let target = FanTarget { fan_id: fan.id, rpm: rpm as i32 };
                        let history2 = if held_by_hysteresis(prev, requested, t as int) {
                            planned.1
                        } else {
                            planned.1.insert(
                                fan.id,
                                PreviousTarget {
                                    rpm: rpm as i32,
                                    millicelsius: t,
                                    evaluated_at_unix_ms: now,
                                },
                            )
                        };
                        Some((planned.0.push(target), history2))
                    },
                }
            },
        }
    }
}

/// Whether a snapshot is too old to act on.
pub open spec fn is_stale(snapshot: HardwareTelemetrySnapshot, now: u64) -> bool {
    elapsed_ms(now, snapshot.captured_at_unix_ms) > MAX_SNAPSHOT_AGE_MS
}

/// The outcome of one evaluation: the plan's targets (`None` for System
/// Auto) and the history afterwards.
pub open spec fn evaluation(
    history: Map<usize, PreviousTarget>,
    settings: ThermalPolicySettings,
    snapshot: HardwareTelemetrySnapshot,
    now: u64,
) -> (Option<Seq<FanTarget>>, Map<usize, PreviousTarget>) {
    let system_auto = (None, Map::<usize, PreviousTarget>::empty());
    if settings.mode == ThermalPolicyMode::SystemAuto || is_stale(snapshot, now) {
        system_auto
    } else {
        match (snapshot.temperatures, snapshot.fans) {
            (Availability::Available { value: temps }, Availability::Available { value: fans }) => {
                if fans@.len() == 0 {
                    system_auto
                } else {
                    match strongest_request(policy_curves(settings), temps) {
                        None => system_auto,
                        Some(request) => match plan_fans(
                            fans@,
                            request.1,
                            request.0,
                            now,
                            history,
                        ) {
                            None => system_auto,
                            Some(planned) => (Some(planned.0), planned.1),
                        },
                    }
                }
            },
            _ => system_auto,
        }
    }
}

/// A fraction whose parts are small enough for exact `i128` arithmetic.
pub open spec fn bounded_fraction(p: (int, int)) -> bool {
    &&& 0 < p.1 <= 0x1_0000_0000
    &&& -0x200_0000_0000 < p.0 < 0x200_0000_0000
}

proof fn lemma_percent_fraction_bounded(c: Curve, t: int)
    requires
        i32::MIN <= c.low <= i32::MAX,
        i32::MIN <= c.high <= i32::MAX,
        0 <= c.min_percent <= 255,
        0 <= c.max_percent <= 255,
        i32::MIN <= t <= i32::MAX,
    ensures
        bounded_fraction(percent_fraction(c, t)),
{
    if c.low < t < c.high {
        let d = c.high - c.low;
        let a = c.min_percent * d;
        let b = (t - c.low) * (c.max_percent - c.min_percent);
        assert(0 <= a <= 255 * 0x1_0000_0000) by (nonlinear_arith)
            requires
                0 <= c.min_percent <= 255,
                0 < d <= 0x1_0000_0000,
                a == c.min_percent * d,
        ;
        assert(-255 * 0x1_0000_0000 <= b <= 255 * 0x1_0000_0000) by (nonlinear_arith)
            requires
                0 < t - c.low <= 0x1_0000_0000,
                -255 <= c.max_percent - c.min_percent <= 255,
                b == (t - c.low) * (c.max_percent - c.min_percent),
        ;
    }
}

/// The history that evaluation keeps between snapshots.
pub struct ThermalPolicyEvaluator {
    previous_targets: BTreeMap<usize, PreviousTarget>,
}

impl Default for ThermalPolicyEvaluator {
    fn default() -> (evaluator: Self)
        ensures
            evaluator.history() == Map::<usize, PreviousTarget>::empty(),
    {
        ThermalPolicyEvaluator { previous_targets: BTreeMap::new() }
    }
}

impl ThermalPolicyEvaluator {
    /// The last accepted target of each fan.
    pub closed spec fn history(&self) -> Map<usize, PreviousTarget> {
        self.previous_targets@
    }

    /// Evaluates the policy for one snapshot and produces a fan plan.
    pub fn evaluate(
        &mut self,
        settings: &ThermalPolicySettings,
        snapshot: &HardwareTelemetrySnapshot,
        now_unix_ms: u64,
    ) -> (plan: FanPlan)
        ensures
            plan.targets_view() == evaluation(old(self).history(), *settings, *snapshot, now_unix_ms).0,
            final(self).history() == evaluation(old(self).history(), *settings, *snapshot, now_unix_ms).1,
    {
        if settings.mode == ThermalPolicyMode::SystemAuto || now_unix_ms.saturating_sub(
            snapshot.captured_at_unix_ms,
        ) > MAX_SNAPSHOT_AGE_MS {
            return self.system_auto();
        }
        let temperatures = match &snapshot.temperatures {
            Availability::Available { value } => value,
            _ => {
                return self.system_auto();
            },
        };
        let fans = match &snapshot.fans {
            Availability::Available { value } => value,
            _ => {
                return self.system_auto();
            },
        };
        if fans.len() == 0 {
            return self.system_auto();
        }
        let request = strongest_policy_request(settings, temperatures);
        let (millicelsius, numerator, denominator) = match request {
            Some(r) => r,
            None => {
                return self.system_auto();
            },
        };
        let ghost p = (numerator as int, denominator as int);
        let ghost h0 = self.previous_targets@;
        let ghost outcome = match plan_fans(fans@, p, millicelsius, now_unix_ms, h0) {
            None => (None, Map::<usize, PreviousTarget>::empty()),
            Some(planned) => (Some(planned.0), planned.1),
        };
        assert(evaluation(old(self).history(), *settings, *snapshot, now_unix_ms) == outcome);
        let mut targets: Vec<FanTarget> = Vec::new();
        let mut i: usize = 0;
        while i < fans.len()
            invariant
                i <= fans@.len(),
                bounded_fraction(p),
                p == (numerator as int, denominator as int),
                evaluation(old(self).history(), *settings, *snapshot, now_unix_ms) == outcome,
                outcome == match plan_fans(fans@, p, millicelsius, now_unix_ms, h0) {
                    None => (None, Map::<usize, PreviousTarget>::empty()),
                    Some(planned) => (Some(planned.0), planned.1),
                },
                plan_fans(fans@.take(i as int), p, millicelsius, now_unix_ms, h0) == Some(
                    (targets@, self.previous_targets@),
                ),
            decreases fans.len() - i,
        {
            let fan = &fans[i];
            proof {
                assert(fans@.take(i + 1).drop_last() =~= fans@.take(i as int));
                assert(fans@.take(i + 1).last() == fans@[i as int]);
            }
            let requested = match percent_to_rpm(fan, numerator, denominator) {
                Some(rpm) => rpm,
                None => {
                    proof {
                        assert(plan_fans(fans@.take(i + 1), p, millicelsius, now_unix_ms, h0) is None);
                        lemma_plan_fans_none_sticks(fans@, i as int + 1, p, millicelsius, now_unix_ms, h0);
                        assert(fans@.take(fans@.len() as int) =~= fans@);
                        assert(plan_fans(fans@, p, millicelsius, now_unix_ms, h0) is None);
                    }
                    return self.system_auto();
                },
            };
            let rpm = self.apply_decrease_policy(fan.id, requested, millicelsius, now_unix_ms);
            targets.push(FanTarget { fan_id: fan.id, rpm });
            i = i + 1;
        }
        proof {
            assert(fans@.take(fans@.len() as int) =~= fans@);
        }
        FanPlan::Targets { targets }
    }

    /// Applies hysteresis and the rate limit to a requested target.
    fn apply_decrease_policy(
        &mut self,
        fan_id: usize,
        requested_rpm: i32,
        millicelsius: i32,
        now_unix_ms: u64,
    ) -> (rpm: i32)
        ensures
            ({
                let prev = previous_of(old(self).history(), fan_id);
                &&& rpm == decided_rpm(prev, requested_rpm as int, millicelsius as int, now_unix_ms)
                &&& final(self).history() == if held_by_hysteresis(
                    prev,
                    requested_rpm as int,
                    millicelsius as int,
                ) {
                    old(self).history()
                } else {
                    old(self).history().insert(
                        fan_id,
                        PreviousTarget {
                            rpm,
                            millicelsius,
                            evaluated_at_unix_ms: now_unix_ms,
                        },
                    )
                }
            }),
    {
        let previous = match self.previous_targets.get(&fan_id) {
            Some(p) => Some(*p),
            None => None,
        };
        let rpm = match previous {
            Some(p) => {
                if requested_rpm < p.rpm {
                    if (millicelsius as i64) > (p.millicelsius as i64)
                        - (DECREASE_HYSTERESIS_MILLICELSIUS as i64) {
                        return p.rpm;
                    }
                    let elapsed = now_unix_ms.saturating_sub(p.evaluated_at_unix_ms);
                    let decrease = max_decrease_rpm(elapsed);
                    let floor = (p.rpm as i64) - (decrease as i64);
                    if (requested_rpm as i64) >= floor {
                        requested_rpm
                    } else {
                        floor as i32
                    }
                } else {
                    requested_rpm
                }
            },
            None => requested_rpm,
        };
        self.previous_targets.insert(
            fan_id,
            PreviousTarget { rpm, millicelsius, evaluated_at_unix_ms: now_unix_ms },
        );
        rpm
    }

    fn system_auto(&mut self) -> (plan: FanPlan)
        ensures
            plan.targets_view() is None,
            final(self).history() == Map::<usize, PreviousTarget>::empty(),
    {
        self.previous_targets.clear();
        FanPlan::SystemAuto
    }
}

/// Once a fan cannot be planned, no longer list of fans can be.
proof fn lemma_plan_fans_none_sticks(
    fans: Seq<FanReading>,
    k: int,
    p: (int, int),
    t: i32,
    now: u64,
    h: Map<usize, PreviousTarget>,
)
    requires
        0 <= k <= fans.len(),
        plan_fans(fans.take(k), p, t, now, h) is None,
    ensures
        plan_fans(fans.take(fans.len() as int), p, t, now, h) is None,
    decreases fans.len() - k,
{
    if k < fans.len() {
        assert(fans.take(k + 1).drop_last() =~= fans.take(k));
        lemma_plan_fans_none_sticks(fans, k + 1, p, t, now, h);
    }
}

/// The largest decrease allowed after `elapsed` milliseconds.
fn max_decrease_rpm(elapsed: u64) -> (d: i32)
    ensures
        d == max_decrease(elapsed as int),
        d >= 0,
{
    let scaled: u128 = (elapsed as u128) * (MAX_DECREASE_RPM_PER_SECOND as u128);
    let rounded: u128 = (2 * scaled + 1000) / 2000;
    if rounded > (i32::MAX as u128) {
        i32::MAX
    } else {
        rounded as i32
    }
}

/// The RPM for one fan at a fan percentage, if the fan has a proper envelope.
fn percent_to_rpm(fan: &FanReading, numerator: i128, denominator: i128) -> (r: Option<i32>)
    requires
        bounded_fraction((numerator as int, denominator as int)),
    ensures
        match r {
            Some(rpm) => requested_rpm(*fan, (numerator as int, denominator as int)) == Some(
                rpm as int,
            ),
            None => requested_rpm(*fan, (numerator as int, denominator as int)) is None,
        },
{
    let minimum = match fan.min_speed_rpm {
        Some(v) => v,
        None => {
            return None;
        },
    };
    let maximum = match fan.max_speed_rpm {
        Some(v) => v,
        None => {
            return None;
        },
    };
    if maximum <= minimum {
        return None;
    }
    let lo = minimum as i128;
    let span = (maximum as i128) - lo;
    proof {
        assert(-0x8000_0000 * 100 * 0x1_0000_0000 <= lo * 100 * denominator <= 0x8000_0000 * 100 * 0x1_0000_0000)
            by (nonlinear_arith)
            requires
                -0x8000_0000 <= lo <= 0x8000_0000,
                0 < denominator <= 0x1_0000_0000,
        ;
        assert(-0x1_0000_0000 * 0x200_0000_0000 <= span * numerator <= 0x1_0000_0000 * 0x200_0000_0000)
            by (nonlinear_arith)
            requires
                0 < span <= 0x1_0000_0000,
                -0x200_0000_0000 < numerator < 0x200_0000_0000,
        ;
    }
    let base = lo * 100 * denominator;
    let part = span * numerator;
    let den = 100 * denominator;
    let n = base + part;
    let rounded: i128 = if n >= 0 {
        (2 * n + den) / (2 * den)
    } else {
        -((-2 * n + den) / (2 * den))
    };
    proof {
        assert(-0x1_0000_0000_0000_0000_0000 <= rounded <= 0x1_0000_0000_0000_0000_0000) by {
            if n >= 0 {
                assert((2 * n + den) / (2 * den) <= 2 * n + den) by (nonlinear_arith)
                    requires
                        n >= 0,
                        den > 0,
                ;
            } else {
                assert((-2 * n + den) / (2 * den) <= -2 * n + den) by (nonlinear_arith)
                    requires
                        n < 0,
                        den > 0,
                ;
            }
        }
    }
    let rpm: i32 = if rounded > (i32::MAX as i128) {
        i32::MAX
    } else if rounded < (i32::MIN as i128) {
        i32::MIN
    } else {
        rounded as i32
    };
    Some(rpm)
}

/// The fan percentage of a curve at `t`, as an exact fraction.
fn percent_at(low: i32, high: i32, min_percent: u8, max_percent: u8, t: i32) -> (r: (i128, i128))
    ensures
        (r.0 as int, r.1 as int) == percent_fraction(
            Curve {
                target: ThermalTarget::Hottest,
                low: low as int,
                high: high as int,
                min_percent: min_percent as int,
                max_percent: max_percent as int,
                active: true,
            },
            t as int,
        ),
        bounded_fraction((r.0 as int, r.1 as int)),
{
    let ghost c = Curve {
        target: ThermalTarget::Hottest,
        low: low as int,
        high: high as int,
        min_percent: min_percent as int,
        max_percent: max_percent as int,
        active: true,
    };
    proof {
        lemma_percent_fraction_bounded(c, t as int);
    }
    if t <= low {
        (min_percent as i128, 1)
    } else if t >= high {
        (max_percent as i128, 1)
    } else {
        let d = (high as i128) - (low as i128);
        let x = (t as i128) - (low as i128);
        let y = (max_percent as i128) - (min_percent as i128);
        proof {
            assert(0 <= (min_percent as i128) * d <= 255 * 0x1_0000_0000) by (nonlinear_arith)
                requires
                    0 <= min_percent <= 255,
                    0 < d <= 0x1_0000_0000,
            ;
            assert(-255 * 0x1_0000_0000 <= x * y <= 255 * 0x1_0000_0000) by (nonlinear_arith)
                requires
                    0 < x <= 0x1_0000_0000,
                    -255 <= y <= 255,
            ;
        }
        let a = (min_percent as i128) * d;
        let b = x * y;
        (a + b, d)
    }
}

/// The hottest reading among a list of sensors.
fn hottest_of_sensors(sensors: &Vec<TemperatureReading>) -> (r: Option<i32>)
    ensures
        r == hottest_sensor(sensors@),
{
    let mut best: Option<i32> = None;
    let mut i: usize = 0;
    while i < sensors.len()
        invariant
            i <= sensors@.len(),
            best == hottest_sensor(sensors@.take(i as int)),
        decreases sensors.len() - i,
    {
        proof {
            assert(sensors@.take(i + 1).drop_last() =~= sensors@.take(i as int));
        }
        let t = sensors[i].millicelsius;
        best = match best {
            Some(b) => if b >= t {
                Some(b)
            } else {
                Some(t)
            },
            None => Some(t),
        };
        i = i + 1;
    }
    proof {
        assert(sensors@.take(sensors@.len() as int) =~= sensors@);
    }
    best
}

/// The larger of two optional readings.
fn larger_reading(a: Option<i32>, b: Option<i32>) -> (r: Option<i32>)
    ensures
        r == max_reading(a, b),
{
    match (a, b) {
        (Some(x), Some(y)) => if x >= y {
            Some(x)
        } else {
            Some(y)
        },
        (Some(x), None) => Some(x),
        (None, y) => y,
    }
}

/// The first reading of the sensor with the given key.
fn find_sensor(sensors: &Vec<TemperatureReading>, key: &String) -> (r: Option<i32>)
    ensures
        r == sensor_reading(sensors@, key@),
{
    let mut i: usize = 0;
    assert(sensors@.subrange(0, sensors@.len() as int) =~= sensors@);
    while i < sensors.len()
        invariant
            i <= sensors@.len(),
            sensor_reading(sensors@, key@) == sensor_reading(
                sensors@.subrange(i as int, sensors@.len() as int),
                key@,
            ),
        decreases sensors.len() - i,
    {
        let ghost rest = sensors@.subrange(i as int, sensors@.len() as int);
        proof {
            assert(rest[0] == sensors@[i as int]);
            assert(rest.drop_first() =~= sensors@.subrange(i + 1, sensors@.len() as int));
        }
        if sensors[i].key == *key {
            return Some(sensors[i].millicelsius);
        }
        i = i + 1;
    }
    None
}

/// The temperature that a target reads.
fn target_reading(target: &ThermalTarget, temperatures: &TemperatureReadings) -> (r: Option<i32>)
    ensures
        r == target_temperature(*target, *temperatures),
{
    match target {
        ThermalTarget::Hottest => larger_reading(
            larger_reading(temperatures.cpu_millicelsius, temperatures.gpu_millicelsius),
            hottest_of_sensors(&temperatures.sensors),
        ),
        ThermalTarget::Cpu => temperatures.cpu_millicelsius,
        ThermalTarget::Gpu => temperatures.gpu_millicelsius,
        ThermalTarget::SensorKey { key } => find_sensor(&temperatures.sensors, key),
    }
}

/// What one curve requests, if anything.
fn request_for(
    target: &ThermalTarget,
    low: i32,
    high: i32,
    min_percent: u8,
    max_percent: u8,
    active: bool,
    temperatures: &TemperatureReadings,
) -> (r: Option<(i32, i128, i128)>)
    ensures
        ({
            let c = Curve {
                target: *target,
                low: low as int,
                high: high as int,
                min_percent: min_percent as int,
                max_percent: max_percent as int,
                active,
            };
            match r {
                Some(q) => curve_request(c, *temperatures) == Some(
                    (q.0, (q.1 as int, q.2 as int)),
                ) && bounded_fraction((q.1 as int, q.2 as int)),
                None => curve_request(c, *temperatures) is None,
            }
        }),
{
    if !active {
        return None;
    }
    match target_reading(target, temperatures) {
        Some(t) => {
            let (n, d) = percent_at(low, high, min_percent, max_percent, t);
            Some((t, n, d))
        },
        None => None,
    }
}

/// Keeps the stronger of two requests; a later request wins ties.
fn stronger(best: Option<(i32, i128, i128)>, candidate: Option<(i32, i128, i128)>) -> (r: Option<
    (i32, i128, i128),
>)
    requires
        best matches Some(b) ==> bounded_fraction((b.1 as int, b.2 as int)),
        candidate matches Some(c) ==> bounded_fraction((c.1 as int, c.2 as int)),
    ensures
        r matches Some(x) ==> bounded_fraction((x.1 as int, x.2 as int)),
        request_view(r) == match request_view(candidate) {
            None => request_view(best),
            Some(c) => match request_view(best) {
                None => Some(c),
                Some(b) => if fraction_at_least(c.1, b.1) {
                    Some(c)
                } else {
                    Some(b)
                },
            },
        },
{
    match candidate {
        None => best,
        Some(c) => match best {
            None => Some(c),
            Some(b) => {
                proof {
                    lemma_product_bounded(c.1 as int, b.2 as int);
                    lemma_product_bounded(b.1 as int, c.2 as int);
                }
                let left = c.1 * b.2;
                let right = b.1 * c.2;
                if left >= right {
                    Some(c)
                } else {
                    Some(b)
                }
            },
        },
    }
}

proof fn lemma_product_bounded(n: int, d: int)
    requires
        -0x200_0000_0000 < n < 0x200_0000_0000,
        0 < d <= 0x1_0000_0000,
    ensures
        -0x200_0000_0000 * 0x1_0000_0000 <= n * d <= 0x200_0000_0000 * 0x1_0000_0000,
{
    assert(-0x200_0000_0000 * 0x1_0000_0000 <= n * d <= 0x200_0000_0000 * 0x1_0000_0000)
        by (nonlinear_arith)
        requires
            -0x200_0000_0000 < n < 0x200_0000_0000,
            0 < d <= 0x1_0000_0000,
    ;
}

/// An exec request as the pair that the specification speaks of.
pub open spec fn request_view(r: Option<(i32, i128, i128)>) -> Option<(i32, (int, int))> {
    match r {
        Some(q) => Some((q.0, (q.1 as int, q.2 as int))),
        None => None,
    }
}

/// The strongest request of the policy's curves.
fn strongest_policy_request(settings: &ThermalPolicySettings, temperatures: &TemperatureReadings) -> (r:
    Option<(i32, i128, i128)>)
    ensures
        request_view(r) == strongest_request(policy_curves(*settings), *temperatures),
        r matches Some(x) ==> bounded_fraction((x.1 as int, x.2 as int)),
{
    match settings.mode {
        ThermalPolicyMode::SystemAuto => None,
        ThermalPolicyMode::Quiet => {
            let c = request_for(&ThermalTarget::Hottest, 50_000, 85_000, 20, 75, true, temperatures);
            proof {
                let curves = policy_curves(*settings);
                assert(curves.drop_last() =~= Seq::<Curve>::empty());
                assert(curves.len() == 1);
                assert(strongest_request(curves.drop_last(), *temperatures) is None);
            }
            stronger(None, c)
        },
        ThermalPolicyMode::Performance => {
            let c = request_for(&ThermalTarget::Hottest, 40_000, 75_000, 40, 100, true, temperatures);
            proof {
                let curves = policy_curves(*settings);
                assert(curves.drop_last() =~= Seq::<Curve>::empty());
                assert(curves.len() == 1);
                assert(strongest_request(curves.drop_last(), *temperatures) is None);
            }
            stronger(None, c)
        },
        ThermalPolicyMode::Custom => {
            let rules = &settings.rules;
            let ghost curves = policy_curves(*settings);
            let mut best: Option<(i32, i128, i128)> = None;
            let mut i: usize = 0;
            while i < rules.len()
                invariant
                    i <= rules@.len(),
                    curves == rules@.map_values(|rule: ThermalRule| curve_of(rule)),
                    request_view(best) == strongest_request(curves.take(i as int), *temperatures),
                    best matches Some(x) ==> bounded_fraction((x.1 as int, x.2 as int)),
                decreases rules.len() - i,
            {
                let rule = &rules[i];
                let c = request_for(
                    &rule.target,
                    rule.low_millicelsius,
                    rule.high_millicelsius,
                    rule.min_fan_percent,
                    rule.max_fan_percent,
                    rule.active,
                    temperatures,
                );
                proof {
                    assert(curves.take(i + 1).drop_last() =~= curves.take(i as int));
                    assert(curves.take(i + 1).last() == curve_of(rules@[i as int]));
                }
                best = stronger(best, c);
                i = i + 1;
            }
            proof {
                assert(curves.take(rules@.len() as int) =~= curves);
            }
            best
        },
    }
}

} // verus!
