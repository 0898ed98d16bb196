use superfan::hardware_telemetry::contract::{
    Availability, FanActuationStatus, FanMode, FanReading, HardwareTelemetrySnapshot,
    TemperatureReading, TemperatureReadings,
};
use superfan::thermal_policy::contract::{
    FanPlan, FanTarget, ThermalPolicyMode, ThermalPolicySettings, ThermalRule, ThermalTarget,
};
use superfan::thermal_policy::evaluator::ThermalPolicyEvaluator;

fn mc(celsius: f64) -> i32 {
    (celsius * 1000.0).round() as i32
}

fn snapshot(
    cpu: Option<f64>,
    gpu: Option<f64>,
    sensor: Option<f64>,
    captured_at: u64,
) -> HardwareTelemetrySnapshot {
    HardwareTelemetrySnapshot {
        temperatures: Availability::Available {
            value: TemperatureReadings {
                cpu_millicelsius: cpu.map(mc),
                gpu_millicelsius: gpu.map(mc),
                sensors: sensor
                    .map(|celsius| TemperatureReading {
                        key: "Tp01".into(),
                        label: "P-Core 1".into(),
                        millicelsius: mc(celsius),
                    })
                    .into_iter()
                    .collect(),
            },
        },
        fans: Availability::Available {
            value: vec![FanReading {
                id: 0,
                label: "Fan 1".into(),
                speed_rpm: 2000,
                min_speed_rpm: Some(1000),
                max_speed_rpm: Some(5000),
                target_speed_rpm: None,
                mode: Some(FanMode::SystemAuto),
            }],
        },
        battery: Availability::NotPresent,
        fan_actuation_status: FanActuationStatus::Ready,
        captured_at_unix_ms: captured_at,
    }
}

fn rule(id: &str, target: ThermalTarget, low: f64, high: f64, min: u8, max: u8) -> ThermalRule {
    ThermalRule {
        id: id.into(),
        name: id.into(),
        target,
        low_millicelsius: mc(low),
        high_millicelsius: mc(high),
        min_fan_percent: min,
        max_fan_percent: max,
        active: true,
    }
}

fn targets(rpm: i32) -> FanPlan {
    FanPlan::Targets {
        targets: vec![FanTarget { fan_id: 0, rpm }],
    }
}

fn custom(rules: Vec<ThermalRule>) -> ThermalPolicySettings {
    ThermalPolicySettings {
        mode: ThermalPolicyMode::Custom,
        rules,
    }
}

#[test]
fn system_auto_mode_produces_system_auto_plan() {
    let mut evaluator = ThermalPolicyEvaluator::default();
    assert_eq!(
        evaluator.evaluate(
            &ThermalPolicySettings::default(),
            &snapshot(Some(70.0), None, None, 1_000),
            1_000
        ),
        FanPlan::SystemAuto
    );
}

#[test]
fn stale_or_unavailable_snapshot_produces_system_auto_plan() {
    let mut evaluator = ThermalPolicyEvaluator::default();
    let settings = ThermalPolicySettings {
        mode: ThermalPolicyMode::Performance,
        ..Default::default()
    };
    assert_eq!(
        evaluator.evaluate(&settings, &snapshot(Some(70.0), None, None, 1_000), 6_001),
        FanPlan::SystemAuto
    );
    let mut unavailable = snapshot(Some(70.0), None, None, 6_001);
    unavailable.temperatures = Availability::Unavailable {
        reason: "SMC access denied".into(),
    };
    assert_eq!(
        evaluator.evaluate(&settings, &unavailable, 6_001),
        FanPlan::SystemAuto
    );
}

#[test]
fn interpolates_percent_into_each_fan_rpm_envelope() {
    let mut evaluator = ThermalPolicyEvaluator::default();
    let settings = custom(vec![rule("cpu", ThermalTarget::Cpu, 40.0, 80.0, 20, 100)]);
    assert_eq!(
        evaluator.evaluate(&settings, &snapshot(Some(60.0), None, None, 1_000), 1_000),
        targets(3400)
    );
}

#[test]
fn hottest_target_uses_all_available_temperature_readings() {
    let mut evaluator = ThermalPolicyEvaluator::default();
    let settings = custom(vec![rule("hot", ThermalTarget::Hottest, 40.0, 80.0, 0, 100)]);
    assert_eq!(
        evaluator.evaluate(
            &settings,
            &snapshot(Some(55.0), Some(65.0), Some(75.0), 1_000),
            1_000
        ),
        targets(4500)
    );
}

#[test]
fn multiple_rules_choose_the_highest_target_for_each_fan() {
    let mut evaluator = ThermalPolicyEvaluator::default();
    let settings = custom(vec![
        rule("cpu", ThermalTarget::Cpu, 40.0, 80.0, 0, 100),
        rule("gpu", ThermalTarget::Gpu, 40.0, 80.0, 50, 100),
    ]);
    assert_eq!(
        evaluator.evaluate(
            &settings,
            &snapshot(Some(60.0), Some(60.0), None, 1_000),
            1_000
        ),
        targets(4000)
    );
}

#[test]
fn missing_custom_target_cannot_produce_manual_actuation() {
    let mut evaluator = ThermalPolicyEvaluator::default();
    let settings = custom(vec![rule(
        "missing",
        ThermalTarget::SensorKey {
            key: "missing".into(),
        },
        40.0,
        80.0,
        0,
        100,
    )]);
    assert_eq!(
        evaluator.evaluate(&settings, &snapshot(Some(60.0), None, None, 1_000), 1_000),
        FanPlan::SystemAuto
    );
}

#[test]
fn increases_apply_immediately_but_decreases_require_hysteresis_and_rate_limit() {
    let mut evaluator = ThermalPolicyEvaluator::default();
    let settings = custom(vec![rule("cpu", ThermalTarget::Cpu, 40.0, 80.0, 0, 100)]);
    assert_eq!(
        evaluator.evaluate(&settings, &snapshot(Some(80.0), None, None, 1_000), 1_000),
        targets(5000)
    );
    assert_eq!(
        evaluator.evaluate(&settings, &snapshot(Some(79.0), None, None, 2_000), 2_000),
        targets(5000)
    );
    assert_eq!(
        evaluator.evaluate(&settings, &snapshot(Some(60.0), None, None, 3_000), 3_000),
        targets(4200)
    );
}

#[test]
fn gradual_cooling_does_not_move_the_hysteresis_reference() {
    let mut evaluator = ThermalPolicyEvaluator::default();
    let settings = custom(vec![rule("cpu", ThermalTarget::Cpu, 40.0, 80.0, 0, 100)]);

    let _ = evaluator.evaluate(&settings, &snapshot(Some(80.0), None, None, 1_000), 1_000);
    let blocked = evaluator.evaluate(&settings, &snapshot(Some(79.0), None, None, 2_000), 2_000);
    let decreased = evaluator.evaluate(&settings, &snapshot(Some(78.0), None, None, 3_000), 3_000);

    assert_eq!(blocked, targets(5000));
    assert_eq!(decreased, targets(4800));
}

#[test]
fn quiet_and_performance_presets_follow_their_curves() {
    // Quiet: 50..85 °C → 20..75 %; Performance: 40..75 °C → 40..100 %.
    let mut quiet = ThermalPolicyEvaluator::default();
    let quiet_settings = ThermalPolicySettings {
        mode: ThermalPolicyMode::Quiet,
        rules: Vec::new(),
    };
    assert_eq!(
        quiet.evaluate(&quiet_settings, &snapshot(Some(75.0), None, None, 1_000), 1_000),
        targets(3371)
    );
    let mut performance = ThermalPolicyEvaluator::default();
    let performance_settings = ThermalPolicySettings {
        mode: ThermalPolicyMode::Performance,
        rules: Vec::new(),
    };
    assert_eq!(
        performance.evaluate(
            &performance_settings,
            &snapshot(Some(90.0), None, None, 1_000),
            1_000
        ),
        targets(5000)
    );
}

#[test]
fn inactive_rules_and_empty_fan_lists_give_system_auto() {
    let mut evaluator = ThermalPolicyEvaluator::default();
    let mut inactive = rule("cpu", ThermalTarget::Cpu, 40.0, 80.0, 0, 100);
    inactive.active = false;
    assert_eq!(
        evaluator.evaluate(
            &custom(vec![inactive]),
            &snapshot(Some(60.0), None, None, 1_000),
            1_000
        ),
        FanPlan::SystemAuto
    );
    let mut no_fans = snapshot(Some(60.0), None, None, 1_000);
    no_fans.fans = Availability::Available { value: Vec::new() };
    assert_eq!(
        evaluator.evaluate(
            &custom(vec![rule("cpu", ThermalTarget::Cpu, 40.0, 80.0, 0, 100)]),
            &no_fans,
            1_000
        ),
        FanPlan::SystemAuto
    );
}

#[test]
fn a_fan_without_a_usable_envelope_gives_system_auto() {
    let mut evaluator = ThermalPolicyEvaluator::default();
    let mut snap = snapshot(Some(60.0), None, None, 1_000);
    if let Availability::Available { value } = &mut snap.fans {
        value.push(FanReading {
            id: 1,
            label: "Fan 2".into(),
            speed_rpm: 0,
            min_speed_rpm: Some(3000),
            max_speed_rpm: Some(3000),
            target_speed_rpm: None,
            mode: None,
        });
    }
    assert_eq!(
        evaluator.evaluate(
            &custom(vec![rule("cpu", ThermalTarget::Cpu, 40.0, 80.0, 0, 100)]),
            &snap,
            1_000
        ),
        FanPlan::SystemAuto
    );
}

#[test]
fn sensor_key_and_rounding_half_away_from_zero() {
    // 50 % of a 1000..2001 envelope is 1500.5, which rounds up.
    let mut evaluator = ThermalPolicyEvaluator::default();
    let mut snap = snapshot(None, None, Some(60.0), 1_000);
    if let Availability::Available { value } = &mut snap.fans {
        value[0].max_speed_rpm = Some(2001);
    }
    let settings = custom(vec![rule(
        "tp",
        ThermalTarget::SensorKey { key: "Tp01".into() },
        40.0,
        80.0,
        0,
        100,
    )]);
    assert_eq!(evaluator.evaluate(&settings, &snap, 1_000), targets(1501));
}

#[test]
fn a_fan_listed_twice_is_decided_against_its_earlier_entry() {
    let mut evaluator = ThermalPolicyEvaluator::default();
    let settings = custom(vec![rule("cpu", ThermalTarget::Cpu, 40.0, 80.0, 0, 100)]);
    let mut listed_twice = snapshot(Some(80.0), None, None, 1_000);
    if let Availability::Available { value } = &mut listed_twice.fans {
        let mut second = value[0].clone();
        second.max_speed_rpm = Some(3000);
        value.push(second);
    }
    // The second entry asks for 3000 RPM, a decrease from the 5000 RPM just
    // decided for the same fan at the same temperature: it is held.
    assert_eq!(
        evaluator.evaluate(&settings, &listed_twice, 1_000),
        FanPlan::Targets {
            targets: vec![
                FanTarget { fan_id: 0, rpm: 5000 },
                FanTarget { fan_id: 0, rpm: 5000 },
            ],
        }
    );
}
