use superfan::hardware_telemetry::cadence::{next_tick, TickAction, TickEvent};
use superfan::hardware_telemetry::adapters::smc::fans_from_readings;
use superfan::hardware_telemetry::contract::{
    Availability, BatteryReading, FanActuationStatus, FanMode, FanReading, TemperatureReadings,
};
use superfan::hardware_telemetry::snapshot::{
    HardwareTelemetry, IokitTelemetryAdapter, SmcTelemetryAdapter,
};
use superfan::smc::{get_fan_readings, RawFanReading};

#[derive(Clone)]
struct FixtureTelemetryAdapter {
    temperatures: Availability<TemperatureReadings>,
    fans: Availability<Vec<FanReading>>,
    battery: Availability<BatteryReading>,
}

impl SmcTelemetryAdapter for FixtureTelemetryAdapter {
    fn temperatures(&self) -> Availability<TemperatureReadings> {
        self.temperatures.clone()
    }

    fn fans(&self) -> Availability<Vec<FanReading>> {
        self.fans.clone()
    }
}

impl IokitTelemetryAdapter for FixtureTelemetryAdapter {
    fn battery(&self) -> Availability<BatteryReading> {
        self.battery.clone()
    }
}

#[test]
fn fixture_adapter_produces_a_complete_snapshot() {
    let fixture = FixtureTelemetryAdapter {
        temperatures: Availability::Available {
            value: TemperatureReadings {
                cpu_millicelsius: Some(70_000),
                gpu_millicelsius: None,
                sensors: vec![],
            },
        },
        fans: Availability::Available {
            value: vec![FanReading {
                id: 0,
                label: "Fan 1".into(),
                speed_rpm: 2200,
                min_speed_rpm: Some(1200),
                max_speed_rpm: Some(6000),
                target_speed_rpm: None,
                mode: Some(FanMode::SystemAuto),
            }],
        },
        battery: Availability::Available {
            value: BatteryReading {
                charge_percent: Some(80),
                temperature_millicelsius: None,
                is_charging: Some(true),
                cycle_count: None,
                power_milliwatts: None,
            },
        },
    };

    let snapshot = HardwareTelemetry::new(fixture.clone(), fixture)
        .capture(FanActuationStatus::Ready, 1_700_000_000_000);

    assert_eq!(snapshot.captured_at_unix_ms, 1_700_000_000_000);
    assert_eq!(snapshot.fan_actuation_status, FanActuationStatus::Ready);
    assert!(matches!(
        snapshot.temperatures,
        Availability::Available { .. }
    ));
    assert!(matches!(snapshot.fans, Availability::Available { .. }));
    assert!(matches!(snapshot.battery, Availability::Available { .. }));
}

#[test]
fn snapshot_preserves_adapter_unavailability_without_fallbacks() {
    let fixture = FixtureTelemetryAdapter {
        temperatures: Availability::Unavailable {
            reason: "SMC access denied".into(),
        },
        fans: Availability::Unavailable {
            reason: "SMC access denied".into(),
        },
        battery: Availability::NotPresent,
    };

    let snapshot = HardwareTelemetry::new(fixture.clone(), fixture)
        .capture(FanActuationStatus::Unavailable, 1_700_000_000_000);

    assert_eq!(
        snapshot.temperatures,
        Availability::Unavailable {
            reason: "SMC access denied".into()
        }
    );
    assert_eq!(snapshot.battery, Availability::NotPresent);
}

fn raw(id: usize, is_manual: Option<bool>) -> RawFanReading {
    RawFanReading {
        id,
        label: format!("Fan {}", id + 1),
        speed_rpm: 2000,
        min_speed_rpm: Some(1200),
        max_speed_rpm: None,
        target_speed_rpm: Some(2000),
        is_manual,
    }
}

#[test]
fn fan_group_availability_follows_the_smc() {
    assert_eq!(
        fans_from_readings(false, vec![raw(0, None)]),
        Availability::Unavailable {
            reason: "SMC access is unavailable".into()
        }
    );
    assert_eq!(fans_from_readings(true, vec![]), Availability::NotPresent);
    let fans = fans_from_readings(true, vec![raw(0, Some(true)), raw(3, None)]);
    let Availability::Available { value } = fans else {
        panic!("fans should be available");
    };
    assert_eq!(value.len(), 2);
    assert_eq!(value[0].mode, Some(FanMode::Manual));
    assert_eq!(value[0].min_speed_rpm, Some(1200));
    assert_eq!(value[0].max_speed_rpm, None);
    assert_eq!(value[1].id, 3);
    assert_eq!(value[1].label, "Fan 4");
    assert_eq!(value[1].mode, None);
}

#[test]
fn fan_probe_reads_each_fan_and_skips_unreadable_speeds() {
    let readings = get_fan_readings(|key: String| match key.as_str() {
        "FNum" => Some(3),
        "F0Ac" => Some(2100),
        "F0Mn" => Some(1200),
        "F0Mx" => Some(6000),
        "F0Md" => Some(1),
        "F2Ac" => Some(1800),
        "F2Tg" => Some(1900),
        "F2Md" => Some(0),
        _ => None,
    });
    assert_eq!(readings.len(), 2);
    assert_eq!(readings[0].id, 0);
    assert_eq!(readings[0].label, "Fan 1 (Left)");
    assert_eq!(readings[0].speed_rpm, 2100);
    assert_eq!(readings[0].min_speed_rpm, Some(1200));
    assert_eq!(readings[0].max_speed_rpm, Some(6000));
    assert_eq!(readings[0].target_speed_rpm, None);
    assert_eq!(readings[0].is_manual, Some(true));
    assert_eq!(readings[1].id, 2);
    assert_eq!(readings[1].label, "Fan 3");
    assert_eq!(readings[1].target_speed_rpm, Some(1900));
    assert_eq!(readings[1].is_manual, Some(false));
}

#[test]
fn fan_probe_tries_four_fans_when_the_count_is_unreadable() {
    let readings = get_fan_readings(|key: String| match key.as_str() {
        "F1Ac" => Some(1500),
        "F3Ac" => Some(1600),
        "F4Ac" => Some(1700),
        _ => None,
    });
    let ids: Vec<usize> = readings.iter().map(|r| r.id).collect();
    assert_eq!(ids, vec![1, 3]);
    assert_eq!(readings[0].label, "Fan 2 (Right)");
    assert_eq!(readings[1].label, "Fan 4");
    assert_eq!(readings[0].is_manual, None);
}

#[test]
fn the_cadence_restarts_only_when_the_interval_changes() {
    assert_eq!(next_tick(TickEvent::Elapsed), TickAction::Tick);
    assert_eq!(next_tick(TickEvent::IntervalChanged), TickAction::Restart);
    assert_eq!(next_tick(TickEvent::IntervalSourceClosed), TickAction::Tick);
}
