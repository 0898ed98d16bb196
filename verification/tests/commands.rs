use superfan::commands::{
    fan_mode_request, installed_app_path, set_fan_mode, snapshot_status, staged_app_path,
};
use superfan::fan_actuation::client::ActuationStatus;
use superfan::hardware_telemetry::contract::{
    Availability, FanActuationStatus, FanMode, FanReading, HardwareTelemetrySnapshot,
    TemperatureReadings,
};
use superfan::thermal_policy::contract::{
    FanPlan, FanTarget, ThermalPolicyMode, ThermalPolicySettings,
};
use superfan::thermal_policy::runtime::ThermalPolicyRuntime;
use superfan::thermal_policy::state::{
    DirectFanActuationRequest, FanActuation, SettingsStore, ThermalPolicyState,
};

struct FixedStore(Option<ThermalPolicySettings>);

impl SettingsStore for FixedStore {
    fn load(&self) -> Result<Option<ThermalPolicySettings>, String> {
        Ok(self.0.clone())
    }

    fn save(&mut self, settings: &ThermalPolicySettings) -> Result<(), String> {
        self.0 = Some(settings.clone());
        Ok(())
    }
}

#[derive(Default)]
struct Recorder {
    calls: Vec<String>,
    fail_targets: bool,
}

impl FanActuation for Recorder {
    fn set_target(&mut self, fan_id: usize, rpm: i32) -> Result<(), String> {
        self.calls.push(format!("target {fan_id} {rpm}"));
        if self.fail_targets {
            Err("target failed".into())
        } else {
            Ok(())
        }
    }

    fn system_auto(&mut self, fan_id: usize) -> Result<(), String> {
        self.calls.push(format!("auto {fan_id}"));
        Ok(())
    }

    fn restore_all(&mut self) -> Result<(), String> {
        self.calls.push("restore_all".into());
        Ok(())
    }

    fn heartbeat(&mut self) -> Result<(), String> {
        self.calls.push("heartbeat".into());
        Ok(())
    }
}

#[test]
fn fan_mode_names_are_read_exactly() {
    assert_eq!(
        fan_mode_request(2, "auto", None),
        Ok(DirectFanActuationRequest::SystemAuto { fan_id: 2 })
    );
    assert_eq!(
        fan_mode_request(2, "manual", Some(3100)),
        Ok(DirectFanActuationRequest::Target {
            fan_id: 2,
            rpm: 3100
        })
    );
    assert_eq!(
        fan_mode_request(2, "manual", None),
        Err("manual mode requires a target RPM".to_string())
    );
    assert_eq!(
        fan_mode_request(2, "Auto", Some(1)),
        Err("fan mode must be auto or manual".to_string())
    );
    assert_eq!(
        fan_mode_request(2, "auto ", None),
        Err("fan mode must be auto or manual".to_string())
    );
}

#[test]
fn set_fan_mode_goes_through_the_policy() {
    let mut state = ThermalPolicyState::load(FixedStore(None), Recorder::default());
    assert_eq!(set_fan_mode(&mut state, 0, "manual".into(), Some(2400)), Ok(()));
    assert_eq!(set_fan_mode(&mut state, 0, "auto".into(), None), Ok(()));
    assert_eq!(
        set_fan_mode(&mut state, 0, "turbo".into(), Some(2400)),
        Err("fan mode must be auto or manual".to_string())
    );

    let mut active = ThermalPolicyState::load(
        FixedStore(Some(ThermalPolicySettings {
            mode: ThermalPolicyMode::Quiet,
            rules: vec![],
        })),
        Recorder::default(),
    );
    assert_eq!(
        set_fan_mode(&mut active, 0, "auto".into(), None),
        Err("direct Fan actuation is disabled while Thermal policy is active".to_string())
    );
}

#[test]
fn snapshot_status_mirrors_helper_readiness() {
    assert_eq!(
        snapshot_status(ActuationStatus::NotRegistered),
        FanActuationStatus::NotRegistered
    );
    assert_eq!(snapshot_status(ActuationStatus::Ready), FanActuationStatus::Ready);
    assert_eq!(
        snapshot_status(ActuationStatus::Unavailable),
        FanActuationStatus::Unavailable
    );
}

#[test]
fn app_bundle_is_found_from_the_executable_path() {
    assert_eq!(
        installed_app_path("/Applications/SuperFan.app/Contents/MacOS/superfan"),
        "/Applications/SuperFan.app"
    );
    assert_eq!(
        installed_app_path("/Users/me/Apps/Outer.app/Contents/Helpers/Inner.app/Contents/MacOS/x"),
        "/Users/me/Apps/Outer.app/Contents/Helpers/Inner.app"
    );
    assert_eq!(
        installed_app_path("/usr/local/bin/superfan"),
        "/Applications/SuperFan.app"
    );
    assert_eq!(installed_app_path("/Ünïcode.app/x"), "/Ünïcode.app");
    assert_eq!(installed_app_path("weird.app"), "/Applications/SuperFan.app");
    assert_eq!(
        staged_app_path("/Applications/SuperFan.app"),
        "/Applications/SuperFan.app.new"
    );
}

fn snapshot(cpu_millicelsius: i32, captured_at_unix_ms: u64) -> HardwareTelemetrySnapshot {
    HardwareTelemetrySnapshot {
        temperatures: Availability::Available {
            value: TemperatureReadings {
                cpu_millicelsius: Some(cpu_millicelsius),
                gpu_millicelsius: None,
                sensors: vec![],
            },
        },
        fans: Availability::Available {
            value: vec![FanReading {
                id: 0,
                label: "Fan 1".into(),
                speed_rpm: 2000,
                min_speed_rpm: Some(1000),
                max_speed_rpm: Some(5000),
                target_speed_rpm: None,
                mode: Some(FanMode::SystemAuto),
            }],
        },
        battery: Availability::NotPresent,
        fan_actuation_status: FanActuationStatus::Ready,
        captured_at_unix_ms,
    }
}

#[test]
fn runtime_writes_only_changed_targets_and_restores_after_failures() {
    let settings = ThermalPolicySettings {
        mode: ThermalPolicyMode::Performance,
        rules: vec![],
    };
    let mut runtime = ThermalPolicyRuntime::default();
    let mut fans = Recorder::default();
    let plan = runtime
        .evaluate_and_apply(&settings, &snapshot(70_000, 1_000), 1_000, &mut fans)
        .unwrap();
    assert_eq!(
        plan,
        FanPlan::Targets {
            targets: vec![FanTarget {
                fan_id: 0,
                rpm: 4657
            }]
        }
    );
    runtime
        .evaluate_and_apply(&settings, &snapshot(70_000, 2_000), 2_000, &mut fans)
        .unwrap();
    assert_eq!(fans.calls, vec!["target 0 4657", "heartbeat", "heartbeat"]);

    runtime.restore_system_auto(&mut fans).unwrap();
    runtime.restore_system_auto(&mut fans).unwrap();
    assert_eq!(fans.calls.iter().filter(|c| *c == "restore_all").count(), 1);

    let mut failing = Recorder {
        fail_targets: true,
        ..Default::default()
    };
    let mut fresh = ThermalPolicyRuntime::default();
    assert_eq!(
        fresh.evaluate_and_apply(&settings, &snapshot(70_000, 1_000), 1_000, &mut failing),
        Err("target failed".to_string())
    );
    assert_eq!(failing.calls, vec!["target 0 4657", "restore_all"]);
}
