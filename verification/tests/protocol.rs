use std::collections::BTreeMap;
use superfan::fan_actuation::protocol::{
    handle_command, step_for, FanCommand, FanEnvelope, FanHardware, FanResponse, HardwareStep,
};

#[derive(Default)]
struct FixtureHardware {
    fans: BTreeMap<usize, (i32, i32)>,
    targets: BTreeMap<usize, i32>,
    restored: Vec<usize>,
    fail_envelopes: bool,
    failing_restore: Option<usize>,
}

impl FixtureHardware {
    fn with_fan(mut self, id: usize, min_rpm: i32, max_rpm: i32) -> Self {
        self.fans.insert(id, (min_rpm, max_rpm));
        self
    }
}

impl FanHardware for FixtureHardware {
    fn envelopes(&self) -> Result<Vec<FanEnvelope>, String> {
        if self.fail_envelopes {
            return Err("SMC access is unavailable".into());
        }
        Ok(self
            .fans
            .iter()
            .map(|(id, (min_rpm, max_rpm))| FanEnvelope {
                id: *id,
                min_rpm: *min_rpm,
                max_rpm: *max_rpm,
            })
            .collect())
    }

    fn set_target(&mut self, fan_id: usize, rpm: i32) -> Result<(), String> {
        self.targets.insert(fan_id, rpm);
        Ok(())
    }

    fn system_auto(&mut self, fan_id: usize) -> Result<(), String> {
        self.restored.push(fan_id);
        if self.failing_restore == Some(fan_id) {
            return Err(format!("fan {fan_id} did not return to System Auto"));
        }
        Ok(())
    }
}

#[test]
fn rejects_target_outside_hardware_envelope() {
    let mut hardware = FixtureHardware::default().with_fan(0, 1200, 6000);

    let response = handle_command(
        FanCommand::SetTarget {
            fan_id: 0,
            rpm: 6100,
        },
        &mut hardware,
    );

    assert!(matches!(response, FanResponse::Error { .. }));
    assert!(hardware.targets.is_empty());
}

#[test]
fn applies_valid_target() {
    let mut hardware = FixtureHardware::default().with_fan(0, 1200, 6000);

    let response = handle_command(
        FanCommand::SetTarget {
            fan_id: 0,
            rpm: 3200,
        },
        &mut hardware,
    );

    assert_eq!(response, FanResponse::Accepted);
    assert_eq!(hardware.targets.get(&0), Some(&3200));
}

#[test]
fn rejects_system_auto_for_unknown_fan() {
    let mut hardware = FixtureHardware::default().with_fan(0, 1200, 6000);

    let response = handle_command(FanCommand::SystemAuto { fan_id: 99 }, &mut hardware);

    assert!(matches!(response, FanResponse::Error { .. }));
    assert!(hardware.restored.is_empty());
}

#[test]
fn restore_all_returns_every_fan_to_system_auto() {
    let mut hardware = FixtureHardware::default()
        .with_fan(0, 1200, 6000)
        .with_fan(1, 1200, 6000);

    let response = handle_command(FanCommand::RestoreAll, &mut hardware);

    assert_eq!(response, FanResponse::Accepted);
    assert_eq!(hardware.restored, vec![0, 1]);
}

#[test]
fn restore_all_tries_every_fan_and_reports_the_failure() {
    let mut hardware = FixtureHardware::default()
        .with_fan(0, 1200, 6000)
        .with_fan(1, 1200, 6000)
        .with_fan(2, 1200, 6000);
    hardware.failing_restore = Some(1);

    let response = handle_command(FanCommand::RestoreAll, &mut hardware);

    assert_eq!(
        response,
        FanResponse::Error {
            message: "fan 1 did not return to System Auto".to_string()
        }
    );
    assert_eq!(hardware.restored, vec![0, 1, 2]);
    assert!(hardware.targets.is_empty());
}

#[test]
fn out_of_range_target_message_names_the_range() {
    let fans = vec![FanEnvelope {
        id: 0,
        min_rpm: 1200,
        max_rpm: 6000,
    }];
    let step = step_for(
        FanCommand::SetTarget {
            fan_id: 0,
            rpm: 6100,
        },
        Ok(fans),
    );
    assert_eq!(
        step,
        HardwareStep::Respond(FanResponse::Error {
            message: "target 6100 RPM is outside fan 0 range 1200-6000 RPM".into()
        })
    );
}

#[test]
fn unknown_fan_message_names_the_fan() {
    assert_eq!(
        step_for(FanCommand::SystemAuto { fan_id: 99 }, Ok(vec![])),
        HardwareStep::Respond(FanResponse::Error {
            message: "fan 99 is unavailable".into()
        })
    );
    assert_eq!(
        step_for(
            FanCommand::SetTarget {
                fan_id: 7,
                rpm: -5
            },
            Ok(vec![])
        ),
        HardwareStep::Respond(FanResponse::Error {
            message: "fan 7 is unavailable".into()
        })
    );
}

#[test]
fn negative_targets_are_written_with_their_sign() {
    let fans = vec![FanEnvelope {
        id: 2,
        min_rpm: 100,
        max_rpm: 200,
    }];
    assert_eq!(
        step_for(
            FanCommand::SetTarget {
                fan_id: 2,
                rpm: -40
            },
            Ok(fans)
        ),
        HardwareStep::Respond(FanResponse::Error {
            message: "target -40 RPM is outside fan 2 range 100-200 RPM".into()
        })
    );
}

#[test]
fn heartbeat_does_not_touch_the_hardware() {
    let mut hardware = FixtureHardware {
        fail_envelopes: true,
        ..Default::default()
    };
    assert_eq!(
        handle_command(FanCommand::Heartbeat, &mut hardware),
        FanResponse::Accepted
    );
}

#[test]
fn status_reports_envelopes_or_the_hardware_error() {
    let mut hardware = FixtureHardware::default().with_fan(1, 1000, 5000);
    assert_eq!(
        handle_command(FanCommand::Status, &mut hardware),
        FanResponse::Ready {
            fans: vec![FanEnvelope {
                id: 1,
                min_rpm: 1000,
                max_rpm: 5000
            }]
        }
    );
    hardware.fail_envelopes = true;
    assert_eq!(
        handle_command(FanCommand::Status, &mut hardware),
        FanResponse::Error {
            message: "SMC access is unavailable".into()
        }
    );
}

#[test]
fn boundary_targets_are_inside_the_envelope() {
    let mut hardware = FixtureHardware::default().with_fan(0, 1200, 6000);
    assert_eq!(
        handle_command(FanCommand::SetTarget { fan_id: 0, rpm: 1200 }, &mut hardware),
        FanResponse::Accepted
    );
    assert_eq!(
        handle_command(FanCommand::SetTarget { fan_id: 0, rpm: 6000 }, &mut hardware),
        FanResponse::Accepted
    );
    assert_eq!(hardware.targets.get(&0), Some(&6000));
}
