use std::collections::BTreeMap;
use superfan::fan_actuation::bootstrap::{register, status as service_status, ServiceStatus};
use superfan::fan_actuation::client::{
    command, expect_ok, heartbeat, restore_all, set_target, status, system_auto, ActuationStatus,
};
use superfan::fan_actuation::daemon::{enforce_lease, record_request, restore_without_console_user};
use superfan::fan_actuation::installer::InstallStatus;
use superfan::fan_actuation::lease::ActuationLease;
use superfan::fan_actuation::protocol::{FanCommand, FanEnvelope, FanHardware, FanResponse};

#[derive(Default)]
struct FixtureHardware {
    fans: BTreeMap<usize, (i32, i32)>,
    restored: Vec<usize>,
}

impl FanHardware for FixtureHardware {
    fn envelopes(&self) -> Result<Vec<FanEnvelope>, String> {
        Ok(self
            .fans
            .iter()
            .map(|(id, (min_rpm, max_rpm))| FanEnvelope {
                id: *id,
                min_rpm: *min_rpm,
                max_rpm: *max_rpm,
            })
            .collect())
    }

    fn set_target(&mut self, _fan_id: usize, _rpm: i32) -> Result<(), String> {
        Ok(())
    }

    fn system_auto(&mut self, fan_id: usize) -> Result<(), String> {
        self.restored.push(fan_id);
        Ok(())
    }
}

fn two_fans() -> FixtureHardware {
    let mut hardware = FixtureHardware::default();
    hardware.fans.insert(0, (1200, 6000));
    hardware.fans.insert(1, (1200, 6000));
    hardware
}

#[test]
fn daemon_errors_become_client_errors() {
    assert_eq!(
        command(
            |_| Ok(FanResponse::Error {
                message: "fan 9 is unavailable".into()
            }),
            FanCommand::SystemAuto { fan_id: 9 }
        ),
        Err("fan 9 is unavailable".to_string())
    );
    assert_eq!(
        command(|_| Err("connection refused".into()), FanCommand::Status),
        Err("connection refused".to_string())
    );
    assert_eq!(
        command(|_| Ok(FanResponse::Accepted), FanCommand::Heartbeat),
        Ok(FanResponse::Accepted)
    );
}

#[test]
fn acknowledged_commands_send_their_request_and_expect_ok() {
    assert_eq!(
        set_target(
            |sent| {
                assert_eq!(
                    sent,
                    FanCommand::SetTarget {
                        fan_id: 1,
                        rpm: 2500
                    }
                );
                Ok(FanResponse::Accepted)
            },
            1,
            2500
        ),
        Ok(())
    );
    assert_eq!(
        system_auto(
            |sent| {
                assert_eq!(sent, FanCommand::SystemAuto { fan_id: 2 });
                Ok(FanResponse::Accepted)
            },
            2
        ),
        Ok(())
    );
    assert_eq!(
        restore_all(|_| Ok(FanResponse::Ready { fans: vec![] })),
        Err("unexpected response from Fan actuation service".to_string())
    );
    assert_eq!(
        heartbeat(|sent| {
            assert_eq!(sent, FanCommand::Heartbeat);
            Err("timed out".into())
        }),
        Err("timed out".to_string())
    );
    assert_eq!(expect_ok(FanResponse::Accepted), Ok(()));
}

#[test]
fn readiness_follows_installation_and_the_status_reply() {
    assert_eq!(
        status(InstallStatus::NotInstalled, |_| unreachable!()),
        ActuationStatus::NotRegistered
    );
    assert_eq!(
        status(InstallStatus::Unavailable, |_| unreachable!()),
        ActuationStatus::Unavailable
    );
    assert_eq!(
        status(InstallStatus::Installed, |_| Ok(FanResponse::Ready {
            fans: vec![]
        })),
        ActuationStatus::Ready
    );
    assert_eq!(
        status(InstallStatus::Installed, |_| Ok(FanResponse::Accepted)),
        ActuationStatus::Unavailable
    );
    assert_eq!(
        status(InstallStatus::Installed, |_| Err("no socket".into())),
        ActuationStatus::Unavailable
    );
}

#[test]
fn service_registration_codes_and_errors() {
    assert_eq!(service_status(0), ServiceStatus::NotRegistered);
    assert_eq!(service_status(1), ServiceStatus::Enabled);
    assert_eq!(service_status(2), ServiceStatus::RequiresApproval);
    assert_eq!(service_status(3), ServiceStatus::NotFound);
    assert_eq!(service_status(-1), ServiceStatus::Unknown);
    assert_eq!(register(true, &vec![0; 8], || 1), Ok(ServiceStatus::Enabled));
    assert_eq!(
        register(false, &b"Operation not permitted\0garbage".to_vec(), || unreachable!()),
        Err("Operation not permitted".to_string())
    );
    assert_eq!(
        register(false, &vec![0; 8], || unreachable!()),
        Err("macOS could not register the Fan actuation service".to_string())
    );
    assert_eq!(
        register(false, &vec![b'a', 0xff, b'b'], || unreachable!()),
        Err("a\u{fffd}b".to_string())
    );
}

#[test]
fn lapsed_lease_restores_every_fan_once() {
    let mut hardware = two_fans();
    let mut lease = ActuationLease::new(15_000, 0);
    assert!(!record_request(
        &mut lease,
        &mut hardware,
        Ok(Some(FanCommand::SetTarget {
            fan_id: 0,
            rpm: 3000
        })),
        1_000
    ));
    assert!(!enforce_lease(&mut lease, &mut hardware, 15_999));
    assert!(hardware.restored.is_empty());
    assert!(enforce_lease(&mut lease, &mut hardware, 16_000));
    assert_eq!(hardware.restored, vec![0, 1]);
    assert!(!enforce_lease(&mut lease, &mut hardware, 60_000));
    assert_eq!(hardware.restored, vec![0, 1]);
}

#[test]
fn served_requests_update_the_lease() {
    let mut hardware = two_fans();
    let mut lease = ActuationLease::new(10, 0);
    assert!(record_request(&mut lease, &mut hardware, Ok(None), 5));
    assert!(!lease.should_restore(100));
    record_request(
        &mut lease,
        &mut hardware,
        Ok(Some(FanCommand::SetTarget { fan_id: 1, rpm: 0 })),
        100,
    );
    assert!(lease.should_restore(110));
    record_request(&mut lease, &mut hardware, Ok(Some(FanCommand::Heartbeat)), 105);
    assert!(!lease.should_restore(110));
    record_request(
        &mut lease,
        &mut hardware,
        Ok(Some(FanCommand::SystemAuto { fan_id: 1 })),
        106,
    );
    assert!(!lease.should_restore(1_000));
    record_request(
        &mut lease,
        &mut hardware,
        Ok(Some(FanCommand::SetTarget { fan_id: 0, rpm: 0 })),
        200,
    );
    assert!(!record_request(
        &mut lease,
        &mut hardware,
        Err("broken pipe".into()),
        201
    ));
    assert_eq!(hardware.restored, vec![0, 1]);
    assert!(!lease.should_restore(1_000));
}

#[test]
fn missing_console_user_restores_every_fan() {
    let mut hardware = two_fans();
    let mut lease = ActuationLease::new(10, 0);
    lease.set_manual(0, 0);
    restore_without_console_user(&mut lease, &mut hardware, 3);
    assert_eq!(hardware.restored, vec![0, 1]);
    assert!(!lease.should_restore(1_000));
}
