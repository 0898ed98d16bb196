use std::collections::BTreeMap;
use superfan::fan_actuation::console_user::active_console_uid;
use superfan::fan_actuation::client::ActuationStatus;
use superfan::fan_actuation::installer::{
    install_needed, installed_artifact, installed_outcome, installed_status_at, installer_failure,
    validate_resources, ArtifactLookup, InstallStatus, InstalledArtifact,
};
use superfan::fan_actuation::migration::{
    inspection_failure, remove_legacy_helper, removal_failure, LegacyHelperAction,
};
use superfan::fan_actuation::protocol::{FanCommand, FanEnvelope, FanHardware, FanResponse};
use superfan::fan_actuation::socket::{
    finish_connection, frame_message, peer_rejection, serve_request, MAX_REQUEST_BYTES,
};

#[derive(Default)]
struct FixtureHardware {
    fans: BTreeMap<usize, (i32, i32)>,
    targets: BTreeMap<usize, i32>,
    restored: Vec<usize>,
}

impl FixtureHardware {
    fn with_fan(mut self, id: usize, min_rpm: i32, max_rpm: i32) -> Self {
        self.fans.insert(id, (min_rpm, max_rpm));
        self
    }
}

impl FanHardware for FixtureHardware {
    fn envelopes(&self) -> Result<Vec<FanEnvelope>, String> {
        Ok(self
            .fans
            .iter()
            .map(|(id, (min_rpm, max_rpm))| FanEnvelope {
                id: *id,
                min_rpm: *min_rpm,
                max_rpm: *max_rpm,
            })
            .collect())
    }

    fn set_target(&mut self, fan_id: usize, rpm: i32) -> Result<(), String> {
        self.targets.insert(fan_id, rpm);
        Ok(())
    }

    fn system_auto(&mut self, fan_id: usize) -> Result<(), String> {
        self.restored.push(fan_id);
        Ok(())
    }
}

fn regular(mode: u32) -> ArtifactLookup {
    ArtifactLookup::Found {
        is_file: true,
        is_symlink: false,
        uid: 0,
        gid: 0,
        mode,
    }
}

fn user_file(mode: u32) -> ArtifactLookup {
    ArtifactLookup::Found {
        is_file: true,
        is_symlink: false,
        uid: 501,
        gid: 20,
        mode,
    }
}

fn symlink() -> ArtifactLookup {
    ArtifactLookup::Found {
        is_file: false,
        is_symlink: true,
        uid: 501,
        gid: 20,
        mode: 0o755,
    }
}

#[test]
fn active_console_uid_never_authorizes_root() {
    assert!(active_console_uid(0).is_err());
    assert_eq!(active_console_uid(501), Ok(501));
    if let Ok(uid) = active_console_uid(0) {
        assert_ne!(uid, 0);
    }
}

#[test]
fn resource_manifest_rejects_missing_and_symlinked_helper() {
    let missing = vec![ArtifactLookup::Missing; 4];
    assert!(validate_resources(&missing).is_err());
    // The helper is a link to a regular file; the other three are regular.
    let linked_helper = vec![
        symlink(),
        user_file(0o644),
        user_file(0o644),
        user_file(0o644),
    ];
    assert!(validate_resources(&linked_helper).is_err());
}

#[test]
fn installed_status_requires_both_regular_executable_artifacts() {
    assert_eq!(
        installed_status_at(ArtifactLookup::Missing, ArtifactLookup::Missing),
        InstallStatus::NotInstalled
    );
    // A user-owned executable helper alone is not an installation.
    assert_eq!(
        installed_status_at(user_file(0o755), ArtifactLookup::Missing),
        InstallStatus::Unavailable
    );
}

#[test]
fn removes_only_the_named_legacy_path() {
    assert_eq!(
        remove_legacy_helper(user_file(0o755)),
        LegacyHelperAction::Remove
    );
    assert_eq!(remove_legacy_helper(symlink()), LegacyHelperAction::Remove);
}

#[test]
fn missing_legacy_path_is_already_migrated() {
    assert_eq!(
        remove_legacy_helper(ArtifactLookup::Missing),
        LegacyHelperAction::AlreadyMigrated
    );
    assert_eq!(
        remove_legacy_helper(ArtifactLookup::Inaccessible),
        LegacyHelperAction::ReportInspectionFailure
    );
}

#[test]
fn accepts_commands_from_authorized_peer() {
    let uid = 501;
    let mut hardware = FixtureHardware::default().with_fan(0, 1200, 6000);
    assert_eq!(peer_rejection(uid, uid), None);
    let (response, served) = serve_request(
        Ok(FanCommand::SetTarget {
            fan_id: 0,
            rpm: 3200,
        }),
        &mut hardware,
    );
    assert_eq!(response, FanResponse::Accepted);
    assert_eq!(
        served,
        Some(FanCommand::SetTarget {
            fan_id: 0,
            rpm: 3200
        })
    );
    assert_eq!(hardware.targets.get(&0), Some(&3200));
}

#[test]
fn rejects_commands_from_other_users() {
    let uid = 501;
    let mut hardware = FixtureHardware::default().with_fan(0, 1200, 6000);
    let response = peer_rejection(uid, uid.saturating_add(1));
    assert_eq!(
        response,
        Some(FanResponse::Error {
            message: "fan actuation is limited to the active console user".into()
        })
    );
    assert!(matches!(response, Some(FanResponse::Error { .. })));
    // The rejection is written and the connection ends without serving a
    // command.
    assert_eq!(finish_connection(None, Ok(()), &mut hardware), Ok(None));
    assert!(hardware.targets.is_empty());
    assert!(hardware.restored.is_empty());
}

#[test]
fn malformed_authorized_request_restores_system_auto() {
    let mut hardware = FixtureHardware::default()
        .with_fan(0, 1200, 6000)
        .with_fan(1, 1200, 6000);
    let (response, served) = serve_request(Err("expected value".into()), &mut hardware);
    assert_eq!(
        response,
        FanResponse::Error {
            message: "expected value".into()
        }
    );
    assert_eq!(served, None);
    assert_eq!(hardware.restored, vec![0, 1]);
}

#[test]
fn framing_requires_a_newline_and_the_size_limit() {
    assert_eq!(
        frame_message(b"{\"command\":\"status\"}\n".to_vec()),
        Ok(b"{\"command\":\"status\"}".to_vec())
    );
    assert_eq!(
        frame_message(b"{not-json}".to_vec()),
        Err("fan actuation request must end with a newline".to_string())
    );
    assert_eq!(
        frame_message(Vec::new()),
        Err("fan actuation request must end with a newline".to_string())
    );
    let mut large = vec![b' '; MAX_REQUEST_BYTES];
    large.push(b'\n');
    assert_eq!(
        frame_message(large),
        Err("fan actuation request is too large".to_string())
    );
    let mut exact = vec![b' '; MAX_REQUEST_BYTES - 1];
    exact.push(b'\n');
    assert_eq!(
        frame_message(exact).map(|payload| payload.len()),
        Ok(MAX_REQUEST_BYTES - 1)
    );
}

#[test]
fn heartbeat_is_answered_without_touching_the_hardware() {
    let mut hardware = FixtureHardware::default().with_fan(0, 1200, 6000);
    let (response, served) = serve_request(Ok(FanCommand::Heartbeat), &mut hardware);
    assert_eq!(response, FanResponse::Accepted);
    assert_eq!(served, Some(FanCommand::Heartbeat));
    assert!(hardware.targets.is_empty() && hardware.restored.is_empty());
}

#[test]
fn installed_artifacts_must_be_root_owned_regular_files() {
    assert_eq!(installed_artifact(regular(0o755), 0o111), InstalledArtifact::Valid);
    assert_eq!(installed_artifact(regular(0o644), 0o111), InstalledArtifact::Invalid);
    assert_eq!(installed_artifact(regular(0o644), 0), InstalledArtifact::Valid);
    assert_eq!(installed_artifact(user_file(0o755), 0o111), InstalledArtifact::Invalid);
    assert_eq!(installed_artifact(symlink(), 0), InstalledArtifact::Invalid);
    assert_eq!(
        installed_artifact(ArtifactLookup::Inaccessible, 0),
        InstalledArtifact::Invalid
    );
    assert_eq!(
        installed_status_at(regular(0o755), regular(0o644)),
        InstallStatus::Installed
    );
    assert_eq!(
        installed_status_at(regular(0o644), regular(0o644)),
        InstallStatus::Unavailable
    );
}

#[test]
fn bundled_resources_report_the_first_problem_by_name() {
    assert_eq!(
        validate_resources(&vec![ArtifactLookup::Missing; 4]),
        Err("missing bundled Fan actuation resource: fan-actuation-daemon".to_string())
    );
    assert_eq!(
        validate_resources(&vec![
            user_file(0o755),
            user_file(0o755),
            symlink(),
            user_file(0o644),
        ]),
        Err("unsafe bundled Fan actuation resource: authorize-install.applescript".to_string())
    );
    assert_eq!(
        validate_resources(&vec![
            user_file(0o755),
            user_file(0o644),
            user_file(0o644),
            user_file(0o644),
        ]),
        Err("bundled Fan actuation installer and helper must be executable".to_string())
    );
    assert_eq!(
        validate_resources(&vec![
            user_file(0o755),
            user_file(0o700),
            user_file(0o644),
            user_file(0o644),
        ]),
        Ok(())
    );
}

#[test]
fn a_written_reply_ends_the_connection_with_the_served_command() {
    let mut hardware = FixtureHardware::default().with_fan(0, 1200, 6000);
    assert_eq!(
        finish_connection(Some(FanCommand::Heartbeat), Ok(()), &mut hardware),
        Ok(Some(FanCommand::Heartbeat))
    );
    assert_eq!(finish_connection(None, Ok(()), &mut hardware), Ok(None));
    assert!(hardware.targets.is_empty() && hardware.restored.is_empty());
}

#[test]
fn an_unwritten_reply_to_a_served_command_restores_system_auto() {
    let mut hardware = FixtureHardware::default()
        .with_fan(0, 1200, 6000)
        .with_fan(1, 1200, 6000);
    assert_eq!(
        finish_connection(
            Some(FanCommand::SetTarget { fan_id: 0, rpm: 3000 }),
            Err("broken pipe".into()),
            &mut hardware
        ),
        Err("broken pipe".to_string())
    );
    assert_eq!(hardware.restored, vec![0, 1]);
}

#[test]
fn an_unwritten_rejection_touches_no_hardware() {
    let mut hardware = FixtureHardware::default().with_fan(0, 1200, 6000);
    assert_eq!(
        finish_connection(None, Err("broken pipe".into()), &mut hardware),
        Err("broken pipe".to_string())
    );
    assert!(hardware.restored.is_empty() && hardware.targets.is_empty());
}

#[test]
fn installing_is_skipped_only_when_installed_and_ready() {
    assert!(!install_needed(InstallStatus::Installed, || ActuationStatus::Ready));
    assert!(install_needed(InstallStatus::Installed, || ActuationStatus::Unavailable));
    assert!(install_needed(InstallStatus::NotInstalled, || -> ActuationStatus {
        panic!("the daemon is not asked when the helper is not installed")
    }));
    assert!(install_needed(InstallStatus::Unavailable, || ActuationStatus::Ready));
}

#[test]
fn a_failed_installer_reports_what_it_printed_or_that_it_was_cancelled() {
    assert_eq!(
        installer_failure(String::new()),
        "administrator installation was cancelled or failed"
    );
    assert_eq!(
        installer_failure("launchctl bootstrap failed".to_string()),
        "launchctl bootstrap failed"
    );
}

#[test]
fn an_installation_must_leave_the_helper_installed() {
    assert_eq!(
        installed_outcome(InstallStatus::Installed),
        Ok(InstallStatus::Installed)
    );
    assert_eq!(
        installed_outcome(InstallStatus::Unavailable),
        Err("Fan actuation helper installation did not produce valid root-owned files".to_string())
    );
}

#[test]
fn legacy_helper_failures_name_the_helper_and_the_error() {
    assert_eq!(
        removal_failure("Operation not permitted (os error 1)"),
        "could not remove legacy setuid helper: Operation not permitted (os error 1)"
    );
    assert_eq!(
        inspection_failure("Permission denied (os error 13)"),
        "could not inspect legacy setuid helper: Permission denied (os error 13)"
    );
}
