use superfan::fan_actuation::installer::{
    status, ArtifactLookup, InstallStatus, INSTALLED_HELPER_PATH, INSTALLED_PLIST_PATH,
};
use superfan::fan_actuation::protocol::FanEnvelope;
use superfan::fan_actuation::smc_adapter::{auto_outcome, fan_envelopes, target_outcome};
use superfan::smc::with_smc_connection;

fn root_file(mode: u32) -> ArtifactLookup {
    ArtifactLookup::Found {
        is_file: true,
        is_symlink: false,
        uid: 0,
        gid: 0,
        mode,
    }
}

#[test]
fn envelopes_cover_every_fan_in_order() {
    assert_eq!(
        fan_envelopes(2, |id| (1200 + id, 6000)),
        Ok(vec![
            FanEnvelope {
                id: 0,
                min_rpm: 1200,
                max_rpm: 6000
            },
            FanEnvelope {
                id: 1,
                min_rpm: 1201,
                max_rpm: 6000
            },
        ])
    );
}

#[test]
fn untrusted_ranges_and_missing_fans_are_errors() {
    assert_eq!(
        fan_envelopes(0, |_| unreachable!()),
        Err("no hardware fans are available".to_string())
    );
    assert_eq!(
        fan_envelopes(-3, |_| unreachable!()),
        Err("no hardware fans are available".to_string())
    );
    assert_eq!(
        fan_envelopes(3, |id| if id == 1 { (0, 6000) } else { (1200, 6000) }),
        Err("fan 1 has an invalid hardware range".to_string())
    );
    assert_eq!(
        fan_envelopes(3, |id| if id == 2 { (3000, 3000) } else { (1200, 6000) }),
        Err("fan 2 has an invalid hardware range".to_string())
    );
}

#[test]
fn refused_writes_report_the_fan_and_the_code_in_hex() {
    assert_eq!(target_outcome(0, 0), Ok(()));
    assert_eq!(
        target_outcome(1, 0x85),
        Err("SMC rejected target for fan 1: 0x85".to_string())
    );
    assert_eq!(auto_outcome(3, 0), Ok(()));
    assert_eq!(
        auto_outcome(3, -1),
        Err("SMC could not restore fan 3: 0xffffffff".to_string())
    );
}

#[test]
fn installed_status_reads_both_installed_paths() {
    let installed = status(|path| {
        if path == INSTALLED_HELPER_PATH {
            root_file(0o755)
        } else if path == INSTALLED_PLIST_PATH {
            root_file(0o644)
        } else {
            unreachable!()
        }
    });
    assert_eq!(installed, InstallStatus::Installed);
    assert_eq!(status(|_| ArtifactLookup::Missing), InstallStatus::NotInstalled);
    assert_eq!(
        status(|path| if path == INSTALLED_PLIST_PATH {
            ArtifactLookup::Missing
        } else {
            root_file(0o755)
        }),
        InstallStatus::Unavailable
    );
}

#[test]
fn smc_operations_need_an_open_connection() {
    assert_eq!(
        with_smc_connection(None, |_| Ok(1)),
        Err("SMC access is unavailable".to_string())
    );
    assert_eq!(with_smc_connection(Some(7), |c| Ok(c + 1)), Ok(8));
    assert_eq!(
        with_smc_connection::<u32>(Some(7), |_| Err("busy".into())),
        Err("busy".to_string())
    );
}
