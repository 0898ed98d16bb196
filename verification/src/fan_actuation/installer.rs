//! Decisions about the administrator-installed fan actuation helper, made
//! from what the file system reports about each file.
use super::client::ActuationStatus;
use crate::text::{joined, owned};
use vstd::prelude::*;

verus! {

/// Whether the helper is installed.
#[derive(Debug, Clone, Copy, PartialEq, Eq, Structural)]
pub enum InstallStatus {
    NotInstalled,
    Installed,
    Unavailable,
}

/// What the file system reports about one path, without following links.
#[derive(Debug, Clone, Copy, PartialEq, Eq, Structural)]
pub enum ArtifactLookup {
    /// Nothing exists at the path.
    Missing,
    /// The path could not be inspected.
    Inaccessible,
    /// Something exists at the path.
    Found { is_file: bool, is_symlink: bool, uid: u32, gid: u32, mode: u32 },
}

/// The state of one installed file.
#[derive(Debug, Clone, Copy, PartialEq, Eq, Structural)]
pub enum InstalledArtifact {
    Missing,
    Valid,
    Invalid,
}

/// A valid installed file is a regular, non-link file owned by root:wheel
/// with all the required permission bits.
pub open spec fn artifact_state(lookup: ArtifactLookup, required_mode: u32) -> InstalledArtifact {
    match lookup {
        ArtifactLookup::Missing => InstalledArtifact::Missing,
        ArtifactLookup::Inaccessible => InstalledArtifact::Invalid,
        ArtifactLookup::Found { is_file, is_symlink, uid, gid, mode } => if is_file && !is_symlink
            && uid == 0 && gid == 0 && (mode & required_mode) == required_mode {
            InstalledArtifact::Valid
        } else {
            InstalledArtifact::Invalid
        },
    }
}

/// Classifies one installed file.
pub fn installed_artifact(lookup: ArtifactLookup, required_mode: u32) -> (state: InstalledArtifact)
    ensures
        state == artifact_state(lookup, required_mode),
{
    match lookup {
        ArtifactLookup::Missing => InstalledArtifact::Missing,
        ArtifactLookup::Inaccessible => InstalledArtifact::Invalid,
        ArtifactLookup::Found { is_file, is_symlink, uid, gid, mode } => {
            if is_file && !is_symlink && uid == 0 && gid == 0 && (mode & required_mode)
                == required_mode {
                InstalledArtifact::Valid
            } else {
                InstalledArtifact::Invalid
            }
        },
    }
}

/// The installation status from the helper executable and its launchd plist:
/// installed when both are valid, not installed when both are missing, and
/// unavailable otherwise.
pub open spec fn install_status(helper: ArtifactLookup, plist: ArtifactLookup) -> InstallStatus {
    match (artifact_state(helper, 0o111), artifact_state(plist, 0)) {
        (InstalledArtifact::Valid, InstalledArtifact::Valid) => InstallStatus::Installed,
        (InstalledArtifact::Missing, InstalledArtifact::Missing) => InstallStatus::NotInstalled,
        _ => InstallStatus::Unavailable,
    }
}

/// Decides the installation status; the helper must be executable.
pub fn installed_status_at(helper: ArtifactLookup, plist: ArtifactLookup) -> (status: InstallStatus)
    ensures
        status == install_status(helper, plist),
{
    match (installed_artifact(helper, 0o111), installed_artifact(plist, 0)) {
        (InstalledArtifact::Valid, InstalledArtifact::Valid) => InstallStatus::Installed,
        (InstalledArtifact::Missing, InstalledArtifact::Missing) => InstallStatus::NotInstalled,
        _ => InstallStatus::Unavailable,
    }
}

/// Where the administrator installer puts the helper executable.
pub const INSTALLED_HELPER_PATH: &'static str = "/Library/PrivilegedHelperTools/com.superfan.fan-actuation";

/// Where the administrator installer puts the helper's launchd plist.
pub const INSTALLED_PLIST_PATH: &'static str = "/Library/LaunchDaemons/com.superfan.fan-actuation.plist";

/// The installation status of the helper at its installed paths; `lookup`
/// reports what is at a path without following links.
pub fn status(lookup: impl Fn(&'static str) -> ArtifactLookup) -> (s: InstallStatus)
    requires
        forall|path: &'static str| lookup.requires((path,)),
    ensures
        exists|helper: ArtifactLookup, plist: ArtifactLookup|
            lookup.ensures((INSTALLED_HELPER_PATH,), helper) && lookup.ensures(
                (INSTALLED_PLIST_PATH,),
                plist,
            ) && s == install_status(helper, plist),
{
    let helper = lookup(INSTALLED_HELPER_PATH);
    let plist = lookup(INSTALLED_PLIST_PATH);
    installed_status_at(helper, plist)
}

/// The bundled resources, in the order they are checked.
pub open spec fn resource_name(i: int) -> Seq<char> {
    if i == 0 {
        "fan-actuation-daemon"@
    } else if i == 1 {
        "install-fan-actuation.sh"@
    } else if i == 2 {
        "authorize-install.applescript"@
    } else {
        "com.superfan.fan-actuation.plist"@
    }
}

/// The name of a bundled resource.
pub fn bundled_resource_name(i: usize) -> (name: &'static str)
    requires
        i < 4,
    ensures
        name@ == resource_name(i as int),
{
    if i == 0 {
        "fan-actuation-daemon"
    } else if i == 1 {
        "install-fan-actuation.sh"
    } else if i == 2 {
        "authorize-install.applescript"
    } else {
        "com.superfan.fan-actuation.plist"
    }
}

/// The problem with one bundled resource, if any.
pub open spec fn resource_error(i: int, lookup: ArtifactLookup) -> Option<Seq<char>> {
    match lookup {
        ArtifactLookup::Found { is_file, is_symlink, .. } => if !is_file || is_symlink {
            Some("unsafe bundled Fan actuation resource: "@ + resource_name(i))
        } else {
            None
        },
        _ => Some("missing bundled Fan actuation resource: "@ + resource_name(i)),
    }
}

/// Whether a lookup shows some execute permission bit.
pub open spec fn is_executable(lookup: ArtifactLookup) -> bool {
    lookup matches ArtifactLookup::Found { mode, .. } && (mode & 0o111) != 0
}

/// The first problem with the bundled resources, checked in order.
pub open spec fn resources_error(lookups: Seq<ArtifactLookup>, n: int) -> Option<Seq<char>>
    decreases n,
{
    if n <= 0 {
        None
    } else {
        match resources_error(lookups, n - 1) {
            Some(e) => Some(e),
            None => resource_error(n - 1, lookups[n - 1]),
        }
    }
}

/// What checking the bundled resources reports: each must be a regular,
/// non-link file, and the installer and the helper must be executable.
pub open spec fn bundle_error(lookups: Seq<ArtifactLookup>) -> Option<Seq<char>> {
    match resources_error(lookups, 4) {
        Some(e) => Some(e),
        None => if !is_executable(lookups[1]) || !is_executable(lookups[0]) {
            Some("bundled Fan actuation installer and helper must be executable"@)
        } else {
            None
        },
    }
}

/// Checks the bundled resources, given what the file system reports for
/// each of them in order.
pub fn validate_resources(lookups: &Vec<ArtifactLookup>) -> (r: Result<(), String>)
    requires
        lookups@.len() == 4,
    ensures
        match r {
            Ok(()) => bundle_error(lookups@) is None,
            Err(e) => bundle_error(lookups@) == Some(e@),
        },
{
    let mut i: usize = 0;
    while i < 4
        invariant
            i <= 4,
            lookups@.len() == 4,
            resources_error(lookups@, i as int) is None,
        decreases 4 - i,
    {
        let name = bundled_resource_name(i);
        match lookups[i] {
            ArtifactLookup::Found { is_file, is_symlink, .. } => {
                if !is_file || is_symlink {
                    proof {
                        lemma_resources_error_sticks(lookups@, i as int + 1, 4);
                    }
                    return Err(joined("unsafe bundled Fan actuation resource: ", name));
                }
            },
            _ => {
                proof {
                    lemma_resources_error_sticks(lookups@, i as int + 1, 4);
                }
                return Err(joined("missing bundled Fan actuation resource: ", name));
            },
        }
        i = i + 1;
    }
    let installer_executable = match lookups[1] {
        ArtifactLookup::Found { mode, .. } => (mode & 0o111) != 0,
        _ => false,
    };
    let helper_executable = match lookups[0] {
        ArtifactLookup::Found { mode, .. } => (mode & 0o111) != 0,
        _ => false,
    };
    if !installer_executable || !helper_executable {
        return Err(owned("bundled Fan actuation installer and helper must be executable"));
    }
    Ok(())
}

proof fn lemma_resources_error_sticks(lookups: Seq<ArtifactLookup>, k: int, n: int)
    requires
        0 <= k <= n,
        resources_error(lookups, k) is Some,
    ensures
        resources_error(lookups, n) == resources_error(lookups, k),
    decreases n - k,
{
    if n > k {
        lemma_resources_error_sticks(lookups, k, n - 1);
    }
}

/// Whether installing is needed: not when the helper is installed and the
/// daemon answers as ready.  The daemon is asked (`readiness`) only when the
/// helper is installed.
pub fn install_needed(status: InstallStatus, readiness: impl Fn() -> ActuationStatus) -> (needed: bool)
    requires
        readiness.requires(()),
    ensures
        status != InstallStatus::Installed ==> needed,
        status == InstallStatus::Installed ==> exists|ready: ActuationStatus|
            readiness.ensures((), ready) && needed == (ready != ActuationStatus::Ready),
{
    match status {
        InstallStatus::Installed => {
            let ready = readiness();
            match ready {
                ActuationStatus::Ready => false,
                _ => true,
            }
        },
        _ => true,
    }
}

/// The error when the administrator installer printed nothing.
pub open spec fn cancelled_install_message() -> Seq<char> {
    "administrator installation was cancelled or failed"@
}

/// The error of a failed administrator installation: what the installer
/// printed (already trimmed), or, when it printed nothing, that it was
/// cancelled or failed.
pub fn installer_failure(printed: String) -> (message: String)
    ensures
        printed@.len() == 0 ==> message@ == cancelled_install_message(),
        printed@.len() > 0 ==> message@ == printed@,
{
    if printed.as_str().unicode_len() == 0 {
        owned("administrator installation was cancelled or failed")
    } else {
        printed
    }
}

/// The error when the installer ran but the helper is still not installed.
pub open spec fn unproductive_install_message() -> Seq<char> {
    "Fan actuation helper installation did not produce valid root-owned files"@
}

/// The outcome of an installation, from the status read again after the
/// installer ran.
pub fn installed_outcome(after: InstallStatus) -> (r: Result<InstallStatus, String>)
    ensures
        after == InstallStatus::Installed ==> r == Ok::<InstallStatus, String>(InstallStatus::Installed),
        after != InstallStatus::Installed ==> (r matches Err(e) && e@ == unproductive_install_message()),
{
    match after {
        InstallStatus::Installed => Ok(InstallStatus::Installed),
        _ => Err(owned("Fan actuation helper installation did not produce valid root-owned files")),
    }
}

/// The helper counts as installed only when both its executable and its
/// launchd plist are regular files, not links, owned by root:wheel, with the
/// executable executable by everyone; it counts as not installed only when
/// neither exists; anything else (one missing, a foreign owner, a link, a
/// path that cannot be inspected) is unavailable.
pub proof fn law_installed_only_as_root_owned_regular_files(helper: ArtifactLookup, plist: ArtifactLookup)
    ensures
        install_status(helper, plist) == InstallStatus::Installed <==> {
            &&& helper matches ArtifactLookup::Found { is_file, is_symlink, uid, gid, mode } && is_file
                && !is_symlink && uid == 0 && gid == 0 && mode & 0o111 == 0o111
            &&& plist matches ArtifactLookup::Found { is_file, is_symlink, uid, gid, .. } && is_file
                && !is_symlink && uid == 0 && gid == 0
        },
        install_status(helper, plist) == InstallStatus::NotInstalled <==> (helper is Missing
            && plist is Missing),
{
    if let ArtifactLookup::Found { mode, .. } = plist {
        assert(mode & 0 == 0) by (bit_vector);
    }
}

} // verus!
