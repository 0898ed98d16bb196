//! Removal of the legacy setuid helper.
use super::installer::ArtifactLookup;
use crate::text::joined;
use vstd::prelude::*;

verus! {

/// Where earlier releases installed a setuid helper.
pub const LEGACY_HELPER_PATH: &'static str = "/usr/local/bin/smc-helper";

/// What to do about the legacy helper path.
#[derive(Debug, Clone, Copy, PartialEq, Eq, Structural)]
pub enum LegacyHelperAction {
    /// Something exists there: remove it.
    Remove,
    /// Nothing exists there: migration is already done.
    AlreadyMigrated,
    /// The path could not be inspected: report the failure.
    ReportInspectionFailure,
}

/// Decides what to do about the legacy helper path: only the named path is
/// ever removed, and a missing path means there is nothing to do.
pub fn remove_legacy_helper(lookup: ArtifactLookup) -> (action: LegacyHelperAction)
    ensures
        lookup is Found <==> action == LegacyHelperAction::Remove,
        lookup is Missing <==> action == LegacyHelperAction::AlreadyMigrated,
        lookup is Inaccessible <==> action == LegacyHelperAction::ReportInspectionFailure,
{
    match lookup {
        ArtifactLookup::Found { .. } => LegacyHelperAction::Remove,
        ArtifactLookup::Missing => LegacyHelperAction::AlreadyMigrated,
        ArtifactLookup::Inaccessible => LegacyHelperAction::ReportInspectionFailure,
    }
}

/// The error when the legacy helper could not be removed.
pub open spec fn removal_failure_message(error: Seq<char>) -> Seq<char> {
    "could not remove legacy setuid helper: "@ + error
}

/// Reports that removing the legacy helper failed, with the system's error.
pub fn removal_failure(error: &str) -> (message: String)
    ensures
        message@ == removal_failure_message(error@),
{
    joined("could not remove legacy setuid helper: ", error)
}

/// The error when the legacy helper path could not be inspected.
pub open spec fn inspection_failure_message(error: Seq<char>) -> Seq<char> {
    "could not inspect legacy setuid helper: "@ + error
}

/// Reports that inspecting the legacy helper path failed, with the system's
/// error.
pub fn inspection_failure(error: &str) -> (message: String)
    ensures
        message@ == inspection_failure_message(error@),
{
    joined("could not inspect legacy setuid helper: ", error)
}

} // verus!
