//! The decisions behind the user interface commands.
use crate::fan_actuation::client::ActuationStatus;
use crate::hardware_telemetry::contract::FanActuationStatus;
use crate::text::owned;
use crate::thermal_policy::state::{
    direct_run, result_view, DirectFanActuationRequest, FanActuation, SettingsStore,
    ThermalPolicyState,
};
use vstd::prelude::*;

verus! {

/// The direct request that a fan mode names: `"auto"` returns the fan to
/// System Auto, `"manual"` drives it at the given target.
pub open spec fn fan_mode_request_of(fan_id: usize, mode: Seq<char>, rpm: Option<i32>) -> Result<
    DirectFanActuationRequest,
    Seq<char>,
> {
    if mode == "auto"@ {
        Ok(DirectFanActuationRequest::SystemAuto { fan_id })
    } else if mode == "manual"@ {
        match rpm {
            Some(rpm) => Ok(DirectFanActuationRequest::Target { fan_id, rpm }),
            None => Err("manual mode requires a target RPM"@),
        }
    } else {
        Err("fan mode must be auto or manual"@)
    }
}

/// Whether a text is exactly the given literal.
fn text_equals(text: &str, literal: &str) -> (r: bool)
    ensures
        r == (text@ == literal@),
{
    let n = text.unicode_len();
    if n != literal.unicode_len() {
        return false;
    }
    let mut i: usize = 0;
    while i < n
        invariant
            n == text@.len(),
            n == literal@.len(),
            i <= n,
            forall|j: int| 0 <= j < i ==> text@[j] == literal@[j],
        decreases n - i,
    {
        if text.get_char(i) != literal.get_char(i) {
            return false;
        }
        i = i + 1;
    }
    assert(text@ =~= literal@);
    true
}

/// Reads a fan mode request.
pub fn fan_mode_request(fan_id: usize, mode: &str, rpm: Option<i32>) -> (r: Result<
    DirectFanActuationRequest,
    String,
>)
    ensures
        match r {
            Ok(request) => fan_mode_request_of(fan_id, mode@, rpm) == Ok::<
                DirectFanActuationRequest,
                Seq<char>,
            >(request),
            Err(e) => fan_mode_request_of(fan_id, mode@, rpm) == Err::<
                DirectFanActuationRequest,
                Seq<char>,
            >(e@),
        },
{
    if text_equals(mode, "auto") {
        Ok(DirectFanActuationRequest::SystemAuto { fan_id })
    } else if text_equals(mode, "manual") {
        match rpm {
            Some(rpm) => Ok(DirectFanActuationRequest::Target { fan_id, rpm }),
            None => Err(owned("manual mode requires a target RPM")),
        }
    } else {
        Err(owned("fan mode must be auto or manual"))
    }
}

/// Sets one fan's mode from the user interface.  A mode that cannot be read
/// is refused before the policy is consulted; otherwise the request goes to
/// the thermal policy as a direct request, with its outcome.
pub fn set_fan_mode<S: SettingsStore, F: FanActuation>(
    state: &mut ThermalPolicyState<S, F>,
    fan_id: usize,
    mode: String,
    rpm: Option<i32>,
) -> (r: Result<(), String>)
    requires
        old(state).wf(),
    ensures
        final(state).wf(),
        final(state).settings() == old(state).settings(),
        final(state).history() == old(state).history(),
        final(state).actuation() == old(state).actuation(),
        fan_mode_request_of(fan_id, mode@, rpm) matches Err(e) ==> {
            &&& r matches Err(message) && message@ == e
            &&& final(state).effects() == old(state).effects()
        },
        fan_mode_request_of(fan_id, mode@, rpm) matches Ok(request) ==> direct_run(
            old(state).settings().mode,
            request,
            old(state).effects(),
            final(state).effects(),
            result_view(r),
        ),
{
    let request = match fan_mode_request(fan_id, mode.as_str(), rpm) {
        Ok(request) => request,
        Err(message) => {
            return Err(message);
        },
    };
    state.direct_actuation(request)
}

/// The helper readiness that a telemetry snapshot reports.
pub open spec fn snapshot_status_of(status: ActuationStatus) -> FanActuationStatus {
    match status {
        ActuationStatus::NotRegistered => FanActuationStatus::NotRegistered,
        ActuationStatus::Ready => FanActuationStatus::Ready,
        ActuationStatus::Unavailable => FanActuationStatus::Unavailable,
    }
}

/// Maps the helper readiness onto the snapshot's status.
pub fn snapshot_status(status: ActuationStatus) -> (s: FanActuationStatus)
    ensures
        s == snapshot_status_of(status),
{
    match status {
        ActuationStatus::NotRegistered => FanActuationStatus::NotRegistered,
        ActuationStatus::Ready => FanActuationStatus::Ready,
        ActuationStatus::Unavailable => FanActuationStatus::Unavailable,
    }
}

/// Whether `.app/` starts at position `i` of a path.
pub open spec fn bundle_marker_at(path: Seq<char>, i: int) -> bool {
    0 <= i && i + 5 <= path.len() && path.subrange(i, i + 5) == ".app/"@
}

/// The last position at which `.app/` starts, if any.
pub open spec fn last_bundle_marker(path: Seq<char>) -> Option<int> {
    if exists|i: int| bundle_marker_at(path, i) {
        Some(choose|i: int| bundle_marker_at(path, i) && forall|j: int| bundle_marker_at(path, j) ==> j <= i)
    } else {
        None
    }
}

/// The application bundle that contains an executable: the path up to and
/// including the last `.app` directory, or the standard install location.
pub open spec fn bundle_path_of(executable: Seq<char>) -> Seq<char> {
    match last_bundle_marker(executable) {
        Some(i) => executable.subrange(0, i + 4),
        None => "/Applications/SuperFan.app"@,
    }
}

/// Finds the application bundle that contains the running executable.
pub fn installed_app_path(executable: &str) -> (path: String)
    ensures
        path@ == bundle_path_of(executable@),
{
    let n = executable.unicode_len();
    let marker = ".app/";
    let mut i: usize = n;
    while i > 0
        invariant
            n == executable@.len(),
            i <= n,
            marker@ == ".app/"@,
            forall|j: int| i <= j < n ==> !bundle_marker_at(executable@, j),
        decreases i,
    {
        let start = i - 1;
        if n - start >= 5 {
            let window = executable.substring_char(start, start + 5);
            if text_equals(window, marker) {
                proof {
                    let s = start as int;
                    assert(bundle_marker_at(executable@, s));
                    assert forall|j: int| bundle_marker_at(executable@, j) implies j <= s by {
                        if j > s && j < n {
                            assert(!bundle_marker_at(executable@, j));
                        }
                    }
                    assert(bundle_marker_at(executable@, s) && forall|j: int|
                        bundle_marker_at(executable@, j) ==> j <= s);
                    let k = choose|k: int|
                        bundle_marker_at(executable@, k) && forall|j: int|
                            bundle_marker_at(executable@, j) ==> j <= k;
                    assert(bundle_marker_at(executable@, k));
                    assert(k <= s);
                    assert(s <= k);
                }
                return executable.substring_char(0, start + 4).to_owned();
            }
        }
        proof {
            if n - start >= 5 {
                assert(!bundle_marker_at(executable@, start as int));
            }
        }
        i = start;
    }
    owned("/Applications/SuperFan.app")
}

/// Where an update is staged before it replaces the installed bundle.
pub fn staged_app_path(app_path: &str) -> (path: String)
    ensures
        path@ == app_path@ + ".new"@,
{
    let mut path = app_path.to_owned();
    path.append(".new");
    path
}

} // verus!
