//! The daemon's decisions between requests: enforcing the heartbeat lease
//! and recording what each served request means for it.
use super::lease::ActuationLease;
use super::protocol::{handle_command, handled, FanCommand, FanEnvelope, FanHardware, ResponseView};
use vstd::prelude::*;

verus! {

/// Restores every fan when the lease has lapsed.
pub fn enforce_lease<H: FanHardware>(lease: &mut ActuationLease, hardware: &mut H, now_ms: u64) -> (restored: bool)
    ensures
        restored == old(lease).expired_at(now_ms),
        restored ==> {
            &&& final(lease).manual_fans() == Set::<usize>::empty()
            &&& final(lease).last_heartbeat() == now_ms
            &&& final(lease).timeout() == old(lease).timeout()
        },
        !restored ==> *final(lease) == *old(lease) && *final(hardware) == *old(hardware),
        restored ==> exists|
            reply: ResponseView,
            envelopes: Result<Vec<FanEnvelope>, String>,
            writes: Seq<&mut H>,
            results: Seq<Result<(), String>>,
        |
            #![trigger handled(FanCommand::RestoreAll, *old(hardware), envelopes, writes, results, reply)]
            handled(FanCommand::RestoreAll, *old(hardware), envelopes, writes, results, reply) && (
            writes.len() == 0 ==> *final(hardware) == *old(hardware)) && (writes.len() > 0 ==> {
                &&& *writes[0] == *old(hardware)
                &&& *final(writes.last()) == *final(hardware)
                &&& forall|i: int|
                    0 <= i < writes.len() - 1 ==> *final(#[trigger] writes[i]) == *writes[i + 1]
            }),
{
    if lease.should_restore(now_ms) {
        let _ = handle_command(FanCommand::RestoreAll, hardware);
        lease.restored_all(now_ms);
        true
    } else {
        false
    }
}

/// Restores every fan when no console user can be authorized.
pub fn restore_without_console_user<H: FanHardware>(
    lease: &mut ActuationLease,
    hardware: &mut H,
    now_ms: u64,
)
    ensures
        final(lease).manual_fans() == Set::<usize>::empty(),
        final(lease).last_heartbeat() == now_ms,
        final(lease).timeout() == old(lease).timeout(),
        exists|
            reply: ResponseView,
            envelopes: Result<Vec<FanEnvelope>, String>,
            writes: Seq<&mut H>,
            results: Seq<Result<(), String>>,
        |
            #![trigger handled(FanCommand::RestoreAll, *old(hardware), envelopes, writes, results, reply)]
            handled(FanCommand::RestoreAll, *old(hardware), envelopes, writes, results, reply) && (
            writes.len() == 0 ==> *final(hardware) == *old(hardware)) && (writes.len() > 0 ==> {
                &&& *writes[0] == *old(hardware)
                &&& *final(writes.last()) == *final(hardware)
                &&& forall|i: int|
                    0 <= i < writes.len() - 1 ==> *final(#[trigger] writes[i]) == *writes[i + 1]
            }),
{
    let _ = handle_command(FanCommand::RestoreAll, hardware);
    lease.restored_all(now_ms);
}

/// Records a served request in the lease; returns whether no request was
/// waiting (so the daemon may idle).  A failed connection restores every
/// fan.  A target request marks its fan manual even when the hardware
/// refused it, so the lease still guards it.
pub fn record_request<H: FanHardware>(
    lease: &mut ActuationLease,
    hardware: &mut H,
    served: Result<Option<FanCommand>, String>,
    now_ms: u64,
) -> (idle: bool)
    ensures
        idle == (served == Ok::<Option<FanCommand>, String>(None)),
        final(lease).timeout() == old(lease).timeout(),
        match served {
            Ok(None) => *final(lease) == *old(lease),
            Ok(Some(command)) => {
                &&& final(lease).last_heartbeat() == now_ms
                &&& final(lease).manual_fans() == match command {
                    FanCommand::SetTarget { fan_id, .. } => old(lease).manual_fans().insert(fan_id),
                    FanCommand::SystemAuto { fan_id } => old(lease).manual_fans().remove(fan_id),
                    FanCommand::RestoreAll => Set::<usize>::empty(),
                    _ => old(lease).manual_fans(),
                }
            },
            Err(_) => {
                &&& final(lease).last_heartbeat() == now_ms
                &&& final(lease).manual_fans() == Set::<usize>::empty()
            },
        },
        served is Ok ==> *final(hardware) == *old(hardware),
        served is Err ==> exists|
            reply: ResponseView,
            envelopes: Result<Vec<FanEnvelope>, String>,
            writes: Seq<&mut H>,
            results: Seq<Result<(), String>>,
        |
            #![trigger handled(FanCommand::RestoreAll, *old(hardware), envelopes, writes, results, reply)]
            handled(FanCommand::RestoreAll, *old(hardware), envelopes, writes, results, reply) && (
            writes.len() == 0 ==> *final(hardware) == *old(hardware)) && (writes.len() > 0 ==> {
                &&& *writes[0] == *old(hardware)
                &&& *final(writes.last()) == *final(hardware)
                &&& forall|i: int|
                    0 <= i < writes.len() - 1 ==> *final(#[trigger] writes[i]) == *writes[i + 1]
            }),
{
    match served {
        Ok(Some(FanCommand::SetTarget { fan_id, .. })) => {
            lease.set_manual(fan_id, now_ms);
            false
        },
        Ok(Some(FanCommand::SystemAuto { fan_id })) => {
            lease.set_system_auto(fan_id, now_ms);
            false
        },
        Ok(Some(FanCommand::RestoreAll)) => {
            lease.restored_all(now_ms);
            false
        },
        Ok(Some(_)) => {
            lease.heartbeat(now_ms);
            false
        },
        Ok(None) => true,
        Err(_) => {
            let _ = handle_command(FanCommand::RestoreAll, hardware);
            lease.restored_all(now_ms);
            false
        },
    }
}

} // verus!
