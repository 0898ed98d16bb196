//! Framing and authorization of requests on the daemon's Unix socket.
use super::protocol::{
    handle_command, handled, response_view, FanCommand, FanEnvelope, FanHardware, FanResponse,
    ResponseView,
};
use crate::text::owned;
use vstd::prelude::*;

verus! {

/// The largest request the daemon reads, in bytes.
pub const MAX_REQUEST_BYTES: usize = 4096;

/// What framing reports for the bytes read from a connection (at most one
/// byte more than the limit is read): the payload without its terminating
/// newline, or the problem.
pub open spec fn framed(message: Seq<u8>) -> Result<Seq<u8>, Seq<char>> {
    if message.len() > MAX_REQUEST_BYTES {
        Err("fan actuation request is too large"@)
    } else if message.len() == 0 || message.last() != 10u8 {
        Err("fan actuation request must end with a newline"@)
    } else {
        Ok(message.drop_last())
    }
}

/// Frames one request: it must fit the limit and end with a newline, which
/// is removed.
pub fn frame_message(message: Vec<u8>) -> (r: Result<Vec<u8>, String>)
    ensures
        match r {
            Ok(payload) => framed(message@) == Ok::<Seq<u8>, Seq<char>>(payload@),
            Err(e) => framed(message@) == Err::<Seq<u8>, Seq<char>>(e@),
        },
{
    let mut message = message;
    if message.len() > MAX_REQUEST_BYTES {
        return Err(owned("fan actuation request is too large"));
    }
    if message.len() == 0 || message[message.len() - 1] != 10u8 {
        return Err(owned("fan actuation request must end with a newline"));
    }
    let _ = message.pop();
    Ok(message)
}

/// The message sent to peers other than the active console user.
pub open spec fn unauthorized_peer_message() -> Seq<char> {
    "fan actuation is limited to the active console user"@
}

/// The reply for a peer, when it is not the authorized console user.
pub fn peer_rejection(peer_uid: u32, authorized_uid: u32) -> (r: Option<FanResponse>)
    ensures
        peer_uid == authorized_uid <==> r is None,
        r matches Some(response) ==> response_view(response) == (ResponseView::Error {
            message: unauthorized_peer_message(),
        }),
{
    if peer_uid != authorized_uid {
        Some(FanResponse::Error { message: owned("fan actuation is limited to the active console user") })
    } else {
        None
    }
}

/// Serves one authorized request.  A malformed request first returns every
/// fan to System Auto (as [`handle_command`] does for `RestoreAll`) and is
/// answered with its parse error; a well-formed one is handled as
/// [`handle_command`] describes and reported back to the caller.
pub fn serve_request<H: FanHardware>(request: Result<FanCommand, String>, hardware: &mut H) -> (r: (
    FanResponse,
    Option<FanCommand>,
))
    ensures
        exists|
            handled_command: FanCommand,
            reply: ResponseView,
            envelopes: Result<Vec<FanEnvelope>, String>,
            writes: Seq<&mut H>,
            results: Seq<Result<(), String>>,
        |
            #![trigger handled(handled_command, *old(hardware), envelopes, writes, results, reply)]
            handled(handled_command, *old(hardware), envelopes, writes, results, reply) && (
            writes.len() == 0 ==> *final(hardware) == *old(hardware)) && (writes.len() > 0 ==> {
                &&& *writes[0] == *old(hardware)
                &&& *final(writes.last()) == *final(hardware)
                &&& forall|i: int|
                    0 <= i < writes.len() - 1 ==> *final(#[trigger] writes[i]) == *writes[i + 1]
            }) && match request {
                Ok(command) => handled_command == command && reply == response_view(r.0) && r.1
                    == Some(command),
                Err(message) => handled_command == FanCommand::RestoreAll && r.1 is None
                    && response_view(r.0) == (ResponseView::Error { message: message@ }),
            },
{
    match request {
        Ok(command) => {
            let response = handle_command(command, hardware);
            (response, Some(command))
        },
        Err(message) => {
            let _ = handle_command(FanCommand::RestoreAll, hardware);
            (FanResponse::Error { message }, None)
        },
    }
}

/// Ends a connection once its reply was written, or failed to be written.
/// A reply that was written ends the connection with the command that was
/// served (`None` for a rejected peer or a malformed request) and touches no
/// hardware.  A reply that could not be written is reported as the error;
/// if a command was served, every fan is first returned to System Auto (as
/// [`handle_command`] does for `RestoreAll`), since the client cannot know
/// that it took effect.
pub fn finish_connection<H: FanHardware>(
    served: Option<FanCommand>,
    written: Result<(), String>,
    hardware: &mut H,
) -> (r: Result<Option<FanCommand>, String>)
    ensures
        match written {
            Ok(()) => r == Ok::<Option<FanCommand>, String>(served) && *final(hardware)
                == *old(hardware),
            Err(error) => r matches Err(e) && e@ == error@ && (served is None ==> *final(hardware)
                == *old(hardware)) && (served is Some ==> exists|
                reply: ResponseView,
                envelopes: Result<Vec<FanEnvelope>, String>,
                writes: Seq<&mut H>,
                results: Seq<Result<(), String>>,
            |
                #![trigger handled(FanCommand::RestoreAll, *old(hardware), envelopes, writes, results, reply)]
                handled(FanCommand::RestoreAll, *old(hardware), envelopes, writes, results, reply) && (
                writes.len() == 0 ==> *final(hardware) == *old(hardware)) && (writes.len() > 0 ==> {
                    &&& *writes[0] == *old(hardware)
                    &&& *final(writes.last()) == *final(hardware)
                    &&& forall|i: int|
                        0 <= i < writes.len() - 1 ==> *final(#[trigger] writes[i]) == *writes[i + 1]
                })),
        },
{
    match written {
        Ok(()) => Ok(served),
        Err(error) => {
            if served.is_some() {
                let _ = handle_command(FanCommand::RestoreAll, hardware);
            }
            Err(error)
        },
    }
}

} // verus!
