//! The application's side of the fan actuation protocol.
//!
//! Each request goes through `send`, which delivers one command to the
//! daemon's socket and returns its reply (or the transport's error).
use super::installer::InstallStatus;
use super::protocol::{response_view, FanCommand, FanResponse, ResponseView};
use crate::text::owned;
use vstd::prelude::*;

verus! {

/// The daemon's Unix socket.
pub const SOCKET_PATH: &'static str = "/var/run/superfan/fan-actuation.sock";

/// Readiness of the installed helper, as the user interface reports it.
#[derive(Debug, Clone, Copy, PartialEq, Eq, Structural)]
pub enum ActuationStatus {
    NotRegistered,
    Ready,
    Unavailable,
}

/// A transport result as plain values.
pub open spec fn reply_view(reply: Result<FanResponse, String>) -> Result<ResponseView, Seq<char>> {
    match reply {
        Ok(r) => Ok(response_view(r)),
        Err(e) => Err(e@),
    }
}

/// A delivered reply: a daemon error becomes an error; other replies pass.
pub open spec fn command_result(reply: Result<ResponseView, Seq<char>>) -> Result<ResponseView, Seq<char>> {
    match reply {
        Ok(ResponseView::Error { message }) => Err(message),
        other => other,
    }
}

/// The message for a reply that is not a plain acknowledgement.
pub open spec fn unexpected_response_message() -> Seq<char> {
    "unexpected response from Fan actuation service"@
}

/// An acknowledgement becomes success; any other reply is unexpected.
pub open spec fn ok_result(response: ResponseView) -> Result<(), Seq<char>> {
    match response {
        ResponseView::Accepted => Ok(()),
        _ => Err(unexpected_response_message()),
    }
}

/// A full request that expects an acknowledgement.
pub open spec fn acknowledged(reply: Result<ResponseView, Seq<char>>) -> Result<(), Seq<char>> {
    match command_result(reply) {
        Ok(response) => ok_result(response),
        Err(e) => Err(e),
    }
}

/// A `Result<(), String>` as plain values.
pub open spec fn unit_result(r: Result<(), String>) -> Result<(), Seq<char>> {
    match r {
        Ok(()) => Ok(()),
        Err(e) => Err(e@),
    }
}

/// Sends one command; a daemon error reply becomes an error.
pub fn command(
    send: impl FnOnce(FanCommand) -> Result<FanResponse, String>,
    request: FanCommand,
) -> (r: Result<FanResponse, String>)
    requires
        send.requires((request,)),
    ensures
        exists|reply: Result<FanResponse, String>|
            send.ensures((request,), reply) && reply_view(r) == command_result(reply_view(reply)),
{
    let reply = send(request);
    let ghost delivered = reply;
    let r = match reply {
        Ok(FanResponse::Error { message }) => Err(message),
        other => other,
    };
    assert(send.ensures((request,), delivered) && reply_view(r) == command_result(
        reply_view(delivered),
    ));
    r
}

/// Accepts only a plain acknowledgement.
pub fn expect_ok(response: FanResponse) -> (r: Result<(), String>)
    ensures
        unit_result(r) == ok_result(response_view(response)),
{
    match response {
        FanResponse::Accepted => Ok(()),
        _ => Err(owned("unexpected response from Fan actuation service")),
    }
}

/// Sends a command that expects an acknowledgement.
fn acknowledged_command(
    send: impl FnOnce(FanCommand) -> Result<FanResponse, String>,
    request: FanCommand,
) -> (r: Result<(), String>)
    requires
        send.requires((request,)),
    ensures
        exists|reply: Result<FanResponse, String>|
            send.ensures((request,), reply) && unit_result(r) == acknowledged(reply_view(reply)),
{
    match command(send, request) {
        Ok(response) => expect_ok(response),
        Err(e) => Err(e),
    }
}

/// Drives one fan at a target speed.
pub fn set_target(
    send: impl FnOnce(FanCommand) -> Result<FanResponse, String>,
    fan_id: usize,
    rpm: i32,
) -> (r: Result<(), String>)
    requires
        send.requires((FanCommand::SetTarget { fan_id, rpm },)),
    ensures
        exists|reply: Result<FanResponse, String>|
            send.ensures((FanCommand::SetTarget { fan_id, rpm },), reply) && unit_result(r)
                == acknowledged(reply_view(reply)),
{
    acknowledged_command(send, FanCommand::SetTarget { fan_id, rpm })
}

/// Returns one fan to System Auto.
pub fn system_auto(send: impl FnOnce(FanCommand) -> Result<FanResponse, String>, fan_id: usize) -> (r:
    Result<(), String>)
    requires
        send.requires((FanCommand::SystemAuto { fan_id },)),
    ensures
        exists|reply: Result<FanResponse, String>|
            send.ensures((FanCommand::SystemAuto { fan_id },), reply) && unit_result(r)
                == acknowledged(reply_view(reply)),
{
    acknowledged_command(send, FanCommand::SystemAuto { fan_id })
}

/// Returns every fan to System Auto.
pub fn restore_all(send: impl FnOnce(FanCommand) -> Result<FanResponse, String>) -> (r: Result<
    (),
    String,
>)
    requires
        send.requires((FanCommand::RestoreAll,)),
    ensures
        exists|reply: Result<FanResponse, String>|
            send.ensures((FanCommand::RestoreAll,), reply) && unit_result(r) == acknowledged(
                reply_view(reply),
            ),
{
    acknowledged_command(send, FanCommand::RestoreAll)
}

/// Renews the daemon's heartbeat lease.
pub fn heartbeat(send: impl FnOnce(FanCommand) -> Result<FanResponse, String>) -> (r: Result<
    (),
    String,
>)
    requires
        send.requires((FanCommand::Heartbeat,)),
    ensures
        exists|reply: Result<FanResponse, String>|
            send.ensures((FanCommand::Heartbeat,), reply) && unit_result(r) == acknowledged(
                reply_view(reply),
            ),
{
    acknowledged_command(send, FanCommand::Heartbeat)
}

/// The readiness that a status reply means.
pub open spec fn status_of(reply: Result<ResponseView, Seq<char>>) -> ActuationStatus {
    match command_result(reply) {
        Ok(ResponseView::Ready { .. }) => ActuationStatus::Ready,
        _ => ActuationStatus::Unavailable,
    }
}

/// Reports readiness: a helper that is not installed is not registered, a
/// damaged installation is unavailable, and an installed helper is ready
/// only when it answers a status request with its fans.
pub fn status(
    install: InstallStatus,
    send: impl FnOnce(FanCommand) -> Result<FanResponse, String>,
) -> (s: ActuationStatus)
    requires
        install == InstallStatus::Installed ==> send.requires((FanCommand::Status,)),
    ensures
        install == InstallStatus::NotInstalled ==> s == ActuationStatus::NotRegistered,
        install == InstallStatus::Unavailable ==> s == ActuationStatus::Unavailable,
        install == InstallStatus::Installed ==> exists|reply: Result<FanResponse, String>|
            send.ensures((FanCommand::Status,), reply) && s == status_of(reply_view(reply)),
{
    match install {
        InstallStatus::NotInstalled => ActuationStatus::NotRegistered,
        InstallStatus::Unavailable => ActuationStatus::Unavailable,
        InstallStatus::Installed => match command(send, FanCommand::Status) {
            Ok(FanResponse::Ready { .. }) => ActuationStatus::Ready,
            _ => ActuationStatus::Unavailable,
        },
    }
}

} // verus!
