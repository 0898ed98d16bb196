//! The launchd registration status of the fan actuation service.
use crate::text::owned;
use vstd::prelude::*;

verus! {

/// The service's registration status as macOS reports it.
#[derive(Debug, Clone, Copy, PartialEq, Eq, Structural)]
pub enum ServiceStatus {
    NotRegistered,
    Enabled,
    RequiresApproval,
    NotFound,
    Unknown,
}

/// The status that a registration status code means.
pub open spec fn service_status(code: i32) -> ServiceStatus {
    if code == 0 {
        ServiceStatus::NotRegistered
    } else if code == 1 {
        ServiceStatus::Enabled
    } else if code == 2 {
        ServiceStatus::RequiresApproval
    } else if code == 3 {
        ServiceStatus::NotFound
    } else {
        ServiceStatus::Unknown
    }
}

/// Decodes the registration status code of the service.
pub fn status(code: i32) -> (s: ServiceStatus)
    ensures
        s == service_status(code),
{
    match code {
        0 => ServiceStatus::NotRegistered,
        1 => ServiceStatus::Enabled,
        2 => ServiceStatus::RequiresApproval,
        3 => ServiceStatus::NotFound,
        _ => ServiceStatus::Unknown,
    }
}

/// The message when macOS refuses the registration without a reason.
pub open spec fn registration_refused_message() -> Seq<char> {
    "macOS could not register the Fan actuation service"@
}

/// `String::from_utf8_lossy`: the text of some bytes, with each invalid
/// sequence replaced by U+FFFD.
pub uninterp spec fn utf8_lossy(bytes: Seq<u8>) -> Seq<char>;

/// Decodes bytes with `String::from_utf8_lossy`.  Its contract names the
/// result and states only that no bytes give no text and some bytes give
/// some text (valid text passes through, and each invalid sequence becomes
/// one replacement character).
#[verifier::external_body]
fn lossy_text(bytes: &[u8]) -> (text: String)
    ensures
        text@ == utf8_lossy(bytes@),
        text@.len() == 0 <==> bytes@.len() == 0,
{
    String::from_utf8_lossy(bytes).into_owned()
}

/// The length of the text before the first NUL byte.
pub open spec fn text_length(buffer: Seq<u8>) -> int
    decreases buffer.len(),
{
    if buffer.len() == 0 {
        0
    } else if text_length(buffer.drop_last()) < buffer.len() - 1 {
        text_length(buffer.drop_last())
    } else if buffer.last() == 0 {
        buffer.len() - 1
    } else {
        buffer.len() as int
    }
}

/// What a registration attempt reports: the service's status once it is
/// registered, and otherwise the NUL-terminated message that macOS wrote
/// (or a default when it wrote none).
pub open spec fn registration_result(registered: bool, error_buffer: Seq<u8>, code: i32) -> Result<
    ServiceStatus,
    Seq<char>,
> {
    if registered {
        Ok(service_status(code))
    } else {
        let message = utf8_lossy(error_buffer.take(text_length(error_buffer)));
        if message.len() == 0 {
            Err(registration_refused_message())
        } else {
            Err(message)
        }
    }
}

/// The position of the first NUL byte, or the length when there is none.
fn first_nul(buffer: &Vec<u8>) -> (end: usize)
    ensures
        end == text_length(buffer@),
{
    let mut i: usize = 0;
    while i < buffer.len()
        invariant
            i <= buffer.len(),
            text_length(buffer@.take(i as int)) == i,
        decreases buffer.len() - i,
    {
        proof {
            assert(buffer@.take(i + 1).drop_last() =~= buffer@.take(i as int));
        }
        if buffer[i] == 0 {
            proof {
                lemma_text_length_stops(buffer@, i as int + 1);
                assert(buffer@.take(buffer@.len() as int) =~= buffer@);
            }
            return i;
        }
        i = i + 1;
    }
    proof {
        assert(buffer@.take(buffer@.len() as int) =~= buffer@);
    }
    i
}

/// Once a prefix ends before its last byte, longer prefixes end there too.
proof fn lemma_text_length_stops(buffer: Seq<u8>, k: int)
    requires
        0 < k <= buffer.len(),
        text_length(buffer.take(k)) < k,
    ensures
        text_length(buffer.take(buffer.len() as int)) == text_length(buffer.take(k)),
    decreases buffer.len() - k,
{
    if k < buffer.len() {
        assert(buffer.take(k + 1).drop_last() =~= buffer.take(k));
        lemma_text_length_stops(buffer, k + 1);
    }
}

/// Reports a registration attempt; `read_status` asks macOS for the
/// service's status, and is only called once the service is registered.
pub fn register(
    registered: bool,
    error_buffer: &Vec<u8>,
    read_status: impl FnOnce() -> i32,
) -> (r: Result<ServiceStatus, String>)
    requires
        registered ==> read_status.requires(()),
    ensures
        registered ==> exists|code: i32|
            read_status.ensures((), code) && r == Ok::<ServiceStatus, String>(service_status(code)),
        !registered ==> (r matches Err(e) && registration_result(false, error_buffer@, 0) == Err::<
            ServiceStatus,
            Seq<char>,
        >(e@)),
{
    if registered {
        let code = read_status();
        return Ok(status(code));
    }
    let end = first_nul(error_buffer);
    let mut bytes: Vec<u8> = Vec::new();
    let mut i: usize = 0;
    while i < end
        invariant
            end <= error_buffer.len(),
            i <= end,
            bytes@ == error_buffer@.take(i as int),
        decreases end - i,
    {
        bytes.push(error_buffer[i]);
        i = i + 1;
        proof {
            assert(bytes@ =~= error_buffer@.take(i as int));
        }
    }
    let message = lossy_text(bytes.as_slice());
    if message.as_str().unicode_len() == 0 {
        Err(owned("macOS could not register the Fan actuation service"))
    } else {
        Err(message)
    }
}

} // verus!
