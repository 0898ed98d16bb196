//! Authorization of the active console user.
use crate::text::owned;
use vstd::prelude::*;

verus! {

/// The message when nobody is logged in at the console.
pub open spec fn no_console_user_message() -> Seq<char> {
    "no active console user is available"@
}

/// Authorizes the owner of the console device: root owns it when nobody is
/// logged in, and root is never authorized.
pub fn active_console_uid(console_owner_uid: u32) -> (r: Result<u32, String>)
    ensures
        console_owner_uid == 0 ==> (r matches Err(e) && e@ == no_console_user_message()),
        console_owner_uid != 0 ==> r == Ok::<u32, String>(console_owner_uid),
{
    if console_owner_uid == 0 {
        Err(owned("no active console user is available"))
    } else {
        Ok(console_owner_uid)
    }
}

} // verus!
