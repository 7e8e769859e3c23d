//! Who may use the control socket.
use vstd::prelude::*;

verus! {

/// What is told to a peer that is not the owner.
pub const WRONG_PEER: &'static str = "control peer UID does not match daemon owner";

/// Accepts a control connection only from the user that runs the daemon.
pub fn verify_owner(peer_uid: u32, owner_uid: u32) -> (result: Result<(), &'static str>)
    ensures
        if peer_uid == owner_uid {
            result is Ok
        } else {
            result matches Err(message) && message@ == WRONG_PEER@
        },
{
    if peer_uid == owner_uid {
        Ok(())
    } else {
        Err(WRONG_PEER)
    }
}

/// Only the owner is let in, and nobody else.
pub proof fn only_the_owner_is_let_in(
    peer_uid: u32,
    owner_uid: u32,
    result: Result<(), &'static str>,
)
    requires
        call_ensures(verify_owner, (peer_uid, owner_uid), result),
    ensures
        result is Ok <==> peer_uid == owner_uid,
{
}

} // verus!
