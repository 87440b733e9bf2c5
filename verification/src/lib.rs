//! Signalling and presence logic of a voice/screen-sharing chat server.
//!
//! Clients register under a user id, keep a contact list, exchange chat
//! messages and set up calls; the server relays call signalling between the
//! connections of users who are online and tells contacts when a user comes
//! online or goes offline.
use vstd::prelude::*;

pub mod clock;
pub mod decimal;
pub mod history;
pub mod laws;

pub mod messages;
pub mod presence;
pub mod rooms;
pub mod session;
pub mod turn;

verus! {

/// The reply of the health endpoint.
pub fn health() -> (r: &'static str)
    ensures
        r@ == "ok"@,
{
    "ok"
}

} // verus!
