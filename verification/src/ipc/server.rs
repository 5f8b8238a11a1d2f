//! Admission of client connections to the IPC server.
//!
//! Listening, accepting and spawning the per-client handlers happen outside
//! the library; whether a connection is served is decided here.

use vstd::prelude::*;

verus! {

/// Maximum number of concurrent client connections.
pub const MAX_CONNECTIONS: usize = 64;

/// Seconds after which a client's connection is dropped.
pub const CLIENT_TIMEOUT_SECS: u64 = 300;

/// Whether an incoming connection is served.
#[derive(Debug, Clone, Copy, PartialEq, Eq, Structural)]
pub enum Admission {
    /// Serve the client.
    Accept,
    /// The peer runs as another user (its uid); the connection is dropped.
    WrongUser(u32),
    /// The peer's credentials could not be read; the connection is dropped.
    NoCredentials,
    /// All connection slots are taken; the connection is dropped.
    AtCapacity,
}

/// Decide on a connection: only a peer of the server's own user is served,
/// and only while fewer than [`MAX_CONNECTIONS`] clients are.
pub fn admit_client(my_uid: u32, peer_uid: Option<u32>, active: usize) -> (a: Admission)
    ensures
        a == (match peer_uid {
            None => Admission::NoCredentials,
            Some(u) => if u != my_uid {
                Admission::WrongUser(u)
            } else if active >= MAX_CONNECTIONS {
                Admission::AtCapacity
            } else {
                Admission::Accept
            },
        }),
{
    match peer_uid {
        None => Admission::NoCredentials,
        Some(u) => {
            if u != my_uid {
                Admission::WrongUser(u)
            } else if active >= MAX_CONNECTIONS {
                Admission::AtCapacity
            } else {
                Admission::Accept
            }
        },
    }
}

} // verus!
