//! Numbers of a session with a Mac.

use vstd::prelude::*;

verus! {

/// The client's opening of a shared session.
pub const SHARED_CLIENT_INIT: u8 = 0x01;

/// The client's opening of an encrypted session.
pub const ENCRYPTED_SESSION_CLIENT_INIT: u8 = 0xc1;

/// The type of the server's sign of life.
pub const SERVER_KEEPALIVE_MESSAGE_TYPE: u8 = 0x14;

/// The bytes of the server's sign of life.
pub const SERVER_KEEPALIVE_MESSAGE_LEN: usize = 8;

/// The bytes of its type.
pub const SERVER_KEEPALIVE_TYPE_FIELD_LEN: usize = 1;

} // verus!
