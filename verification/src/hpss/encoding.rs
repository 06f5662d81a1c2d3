//! The encodings that a Mac uses beyond the standard ones.

use vstd::prelude::*;

verus! {

/// A record of the media stream.
pub const MVS: i32 = 0x3f3;

/// The first encoding that tells a state.
pub const APPLE_STATE_MIN: i32 = 0x44c;

/// The shape of the cursor.
pub const CURSOR: i32 = 0x450;

/// The state of the server, its size among it.
pub const SERVER_STATE: i32 = 0x451;

/// The last encoding that tells a state.
pub const APPLE_STATE_MAX: i32 = 0x455;

} // verus!
