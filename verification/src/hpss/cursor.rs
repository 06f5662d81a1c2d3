//! The shape of the cursor.

use vstd::prelude::*;

verus! {

/// What a shape begins with.
pub const PAYLOAD_MAGIC: u32 = 0x3e8;

/// The most bytes that a shape may have.
pub const MAX_PAYLOAD_BYTES: usize = 16_777_216;

} // verus!
