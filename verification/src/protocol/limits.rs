//! What a framebuffer and an update of it may take.

use vstd::prelude::*;

verus! {

/// The bytes of a pixel.
pub const RFB_BYTES_PER_PIXEL: usize = 4;

/// The bytes of a mebibyte.
pub const BINARY_MEBIBYTE_BYTES: usize = 1_048_576;

/// The most bytes that a framebuffer may have.
pub const MAX_FRAMEBUFFER_BYTES: usize = 268_435_456;

/// The most pixels that a framebuffer may have.
pub const MAX_FRAMEBUFFER_PIXELS: usize = 67_108_864;

/// The most rectangles that an update may have.
pub const MAX_RECTS_PER_UPDATE: usize = 4096;

/// The most bytes of plain pixels that an update may have.
pub const MAX_UPDATE_RAW_BYTES: usize = 134_217_728;

} // verus!
