//! The buttons of a pointer, each a bit of the mask that a pointer event carries.

use vstd::prelude::*;

verus! {

pub const PRIMARY: u8 = 1;

pub const MIDDLE: u8 = 2;

pub const SECONDARY: u8 = 4;

pub const WHEEL_UP: u8 = 8;

pub const WHEEL_DOWN: u8 = 16;

pub const WHEEL_RIGHT: u8 = 32;

pub const WHEEL_LEFT: u8 = 64;

} // verus!
