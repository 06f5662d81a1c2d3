//! The kinds of authentication.

use vstd::prelude::*;

verus! {

pub const INVALID: u8 = 0;

pub const NONE: u8 = 1;

pub const VNC_AUTH: u8 = 2;

pub const TIGHT: u8 = 16;

pub const ULTRA: u8 = 17;

pub const VENCRYPT: u8 = 19;

pub const TLS: u8 = 22;

pub const APPLE_ARD: u8 = 30;

pub const APPLE_RSA_SRP: u8 = 33;

pub const APPLE_ARD_39: u8 = 35;

pub const APPLE_SRP: u8 = 36;

/// Whether this kind asks for the account of a Mac.
pub fn requires_apple_account_credentials(value: u8) -> (r: bool)
    ensures
        r == (value == APPLE_ARD || value == APPLE_RSA_SRP || value == APPLE_ARD_39 || value
            == APPLE_SRP),
{
    value == APPLE_ARD || value == APPLE_RSA_SRP || value == APPLE_ARD_39 || value == APPLE_SRP
}

} // verus!
