//! Answering the challenge of the classic password authentication.

use vstd::prelude::*;
use vstd::string::*;

verus! {

/// The bytes of a key.
pub const VNC_DES_KEY_BYTES: usize = 8;

/// The bytes of a challenge.
pub const VNC_AUTH_CHALLENGE_BYTES: usize = 16;

/// The bytes of a block.
pub const DES_BLOCK_BYTES: usize = 8;

/// What the server asks.
pub type VncAuthChallenge = [u8; VNC_AUTH_CHALLENGE_BYTES];

/// What the client answers.
pub type VncAuthResponse = [u8; VNC_AUTH_CHALLENGE_BYTES];

/// The byte with its bits in the opposite order.
pub open spec fn mirrored(byte: u8) -> u8 {
    ((byte % 2) * 128 + (byte / 2 % 2) * 64 + (byte / 4 % 2) * 32 + (byte / 8 % 2) * 16 + (byte / 16
        % 2) * 8 + (byte / 32 % 2) * 4 + (byte / 64 % 2) * 2 + byte / 128) as u8
}

/// The key of a password: its first eight bytes, mirrored, and zeros where it is shorter.
pub open spec fn key_of(password: Seq<u8>) -> Seq<u8> {
    Seq::new(
        8,
        |i: int|
            if i < password.len() {
                mirrored(password[i])
            } else {
                0
            },
    )
}

/// What `des::Des` makes of a block under a key.
pub uninterp spec fn des_encrypted(key: Seq<u8>, block: Seq<u8>) -> Seq<u8>;

/// `des::Des`, made with the key, and `encrypt_block` on the block. The outcome depends on the two
/// alone.
#[verifier::external_body]
fn encrypt_block(key: &[u8; 8], block: &[u8; 8]) -> (r: [u8; 8])
    ensures
        r@ == des_encrypted(key@, block@),
{
    let cipher: des::Des = des::cipher::KeyInit::new(&(*key).into());
    let mut out = (*block).into();
    des::cipher::BlockEncrypt::encrypt_block(&cipher, &mut out);
    out.into()
}

fn mirror(byte: u8) -> (r: u8)
    ensures
        r == mirrored(byte),
{
    (byte % 2) * 128 + (byte / 2 % 2) * 64 + (byte / 4 % 2) * 32 + (byte / 8 % 2) * 16 + (byte / 16
        % 2) * 8 + (byte / 32 % 2) * 4 + (byte / 64 % 2) * 2 + byte / 128
}

/// The key of a password.
pub fn vnc_des_key(password: &str) -> (r: [u8; VNC_DES_KEY_BYTES])
    ensures
        r@ == key_of(password.spec_bytes()),
{
    let bytes = password.as_bytes();
    let mut key: [u8; 8] = [0u8; 8];
    let mut i: usize = 0;
    while i < 8 && i < bytes.len()
        invariant
            i <= 8,
            i <= bytes@.len(),
            forall|k: int| 0 <= k < i ==> key@[k] == mirrored(bytes@[k]),
            forall|k: int| i <= k < 8 ==> key@[k] == 0,
        decreases 8 - i,
    {
        key[i] = mirror(bytes[i]);
        i = i + 1;
    }
    assert(key@ =~= key_of(password.spec_bytes()));
    key
}

/// The answer to a challenge under a password: each half of it encrypted by itself.
pub open spec fn response_of(challenge: Seq<u8>, password: Seq<u8>) -> Seq<u8> {
    des_encrypted(key_of(password), challenge.subrange(0, 8)) + des_encrypted(
        key_of(password),
        challenge.subrange(8, 16),
    )
}

/// Answers a challenge.
pub fn vnc_des_challenge_response(challenge: &VncAuthChallenge, password: &str) -> (r:
    VncAuthResponse)
    ensures
        r@ == response_of(challenge@, password.spec_bytes()),
{
    let key = vnc_des_key(password);
    let mut front: [u8; 8] = [0u8; 8];
    let mut back: [u8; 8] = [0u8; 8];
    let mut i: usize = 0;
    while i < 8
        invariant
            i <= 8,
            forall|k: int| 0 <= k < i ==> front@[k] == challenge@[k],
            forall|k: int| 0 <= k < i ==> back@[k] == challenge@[k + 8],
        decreases 8 - i,
    {
        front[i] = challenge[i];
        back[i] = challenge[i + 8];
        i = i + 1;
    }
    assert(front@ =~= challenge@.subrange(0, 8));
    assert(back@ =~= challenge@.subrange(8, 16));
    let first = encrypt_block(&key, &front);
    let second = encrypt_block(&key, &back);
    let mut out: VncAuthResponse = [0u8; 16];
    let mut j: usize = 0;
    while j < 8
        invariant
            j <= 8,
            forall|k: int| 0 <= k < j ==> out@[k] == first@[k],
            forall|k: int| 0 <= k < j ==> out@[k + 8] == second@[k],
        decreases 8 - j,
    {
        out[j] = first[j];
        out[j + 8] = second[j];
        j = j + 1;
    }
    assert forall|k: int| 8 <= k < 16 implies out@[k] == second@[k - 8] by {
        assert(out@[(k - 8) + 8] == second@[k - 8]);
    }
    assert(out@ =~= first@ + second@);
    out
}

/// Only the first eight bytes of a password count: passwords that agree there have the same key,
/// and answer every challenge alike.
pub proof fn law_eight_bytes_count(first: Seq<u8>, second: Seq<u8>, challenge: Seq<u8>)
    requires
        first.len() >= 8,
        second.len() >= 8,
        first.take(8) == second.take(8),
    ensures
        key_of(first) == key_of(second),
        response_of(challenge, first) == response_of(challenge, second),
{
    assert forall|i: int| 0 <= i < 8 implies first[i] == second[i] by {
        assert(first[i] == first.take(8)[i]);
        assert(second[i] == second.take(8)[i]);
    }
    assert(key_of(first) =~= key_of(second));
}

/// Mirroring a byte twice gives it back, so no two bytes are mirrored alike.
pub proof fn law_mirrored_twice(byte: u8)
    ensures
        mirrored(mirrored(byte)) == byte,
{
    assert(mirrored(mirrored(byte)) == byte) by (bit_vector);
}

/// A mirrored byte has at each place the bit that stood as far from the other end.
pub proof fn law_bits_change_places(byte: u8)
    ensures
        mirrored(byte) / 128 == byte % 2,
        mirrored(byte) / 64 % 2 == byte / 2 % 2,
        mirrored(byte) / 32 % 2 == byte / 4 % 2,
        mirrored(byte) / 16 % 2 == byte / 8 % 2,
        mirrored(byte) / 8 % 2 == byte / 16 % 2,
        mirrored(byte) / 4 % 2 == byte / 32 % 2,
        mirrored(byte) / 2 % 2 == byte / 64 % 2,
        mirrored(byte) % 2 == byte / 128,
{
    assert(mirrored(byte) / 128 == byte % 2 && mirrored(byte) / 64 % 2 == byte / 2 % 2 && mirrored(
        byte,
    ) / 32 % 2 == byte / 4 % 2 && mirrored(byte) / 16 % 2 == byte / 8 % 2 && mirrored(byte) / 8 % 2
        == byte / 16 % 2 && mirrored(byte) / 4 % 2 == byte / 32 % 2 && mirrored(byte) / 2 % 2 == byte
        / 64 % 2 && mirrored(byte) % 2 == byte / 128) by (bit_vector);
}

/// A password gives a key byte for byte, and a shorter one as if zeros followed it. The answer to a
/// challenge is the answers to its halves, under the same key, in their order.
pub proof fn law_halves_are_answered_alike(password: Seq<u8>, front: Seq<u8>, back: Seq<u8>, i: int)
    requires
        front.len() == 8,
        back.len() == 8,
        0 <= i < 8,
    ensures
        response_of(front + back, password) == des_encrypted(key_of(password), front)
            + des_encrypted(key_of(password), back),
        key_of(password).len() == 8,
        key_of(password) == key_of(password.push(0)),
        i < password.len() ==> mirrored(key_of(password)[i]) == password[i],
{
    let whole = front + back;
    assert(whole.subrange(0, 8) =~= front);
    assert(whole.subrange(8, 16) =~= back);
    assert(key_of(password) =~= key_of(password.push(0)));
    if i < password.len() {
        law_mirrored_twice(password[i]);
    }
}

} // verus!
