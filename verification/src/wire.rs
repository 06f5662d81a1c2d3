//! Big-endian numbers in byte sequences.

use vstd::prelude::*;

verus! {

/// The two bytes of a number, the high one first.
pub open spec fn be16_bytes(x: u16) -> Seq<u8> {
    seq![(x / 256) as u8, (x % 256) as u8]
}

/// The four bytes of a number, the high ones first.
pub open spec fn be32_bytes(x: u32) -> Seq<u8> {
    be16_bytes((x / 65536) as u16) + be16_bytes((x % 65536) as u16)
}

/// The eight bytes of a number, the high ones first.
pub open spec fn be64_bytes(x: u64) -> Seq<u8> {
    be32_bytes((x / 0x1_0000_0000) as u32) + be32_bytes((x % 0x1_0000_0000) as u32)
}

/// The number in the two bytes at `at`.
pub open spec fn be16(s: Seq<u8>, at: int) -> u16 {
    (s[at] * 256 + s[at + 1]) as u16
}

/// The number in the four bytes at `at`.
pub open spec fn be32(s: Seq<u8>, at: int) -> u32 {
    (be16(s, at) * 65536 + be16(s, at + 2)) as u32
}

/// The number in the eight bytes at `at`.
pub open spec fn be64(s: Seq<u8>, at: int) -> u64 {
    (be32(s, at) * 0x1_0000_0000 + be32(s, at + 4)) as u64
}

/// What was written as two bytes is read back.
pub proof fn lemma_be16(s: Seq<u8>, at: int, x: u16)
    requires
        0 <= at,
        at + 2 <= s.len(),
        s.subrange(at, at + 2) == be16_bytes(x),
    ensures
        be16(s, at) == x,
{
    assert(s.subrange(at, at + 2)[0] == s[at]);
    assert(s.subrange(at, at + 2)[1] == s[at + 1]);
}

/// What was written as four bytes is read back.
pub proof fn lemma_be32(s: Seq<u8>, at: int, x: u32)
    requires
        0 <= at,
        at + 4 <= s.len(),
        s.subrange(at, at + 4) == be32_bytes(x),
    ensures
        be32(s, at) == x,
{
    let b = be32_bytes(x);
    assert(s.subrange(at, at + 2) =~= b.subrange(0, 2));
    assert(s.subrange(at + 2, at + 4) =~= b.subrange(2, 4));
    assert(b.subrange(0, 2) =~= be16_bytes((x / 65536) as u16));
    assert(b.subrange(2, 4) =~= be16_bytes((x % 65536) as u16));
    lemma_be16(s, at, (x / 65536) as u16);
    lemma_be16(s, at + 2, (x % 65536) as u16);
}

/// What was written as eight bytes is read back.
pub proof fn lemma_be64(s: Seq<u8>, at: int, x: u64)
    requires
        0 <= at,
        at + 8 <= s.len(),
        s.subrange(at, at + 8) == be64_bytes(x),
    ensures
        be64(s, at) == x,
{
    let b = be64_bytes(x);
    assert(s.subrange(at, at + 4) =~= b.subrange(0, 4));
    assert(s.subrange(at + 4, at + 8) =~= b.subrange(4, 8));
    assert(b.subrange(0, 4) =~= be32_bytes((x / 0x1_0000_0000) as u32));
    assert(b.subrange(4, 8) =~= be32_bytes((x % 0x1_0000_0000) as u32));
    lemma_be32(s, at, (x / 0x1_0000_0000) as u32);
    lemma_be32(s, at + 4, (x % 0x1_0000_0000) as u32);
}

/// Reads the two bytes at `at`.
pub fn read_be16(bytes: &[u8], at: usize) -> (r: u16)
    requires
        at + 2 <= bytes@.len(),
    ensures
        r == be16(bytes@, at as int),
{
    let _total: usize = bytes.len();
    bytes[at] as u16 * 256 + bytes[at + 1] as u16
}

/// Reads the four bytes at `at`.
pub fn read_be32(bytes: &[u8], at: usize) -> (r: u32)
    requires
        at + 4 <= bytes@.len(),
    ensures
        r == be32(bytes@, at as int),
{
    let _total: usize = bytes.len();
    read_be16(bytes, at) as u32 * 65536 + read_be16(bytes, at + 2) as u32
}

/// Reads the eight bytes at `at`.
pub fn read_be64(bytes: &[u8], at: usize) -> (r: u64)
    requires
        at + 8 <= bytes@.len(),
    ensures
        r == be64(bytes@, at as int),
{
    let _total: usize = bytes.len();
    read_be32(bytes, at) as u64 * 0x1_0000_0000 + read_be32(bytes, at + 4) as u64
}

/// Appends two bytes.
pub fn push_be16(out: &mut Vec<u8>, x: u16)
    ensures
        final(out)@ == old(out)@ + be16_bytes(x),
{
    out.push((x / 256) as u8);
    out.push((x % 256) as u8);
    assert(out@ =~= old(out)@ + be16_bytes(x));
}

/// Appends four bytes.
pub fn push_be32(out: &mut Vec<u8>, x: u32)
    ensures
        final(out)@ == old(out)@ + be32_bytes(x),
{
    push_be16(out, (x / 65536) as u16);
    push_be16(out, (x % 65536) as u16);
    assert(out@ =~= old(out)@ + be32_bytes(x));
}

/// Appends eight bytes.
pub fn push_be64(out: &mut Vec<u8>, x: u64)
    ensures
        final(out)@ == old(out)@ + be64_bytes(x),
{
    push_be32(out, (x / 0x1_0000_0000) as u32);
    push_be32(out, (x % 0x1_0000_0000) as u32);
    assert(out@ =~= old(out)@ + be64_bytes(x));
}

/// Appends the bytes of a slice.
pub fn push_bytes(out: &mut Vec<u8>, bytes: &[u8])
    ensures
        final(out)@ == old(out)@ + bytes@,
{
    out.extend_from_slice(bytes);
    assert(out@ =~= old(out)@ + bytes@);
}

/// The four bytes of a number that may be negative, taken as one that may not.
pub open spec fn word_of(x: i32) -> u32 {
    if x < 0 {
        (x + 0x1_0000_0000) as u32
    } else {
        x as u32
    }
}

/// The number that may be negative of which these are the four bytes.
pub open spec fn signed_of(word: u32) -> i32 {
    if word >= 0x8000_0000 {
        (word - 0x1_0000_0000) as i32
    } else {
        word as i32
    }
}

/// A number comes back from its four bytes.
pub proof fn lemma_signed_word(x: i32)
    ensures
        signed_of(word_of(x)) == x,
{
}

/// The number that may be negative of which these are the four bytes.
pub fn to_signed(word: u32) -> (r: i32)
    ensures
        r == signed_of(word),
{
    if word >= 0x8000_0000 {
        (word as i64 - 0x1_0000_0000) as i32
    } else {
        word as i32
    }
}

/// The four bytes of a number that may be negative, taken as one that may not.
pub fn to_word(x: i32) -> (r: u32)
    ensures
        r == word_of(x),
{
    if x < 0 {
        (x as i64 + 0x1_0000_0000) as u32
    } else {
        x as u32
    }
}

/// The first byte of a number counts most, both where it is read and where it is written: each byte
/// counts 256 times the one behind it.
pub proof fn law_first_byte_counts_most(s: Seq<u8>, at: int, x: u16, y: u32, z: u64)
    ensures
        be16(s, at) == 256 * s[at] + s[at + 1],
        be32(s, at) == 256 * (256 * (256 * s[at] + s[at + 1]) + s[at + 2]) + s[at + 3],
        be64(s, at) == 256 * (256 * (256 * (256 * be32(s, at) + s[at + 4]) + s[at + 5]) + s[at + 6])
            + s[at + 7],
        be16_bytes(x).len() == 2,
        x == 256 * be16_bytes(x)[0] + be16_bytes(x)[1],
        be32_bytes(y).len() == 4,
        y == 256 * (256 * (256 * be32_bytes(y)[0] + be32_bytes(y)[1]) + be32_bytes(y)[2])
            + be32_bytes(y)[3],
        be64_bytes(z).len() == 8,
        z == 0x1_0000_0000 * (256 * (256 * (256 * be64_bytes(z)[0] + be64_bytes(z)[1])
            + be64_bytes(z)[2]) + be64_bytes(z)[3]) + (256 * (256 * (256 * be64_bytes(z)[4]
            + be64_bytes(z)[5]) + be64_bytes(z)[6]) + be64_bytes(z)[7]),
{
    let high = (z / 0x1_0000_0000) as u32;
    let low = (z % 0x1_0000_0000) as u32;
    let b = be64_bytes(z);
    assert(b[0] == be32_bytes(high)[0] && b[1] == be32_bytes(high)[1] && b[2] == be32_bytes(high)[2]
        && b[3] == be32_bytes(high)[3] && b[4] == be32_bytes(low)[0] && b[5] == be32_bytes(low)[1]
        && b[6] == be32_bytes(low)[2] && b[7] == be32_bytes(low)[3]);
    lemma_four_bytes(y);
    lemma_four_bytes(high);
    lemma_four_bytes(low);
}

/// The four bytes of a number, each by its place.
pub proof fn lemma_be32_places(x: u32)
    ensures
        be32_bytes(x) == seq![
            (x / 0x100_0000) as u8,
            (x / 0x1_0000 % 256) as u8,
            (x / 0x100 % 256) as u8,
            (x % 256) as u8,
        ],
{
    let high = (x / 65536) as u16;
    let low = (x % 65536) as u16;
    assert(high / 256 == x / 0x100_0000 && high % 256 == x / 0x1_0000 % 256);
    assert(low / 256 == x / 0x100 % 256 && low % 256 == x % 256);
    assert(be32_bytes(x) =~= seq![
        (high / 256) as u8,
        (high % 256) as u8,
        (low / 256) as u8,
        (low % 256) as u8,
    ]);
}

proof fn lemma_four_bytes(y: u32)
    ensures
        be32_bytes(y).len() == 4,
        y == 256 * (256 * (256 * be32_bytes(y)[0] + be32_bytes(y)[1]) + be32_bytes(y)[2])
            + be32_bytes(y)[3],
{
    let high = (y / 65536) as u16;
    let low = (y % 65536) as u16;
    let b = be32_bytes(y);
    assert(b[0] == be16_bytes(high)[0] && b[1] == be16_bytes(high)[1] && b[2] == be16_bytes(low)[0]
        && b[3] == be16_bytes(low)[1]);
}

} // verus!
