//! Bounded, most-significant-bit-first reads from an MVS bit stream.

use vstd::prelude::*;
use crate::error::VncError;

verus! {

/// Bit `i` of `bytes`, counted from the most significant bit of the first byte.
pub open spec fn bit_at(bytes: Seq<u8>, i: int) -> u32 {
    (bytes[i / 8] >> ((7 - i % 8) as u8)) as u32 & 1
}

/// The number whose binary digits are the `count` bits from `pos` on.
pub open spec fn bits_value(bytes: Seq<u8>, pos: int, count: int) -> int
    decreases count,
{
    if count <= 0 {
        0
    } else {
        2 * bits_value(bytes, pos, count - 1) + bit_at(bytes, pos + count - 1)
    }
}

/// Two to the `n`.
pub open spec fn two_to(n: int) -> int
    decreases n,
{
    if n <= 0 {
        1
    } else {
        2 * two_to(n - 1)
    }
}

/// A read of `count` bits at `pos`: what it gives and where the cursor stands after it.
pub open spec fn read_at(bytes: Seq<u8>, pos: int, count: int) -> (Result<u32, VncError>, int) {
    if count > 32 {
        (
            Err(
                VncError::Numbers {
                    before: "MVS 位读取长度超过 u32: ",
                    first: count as u64,
                    between: "（bit offset ",
                    second: pos as u64,
                    after: "）",
                },
            ),
            pos,
        )
    } else if count == 0 {
        (Ok(0), pos)
    } else if bytes.len() * 8 > usize::MAX {
        (Err(VncError::Text("MVS 位流总长度溢出")), pos)
    } else if pos + count > usize::MAX {
        (Err(VncError::Text("MVS 位游标溢出")), pos)
    } else if pos + count > bytes.len() * 8 {
        (
            Err(
                VncError::BitsExhausted {
                    offset: pos as usize,
                    count: count as u8,
                    remaining: (bytes.len() * 8 - pos) as usize,
                },
            ),
            pos,
        )
    } else {
        (Ok(bits_value(bytes, pos, count) as u32), pos + count)
    }
}

/// A repeat count read at `pos`: one bit that says whether there is one, four bits for a count up
/// to 15, and for larger counts one to three groups of seven, seven and eight bits, the low group
/// first, each but the last opened by a bit that says whether another follows.
pub open spec fn repeat_at(bytes: Seq<u8>, pos: int) -> (Result<usize, VncError>, int) {
    match read_at(bytes, pos, 1) {
        (Err(e), p) => (Err(e), p),
        (Ok(flag), p) => if flag == 0 {
            (Ok(0), p)
        } else {
            match read_at(bytes, p, 4) {
                (Err(e), p) => (Err(e), p),
                (Ok(direct), p) => if direct != 15 {
                    (Ok((direct + 1) as usize), p)
                } else {
                    repeat_groups_at(bytes, p)
                },
            }
        },
    }
}

/// The seven-bit groups of a large repeat count.
pub open spec fn repeat_groups_at(bytes: Seq<u8>, pos: int) -> (Result<usize, VncError>, int) {
    match read_at(bytes, pos, 8) {
        (Err(e), p) => (Err(e), p),
        (Ok(low), p) => if low < 128 {
            (Ok((low + 16) as usize), p)
        } else {
            match read_at(bytes, p, 8) {
                (Err(e), p) => (Err(e), p),
                (Ok(middle), p) => if middle < 128 {
                    (Ok((middle * 128 + (low - 128) + 16) as usize), p)
                } else {
                    match read_at(bytes, p, 8) {
                        (Err(e), p) => (Err(e), p),
                        (Ok(high), p) => (
                            Ok((high * 16384 + (middle - 128) * 128 + (low - 128) + 16) as usize),
                            p,
                        ),
                    }
                },
            }
        },
    }
}

proof fn lemma_append_bit(value: u32, byte: u8, shift: u8)
    requires
        value < 0x8000_0000,
        shift < 8,
    ensures
        ((byte >> shift) as u32 & 1) <= 1,
        ((value << 1) | ((byte >> shift) as u32 & 1)) == 2 * value + ((byte >> shift) as u32 & 1),
{
    let bit: u32 = (byte >> shift) as u32 & 1;
    assert(bit <= 1) by (bit_vector)
        requires
            bit == (byte >> shift) as u32 & 1,
    ;
    assert((value << 1) | bit == 2 * value + bit) by (bit_vector)
        requires
            value < 0x8000_0000,
            bit <= 1,
    ;
}

/// A number made of `count` bits is below two to the `count`.
pub proof fn lemma_bits_value_bound(bytes: Seq<u8>, pos: int, count: int)
    requires
        0 <= count,
    ensures
        0 <= bits_value(bytes, pos, count) < two_to(count),
    decreases count,
{
    if count > 0 {
        lemma_bits_value_bound(bytes, pos, count - 1);
        let i = pos + count - 1;
        lemma_append_bit(0, bytes[i / 8], (7 - i % 8) as u8);
    }
}

proof fn lemma_two_to_values()
    ensures
        two_to(1) == 2,
        two_to(2) == 4,
        two_to(3) == 8,
        two_to(4) == 16,
        two_to(5) == 32,
        two_to(6) == 64,
        two_to(7) == 128,
        two_to(8) == 256,
        two_to(16) == 65536,
        two_to(31) == 0x8000_0000,
        two_to(32) == 0x1_0000_0000,
{
    reveal_with_fuel(two_to, 33);
}

proof fn lemma_two_to_monotone(m: int, n: int)
    requires
        0 <= m <= n,
    ensures
        two_to(m) <= two_to(n),
        1 <= two_to(m),
    decreases n,
{
    if n > 0 {
        if m < n {
            lemma_two_to_monotone(m, n - 1);
        } else {
            lemma_two_to_monotone(m - 1, n - 1);
        }
    }
}

/// A successful read of `count` bits gives a number below two to the `count`.
pub proof fn lemma_read_bound(bytes: Seq<u8>, pos: int, count: int)
    requires
        0 <= count <= 32,
    ensures
        read_at(bytes, pos, count).0 matches Ok(v) ==> v < two_to(count) && v == bits_value(
            bytes,
            pos,
            count,
        ),
        read_at(bytes, pos, count).0 matches Ok(v) ==> read_at(bytes, pos, count).1 == pos + count,
        read_at(bytes, pos, count).0 is Err ==> read_at(bytes, pos, count).1 == pos,
        two_to(1) == 2,
        two_to(2) == 4,
        two_to(3) == 8,
        two_to(4) == 16,
        two_to(6) == 64,
        two_to(8) == 256,
{
    lemma_bits_value_bound(bytes, pos, count);
    lemma_two_to_monotone(count, 32);
    lemma_two_to_values();
}

/// The bits from `pos` on, cut in two.
proof fn lemma_bits_cut(bytes: Seq<u8>, pos: int, a: int, b: int)
    requires
        0 <= a,
        0 <= b,
    ensures
        bits_value(bytes, pos, a + b) == bits_value(bytes, pos, a) * two_to(b) + bits_value(
            bytes,
            pos + a,
            b,
        ),
    decreases b,
{
    if b > 0 {
        lemma_bits_cut(bytes, pos, a, b - 1);
        let x = bits_value(bytes, pos, a);
        let half = two_to(b - 1);
        assert(2 * (x * half) == x * (2 * half)) by (nonlinear_arith);
        assert(pos + (a + b) - 1 == (pos + a) + b - 1);
    } else {
        assert(bits_value(bytes, pos, a) * 1 == bits_value(bytes, pos, a));
    }
}

/// A shift to the left multiplies by a power of two, as long as nothing is shifted out.
proof fn lemma_shift_left(x: u32, b: u32)
    requires
        b < 32,
        x * two_to(b as int) <= u32::MAX,
    ensures
        x << b == x * two_to(b as int),
    decreases b,
{
    if b == 0 {
        assert(x << 0u32 == x) by (bit_vector);
    } else {
        let c: u32 = (b - 1) as u32;
        let p = two_to(c as int);
        lemma_two_to_monotone(c as int, c as int);
        assert(x * (2 * p) == 2 * (x * p)) by (nonlinear_arith);
        assert(0 <= x * p) by (nonlinear_arith)
            requires
                1 <= p,
        ;
        lemma_shift_left(x, c);
        let y: u32 = x << c;
        assert(y <= 0x7fff_ffff);
        assert(x << b == 2 * y) by (bit_vector)
            requires
                y == x << c,
                y <= 0x7fff_ffff,
                1 <= b < 32,
                c == b - 1,
        ;
    }
}

/// Digits behind a shifted number are added to it.
proof fn lemma_digits_behind(x: u32, y: u32, b: u32)
    requires
        b < 32,
        x * two_to(b as int) + y <= u32::MAX,
        y < two_to(b as int),
    ensures
        (x << b) | y == x * two_to(b as int) + y,
{
    lemma_shift_left(x, b);
    lemma_two_to_monotone(b as int, 31);
    lemma_two_to_values();
    lemma_shift_left(1, b);
    let z: u32 = x << b;
    let p: u32 = 1u32 << b;
    assert(z | y == z + y) by (bit_vector)
        requires
            z == x << b,
            p == 1u32 << b,
            y < p,
            b < 32,
    ;
}

/// Two reads are one: a read of `a` bits and then one of `b` bits give the high and the low digits
/// of what one read of both gives, they succeed where that read does, and they leave the cursor
/// where it does.
pub proof fn law_two_reads_are_one(bytes: Seq<u8>, pos: int, a: int, b: int)
    requires
        0 <= pos <= bytes.len() * 8,
        0 <= a,
        0 <= b,
        a + b <= 32,
    ensures
        ({
            let first = read_at(bytes, pos, a);
            let second = read_at(bytes, first.1, b);
            let whole = read_at(bytes, pos, a + b);
            &&& (first.0 is Ok && second.0 is Ok) == (whole.0 is Ok)
            &&& first.0 matches Ok(x) ==> (second.0 matches Ok(y) ==> whole.0
                == Ok::<u32, VncError>((x << (b as u32)) | y) && whole.1 == second.1 && whole.1
                == pos + a + b)
        }),
{
    let first = read_at(bytes, pos, a);
    let second = read_at(bytes, first.1, b);
    if first.0 is Ok && second.0 is Ok {
        let x = first.0->Ok_0;
        let y = second.0->Ok_0;
        lemma_read_bound(bytes, pos, a);
        lemma_read_bound(bytes, pos + a, b);
        lemma_read_bound(bytes, pos, a + b);
        lemma_bits_cut(bytes, pos, a, b);
        lemma_bits_value_bound(bytes, pos, a + b);
        lemma_two_to_monotone(a + b, 32);
        lemma_two_to_values();
        if b < 32 {
            lemma_digits_behind(x, y, b as u32);
        } else {
            assert((0u32 << 32u32) | y == y) by (bit_vector);
        }
    }
}

/// A cursor over the bits of a byte slice.
pub struct BitReader<'a> {
    pub bytes: &'a [u8],
    pub position: usize,
}

impl<'a> BitReader<'a> {
    /// The cursor stands inside the stream or at its end.
    pub open spec fn wf(self) -> bool {
        self.position <= self.bytes@.len() * 8
    }

    /// Whether this cursor is `before` moved to `pos`.
    pub open spec fn moved(self, before: BitReader<'a>, pos: int) -> bool {
        &&& self.wf()
        &&& self.bytes == before.bytes
        &&& self.position == pos
    }

    /// A cursor at the first bit of `bytes`.
    pub fn new(bytes: &'a [u8]) -> (r: Self)
        ensures
            r.wf(),
            r.bytes == bytes,
            r.position == 0,
    {
        BitReader { bytes, position: 0 }
    }

    /// Reads up to 32 bits; a refused read leaves the cursor where it was.
    pub fn read_bits(&mut self, count: u8) -> (r: Result<u32, VncError>)
        requires
            old(self).wf(),
        ensures
            r == read_at(old(self).bytes@, old(self).position as int, count as int).0,
            final(self).moved(
                *old(self),
                read_at(old(self).bytes@, old(self).position as int, count as int).1,
            ),
            r matches Ok(v) ==> v < two_to(count as int),
            r is Err ==> *final(self) == *old(self),
    {
        proof {
            if count <= 32 {
                lemma_read_bound(self.bytes@, self.position as int, count as int);
            }
        }
        if count > 32 {
            return Err(
                VncError::Numbers {
                    before: "MVS 位读取长度超过 u32: ",
                    first: count as u64,
                    between: "（bit offset ",
                    second: self.position as u64,
                    after: "）",
                },
            );
        }
        if count == 0 {
            return Ok(0);
        }
        let total_bits: usize = match self.bytes.len().checked_mul(8) {
            Some(total) => total,
            None => {
                return Err(VncError::Text("MVS 位流总长度溢出"));
            },
        };
        let end: usize = match self.position.checked_add(count as usize) {
            Some(end) => end,
            None => {
                return Err(VncError::Text("MVS 位游标溢出"));
            },
        };
        if end > total_bits {
            return Err(
                VncError::BitsExhausted {
                    offset: self.position,
                    count,
                    remaining: total_bits - self.position,
                },
            );
        }
        let start: usize = self.position;
        let bytes: &'a [u8] = self.bytes;
        let mut value: u32 = 0;
        let mut cursor: usize = start;
        while cursor < end
            invariant
                start <= cursor <= end,
                end == start + count,
                end <= bytes@.len() * 8,
                count <= 32,
                value == bits_value(bytes@, start as int, cursor - start),
            decreases end - cursor,
        {
            let byte: u8 = bytes[cursor / 8];
            let shift: u8 = (7 - cursor % 8) as u8;
            proof {
                lemma_bits_value_bound(bytes@, start as int, cursor - start);
                lemma_two_to_monotone(cursor - start, 31);
                lemma_two_to_values();
                lemma_append_bit(value, byte, shift);
            }
            let bit: u32 = (byte >> shift) as u32 & 1;
            value = (value << 1) | bit;
            cursor = cursor + 1;
        }
        self.position = end;
        Ok(value)
    }

    /// Reads eight bits.
    pub fn read_u8(&mut self) -> (r: Result<u8, VncError>)
        requires
            old(self).wf(),
        ensures
            match read_at(old(self).bytes@, old(self).position as int, 8).0 {
                Ok(v) => r == Ok::<u8, VncError>(v as u8) && v < 256,
                Err(e) => r == Err::<u8, VncError>(e),
            },
            final(self).moved(
                *old(self),
                read_at(old(self).bytes@, old(self).position as int, 8).1,
            ),
            r is Err ==> *final(self) == *old(self),
    {
        proof {
            lemma_two_to_values();
        }
        match self.read_bits(8) {
            Ok(v) => Ok(v as u8),
            Err(e) => Err(e),
        }
    }

    /// The number of bits read so far.
    pub fn bit_position(&self) -> (r: usize)
        ensures
            r == self.position,
    {
        self.position
    }

    /// The number of bits left, or zero where the length in bits does not fit `usize`.
    pub fn remaining_bits(&self) -> (r: usize)
        requires
            self.wf(),
        ensures
            self.bytes@.len() * 8 <= usize::MAX ==> r == self.bytes@.len() * 8 - self.position,
            self.bytes@.len() * 8 > usize::MAX ==> r == 0,
    {
        match self.bytes.len().checked_mul(8) {
            Some(total) => total - self.position,
            None => 0,
        }
    }
}

/// Reads a repeat count. What was read before a refusal stays read.
pub fn decode_repeat_count(reader: &mut BitReader<'_>) -> (r: Result<usize, VncError>)
    requires
        old(reader).wf(),
    ensures
        r == repeat_at(old(reader).bytes@, old(reader).position as int).0,
        final(reader).moved(
            *old(reader),
            repeat_at(old(reader).bytes@, old(reader).position as int).1,
        ),
        r matches Ok(n) ==> n < 0x40_0010,
{
    proof {
        lemma_two_to_values();
    }
    if reader.read_bits(1)? == 0 {
        return Ok(0);
    }
    let direct: u32 = reader.read_bits(4)?;
    if direct != 0x0f {
        return Ok(direct as usize + 1);
    }
    let low_group: u8 = reader.read_u8()?;
    if low_group < 0x80 {
        return Ok(low_group as usize + 0x10);
    }
    let low: usize = (low_group - 0x80) as usize;
    let middle_group: u8 = reader.read_u8()?;
    if middle_group < 0x80 {
        return Ok(middle_group as usize * 128 + low + 0x10);
    }
    let middle: usize = (middle_group - 0x80) as usize;
    let high: usize = reader.read_u8()? as usize;
    Ok(high * 16384 + middle * 128 + low + 0x10)
}

} // verus!
