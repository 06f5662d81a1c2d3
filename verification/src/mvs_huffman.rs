//! The Huffman coding of chroma coefficients in partial records.

use vstd::prelude::*;
use crate::error::{context, VncError};
use crate::mvs_bitstream::BitReader;
use crate::mvs_tables::{AppleHuffmanTable, APPLE_NATURAL_ORDER};

verus! {

/// The first code of `length + 1` bits.
pub open spec fn first_code(bits: Seq<u8>, length: int) -> int
    decreases length,
{
    if length <= 0 {
        0
    } else {
        2 * (first_code(bits, length - 1) + bits[length - 1])
    }
}

/// How many codes have `length` bits or fewer.
pub open spec fn codes_before(bits: Seq<u8>, length: int) -> int
    decreases length,
{
    if length <= 0 {
        0
    } else {
        codes_before(bits, length - 1) + bits[length - 1]
    }
}

/// The token whose code starts at `pos`, where no code of `length` bits or fewer does.
pub open spec fn token_at(
    bytes: Seq<u8>,
    pos: int,
    bits: Seq<u8>,
    values: Seq<u8>,
    length: int,
) -> (Result<u8, VncError>, int)
    decreases 16 - length,
{
    if length >= 16 {
        (Err(VncError::Text("MVS type-1 Huffman code 无匹配 token")), pos + length)
    } else {
        match crate::mvs_bitstream::read_at(bytes, pos + length, 1) {
            (Err(e), p) => (
                Err(
                    VncError::Counted {
                        before: "MVS type-1 Huffman 第 ",
                        value: (length + 1) as u64,
                        after: " 位耗尽",
                        cause: Box::new(e),
                    },
                ),
                p,
            ),
            (Ok(_), p) => {
                let offset = crate::mvs_bitstream::bits_value(bytes, pos, length + 1) - first_code(
                    bits,
                    length,
                );
                if 0 <= offset < bits[length] {
                    let index = codes_before(bits, length) + offset;
                    if index < values.len() {
                        (Ok(values[index]), p)
                    } else {
                        (Err(VncError::Text("MVS type-1 Huffman value 索引越界")), p)
                    }
                } else {
                    token_at(bytes, pos, bits, values, length + 1)
                }
            },
        }
    }
}

/// The number that `size` bits with this value stand for: the lower half of the values is negative.
pub open spec fn level_of(raw: int, size: int) -> int {
    if raw < crate::mvs_bitstream::two_to(size - 1) {
        raw + 1 - crate::mvs_bitstream::two_to(size)
    } else {
        raw
    }
}

/// The coefficients from `cursor` up to `extent`, counted from zigzag place `start`: each token
/// gives a run of zeros and the size of a level, and a token of size zero is sixteen zeros or the
/// end. Gives the outcome, the coefficients put so far and the cursor in the stream.
pub open spec fn partial_ac_at(
    bytes: Seq<u8>,
    pos: int,
    coefficients: Seq<i16>,
    start: int,
    extent: int,
    cursor: int,
    bits: Seq<u8>,
    values: Seq<u8>,
) -> (Result<(), VncError>, Seq<i16>, int)
    decreases
            if cursor < extent {
                extent - cursor
            } else {
                0
            },
{
    if cursor >= extent {
        (Ok(()), coefficients, pos)
    } else {
        match token_at(bytes, pos, bits, values, 0) {
            (Err(e), p) => (Err(e), coefficients, p),
            (Ok(token), p) => {
                let run = token as int / 16;
                let size = token as int % 16;
                if size == 0 {
                    if run != 15 {
                        (Ok(()), coefficients, p)
                    } else {
                        partial_ac_at(
                            bytes,
                            p,
                            coefficients,
                            start,
                            extent,
                            cursor + 16,
                            bits,
                            values,
                        )
                    }
                } else {
                    match crate::mvs_bitstream::read_at(bytes, p, size) {
                        (Err(e), p) => (
                            Err(crate::error::within("MVS type-1 Huffman level 不完整", e)),
                            coefficients,
                            p,
                        ),
                        (Ok(raw), p) => if start + cursor + run >= 64 {
                            (
                                Err(VncError::Text("MVS type-1 Huffman scan 索引越界")),
                                coefficients,
                                p,
                            )
                        } else {
                            partial_ac_at(
                                bytes,
                                p,
                                crate::mvs_rice::with_coefficient(
                                    coefficients,
                                    start + cursor + run,
                                    level_of(raw as int, size),
                                ),
                                start,
                                extent,
                                cursor + run + 1,
                                bits,
                                values,
                            )
                        },
                    }
                }
            },
        }
    }
}

proof fn lemma_code_bounds(bits: Seq<u8>, length: int)
    requires
        0 <= length <= 16,
    ensures
        0 <= first_code(bits, length) <= 510 * crate::mvs_bitstream::two_to(length) - 510,
        0 <= codes_before(bits, length) <= 255 * length,
    decreases length,
{
    if length > 0 {
        lemma_code_bounds(bits, length - 1);
        let below = bits[length - 1];
        assert(first_code(bits, length) == 2 * (first_code(bits, length - 1) + below));
        assert(crate::mvs_bitstream::two_to(length) == 2 * crate::mvs_bitstream::two_to(length - 1));
    }
}

proof fn lemma_two_to_at_most(length: int)
    requires
        0 <= length <= 16,
    ensures
        1 <= crate::mvs_bitstream::two_to(length) <= 65536,
{
    reveal_with_fuel(crate::mvs_bitstream::two_to, 17);
}

/// Reads a token.
pub fn decode_huffman_token(reader: &mut BitReader<'_>, table: &AppleHuffmanTable) -> (r: Result<
    u8,
    VncError,
>)
    requires
        old(reader).wf(),
    ensures
        r == token_at(
            old(reader).bytes@,
            old(reader).position as int,
            table.bits@,
            table.values@,
            0,
        ).0,
        final(reader).moved(
            *old(reader),
            token_at(
                old(reader).bytes@,
                old(reader).position as int,
                table.bits@,
                table.values@,
                0,
            ).1,
        ),
{
    let ghost bytes = reader.bytes@;
    let ghost pos = reader.position as int;
    let ghost goal = token_at(bytes, pos, table.bits@, table.values@, 0);
    let mut code: usize = 0;
    let mut first: usize = 0;
    let mut offset: usize = 0;
    let mut length: usize = 0;
    while length < 16
        invariant
            length <= 16,
            reader.wf(),
            reader.bytes == old(reader).bytes,
            bytes == old(reader).bytes@,
            pos == old(reader).position,
            reader.position == pos + length,
            code == crate::mvs_bitstream::bits_value(bytes, pos, length as int),
            first == first_code(table.bits@, length as int),
            offset == codes_before(table.bits@, length as int),
            goal == token_at(bytes, pos, table.bits@, table.values@, length as int),
            goal == token_at(bytes, pos, table.bits@, table.values@, 0),
        decreases 16 - length,
    {
        proof {
            crate::mvs_bitstream::lemma_bits_value_bound(bytes, pos, length as int);
            lemma_code_bounds(table.bits@, length as int);
            lemma_two_to_at_most(length as int);
            crate::mvs_bitstream::lemma_read_bound(bytes, pos + length, 1);
            assert(crate::mvs_bitstream::bits_value(bytes, pos + length, 0) == 0);
            assert(crate::mvs_bitstream::bits_value(bytes, pos + length, 1)
                == crate::mvs_bitstream::bit_at(bytes, pos + length));
        }
        let bit: u32 = match reader.read_bits(1) {
            Ok(bit) => bit,
            Err(e) => {
                return Err(
                    VncError::Counted {
                        before: "MVS type-1 Huffman 第 ",
                        value: (length + 1) as u64,
                        after: " 位耗尽",
                        cause: Box::new(e),
                    },
                );
            },
        };
        code = 2 * code + bit as usize;
        let count: usize = table.bits[length] as usize;
        if code >= first && code - first < count {
            let index: usize = offset + (code - first);
            if index < 162 {
                return Ok(table.values[index]);
            }
            return Err(VncError::Text("MVS type-1 Huffman value 索引越界"));
        }
        offset = offset + count;
        first = 2 * (first + count);
        length = length + 1;
    }
    Err(VncError::Text("MVS type-1 Huffman code 无匹配 token"))
}

/// Two to the `n`.
fn power_of_two(n: u8) -> (r: i32)
    requires
        n <= 15,
    ensures
        r == crate::mvs_bitstream::two_to(n as int),
        1 <= r <= 32768,
{
    let mut value: i32 = 1;
    let mut i: u8 = 0;
    while i < n
        invariant
            i <= n <= 15,
            value == crate::mvs_bitstream::two_to(i as int),
            1 <= value <= 32768,
        decreases n - i,
    {
        proof {
            reveal_with_fuel(crate::mvs_bitstream::two_to, 17);
        }
        value = 2 * value;
        i = i + 1;
    }
    value
}

/// Reads coefficients into a block.
pub fn decode_partial_ac(
    reader: &mut BitReader<'_>,
    coefficients: &mut [i16; 64],
    start: usize,
    extent: usize,
    table: &AppleHuffmanTable,
) -> (r: Result<(), VncError>)
    requires
        old(reader).wf(),
        start <= 64,
        extent <= 64,
    ensures
        ({
            let told = partial_ac_at(
                old(reader).bytes@,
                old(reader).position as int,
                old(coefficients)@,
                start as int,
                extent as int,
                0,
                table.bits@,
                table.values@,
            );
            &&& r == told.0
            &&& final(coefficients)@ == told.1
            &&& final(reader).moved(*old(reader), told.2)
        }),
{
    let ghost goal = partial_ac_at(
        reader.bytes@,
        reader.position as int,
        coefficients@,
        start as int,
        extent as int,
        0,
        table.bits@,
        table.values@,
    );
    let mut cursor: usize = 0;
    while cursor < extent
        invariant
            reader.wf(),
            reader.bytes == old(reader).bytes,
            start <= 64,
            extent <= 64,
            cursor < 200,
            goal == partial_ac_at(
                reader.bytes@,
                reader.position as int,
                coefficients@,
                start as int,
                extent as int,
                cursor as int,
                table.bits@,
                table.values@,
            ),
            goal == partial_ac_at(
                old(reader).bytes@,
                old(reader).position as int,
                old(coefficients)@,
                start as int,
                extent as int,
                0,
                table.bits@,
                table.values@,
            ),
        decreases 200 - cursor,
    {
        let token: u8 = decode_huffman_token(reader, table)?;
        let run: usize = (token / 16) as usize;
        let size: u8 = token % 16;
        if size == 0 {
            if run != 15 {
                return Ok(());
            }
            cursor = cursor + 16;
        } else {
            let target: usize = cursor + run;
            let raw: u32 = context(reader.read_bits(size), "MVS type-1 Huffman level 不完整")?;
            let scan: usize = start + target;
            if scan >= 64 {
                return Err(VncError::Text("MVS type-1 Huffman scan 索引越界"));
            }
            let half: i32 = power_of_two(size - 1);
            let full: i32 = power_of_two(size);
            let raw: i32 = raw as i32;
            let level: i32 = if raw < half {
                raw + 1 - full
            } else {
                raw
            };
            proof {
                crate::mvs_tables::lemma_natural_order_bound(scan as int);
            }
            let place: usize = APPLE_NATURAL_ORDER[scan];
            coefficients[place] = level as i16;
            cursor = target + 1;
        }
    }
    Ok(())
}

} // verus!
