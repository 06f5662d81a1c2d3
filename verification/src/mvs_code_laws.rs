//! What the codes of an MVS bit stream stand for: every number has a code, the numbers of one code
//! follow those of the code before it without a gap, and a code that was written is read back.

use vstd::prelude::*;
use crate::error::VncError;
use crate::mvs_bitstream;
use crate::mvs_bitstream::two_to;
use crate::mvs_rice;
use crate::mvs_rice::AcStep;
use crate::mvs_tables::APPLE_NATURAL_ORDER;

verus! {

/// Whether bit `i` of a stream is one. The first bit of a byte is the one that counts most.
pub open spec fn is_one(bytes: Seq<u8>, i: int) -> bool {
    (bytes[i / 8] as int / two_to(7 - i % 8)) % 2 == 1
}

/// Whether these bits stand in the stream from `pos` on.
pub open spec fn holds(bytes: Seq<u8>, pos: int, bits: Seq<bool>) -> bool {
    &&& 0 <= pos
    &&& pos + bits.len() <= bytes.len() * 8 <= usize::MAX
    &&& forall|i: int| 0 <= i < bits.len() ==> #[trigger] bits[i] == is_one(bytes, pos + i)
}

/// The number whose binary digits these are.
pub open spec fn number(bits: Seq<bool>) -> int
    decreases bits.len(),
{
    if bits.len() == 0 {
        0
    } else {
        2 * number(bits.drop_last()) + (if bits.last() {
            1int
        } else {
            0
        })
    }
}

/// The last `width` binary digits of a number.
pub open spec fn digits(value: int, width: int) -> Seq<bool>
    decreases width,
{
    if width <= 0 {
        Seq::empty()
    } else {
        digits(value / 2, width - 1).push(value % 2 == 1)
    }
}

/// So many ones, and a zero behind them.
pub open spec fn ones(count: int) -> Seq<bool>
    decreases count,
{
    if count <= 0 {
        seq![false]
    } else {
        seq![true] + ones(count - 1)
    }
}

proof fn lemma_bit(bytes: Seq<u8>, i: int)
    requires
        0 <= i,
    ensures
        mvs_bitstream::bit_at(bytes, i) == (if is_one(bytes, i) {
            1u32
        } else {
            0
        }),
{
    let byte: u8 = bytes[i / 8];
    let shift: u8 = (7 - i % 8) as u8;
    reveal_with_fuel(two_to, 9);
    assert((byte >> 0u8) as u32 & 1 == (byte / 1) % 2 && (byte >> 1u8) as u32 & 1 == (byte / 2) % 2
        && (byte >> 2u8) as u32 & 1 == (byte / 4) % 2 && (byte >> 3u8) as u32 & 1 == (byte / 8) % 2
        && (byte >> 4u8) as u32 & 1 == (byte / 16) % 2 && (byte >> 5u8) as u32 & 1 == (byte / 32)
        % 2 && (byte >> 6u8) as u32 & 1 == (byte / 64) % 2 && (byte >> 7u8) as u32 & 1 == (byte
        / 128) % 2) by (bit_vector);
    assert(shift == 0 || shift == 1 || shift == 2 || shift == 3 || shift == 4 || shift == 5 || shift
        == 6 || shift == 7);
}

pub proof fn lemma_number(bytes: Seq<u8>, pos: int, bits: Seq<bool>)
    requires
        holds(bytes, pos, bits),
    ensures
        mvs_bitstream::bits_value(bytes, pos, bits.len() as int) == number(bits),
        0 <= number(bits) < two_to(bits.len() as int),
    decreases bits.len(),
{
    if bits.len() > 0 {
        let front = bits.drop_last();
        assert forall|i: int| 0 <= i < front.len() implies #[trigger] front[i] == is_one(
            bytes,
            pos + i,
        ) by {
            assert(front[i] == bits[i]);
        }
        lemma_number(bytes, pos, front);
        lemma_bit(bytes, pos + bits.len() - 1);
    }
}

/// Digits are read as their number: the first digit counts most, and the cursor moves behind the
/// last.
pub proof fn law_digits_are_read(bytes: Seq<u8>, pos: int, bits: Seq<bool>)
    requires
        holds(bytes, pos, bits),
        bits.len() <= 32,
    ensures
        mvs_bitstream::read_at(bytes, pos, bits.len() as int) == (
            Ok::<u32, VncError>(number(bits) as u32),
            pos + bits.len(),
        ),
        0 <= number(bits) < two_to(bits.len() as int),
        number(bits) <= u32::MAX,
{
    lemma_number(bytes, pos, bits);
    mvs_bitstream::lemma_read_bound(bytes, pos, bits.len() as int);
    lemma_two_to_32(bits.len() as int);
}

proof fn lemma_two_to_32(n: int)
    requires
        0 <= n <= 32,
    ensures
        1 <= two_to(n) <= 0x1_0000_0000,
    decreases 32 - n,
{
    if n < 32 {
        lemma_two_to_32(n + 1);
        lemma_two_to_positive(n);
    } else {
        reveal_with_fuel(two_to, 33);
    }
}

pub proof fn lemma_two_to_positive(n: int)
    ensures
        1 <= two_to(n),
    decreases n,
{
    if n > 0 {
        lemma_two_to_positive(n - 1);
    }
}

pub proof fn lemma_digits(value: int, width: int)
    requires
        0 <= width,
        0 <= value < two_to(width),
    ensures
        digits(value, width).len() == width,
        number(digits(value, width)) == value,
    decreases width,
{
    if width > 0 {
        lemma_digits(value / 2, width - 1);
        assert(digits(value, width).drop_last() =~= digits(value / 2, width - 1));
    }
}

/// The parts of what stands in a stream stand in it one behind the other.
pub proof fn lemma_split(bytes: Seq<u8>, pos: int, front: Seq<bool>, back: Seq<bool>)
    requires
        holds(bytes, pos, front + back),
    ensures
        holds(bytes, pos, front),
        holds(bytes, pos + front.len(), back),
{
    let whole = front + back;
    assert forall|i: int| 0 <= i < front.len() implies #[trigger] front[i] == is_one(
        bytes,
        pos + i,
    ) by {
        assert(front[i] == whole[i]);
    }
    assert forall|i: int| 0 <= i < back.len() implies #[trigger] back[i] == is_one(
        bytes,
        pos + front.len() + i,
    ) by {
        assert(back[i] == whole[front.len() + i]);
    }
}

/// A number of `width` digits is read.
pub proof fn lemma_read(bytes: Seq<u8>, pos: int, value: int, width: int)
    requires
        0 <= width <= 32,
        0 <= value < two_to(width),
        holds(bytes, pos, digits(value, width)),
    ensures
        mvs_bitstream::read_at(bytes, pos, width) == (Ok::<u32, VncError>(value as u32), pos + width),
        digits(value, width).len() == width,
{
    lemma_digits(value, width);
    law_digits_are_read(bytes, pos, digits(value, width));
}

/// One bit is read.
pub proof fn lemma_read_bit(bytes: Seq<u8>, pos: int, bit: bool)
    requires
        holds(bytes, pos, seq![bit]),
    ensures
        mvs_bitstream::read_at(bytes, pos, 1) == (
            Ok::<u32, VncError>(
                if bit {
                    1u32
                } else {
                    0
                },
            ),
            pos + 1,
        ),
{
    let bits = seq![bit];
    law_digits_are_read(bytes, pos, bits);
    assert(bits.drop_last() =~= Seq::<bool>::empty());
    assert(number(bits.drop_last()) == 0);
}

proof fn lemma_ones_length(count: int)
    requires
        0 <= count,
    ensures
        ones(count).len() == count + 1,
    decreases count,
{
    if count > 0 {
        lemma_ones_length(count - 1);
    }
}

proof fn lemma_unary(
    bytes: Seq<u8>,
    pos: int,
    count: int,
    counted: int,
    maximum: int,
    incomplete: &'static str,
    excess: &'static str,
)
    requires
        0 <= count,
        0 <= counted,
        counted + count <= maximum <= 1000,
        holds(bytes, pos, ones(count)),
    ensures
        mvs_rice::unary_at(bytes, pos, counted, maximum, incomplete, excess) == (
            Ok::<usize, VncError>((counted + count) as usize),
            pos + count + 1,
        ),
        ones(count).len() == count + 1,
    decreases count,
{
    if count > 0 {
        lemma_split(bytes, pos, seq![true], ones(count - 1));
        lemma_read_bit(bytes, pos, true);
        lemma_unary(bytes, pos + 1, count - 1, counted + 1, maximum, incomplete, excess);
    } else {
        lemma_read_bit(bytes, pos, false);
    }
}

proof fn lemma_high_unary(bytes: Seq<u8>, pos: int, count: int, counted: int)
    requires
        0 <= count,
        0 <= counted,
        counted + count <= 18,
        holds(bytes, pos, ones(count)),
    ensures
        mvs_rice::high_unary_at(bytes, pos, counted) == (
            Ok::<Option<usize>, VncError>(Some((counted + count) as usize)),
            pos + count + 1,
        ),
        ones(count).len() == count + 1,
    decreases count,
{
    if count > 0 {
        lemma_split(bytes, pos, seq![true], ones(count - 1));
        lemma_read_bit(bytes, pos, true);
        lemma_high_unary(bytes, pos + 1, count - 1, counted + 1);
    } else {
        lemma_read_bit(bytes, pos, false);
    }
}

/// The codes with leading ones: those of DC differences, of the first five coefficients and of the
/// coefficients behind them.
pub enum Code {
    Dc,
    Low,
    High,
}

/// The fewest ones that a code has.
pub open spec fn fewest(code: Code) -> int {
    match code {
        Code::Dc => 1,
        _ => 0,
    }
}

/// The most ones that a code has.
pub open spec fn most(code: Code) -> int {
    match code {
        Code::Dc => 38,
        Code::Low => 32,
        Code::High => 18,
    }
}

/// The digits behind so many ones.
pub open spec fn extra(code: Code, count: int) -> int {
    match code {
        Code::Dc => if count == 1 {
            1
        } else if count == 2 {
            2
        } else {
            3
        },
        Code::Low => if count <= 3 {
            2
        } else {
            3
        },
        Code::High => if count == 0 {
            1
        } else if count == 1 {
            2
        } else {
            3
        },
    }
}

/// The least magnitude with so many ones: two with the fewest, and otherwise the one behind the
/// greatest with one less.
pub open spec fn least(code: Code, count: int) -> int
    decreases count,
{
    if count <= fewest(code) {
        2
    } else {
        least(code, count - 1) + two_to(extra(code, count - 1))
    }
}

proof fn lemma_least(code: Code, count: int)
    requires
        fewest(code) <= count <= 39,
    ensures
        least(code, count) == (match code {
            Code::Dc => if count <= 2 {
                2 * count
            } else {
                (count - 2) * 8
            },
            Code::Low => if count < 4 {
                4 * count + 2
            } else {
                8 * count - 14
            },
            Code::High => if count == 0 {
                2
            } else if count == 1 {
                4
            } else {
                8 * count - 8
            },
        }),
        2 <= least(code, count) <= 304,
        two_to(1) == 2,
        two_to(2) == 4,
        two_to(3) == 8,
    decreases count,
{
    reveal_with_fuel(two_to, 4);
    if count > fewest(code) {
        lemma_least(code, count - 1);
    }
}

/// What such a code consists of: the ones, the digits and the sign.
pub open spec fn code_bits(code: Code, count: int, remainder: int, negative: bool) -> Seq<bool> {
    ones(count) + digits(remainder, extra(code, count)) + seq![negative]
}

/// A number with its sign.
pub open spec fn with_sign(magnitude: int, negative: bool) -> int {
    if negative {
        -magnitude
    } else {
        magnitude
    }
}

/// The codes of DC differences have no gap and no overlap: the numbers with one more leading one
/// begin where those with one less end. Two zeros are zero, and `01` and a sign are one.
pub proof fn law_dc_codes_follow_each_other(
    bytes: Seq<u8>,
    pos: int,
    count: int,
    remainder: int,
    negative: bool,
)
    requires
        1 <= count <= 38,
        0 <= remainder < two_to(extra(Code::Dc, count)),
    ensures
        holds(bytes, pos, code_bits(Code::Dc, count, remainder, negative)) ==> mvs_rice::dc_at(
            bytes,
            pos,
        ) == (
            Ok::<i16, VncError>(
                with_sign(least(Code::Dc, count) + remainder, negative) as i16,
            ),
            pos + count + 2 + extra(Code::Dc, count),
        ),
        holds(bytes, pos, seq![false, false]) ==> mvs_rice::dc_at(bytes, pos) == (
            Ok::<i16, VncError>(0),
            pos + 2,
        ),
        holds(bytes, pos, seq![false, true, negative]) ==> mvs_rice::dc_at(bytes, pos) == (
            Ok::<i16, VncError>(with_sign(1, negative) as i16),
            pos + 3,
        ),
{
    let incomplete = "MVS mode 5 DC unary 字段不完整";
    let excess = "MVS mode 5 DC unary 超过固定上限 ";
    let width = extra(Code::Dc, count);
    lemma_least(Code::Dc, count);
    if holds(bytes, pos, code_bits(Code::Dc, count, remainder, negative)) {
        let front = ones(count) + digits(remainder, width);
        lemma_split(bytes, pos, front, seq![negative]);
        lemma_split(bytes, pos, ones(count), digits(remainder, width));
        lemma_unary(bytes, pos, count, 0, 38, incomplete, excess);
        lemma_read(bytes, pos + count + 1, remainder, width);
        lemma_read_bit(bytes, pos + count + 1 + width, negative);
    }
    if holds(bytes, pos, seq![false, false]) {
        assert(seq![false, false] =~= ones(0) + seq![false]);
        lemma_split(bytes, pos, ones(0), seq![false]);
        lemma_unary(bytes, pos, 0, 0, 38, incomplete, excess);
        lemma_read_bit(bytes, pos + 1, false);
    }
    if holds(bytes, pos, seq![false, true, negative]) {
        let front = ones(0) + seq![true];
        assert(seq![false, true, negative] =~= front + seq![negative]);
        lemma_split(bytes, pos, front, seq![negative]);
        lemma_split(bytes, pos, ones(0), seq![true]);
        lemma_unary(bytes, pos, 0, 0, 38, incomplete, excess);
        lemma_read_bit(bytes, pos + 1, true);
        lemma_read_bit(bytes, pos + 2, negative);
    }
}

/// The code of a coefficient at a zigzag place.
pub open spec fn band(index: int) -> Code {
    if index <= 5 {
        Code::Low
    } else {
        Code::High
    }
}

/// A block with a number at a zigzag place.
pub open spec fn with_number(block: Seq<i16>, index: int, value: int) -> Seq<i16> {
    block.update(APPLE_NATURAL_ORDER[index] as int, value as i16)
}

/// What a number at a zigzag place is scaled by: two for every bit that the place is scaled by.
pub open spec fn scale(index: int, threshold: int) -> int {
    two_to(mvs_rice::ac_shift(index, threshold))
}

/// What is read in one step of the luma coefficients: a number at this place, and the next place.
pub open spec fn one_number(
    block: Seq<i16>,
    index: int,
    threshold: int,
    level: int,
) -> AcStep {
    AcStep::Next {
        index: index + 1,
        coefficients: with_number(block, index, level * scale(index, threshold)),
    }
}

pub proof fn lemma_scale(index: int, threshold: int)
    ensures
        scale(index, threshold) == mvs_rice::ac_factor(index, threshold),
        2 <= scale(index, threshold) <= 16,
{
    reveal_with_fuel(two_to, 5);
}

/// The codes of luma coefficients have no gap and no overlap: in both bands the magnitudes with one
/// more leading one begin where those with one less end, and the first is two. What is read is
/// scaled, has the sign of the code, and stands at its place; the others stay.
pub proof fn law_luma_codes_follow_each_other(
    bytes: Seq<u8>,
    pos: int,
    threshold: int,
    index: int,
    block: Seq<i16>,
    count: int,
    remainder: int,
    negative: bool,
)
    requires
        1 <= index < 64,
        0 <= count <= most(band(index)),
        0 <= remainder < two_to(extra(band(index), count)),
        holds(bytes, pos, seq![true] + code_bits(band(index), count, remainder, negative)),
    ensures
        mvs_rice::ac_step_at(bytes, pos, threshold, index, block) == (
            one_number(
                block,
                index,
                threshold,
                with_sign(least(band(index), count) + remainder, negative),
            ),
            pos + count + 3 + extra(band(index), count),
        ),
{
    let code = band(index);
    let width = extra(code, count);
    let front = ones(count) + digits(remainder, width);
    lemma_least(code, count);
    lemma_scale(index, threshold);
    lemma_split(bytes, pos, seq![true], code_bits(code, count, remainder, negative));
    lemma_read_bit(bytes, pos, true);
    lemma_split(bytes, pos + 1, front, seq![negative]);
    lemma_split(bytes, pos + 1, ones(count), digits(remainder, width));
    if index <= 5 {
        lemma_unary(
            bytes,
            pos + 1,
            count,
            0,
            32,
            "MVS mode 5 低频 AC unary 字段不完整",
            "MVS mode 5 低频 AC unary 超过固定上限 ",
        );
    } else {
        lemma_high_unary(bytes, pos + 1, count, 0);
    }
    lemma_read(bytes, pos + count + 2, remainder, width);
    lemma_read_bit(bytes, pos + count + 2 + width, negative);
    let magnitude = least(code, count) + remainder;
    let factor = scale(index, threshold);
    assert((-magnitude) * factor == -(magnitude * factor)) by (nonlinear_arith);
    assert(mvs_rice::ac_magnitude(index <= 5, count, remainder) == magnitude);
}

proof fn lemma_three_bits(bytes: Seq<u8>, pos: int, a: bool, b: bool, c: bool)
    requires
        holds(bytes, pos, seq![a, b, c]),
    ensures
        mvs_bitstream::read_at(bytes, pos, 1) == (
            Ok::<u32, VncError>(
                if a {
                    1u32
                } else {
                    0
                },
            ),
            pos + 1,
        ),
        mvs_bitstream::read_at(bytes, pos + 1, 2) == (
            Ok::<u32, VncError>(
                (if b {
                    2u32
                } else {
                    0
                } + if c {
                    1u32
                } else {
                    0
                }) as u32,
            ),
            pos + 3,
        ),
{
    let tail = seq![b, c];
    assert(seq![a, b, c] =~= seq![a] + tail);
    lemma_split(bytes, pos, seq![a], tail);
    lemma_read_bit(bytes, pos, a);
    law_digits_are_read(bytes, pos + 1, tail);
    assert(tail.drop_last() =~= seq![b]);
    assert(seq![b].drop_last() =~= Seq::<bool>::empty());
    reveal_with_fuel(number, 4);
}

/// The short codes of luma coefficients: three zeros are a zero, `01` and a sign are one, scaled as
/// all others are.
pub proof fn law_short_luma_codes(
    bytes: Seq<u8>,
    pos: int,
    threshold: int,
    index: int,
    block: Seq<i16>,
    negative: bool,
)
    requires
        1 <= index < 64,
    ensures
        holds(bytes, pos, seq![false, false, false]) ==> mvs_rice::ac_step_at(
            bytes,
            pos,
            threshold,
            index,
            block,
        ) == (AcStep::Next { index: index + 1, coefficients: block }, pos + 3),
        holds(bytes, pos, seq![false, true, negative]) ==> mvs_rice::ac_step_at(
            bytes,
            pos,
            threshold,
            index,
            block,
        ) == (one_number(block, index, threshold, with_sign(1, negative)), pos + 3),
{
    lemma_scale(index, threshold);
    if holds(bytes, pos, seq![false, false, false]) {
        lemma_three_bits(bytes, pos, false, false, false);
    }
    if holds(bytes, pos, seq![false, true, negative]) {
        lemma_three_bits(bytes, pos, false, true, negative);
    }
}

/// So many groups of three ones.
pub open spec fn sevens(count: int) -> Seq<bool>
    decreases count,
{
    if count <= 0 {
        Seq::empty()
    } else {
        seq![true, true, true] + sevens(count - 1)
    }
}

/// The code of a run of zeros: three to five by two digits, and more by groups of three, of which
/// only the last is less than seven.
pub open spec fn run_bits(length: int) -> Seq<bool> {
    if length < 6 {
        digits(length - 3, 2)
    } else {
        seq![true, true] + (sevens((length - 6) / 7) + digits((length - 6) % 7, 3))
    }
}

proof fn lemma_seven(bytes: Seq<u8>, pos: int)
    requires
        holds(bytes, pos, seq![true, true, true]),
    ensures
        mvs_bitstream::read_at(bytes, pos, 3) == (Ok::<u32, VncError>(7), pos + 3),
{
    let bits = seq![true, true, true];
    law_digits_are_read(bytes, pos, bits);
    assert(bits.drop_last() =~= seq![true, true]);
    assert(seq![true, true].drop_last() =~= seq![true]);
    assert(seq![true].drop_last() =~= Seq::<bool>::empty());
    reveal_with_fuel(number, 5);
}

proof fn lemma_long_run(bytes: Seq<u8>, pos: int, landing: int, groups: int, rest: int)
    requires
        0 <= groups,
        0 <= rest < 7,
        0 <= landing,
        landing + 7 * groups + rest < 64,
        holds(bytes, pos, sevens(groups) + digits(rest, 3)),
    ensures
        mvs_rice::long_run_at(bytes, pos, landing) == (
            Ok::<usize, VncError>((landing + 7 * groups + rest) as usize),
            pos + 3 * groups + 3,
        ),
    decreases groups,
{
    reveal_with_fuel(two_to, 4);
    if groups > 0 {
        assert(sevens(groups) + digits(rest, 3) =~= seq![true, true, true] + (sevens(groups - 1)
            + digits(rest, 3)));
        lemma_split(bytes, pos, seq![true, true, true], sevens(groups - 1) + digits(rest, 3));
        lemma_seven(bytes, pos);
        lemma_long_run(bytes, pos + 3, landing + 7, groups - 1, rest);
    } else {
        assert(sevens(0) + digits(rest, 3) =~= digits(rest, 3));
        lemma_read(bytes, pos, rest, 3);
    }
}

proof fn lemma_run_length(length: int)
    requires
        3 <= length,
    ensures
        run_bits(length).len() == (if length < 6 {
            2
        } else {
            5 + 3 * ((length - 6) / 7)
        }),
{
    reveal_with_fuel(two_to, 4);
    if length < 6 {
        lemma_digits(length - 3, 2);
    } else {
        lemma_sevens_length((length - 6) / 7);
        lemma_digits((length - 6) % 7, 3);
    }
}

proof fn lemma_sevens_length(count: int)
    requires
        0 <= count,
    ensures
        sevens(count).len() == 3 * count,
    decreases count,
{
    if count > 0 {
        lemma_sevens_length(count - 1);
    }
}

/// A run of zeros of any length leaves what so many single zeros leave: the coefficients as they
/// are, and the place so much further on. The end of the block leaves all the others at zero.
pub proof fn law_runs_are_zeros(
    bytes: Seq<u8>,
    pos: int,
    threshold: int,
    index: int,
    block: Seq<i16>,
    length: int,
)
    requires
        1 <= index < 64,
        3 <= length,
        length < 6 || index + length < 64,
    ensures
        holds(bytes, pos, seq![false, false, true, true] + run_bits(length)) ==> mvs_rice::ac_step_at(
            bytes,
            pos,
            threshold,
            index,
            block,
        ) == (
            AcStep::Next { index: index + length, coefficients: block },
            pos + 4 + run_bits(length).len(),
        ),
        holds(bytes, pos, seq![false, false, true, false]) ==> mvs_rice::ac_step_at(
            bytes,
            pos,
            threshold,
            index,
            block,
        ) == (AcStep::Done { coefficients: block }, pos + 4),
{
    let opening = seq![false, false, true];
    lemma_run_length(length);
    reveal_with_fuel(two_to, 4);
    if holds(bytes, pos, seq![false, false, true, true] + run_bits(length)) {
        assert(seq![false, false, true, true] + run_bits(length) =~= opening + (seq![true]
            + run_bits(length)));
        lemma_split(bytes, pos, opening, seq![true] + run_bits(length));
        lemma_three_bits(bytes, pos, false, false, true);
        lemma_split(bytes, pos + 3, seq![true], run_bits(length));
        lemma_read_bit(bytes, pos + 3, true);
        if length < 6 {
            lemma_read(bytes, pos + 4, length - 3, 2);
        } else {
            let groups = (length - 6) / 7;
            let rest = (length - 6) % 7;
            let tail = sevens(groups) + digits(rest, 3);
            lemma_split(bytes, pos + 4, seq![true, true], tail);
            assert(digits(3, 2) =~= seq![true, true]) by {
                reveal_with_fuel(digits, 3);
            }
            lemma_read(bytes, pos + 4, 3, 2);
            lemma_long_run(bytes, pos + 6, index + 6, groups, rest);
        }
    }
    if holds(bytes, pos, seq![false, false, true, false]) {
        assert(seq![false, false, true, false] =~= opening + seq![false]);
        lemma_split(bytes, pos, opening, seq![false]);
        lemma_three_bits(bytes, pos, false, false, true);
        lemma_read_bit(bytes, pos + 3, false);
    }
}

/// The number of leading ones of a magnitude, of which there are at least `count`.
pub open spec fn class_of(code: Code, magnitude: int, count: int) -> int
    decreases most(code) - count,
{
    if count >= most(code) || magnitude < least(code, count + 1) {
        count
    } else {
        class_of(code, magnitude, count + 1)
    }
}

/// The code of a number at a zigzag place.
pub open spec fn level_bits(index: int, level: int) -> Seq<bool> {
    let magnitude = if level < 0 {
        -level
    } else {
        level
    };
    if level == 0 {
        seq![false, false, false]
    } else if magnitude == 1 {
        seq![false, true, level < 0]
    } else {
        let count = class_of(band(index), magnitude, 0);
        seq![true] + code_bits(
            band(index),
            count,
            magnitude - least(band(index), count),
            level < 0,
        )
    }
}

/// The codes of the numbers from a zigzag place on.
pub open spec fn levels_bits(levels: Seq<int>, index: int) -> Seq<bool>
    decreases 64 - index,
{
    if index >= 64 {
        Seq::empty()
    } else {
        level_bits(index, levels[index]) + levels_bits(levels, index + 1)
    }
}

/// Whether a number has a code at a zigzag place.
pub open spec fn has_code(index: int, level: int) -> bool {
    let end = least(band(index), most(band(index)) + 1);
    -end < level < end
}

proof fn lemma_class(code: Code, magnitude: int, count: int)
    requires
        !(code is Dc),
        0 <= count <= most(code),
        least(code, count) <= magnitude < least(code, most(code) + 1),
    ensures
        ({
            let q = class_of(code, magnitude, count);
            &&& count <= q <= most(code)
            &&& least(code, q) <= magnitude < least(code, q) + two_to(extra(code, q))
        }),
    decreases most(code) - count,
{
    if !(count >= most(code) || magnitude < least(code, count + 1)) {
        lemma_class(code, magnitude, count + 1);
    }
}

proof fn lemma_level(
    bytes: Seq<u8>,
    pos: int,
    threshold: int,
    index: int,
    block: Seq<i16>,
    level: int,
)
    requires
        1 <= index < 64,
        has_code(index, level),
        holds(bytes, pos, level_bits(index, level)),
        block.len() == 64,
        block[APPLE_NATURAL_ORDER[index] as int] == 0,
    ensures
        mvs_rice::ac_step_at(bytes, pos, threshold, index, block) == (
            one_number(block, index, threshold, level),
            pos + level_bits(index, level).len(),
        ),
{
    let magnitude = if level < 0 {
        -level
    } else {
        level
    };
    lemma_scale(index, threshold);
    law_short_luma_codes(bytes, pos, threshold, index, block, level < 0);
    crate::mvs_tables::lemma_natural_order_bound(index);
    if level == 0 {
        assert(0 * scale(index, threshold) == 0);
        assert(with_number(block, index, 0) =~= block);
    } else if magnitude >= 2 {
        let code = band(index);
        lemma_class(code, magnitude, 0);
        let count = class_of(code, magnitude, 0);
        let remainder = magnitude - least(code, count);
        law_luma_codes_follow_each_other(
            bytes,
            pos,
            threshold,
            index,
            block,
            count,
            remainder,
            level < 0,
        );
        lemma_ones_length(count);
        lemma_digits(remainder, extra(code, count));
    }
}

/// No two zigzag places are the same place of a block, and the first is the first.
pub proof fn lemma_places_differ()
    ensures
        forall|i: int, j: int|
            0 <= i < j < 64 ==> #[trigger] APPLE_NATURAL_ORDER[i] != #[trigger] APPLE_NATURAL_ORDER[j],
        APPLE_NATURAL_ORDER[0] == 0,
{
    let back: Seq<int> = seq![
        0, 1, 5, 6, 14, 15, 27, 28, 2, 4, 7, 13, 16, 26, 29, 42, 3, 8, 12, 17, 25, 30, 41, 43, 9,
        11, 18, 24, 31, 40, 44, 53, 10, 19, 23, 32, 39, 45, 52, 54, 20, 22, 33, 38, 46, 51, 55, 60,
        21, 34, 37, 47, 50, 56, 59, 61, 35, 36, 48, 49, 57, 58, 62, 63,
    ];
    assert forall|i: int| 0 <= i < 64 implies back[#[trigger] APPLE_NATURAL_ORDER[i] as int]
        == i by {}
}

proof fn lemma_levels(
    bytes: Seq<u8>,
    pos: int,
    threshold: int,
    index: int,
    block: Seq<i16>,
    levels: Seq<int>,
)
    requires
        1 <= index <= 64,
        levels.len() == 64,
        forall|i: int| index <= i < 64 ==> has_code(i, #[trigger] levels[i]),
        holds(bytes, pos, levels_bits(levels, index)),
        block.len() == 64,
        forall|i: int| index <= i < 64 ==> block[#[trigger] APPLE_NATURAL_ORDER[i] as int] == 0,
    ensures
        ({
            let (r, end) = mvs_rice::luma_ac_at(bytes, pos, threshold, index, block);
            &&& r is Ok
            &&& end == pos + levels_bits(levels, index).len()
            &&& (r->Ok_0).len() == 64
            &&& forall|i: int|
                0 <= i < 64 ==> (r->Ok_0)[#[trigger] APPLE_NATURAL_ORDER[i] as int] == (if i
                    < index {
                    block[APPLE_NATURAL_ORDER[i] as int] as int
                } else {
                    levels[i] * scale(i, threshold)
                })
        }),
    decreases 64 - index,
{
    if index < 64 {
        let level = levels[index];
        let front = level_bits(index, level);
        lemma_split(bytes, pos, front, levels_bits(levels, index + 1));
        lemma_level(bytes, pos, threshold, index, block, level);
        lemma_places_differ();
        crate::mvs_tables::lemma_natural_order_bound(index);
        lemma_scale(index, threshold);
        lemma_least(band(index), most(band(index)) + 1);
        let value = level * scale(index, threshold);
        let factor = scale(index, threshold);
        assert(-4864 <= level * factor <= 4864) by (nonlinear_arith)
            requires
                -304 <= level <= 304,
                2 <= factor <= 16,
        ;
        let next = with_number(block, index, value);
        assert forall|i: int| 0 <= i < 64 implies next[#[trigger] APPLE_NATURAL_ORDER[i] as int]
            == (if i == index {
            value
        } else {
            block[APPLE_NATURAL_ORDER[i] as int] as int
        }) by {
            crate::mvs_tables::lemma_natural_order_bound(i);
        }
        if index + 1 < 64 {
            lemma_levels(bytes, pos + front.len(), threshold, index + 1, next, levels);
        } else {
            assert(levels_bits(levels, 64) =~= Seq::<bool>::empty());
        }
    }
}

/// A block is read back: whatever numbers are written one behind the other, each by its code, are
/// what is read, each at its place and scaled as the place says; and nothing else is.
pub proof fn law_block_is_read_back(
    bytes: Seq<u8>,
    pos: int,
    threshold: int,
    levels: Seq<int>,
    i: int,
)
    requires
        levels.len() == 64,
        forall|k: int| 1 <= k < 64 ==> has_code(k, #[trigger] levels[k]),
        holds(bytes, pos, levels_bits(levels, 1)),
        0 <= i < 64,
    ensures
        ({
            let (r, end) = mvs_rice::luma_ac_at(
                bytes,
                pos,
                threshold,
                1,
                Seq::new(64, |k: int| 0i16),
            );
            &&& r is Ok
            &&& end == pos + levels_bits(levels, 1).len()
            &&& (r->Ok_0)[APPLE_NATURAL_ORDER[i] as int] == (if i == 0 {
                0
            } else {
                levels[i] * two_to(mvs_rice::ac_shift(i, threshold))
            })
        }),
{
    let block = Seq::new(64, |k: int| 0i16);
    assert forall|k: int| 1 <= k < 64 implies block[#[trigger] APPLE_NATURAL_ORDER[k] as int]
        == 0 by {
        crate::mvs_tables::lemma_natural_order_bound(k);
    }
    lemma_levels(bytes, pos, threshold, 1, block, levels);
    crate::mvs_tables::lemma_natural_order_bound(i);
}

/// The code of a repeat count: a zero for none; a one and four digits up to fifteen; and otherwise
/// the count less sixteen, in groups of seven digits, the low group first, of which a third has
/// eight.
pub open spec fn repeat_bits(count: int) -> Seq<bool> {
    let more = count - 16;
    if count == 0 {
        seq![false]
    } else if count <= 15 {
        seq![true] + digits(count - 1, 4)
    } else if more < 128 {
        seq![true] + (digits(15, 4) + digits(more, 8))
    } else if more < 16384 {
        seq![true] + (digits(15, 4) + (digits(128 + more % 128, 8) + digits(more / 128, 8)))
    } else {
        seq![true] + (digits(15, 4) + (digits(128 + more % 128, 8) + (digits(
            128 + more / 128 % 128,
            8,
        ) + digits(more / 16384, 8))))
    }
}

proof fn lemma_eight(value: int)
    requires
        0 <= value < 256,
    ensures
        digits(value, 8).len() == 8,
        two_to(8) == 256,
        two_to(4) == 16,
{
    reveal_with_fuel(two_to, 9);
    lemma_digits(value, 8);
}

/// Every repeat count has a code that is read back: there is no gap up to the greatest.
pub proof fn law_repeat_is_read_back(bytes: Seq<u8>, pos: int, count: int)
    requires
        0 <= count < 16 + 0x40_0000,
        holds(bytes, pos, repeat_bits(count)),
    ensures
        mvs_bitstream::repeat_at(bytes, pos) == (
            Ok::<usize, VncError>(count as usize),
            pos + repeat_bits(count).len(),
        ),
{
    let more = count - 16;
    lemma_eight(0);
    lemma_digits(15, 4);
    if count == 0 {
        lemma_read_bit(bytes, pos, false);
    } else if count <= 15 {
        lemma_split(bytes, pos, seq![true], digits(count - 1, 4));
        lemma_read_bit(bytes, pos, true);
        lemma_read(bytes, pos + 1, count - 1, 4);
    } else if more < 128 {
        lemma_split(bytes, pos, seq![true], digits(15, 4) + digits(more, 8));
        lemma_read_bit(bytes, pos, true);
        lemma_split(bytes, pos + 1, digits(15, 4), digits(more, 8));
        lemma_read(bytes, pos + 1, 15, 4);
        lemma_read(bytes, pos + 5, more, 8);
    } else if more < 16384 {
        let low = 128 + more % 128;
        let middle = more / 128;
        let tail = digits(low, 8) + digits(middle, 8);
        lemma_eight(low);
        lemma_split(bytes, pos, seq![true], digits(15, 4) + tail);
        lemma_read_bit(bytes, pos, true);
        lemma_split(bytes, pos + 1, digits(15, 4), tail);
        lemma_read(bytes, pos + 1, 15, 4);
        lemma_split(bytes, pos + 5, digits(low, 8), digits(middle, 8));
        lemma_read(bytes, pos + 5, low, 8);
        lemma_read(bytes, pos + 13, middle, 8);
    } else {
        let low = 128 + more % 128;
        let middle = 128 + more / 128 % 128;
        let high = more / 16384;
        let rest = digits(middle, 8) + digits(high, 8);
        let tail = digits(low, 8) + rest;
        assert(more / 128 / 128 == high);
        lemma_eight(low);
        lemma_eight(middle);
        lemma_split(bytes, pos, seq![true], digits(15, 4) + tail);
        lemma_read_bit(bytes, pos, true);
        lemma_split(bytes, pos + 1, digits(15, 4), tail);
        lemma_read(bytes, pos + 1, 15, 4);
        lemma_split(bytes, pos + 5, digits(low, 8), rest);
        lemma_read(bytes, pos + 5, low, 8);
        lemma_split(bytes, pos + 13, digits(middle, 8), digits(high, 8));
        lemma_read(bytes, pos + 13, middle, 8);
        lemma_read(bytes, pos + 21, high, 8);
    }
}

/// A coefficient before the threshold is scaled no more than one behind it, and a higher threshold
/// never scales a coefficient more.
pub proof fn law_thresholds_only_refine(i: int, j: int, low: int, high: int)
    requires
        1 <= i <= j < 64,
        0 <= low <= high,
    ensures
        mvs_rice::ac_shift(i, low) <= mvs_rice::ac_shift(j, low),
        mvs_rice::ac_shift(i, high) <= mvs_rice::ac_shift(i, low),
        i < low && low <= j ==> mvs_rice::ac_shift(i, low) < mvs_rice::ac_shift(j, low),
        j < low ==> mvs_rice::ac_shift(i, low) == mvs_rice::ac_shift(j, low),
        low <= i ==> mvs_rice::ac_shift(i, low) == mvs_rice::ac_shift(j, low),
{
}

/// The scan of a block begins in its corner and goes back and forth along its diagonals: where the
/// row and the column together are even it goes up and to the right, where they are odd down and to
/// the left, and at an edge it goes on to the next diagonal.
pub proof fn law_scan_is_a_zigzag(i: int)
    requires
        0 <= i < 63,
    ensures
        APPLE_NATURAL_ORDER[0] == 0,
        ({
            let at = APPLE_NATURAL_ORDER[i] as int;
            let next = APPLE_NATURAL_ORDER[i + 1] as int;
            let (row, column) = (at / 8, at % 8);
            if (row + column) % 2 == 0 {
                if row > 0 && column < 7 {
                    next == at - 7
                } else if column < 7 {
                    next == at + 1
                } else {
                    next == at + 8
                }
            } else {
                if column > 0 && row < 7 {
                    next == at + 7
                } else if row < 7 {
                    next == at + 8
                } else {
                    next == at + 1
                }
            }
        }),
{
}

} // verus!
