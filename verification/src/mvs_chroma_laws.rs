//! What the Huffman codes of a partial record stand for: codes follow each other without a gap, the
//! shorter before the longer, and levels and runs that were written are read back.

use vstd::prelude::*;
use crate::error::VncError;
use crate::mvs_bitstream;
use crate::mvs_bitstream::two_to;
use crate::mvs_code_laws;
use crate::mvs_huffman;

verus! {

/// How much of all that sixteen digits can tell is taken by codes of so many digits or fewer, where
/// `bits` tells how many codes there are of each length.
pub open spec fn taken(bits: Seq<u8>, length: int) -> int
    decreases length,
{
    if length <= 0 {
        0
    } else {
        taken(bits, length - 1) + bits[length - 1] * two_to(16 - length)
    }
}

/// How many codes have so many digits or fewer.
pub open spec fn codes_within(bits: Seq<u8>, length: int) -> int
    decreases length,
{
    if length <= 0 {
        0
    } else {
        bits[length - 1] + codes_within(bits, length - 1)
    }
}

proof fn lemma_powers(a: int, b: int)
    requires
        0 <= a,
        0 <= b,
    ensures
        two_to(a + b) == two_to(a) * two_to(b),
    decreases a,
{
    if a > 0 {
        lemma_powers(a - 1, b);
        assert(2 * two_to(a - 1) * two_to(b) == 2 * (two_to(a - 1) * two_to(b)))
            by (nonlinear_arith);
    }
}

proof fn lemma_front(bytes: Seq<u8>, pos: int, value: int, width: int, shorter: int)
    requires
        0 <= shorter <= width,
        0 <= value < two_to(width),
        mvs_code_laws::holds(bytes, pos, mvs_code_laws::digits(value, width)),
    ensures
        mvs_bitstream::bits_value(bytes, pos, shorter) == value / two_to(width - shorter),
    decreases width - shorter,
{
    mvs_code_laws::lemma_digits(value, width);
    if shorter == width {
        mvs_code_laws::lemma_number(bytes, pos, mvs_code_laws::digits(value, width));
        assert(value / 1 == value);
    } else {
        let front = mvs_code_laws::digits(value / 2, width - 1);
        let back = seq![value % 2 == 1];
        assert(mvs_code_laws::digits(value, width) =~= front + back);
        mvs_code_laws::lemma_split(bytes, pos, front, back);
        lemma_front(bytes, pos, value / 2, width - 1, shorter);
        mvs_code_laws::lemma_two_to_positive(width - 1 - shorter);
        vstd::arithmetic::div_mod::lemma_div_denominator(value, 2, two_to(width - 1 - shorter));
        assert(two_to(width - shorter) == 2 * two_to(width - 1 - shorter));
    }
}

proof fn lemma_first_code(bits: Seq<u8>, length: int)
    requires
        0 <= length < 16,
    ensures
        mvs_huffman::first_code(bits, length) * two_to(15 - length) == taken(bits, length),
        mvs_huffman::codes_before(bits, length) == codes_within(bits, length),
    decreases length,
{
    if length > 0 {
        lemma_first_code(bits, length - 1);
        let f = mvs_huffman::first_code(bits, length - 1);
        let b = bits[length - 1] as int;
        let t = two_to(15 - length);
        assert(two_to(16 - length) == 2 * t);
        assert((2 * (f + b)) * t == f * (2 * t) + b * (2 * t)) by (nonlinear_arith);
    }
}

proof fn lemma_taken_grows(bits: Seq<u8>, shorter: int, length: int)
    requires
        0 <= shorter <= length <= 16,
    ensures
        taken(bits, shorter) <= taken(bits, length),
    decreases length - shorter,
{
    if shorter < length {
        lemma_taken_grows(bits, shorter, length - 1);
        mvs_code_laws::lemma_two_to_positive(16 - length);
        assert(0 <= bits[length - 1] * two_to(16 - length)) by (nonlinear_arith)
            requires
                0 <= bits[length - 1],
                0 < two_to(16 - length),
        ;
    }
}

proof fn lemma_no_shorter_code(
    bytes: Seq<u8>,
    pos: int,
    bits: Seq<u8>,
    length: int,
    k: int,
    code: int,
    l: int,
)
    requires
        0 <= l < length < 16,
        0 <= k,
        0 <= code < two_to(length + 1),
        code * two_to(15 - length) == taken(bits, length) + k * two_to(15 - length),
        mvs_code_laws::holds(bytes, pos, mvs_code_laws::digits(code, length + 1)),
    ensures
        mvs_bitstream::bits_value(bytes, pos, l + 1) >= mvs_huffman::first_code(bits, l) + bits[l],
{
    lemma_front(bytes, pos, code, length + 1, l + 1);
    lemma_first_code(bits, l);
    lemma_taken_grows(bits, l + 1, length);
    let f = mvs_huffman::first_code(bits, l) + bits[l];
    let rest = two_to(15 - length);
    let between = two_to(length - l);
    lemma_powers(15 - length, length - l);
    mvs_code_laws::lemma_two_to_positive(15 - length);
    mvs_code_laws::lemma_two_to_positive(length - l);
    let first = mvs_huffman::first_code(bits, l);
    let b = bits[l] as int;
    assert(f * (rest * between) == first * (rest * between) + b * (rest * between))
        by (nonlinear_arith)
        requires
            f == first + b,
    ;
    assert(taken(bits, l + 1) == taken(bits, l) + b * two_to(15 - l));
    assert(f * (rest * between) <= code * rest) by (nonlinear_arith)
        requires
            f * (rest * between) <= code * rest - k * rest,
            0 <= k,
            0 < rest,
    ;
    assert(f * between <= code) by (nonlinear_arith)
        requires
            f * (rest * between) <= code * rest,
            0 < rest,
    ;
    assert(code / between >= f) by {
        vstd::arithmetic::div_mod::lemma_div_is_ordered(f * between, code, between);
        vstd::arithmetic::div_mod::lemma_div_multiples_vanish(f, between);
        assert(f * between == between * f) by (nonlinear_arith);
    }
}

proof fn lemma_one_bit(bytes: Seq<u8>, pos: int, bits: Seq<bool>, l: int)
    requires
        mvs_code_laws::holds(bytes, pos, bits),
        0 <= l < bits.len(),
    ensures
        mvs_bitstream::read_at(bytes, pos + l, 1).0 is Ok,
        mvs_bitstream::read_at(bytes, pos + l, 1).1 == pos + l + 1,
{
    let one = seq![bits[l]];
    assert(bits[l] == mvs_code_laws::is_one(bytes, pos + l));
    assert forall|i: int| 0 <= i < one.len() implies #[trigger] one[i] == mvs_code_laws::is_one(
        bytes,
        pos + l + i,
    ) by {}
    mvs_code_laws::law_digits_are_read(bytes, pos + l, one);
}

proof fn lemma_token(
    bytes: Seq<u8>,
    pos: int,
    bits: Seq<u8>,
    values: Seq<u8>,
    length: int,
    k: int,
    code: int,
    l: int,
)
    requires
        bits.len() == 16,
        0 <= l <= length < 16,
        0 <= k < bits[length],
        codes_within(bits, length) + k < values.len(),
        0 <= code < two_to(length + 1),
        code * two_to(15 - length) == taken(bits, length) + k * two_to(15 - length),
        mvs_code_laws::holds(bytes, pos, mvs_code_laws::digits(code, length + 1)),
    ensures
        mvs_huffman::token_at(bytes, pos, bits, values, l) == (
            Ok::<u8, VncError>(values[codes_within(bits, length) + k]),
            pos + length + 1,
        ),
    decreases length - l,
{
    mvs_code_laws::lemma_digits(code, length + 1);
    lemma_one_bit(bytes, pos, mvs_code_laws::digits(code, length + 1), l);
    if l < length {
        lemma_no_shorter_code(bytes, pos, bits, length, k, code, l);
        lemma_token(bytes, pos, bits, values, length, k, code, l + 1);
    } else {
        lemma_front(bytes, pos, code, length + 1, length + 1);
        assert(code / 1 == code);
        lemma_first_code(bits, length);
        let t = two_to(15 - length);
        mvs_code_laws::lemma_two_to_positive(15 - length);
        let f = mvs_huffman::first_code(bits, length);
        assert(code == f + k) by (nonlinear_arith)
            requires
                code * t == f * t + k * t,
                0 < t,
        ;
        reveal_with_fuel(mvs_huffman::token_at, 2);
    }
}

/// The codes of a Huffman table lie one behind the other, the shorter before the longer, each where
/// the room that those before it take ends, and the values follow in that order: the code of place
/// `k` among those of its length is read as the value of that place behind all shorter ones.
pub proof fn law_codes_lie_in_order(
    bytes: Seq<u8>,
    pos: int,
    bits: Seq<u8>,
    values: Seq<u8>,
    length: int,
    k: int,
    code: int,
)
    requires
        bits.len() == 16,
        1 <= length <= 16,
        0 <= k < bits[length - 1],
        codes_within(bits, length - 1) + k < values.len(),
        0 <= code < two_to(length),
        code * two_to(16 - length) == taken(bits, length - 1) + k * two_to(16 - length),
        mvs_code_laws::holds(bytes, pos, mvs_code_laws::digits(code, length)),
    ensures
        mvs_huffman::token_at(bytes, pos, bits, values, 0) == (
            Ok::<u8, VncError>(values[codes_within(bits, length - 1) + k]),
            pos + length,
        ),
{
    lemma_token(bytes, pos, bits, values, length - 1, k, code, 0);
}

/// The levels of a size are those whose magnitude has just so many digits. A level above zero is
/// told by its digits, and turning every digit gives the level of the other sign.
pub proof fn law_levels_of_a_size(raw: int, size: int)
    requires
        1 <= size,
        0 <= raw < two_to(size),
    ensures
        ({
            let level = mvs_huffman::level_of(raw, size);
            &&& mvs_huffman::level_of(two_to(size) - 1 - raw, size) == -level
            &&& level > 0 <==> raw >= two_to(size - 1)
            &&& level > 0 ==> level == raw && two_to(size - 1) <= level < two_to(size)
            &&& level < 0 ==> two_to(size - 1) <= -level < two_to(size)
            &&& level != 0
        }),
{
    assert(two_to(size) == 2 * two_to(size - 1));
    mvs_code_laws::lemma_two_to_positive(size - 1);
}

/// A token of a run and a size, and a level of that size behind it, put the level behind so many
/// zeros in the order of the scan; the rest follows behind it. A token of fifteen zeros and no size
/// leaves sixteen places as they are, and any other without a size ends the block.
pub proof fn law_tokens_place_levels(
    bytes: Seq<u8>,
    pos: int,
    coefficients: Seq<i16>,
    start: int,
    extent: int,
    cursor: int,
    bits: Seq<u8>,
    values: Seq<u8>,
    run: int,
    size: int,
    raw: int,
    next: int,
)
    requires
        cursor < extent,
        0 <= run < 16,
        0 <= size < 16,
        0 <= raw < two_to(size),
        mvs_huffman::token_at(bytes, pos, bits, values, 0) == (
            Ok::<u8, VncError>((16 * run + size) as u8),
            next,
        ),
        size > 0 ==> start + cursor + run < 64,
        mvs_code_laws::holds(bytes, next, mvs_code_laws::digits(raw, size)),
    ensures
        size > 0 ==> mvs_huffman::partial_ac_at(
            bytes,
            pos,
            coefficients,
            start,
            extent,
            cursor,
            bits,
            values,
        ) == mvs_huffman::partial_ac_at(
            bytes,
            next + size,
            mvs_code_laws::with_number(
                coefficients,
                start + cursor + run,
                mvs_huffman::level_of(raw, size),
            ),
            start,
            extent,
            cursor + run + 1,
            bits,
            values,
        ),
        size == 0 && run == 15 ==> mvs_huffman::partial_ac_at(
            bytes,
            pos,
            coefficients,
            start,
            extent,
            cursor,
            bits,
            values,
        ) == mvs_huffman::partial_ac_at(
            bytes,
            next,
            coefficients,
            start,
            extent,
            cursor + 16,
            bits,
            values,
        ),
        size == 0 && run < 15 ==> mvs_huffman::partial_ac_at(
            bytes,
            pos,
            coefficients,
            start,
            extent,
            cursor,
            bits,
            values,
        ) == (Ok::<(), VncError>(()), coefficients, next),
{
    let token = 16 * run + size;
    assert(token / 16 == run && token % 16 == size);
    if size > 0 {
        mvs_code_laws::lemma_digits(raw, size);
        mvs_code_laws::law_digits_are_read(bytes, next, mvs_code_laws::digits(raw, size));
    }
    reveal_with_fuel(mvs_huffman::partial_ac_at, 2);
}

} // verus!
