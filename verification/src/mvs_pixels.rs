//! From quantised coefficients to pixels: the fixed-point inverse transform of an 8x8 block and the
//! conversion from YCbCr to RGB.

use vstd::prelude::*;

verus! {

/// `value / 2^shift` rounded to the nearest integer, halves up.
pub open spec fn rounded(value: int, divisor: int) -> int {
    (value + divisor / 2) / divisor
}

/// Sample `n` of the one-dimensional inverse transform of the eight coefficients `d`: the cosine
/// basis in units of 1/8192.
#[verifier::opaque]
pub open spec fn transformed(d: Seq<int>, n: int) -> int {
    let sum = 8192 * d[0] + 8192 * d[4];
    let difference = 8192 * d[0] - 8192 * d[4];
    let even_a = 10703 * d[2] + 4433 * d[6];
    let even_b = 4433 * d[2] - 10704 * d[6];
    let odd_0 = 11363 * d[1] + 9633 * d[3] + 6437 * d[5] + 2260 * d[7];
    let odd_1 = 9633 * d[1] - 2259 * d[3] - 11362 * d[5] - 6436 * d[7];
    let odd_2 = 6437 * d[1] - 11362 * d[3] + 2261 * d[5] + 9633 * d[7];
    let odd_3 = 2260 * d[1] - 6436 * d[3] + 9633 * d[5] - 11363 * d[7];
    if n == 0 {
        sum + even_a + odd_0
    } else if n == 1 {
        difference + even_b + odd_1
    } else if n == 2 {
        difference - even_b + odd_2
    } else if n == 3 {
        sum - even_a + odd_3
    } else if n == 4 {
        sum - even_a - odd_3
    } else if n == 5 {
        difference - even_b - odd_2
    } else if n == 6 {
        difference + even_b - odd_1
    } else {
        sum + even_a - odd_0
    }
}

/// A coefficient times its quantisation step.
pub open spec fn scaled(coefficients: Seq<i16>, quantization: Seq<u8>, i: int) -> int {
    coefficients[i] * quantization[i]
}

/// The eight scaled coefficients of a column.
pub open spec fn column_of(coefficients: Seq<i16>, quantization: Seq<u8>, column: int) -> Seq<int> {
    Seq::new(8, |k: int| scaled(coefficients, quantization, k * 8 + column))
}

/// The value after the column pass, four times as fine as a sample.
pub open spec fn after_columns(coefficients: Seq<i16>, quantization: Seq<u8>, i: int) -> int {
    rounded(transformed(column_of(coefficients, quantization, i % 8), i / 8), 2048)
}

/// The eight values of a row after the column pass.
pub open spec fn row_of(coefficients: Seq<i16>, quantization: Seq<u8>, row: int) -> Seq<int> {
    Seq::new(8, |k: int| after_columns(coefficients, quantization, row * 8 + k))
}

/// A sample around zero moved to `0..=255`. The value is taken modulo 1024; the first 128 residues
/// and the last 128 are moved by 128, those from 128 to 383 give 255 and those from 384 to 895 give 0.
pub open spec fn range_limited(value: int) -> u8 {
    let index = value % 1024;
    if index < 128 {
        (index + 128) as u8
    } else if index < 384 {
        255
    } else if index < 896 {
        0
    } else {
        (index - 896) as u8
    }
}

/// Sample `i` of a block: columns, then rows, then the range limit.
pub open spec fn sample_at(coefficients: Seq<i16>, quantization: Seq<u8>, i: int) -> u8 {
    range_limited(rounded(transformed(row_of(coefficients, quantization, i / 8), i % 8), 262144))
}

/// The samples of a block, row by row.
pub open spec fn block_samples(coefficients: Seq<i16>, quantization: Seq<u8>) -> Seq<u8> {
    Seq::new(64, |i: int| sample_at(coefficients, quantization, i))
}

/// `value` held between 0 and 255.
pub open spec fn clamped(value: int) -> u8 {
    if value < 0 {
        0
    } else if value > 255 {
        255
    } else {
        value as u8
    }
}

/// The red, green and blue of a luma and two chroma samples, in 16-bit fixed point.
pub open spec fn rgb_of(y: u8, cb: u8, cr: u8) -> Seq<u8> {
    let b = cb - 128;
    let r = cr - 128;
    seq![
        clamped(y + rounded(91881 * r, 65536)),
        clamped(y + rounded(-46802 * r - 22554 * b, 65536)),
        clamped(y + rounded(116130 * b, 65536)),
    ]
}

/// A coefficient times its quantisation step.
pub fn dequantize(coefficient: i16, quantization: u8) -> (r: i64)
    ensures
        r == coefficient * quantization,
        -8355840 <= r <= 8355840,
{
    let c: i64 = coefficient as i64;
    let q: i64 = quantization as i64;
    assert(-8355840 <= c * q <= 8355840) by (nonlinear_arith)
        requires
            -32768 <= c <= 32767,
            0 <= q <= 255,
    ;
    c * q
}

proof fn lemma_shift_is_floor(x: i64)
    ensures
        (x >> 5) == x as int / 32,
        (x >> 11) == x as int / 2048,
        (x >> 18) == x as int / 262144,
{
    let a = x >> 5;
    let b = x >> 11;
    let c = x >> 18;
    assert(a * 32 <= x && x < a * 32 + 32 && b * 2048 <= x && x < b * 2048 + 2048 && c * 262144
        <= x && x < c * 262144 + 262144) by (bit_vector)
        requires
            a == x >> 5,
            b == x >> 11,
            c == x >> 18,
    ;
}

/// `value / 2^shift` rounded to the nearest integer.
pub fn descale(value: i64, shift: u32) -> (r: i64)
    requires
        shift == 5 || shift == 11 || shift == 18,
        -0x4000_0000_0000_0000 <= value <= 0x4000_0000_0000_0000,
    ensures
        shift == 5 ==> r == rounded(value as int, 32),
        shift == 11 ==> r == rounded(value as int, 2048),
        shift == 18 ==> r == rounded(value as int, 262144),
{
    if shift == 5 {
        proof {
            lemma_shift_is_floor((value + 16) as i64);
        }
        (value + 16) >> 5
    } else if shift == 11 {
        proof {
            lemma_shift_is_floor((value + 1024) as i64);
        }
        (value + 1024) >> 11
    } else {
        proof {
            lemma_shift_is_floor((value + 131072) as i64);
        }
        (value + 131072) >> 18
    }
}

/// A sample around zero moved to `0..=255`.
pub fn apple_idct_range_limit(value: i64) -> (r: u8)
    ensures
        r == range_limited(value as int),
{
    let index: i64 = value & 0x3ff;
    proof {
        let high = value >> 10;
        assert(value == high * 1024 + index && 0 <= index && index < 1024) by (bit_vector)
            requires
                index == value & 0x3ff,
                high == value >> 10,
        ;
        assert(value as int % 1024 == index);
    }
    if index < 128 {
        (index + 128) as u8
    } else if index < 384 {
        255
    } else if index < 896 {
        0
    } else {
        (index - 896) as u8
    }
}

/// The eight numbers as mathematical integers.
pub open spec fn line_ints(line: Seq<i64>) -> Seq<int> {
    Seq::new(8, |k: int| line[k] as int)
}

/// The part of the inverse transform that the even coefficients make.
fn even_part(d0: i64, d2: i64, d4: i64, d6: i64) -> (r: (i64, i64, i64, i64))
    requires
        -300_000_000 <= d0 <= 300_000_000,
        -300_000_000 <= d2 <= 300_000_000,
        -300_000_000 <= d4 <= 300_000_000,
        -300_000_000 <= d6 <= 300_000_000,
    ensures
        r.0 == 8192 * d0 + 8192 * d4 + 10703 * d2 + 4433 * d6,
        r.1 == 8192 * d0 - 8192 * d4 + 4433 * d2 - 10704 * d6,
        r.2 == 8192 * d0 - 8192 * d4 - 4433 * d2 + 10704 * d6,
        r.3 == 8192 * d0 + 8192 * d4 - 10703 * d2 - 4433 * d6,
{
    let z1: i64 = (d2 + d6) * 4433;
    let even_b: i64 = z1 - d6 * 15137;
    let even_a: i64 = z1 + d2 * 6270;
    let sum: i64 = (d0 + d4) * 8192;
    let difference: i64 = (d0 - d4) * 8192;
    (sum + even_a, difference + even_b, difference - even_b, sum - even_a)
}

/// The part of the inverse transform that the odd coefficients make.
fn odd_part(d1: i64, d3: i64, d5: i64, d7: i64) -> (r: (i64, i64, i64, i64))
    requires
        -300_000_000 <= d1 <= 300_000_000,
        -300_000_000 <= d3 <= 300_000_000,
        -300_000_000 <= d5 <= 300_000_000,
        -300_000_000 <= d7 <= 300_000_000,
    ensures
        r.0 == 11363 * d1 + 9633 * d3 + 6437 * d5 + 2260 * d7,
        r.1 == 9633 * d1 - 2259 * d3 - 11362 * d5 - 6436 * d7,
        r.2 == 6437 * d1 - 11362 * d3 + 2261 * d5 + 9633 * d7,
        r.3 == 2260 * d1 - 6436 * d3 + 9633 * d5 - 11363 * d7,
{
    let z1: i64 = 0 - (d7 + d1) * 7373;
    let z2: i64 = 0 - (d5 + d3) * 20995;
    let z5: i64 = (d7 + d3 + d5 + d1) * 9633;
    let z3: i64 = z5 - (d7 + d3) * 16069;
    let z4: i64 = z5 - (d5 + d1) * 3196;
    (
        d1 * 12299 + z1 + z4,
        d3 * 25172 + z2 + z3,
        d5 * 16819 + z2 + z4,
        d7 * 2446 + z1 + z3,
    )
}

/// The one-dimensional inverse transform of eight coefficients.
fn transform_line(d: &[i64; 8]) -> (r: [i64; 8])
    requires
        forall|k: int| 0 <= k < 8 ==> -300_000_000 <= #[trigger] d[k] <= 300_000_000,
    ensures
        forall|n: int| 0 <= n < 8 ==> #[trigger] r[n] == transformed(line_ints(d@), n),
        forall|n: int|
            0 <= n < 8 ==> -0x1000_0000_0000_0000 <= #[trigger] r[n] <= 0x1000_0000_0000_0000,
{
    let even: (i64, i64, i64, i64) = even_part(d[0], d[2], d[4], d[6]);
    let odd: (i64, i64, i64, i64) = odd_part(d[1], d[3], d[5], d[7]);
    let out: [i64; 8] = [
        even.0 + odd.0,
        even.1 + odd.1,
        even.2 + odd.2,
        even.3 + odd.3,
        even.3 - odd.3,
        even.2 - odd.2,
        even.1 - odd.1,
        even.0 - odd.0,
    ];
    proof {
        let s = line_ints(d@);
        lemma_transformed(s);
        assert(s[0] == d[0] && s[1] == d[1] && s[2] == d[2] && s[3] == d[3] && s[4] == d[4]
            && s[5] == d[5] && s[6] == d[6] && s[7] == d[7]);
        assert(out[0] == even.0 + odd.0 && out[1] == even.1 + odd.1 && out[2] == even.2 + odd.2
            && out[3] == even.3 + odd.3 && out[4] == even.3 - odd.3 && out[5] == even.2 - odd.2
            && out[6] == even.1 - odd.1 && out[7] == even.0 - odd.0);
    }
    out
}

proof fn lemma_transformed(d: Seq<int>)
    ensures
        transformed(d, 0) == 8192 * d[0] + 8192 * d[4] + 10703 * d[2] + 4433 * d[6] + 11363 * d[1]
            + 9633 * d[3] + 6437 * d[5] + 2260 * d[7],
        transformed(d, 1) == 8192 * d[0] - 8192 * d[4] + 4433 * d[2] - 10704 * d[6] + 9633 * d[1]
            - 2259 * d[3] - 11362 * d[5] - 6436 * d[7],
        transformed(d, 2) == 8192 * d[0] - 8192 * d[4] - 4433 * d[2] + 10704 * d[6] + 6437 * d[1]
            - 11362 * d[3] + 2261 * d[5] + 9633 * d[7],
        transformed(d, 3) == 8192 * d[0] + 8192 * d[4] - 10703 * d[2] - 4433 * d[6] + 2260 * d[1]
            - 6436 * d[3] + 9633 * d[5] - 11363 * d[7],
        transformed(d, 4) == 8192 * d[0] + 8192 * d[4] - 10703 * d[2] - 4433 * d[6] - 2260 * d[1]
            + 6436 * d[3] - 9633 * d[5] + 11363 * d[7],
        transformed(d, 5) == 8192 * d[0] - 8192 * d[4] - 4433 * d[2] + 10704 * d[6] - 6437 * d[1]
            + 11362 * d[3] - 2261 * d[5] - 9633 * d[7],
        transformed(d, 6) == 8192 * d[0] - 8192 * d[4] + 4433 * d[2] - 10704 * d[6] - 9633 * d[1]
            + 2259 * d[3] + 11362 * d[5] + 6436 * d[7],
        transformed(d, 7) == 8192 * d[0] + 8192 * d[4] + 10703 * d[2] + 4433 * d[6] - 11363 * d[1]
            - 9633 * d[3] - 6437 * d[5] - 2260 * d[7],
{
    reveal(transformed);
}

proof fn lemma_after_columns_bound(coefficients: Seq<i16>, quantization: Seq<u8>, i: int)
    requires
        coefficients.len() == 64,
        quantization.len() == 64,
        0 <= i < 64,
    ensures
        -300_000_000 <= after_columns(coefficients, quantization, i) <= 300_000_000,
{
    reveal(transformed);
    let d = column_of(coefficients, quantization, i % 8);
    assert forall|k: int| 0 <= k < 8 implies -8355840 <= #[trigger] d[k] <= 8355840 by {
        let c = coefficients[k * 8 + i % 8] as int;
        let q = quantization[k * 8 + i % 8] as int;
        assert(-8355840 <= c * q <= 8355840) by (nonlinear_arith)
            requires
                -32768 <= c <= 32767,
                0 <= q <= 255,
        ;
    }
    assert(d[0] == d[0] && d[1] == d[1] && d[2] == d[2] && d[3] == d[3]);
    let v = transformed(d, i / 8);
    assert(-600_000_000_000 <= v <= 600_000_000_000);
}

/// The inverse transform of a block.
#[verifier::rlimit(30)]
pub fn inverse_dct_8x8(coefficients: &[i16; 64], quantization: &[u8; 64]) -> (r: [u8; 64])
    ensures
        r@ == block_samples(coefficients@, quantization@),
{
    let mut workspace: [i64; 64] = [0; 64];
    let mut column: usize = 0;
    while column < 8
        invariant
            column <= 8,
            forall|i: int|
                0 <= i < 64 && i % 8 < column ==> #[trigger] workspace[i] == after_columns(
                    coefficients@,
                    quantization@,
                    i,
                ),
        decreases 8 - column,
    {
        let mut line: [i64; 8] = [0; 8];
        let mut k: usize = 0;
        let mut flat: bool = true;
        while k < 8
            invariant
                k <= 8,
                column < 8,
                forall|j: int|
                    0 <= j < k ==> #[trigger] line[j] == scaled(
                        coefficients@,
                        quantization@,
                        j * 8 + column,
                    ),
                forall|j: int| 0 <= j < k ==> -8355840 <= #[trigger] line[j] <= 8355840,
                flat ==> forall|j: int| 1 <= j < k ==> #[trigger] line[j] == 0,
            decreases 8 - k,
        {
            let coefficient: i16 = coefficients[k * 8 + column];
            if k > 0 && coefficient != 0 {
                flat = false;
            }
            let value: i64 = dequantize(coefficient, quantization[k * 8 + column]);
            proof {
                if coefficient == 0 {
                    assert(value == 0) by (nonlinear_arith)
                        requires
                            value == coefficient * quantization@[k * 8 + column],
                            coefficient == 0,
                    ;
                }
            }
            line[k] = value;
            k = k + 1;
        }
        assert(line_ints(line@) =~= column_of(coefficients@, quantization@, column as int));
        if flat {
            let dc: i64 = line[0] * 4;
            proof {
                assert(line[1] == 0 && line[2] == 0 && line[3] == 0 && line[4] == 0 && line[5] == 0
                    && line[6] == 0 && line[7] == 0);
                assert forall|n: int| 0 <= n < 8 implies rounded(
                    #[trigger] transformed(line_ints(line@), n),
                    2048,
                ) == dc by {
                    reveal(transformed);
                    assert(transformed(line_ints(line@), n) == 8192 * line[0]);
                }
            }
            store_column_value(
                &mut workspace,
                coefficients,
                quantization,
                column,
                &line,
                dc,
            );
        } else {
            let values: [i64; 8] = transform_line(&line);
            store_column(&mut workspace, coefficients, quantization, column, &line, &values);
        }
        column = column + 1;
    }

    let mut output: [u8; 64] = [0; 64];
    let mut row: usize = 0;
    while row < 8
        invariant
            row <= 8,
            forall|i: int|
                0 <= i < 64 ==> #[trigger] workspace[i] == after_columns(
                    coefficients@,
                    quantization@,
                    i,
                ),
            forall|i: int|
                0 <= i < row * 8 ==> #[trigger] output[i] == sample_at(coefficients@, quantization@, i),
        decreases 8 - row,
    {
        let mut line: [i64; 8] = [0; 8];
        let mut k: usize = 0;
        let mut flat: bool = true;
        while k < 8
            invariant
                k <= 8,
                row < 8,
                forall|i: int|
                    0 <= i < 64 ==> #[trigger] workspace[i] == after_columns(
                        coefficients@,
                        quantization@,
                        i,
                    ),
                forall|j: int|
                    0 <= j < k ==> #[trigger] line[j] == after_columns(
                        coefficients@,
                        quantization@,
                        row * 8 + j,
                    ),
                forall|j: int| 0 <= j < k ==> -300_000_000 <= #[trigger] line[j] <= 300_000_000,
                flat ==> forall|j: int| 1 <= j < k ==> #[trigger] line[j] == 0,
            decreases 8 - k,
        {
            let value: i64 = workspace[row * 8 + k];
            proof {
                lemma_after_columns_bound(coefficients@, quantization@, row * 8 + k);
            }
            if k > 0 && value != 0 {
                flat = false;
            }
            line[k] = value;
            k = k + 1;
        }
        assert(line_ints(line@) =~= row_of(coefficients@, quantization@, row as int));
        if flat {
            let sample: u8 = apple_idct_range_limit(descale(line[0], 5));
            proof {
                assert(line[1] == 0 && line[2] == 0 && line[3] == 0 && line[4] == 0 && line[5] == 0
                    && line[6] == 0 && line[7] == 0);
                assert forall|n: int| 0 <= n < 8 implies range_limited(
                    rounded(#[trigger] transformed(line_ints(line@), n), 262144),
                ) == sample by {
                    reveal(transformed);
                    assert(transformed(line_ints(line@), n) == 8192 * line[0]);
                    assert(rounded(8192 * line[0], 262144) == rounded(line[0] as int, 32));
                }
            }
            store_flat_row(&mut output, coefficients, quantization, row, &line, sample);
        } else {
            let values: [i64; 8] = transform_line(&line);
            store_row(&mut output, coefficients, quantization, row, &line, &values);
        }
        row = row + 1;
    }
    assert(output@ =~= block_samples(coefficients@, quantization@));
    output
}

fn store_column_value(
    workspace: &mut [i64; 64],
    coefficients: &[i16; 64],
    quantization: &[u8; 64],
    column: usize,
    line: &[i64; 8],
    dc: i64,
)
    requires
        column < 8,
        line_ints(line@) == column_of(coefficients@, quantization@, column as int),
        forall|n: int|
            0 <= n < 8 ==> rounded(#[trigger] transformed(line_ints(line@), n), 2048) == dc,
    ensures
        forall|i: int|
            0 <= i < 64 && i % 8 != column ==> #[trigger] final(workspace)[i] == old(workspace)[i],
        forall|i: int|
            0 <= i < 64 && i % 8 == column ==> #[trigger] final(workspace)[i] == after_columns(
                coefficients@,
                quantization@,
                i,
            ),
{
    let mut row: usize = 0;
    while row < 8
        invariant
            row <= 8,
            column < 8,
            line_ints(line@) == column_of(coefficients@, quantization@, column as int),
            forall|n: int|
                0 <= n < 8 ==> rounded(#[trigger] transformed(line_ints(line@), n), 2048) == dc,
            forall|i: int|
                0 <= i < 64 && i % 8 != column ==> #[trigger] workspace[i] == old(workspace)[i],
            forall|i: int|
                0 <= i < row * 8 && i % 8 == column ==> #[trigger] workspace[i] == after_columns(
                    coefficients@,
                    quantization@,
                    i,
                ),
        decreases 8 - row,
    {
        let ghost n = row as int;
        assert(rounded(transformed(line_ints(line@), n), 2048) == dc);
        workspace[row * 8 + column] = dc;
        row = row + 1;
    }
}

fn store_column(
    workspace: &mut [i64; 64],
    coefficients: &[i16; 64],
    quantization: &[u8; 64],
    column: usize,
    line: &[i64; 8],
    values: &[i64; 8],
)
    requires
        column < 8,
        line_ints(line@) == column_of(coefficients@, quantization@, column as int),
        forall|n: int| 0 <= n < 8 ==> #[trigger] values[n] == transformed(line_ints(line@), n),
        forall|n: int|
            0 <= n < 8 ==> -0x1000_0000_0000_0000 <= #[trigger] values[n] <= 0x1000_0000_0000_0000,
    ensures
        forall|i: int|
            0 <= i < 64 && i % 8 != column ==> #[trigger] final(workspace)[i] == old(workspace)[i],
        forall|i: int|
            0 <= i < 64 && i % 8 == column ==> #[trigger] final(workspace)[i] == after_columns(
                coefficients@,
                quantization@,
                i,
            ),
{
    let mut row: usize = 0;
    while row < 8
        invariant
            row <= 8,
            column < 8,
            line_ints(line@) == column_of(coefficients@, quantization@, column as int),
            forall|n: int| 0 <= n < 8 ==> #[trigger] values[n] == transformed(line_ints(line@), n),
            forall|n: int|
                0 <= n < 8 ==> -0x1000_0000_0000_0000 <= #[trigger] values[n]
                    <= 0x1000_0000_0000_0000,
            forall|i: int|
                0 <= i < 64 && i % 8 != column ==> #[trigger] workspace[i] == old(workspace)[i],
            forall|i: int|
                0 <= i < row * 8 && i % 8 == column ==> #[trigger] workspace[i] == after_columns(
                    coefficients@,
                    quantization@,
                    i,
                ),
        decreases 8 - row,
    {
        workspace[row * 8 + column] = descale(values[row], 11);
        row = row + 1;
    }
}

fn store_flat_row(
    output: &mut [u8; 64],
    coefficients: &[i16; 64],
    quantization: &[u8; 64],
    row: usize,
    line: &[i64; 8],
    sample: u8,
)
    requires
        row < 8,
        line_ints(line@) == row_of(coefficients@, quantization@, row as int),
        forall|n: int|
            0 <= n < 8 ==> range_limited(
                rounded(#[trigger] transformed(line_ints(line@), n), 262144),
            ) == sample,
    ensures
        forall|i: int| 0 <= i < row * 8 ==> #[trigger] final(output)[i] == old(output)[i],
        forall|i: int|
            row * 8 <= i < row * 8 + 8 ==> #[trigger] final(output)[i] == sample_at(coefficients@, quantization@, i),
{
    let mut k: usize = 0;
    while k < 8
        invariant
            k <= 8,
            row < 8,
            line_ints(line@) == row_of(coefficients@, quantization@, row as int),
            forall|n: int|
                0 <= n < 8 ==> range_limited(
                    rounded(#[trigger] transformed(line_ints(line@), n), 262144),
                ) == sample,
            forall|i: int| 0 <= i < row * 8 ==> #[trigger] output[i] == old(output)[i],
            forall|i: int|
                row * 8 <= i < row * 8 + k ==> #[trigger] output[i] == sample_at(coefficients@, quantization@, i),
        decreases 8 - k,
    {
        assert(range_limited(rounded(transformed(line_ints(line@), k as int), 262144)) == sample);
        output[row * 8 + k] = sample;
        k = k + 1;
    }
}

fn store_row(
    output: &mut [u8; 64],
    coefficients: &[i16; 64],
    quantization: &[u8; 64],
    row: usize,
    line: &[i64; 8],
    values: &[i64; 8],
)
    requires
        row < 8,
        line_ints(line@) == row_of(coefficients@, quantization@, row as int),
        forall|n: int| 0 <= n < 8 ==> #[trigger] values[n] == transformed(line_ints(line@), n),
        forall|n: int|
            0 <= n < 8 ==> -0x1000_0000_0000_0000 <= #[trigger] values[n] <= 0x1000_0000_0000_0000,
    ensures
        forall|i: int| 0 <= i < row * 8 ==> #[trigger] final(output)[i] == old(output)[i],
        forall|i: int|
            row * 8 <= i < row * 8 + 8 ==> #[trigger] final(output)[i] == sample_at(coefficients@, quantization@, i),
{
    let mut k: usize = 0;
    while k < 8
        invariant
            k <= 8,
            row < 8,
            line_ints(line@) == row_of(coefficients@, quantization@, row as int),
            forall|n: int| 0 <= n < 8 ==> #[trigger] values[n] == transformed(line_ints(line@), n),
            forall|n: int|
                0 <= n < 8 ==> -0x1000_0000_0000_0000 <= #[trigger] values[n]
                    <= 0x1000_0000_0000_0000,
            forall|i: int| 0 <= i < row * 8 ==> #[trigger] output[i] == old(output)[i],
            forall|i: int|
                row * 8 <= i < row * 8 + k ==> #[trigger] output[i] == sample_at(coefficients@, quantization@, i),
        decreases 8 - k,
    {
        output[row * 8 + k] = apple_idct_range_limit(descale(values[k], 18));
        k = k + 1;
    }
}

proof fn lemma_color_shift_is_floor(x: i32)
    ensures
        (x >> 16) == x as int / 65536,
{
    let a = x >> 16;
    assert(a * 65536 <= x && x < a * 65536 + 65536) by (bit_vector)
        requires
            a == x >> 16,
    ;
}

/// `value` held between 0 and 255.
pub fn clamp_channel(value: i32) -> (r: u8)
    ensures
        r == clamped(value as int),
{
    if value < 0 {
        0
    } else if value > 255 {
        255
    } else {
        value as u8
    }
}

/// The color of a luma and two chroma samples.
pub fn ycbcr_8_to_rgb(y: u8, cb: u8, cr: u8) -> (r: [u8; 3])
    ensures
        r@ == rgb_of(y, cb, cr),
{
    let y: i32 = y as i32;
    let b: i32 = cb as i32 - 128;
    let r: i32 = cr as i32 - 128;
    proof {
        lemma_color_shift_is_floor((91_881 * r + 32_768) as i32);
        lemma_color_shift_is_floor((116_130 * b + 32_768) as i32);
        lemma_color_shift_is_floor((-46_802 * r - 22_554 * b + 32_768) as i32);
    }
    let red: i32 = y + ((91_881 * r + 32_768) >> 16);
    let blue: i32 = y + ((116_130 * b + 32_768) >> 16);
    let green: i32 = y + ((-46_802 * r - 22_554 * b + 32_768) >> 16);
    let out: [u8; 3] = [clamp_channel(red), clamp_channel(green), clamp_channel(blue)];
    assert(out@ =~= rgb_of(y as u8, cb, cr));
    out
}

/// The color of an eight-bit luma and two six-bit chroma samples.
pub fn ycbcr_20_to_rgb(y: u8, cb_six: u8, cr_six: u8) -> (r: [u8; 3])
    requires
        cb_six < 64,
        cr_six < 64,
    ensures
        r@ == rgb_of(y, (cb_six * 4) as u8, (cr_six * 4) as u8),
{
    ycbcr_8_to_rgb(y, cb_six * 4, cr_six * 4)
}

} // verus!
