//! What the samples and colors of a picture are: the inverse transform is the cosine transform, and
//! colors have the luma and the chroma that they were made of.

use vstd::prelude::*;
use crate::error::VncError;
use crate::mvs_code_laws;
use crate::mvs_paint;
use crate::mvs_pixels;

verus! {

/// The color of two chroma samples in the middle is gray, as light as the luma says.
pub proof fn law_neutral_chroma_is_gray(y: u8)
    ensures
        mvs_pixels::rgb_of(y, 128, 128) =~= seq![y, y, y],
{
}

/// A color has the luma and the chroma that it was made of: weighted 299, 587 and 114, red, green and
/// blue give the luma again, blue stands off from it by 1.772 of the blue chroma and red by 1.402 of
/// the red, each to the nearest whole number, where no channel is at its end. More luma makes no
/// channel darker, more of a chroma no channel of its color darker and green no lighter.
pub proof fn law_color_has_its_luma_and_chroma(y: u8, cb: u8, cr: u8, more: u8)
    ensures
        mvs_pixels::rgb_of(y, cb, cr).len() == 3,
        ({
            let c = mvs_pixels::rgb_of(y, cb, cr);
            let (r, g, b) = (c[0] as int, c[1] as int, c[2] as int);
            &&& 0 < r < 255 ==> -501 <= 1000 * (r - y) - 1402 * (cr - 128) <= 501
            &&& 0 < b < 255 ==> -501 <= 1000 * (b - y) - 1772 * (cb - 128) <= 501
            &&& 0 < r < 255 && 0 < g < 255 && 0 < b < 255 ==> -502 <= 299 * r + 587 * g + 114 * b
                - 1000 * y <= 502
        }),
        y <= more ==> {
            let (c, d) = (mvs_pixels::rgb_of(y, cb, cr), mvs_pixels::rgb_of(more, cb, cr));
            c[0] <= d[0] && c[1] <= d[1] && c[2] <= d[2]
        },
        cb <= more ==> {
            let (c, d) = (mvs_pixels::rgb_of(y, cb, cr), mvs_pixels::rgb_of(y, more, cr));
            c[0] == d[0] && c[1] >= d[1] && c[2] <= d[2]
        },
        cr <= more ==> {
            let (c, d) = (mvs_pixels::rgb_of(y, cb, cr), mvs_pixels::rgb_of(y, cb, more));
            c[0] <= d[0] && c[1] >= d[1] && c[2] == d[2]
        },
{
}

/// A palette color is read back: eight digits of luma and then six of each chroma, the blue first,
/// which stand for four times as much; so 32 is the middle.
pub proof fn law_palette_color_is_read(bytes: Seq<u8>, pos: int, y: u8, cb: int, cr: int)
    requires
        0 <= cb < 64,
        0 <= cr < 64,
        mvs_code_laws::holds(
            bytes,
            pos,
            mvs_code_laws::digits(y as int, 8) + (mvs_code_laws::digits(cb, 6)
                + mvs_code_laws::digits(cr, 6)),
        ),
    ensures
        mvs_paint::mode_four_color_at(bytes, pos) == (
            Ok::<Seq<u8>, VncError>(mvs_pixels::rgb_of(y, (4 * cb) as u8, (4 * cr) as u8)),
            pos + 20,
        ),
        cb == 32 && cr == 32 ==> mvs_paint::mode_four_color_at(bytes, pos).0 == Ok::<
            Seq<u8>,
            VncError,
        >(seq![y, y, y]),
{
    reveal_with_fuel(crate::mvs_bitstream::two_to, 9);
    let back = mvs_code_laws::digits(cb, 6) + mvs_code_laws::digits(cr, 6);
    mvs_code_laws::lemma_digits(y as int, 8);
    mvs_code_laws::lemma_digits(cb, 6);
    mvs_code_laws::lemma_split(bytes, pos, mvs_code_laws::digits(y as int, 8), back);
    mvs_code_laws::lemma_read(bytes, pos, y as int, 8);
    mvs_code_laws::lemma_split(
        bytes,
        pos + 8,
        mvs_code_laws::digits(cb, 6),
        mvs_code_laws::digits(cr, 6),
    );
    mvs_code_laws::lemma_read(bytes, pos + 8, cb, 6);
    mvs_code_laws::lemma_read(bytes, pos + 14, cr, 6);
    law_neutral_chroma_is_gray(y);
}

/// A line with one at a frequency and nothing at the others.
pub open spec fn unit(k: int) -> Seq<int> {
    Seq::new(
        8,
        |i: int|
            if i == k {
                1int
            } else {
                0
            },
    )
}

/// The wave of a frequency.
pub open spec fn wave(k: int, n: int) -> int {
    mvs_pixels::transformed(unit(k), n)
}

/// The two neighbours of a place of a wave together; beyond an end stands the end again.
pub open spec fn neighbours(k: int, n: int) -> int {
    wave(
        k,
        if n == 0 {
            0
        } else {
            n - 1
        },
    ) + wave(
        k,
        if n == 7 {
            7
        } else {
            n + 1
        },
    )
}

/// The inverse transform is the cosine transform, as nearly as its 13-bit weights allow: the wave of
/// a frequency bends everywhere in proportion to its height, two neighbours together being twice the
/// cosine of that many eighths of a half turn times what stands between them.
pub proof fn law_waves_bend_like_cosines(n: int)
    requires
        0 <= n < 8,
    ensures
        -30000 <= 10000 * neighbours(0, n) - 20000 * wave(0, n) <= 30000,
        -30000 <= 10000 * neighbours(1, n) - 18478 * wave(1, n) <= 30000,
        -30000 <= 10000 * neighbours(2, n) - 14142 * wave(2, n) <= 30000,
        -30000 <= 10000 * neighbours(3, n) - 7654 * wave(3, n) <= 30000,
        -30000 <= 10000 * neighbours(4, n) - 0 * wave(4, n) <= 30000,
        -30000 <= 10000 * neighbours(5, n) + 7654 * wave(5, n) <= 30000,
        -30000 <= 10000 * neighbours(6, n) + 14142 * wave(6, n) <= 30000,
        -30000 <= 10000 * neighbours(7, n) + 18478 * wave(7, n) <= 30000,
{
    lemma_wave_values(0);
    lemma_wave_values(1);
    lemma_wave_values(2);
    lemma_wave_values(3);
    lemma_wave_values(4);
    lemma_wave_values(5);
    lemma_wave_values(6);
    lemma_wave_values(7);
}

/// A wave is the same from both ends, or the opposite where its frequency is odd. It begins at the
/// cosine of that many sixteenths of a half turn, and those above zero are stronger by the square
/// root of two.
pub proof fn law_waves_begin_like_cosines(n: int)
    requires
        0 <= n < 8,
    ensures
        wave(0, 7 - n) == wave(0, n),
        wave(1, 7 - n) == -wave(1, n),
        wave(2, 7 - n) == wave(2, n),
        wave(3, 7 - n) == -wave(3, n),
        wave(4, 7 - n) == wave(4, n),
        wave(5, 7 - n) == -wave(5, n),
        wave(6, 7 - n) == wave(6, n),
        wave(7, 7 - n) == -wave(7, n),
        wave(0, 0) == 8192,
        -12000 <= 10000 * wave(1, 0) - 11585 * 9808 <= 12000,
        -12000 <= 10000 * wave(2, 0) - 11585 * 9239 <= 12000,
        -12000 <= 10000 * wave(3, 0) - 11585 * 8315 <= 12000,
        -12000 <= 10000 * wave(4, 0) - 11585 * 7071 <= 12000,
        -12000 <= 10000 * wave(5, 0) - 11585 * 5556 <= 12000,
        -12000 <= 10000 * wave(6, 0) - 11585 * 3827 <= 12000,
        -12000 <= 10000 * wave(7, 0) - 11585 * 1951 <= 12000,
{
    lemma_wave_values(n);
    lemma_wave_values(7 - n);
    lemma_wave_values(0);
}

/// The inverse transform of a line is the sum of the waves of its frequencies.
pub proof fn law_transform_adds_waves(d: Seq<int>, n: int)
    requires
        d.len() == 8,
        0 <= n < 8,
    ensures
        mvs_pixels::transformed(d, n) == d[0] * wave(0, n) + d[1] * wave(1, n) + d[2] * wave(2, n)
            + d[3] * wave(3, n) + d[4] * wave(4, n) + d[5] * wave(5, n) + d[6] * wave(6, n) + d[7]
            * wave(7, n),
{
    lemma_wave_values(n);
    reveal(mvs_pixels::transformed);
}

proof fn lemma_wave_values(n: int)
    requires
        0 <= n < 8,
    ensures
        n == 0 ==> wave(0, n) == 8192,
        n == 1 ==> wave(0, n) == 8192,
        n == 2 ==> wave(0, n) == 8192,
        n == 3 ==> wave(0, n) == 8192,
        n == 4 ==> wave(0, n) == 8192,
        n == 5 ==> wave(0, n) == 8192,
        n == 6 ==> wave(0, n) == 8192,
        n == 7 ==> wave(0, n) == 8192,
        n == 0 ==> wave(1, n) == 11363,
        n == 1 ==> wave(1, n) == 9633,
        n == 2 ==> wave(1, n) == 6437,
        n == 3 ==> wave(1, n) == 2260,
        n == 4 ==> wave(1, n) == -2260,
        n == 5 ==> wave(1, n) == -6437,
        n == 6 ==> wave(1, n) == -9633,
        n == 7 ==> wave(1, n) == -11363,
        n == 0 ==> wave(2, n) == 10703,
        n == 1 ==> wave(2, n) == 4433,
        n == 2 ==> wave(2, n) == -4433,
        n == 3 ==> wave(2, n) == -10703,
        n == 4 ==> wave(2, n) == -10703,
        n == 5 ==> wave(2, n) == -4433,
        n == 6 ==> wave(2, n) == 4433,
        n == 7 ==> wave(2, n) == 10703,
        n == 0 ==> wave(3, n) == 9633,
        n == 1 ==> wave(3, n) == -2259,
        n == 2 ==> wave(3, n) == -11362,
        n == 3 ==> wave(3, n) == -6436,
        n == 4 ==> wave(3, n) == 6436,
        n == 5 ==> wave(3, n) == 11362,
        n == 6 ==> wave(3, n) == 2259,
        n == 7 ==> wave(3, n) == -9633,
        n == 0 ==> wave(4, n) == 8192,
        n == 1 ==> wave(4, n) == -8192,
        n == 2 ==> wave(4, n) == -8192,
        n == 3 ==> wave(4, n) == 8192,
        n == 4 ==> wave(4, n) == 8192,
        n == 5 ==> wave(4, n) == -8192,
        n == 6 ==> wave(4, n) == -8192,
        n == 7 ==> wave(4, n) == 8192,
        n == 0 ==> wave(5, n) == 6437,
        n == 1 ==> wave(5, n) == -11362,
        n == 2 ==> wave(5, n) == 2261,
        n == 3 ==> wave(5, n) == 9633,
        n == 4 ==> wave(5, n) == -9633,
        n == 5 ==> wave(5, n) == -2261,
        n == 6 ==> wave(5, n) == 11362,
        n == 7 ==> wave(5, n) == -6437,
        n == 0 ==> wave(6, n) == 4433,
        n == 1 ==> wave(6, n) == -10704,
        n == 2 ==> wave(6, n) == 10704,
        n == 3 ==> wave(6, n) == -4433,
        n == 4 ==> wave(6, n) == -4433,
        n == 5 ==> wave(6, n) == 10704,
        n == 6 ==> wave(6, n) == -10704,
        n == 7 ==> wave(6, n) == 4433,
        n == 0 ==> wave(7, n) == 2260,
        n == 1 ==> wave(7, n) == -6436,
        n == 2 ==> wave(7, n) == 9633,
        n == 3 ==> wave(7, n) == -11363,
        n == 4 ==> wave(7, n) == 11363,
        n == 5 ==> wave(7, n) == -9633,
        n == 6 ==> wave(7, n) == 6436,
        n == 7 ==> wave(7, n) == -2260,
{
    reveal(mvs_pixels::transformed);
    let u0 = unit(0);
    assert(u0[0] == 1 && u0[1] == 0 && u0[2] == 0 && u0[3] == 0 && u0[4] == 0 && u0[5] == 0 && u0[6] == 0 && u0[7] == 0);
    let u1 = unit(1);
    assert(u1[0] == 0 && u1[1] == 1 && u1[2] == 0 && u1[3] == 0 && u1[4] == 0 && u1[5] == 0 && u1[6] == 0 && u1[7] == 0);
    let u2 = unit(2);
    assert(u2[0] == 0 && u2[1] == 0 && u2[2] == 1 && u2[3] == 0 && u2[4] == 0 && u2[5] == 0 && u2[6] == 0 && u2[7] == 0);
    let u3 = unit(3);
    assert(u3[0] == 0 && u3[1] == 0 && u3[2] == 0 && u3[3] == 1 && u3[4] == 0 && u3[5] == 0 && u3[6] == 0 && u3[7] == 0);
    let u4 = unit(4);
    assert(u4[0] == 0 && u4[1] == 0 && u4[2] == 0 && u4[3] == 0 && u4[4] == 1 && u4[5] == 0 && u4[6] == 0 && u4[7] == 0);
    let u5 = unit(5);
    assert(u5[0] == 0 && u5[1] == 0 && u5[2] == 0 && u5[3] == 0 && u5[4] == 0 && u5[5] == 1 && u5[6] == 0 && u5[7] == 0);
    let u6 = unit(6);
    assert(u6[0] == 0 && u6[1] == 0 && u6[2] == 0 && u6[3] == 0 && u6[4] == 0 && u6[5] == 0 && u6[6] == 1 && u6[7] == 0);
    let u7 = unit(7);
    assert(u7[0] == 0 && u7[1] == 0 && u7[2] == 0 && u7[3] == 0 && u7[4] == 0 && u7[5] == 0 && u7[6] == 0 && u7[7] == 1);
}

/// A sample around zero is moved to the middle and held at the ends; what is out of reach comes
/// round again.
pub proof fn law_samples_are_held(value: int)
    ensures
        -640 <= value < 384 ==> mvs_pixels::range_limited(value) == (if value < -128 {
            0
        } else if value > 127 {
            255
        } else {
            value + 128
        }),
        mvs_pixels::range_limited(value + 1024) == mvs_pixels::range_limited(value),
{
    assert((value + 1024) % 1024 == value % 1024);
    if value < 0 && value >= -640 {
        assert(value % 1024 == value + 1024);
    }
}

/// A block with its first coefficient alone is flat: every sample is the middle and an eighth of that
/// coefficient, to the nearest whole number.
pub proof fn law_flat_block(coefficients: Seq<i16>, quantization: Seq<u8>, i: int)
    requires
        coefficients.len() == 64,
        quantization.len() == 64,
        forall|k: int| 1 <= k < 64 ==> #[trigger] coefficients[k] == 0,
        0 <= i < 64,
        -5116 <= coefficients[0] * quantization[0] < 3068,
    ensures
        ({
            let sample = mvs_pixels::block_samples(coefficients, quantization)[i] as int;
            let eighths = coefficients[0] * quantization[0];
            &&& 0 < sample < 255 ==> -4 <= 8 * (sample - 128) - eighths <= 4
            &&& sample == 0 ==> eighths <= -8 * 128 + 4
            &&& sample == 255 ==> eighths >= 8 * 127 - 4
        }),
{
    let first = coefficients[0] * quantization[0];
    lemma_flat_columns(coefficients, quantization);
    let row = mvs_pixels::row_of(coefficients, quantization, i / 8);
    assert(row[0] == 4 * first);
    assert(row[1] == 0 && row[2] == 0 && row[3] == 0 && row[4] == 0 && row[5] == 0 && row[6] == 0
        && row[7] == 0);
    lemma_only_first(row, i % 8);
    law_samples_are_held(mvs_pixels::rounded(8192 * (4 * first), 262144));
}

proof fn lemma_only_first(d: Seq<int>, n: int)
    requires
        d.len() == 8,
        0 <= n < 8,
        forall|k: int| 1 <= k < 8 ==> #[trigger] d[k] == 0,
    ensures
        mvs_pixels::transformed(d, n) == 8192 * d[0],
{
    reveal(mvs_pixels::transformed);
    assert(d[1] == 0 && d[2] == 0 && d[3] == 0 && d[4] == 0 && d[5] == 0 && d[6] == 0 && d[7] == 0);
}

proof fn lemma_zero_product(a: int, b: int)
    requires
        a == 0,
    ensures
        a * b == 0,
{
}

proof fn lemma_flat_columns(coefficients: Seq<i16>, quantization: Seq<u8>)
    requires
        coefficients.len() == 64,
        quantization.len() == 64,
        forall|k: int| 8 <= k < 64 ==> #[trigger] coefficients[k] == 0,
    ensures
        forall|i: int|
            0 <= i < 64 ==> #[trigger] mvs_pixels::after_columns(coefficients, quantization, i) == 4
                * (coefficients[i % 8] * quantization[i % 8]),
{
    assert forall|i: int| 0 <= i < 64 implies #[trigger] mvs_pixels::after_columns(
        coefficients,
        quantization,
        i,
    ) == 4 * (coefficients[i % 8] * quantization[i % 8]) by {
        let d = mvs_pixels::column_of(coefficients, quantization, i % 8);
        assert forall|k: int| 1 <= k < 8 implies #[trigger] d[k] == 0 by {
            assert(coefficients[k * 8 + i % 8] == 0);
            lemma_zero_product(
                coefficients[k * 8 + i % 8] as int,
                quantization[k * 8 + i % 8] as int,
            );
        }
        assert(d[0] == coefficients[i % 8] * quantization[i % 8]);
        lemma_only_first(d, i / 8);
    }
}

/// The coefficients of the first row vary along the rows alone: all rows are the same.
pub proof fn law_first_row_makes_columns(
    coefficients: Seq<i16>,
    quantization: Seq<u8>,
    row: int,
    other: int,
    column: int,
)
    requires
        coefficients.len() == 64,
        quantization.len() == 64,
        forall|k: int| 8 <= k < 64 ==> #[trigger] coefficients[k] == 0,
        0 <= row < 8,
        0 <= other < 8,
        0 <= column < 8,
    ensures
        mvs_pixels::block_samples(coefficients, quantization)[row * 8 + column]
            == mvs_pixels::block_samples(coefficients, quantization)[other * 8 + column],
{
    lemma_flat_columns(coefficients, quantization);
    let a = mvs_pixels::row_of(coefficients, quantization, row);
    let b = mvs_pixels::row_of(coefficients, quantization, other);
    assert forall|k: int| 0 <= k < 8 implies a[k] == b[k] by {
        assert((row * 8 + k) % 8 == k && (other * 8 + k) % 8 == k);
    }
    assert(a =~= b);
}

/// The coefficients of the first column vary along the columns alone: all columns are the same.
pub proof fn law_first_column_makes_rows(
    coefficients: Seq<i16>,
    quantization: Seq<u8>,
    row: int,
    column: int,
    other: int,
)
    requires
        coefficients.len() == 64,
        quantization.len() == 64,
        forall|k: int| 0 <= k < 64 && k % 8 != 0 ==> #[trigger] coefficients[k] == 0,
        0 <= row < 8,
        0 <= column < 8,
        0 <= other < 8,
    ensures
        mvs_pixels::block_samples(coefficients, quantization)[row * 8 + column]
            == mvs_pixels::block_samples(coefficients, quantization)[row * 8 + other],
{
    let line = mvs_pixels::row_of(coefficients, quantization, row);
    assert forall|k: int| 1 <= k < 8 implies #[trigger] line[k] == 0 by {
        let d = mvs_pixels::column_of(coefficients, quantization, k);
        assert forall|j: int| 0 <= j < 8 implies #[trigger] d[j] == 0 by {
            assert((j * 8 + k) % 8 == k);
            assert(coefficients[j * 8 + k] == 0);
            lemma_zero_product(coefficients[j * 8 + k] as int, quantization[j * 8 + k] as int);
        }
        lemma_only_first(d, row);
        assert((row * 8 + k) % 8 == k && (row * 8 + k) / 8 == row);
    }
    lemma_only_first(line, column);
    lemma_only_first(line, other);
    assert((row * 8 + column) / 8 == row && (row * 8 + column) % 8 == column);
    assert((row * 8 + other) / 8 == row && (row * 8 + other) % 8 == other);
}

/// Turning the sign of every other row of coefficients turns a block upside down.
pub proof fn law_odd_rows_turn_a_block(
    coefficients: Seq<i16>,
    turned: Seq<i16>,
    quantization: Seq<u8>,
    row: int,
    column: int,
)
    requires
        coefficients.len() == 64,
        turned.len() == 64,
        quantization.len() == 64,
        forall|k: int|
            0 <= k < 64 ==> (#[trigger] turned[k]) as int == (if k / 8 % 2 == 0 {
                coefficients[k] as int
            } else {
                -coefficients[k]
            }),
        0 <= row < 8,
        0 <= column < 8,
    ensures
        mvs_pixels::block_samples(turned, quantization)[(7 - row) * 8 + column]
            == mvs_pixels::block_samples(coefficients, quantization)[row * 8 + column],
{
    let a = mvs_pixels::row_of(turned, quantization, 7 - row);
    let b = mvs_pixels::row_of(coefficients, quantization, row);
    assert forall|k: int| 0 <= k < 8 implies a[k] == b[k] by {
        let d = mvs_pixels::column_of(turned, quantization, k);
        let e = mvs_pixels::column_of(coefficients, quantization, k);
        assert forall|j: int| 0 <= j < 8 implies #[trigger] d[j] == (if j % 2 == 0 {
            e[j]
        } else {
            -e[j]
        }) by {
            let at = j * 8 + k;
            assert(at / 8 == j);
            assert((turned[at] as int) == (if j % 2 == 0 {
                coefficients[at] as int
            } else {
                -coefficients[at]
            }));
            assert((-coefficients[at]) * quantization[at] == -(coefficients[at] * quantization[at]))
                by (nonlinear_arith);
        }
        assert(d[0] == e[0] && d[1] == -e[1] && d[2] == e[2] && d[3] == -e[3] && d[4] == e[4]
            && d[5] == -e[5] && d[6] == e[6] && d[7] == -e[7]);
        assert(mvs_pixels::transformed(d, 7 - row) == mvs_pixels::transformed(e, row)) by {
            reveal(mvs_pixels::transformed);
        }
        assert(((7 - row) * 8 + k) % 8 == k && ((7 - row) * 8 + k) / 8 == 7 - row);
        assert((row * 8 + k) % 8 == k && (row * 8 + k) / 8 == row);
    }
    assert(a =~= b);
    assert(((7 - row) * 8 + column) % 8 == column && ((7 - row) * 8 + column) / 8 == 7 - row);
    assert((row * 8 + column) % 8 == column && (row * 8 + column) / 8 == row);
}

/// A coefficient counts only by its product with its step.
pub proof fn law_only_products_count(
    coefficients: Seq<i16>,
    quantization: Seq<u8>,
    others: Seq<i16>,
    steps: Seq<u8>,
)
    requires
        forall|k: int|
            0 <= k < 64 ==> (#[trigger] coefficients[k]) * quantization[k] == others[k] * steps[k],
    ensures
        mvs_pixels::block_samples(coefficients, quantization) == mvs_pixels::block_samples(
            others,
            steps,
        ),
{
    assert forall|column: int| 0 <= column < 8 implies #[trigger] mvs_pixels::column_of(
        coefficients,
        quantization,
        column,
    ) == mvs_pixels::column_of(others, steps, column) by {
        let a = mvs_pixels::column_of(coefficients, quantization, column);
        let b = mvs_pixels::column_of(others, steps, column);
        assert forall|k: int| 0 <= k < 8 implies a[k] == b[k] by {
            let at = k * 8 + column;
            assert(coefficients[at] * quantization[at] == others[at] * steps[at]);
        }
        assert(a =~= b);
    }
    assert forall|row: int| 0 <= row < 8 implies #[trigger] mvs_pixels::row_of(
        coefficients,
        quantization,
        row,
    ) == mvs_pixels::row_of(others, steps, row) by {
        let a = mvs_pixels::row_of(coefficients, quantization, row);
        let b = mvs_pixels::row_of(others, steps, row);
        assert forall|k: int| 0 <= k < 8 implies a[k] == b[k] by {
            let at = row * 8 + k;
            assert(mvs_pixels::column_of(coefficients, quantization, at % 8)
                == mvs_pixels::column_of(others, steps, at % 8));
        }
        assert(a =~= b);
    }
    let a = mvs_pixels::block_samples(coefficients, quantization);
    let b = mvs_pixels::block_samples(others, steps);
    assert forall|i: int| 0 <= i < 64 implies a[i] == b[i] by {
        assert(mvs_pixels::row_of(coefficients, quantization, i / 8) == mvs_pixels::row_of(
            others,
            steps,
            i / 8,
        ));
    }
    assert(a =~= b);
}

} // verus!
