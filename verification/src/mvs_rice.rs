//! The Rice coding of the coefficients of a mode-5 tile.

use vstd::prelude::*;
use crate::error::{context, VncError};
use crate::mvs_bitstream::BitReader;
use crate::mvs_tables::APPLE_NATURAL_ORDER;

verus! {

/// The most ones that may open a DC difference.
pub const DC_MAX_UNARY_ONES: usize = 38;

/// The most ones that may open a coefficient of the first band.
pub const FIRST_AC_MAX_UNARY_ONES: usize = 32;

/// The most ones that may open a coefficient of the second band.
pub const SECOND_AC_MAX_UNARY_ONES: usize = 18;

/// The number of ones from `pos` up to a zero, of which `ones` have been counted already.
pub open spec fn unary_at(
    bytes: Seq<u8>,
    pos: int,
    ones: int,
    maximum: int,
    incomplete: &'static str,
    excess: &'static str,
) -> (Result<usize, VncError>, int)
    decreases maximum + 1 - ones,
{
    match crate::mvs_bitstream::read_at(bytes, pos, 1) {
        (Err(e), p) => (Err(crate::error::within(incomplete, e)), p),
        (Ok(bit), p) => if bit == 0 {
            (Ok(ones as usize), p)
        } else if ones + 1 > maximum {
            (Err(VncError::Number { before: excess, value: maximum as u64, after: "" }), p)
        } else {
            unary_at(bytes, p, ones + 1, maximum, incomplete, excess)
        },
    }
}

/// `magnitude` with the sign that a bit gives.
pub open spec fn signed(magnitude: int, negative: bool) -> int {
    if negative {
        -magnitude
    } else {
        magnitude
    }
}

/// A DC difference read at `pos`. No leading one: zero, or plus or minus one. Otherwise the ones
/// give the base and up to three bits what is added to it, and a sign follows.
pub open spec fn dc_at(bytes: Seq<u8>, pos: int) -> (Result<i16, VncError>, int) {
    match unary_at(
        bytes,
        pos,
        0,
        DC_MAX_UNARY_ONES as int,
        "MVS mode 5 DC unary 字段不完整",
        "MVS mode 5 DC unary 超过固定上限 ",
    ) {
        (Err(e), p) => (Err(e), p),
        (Ok(quotient), p) => if quotient == 0 {
            match crate::mvs_bitstream::read_at(bytes, p, 1) {
                (Err(e), p) => (
                    Err(crate::error::within("MVS mode 5 DC q0 缺少 present 位", e)),
                    p,
                ),
                (Ok(present), p) => if present == 0 {
                    (Ok(0), p)
                } else {
                    match crate::mvs_bitstream::read_at(bytes, p, 1) {
                        (Err(e), p) => (
                            Err(crate::error::within("MVS mode 5 DC q0 缺少符号位", e)),
                            p,
                        ),
                        (Ok(sign), p) => (Ok(signed(1, sign != 0) as i16), p),
                    }
                },
            }
        } else {
            let width: int = if quotient < 3 {
                quotient as int
            } else {
                3
            };
            let base: int = if quotient <= 2 {
                2 * quotient
            } else {
                (quotient - 2) * 8
            };
            match crate::mvs_bitstream::read_at(bytes, p, width) {
                (Err(e), p) => (
                    Err(crate::error::within("MVS mode 5 DC remainder 字段不完整", e)),
                    p,
                ),
                (Ok(remainder), p) => match crate::mvs_bitstream::read_at(bytes, p, 1) {
                    (Err(e), p) => (Err(crate::error::within("MVS mode 5 DC 缺少符号位", e)), p),
                    (Ok(sign), p) => (Ok(signed(base + remainder, sign != 0) as i16), p),
                },
            }
        },
    }
}

/// Counts ones up to a zero.
pub fn decode_unary_ones(
    reader: &mut BitReader<'_>,
    maximum: usize,
    incomplete: &'static str,
    excess: &'static str,
) -> (r: Result<usize, VncError>)
    requires
        old(reader).wf(),
        maximum < 1000,
    ensures
        r == unary_at(
            old(reader).bytes@,
            old(reader).position as int,
            0,
            maximum as int,
            incomplete,
            excess,
        ).0,
        final(reader).moved(
            *old(reader),
            unary_at(
                old(reader).bytes@,
                old(reader).position as int,
                0,
                maximum as int,
                incomplete,
                excess,
            ).1,
        ),
        r matches Ok(n) ==> n <= maximum,
{
    let mut ones: usize = 0;
    let ghost goal = unary_at(
        reader.bytes@,
        reader.position as int,
        0,
        maximum as int,
        incomplete,
        excess,
    );
    loop
        invariant
            reader.wf(),
            reader.bytes == old(reader).bytes,
            ones <= maximum < 1000,
            goal == unary_at(
                reader.bytes@,
                reader.position as int,
                ones as int,
                maximum as int,
                incomplete,
                excess,
            ),
            goal == unary_at(
                old(reader).bytes@,
                old(reader).position as int,
                0,
                maximum as int,
                incomplete,
                excess,
            ),
        decreases maximum - ones,
    {
        let bit: u32 = context(reader.read_bits(1), incomplete)?;
        if bit == 0 {
            return Ok(ones);
        }
        ones = ones + 1;
        if ones > maximum {
            return Err(VncError::Number { before: excess, value: maximum as u64, after: "" });
        }
    }
}

/// Reads a DC difference.
pub fn decode_dc_rice(reader: &mut BitReader<'_>) -> (r: Result<i16, VncError>)
    requires
        old(reader).wf(),
    ensures
        r == dc_at(old(reader).bytes@, old(reader).position as int).0,
        final(reader).moved(
            *old(reader),
            dc_at(old(reader).bytes@, old(reader).position as int).1,
        ),
        r matches Ok(v) ==> -295 <= v <= 295,
{
    proof {
        crate::mvs_bitstream::lemma_read_bound(reader.bytes@, 0, 0);
    }
    let quotient: usize = decode_unary_ones(
        reader,
        DC_MAX_UNARY_ONES,
        "MVS mode 5 DC unary 字段不完整",
        "MVS mode 5 DC unary 超过固定上限 ",
    )?;
    if quotient == 0 {
        let present: u32 = context(reader.read_bits(1), "MVS mode 5 DC q0 缺少 present 位")?;
        if present == 0 {
            return Ok(0);
        }
        let sign: u32 = context(reader.read_bits(1), "MVS mode 5 DC q0 缺少符号位")?;
        return Ok(
            if sign != 0 {
                -1
            } else {
                1
            },
        );
    }
    let width: u8 = if quotient < 3 {
        quotient as u8
    } else {
        3
    };
    let remainder: u32 = context(
        reader.read_bits(width),
        "MVS mode 5 DC remainder 字段不完整",
    )?;
    let base: i16 = if quotient <= 2 {
        2 * quotient as i16
    } else {
        (quotient - 2) as i16 * 8
    };
    let sign: u32 = context(reader.read_bits(1), "MVS mode 5 DC 缺少符号位")?;
    let magnitude: i16 = base + remainder as i16;
    Ok(
        if sign != 0 {
            0 - magnitude
        } else {
            magnitude
        },
    )
}

/// The number of bits by which the luma coefficient at zigzag place `index` is scaled.
pub open spec fn ac_shift(index: int, threshold: int) -> int {
    if threshold < 15 {
        if index < threshold {
            3
        } else {
            4
        }
    } else if index <= 5 || index < threshold {
        1
    } else {
        3
    }
}

/// What a magnitude of the luma coefficient at zigzag place `index` is multiplied by.
pub open spec fn ac_factor(index: int, threshold: int) -> int {
    let shift = ac_shift(index, threshold);
    if shift == 1 {
        2
    } else if shift == 3 {
        8
    } else {
        16
    }
}

/// The number of bits by which the luma coefficient at zigzag place `index` is scaled.
pub fn luma_ac_shift(index: usize, threshold: u8) -> (r: Result<u32, VncError>)
    ensures
        1 <= index < 64 ==> r == Ok::<u32, VncError>(ac_shift(index as int, threshold as int) as u32),
        !(1 <= index < 64) ==> r == Err::<u32, VncError>(
            VncError::Number { before: "MVS mode 5 AC 索引超界: ", value: index as u64, after: "" },
        ),
{
    if index < 1 || index >= 64 {
        return Err(
            VncError::Number { before: "MVS mode 5 AC 索引超界: ", value: index as u64, after: "" },
        );
    }
    let threshold: usize = threshold as usize;
    Ok(
        if threshold < 15 {
            if index < threshold {
                3
            } else {
                4
            }
        } else if index <= 5 || index < threshold {
            1
        } else {
            3
        },
    )
}

/// `coefficients` with `value` at zigzag place `index`.
pub open spec fn with_coefficient(coefficients: Seq<i16>, index: int, value: int) -> Seq<i16> {
    coefficients.update(APPLE_NATURAL_ORDER[index] as int, value as i16)
}

/// The place after a long run of zeros: three bits at a time are added until they are not all ones.
pub open spec fn long_run_at(bytes: Seq<u8>, pos: int, landing: int) -> (Result<usize, VncError>, int)
    decreases 64 - landing,
{
    match crate::mvs_bitstream::read_at(bytes, pos, 3) {
        (Err(e), p) => (
            Err(crate::error::within("MVS mode 5 AC 扩展 run 字段不完整", e)),
            p,
        ),
        (Ok(delta), p) => if landing + delta >= 64 {
            (Err(VncError::Text("MVS mode 5 AC 扩展 run 超过 coefficient 63")), p)
        } else if delta != 7 {
            (Ok((landing + delta) as usize), p)
        } else {
            long_run_at(bytes, p, landing + delta)
        },
    }
}

/// The number of ones that open a coefficient of the second band, or nothing where there are more
/// than the most that may be; the zero that would end them is then not read.
pub open spec fn high_unary_at(bytes: Seq<u8>, pos: int, ones: int) -> (
    Result<Option<usize>, VncError>,
    int,
)
    decreases SECOND_AC_MAX_UNARY_ONES + 1 - ones,
{
    match crate::mvs_bitstream::read_at(bytes, pos, 1) {
        (Err(e), p) => (
            Err(crate::error::within("MVS mode 5 高频 AC unary 字段不完整", e)),
            p,
        ),
        (Ok(bit), p) => if bit == 0 {
            (Ok(Some(ones as usize)), p)
        } else if ones >= SECOND_AC_MAX_UNARY_ONES {
            (Ok(None), p)
        } else {
            high_unary_at(bytes, p, ones + 1)
        },
    }
}

/// The number of ones that open a coefficient of either band.
pub open spec fn ac_unary_at(bytes: Seq<u8>, pos: int, first_band: bool) -> (
    Result<Option<usize>, VncError>,
    int,
) {
    if first_band {
        match unary_at(
            bytes,
            pos,
            0,
            FIRST_AC_MAX_UNARY_ONES as int,
            "MVS mode 5 低频 AC unary 字段不完整",
            "MVS mode 5 低频 AC unary 超过固定上限 ",
        ) {
            (Ok(n), p) => (Ok(Some(n)), p),
            (Err(e), p) => (Err(e), p),
        }
    } else {
        high_unary_at(bytes, pos, 0)
    }
}

/// How many bits follow the ones of a coefficient.
pub open spec fn ac_width(first_band: bool, quotient: int) -> int {
    if first_band {
        if quotient < 4 {
            2
        } else {
            3
        }
    } else if quotient == 0 {
        1
    } else if quotient == 1 {
        2
    } else {
        3
    }
}

/// The magnitude of a coefficient with these ones and this remainder.
pub open spec fn ac_magnitude(first_band: bool, quotient: int, remainder: int) -> int {
    if first_band {
        if quotient < 4 {
            quotient * 4 + remainder + 2
        } else {
            quotient * 8 + remainder - 14
        }
    } else if quotient == 0 {
        remainder + 2
    } else if quotient == 1 {
        remainder + 4
    } else {
        quotient * 8 + remainder - 8
    }
}

/// What one step of reading luma coefficients leaves.
#[verifier::ext_equal]
pub enum AcStep {
    /// The reading goes on at this zigzag place.
    Next { index: int, coefficients: Seq<i16> },
    /// The reading has ended.
    Done { coefficients: Seq<i16> },
    /// The stream was refused.
    Refused { error: VncError },
}

/// A coefficient that is not a short code: its ones, its remainder and its sign.
pub open spec fn large_step_at(
    bytes: Seq<u8>,
    pos: int,
    threshold: int,
    index: int,
    coefficients: Seq<i16>,
) -> (AcStep, int) {
    match ac_unary_at(bytes, pos, index <= 5) {
        (Err(e), p) => (AcStep::Refused { error: e }, p),
        (Ok(None), p) => (AcStep::Done { coefficients }, p),
        (Ok(Some(quotient)), p) => match crate::mvs_bitstream::read_at(
            bytes,
            p,
            ac_width(index <= 5, quotient as int),
        ) {
            (Err(e), p) => (
                AcStep::Refused {
                    error: crate::error::within("MVS mode 5 AC remainder 字段不完整", e),
                },
                p,
            ),
            (Ok(remainder), p) => match crate::mvs_bitstream::read_at(bytes, p, 1) {
                (Err(e), p) => (
                    AcStep::Refused { error: crate::error::within("MVS mode 5 AC 缺少符号位", e) },
                    p,
                ),
                (Ok(sign), p) => (
                    AcStep::Next {
                        index: index + 1,
                        coefficients: with_coefficient(
                            coefficients,
                            index,
                            signed(
                                ac_magnitude(index <= 5, quotient as int, remainder as int)
                                    * ac_factor(index, threshold),
                                sign != 0,
                            ),
                        ),
                    },
                    p,
                ),
            },
        },
    }
}

/// The end of the block, or a run of zeros.
pub open spec fn run_step_at(bytes: Seq<u8>, pos: int, index: int, coefficients: Seq<i16>) -> (
    AcStep,
    int,
) {
    match crate::mvs_bitstream::read_at(bytes, pos, 1) {
        (Err(e), p) => (
            AcStep::Refused { error: crate::error::within("MVS mode 5 AC EOB/run 位不完整", e) },
            p,
        ),
        (Ok(selected), p) => if selected == 0 {
            (AcStep::Done { coefficients }, p)
        } else {
            match crate::mvs_bitstream::read_at(bytes, p, 2) {
                (Err(e), p) => (
                    AcStep::Refused {
                        error: crate::error::within("MVS mode 5 AC run 选择字段不完整", e),
                    },
                    p,
                ),
                (Ok(group), p) => if group < 3 {
                    (AcStep::Next { index: index + 3 + group, coefficients }, p)
                } else {
                    match long_run_at(bytes, p, index + 6) {
                        (Err(e), p) => (AcStep::Refused { error: e }, p),
                        (Ok(landing), p) => (
                            AcStep::Next { index: landing as int, coefficients },
                            p,
                        ),
                    }
                },
            }
        },
    }
}

/// One step of reading luma coefficients.
pub open spec fn ac_step_at(
    bytes: Seq<u8>,
    pos: int,
    threshold: int,
    index: int,
    coefficients: Seq<i16>,
) -> (AcStep, int) {
    match crate::mvs_bitstream::read_at(bytes, pos, 1) {
        (Err(e), p) => (
            AcStep::Refused {
                error: crate::error::within("MVS mode 5 AC 缺少 coefficient prefix", e),
            },
            p,
        ),
        (Ok(prefix), p) => if prefix != 0 {
            large_step_at(bytes, p, threshold, index, coefficients)
        } else {
            match crate::mvs_bitstream::read_at(bytes, p, 2) {
                (Err(e), p) => (
                    AcStep::Refused {
                        error: crate::error::within("MVS mode 5 AC token 字段不完整", e),
                    },
                    p,
                ),
                (Ok(token), p) => if token == 0 {
                    (AcStep::Next { index: index + 1, coefficients }, p)
                } else if token == 1 {
                    run_step_at(bytes, p, index, coefficients)
                } else {
                    (
                        AcStep::Next {
                            index: index + 1,
                            coefficients: with_coefficient(
                                coefficients,
                                index,
                                signed(ac_factor(index, threshold), token == 3),
                            ),
                        },
                        p,
                    )
                },
            }
        },
    }
}

/// The luma coefficients from zigzag place `index` on, put into `coefficients`.
pub open spec fn luma_ac_at(
    bytes: Seq<u8>,
    pos: int,
    threshold: int,
    index: int,
    coefficients: Seq<i16>,
) -> (Result<Seq<i16>, VncError>, int)
    decreases 64 - index,
{
    if index >= 64 {
        (Ok(coefficients), pos)
    } else {
        match ac_step_at(bytes, pos, threshold, index, coefficients) {
            (AcStep::Refused { error }, p) => (Err(error), p),
            (AcStep::Done { coefficients }, p) => (Ok(coefficients), p),
            (AcStep::Next { index: next, coefficients }, p) => if index < next < 64 {
                luma_ac_at(bytes, p, threshold, next, coefficients)
            } else {
                (Ok(coefficients), p)
            },
        }
    }
}

/// Sixty-four zeros.
pub open spec fn zero_block() -> Seq<i16> {
    Seq::new(64, |i: int| 0i16)
}

/// Where a long run of zeros ends.
fn decode_long_run(reader: &mut BitReader<'_>, start: usize) -> (r: Result<usize, VncError>)
    requires
        old(reader).wf(),
        start < 80,
    ensures
        r == long_run_at(old(reader).bytes@, old(reader).position as int, start as int).0,
        final(reader).moved(
            *old(reader),
            long_run_at(old(reader).bytes@, old(reader).position as int, start as int).1,
        ),
        r matches Ok(n) ==> start <= n < 64,
{
    proof {
        crate::mvs_bitstream::lemma_read_bound(reader.bytes@, 0, 0);
    }
    let ghost goal = long_run_at(reader.bytes@, reader.position as int, start as int);
    let mut landing: usize = start;
    loop
        invariant
            reader.wf(),
            reader.bytes == old(reader).bytes,
            start <= landing < 80,
            crate::mvs_bitstream::two_to(3) == 8,
            goal == long_run_at(reader.bytes@, reader.position as int, landing as int),
            goal == long_run_at(old(reader).bytes@, old(reader).position as int, start as int),
        decreases 80 - landing,
    {
        let delta: u32 = context(reader.read_bits(3), "MVS mode 5 AC 扩展 run 字段不完整")?;
        landing = landing + delta as usize;
        if landing >= 64 {
            return Err(VncError::Text("MVS mode 5 AC 扩展 run 超过 coefficient 63"));
        }
        if delta != 7 {
            return Ok(landing);
        }
    }
}

/// Counts the ones of a coefficient of either band.
pub fn decode_ac_unary_ones(reader: &mut BitReader<'_>, first_band: bool) -> (r: Result<
    Option<usize>,
    VncError,
>)
    requires
        old(reader).wf(),
    ensures
        r == ac_unary_at(old(reader).bytes@, old(reader).position as int, first_band).0,
        final(reader).moved(
            *old(reader),
            ac_unary_at(old(reader).bytes@, old(reader).position as int, first_band).1,
        ),
        r matches Ok(Some(n)) ==> n <= 32,
{
    if first_band {
        return match decode_unary_ones(
            reader,
            FIRST_AC_MAX_UNARY_ONES,
            "MVS mode 5 低频 AC unary 字段不完整",
            "MVS mode 5 低频 AC unary 超过固定上限 ",
        ) {
            Ok(n) => Ok(Some(n)),
            Err(e) => Err(e),
        };
    }
    let ghost goal = high_unary_at(reader.bytes@, reader.position as int, 0);
    let mut ones: usize = 0;
    loop
        invariant
            reader.wf(),
            reader.bytes == old(reader).bytes,
            ones <= SECOND_AC_MAX_UNARY_ONES,
            !first_band,
            goal == high_unary_at(reader.bytes@, reader.position as int, ones as int),
            goal == high_unary_at(old(reader).bytes@, old(reader).position as int, 0),
        decreases SECOND_AC_MAX_UNARY_ONES - ones,
    {
        let bit: u32 = context(reader.read_bits(1), "MVS mode 5 高频 AC unary 字段不完整")?;
        if bit == 0 {
            return Ok(Some(ones));
        }
        if ones == SECOND_AC_MAX_UNARY_ONES {
            return Ok(None);
        }
        ones = ones + 1;
    }
}

/// Whether a step's answer and the coefficients it leaves are those of `step`.
pub open spec fn step_taken(
    r: Result<Option<usize>, VncError>,
    coefficients: Seq<i16>,
    step: AcStep,
) -> bool {
    match step {
        AcStep::Refused { error } => r == Err::<Option<usize>, VncError>(error),
        AcStep::Done { coefficients: c } => r == Ok::<Option<usize>, VncError>(None) && coefficients
            == c,
        AcStep::Next { index, coefficients: c } => (r matches Ok(Some(n)) && n == index)
            && coefficients == c,
    }
}

/// The factor of the coefficient at zigzag place `index`.
fn luma_ac_factor(index: usize, threshold: u8) -> (r: i16)
    requires
        1 <= index < 64,
    ensures
        r == ac_factor(index as int, threshold as int),
        r == 2 || r == 8 || r == 16,
{
    match luma_ac_shift(index, threshold) {
        Ok(1) => 2,
        Ok(3) => 8,
        _ => 16,
    }
}

/// Puts a signed value at zigzag place `index`.
fn put_coefficient(coefficients: &mut [i16; 64], index: usize, magnitude: i16, negative: bool)
    requires
        index < 64,
        0 <= magnitude,
    ensures
        final(coefficients)@ == with_coefficient(
            old(coefficients)@,
            index as int,
            signed(magnitude as int, negative),
        ),
{
    proof {
        crate::mvs_tables::lemma_natural_order_bound(index as int);
    }
    let place: usize = APPLE_NATURAL_ORDER[index];
    coefficients[place] = if negative {
        0 - magnitude
    } else {
        magnitude
    };
}

/// Reads a coefficient that is not a short code.
fn decode_large_coefficient(
    reader: &mut BitReader<'_>,
    threshold: u8,
    index: usize,
    coefficients: &mut [i16; 64],
) -> (r: Result<Option<usize>, VncError>)
    requires
        old(reader).wf(),
        1 <= index < 64,
    ensures
        step_taken(
            r,
            final(coefficients)@,
            large_step_at(
                old(reader).bytes@,
                old(reader).position as int,
                threshold as int,
                index as int,
                old(coefficients)@,
            ).0,
        ),
        final(reader).moved(
            *old(reader),
            large_step_at(
                old(reader).bytes@,
                old(reader).position as int,
                threshold as int,
                index as int,
                old(coefficients)@,
            ).1,
        ),
{
    proof {
        crate::mvs_bitstream::lemma_read_bound(reader.bytes@, 0, 0);
    }
    let first_band: bool = index <= 5;
    let quotient: usize = match decode_ac_unary_ones(reader, first_band)? {
        Some(quotient) => quotient,
        None => {
            return Ok(None);
        },
    };
    let width: u8 = if first_band {
        if quotient < 4 {
            2
        } else {
            3
        }
    } else if quotient == 0 {
        1
    } else if quotient == 1 {
        2
    } else {
        3
    };
    let remainder: i16 = context(
        reader.read_bits(width),
        "MVS mode 5 AC remainder 字段不完整",
    )? as i16;
    let quotient: i16 = quotient as i16;
    let magnitude: i16 = if first_band {
        if quotient < 4 {
            quotient * 4 + remainder + 2
        } else {
            quotient * 8 + remainder - 14
        }
    } else if quotient == 0 {
        remainder + 2
    } else if quotient == 1 {
        remainder + 4
    } else {
        quotient * 8 + remainder - 8
    };
    let negative: bool = context(reader.read_bits(1), "MVS mode 5 AC 缺少符号位")? != 0;
    let factor: i16 = luma_ac_factor(index, threshold);
    assert(0 <= magnitude * factor <= 4800) by (nonlinear_arith)
        requires
            0 <= magnitude <= 300,
            0 <= factor <= 16,
    ;
    put_coefficient(coefficients, index, magnitude * factor, negative);
    Ok(Some(index + 1))
}

/// Reads the end of the block or a run of zeros.
fn decode_run(reader: &mut BitReader<'_>, index: usize) -> (r: Result<Option<usize>, VncError>)
    requires
        old(reader).wf(),
        1 <= index < 64,
    ensures
        forall|coefficients: Seq<i16>|
            step_taken(
                r,
                coefficients,
                #[trigger] run_step_at(
                    old(reader).bytes@,
                    old(reader).position as int,
                    index as int,
                    coefficients,
                ).0,
            ),
        forall|coefficients: Seq<i16>|
            final(reader).moved(
                *old(reader),
                #[trigger] run_step_at(
                    old(reader).bytes@,
                    old(reader).position as int,
                    index as int,
                    coefficients,
                ).1,
            ),
        r matches Ok(Some(n)) ==> index < n < 80,
{
    proof {
        crate::mvs_bitstream::lemma_read_bound(reader.bytes@, 0, 0);
    }
    let selected: u32 = context(reader.read_bits(1), "MVS mode 5 AC EOB/run 位不完整")?;
    if selected == 0 {
        return Ok(None);
    }
    let group: u32 = context(reader.read_bits(2), "MVS mode 5 AC run 选择字段不完整")?;
    if group < 3 {
        return Ok(Some(index + 3 + group as usize));
    }
    let landing: usize = decode_long_run(reader, index + 6)?;
    Ok(Some(landing))
}

/// Takes one step of reading luma coefficients: the next zigzag place, or nothing at the end.
fn decode_ac_step(
    reader: &mut BitReader<'_>,
    threshold: u8,
    index: usize,
    coefficients: &mut [i16; 64],
) -> (r: Result<Option<usize>, VncError>)
    requires
        old(reader).wf(),
        1 <= index < 64,
    ensures
        step_taken(
            r,
            final(coefficients)@,
            ac_step_at(
                old(reader).bytes@,
                old(reader).position as int,
                threshold as int,
                index as int,
                old(coefficients)@,
            ).0,
        ),
        final(reader).moved(
            *old(reader),
            ac_step_at(
                old(reader).bytes@,
                old(reader).position as int,
                threshold as int,
                index as int,
                old(coefficients)@,
            ).1,
        ),
        r matches Ok(Some(n)) ==> index < n < 80,
{
    proof {
        crate::mvs_bitstream::lemma_read_bound(reader.bytes@, 0, 0);
    }
    let prefix: u32 = context(reader.read_bits(1), "MVS mode 5 AC 缺少 coefficient prefix")?;
    if prefix != 0 {
        return decode_large_coefficient(reader, threshold, index, coefficients);
    }
    let token: u32 = context(reader.read_bits(2), "MVS mode 5 AC token 字段不完整")?;
    if token == 0 {
        return Ok(Some(index + 1));
    }
    if token == 1 {
        return decode_run(reader, index);
    }
    let factor: i16 = luma_ac_factor(index, threshold);
    put_coefficient(coefficients, index, factor, token == 3);
    Ok(Some(index + 1))
}

/// Reads the luma coefficients of a block after the first.
pub fn decode_luma_ac_rice(reader: &mut BitReader<'_>, threshold: u8) -> (r: Result<
    [i16; 64],
    VncError,
>)
    requires
        old(reader).wf(),
    ensures
        match luma_ac_at(
            old(reader).bytes@,
            old(reader).position as int,
            threshold as int,
            1,
            zero_block(),
        ).0 {
            Ok(c) => r matches Ok(a) && a@ == c,
            Err(e) => r == Err::<[i16; 64], VncError>(e),
        },
        final(reader).moved(
            *old(reader),
            luma_ac_at(
                old(reader).bytes@,
                old(reader).position as int,
                threshold as int,
                1,
                zero_block(),
            ).1,
        ),
{
    let mut coefficients: [i16; 64] = [0; 64];
    let mut index: usize = 1;
    let ghost goal = luma_ac_at(
        reader.bytes@,
        reader.position as int,
        threshold as int,
        1,
        zero_block(),
    );
    assert(coefficients@ =~= zero_block());
    while index < 64
        invariant
            reader.wf(),
            reader.bytes == old(reader).bytes,
            1 <= index < 80,
            goal == luma_ac_at(
                reader.bytes@,
                reader.position as int,
                threshold as int,
                index as int,
                coefficients@,
            ),
            goal == luma_ac_at(
                old(reader).bytes@,
                old(reader).position as int,
                threshold as int,
                1,
                zero_block(),
            ),
        decreases 80 - index,
    {
        match decode_ac_step(reader, threshold, index, &mut coefficients)? {
            Some(next) => {
                index = next;
            },
            None => {
                return Ok(coefficients);
            },
        }
    }
    Ok(coefficients)
}

} // verus!
