//! The refinement of kept coefficients by a partial record.

use vstd::prelude::*;
use crate::error::{context, VncError};
use crate::mvs_bitstream::BitReader;
use crate::mvs_cache::place_in_block;
use crate::mvs_huffman::decode_partial_ac;
use crate::mvs_pixels::{inverse_dct_8x8, ycbcr_8_to_rgb};
use crate::mvs_rice::decode_dc_rice;
use crate::mvs_tables::{apple_chroma_ac_huffman, AppleHuffmanTable, APPLE_NATURAL_ORDER};
use crate::mvs_tiles::{ModeFiveCoefficients, SavedCoefficientSeed};
use crate::mvs_wire::MvsTables;

verus! {

/// `saved` moved away from zero by `delta`, in eight-bit arithmetic.
pub open spec fn away_from_zero(saved: i8, delta: i8) -> i8 {
    if saved < 0 {
        saved.wrapping_sub(delta)
    } else {
        saved.wrapping_add(delta)
    }
}

/// What becomes of a coefficient that was zero: it stays, or becomes plus or minus one.
pub open spec fn refined_zero_at(bytes: Seq<u8>, pos: int) -> (Result<i8, VncError>, int) {
    match crate::mvs_bitstream::read_at(bytes, pos, 1) {
        (Err(e), p) => (Err(crate::error::within("MVS type-1 saved-zero 缺少 present 位", e)), p),
        (Ok(present), p) => if present == 0 {
            (Ok(0), p)
        } else {
            match crate::mvs_bitstream::read_at(bytes, p, 1) {
                (Err(e), p) => (
                    Err(crate::error::within("MVS type-1 saved-zero 缺少 sign 位", e)),
                    p,
                ),
                (Ok(sign), p) => (
                    Ok(
                        if sign == 0 {
                            1i8
                        } else {
                            -1i8
                        },
                    ),
                    p,
                ),
            }
        },
    }
}

/// What becomes of a coefficient that is refined by `width` bits, or, where it was zero, by a
/// Rice-coded value.
pub open spec fn refined_byte_at(bytes: Seq<u8>, pos: int, saved: i8, width: int) -> (
    Result<i8, VncError>,
    int,
) {
    if saved == 0 {
        match crate::mvs_rice::dc_at(bytes, pos) {
            (Err(e), p) => (
                Err(crate::error::within("MVS type-1 saved-zero Rice 解码失败", e)),
                p,
            ),
            (Ok(value), p) => (Ok(value as i8), p),
        }
    } else {
        match crate::mvs_bitstream::read_at(bytes, pos, width) {
            (Err(e), p) => (
                Err(crate::error::within("MVS type-1 saved coefficient delta 不完整", e)),
                p,
            ),
            (Ok(delta), p) => (Ok(away_from_zero(saved, delta as i8)), p),
        }
    }
}

/// What becomes of a coefficient that is refined by one bit, or, where it was zero, as a zero.
pub open spec fn refined_by_one_bit_at(
    bytes: Seq<u8>,
    pos: int,
    saved: i8,
    incomplete: &'static str,
) -> (Result<i8, VncError>, int) {
    if saved == 0 {
        refined_zero_at(bytes, pos)
    } else {
        match crate::mvs_bitstream::read_at(bytes, pos, 1) {
            (Err(e), p) => (Err(crate::error::within(incomplete, e)), p),
            (Ok(step), p) => (Ok(away_from_zero(saved, step as i8)), p),
        }
    }
}

/// What becomes of the luma coefficient at zigzag place `scan`.
pub open spec fn refined_luma_at(
    bytes: Seq<u8>,
    pos: int,
    saved: i8,
    scan: int,
    threshold: int,
) -> (Result<i8, VncError>, int) {
    if threshold < 15 {
        refined_byte_at(
            bytes,
            pos,
            saved,
            if scan < threshold {
                3
            } else {
                4
            },
        )
    } else if scan < threshold {
        refined_by_one_bit_at(
            bytes,
            pos,
            saved,
            "MVS type-1 saved coefficient one-bit delta 不完整",
        )
    } else {
        refined_byte_at(bytes, pos, saved, 3)
    }
}

/// The luma coefficients with those from zigzag place `scan` up to `extent` refined.
pub open spec fn refined_lumas_at(
    bytes: Seq<u8>,
    pos: int,
    seed: Seq<i8>,
    threshold: int,
    extent: int,
    scan: int,
    done: Seq<i8>,
) -> (Result<Seq<i8>, VncError>, int)
    decreases extent - scan,
{
    if scan >= extent {
        (Ok(done), pos)
    } else {
        match refined_luma_at(bytes, pos, seed[scan], scan, threshold) {
            (Err(e), p) => (Err(e), p),
            (Ok(value), p) => refined_lumas_at(
                bytes,
                p,
                seed,
                threshold,
                extent,
                scan + 1,
                done.update(scan, value),
            ),
        }
    }
}

/// The refined luma coefficients: six bits say how many there are, the first stays as it is, and
/// those past the end are zero.
pub open spec fn refined_y_at(bytes: Seq<u8>, pos: int, seed: SavedCoefficientSeed) -> (
    Result<Seq<i8>, VncError>,
    int,
) {
    match crate::mvs_bitstream::read_at(bytes, pos, 6) {
        (Err(e), p) => (Err(crate::error::within("MVS type-1 opcode 1 缺少 Y extent", e)), p),
        (Ok(extent), p) => refined_lumas_at(
            bytes,
            p,
            seed.y@,
            seed.selected_threshold as int,
            extent + 1,
            1,
            Seq::new(64, |i: int| 0i8).update(0, seed.y[0]),
        ),
    }
}

/// The chroma coefficients of a component: the refined DC, then Huffman-coded others.
pub open spec fn refined_chroma_at(bytes: Seq<u8>, pos: int, dc: i8, extent: int) -> (
    Result<Seq<i16>, VncError>,
    int,
) {
    match refined_by_one_bit_at(bytes, pos, dc, "MVS type-1 chroma DC delta 不完整") {
        (Err(e), p) => (Err(e), p),
        (Ok(refined), p) => {
            let told = crate::mvs_huffman::partial_ac_at(
                bytes,
                p,
                crate::mvs_rice::zero_block().update(0, refined as i16),
                1,
                extent,
                0,
                crate::mvs_tables::APPLE_CHROMA_AC_BITS@,
                crate::mvs_tables::APPLE_CHROMA_AC_VALUES@,
            );
            match told.0 {
                Err(e) => (Err(e), told.2),
                Ok(_) => (Ok(told.1), told.2),
            }
        },
    }
}

/// The bytes of a cache entry with these coefficients.
pub open spec fn entry_of(y: Seq<i8>, cb: Seq<i16>, cr: Seq<i16>) -> [i8; 99] {
    crate::mvs_tables::array_of(
        y + crate::mvs_tiles::zigzag_bytes(cb, 15) + crate::mvs_tiles::zigzag_bytes(cr, 20),
    )
}

/// The cache entry that the refinement of `seed` makes.
#[verifier::opaque]
pub open spec fn partial_entry_at(
    bytes: Seq<u8>,
    pos: int,
    seed: SavedCoefficientSeed,
    cb_extent: int,
    cr_extent: int,
) -> (Result<[i8; 99], VncError>, int) {
    match refined_y_at(bytes, pos, seed) {
        (Err(e), p) => (Err(e), p),
        (Ok(y), p) => if seed.cb_count != 1 || seed.cr_count != 1 {
            (Err(VncError::Text("MVS type-1 opcode 1 saved Cb/Cr count 必须均为 1")), p)
        } else {
            match refined_chroma_at(bytes, p, seed.cb_dc, cb_extent) {
                (Err(e), p) => (Err(e), p),
                (Ok(cb), p) => match refined_chroma_at(bytes, p, seed.cr_dc, cr_extent) {
                    (Err(e), p) => (Err(e), p),
                    (Ok(cr), p) => (Ok(entry_of(y, cb, cr)), p),
                },
            }
        },
    }
}

/// `saved` moved away from zero by `delta`.
fn move_away(saved: i8, delta: i8) -> (r: i8)
    ensures
        r == away_from_zero(saved, delta),
{
    if saved < 0 {
        saved.wrapping_sub(delta)
    } else {
        saved.wrapping_add(delta)
    }
}

/// Reads what becomes of a coefficient that was zero.
pub fn refine_saved_zero(reader: &mut BitReader<'_>) -> (r: Result<i8, VncError>)
    requires
        old(reader).wf(),
    ensures
        r == refined_zero_at(old(reader).bytes@, old(reader).position as int).0,
        final(reader).moved(
            *old(reader),
            refined_zero_at(old(reader).bytes@, old(reader).position as int).1,
        ),
{
    let present: u32 = context(reader.read_bits(1), "MVS type-1 saved-zero 缺少 present 位")?;
    if present == 0 {
        return Ok(0);
    }
    let sign: u32 = context(reader.read_bits(1), "MVS type-1 saved-zero 缺少 sign 位")?;
    if sign == 0 {
        Ok(1)
    } else {
        Ok(-1)
    }
}

/// Reads what becomes of a coefficient that is refined by `width` bits.
pub fn refine_saved_byte(reader: &mut BitReader<'_>, saved: i8, width: u8) -> (r: Result<i8, VncError>)
    requires
        old(reader).wf(),
        width == 3 || width == 4,
    ensures
        r == refined_byte_at(
            old(reader).bytes@,
            old(reader).position as int,
            saved,
            width as int,
        ).0,
        final(reader).moved(
            *old(reader),
            refined_byte_at(
                old(reader).bytes@,
                old(reader).position as int,
                saved,
                width as int,
            ).1,
        ),
{
    if saved == 0 {
        let value: i16 = context(
            decode_dc_rice(reader),
            "MVS type-1 saved-zero Rice 解码失败",
        )?;
        return Ok(value as i8);
    }
    let delta: u32 = context(
        reader.read_bits(width),
        "MVS type-1 saved coefficient delta 不完整",
    )?;
    Ok(move_away(saved, delta as i8))
}

fn refine_by_one_bit(reader: &mut BitReader<'_>, saved: i8, incomplete: &'static str) -> (r: Result<
    i8,
    VncError,
>)
    requires
        old(reader).wf(),
    ensures
        r == refined_by_one_bit_at(
            old(reader).bytes@,
            old(reader).position as int,
            saved,
            incomplete,
        ).0,
        final(reader).moved(
            *old(reader),
            refined_by_one_bit_at(
                old(reader).bytes@,
                old(reader).position as int,
                saved,
                incomplete,
            ).1,
        ),
{
    if saved == 0 {
        return refine_saved_zero(reader);
    }
    let step: u32 = context(reader.read_bits(1), incomplete)?;
    Ok(move_away(saved, step as i8))
}

/// Reads the refined chroma DC.
pub fn refine_saved_chroma_dc(reader: &mut BitReader<'_>, saved: i8) -> (r: Result<i16, VncError>)
    requires
        old(reader).wf(),
    ensures
        ({
            let told = refined_by_one_bit_at(
                old(reader).bytes@,
                old(reader).position as int,
                saved,
                "MVS type-1 chroma DC delta 不完整",
            );
            &&& match told.0 {
                Ok(v) => r == Ok::<i16, VncError>(v as i16),
                Err(e) => r == Err::<i16, VncError>(e),
            }
            &&& final(reader).moved(*old(reader), told.1)
        }),
{
    match refine_by_one_bit(reader, saved, "MVS type-1 chroma DC delta 不完整") {
        Ok(v) => Ok(v as i16),
        Err(e) => Err(e),
    }
}

/// Reads the refined luma coefficients.
pub fn refine_saved_y(reader: &mut BitReader<'_>, seed: &SavedCoefficientSeed) -> (r: Result<
    [i8; 64],
    VncError,
>)
    requires
        old(reader).wf(),
    ensures
        match refined_y_at(old(reader).bytes@, old(reader).position as int, *seed).0 {
            Ok(y) => r matches Ok(a) && a@ == y,
            Err(e) => r == Err::<[i8; 64], VncError>(e),
        },
        final(reader).moved(
            *old(reader),
            refined_y_at(old(reader).bytes@, old(reader).position as int, *seed).1,
        ),
{
    let ghost goal = refined_y_at(reader.bytes@, reader.position as int, *seed);
    proof {
        crate::mvs_bitstream::lemma_read_bound(reader.bytes@, 0, 0);
    }
    let extent: usize = context(
        reader.read_bits(6),
        "MVS type-1 opcode 1 缺少 Y extent",
    )? as usize + 1;
    let threshold: usize = seed.selected_threshold as usize;
    let mut saved: [i8; 64] = [0; 64];
    saved[0] = seed.y[0];
    assert(saved@ =~= Seq::new(64, |i: int| 0i8).update(0, seed.y[0]));
    let mut scan: usize = 1;
    while scan < extent
        invariant
            1 <= scan <= extent <= 64,
            reader.wf(),
            reader.bytes == old(reader).bytes,
            threshold == seed.selected_threshold,
            goal == refined_y_at(old(reader).bytes@, old(reader).position as int, *seed),
            goal == refined_lumas_at(
                reader.bytes@,
                reader.position as int,
                seed.y@,
                threshold as int,
                extent as int,
                scan as int,
                saved@,
            ),
        decreases extent - scan,
    {
        let original: i8 = seed.y[scan];
        let value: i8 = if threshold < 15 {
            if scan < threshold {
                refine_saved_byte(reader, original, 3)?
            } else {
                refine_saved_byte(reader, original, 4)?
            }
        } else if scan < threshold {
            refine_by_one_bit(
                reader,
                original,
                "MVS type-1 saved coefficient one-bit delta 不完整",
            )?
        } else {
            refine_saved_byte(reader, original, 3)?
        };
        saved[scan] = value;
        scan = scan + 1;
    }
    Ok(saved)
}

fn refine_chroma(
    reader: &mut BitReader<'_>,
    dc: i8,
    extent: usize,
    table: &AppleHuffmanTable,
) -> (r: Result<[i16; 64], VncError>)
    requires
        old(reader).wf(),
        extent <= 64,
        table.bits@ == crate::mvs_tables::APPLE_CHROMA_AC_BITS@,
        table.values@ == crate::mvs_tables::APPLE_CHROMA_AC_VALUES@,
    ensures
        match refined_chroma_at(
            old(reader).bytes@,
            old(reader).position as int,
            dc,
            extent as int,
        ).0 {
            Ok(c) => r matches Ok(a) && a@ == c,
            Err(e) => r == Err::<[i16; 64], VncError>(e),
        },
        final(reader).moved(
            *old(reader),
            refined_chroma_at(
                old(reader).bytes@,
                old(reader).position as int,
                dc,
                extent as int,
            ).1,
        ),
{
    let mut block: [i16; 64] = [0; 64];
    block[0] = refine_saved_chroma_dc(reader, dc)?;
    assert(block@ =~= crate::mvs_rice::zero_block().update(0, block[0]));
    decode_partial_ac(reader, &mut block, 1, extent, table)?;
    Ok(block)
}

/// The colors of the 64 pixels of a tile, row by row.
pub open spec fn tile_colors(
    coefficients: ModeFiveCoefficients,
    tables: MvsTables,
    pixel: int,
) -> Seq<u8> {
    crate::mvs_pixels::rgb_of(
        crate::mvs_pixels::block_samples(coefficients.y@, tables.luminance@)[pixel],
        crate::mvs_pixels::block_samples(coefficients.cb@, tables.chrominance@)[pixel],
        crate::mvs_pixels::block_samples(coefficients.cr@, tables.chrominance@)[pixel],
    )
}

/// Renders a tile into a buffer of its own. Partial records publish no pixels, so the buffer goes
/// no further.
pub fn run_partial_idct_scratch(coefficients: &ModeFiveCoefficients, tables: &MvsTables) -> (r: [u8;
    192])
    ensures
        forall|i: int|
            0 <= i < 192 ==> #[trigger] r[i] == tile_colors(*coefficients, *tables, i / 3)[i % 3],
{
    let y: [u8; 64] = inverse_dct_8x8(&coefficients.y, &tables.luminance);
    let cb: [u8; 64] = inverse_dct_8x8(&coefficients.cb, &tables.chrominance);
    let cr: [u8; 64] = inverse_dct_8x8(&coefficients.cr, &tables.chrominance);
    let mut scratch: [u8; 192] = [0; 192];
    let mut pixel: usize = 0;
    while pixel < 64
        invariant
            pixel <= 64,
            y@ == crate::mvs_pixels::block_samples(coefficients.y@, tables.luminance@),
            cb@ == crate::mvs_pixels::block_samples(coefficients.cb@, tables.chrominance@),
            cr@ == crate::mvs_pixels::block_samples(coefficients.cr@, tables.chrominance@),
            forall|i: int|
                0 <= i < pixel * 3 ==> #[trigger] scratch[i] == tile_colors(
                    *coefficients,
                    *tables,
                    i / 3,
                )[i % 3],
        decreases 64 - pixel,
    {
        let color: [u8; 3] = ycbcr_8_to_rgb(y[pixel], cb[pixel], cr[pixel]);
        assert(color@ == tile_colors(*coefficients, *tables, pixel as int));
        scratch[pixel * 3] = color[0];
        scratch[pixel * 3 + 1] = color[1];
        scratch[pixel * 3 + 2] = color[2];
        pixel = pixel + 1;
    }
    scratch
}

/// Reads the refinement of `seed` and makes a cache entry of it.
pub fn prepare_partial_cache_entry(
    reader: &mut BitReader<'_>,
    seed: &SavedCoefficientSeed,
    cb_extent: usize,
    cr_extent: usize,
    tables: &MvsTables,
) -> (r: Result<[i8; 99], VncError>)
    requires
        old(reader).wf(),
        cb_extent <= 64,
        cr_extent <= 64,
    ensures
        r == partial_entry_at(
            old(reader).bytes@,
            old(reader).position as int,
            *seed,
            cb_extent as int,
            cr_extent as int,
        ).0,
        final(reader).moved(
            *old(reader),
            partial_entry_at(
                old(reader).bytes@,
                old(reader).position as int,
                *seed,
                cb_extent as int,
                cr_extent as int,
            ).1,
        ),
{
    proof {
        reveal(partial_entry_at);
    }
    let saved_y: [i8; 64] = refine_saved_y(reader, seed)?;
    if seed.cb_count != 1 || seed.cr_count != 1 {
        return Err(VncError::Text("MVS type-1 opcode 1 saved Cb/Cr count 必须均为 1"));
    }
    let table: AppleHuffmanTable = apple_chroma_ac_huffman();
    let cb: [i16; 64] = refine_chroma(reader, seed.cb_dc, cb_extent, &table)?;
    let cr: [i16; 64] = refine_chroma(reader, seed.cr_dc, cr_extent, &table)?;
    let coefficients: ModeFiveCoefficients = ModeFiveCoefficients {
        y: place_in_block(saved_y.as_slice(), 0, 64),
        cb,
        cr,
    };
    let _scratch: [u8; 192] = run_partial_idct_scratch(&coefficients, tables);
    let mut entry: [i8; 99] = [0; 99];
    let ghost whole = saved_y@ + crate::mvs_tiles::zigzag_bytes(cb@, 15)
        + crate::mvs_tiles::zigzag_bytes(cr@, 20);
    let mut i: usize = 0;
    while i < 64
        invariant
            i <= 64,
            whole == saved_y@ + crate::mvs_tiles::zigzag_bytes(cb@, 15)
                + crate::mvs_tiles::zigzag_bytes(cr@, 20),
            forall|j: int| 0 <= j < i ==> #[trigger] entry[j] == whole[j],
        decreases 64 - i,
    {
        entry[i] = saved_y[i];
        i = i + 1;
    }
    i = 0;
    while i < 15
        invariant
            i <= 15,
            whole == saved_y@ + crate::mvs_tiles::zigzag_bytes(cb@, 15)
                + crate::mvs_tiles::zigzag_bytes(cr@, 20),
            forall|j: int| 0 <= j < 64 + i ==> #[trigger] entry[j] == whole[j],
        decreases 15 - i,
    {
        proof {
            crate::mvs_tables::lemma_natural_order_bound(i as int);
        }
        let place: usize = APPLE_NATURAL_ORDER[i];
        entry[64 + i] = cb[place] as i8;
        i = i + 1;
    }
    i = 0;
    while i < 20
        invariant
            i <= 20,
            whole == saved_y@ + crate::mvs_tiles::zigzag_bytes(cb@, 15)
                + crate::mvs_tiles::zigzag_bytes(cr@, 20),
            forall|j: int| 0 <= j < 79 + i ==> #[trigger] entry[j] == whole[j],
        decreases 20 - i,
    {
        proof {
            crate::mvs_tables::lemma_natural_order_bound(i as int);
        }
        let place: usize = APPLE_NATURAL_ORDER[i];
        entry[79 + i] = cr[place] as i8;
        i = i + 1;
    }
    proof {
        assert(entry@ =~= whole);
        crate::mvs_tables::lemma_array_of(entry);
    }
    Ok(entry)
}

} // verus!
