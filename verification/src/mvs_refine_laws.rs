//! What a partial record makes of what a full-frame record left: kept coefficients are refined, and
//! what was refined is what is shown later.

use vstd::prelude::*;
use crate::error::VncError;
use crate::mvs_bitstream;
use crate::mvs_bitstream::two_to;
use crate::mvs_code_laws;
use crate::mvs_partial;
use crate::mvs_rice;
use crate::mvs_tables::APPLE_NATURAL_ORDER;
use crate::mvs_tiles::SavedCoefficientSeed;

verus! {

/// There is an array of any 64 elements.
pub proof fn lemma_array_64<T>(s: Seq<T>)
    requires
        s.len() == 64,
    ensures
        crate::mvs_tables::array_of::<T, 64>(s)@ == s,
{
    let a: [T; 64] = [
        s[0], s[1], s[2], s[3], s[4], s[5], s[6], s[7], s[8], s[9], s[10], s[11], s[12], s[13],
        s[14], s[15], s[16], s[17], s[18], s[19], s[20], s[21], s[22], s[23], s[24], s[25], s[26],
        s[27], s[28], s[29], s[30], s[31], s[32], s[33], s[34], s[35], s[36], s[37], s[38], s[39],
        s[40], s[41], s[42], s[43], s[44], s[45], s[46], s[47], s[48], s[49], s[50], s[51], s[52],
        s[53], s[54], s[55], s[56], s[57], s[58], s[59], s[60], s[61], s[62], s[63],
    ];
    assert(a@ =~= s);
}

/// There is an array of any 99 elements.
pub proof fn lemma_array_99<T>(s: Seq<T>)
    requires
        s.len() == 99,
    ensures
        crate::mvs_tables::array_of::<T, 99>(s)@ == s,
{
    let a: [T; 99] = [
        s[0], s[1], s[2], s[3], s[4], s[5], s[6], s[7], s[8], s[9], s[10], s[11], s[12], s[13],
        s[14], s[15], s[16], s[17], s[18], s[19], s[20], s[21], s[22], s[23], s[24], s[25], s[26],
        s[27], s[28], s[29], s[30], s[31], s[32], s[33], s[34], s[35], s[36], s[37], s[38], s[39],
        s[40], s[41], s[42], s[43], s[44], s[45], s[46], s[47], s[48], s[49], s[50], s[51], s[52],
        s[53], s[54], s[55], s[56], s[57], s[58], s[59], s[60], s[61], s[62], s[63], s[64], s[65],
        s[66], s[67], s[68], s[69], s[70], s[71], s[72], s[73], s[74], s[75], s[76], s[77], s[78],
        s[79], s[80], s[81], s[82], s[83], s[84], s[85], s[86], s[87], s[88], s[89], s[90], s[91],
        s[92], s[93], s[94], s[95], s[96], s[97], s[98],
    ];
    assert(a@ =~= s);
}

/// The distance of a number from zero.
pub open spec fn magnitude(value: int) -> int {
    if value < 0 {
        -value
    } else {
        value
    }
}

/// Whether a number is another one moved away from zero by `delta`, on its side of zero.
pub open spec fn grown(saved: int, delta: int, refined: int) -> bool {
    &&& magnitude(refined) == magnitude(saved) + delta
    &&& (refined < 0) == (saved < 0)
}

/// A kept coefficient grows by exactly the number that was read and never changes its sign, and the
/// opposite coefficient becomes the opposite; where the sum does not fit eight bits it is taken
/// modulo 256.
pub proof fn law_refinement_grows(bytes: Seq<u8>, pos: int, saved: i8, width: int, delta: int)
    requires
        saved != 0,
        1 <= width <= 4,
        0 <= delta < two_to(width),
        mvs_code_laws::holds(bytes, pos, mvs_code_laws::digits(delta, width)),
    ensures
        ({
            let (r, end) = mvs_partial::refined_byte_at(bytes, pos, saved, width);
            let (opposite, _) = mvs_partial::refined_byte_at(bytes, pos, (-saved) as i8, width);
            &&& r is Ok
            &&& end == pos + width
            &&& magnitude(saved as int) + delta <= 127 ==> grown(
                saved as int,
                delta,
                (r->Ok_0) as int,
            )
            &&& magnitude(saved as int) + delta <= 127 ==> opposite == Ok::<i8, VncError>(
                (-(r->Ok_0)) as i8,
            )
            &&& ((r->Ok_0) - (if saved < 0 {
                saved - delta
            } else {
                saved + delta
            })) % 256 == 0
        }),
        width == 1 ==> forall|incomplete: &'static str|
            #[trigger] mvs_partial::refined_by_one_bit_at(bytes, pos, saved, incomplete)
                == mvs_partial::refined_byte_at(bytes, pos, saved, 1),
{
    reveal_with_fuel(two_to, 5);
    mvs_code_laws::lemma_read(bytes, pos, delta, width);
}

/// A kept zero stays or becomes one of either sign by its short code, and takes any DC difference
/// that fits eight bits by its long one.
pub proof fn law_zero_is_refined(
    bytes: Seq<u8>,
    pos: int,
    negative: bool,
    width: int,
    incomplete: &'static str,
)
    ensures
        mvs_code_laws::holds(bytes, pos, seq![false]) ==> mvs_partial::refined_by_one_bit_at(
            bytes,
            pos,
            0,
            incomplete,
        ) == (Ok::<i8, VncError>(0), pos + 1),
        mvs_code_laws::holds(bytes, pos, seq![true, negative])
            ==> mvs_partial::refined_by_one_bit_at(bytes, pos, 0, incomplete) == (
            Ok::<i8, VncError>(mvs_code_laws::with_sign(1, negative) as i8),
            pos + 2,
        ),
        mvs_rice::dc_at(bytes, pos).0 matches Ok(value) ==> -128 <= value <= 127
            ==> mvs_partial::refined_byte_at(bytes, pos, 0, width) == (
            Ok::<i8, VncError>(value as i8),
            mvs_rice::dc_at(bytes, pos).1,
        ),
{
    if mvs_code_laws::holds(bytes, pos, seq![false]) {
        mvs_code_laws::lemma_read_bit(bytes, pos, false);
    }
    if mvs_code_laws::holds(bytes, pos, seq![true, negative]) {
        assert(seq![true, negative] =~= seq![true] + seq![negative]);
        mvs_code_laws::lemma_split(bytes, pos, seq![true], seq![negative]);
        mvs_code_laws::lemma_read_bit(bytes, pos, true);
        mvs_code_laws::lemma_read_bit(bytes, pos + 1, negative);
    }
}

/// A partial record adds the digits that the full-frame record left out: a coefficient that was
/// scaled by so many bits is refined by as many, so that dividing by the scale gives back what the
/// full-frame record told.
pub proof fn law_refinement_fills_the_scale(
    bytes: Seq<u8>,
    pos: int,
    level: int,
    scan: int,
    threshold: int,
    delta: int,
)
    requires
        1 <= scan < 64,
        0 <= threshold,
        level != 0,
        0 <= delta < mvs_code_laws::scale(scan, threshold),
        magnitude(level) * mvs_code_laws::scale(scan, threshold) + delta <= 127,
        mvs_code_laws::holds(
            bytes,
            pos,
            mvs_code_laws::digits(delta, mvs_rice::ac_shift(scan, threshold)),
        ),
    ensures
        ({
            let scale = mvs_code_laws::scale(scan, threshold);
            let (r, end) = mvs_partial::refined_luma_at(
                bytes,
                pos,
                (level * scale) as i8,
                scan,
                threshold,
            );
            &&& r is Ok
            &&& end == pos + mvs_rice::ac_shift(scan, threshold)
            &&& grown(level * scale, delta, (r->Ok_0) as int)
            &&& magnitude((r->Ok_0) as int) / scale == magnitude(level)
        }),
{
    let scale = mvs_code_laws::scale(scan, threshold);
    let shift = mvs_rice::ac_shift(scan, threshold);
    mvs_code_laws::lemma_scale(scan, threshold);
    let kept = level * scale;
    let m = magnitude(level);
    assert(magnitude(kept) == m * scale && kept != 0 && (kept < 0) == (level < 0)) by {
        assert((-level) * scale == -(level * scale)) by (nonlinear_arith);
        assert(level > 0 ==> level * scale > 0) by (nonlinear_arith)
            requires
                scale > 0,
        ;
        assert(level < 0 ==> level * scale < 0) by (nonlinear_arith)
            requires
                scale > 0,
        ;
    }
    law_refinement_grows(bytes, pos, kept as i8, shift, delta);
    if shift == 1 {
        assert(mvs_partial::refined_by_one_bit_at(
            bytes,
            pos,
            kept as i8,
            "MVS type-1 saved coefficient one-bit delta 不完整",
        ) == mvs_partial::refined_byte_at(bytes, pos, kept as i8, 1));
    }
    assert((m * scale + delta) / scale == m) by {
        vstd::arithmetic::div_mod::lemma_fundamental_div_mod_converse(
            m * scale + delta,
            scale,
            m,
            delta,
        );
    }
}

/// Whether a luma coefficient was refined at its place: one that was kept grew by less than its
/// scale on its side of zero.
pub open spec fn refined_in_place(kept: int, refined: int, scan: int, threshold: int) -> bool {
    kept != 0 && magnitude(kept) <= 112 ==> {
        &&& magnitude(kept) <= magnitude(refined) < magnitude(kept) + mvs_code_laws::scale(
            scan,
            threshold,
        )
        &&& (refined < 0) == (kept < 0)
    }
}

proof fn lemma_luma_in_place(bytes: Seq<u8>, pos: int, saved: i8, scan: int, threshold: int)
    requires
        1 <= scan < 64,
        0 <= threshold,
    ensures
        mvs_partial::refined_luma_at(bytes, pos, saved, scan, threshold).0 matches Ok(v)
            ==> refined_in_place(saved as int, v as int, scan, threshold),
{
    reveal_with_fuel(two_to, 5);
    mvs_bitstream::lemma_read_bound(bytes, pos, 1);
    mvs_bitstream::lemma_read_bound(bytes, pos, 3);
    mvs_bitstream::lemma_read_bound(bytes, pos, 4);
}

proof fn lemma_lumas_in_place(
    bytes: Seq<u8>,
    pos: int,
    seed: Seq<i8>,
    threshold: int,
    extent: int,
    scan: int,
    done: Seq<i8>,
)
    requires
        1 <= scan,
        extent <= 64,
        0 <= threshold,
        done.len() == 64,
        seed.len() == 64,
    ensures
        mvs_partial::refined_lumas_at(bytes, pos, seed, threshold, extent, scan, done).0 matches Ok(
            y,
        ) ==> y.len() == 64 && forall|i: int|
            0 <= i < 64 ==> if scan <= i < extent {
                refined_in_place(seed[i] as int, (#[trigger] y[i]) as int, i, threshold)
            } else {
                y[i] == done[i]
            },
    decreases extent - scan,
{
    if scan < extent {
        lemma_luma_in_place(bytes, pos, seed[scan], scan, threshold);
        match mvs_partial::refined_luma_at(bytes, pos, seed[scan], scan, threshold) {
            (Ok(value), p) => {
                lemma_lumas_in_place(
                    bytes,
                    p,
                    seed,
                    threshold,
                    extent,
                    scan + 1,
                    done.update(scan, value),
                );
            },
            _ => {},
        }
    }
}

/// The refined luma coefficients of a tile: the first is kept, those up to the place that the first
/// six bits tell are each refined at their own place, and all behind it are zero.
pub proof fn law_luma_is_refined_in_place(
    bytes: Seq<u8>,
    pos: int,
    seed: SavedCoefficientSeed,
    last: int,
    i: int,
)
    requires
        0 <= last < 64,
        mvs_code_laws::holds(bytes, pos, mvs_code_laws::digits(last, 6)),
        0 <= i < 64,
    ensures
        mvs_partial::refined_y_at(bytes, pos, seed).0 matches Ok(y) ==> {
            &&& y.len() == 64
            &&& i == 0 ==> y[i] == seed.y[i]
            &&& 1 <= i <= last ==> refined_in_place(
                seed.y[i] as int,
                y[i] as int,
                i,
                seed.selected_threshold as int,
            )
            &&& i > last ==> y[i] == 0
        },
{
    reveal_with_fuel(two_to, 7);
    mvs_code_laws::lemma_read(bytes, pos, last, 6);
    lemma_lumas_in_place(
        bytes,
        pos + 6,
        seed.y@,
        seed.selected_threshold as int,
        last + 1,
        1,
        Seq::new(64, |k: int| 0i8).update(0, seed.y[0]),
    );
}

/// The size of a level: the number of its binary digits.
pub open spec fn is_size(level: int, size: int) -> bool {
    1 <= size && two_to(size - 1) <= magnitude(level) < two_to(size)
}

/// The levels of a size are read back: a positive one by its digits, and a negative one by the
/// digits of the opposite one, each turned. So all levels of all sizes have a code, and none has two.
pub proof fn law_level_is_read_back(level: int, size: int, raw: int)
    requires
        is_size(level, size),
        raw == (if level > 0 {
            level
        } else {
            two_to(size) - 1 - magnitude(level)
        }),
    ensures
        0 <= raw < two_to(size),
        crate::mvs_huffman::level_of(raw, size) == level,
        crate::mvs_huffman::level_of(two_to(size) - 1 - raw, size) == -level,
{
    assert(two_to(size) == 2 * two_to(size - 1));
}

proof fn lemma_place_in_block(bytes: Seq<i8>, start: int, count: int, i: int)
    requires
        0 <= count <= 64,
        0 <= i < 64,
    ensures
        crate::mvs_cache::unzigzagged(bytes, start, count).len() == 64,
        crate::mvs_cache::unzigzagged(bytes, start, count)[APPLE_NATURAL_ORDER[i] as int] == (if i
            < count {
            bytes[start + i] as i16
        } else {
            0
        }),
    decreases count,
{
    mvs_code_laws::lemma_places_differ();
    crate::mvs_tables::lemma_natural_order_bound(i);
    if count > 0 {
        lemma_place_in_block(bytes, start, count - 1, i);
        crate::mvs_tables::lemma_natural_order_bound(count - 1);
    }
}

/// An entry of the cache is shown as it is: its first 64 bytes are the luma coefficients, the next
/// 15 the first of Cb and the last 20 the first of Cr, each in zigzag order, and the others are zero.
pub proof fn law_entry_is_shown(entry: Seq<i8>, i: int)
    requires
        entry.len() == 99,
        0 <= i < 64,
    ensures
        ({
            let shown = crate::mvs_cache::entry_coefficients(entry);
            let place = APPLE_NATURAL_ORDER[i] as int;
            &&& shown.y@[place] == entry[i]
            &&& shown.cb@[place] == (if i < 15 {
                entry[64 + i] as int
            } else {
                0
            })
            &&& shown.cr@[place] == (if i < 20 {
                entry[79 + i] as int
            } else {
                0
            })
        }),
{
    lemma_place_in_block(entry, 0, 64, i);
    lemma_place_in_block(entry, 64, 15, i);
    lemma_place_in_block(entry, 79, 20, i);
    lemma_array_64(crate::mvs_cache::unzigzagged(entry, 0, 64));
    lemma_array_64(crate::mvs_cache::unzigzagged(entry, 64, 15));
    lemma_array_64(crate::mvs_cache::unzigzagged(entry, 79, 20));
}

/// What was refined is what is shown: a cache entry that was made of refined coefficients is shown
/// with all of them, as far as they fit eight bits and an entry has room for them.
pub proof fn law_refined_entry_is_shown(y: Seq<i8>, cb: Seq<i16>, cr: Seq<i16>, i: int)
    requires
        y.len() == 64,
        cb.len() == 64,
        cr.len() == 64,
        0 <= i < 64,
    ensures
        ({
            let shown = crate::mvs_cache::entry_coefficients(mvs_partial::entry_of(y, cb, cr)@);
            let place = APPLE_NATURAL_ORDER[i] as int;
            &&& shown.y@[place] == y[i]
            &&& i < 15 && -128 <= cb[place] <= 127 ==> shown.cb@[place] == cb[place]
            &&& i < 20 && -128 <= cr[place] <= 127 ==> shown.cr@[place] == cr[place]
            &&& i >= 15 ==> shown.cb@[place] == 0
            &&& i >= 20 ==> shown.cr@[place] == 0
        }),
{
    let whole = y + crate::mvs_tiles::zigzag_bytes(cb, 15) + crate::mvs_tiles::zigzag_bytes(cr, 20);
    assert(whole.len() == 99);
    lemma_array_99(whole);
    law_entry_is_shown(whole, i);
    if i < 15 {
        assert(whole[64 + i] == cb[APPLE_NATURAL_ORDER[i] as int] as i8);
    }
    if i < 20 {
        assert(whole[79 + i] == cr[APPLE_NATURAL_ORDER[i] as int] as i8);
    }
}

/// What a tile keeps is what it shows: the kept luma coefficient of a zigzag place, the kept chroma
/// coefficients and the threshold are those of the tile, as far as they fit eight bits.
pub proof fn law_kept_coefficients_are_shown(y: Seq<i16>, cb: i16, cr: i16, threshold: u8, i: int)
    requires
        y.len() == 64,
        0 <= i < 64,
    ensures
        ({
            let tile = crate::mvs_tiles::tile_of(y, cb, cr, threshold);
            let place = APPLE_NATURAL_ORDER[i] as int;
            &&& tile.coefficients.y@ == y
            &&& tile.coefficients.cb@[place] == (if i == 0 {
                cb as int
            } else {
                0
            })
            &&& tile.coefficients.cr@[place] == (if i == 0 {
                cr as int
            } else {
                0
            })
            &&& tile.seed is Some
            &&& {
                let seed = tile.seed->0;
                &&& seed.selected_threshold == threshold
                &&& -128 <= y[place] <= 127 ==> seed.y[i] == y[place]
                &&& -128 <= cb <= 127 ==> seed.cb_dc == cb
                &&& -128 <= cr <= 127 ==> seed.cr_dc == cr
                &&& seed.cb_count == 1
                &&& seed.cr_count == 1
            }
        }),
{
    let zero = mvs_rice::zero_block();
    lemma_array_64(y);
    lemma_array_64(zero.update(0, cb));
    lemma_array_64(zero.update(0, cr));
    lemma_array_64(crate::mvs_tiles::zigzag_bytes(y, 64));
    crate::mvs_tables::lemma_natural_order_bound(i);
    mvs_code_laws::lemma_places_differ();
    let kept = crate::mvs_tables::array_of::<i8, 64>(crate::mvs_tiles::zigzag_bytes(y, 64));
    assert(kept@[i] == y[APPLE_NATURAL_ORDER[i] as int] as i8);
}

/// The luma of a tile falls by the difference that was read, and its chroma by twice that from the
/// even part of what it was; a difference of nothing keeps the luma and an even chroma.
pub proof fn law_predictors(previous: i16, delta: i16)
    ensures
        crate::mvs_tiles::luma_dc(previous, delta) matches Ok(dc) ==> dc + delta == previous,
        crate::mvs_tiles::luma_dc(previous, delta) is Ok <==> -32768 <= previous - delta <= 32767,
        crate::mvs_tiles::chroma_dc(previous, delta) matches Ok(dc) ==> {
            let even = dc + 2 * delta;
            &&& even % 2 == 0
            &&& previous == even || (previous > 0 && previous == even + 1) || (previous < 0
                && previous == even - 1)
        },
        delta == 0 ==> crate::mvs_tiles::luma_dc(previous, delta) == Ok::<i16, VncError>(previous),
        delta == 0 && previous as int % 2 == 0 ==> crate::mvs_tiles::chroma_dc(previous, delta)
            == Ok::<i16, VncError>(previous),
        -300 <= delta <= 300 && -32000 <= previous <= 32000 ==> crate::mvs_tiles::chroma_dc(
            previous,
            delta,
        ) is Ok,
{
}

} // verus!
