//! What the tiles of both kinds of records are read as: differences from the tile before, look-ups by
//! their digits, and tiles that are left alone.

use vstd::prelude::*;
use crate::error::VncError;
use crate::mvs_bitstream::two_to;
use crate::mvs_code_laws;
use crate::mvs_full::{DecoderView, FullFrame};
use crate::mvs_partial_record;
use crate::mvs_partial_record::{PartialState, PartialTask};
use crate::mvs_rice;
use crate::mvs_tables::APPLE_NATURAL_ORDER;
use crate::mvs_tiles;
use crate::mvs_tiles::ModeFiveTileState;

verus! {

/// A tile of coefficients that begins with a one is the tile before again, and the first of them has
/// none and keeps nothing.
pub proof fn law_copied_coefficients(
    bytes: Seq<u8>,
    pos: int,
    previous: Option<ModeFiveTileState>,
    threshold_a: u8,
    threshold_b: u8,
    k: int,
)
    requires
        mvs_code_laws::holds(bytes, pos, seq![true]),
        0 <= k < 64,
    ensures
        ({
            let told = mvs_tiles::mode_five_at(bytes, pos, previous, threshold_a, threshold_b);
            &&& told.1 == pos + 1
            &&& told.0 is Ok
            &&& previous matches Some(before) ==> told.0 == Ok::<ModeFiveTileState, VncError>(
                before,
            )
            &&& previous is None ==> told.0->Ok_0.seed is None
                && told.0->Ok_0.coefficients.y@[k] == 0 && told.0->Ok_0.coefficients.cb@[k] == 0
                && told.0->Ok_0.coefficients.cr@[k] == 0
        }),
{
    mvs_code_laws::lemma_read_bit(bytes, pos, true);
    let zero = mvs_rice::zero_block();
    crate::mvs_refine_laws::lemma_array_64(zero);
}

/// A tile of its own begins with a zero; a one behind it keeps the chroma, and the bit after that
/// picks the second of the two thresholds. The luma is taken down from that of the tile before by the
/// difference that is read, and the chroma by twice theirs from its even part; everything else comes
/// from the stream, and the tile keeps the low bytes of its luma in the order of the scan.
pub proof fn law_fresh_coefficients(
    bytes: Seq<u8>,
    pos: int,
    previous: Option<ModeFiveTileState>,
    threshold_a: u8,
    threshold_b: u8,
    reuse: bool,
    second: bool,
    blue: (i16, int),
    red: (i16, int),
    luma: (i16, int),
    block: Seq<i16>,
    end: int,
    k: int,
)
    requires
        mvs_code_laws::holds(bytes, pos, seq![false] + (seq![reuse] + seq![second])),
        !reuse ==> mvs_rice::dc_at(bytes, pos + 3) == (Ok::<i16, VncError>(blue.0), blue.1),
        !reuse ==> mvs_rice::dc_at(bytes, blue.1) == (Ok::<i16, VncError>(red.0), red.1),
        mvs_rice::dc_at(
            bytes,
            if reuse {
                pos + 3
            } else {
                red.1
            },
        ) == (Ok::<i16, VncError>(luma.0), luma.1),
        mvs_rice::luma_ac_at(
            bytes,
            luma.1,
            if second {
                threshold_b as int
            } else {
                threshold_a as int
            },
            1,
            mvs_rice::zero_block(),
        ) == (Ok::<Seq<i16>, VncError>(block), end),
        block.len() == 64,
        0 <= k < 64,
    ensures
        ({
            let prior = mvs_tiles::prior_coefficients(previous);
            let told = mvs_tiles::mode_five_at(bytes, pos, previous, threshold_a, threshold_b);
            told.0 matches Ok(tile) ==> {
                &&& told.1 == end
                &&& tile.coefficients.y@[0] == prior.y[0] - luma.0
                &&& k > 0 ==> tile.coefficients.y@[k] == block[k]
                &&& k > 0 ==> tile.coefficients.cb@[k] == 0 && tile.coefficients.cr@[k] == 0
                &&& reuse ==> tile.coefficients.cb@[0] == prior.cb[0] && tile.coefficients.cr@[0]
                    == prior.cr[0]
                &&& !reuse && prior.cb[0] % 2 == 0 ==> tile.coefficients.cb@[0] == prior.cb[0] - 2
                    * blue.0
                &&& !reuse && prior.cr[0] % 2 == 0 ==> tile.coefficients.cr@[0] == prior.cr[0] - 2
                    * red.0
                &&& !reuse ==> tile.coefficients.cb@[0] % 2 == 0 && tile.coefficients.cr@[0] % 2
                    == 0
                &&& tile.seed matches Some(seed) && seed.selected_threshold == (if second {
                    threshold_b
                } else {
                    threshold_a
                }) && seed.y@[k] == tile.coefficients.y@[APPLE_NATURAL_ORDER[k] as int] as i8
                    && seed.cb_count == 1 && seed.cr_count == 1 && seed.cb_dc
                    == tile.coefficients.cb@[0] as i8 && seed.cr_dc == tile.coefficients.cr@[0] as i8
            }
        }),
        ({
            let prior = mvs_tiles::prior_coefficients(previous);
            reuse && i16::MIN <= prior.y[0] - luma.0 <= i16::MAX ==> mvs_tiles::mode_five_at(
                bytes,
                pos,
                previous,
                threshold_a,
                threshold_b,
            ).0 is Ok
        }),
{
    mvs_code_laws::lemma_split(bytes, pos, seq![false], seq![reuse] + seq![second]);
    mvs_code_laws::lemma_read_bit(bytes, pos, false);
    mvs_code_laws::lemma_split(bytes, pos + 1, seq![reuse], seq![second]);
    mvs_code_laws::lemma_read_bit(bytes, pos + 1, reuse);
    mvs_code_laws::lemma_read_bit(bytes, pos + 2, second);
    let prior = mvs_tiles::prior_coefficients(previous);
    let threshold = if second {
        threshold_b
    } else {
        threshold_a
    };
    let p = if reuse {
        pos + 3
    } else {
        red.1
    };
    lemma_chroma(bytes, pos + 3, reuse, prior.cb[0], prior.cr[0], blue, red);
    lemma_luma(bytes, p, threshold, prior.y[0], luma, block, end);
    let chroma = mvs_tiles::chroma_at(bytes, pos + 3, reuse, prior.cb[0], prior.cr[0]);
    let y = block.update(0, (prior.y[0] - luma.0) as i16);
    assert(mvs_tiles::mode_five_at(bytes, pos, previous, threshold_a, threshold_b)
        == mvs_tiles::fresh_tile_at(bytes, pos + 1, previous, threshold_a, threshold_b));
    if chroma.0 is Ok && i16::MIN <= prior.y[0] - luma.0 <= i16::MAX {
        lemma_tile_of(y, chroma.0->Ok_0.0, chroma.0->Ok_0.1, threshold, k);
    }
}

proof fn lemma_chroma(
    bytes: Seq<u8>,
    pos: int,
    reuse: bool,
    cb: i16,
    cr: i16,
    blue: (i16, int),
    red: (i16, int),
)
    requires
        !reuse ==> mvs_rice::dc_at(bytes, pos) == (Ok::<i16, VncError>(blue.0), blue.1),
        !reuse ==> mvs_rice::dc_at(bytes, blue.1) == (Ok::<i16, VncError>(red.0), red.1),
    ensures
        ({
            let told = mvs_tiles::chroma_at(bytes, pos, reuse, cb, cr);
            &&& reuse ==> told == (Ok::<(i16, i16), VncError>((cb, cr)), pos)
            &&& told.0 matches Ok(both) ==> told.1 == (if reuse {
                pos
            } else {
                red.1
            }) && (!reuse ==> both.0 % 2 == 0 && both.1 % 2 == 0 && (cb % 2 == 0 ==> both.0 == cb - 2
                * blue.0) && (cr % 2 == 0 ==> both.1 == cr - 2 * red.0))
        }),
{
}

proof fn lemma_luma(
    bytes: Seq<u8>,
    pos: int,
    threshold: u8,
    previous: i16,
    luma: (i16, int),
    block: Seq<i16>,
    end: int,
)
    requires
        mvs_rice::dc_at(bytes, pos) == (Ok::<i16, VncError>(luma.0), luma.1),
        mvs_rice::luma_ac_at(bytes, luma.1, threshold as int, 1, mvs_rice::zero_block()) == (
            Ok::<Seq<i16>, VncError>(block),
            end,
        ),
    ensures
        i16::MIN <= previous - luma.0 <= i16::MAX ==> mvs_tiles::luma_at(
            bytes,
            pos,
            threshold,
            previous,
        ) == (Ok::<Seq<i16>, VncError>(block.update(0, (previous - luma.0) as i16)), end),
        !(i16::MIN <= previous - luma.0 <= i16::MAX) ==> mvs_tiles::luma_at(
            bytes,
            pos,
            threshold,
            previous,
        ).0 is Err,
{
}

proof fn lemma_tile_of(y: Seq<i16>, cb: i16, cr: i16, threshold: u8, k: int)
    requires
        y.len() == 64,
        0 <= k < 64,
    ensures
        ({
            let tile = mvs_tiles::tile_of(y, cb, cr, threshold);
            &&& tile.coefficients.y@ == y
            &&& tile.coefficients.cb@[0] == cb
            &&& tile.coefficients.cr@[0] == cr
            &&& k > 0 ==> tile.coefficients.cb@[k] == 0 && tile.coefficients.cr@[k] == 0
            &&& tile.seed matches Some(seed) && seed.selected_threshold == threshold && seed.y@[k]
                == y[APPLE_NATURAL_ORDER[k] as int] as i8 && seed.cb_count == 1 && seed.cr_count
                == 1 && seed.cb_dc == cb as i8 && seed.cr_dc == cr as i8
        }),
{
    let zero = mvs_rice::zero_block();
    crate::mvs_refine_laws::lemma_array_64(y);
    crate::mvs_refine_laws::lemma_array_64(zero.update(0, cb));
    crate::mvs_refine_laws::lemma_array_64(zero.update(0, cr));
    crate::mvs_refine_laws::lemma_array_64(mvs_tiles::zigzag_bytes(y, 64));
    crate::mvs_tables::lemma_natural_order_bound(k);
}

/// A look-up of a partial record begins with a one for the entry after the last one, or with a zero
/// and the sixteen digits of the entry.
pub proof fn law_looked_up_entries(bytes: Seq<u8>, pos: int, previous: u16, entry: int)
    requires
        0 <= entry < 65536,
    ensures
        mvs_code_laws::holds(bytes, pos, seq![true]) ==> mvs_partial_record::partial_index_at(
            bytes,
            pos,
            previous,
        ) == (Ok::<u16, VncError>(((previous + 1) % 65536) as u16), pos + 1),
        mvs_code_laws::holds(
            bytes,
            pos,
            seq![false] + (mvs_code_laws::digits(entry / 256, 8) + mvs_code_laws::digits(
                entry % 256,
                8,
            )),
        ) ==> mvs_partial_record::partial_index_at(bytes, pos, previous) == (
            Ok::<u16, VncError>(entry as u16),
            pos + 17,
        ),
{
    let high = entry / 256;
    let low = entry % 256;
    assert(two_to(8) == 256) by {
        reveal_with_fuel(two_to, 9);
    }
    if mvs_code_laws::holds(bytes, pos, seq![true]) {
        mvs_code_laws::lemma_read_bit(bytes, pos, true);
    }
    if mvs_code_laws::holds(
        bytes,
        pos,
        seq![false] + (mvs_code_laws::digits(high, 8) + mvs_code_laws::digits(low, 8)),
    ) {
        mvs_code_laws::lemma_digits(high, 8);
        mvs_code_laws::lemma_split(
            bytes,
            pos,
            seq![false],
            mvs_code_laws::digits(high, 8) + mvs_code_laws::digits(low, 8),
        );
        mvs_code_laws::lemma_read_bit(bytes, pos, false);
        mvs_code_laws::lemma_split(
            bytes,
            pos + 1,
            mvs_code_laws::digits(high, 8),
            mvs_code_laws::digits(low, 8),
        );
        mvs_code_laws::lemma_read(bytes, pos + 1, high, 8);
        mvs_code_laws::lemma_read(bytes, pos + 9, low, 8);
        assert(high * 256 + low == entry);
    }
}

/// A partial tile of opcode 0 is left alone, and so is one of opcode 2 that has no reference: two
/// digits are read, and nothing else happens.
pub proof fn law_tiles_left_alone(task: PartialTask, index: int, s: PartialState, opcode: int)
    requires
        opcode == 0 || opcode == 2,
        opcode == 2 ==> task.surface.tiles[task.frame.global_tile(index)].reference is None,
        mvs_code_laws::holds(task.bytes, s.pos, mvs_code_laws::digits(opcode, 2)),
    ensures
        mvs_partial_record::partial_step(task, index, s) == Ok::<PartialState, VncError>(
            PartialState { pos: s.pos + 2, ..s },
        ),
{
    reveal(mvs_partial_record::partial_step);
    reveal_with_fuel(two_to, 3);
    mvs_code_laws::lemma_read(task.bytes, s.pos, opcode, 2);
}

/// So many tiles that are left alone.
pub open spec fn idle_bits(count: int) -> Seq<bool>
    decreases count,
{
    if count <= 0 {
        Seq::empty()
    } else {
        mvs_code_laws::digits(0, 2) + idle_bits(count - 1)
    }
}

proof fn lemma_idle(task: PartialTask, index: int, s: PartialState, tail: Seq<bool>)
    requires
        index <= task.frame.tile_count(),
        mvs_code_laws::holds(
            task.bytes,
            s.pos,
            idle_bits(task.frame.tile_count() - index) + tail,
        ),
    ensures
        mvs_partial_record::partial_tiles_done(task, index, s) == Ok::<PartialState, VncError>(
            PartialState { pos: s.pos + 2 * (task.frame.tile_count() - index), ..s },
        ),
        mvs_code_laws::holds(task.bytes, s.pos + 2 * (task.frame.tile_count() - index), tail),
    decreases task.frame.tile_count() - index,
{
    let left = task.frame.tile_count() - index;
    if left > 0 {
        let more = idle_bits(left - 1);
        reveal_with_fuel(two_to, 3);
        mvs_code_laws::lemma_digits(0, 2);
        assert(idle_bits(left) + tail =~= mvs_code_laws::digits(0, 2) + (more + tail));
        mvs_code_laws::lemma_split(task.bytes, s.pos, mvs_code_laws::digits(0, 2), more + tail);
        law_tiles_left_alone(task, index, s, 0);
        let next = PartialState { pos: s.pos + 2, ..s };
        lemma_idle(task, index + 1, next, tail);
    } else {
        assert(idle_bits(0) + tail =~= tail);
    }
}

/// A partial record that leaves every tile alone changes nothing, and is accepted just where the
/// three letters mvs end it. Its second and third byte tell how far the chroma reaches, 64 at most.
pub proof fn law_idle_partial_record(
    decoder: DecoderView,
    payload: Seq<u8>,
    frame: FullFrame,
    letters: (u8, u8, u8),
    at: (usize, usize, usize, usize, usize, usize),
)
    requires
        mvs_partial_record::partial_frame(decoder, payload, at.0, at.1, at.2, at.3, at.4, at.5)
            == Ok::<FullFrame, VncError>(frame),
        0 <= frame.tile_count(),
        mvs_code_laws::holds(
            payload.skip(3),
            0,
            idle_bits(frame.tile_count()) + (mvs_code_laws::digits(letters.0 as int, 8) + (
            mvs_code_laws::digits(letters.1 as int, 8) + mvs_code_laws::digits(
                letters.2 as int,
                8,
            ))),
        ),
    ensures
        ({
            let told = mvs_partial_record::partial_decoded(
                decoder,
                payload,
                at.0,
                at.1,
                at.2,
                at.3,
                at.4,
                at.5,
            );
            &&& told is Ok <==> letters == (109u8, 118u8, 115u8)
            &&& told matches Ok(done) ==> done.0 == decoder && done.1.len() == 0
        }),
        ({
            let task = mvs_partial_record::partial_task(decoder, payload, frame);
            &&& task.cb_extent <= payload[1] && task.cb_extent <= 64
            &&& task.cb_extent == payload[1] || task.cb_extent == 64
            &&& task.cr_extent <= payload[2] && task.cr_extent <= 64
            &&& task.cr_extent == payload[2] || task.cr_extent == 64
        }),
{
    let task = mvs_partial_record::partial_task(decoder, payload, frame);
    let a = mvs_code_laws::digits(letters.0 as int, 8);
    let b = mvs_code_laws::digits(letters.1 as int, 8);
    let c = mvs_code_laws::digits(letters.2 as int, 8);
    let start = PartialState { cache: decoder.cache, events: Seq::empty(), pos: 0 };
    let pos = 2 * frame.tile_count();
    assert(two_to(8) == 256) by {
        reveal_with_fuel(two_to, 9);
    }
    lemma_idle(task, 0, start, a + (b + c));
    mvs_code_laws::lemma_digits(letters.0 as int, 8);
    mvs_code_laws::lemma_digits(letters.1 as int, 8);
    mvs_code_laws::lemma_split(task.bytes, pos, a, b + c);
    mvs_code_laws::lemma_read(task.bytes, pos, letters.0 as int, 8);
    mvs_code_laws::lemma_split(task.bytes, pos + 8, b, c);
    mvs_code_laws::lemma_read(task.bytes, pos + 8, letters.1 as int, 8);
    mvs_code_laws::lemma_read(task.bytes, pos + 16, letters.2 as int, 8);
    reveal_with_fuel(mvs_partial_record::partial_terminals_at, 4);
}

/// Whether a chroma coefficient was refined by one bit: one that was kept grew by one at most on its
/// side of zero, and a zero stayed or became one of either sign.
pub open spec fn refined_by_a_bit(kept: int, refined: int) -> bool {
    if kept > 0 {
        refined == kept || refined == kept + 1
    } else if kept < 0 {
        refined == kept || refined == kept - 1
    } else {
        -1 <= refined <= 1
    }
}

proof fn lemma_first_stays(
    bytes: Seq<u8>,
    pos: int,
    block: Seq<i16>,
    extent: int,
    cursor: int,
    bits: Seq<u8>,
    values: Seq<u8>,
)
    requires
        block.len() == 64,
        0 <= cursor,
    ensures
        ({
            let told = crate::mvs_huffman::partial_ac_at(
                bytes,
                pos,
                block,
                1,
                extent,
                cursor,
                bits,
                values,
            );
            told.1.len() == 64 && told.1[0] == block[0]
        }),
    decreases
            if cursor < extent {
                extent - cursor
            } else {
                0
            },
{
    if cursor < extent {
        match crate::mvs_huffman::token_at(bytes, pos, bits, values, 0) {
            (Ok(token), p) => {
                let run = token as int / 16;
                let size = token as int % 16;
                if size == 0 {
                    if run == 15 {
                        lemma_first_stays(bytes, p, block, extent, cursor + 16, bits, values);
                    }
                } else {
                    match crate::mvs_bitstream::read_at(bytes, p, size) {
                        (Ok(raw), q) => if 1 + cursor + run < 64 {
                            let place = 1 + cursor + run;
                            lemma_never_first(place);
                            let next = mvs_rice::with_coefficient(
                                block,
                                place,
                                crate::mvs_huffman::level_of(raw as int, size),
                            );
                            lemma_first_stays(
                                bytes,
                                q,
                                next,
                                extent,
                                cursor + run + 1,
                                bits,
                                values,
                            );
                        },
                        _ => {},
                    }
                }
            },
            _ => {},
        }
    }
}

proof fn lemma_never_first(place: int)
    requires
        1 <= place < 64,
    ensures
        1 <= APPLE_NATURAL_ORDER[place] < 64,
{
}

/// The first chroma coefficient of a refined tile is the kept one, refined by one bit; the others come
/// from the stream and leave it alone.
pub proof fn law_chroma_is_refined_in_place(bytes: Seq<u8>, pos: int, dc: i8, extent: int)
    requires
        -127 <= dc <= 126,
    ensures
        crate::mvs_partial::refined_chroma_at(bytes, pos, dc, extent).0 matches Ok(block)
            ==> block.len() == 64 && refined_by_a_bit(dc as int, block[0] as int),
{
    let missing = "MVS type-1 chroma DC delta 不完整";
    crate::mvs_bitstream::lemma_read_bound(bytes, pos, 1);
    reveal_with_fuel(two_to, 3);
    match crate::mvs_partial::refined_by_one_bit_at(bytes, pos, dc, missing) {
        (Ok(refined), p) => {
            assert(refined_by_a_bit(dc as int, refined as int));
            lemma_first_stays(
                bytes,
                p,
                mvs_rice::zero_block().update(0, refined as i16),
                extent,
                0,
                crate::mvs_tables::APPLE_CHROMA_AC_BITS@,
                crate::mvs_tables::APPLE_CHROMA_AC_VALUES@,
            );
        },
        _ => {},
    }
}

/// The entry that a refinement makes holds the luma and both chromas of its own tile, each refined in
/// its place: the kept luma first, blue behind all of the luma and red behind the blue.
pub proof fn law_entry_is_of_its_tile(
    bytes: Seq<u8>,
    pos: int,
    seed: crate::mvs_tiles::SavedCoefficientSeed,
    cb_extent: int,
    cr_extent: int,
)
    requires
        -127 <= seed.cb_dc <= 126,
        -127 <= seed.cr_dc <= 126,
    ensures
        crate::mvs_partial::partial_entry_at(bytes, pos, seed, cb_extent, cr_extent).0 matches Ok(
            entry,
        ) ==> {
            &&& entry@[0] == seed.y[0]
            &&& refined_by_a_bit(seed.cb_dc as int, entry@[64] as int)
            &&& refined_by_a_bit(seed.cr_dc as int, entry@[79] as int)
            &&& seed.cb_count == 1 && seed.cr_count == 1
        },
{
    reveal(crate::mvs_partial::partial_entry_at);
    match crate::mvs_partial::refined_y_at(bytes, pos, seed) {
        (Ok(y), p) => {
            lemma_first_luma(bytes, pos, seed);
            law_chroma_is_refined_in_place(bytes, p, seed.cb_dc, cb_extent);
            match crate::mvs_partial::refined_chroma_at(bytes, p, seed.cb_dc, cb_extent) {
                (Ok(cb), q) => {
                    law_chroma_is_refined_in_place(bytes, q, seed.cr_dc, cr_extent);
                    match crate::mvs_partial::refined_chroma_at(bytes, q, seed.cr_dc, cr_extent) {
                        (Ok(cr), _) => {
                            let whole = y + mvs_tiles::zigzag_bytes(cb, 15)
                                + mvs_tiles::zigzag_bytes(cr, 20);
                            crate::mvs_refine_laws::lemma_array_99(whole);
                            assert(whole[64] == cb[0] as i8);
                            assert(whole[79] == cr[0] as i8);
                        },
                        _ => {},
                    }
                },
                _ => {},
            }
        },
        _ => {},
    }
}

proof fn lemma_first_luma(bytes: Seq<u8>, pos: int, seed: crate::mvs_tiles::SavedCoefficientSeed)
    ensures
        crate::mvs_partial::refined_y_at(bytes, pos, seed).0 matches Ok(y) ==> y.len() == 64 && y[0]
            == seed.y[0],
{
    crate::mvs_bitstream::lemma_read_bound(bytes, pos, 6);
    reveal_with_fuel(two_to, 7);
    match crate::mvs_bitstream::read_at(bytes, pos, 6) {
        (Ok(extent), p) => lemma_lumas_keep_first(
            bytes,
            p,
            seed.y@,
            seed.selected_threshold as int,
            extent + 1,
            1,
            Seq::new(64, |i: int| 0i8).update(0, seed.y[0]),
        ),
        _ => {},
    }
}

proof fn lemma_lumas_keep_first(
    bytes: Seq<u8>,
    pos: int,
    seed: Seq<i8>,
    threshold: int,
    extent: int,
    scan: int,
    done: Seq<i8>,
)
    requires
        1 <= scan,
        extent <= 64,
        done.len() == 64,
    ensures
        crate::mvs_partial::refined_lumas_at(bytes, pos, seed, threshold, extent, scan, done).0
            matches Ok(y) ==> y.len() == 64 && y[0] == done[0],
    decreases extent - scan,
{
    if scan < extent {
        match crate::mvs_partial::refined_luma_at(bytes, pos, seed[scan], scan, threshold) {
            (Ok(value), p) => {
                let next = done.update(scan, value);
                lemma_lumas_keep_first(bytes, p, seed, threshold, extent, scan + 1, next);
            },
            _ => {},
        }
    }
}

/// A record may paint a rectangle that has pixels, lies on the surface and is within the budget, on a
/// surface that is the decoder's where that has one; it then has the next number. A partial record
/// needs a surface, and keeps the number of the last full one.
pub proof fn law_records_work_on_the_surface(
    decoder: DecoderView,
    payload: Seq<u8>,
    x: usize,
    y: usize,
    w: usize,
    h: usize,
    sw: usize,
    sh: usize,
)
    ensures
        crate::mvs_full::full_frame(decoder, x, y, w, h, sw, sh) is Ok <==> w > 0 && h > 0 && x + w
            <= sw && y + h <= sh && w * h <= 67_108_864 && sw * sh <= 67_108_864
            && decoder.committed_records < u64::MAX && (decoder.surface matches Some(s) ==> s.width
            == sw && s.height == sh),
        crate::mvs_full::full_frame(decoder, x, y, w, h, sw, sh) matches Ok(frame) ==> frame == (
        FullFrame {
            rect_x: x,
            rect_y: y,
            width: w,
            height: h,
            surface_width: sw,
            surface_height: sh,
            generation: (decoder.committed_records + 1) as u64,
        }),
        mvs_partial_record::partial_frame(decoder, payload, x, y, w, h, sw, sh) is Ok <==> payload.len()
            >= 3 && payload[0] == 1 && w > 0 && h > 0 && x + w <= sw && y + h <= sh && (
        decoder.surface matches Some(s) && s.width == sw && s.height == sh),
        mvs_partial_record::partial_frame(decoder, payload, x, y, w, h, sw, sh) matches Ok(frame)
            ==> frame == (FullFrame {
            rect_x: x,
            rect_y: y,
            width: w,
            height: h,
            surface_width: sw,
            surface_height: sh,
            generation: decoder.committed_records,
        }),
{
    assert(w * h == 0 <==> w == 0 || h == 0) by (nonlinear_arith);
    assert(sw * sh == 0 <==> sw == 0 || sh == 0) by (nonlinear_arith);
}

/// A record begins with a black picture, black for tiles of one color, and white and a light blue for
/// tiles of two.
pub proof fn law_first_colors(
    frame: FullFrame,
    tiles: Seq<crate::mvs_tiles::SavedTileState>,
    cache_index: u16,
    i: int,
)
    ensures
        ({
            let s = crate::mvs_full::full_start(frame, tiles, cache_index);
            &&& s.rgb.len() == frame.width * frame.height * 3
            &&& 0 <= i < s.rgb.len() ==> s.rgb[i] == 0
            &&& s.one_color =~= seq![0u8, 0, 0]
            &&& s.color_of_ones =~= seq![255u8, 255, 255]
            &&& s.color_of_zeros =~= seq![181u8, 213, 254]
            &&& s.previous is None
            &&& s.data_pos == 0
            &&& s.tiles == tiles
            &&& s.cache_index == cache_index
        }),
{
    assert(frame.width * frame.height * 3 >= 0) by (nonlinear_arith);
}

} // verus!
