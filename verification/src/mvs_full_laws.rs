//! What a full-frame record leaves as it was.

use vstd::prelude::*;
use crate::mvs_full::{DecoderView, FullFrame, FullState, FullTask};
use crate::mvs_wire::MvsFullRecord;

verus! {

/// Whether a tile of the surface is none of the tiles from `index` on that a rectangle paints.
pub open spec fn is_left_out(frame: FullFrame, index: int, tile: int) -> bool {
    forall|i: int| index <= i < frame.tile_count() ==> #[trigger] frame.global_tile(i) != tile
}

/// The number of tiles of a surface.
spec fn tiles_of(frame: FullFrame) -> int {
    frame.surface_tiles_x() * crate::mvs_full::tiles_over(frame.surface_height as int)
}

/// Whether a tile changed what is kept of it alone, and kept the coefficients of it, unless it
/// brought its own.
pub open spec fn keeps(task: FullTask, index: int, s: FullState, next: FullState, with_own: bool) -> bool {
    let g = task.frame.global_tile(index);
    &&& next.tiles.len() == s.tiles.len()
    &&& forall|tile: int|
        0 <= tile < s.tiles.len() && tile != g ==> #[trigger] next.tiles[tile] == s.tiles[tile]
    &&& !with_own ==> next.tiles[g].coefficients == s.tiles[g].coefficients
}

proof fn lemma_marked_keeps(task: FullTask, index: int, s: FullState)
    requires
        0 <= task.frame.global_tile(index) < s.tiles.len(),
    ensures
        keeps(task, index, s, crate::mvs_full::marked(task, index, s), false),
{
}

proof fn lemma_copied_keeps(
    task: FullTask,
    index: int,
    s: FullState,
    source_x: int,
    source_y: int,
    source_tile: int,
)
    requires
        0 <= task.frame.global_tile(index) < s.tiles.len(),
    ensures
        keeps(
            task,
            index,
            s,
            crate::mvs_full::copied_tile(task, index, s, source_x, source_y, source_tile),
            false,
        ),
{
}

proof fn lemma_bitmap_keeps(task: FullTask, index: int, s: FullState, one: Seq<u8>, zero: Seq<u8>)
    ensures
        crate::mvs_full::bitmap_tile(task, index, s, one, zero) matches Ok(next) ==> next.tiles
            == s.tiles,
{
}

proof fn lemma_palette_keeps(task: FullTask, index: int, s: FullState)
    ensures
        crate::mvs_full::palette_tile(task, index, s) matches Ok(next) ==> next.tiles == s.tiles,
{
}

proof fn lemma_coefficients_keep(task: FullTask, index: int, s: FullState)
    requires
        0 <= task.frame.global_tile(index) < s.tiles.len(),
    ensures
        crate::mvs_full::coefficient_tile(task, index, s) matches Ok(next) ==> keeps(
            task,
            index,
            s,
            next,
            true,
        ),
{
}

proof fn lemma_cached_keeps(task: FullTask, mode: int, index: int, s: FullState)
    ensures
        crate::mvs_full::cached_tile(task, mode, index, s) matches Ok(next) ==> next.tiles
            == s.tiles,
{
}

/// What a tile of mode 4 or more is decoded by.
pub proof fn lemma_mode_of_tile(task: FullTask, mode: int, index: int, before: FullState)
    ensures
        ({
            let s = crate::mvs_full::marked(task, index, before);
            let done = crate::mvs_full::tile_done(task, mode, index, before);
            &&& mode == 4 ==> done == crate::mvs_full::palette_tile(task, index, s)
            &&& mode == 5 ==> done == crate::mvs_full::coefficient_tile(task, index, s)
            &&& mode != 0 && mode != 1 && mode != 2 && mode != 3 && mode != 4 && mode != 5 ==> done
                == crate::mvs_full::cached_tile(task, mode, index, s)
        }),
{
    reveal(crate::mvs_full::tile_done);
}

proof fn lemma_early_mode(task: FullTask, mode: int, index: int, before: FullState)
    requires
        0 <= mode <= 3,
        0 <= task.frame.global_tile(index) < before.tiles.len(),
    ensures
        crate::mvs_full::tile_done(task, mode, index, before) matches Ok(next) ==> keeps(
            task,
            index,
            before,
            next,
            false,
        ),
{
    reveal(crate::mvs_full::tile_done);
    let frame = task.frame;
    let s = crate::mvs_full::marked(task, index, before);
    let x = frame.tile_column(index) * 8;
    let y = frame.tile_row(index) * 8;
    lemma_marked_keeps(task, index, before);
    lemma_copied_keeps(task, index, s, x - 8, y, frame.global_tile(index) - 1);
    lemma_copied_keeps(
        task,
        index,
        s,
        x,
        y - 8,
        frame.global_tile(index) - frame.surface_tiles_x(),
    );
    lemma_bitmap_keeps(
        task,
        index,
        s,
        crate::mvs_full::white(),
        crate::mvs_full::black(),
    );
}

/// A tile changes what is kept of it alone.
pub proof fn lemma_tile_keeps(task: FullTask, mode: int, index: int, before: FullState)
    requires
        0 <= task.frame.global_tile(index) < before.tiles.len(),
    ensures
        crate::mvs_full::tile_done(task, mode, index, before) matches Ok(next) ==> keeps(
            task,
            index,
            before,
            next,
            mode == 5,
        ),
{
    if 0 <= mode <= 3 {
        lemma_early_mode(task, mode, index, before);
    } else {
        let s = crate::mvs_full::marked(task, index, before);
        lemma_marked_keeps(task, index, before);
        lemma_mode_of_tile(task, mode, index, before);
        lemma_palette_keeps(task, index, s);
        lemma_coefficients_keep(task, index, s);
        lemma_cached_keeps(task, mode, index, s);
    }
}

proof fn lemma_run_keeps(task: FullTask, mode: int, index: int, count: int, s: FullState, tile: int)
    requires
        is_left_out(task.frame, index, tile),
        0 <= index,
        index + count <= task.frame.tile_count(),
        0 <= tile < s.tiles.len(),
        task.frame.wf(),
        s.tiles.len() == tiles_of(task.frame),
    ensures
        crate::mvs_full::run_done(task, mode, index, count, s) matches Ok(next) ==> next.tiles.len()
            == s.tiles.len() && next.tiles[tile] == s.tiles[tile],
    decreases count,
{
    if count > 0 {
        assert(task.frame.global_tile(index) != tile);
        crate::mvs_full::lemma_tile_place(task.frame, index);
        lemma_tile_keeps(task, mode, index, s);
        match crate::mvs_full::tile_done(task, mode, index, s) {
            Err(_) => {},
            Ok(next) => lemma_run_keeps(task, mode, index + 1, count - 1, next, tile),
        }
    }
}

proof fn lemma_tiles_keep(task: FullTask, mode_pos: int, index: int, s: FullState, tile: int)
    requires
        is_left_out(task.frame, index, tile),
        0 <= index,
        0 <= tile < s.tiles.len(),
        task.frame.wf(),
        s.tiles.len() == tiles_of(task.frame),
    ensures
        crate::mvs_full::tiles_done(task, mode_pos, index, s) matches Ok((next, _))
            ==> next.tiles.len() == s.tiles.len() && next.tiles[tile] == s.tiles[tile],
    decreases task.frame.tile_count() - index,
{
    if index < task.frame.tile_count() {
        if let (Ok(mode), p) = crate::mvs_bitstream::read_at(task.modes, mode_pos, 3) {
            if let (Ok(repeat), p) = crate::mvs_bitstream::repeat_at(task.modes, p) {
                let count = repeat + 1;
                if count <= task.frame.tile_count() - index {
                    lemma_run_keeps(task, mode as int, index, count, s, tile);
                    match crate::mvs_full::run_done(task, mode as int, index, count, s) {
                        Err(_) => {},
                        Ok(next) => lemma_tiles_keep(task, p, index + count, next, tile),
                    }
                }
            }
        }
    }
}

/// A full-frame record leaves what is kept of every tile outside its rectangle as it was.
pub proof fn law_full_keeps_other_tiles(
    decoder: DecoderView,
    record: MvsFullRecord<'_>,
    rect_x: usize,
    rect_y: usize,
    width: usize,
    height: usize,
    surface_width: usize,
    surface_height: usize,
    tile: int,
)
    requires
        decoder.wf(),
        decoder.surface is Some,
        0 <= tile < (decoder.surface->0).tiles.len(),
        crate::mvs_full::full_frame(
            decoder,
            rect_x,
            rect_y,
            width,
            height,
            surface_width,
            surface_height,
        ) matches Ok(frame) ==> is_left_out(frame, 0, tile),
    ensures
        crate::mvs_full::full_decoded(
            decoder,
            record,
            rect_x,
            rect_y,
            width,
            height,
            surface_width,
            surface_height,
        ) matches Ok((_, next)) ==> (next.surface matches Some(surface) && surface.tiles.len() == (
        decoder.surface->0).tiles.len() && surface.tiles[tile] == (decoder.surface->0).tiles[tile]),
{
    match crate::mvs_full::full_frame(
        decoder,
        rect_x,
        rect_y,
        width,
        height,
        surface_width,
        surface_height,
    ) {
        Err(_) => {},
        Ok(frame) => {
            let task = FullTask {
                frame,
                scale_threshold_a: record.scale_threshold_a,
                scale_threshold_b: record.scale_threshold_b,
                modes: record.mode_stream@,
                data: record.data_stream@,
                tables: decoder.tables,
                cache: decoder.cache,
            };
            let start = crate::mvs_full::full_start(
                frame,
                crate::mvs_full::starting_tiles(decoder, frame),
                decoder.cache.previous_cache_index,
            );
            assert(width > 0 && height > 0) by (nonlinear_arith)
                requires
                    width * height != 0,
                    width >= 0,
                    height >= 0,
            ;
            let behind = crate::mvs_bitstream::read_at(task.modes, 0, 1).1;
            lemma_tiles_keep(task, behind, 0, start, tile);
        },
    }
}

/// A full-frame record shows entries of the cache and remembers the last one that it showed, but
/// neither adds nor changes one.
pub proof fn law_full_keeps_the_cache(
    decoder: DecoderView,
    record: MvsFullRecord<'_>,
    rect_x: usize,
    rect_y: usize,
    width: usize,
    height: usize,
    surface_width: usize,
    surface_height: usize,
)
    ensures
        crate::mvs_full::full_decoded(
            decoder,
            record,
            rect_x,
            rect_y,
            width,
            height,
            surface_width,
            surface_height,
        ) matches Ok((_, next)) ==> next.tables == decoder.tables && next.cache == (
        crate::mvs_cache::CacheView {
            previous_cache_index: next.cache.previous_cache_index,
            ..decoder.cache
        }),
{
}

/// Only a tile that brings coefficients of its own replaces those that are kept of it: every other
/// tile keeps them, and never makes any.
pub proof fn law_only_coefficients_replace_coefficients(
    task: FullTask,
    mode: int,
    index: int,
    s: FullState,
    tile: int,
)
    requires
        mode != 5,
        task.frame.wf(),
        0 <= index < task.frame.tile_count(),
        s.tiles.len() == task.frame.surface_tiles_x() * crate::mvs_full::tiles_over(
            task.frame.surface_height as int,
        ),
        0 <= tile < s.tiles.len(),
    ensures
        crate::mvs_full::tile_done(task, mode, index, s) matches Ok(next)
            ==> next.tiles[tile].coefficients == s.tiles[tile].coefficients,
{
    crate::mvs_full::lemma_tile_place(task.frame, index);
    lemma_tile_keeps(task, mode, index, s);
}

} // verus!
