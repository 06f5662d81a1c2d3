//! What earlier records are to later ones: the pixels that a record decodes to without the cache do
//! not depend on them, and what a partial record refines is what the last of them brought.

use vstd::prelude::*;
use crate::error::VncError;
use crate::mvs_full::{DecoderView, FullFrame, FullState, FullTask};
use crate::mvs_partial_record::{PartialState, PartialTask};
use crate::mvs_tiles::{SavedCoefficientSeed, SavedTileState};
use crate::mvs_wire::{MvsFullRecord, MvsTables};

verus! {

/// Where a record works.
pub struct Place {
    pub rect_x: usize,
    pub rect_y: usize,
    pub width: usize,
    pub height: usize,
    pub surface_width: usize,
    pub surface_height: usize,
}

/// What a full-frame record decodes to at a place.
pub open spec fn full_at(decoder: DecoderView, record: MvsFullRecord<'_>, at: Place) -> Result<
    (Seq<u8>, DecoderView),
    VncError,
> {
    crate::mvs_full::full_decoded(
        decoder,
        record,
        at.rect_x,
        at.rect_y,
        at.width,
        at.height,
        at.surface_width,
        at.surface_height,
    )
}

/// What a partial record leads to at a place.
pub open spec fn partial_at(decoder: DecoderView, payload: Seq<u8>, at: Place) -> Result<
    DecoderView,
    VncError,
> {
    match crate::mvs_partial_record::partial_decoded(
        decoder,
        payload,
        at.rect_x,
        at.rect_y,
        at.width,
        at.height,
        at.surface_width,
        at.surface_height,
    ) {
        Err(e) => Err(e),
        Ok((next, _)) => Ok(next),
    }
}

/// The frame of a full-frame record at a place.
pub open spec fn frame_at(decoder: DecoderView, at: Place) -> Result<FullFrame, VncError> {
    crate::mvs_full::full_frame(
        decoder,
        at.rect_x,
        at.rect_y,
        at.width,
        at.height,
        at.surface_width,
        at.surface_height,
    )
}

/// A full-frame record and what it is decoded against.
pub open spec fn task_of(decoder: DecoderView, record: MvsFullRecord<'_>, frame: FullFrame) -> FullTask {
    FullTask {
        frame,
        scale_threshold_a: record.scale_threshold_a,
        scale_threshold_b: record.scale_threshold_b,
        modes: record.mode_stream@,
        data: record.data_stream@,
        tables: decoder.tables,
        cache: decoder.cache,
    }
}

/// The state before the first tile of a record.
pub open spec fn start_of(decoder: DecoderView, frame: FullFrame) -> FullState {
    crate::mvs_full::full_start(
        frame,
        crate::mvs_full::starting_tiles(decoder, frame),
        decoder.cache.previous_cache_index,
    )
}

/// Where the first mode of a record stands.
pub open spec fn first_mode_at(task: FullTask) -> int {
    crate::mvs_bitstream::read_at(task.modes, 0, 1).1
}

/// Whether the tiles from `index` on, of `count`, are of the modes that need no cache.
pub open spec fn needs_no_cache(modes: Seq<u8>, count: int, pos: int, index: int) -> bool
    decreases count - index,
{
    if index >= count {
        true
    } else {
        match crate::mvs_bitstream::read_at(modes, pos, 3) {
            (Err(_), p) => true,
            (Ok(mode), p) => mode <= 5 && match crate::mvs_bitstream::repeat_at(modes, p) {
                (Err(_), p) => true,
                (Ok(repeat), p) => index + repeat + 1 > count || needs_no_cache(
                    modes,
                    count,
                    p,
                    index + repeat + 1,
                ),
            },
        }
    }
}

/// Two tasks that differ in the cache and the generation alone.
spec fn like(t: FullTask, u: FullTask) -> bool {
    &&& u.frame == FullFrame { generation: u.frame.generation, ..t.frame }
    &&& u == FullTask { frame: u.frame, cache: u.cache, ..t }
}

/// Two states with the same picture, and with the same of all that later tiles are read with.
spec fn pictures_agree(s: FullState, v: FullState) -> bool {
    &&& s.rgb == v.rgb
    &&& s.one_color == v.one_color
    &&& s.color_of_ones == v.color_of_ones
    &&& s.color_of_zeros == v.color_of_zeros
    &&& s.previous == v.previous
    &&& s.data_pos == v.data_pos
}

/// Two answers that are the same refusal, or states with the same picture.
spec fn answers_agree(r: Result<FullState, VncError>, q: Result<FullState, VncError>) -> bool {
    match (r, q) {
        (Ok(s), Ok(v)) => pictures_agree(s, v),
        (Err(e), Err(f)) => e == f,
        _ => false,
    }
}

proof fn lemma_bitmap_agrees(
    t: FullTask,
    u: FullTask,
    index: int,
    s: FullState,
    v: FullState,
    one: Seq<u8>,
    zero: Seq<u8>,
)
    requires
        like(t, u),
        pictures_agree(s, v),
    ensures
        answers_agree(
            crate::mvs_full::bitmap_tile(t, index, s, one, zero),
            crate::mvs_full::bitmap_tile(u, index, v, one, zero),
        ),
{
}

proof fn lemma_palette_agrees(t: FullTask, u: FullTask, index: int, s: FullState, v: FullState)
    requires
        like(t, u),
        pictures_agree(s, v),
    ensures
        answers_agree(
            crate::mvs_full::palette_tile(t, index, s),
            crate::mvs_full::palette_tile(u, index, v),
        ),
{
}

proof fn lemma_coefficients_agree(t: FullTask, u: FullTask, index: int, s: FullState, v: FullState)
    requires
        like(t, u),
        pictures_agree(s, v),
    ensures
        answers_agree(
            crate::mvs_full::coefficient_tile(t, index, s),
            crate::mvs_full::coefficient_tile(u, index, v),
        ),
{
}

proof fn lemma_tile_agrees(
    t: FullTask,
    u: FullTask,
    mode: int,
    index: int,
    s: FullState,
    v: FullState,
)
    requires
        like(t, u),
        pictures_agree(s, v),
        0 <= mode <= 5,
    ensures
        answers_agree(
            crate::mvs_full::tile_done(t, mode, index, s),
            crate::mvs_full::tile_done(u, mode, index, v),
        ),
{
    reveal(crate::mvs_full::tile_done);
    let a = crate::mvs_full::marked(t, index, s);
    let b = crate::mvs_full::marked(u, index, v);
    if mode == 3 {
        lemma_bitmap_agrees(
            t,
            u,
            index,
            a,
            b,
            crate::mvs_full::white(),
            crate::mvs_full::black(),
        );
    } else if mode == 4 {
        lemma_palette_agrees(t, u, index, a, b);
    } else if mode == 5 {
        lemma_coefficients_agree(t, u, index, a, b);
    }
}

proof fn lemma_run_agrees(
    t: FullTask,
    u: FullTask,
    mode: int,
    index: int,
    count: int,
    s: FullState,
    v: FullState,
)
    requires
        like(t, u),
        pictures_agree(s, v),
        0 <= mode <= 5,
    ensures
        answers_agree(
            crate::mvs_full::run_done(t, mode, index, count, s),
            crate::mvs_full::run_done(u, mode, index, count, v),
        ),
    decreases count,
{
    if count > 0 {
        lemma_tile_agrees(t, u, mode, index, s, v);
        match (
            crate::mvs_full::tile_done(t, mode, index, s),
            crate::mvs_full::tile_done(u, mode, index, v),
        ) {
            (Ok(a), Ok(b)) => lemma_run_agrees(t, u, mode, index + 1, count - 1, a, b),
            _ => {},
        }
    }
}

proof fn lemma_tiles_agree(
    t: FullTask,
    u: FullTask,
    pos: int,
    index: int,
    s: FullState,
    v: FullState,
)
    requires
        like(t, u),
        pictures_agree(s, v),
        needs_no_cache(t.modes, t.frame.tile_count(), pos, index),
    ensures
        match (
            crate::mvs_full::tiles_done(t, pos, index, s),
            crate::mvs_full::tiles_done(u, pos, index, v),
        ) {
            (Ok((a, p)), Ok((b, q))) => pictures_agree(a, b) && p == q,
            (Err(e), Err(f)) => e == f,
            _ => false,
        },
    decreases t.frame.tile_count() - index,
{
    if index < t.frame.tile_count() {
        if let (Ok(mode), p) = crate::mvs_bitstream::read_at(t.modes, pos, 3) {
            if let (Ok(repeat), p) = crate::mvs_bitstream::repeat_at(t.modes, p) {
                let count = repeat + 1;
                if count <= t.frame.tile_count() - index {
                    lemma_run_agrees(t, u, mode as int, index, count, s, v);
                    match (
                        crate::mvs_full::run_done(t, mode as int, index, count, s),
                        crate::mvs_full::run_done(u, mode as int, index, count, v),
                    ) {
                        (Ok(a), Ok(b)) => lemma_tiles_agree(t, u, p, index + count, a, b),
                        _ => {},
                    }
                }
            }
        }
    }
}

/// Whether a record at this place is one that a decoder can take: it has seen no surface, or one
/// of this size, and can count one record more.
pub open spec fn can_take(decoder: DecoderView, at: Place) -> bool {
    &&& decoder.committed_records < u64::MAX
    &&& decoder.surface matches Some(s) ==> s.width == at.surface_width && s.height
        == at.surface_height
}

/// The pixels of a record whose tiles need no cache do not depend on the records before it: two
/// decoders with the same tables decode it to the same pixels, or refuse it for the same reason.
pub proof fn law_pixels_need_no_history(
    d: DecoderView,
    e: DecoderView,
    record: MvsFullRecord<'_>,
    at: Place,
)
    requires
        d.tables == e.tables,
        can_take(d, at),
        can_take(e, at),
        frame_at(d, at) matches Ok(frame) ==> needs_no_cache(
            record.mode_stream@,
            frame.tile_count(),
            first_mode_at(task_of(d, record, frame)),
            0,
        ),
    ensures
        match (full_at(d, record, at), full_at(e, record, at)) {
            (Ok((p, _)), Ok((q, _))) => p == q,
            (Err(a), Err(b)) => a == b,
            _ => false,
        },
{
    match (frame_at(d, at), frame_at(e, at)) {
        (Ok(f), Ok(g)) => {
            let t = task_of(d, record, f);
            let u = task_of(e, record, g);
            lemma_tiles_agree(t, u, first_mode_at(t), 0, start_of(d, f), start_of(e, g));
        },
        _ => {},
    }
}

/// The later of two seeds, where there is one.
pub open spec fn later(
    newer: Option<SavedCoefficientSeed>,
    older: Option<SavedCoefficientSeed>,
) -> Option<SavedCoefficientSeed> {
    match newer {
        Some(seed) => Some(seed),
        None => older,
    }
}

/// The seed that tile `index` of a record brings to a tile of the surface: that of a tile of mode 5
/// that stands there, with coefficients of its own or those of the mode-5 tile before it.
pub open spec fn tile_seed(task: FullTask, mode: int, index: int, s: FullState, tile: int) -> Option<
    SavedCoefficientSeed,
> {
    if mode == 5 && task.frame.global_tile(index) == tile {
        match crate::mvs_tiles::mode_five_at(
            task.data,
            s.data_pos,
            s.previous,
            task.scale_threshold_a,
            task.scale_threshold_b,
        ).0 {
            Ok(own) => own.seed,
            Err(_) => None,
        }
    } else {
        None
    }
}

/// The seed that a run of tiles of one mode brings to a tile of the surface.
pub open spec fn run_seed(
    task: FullTask,
    mode: int,
    index: int,
    count: int,
    s: FullState,
    tile: int,
) -> Option<SavedCoefficientSeed>
    decreases count,
{
    if count <= 0 {
        None
    } else {
        match crate::mvs_full::tile_done(task, mode, index, s) {
            Err(_) => None,
            Ok(next) => later(
                run_seed(task, mode, index + 1, count - 1, next, tile),
                tile_seed(task, mode, index, s, tile),
            ),
        }
    }
}

/// The seed that the tiles from `index` on bring to a tile of the surface.
pub open spec fn tiles_seed(task: FullTask, pos: int, index: int, s: FullState, tile: int) -> Option<
    SavedCoefficientSeed,
>
    decreases task.frame.tile_count() - index,
{
    if index >= task.frame.tile_count() {
        None
    } else {
        match crate::mvs_bitstream::read_at(task.modes, pos, 3) {
            (Err(_), p) => None,
            (Ok(mode), p) => match crate::mvs_bitstream::repeat_at(task.modes, p) {
                (Err(_), p) => None,
                (Ok(repeat), p) => {
                    let count = repeat + 1;
                    if count > task.frame.tile_count() - index {
                        None
                    } else {
                        match crate::mvs_full::run_done(task, mode as int, index, count, s) {
                            Err(_) => None,
                            Ok(next) => later(
                                tiles_seed(task, p, index + count, next, tile),
                                run_seed(task, mode as int, index, count, s, tile),
                            ),
                        }
                    }
                },
            },
        }
    }
}

/// The seed that a full-frame record brings to a tile of the surface.
pub open spec fn record_seed(
    decoder: DecoderView,
    record: MvsFullRecord<'_>,
    at: Place,
    tile: int,
) -> Option<SavedCoefficientSeed> {
    match frame_at(decoder, at) {
        Err(_) => None,
        Ok(frame) => {
            let task = task_of(decoder, record, frame);
            tiles_seed(task, first_mode_at(task), 0, start_of(decoder, frame), tile)
        },
    }
}

/// Whether what a tile left is what was kept, with the seed that came.
spec fn seeded(
    before: Seq<SavedTileState>,
    after: Seq<SavedTileState>,
    tile: int,
    seed: Option<SavedCoefficientSeed>,
) -> bool {
    &&& after.len() == before.len()
    &&& after[tile].coefficients == later(seed, before[tile].coefficients)
}

/// The number of tiles of a surface.
spec fn tiles_of(frame: FullFrame) -> int {
    frame.surface_tiles_x() * crate::mvs_full::tiles_over(frame.surface_height as int)
}

proof fn lemma_coefficients_seed(task: FullTask, index: int, before: FullState, tile: int)
    requires
        0 <= task.frame.global_tile(index) < before.tiles.len(),
        0 <= tile < before.tiles.len(),
    ensures
        crate::mvs_full::coefficient_tile(
            task,
            index,
            crate::mvs_full::marked(task, index, before),
        ) matches Ok(next) ==> seeded(
            before.tiles,
            next.tiles,
            tile,
            tile_seed(task, 5, index, before, tile),
        ),
{
}

proof fn lemma_tile_seed(task: FullTask, mode: int, index: int, s: FullState, tile: int)
    requires
        task.frame.wf(),
        0 <= index < task.frame.tile_count(),
        s.tiles.len() == tiles_of(task.frame),
        0 <= tile < s.tiles.len(),
    ensures
        crate::mvs_full::tile_done(task, mode, index, s) matches Ok(next) ==> seeded(
            s.tiles,
            next.tiles,
            tile,
            tile_seed(task, mode, index, s, tile),
        ),
{
    crate::mvs_full::lemma_tile_place(task.frame, index);
    crate::mvs_full_laws::lemma_tile_keeps(task, mode, index, s);
    if mode == 5 {
        crate::mvs_full_laws::lemma_mode_of_tile(task, mode, index, s);
        lemma_coefficients_seed(task, index, s, tile);
    }
}

proof fn lemma_run_seed(task: FullTask, mode: int, index: int, count: int, s: FullState, tile: int)
    requires
        task.frame.wf(),
        0 <= index,
        index + count <= task.frame.tile_count(),
        s.tiles.len() == tiles_of(task.frame),
        0 <= tile < s.tiles.len(),
    ensures
        crate::mvs_full::run_done(task, mode, index, count, s) matches Ok(next) ==> seeded(
            s.tiles,
            next.tiles,
            tile,
            run_seed(task, mode, index, count, s, tile),
        ),
    decreases count,
{
    if count > 0 {
        lemma_tile_seed(task, mode, index, s, tile);
        match crate::mvs_full::tile_done(task, mode, index, s) {
            Err(_) => {},
            Ok(next) => lemma_run_seed(task, mode, index + 1, count - 1, next, tile),
        }
    }
}

proof fn lemma_tiles_seed(task: FullTask, pos: int, index: int, s: FullState, tile: int)
    requires
        task.frame.wf(),
        0 <= index,
        s.tiles.len() == tiles_of(task.frame),
        0 <= tile < s.tiles.len(),
    ensures
        crate::mvs_full::tiles_done(task, pos, index, s) matches Ok((next, _)) ==> seeded(
            s.tiles,
            next.tiles,
            tile,
            tiles_seed(task, pos, index, s, tile),
        ),
    decreases task.frame.tile_count() - index,
{
    if index < task.frame.tile_count() {
        if let (Ok(mode), p) = crate::mvs_bitstream::read_at(task.modes, pos, 3) {
            if let (Ok(repeat), p) = crate::mvs_bitstream::repeat_at(task.modes, p) {
                let count = repeat + 1;
                if count <= task.frame.tile_count() - index {
                    lemma_run_seed(task, mode as int, index, count, s, tile);
                    match crate::mvs_full::run_done(task, mode as int, index, count, s) {
                        Err(_) => {},
                        Ok(next) => lemma_tiles_seed(task, p, index + count, next, tile),
                    }
                }
            }
        }
    }
}

/// The seed that a decoder keeps of a tile of the surface.
pub open spec fn kept_seed(decoder: DecoderView, tile: int) -> Option<SavedCoefficientSeed> {
    match decoder.surface {
        Some(s) => s.tiles[tile].coefficients,
        None => None,
    }
}

/// The number of tiles that a decoder keeps something of once it has taken a record at this place.
pub open spec fn tiles_at(at: Place) -> int {
    crate::mvs_full::tiles_over(at.surface_width as int) * crate::mvs_full::tiles_over(
        at.surface_height as int,
    )
}

/// A full-frame record replaces the seeds of the tiles that it brings seeds to, and keeps the
/// others: a tile of another mode neither replaces a seed nor makes one.
pub proof fn law_record_brings_its_seeds(
    decoder: DecoderView,
    record: MvsFullRecord<'_>,
    at: Place,
    tile: int,
)
    requires
        decoder.surface matches Some(s) ==> s.wf(),
        0 <= tile < tiles_at(at),
    ensures
        full_at(decoder, record, at) matches Ok((_, next)) ==> {
            &&& kept_seed(next, tile) == later(
                record_seed(decoder, record, at, tile),
                kept_seed(decoder, tile),
            )
            &&& next.surface matches Some(s) && s.wf() && s.tiles.len() == tiles_at(at)
        },
{
    match frame_at(decoder, at) {
        Err(_) => {},
        Ok(frame) => {
            let task = task_of(decoder, record, frame);
            let start = start_of(decoder, frame);
            let (w, h) = (at.width as int, at.height as int);
            assert(w > 0 && h > 0) by (nonlinear_arith)
                requires
                    w * h != 0,
                    w >= 0,
                    h >= 0,
            ;
            crate::mvs_full::lemma_tiles_over(frame);
            lemma_tiles_seed(task, first_mode_at(task), 0, start, tile);
        },
    }
}

/// A record that arrives.
pub enum Arrival<'a> {
    Full(MvsFullRecord<'a>, Place),
    Partial(Seq<u8>, Place),
}

/// What a decoder becomes by a record: a record that is refused changes nothing of it.
pub open spec fn after(decoder: DecoderView, arrival: Arrival<'_>) -> DecoderView {
    match arrival {
        Arrival::Full(record, at) => match full_at(decoder, record, at) {
            Ok((_, next)) => next,
            Err(_) => decoder,
        },
        Arrival::Partial(payload, at) => match partial_at(decoder, payload, at) {
            Ok(next) => next,
            Err(_) => decoder,
        },
    }
}

/// A decoder that has seen no record.
pub open spec fn fresh(tables: MvsTables) -> DecoderView {
    DecoderView {
        tables,
        committed_records: 0,
        surface: None,
        cache: crate::mvs_cache::empty_cache(),
    }
}

/// What a new decoder becomes by records, one behind the other.
pub open spec fn after_all(tables: MvsTables, arrivals: Seq<Arrival<'_>>) -> DecoderView
    decreases arrivals.len(),
{
    if arrivals.len() == 0 {
        fresh(tables)
    } else {
        after(after_all(tables, arrivals.drop_last()), arrivals.last())
    }
}

/// The last seed that one of the records that were accepted brought to a tile of the surface.
pub open spec fn last_seed(tables: MvsTables, arrivals: Seq<Arrival<'_>>, tile: int) -> Option<
    SavedCoefficientSeed,
>
    decreases arrivals.len(),
{
    if arrivals.len() == 0 {
        None
    } else {
        let before = after_all(tables, arrivals.drop_last());
        let older = last_seed(tables, arrivals.drop_last(), tile);
        match arrivals.last() {
            Arrival::Full(record, at) => if full_at(before, record, at) is Ok {
                later(record_seed(before, record, at, tile), older)
            } else {
                older
            },
            Arrival::Partial(_, _) => older,
        }
    }
}

/// Over any records, accepted or refused, what a decoder keeps of a tile is the last seed that an
/// accepted full-frame record brought to it; without one it keeps none.
pub proof fn law_kept_seed_is_the_last_brought(
    tables: MvsTables,
    arrivals: Seq<Arrival<'_>>,
    tile: int,
)
    requires
        after_all(tables, arrivals).surface matches Some(s) ==> 0 <= tile < s.tiles.len(),
        0 <= tile,
    ensures
        after_all(tables, arrivals).surface matches Some(s) ==> s.wf(),
        kept_seed(after_all(tables, arrivals), tile) == last_seed(tables, arrivals, tile),
    decreases arrivals.len(),
{
    if arrivals.len() > 0 {
        let before = after_all(tables, arrivals.drop_last());
        lemma_surfaces_fit(tables, arrivals.drop_last());
        match arrivals.last() {
            Arrival::Full(record, at) => {
                if full_at(before, record, at) is Ok {
                    lemma_same_tiles(before, record, at);
                    law_kept_seed_is_the_last_brought(tables, arrivals.drop_last(), tile);
                    law_record_brings_its_seeds(before, record, at, tile);
                } else {
                    law_kept_seed_is_the_last_brought(tables, arrivals.drop_last(), tile);
                }
            },
            Arrival::Partial(payload, at) => {
                law_kept_seed_is_the_last_brought(tables, arrivals.drop_last(), tile);
            },
        }
    }
}

/// A record that is accepted leaves a surface of its size, which is the one that was there, where
/// there was one.
proof fn lemma_same_tiles(decoder: DecoderView, record: MvsFullRecord<'_>, at: Place)
    requires
        decoder.surface matches Some(s) ==> s.wf(),
        full_at(decoder, record, at) is Ok,
    ensures
        after(decoder, Arrival::Full(record, at)).surface matches Some(s) && s.wf() && s.tiles.len()
            == tiles_at(at),
        decoder.surface matches Some(s) ==> s.tiles.len() == tiles_at(at),
{
    let frame = frame_at(decoder, at)->Ok_0;
    let (w, h) = (at.width as int, at.height as int);
    assert(w > 0 && h > 0) by (nonlinear_arith)
        requires
            w * h != 0,
            w >= 0,
            h >= 0,
    ;
    crate::mvs_full::lemma_tiles_over(frame);
    let (a, b) = (
        crate::mvs_full::tiles_over(at.surface_width as int),
        crate::mvs_full::tiles_over(at.surface_height as int),
    );
    assert(0 < a * b) by (nonlinear_arith)
        requires
            0 < a,
            0 < b,
    ;
    law_record_brings_its_seeds(decoder, record, at, 0);
}

proof fn lemma_surfaces_fit(tables: MvsTables, arrivals: Seq<Arrival<'_>>)
    ensures
        after_all(tables, arrivals).surface matches Some(s) ==> s.wf(),
    decreases arrivals.len(),
{
    if arrivals.len() > 0 {
        let before = after_all(tables, arrivals.drop_last());
        lemma_surfaces_fit(tables, arrivals.drop_last());
        if let Arrival::Full(record, at) = arrivals.last() {
            if full_at(before, record, at) is Ok {
                lemma_same_tiles(before, record, at);
            }
        }
    }
}

/// Whether one of the partial tiles from `index` on refines what is kept of a tile.
pub open spec fn refines(task: PartialTask, index: int, s: PartialState, tile: int) -> bool
    decreases task.frame.tile_count() - index,
{
    if index >= task.frame.tile_count() {
        false
    } else {
        let opcode = crate::mvs_bitstream::read_at(task.bytes, s.pos, 2).0;
        let here = opcode == Ok::<u32, VncError>(1) && task.frame.global_tile(index) == tile;
        here || match crate::mvs_partial_record::partial_step(task, index, s) {
            Err(_) => false,
            Ok(next) => refines(task, index + 1, next, tile),
        }
    }
}

proof fn lemma_refining_needs_a_seed(task: PartialTask, index: int, s: PartialState, tile: int)
    requires
        crate::mvs_partial_record::partial_tiles_done(task, index, s) is Ok,
        refines(task, index, s, tile),
    ensures
        task.surface.tiles[tile].coefficients is Some,
    decreases task.frame.tile_count() - index,
{
    if index < task.frame.tile_count() {
        reveal(crate::mvs_partial_record::partial_step);
        match crate::mvs_partial_record::partial_step(task, index, s) {
            Err(_) => {},
            Ok(next) => {
                if refines(task, index + 1, next, tile) {
                    lemma_refining_needs_a_seed(task, index + 1, next, tile);
                }
            },
        }
    }
}

/// Whether a partial record refines what is kept of a tile.
pub open spec fn record_refines(decoder: DecoderView, payload: Seq<u8>, at: Place, tile: int) -> bool {
    match crate::mvs_partial_record::partial_frame(
        decoder,
        payload,
        at.rect_x,
        at.rect_y,
        at.width,
        at.height,
        at.surface_width,
        at.surface_height,
    ) {
        Err(_) => false,
        Ok(frame) => refines(
            crate::mvs_partial_record::partial_task(decoder, payload, frame),
            0,
            PartialState { cache: decoder.cache, events: Seq::empty(), pos: 0 },
            tile,
        ),
    }
}

/// A partial record that refines a tile is accepted only where an accepted full-frame record before
/// it brought a seed to that tile.
pub proof fn law_refining_needs_a_seed(
    tables: MvsTables,
    arrivals: Seq<Arrival<'_>>,
    payload: Seq<u8>,
    at: Place,
    tile: int,
)
    requires
        after_all(tables, arrivals).surface matches Some(s) ==> 0 <= tile < s.tiles.len(),
        0 <= tile,
        partial_at(after_all(tables, arrivals), payload, at) is Ok,
        record_refines(after_all(tables, arrivals), payload, at, tile),
    ensures
        last_seed(tables, arrivals, tile) is Some,
{
    let decoder = after_all(tables, arrivals);
    let frame = crate::mvs_partial_record::partial_frame(
        decoder,
        payload,
        at.rect_x,
        at.rect_y,
        at.width,
        at.height,
        at.surface_width,
        at.surface_height,
    )->Ok_0;
    lemma_refining_needs_a_seed(
        crate::mvs_partial_record::partial_task(decoder, payload, frame),
        0,
        PartialState { cache: decoder.cache, events: Seq::empty(), pos: 0 },
        tile,
    );
    law_kept_seed_is_the_last_brought(tables, arrivals, tile);
}

/// Whether the bytes that end a partial record stand at `pos`.
pub open spec fn ends_at(bytes: Seq<u8>, pos: int) -> bool {
    forall|k: int|
        0 <= k < 3 ==> #[trigger] crate::mvs_bitstream::read_at(bytes, pos + 8 * k, 8) == (
            Ok::<u32, VncError>(crate::mvs_partial_record::partial_terminals()[k] as u32),
            pos + 8 * k + 8,
        )
}

/// Whether the two bits at `pos` are this opcode.
pub open spec fn has_opcode(bytes: Seq<u8>, pos: int, opcode: u32) -> bool {
    crate::mvs_bitstream::read_at(bytes, pos, 2) == (Ok::<u32, VncError>(opcode), pos + 2)
}

/// Whether this is a partial record of `count` tiles of opcode 0.
pub open spec fn leaves_all(payload: Seq<u8>, count: int) -> bool {
    &&& payload.len() >= 3
    &&& payload[0] == 1
    &&& forall|i: int| 0 <= i < count ==> #[trigger] has_opcode(payload.skip(3), 2 * i, 0)
    &&& ends_at(payload.skip(3), 2 * count)
}

/// Where a rectangle of this size lies, where it lies on the surface.
pub open spec fn lies_on_surface(at: Place) -> bool {
    &&& 0 < at.width
    &&& 0 < at.height
    &&& at.rect_x + at.width <= at.surface_width
    &&& at.rect_y + at.height <= at.surface_height
}

/// The number of tiles of a rectangle.
pub open spec fn rectangle_tiles(at: Place) -> int {
    crate::mvs_full::tiles_over(at.width as int) * crate::mvs_full::tiles_over(at.height as int)
}

proof fn lemma_ended(task: PartialTask, pos: int)
    requires
        ends_at(task.bytes, pos),
    ensures
        crate::mvs_partial_record::partial_terminals_at(task, pos, 0) is Ok,
{
    reveal_with_fuel(crate::mvs_partial_record::partial_terminals_at, 4);
    let told = |k: int| crate::mvs_bitstream::read_at(task.bytes, pos + 8 * k, 8);
    assert(crate::mvs_bitstream::read_at(task.bytes, pos + 8 * 0, 8) == told(0));
    assert(crate::mvs_bitstream::read_at(task.bytes, pos + 8 * 1, 8) == told(1));
    assert(crate::mvs_bitstream::read_at(task.bytes, pos + 8 * 2, 8) == told(2));
}

proof fn lemma_left_alone(task: PartialTask, index: int, s: PartialState)
    requires
        0 <= index <= task.frame.tile_count(),
        s.pos == 2 * index,
        forall|i: int|
            0 <= i < task.frame.tile_count() ==> #[trigger] has_opcode(task.bytes, 2 * i, 0),
    ensures
        crate::mvs_partial_record::partial_tiles_done(task, index, s) == Ok::<
            PartialState,
            VncError,
        >(PartialState { pos: 2 * task.frame.tile_count(), ..s }),
    decreases task.frame.tile_count() - index,
{
    if index < task.frame.tile_count() {
        reveal(crate::mvs_partial_record::partial_step);
        assert(has_opcode(task.bytes, 2 * index, 0));
        lemma_left_alone(task, index + 1, PartialState { pos: s.pos + 2, ..s });
    }
}

/// Without a committed full-frame record every partial record is refused: preparing one does not
/// commit it, and leaves the decoder as it was.
pub proof fn law_partial_needs_a_commit(decoder: DecoderView, payload: Seq<u8>, at: Place)
    requires
        decoder.surface is None,
    ensures
        partial_at(decoder, payload, at) is Err,
{
}

/// Committing a full-frame record publishes its surface: then a partial record that leaves all its
/// tiles is accepted at every rectangle of that surface and changes nothing, and a full-frame
/// record for a surface of another size is refused.
pub proof fn law_commit_publishes_the_surface(
    decoder: DecoderView,
    record: MvsFullRecord<'_>,
    at: Place,
    payload: Seq<u8>,
    rectangle: Place,
    later_record: MvsFullRecord<'_>,
    elsewhere: Place,
)
    requires
        full_at(decoder, record, at) is Ok,
        rectangle.surface_width == at.surface_width,
        rectangle.surface_height == at.surface_height,
        lies_on_surface(rectangle),
        leaves_all(payload, rectangle_tiles(rectangle)),
        elsewhere.surface_width != at.surface_width || elsewhere.surface_height
            != at.surface_height,
    ensures
        ({
            let committed = (full_at(decoder, record, at)->Ok_0).1;
            &&& partial_at(committed, payload, rectangle) == Ok::<DecoderView, VncError>(committed)
            &&& full_at(committed, later_record, elsewhere) is Err
        }),
{
    let committed = (full_at(decoder, record, at)->Ok_0).1;
    let (w, h) = (at.surface_width as int, at.surface_height as int);
    assert(w > 0 && h > 0) by (nonlinear_arith)
        requires
            w * h != 0,
            w >= 0,
            h >= 0,
    ;
    let frame = FullFrame {
        rect_x: rectangle.rect_x,
        rect_y: rectangle.rect_y,
        width: rectangle.width,
        height: rectangle.height,
        surface_width: rectangle.surface_width,
        surface_height: rectangle.surface_height,
        generation: committed.committed_records,
    };
    let task = crate::mvs_partial_record::partial_task(committed, payload, frame);
    let start = PartialState { cache: committed.cache, events: Seq::empty(), pos: 0 };
    let count = frame.tile_count();
    let (a, b) = (frame.tiles_x(), crate::mvs_full::tiles_over(frame.height as int));
    assert(0 <= a * b) by (nonlinear_arith)
        requires
            0 <= a,
            0 <= b,
    ;
    lemma_left_alone(task, 0, start);
    lemma_ended(task, 2 * count);
}

/// Whether this is a partial record of one tile that looks up the cache entry `index`.
pub open spec fn looks_up(payload: Seq<u8>, index: u16) -> bool {
    let bytes = payload.skip(3);
    &&& payload.len() >= 3
    &&& payload[0] == 1
    &&& has_opcode(bytes, 0, 3)
    &&& crate::mvs_partial_record::partial_index_at(bytes, 2, 0) == (
        Ok::<u16, VncError>(index),
        19int,
    )
    &&& crate::mvs_bitstream::read_at(bytes, 2, 1).0 == Ok::<u32, VncError>(0)
    &&& ends_at(bytes, 19)
}

/// Whether an index names an entry of the cache: it names a slot other than the first, there were
/// at least so many fillings, and the slot was filled.
pub open spec fn names_an_entry(decoder: DecoderView, index: u16) -> bool {
    &&& 0 < index < crate::mvs_cache::MVS_CACHE_SLOT_COUNT
    &&& index <= decoder.cache.population_count
    &&& decoder.cache.entries[index as int] is Some
}

/// Looking up an index that names no entry of the cache is no failure and changes nothing: neither a
/// slot, nor the index that was last looked up, nor the one that was last filled, nor the number of
/// fillings. An index that names an entry becomes the one that was last looked up, and that is all.
pub proof fn law_lookup_changes_the_cursor_alone(
    decoder: DecoderView,
    payload: Seq<u8>,
    at: Place,
    index: u16,
)
    requires
        decoder.surface matches Some(s) && s.width == at.surface_width && s.height
            == at.surface_height,
        lies_on_surface(at),
        rectangle_tiles(at) == 1,
        looks_up(payload, index),
    ensures
        partial_at(decoder, payload, at) == Ok::<DecoderView, VncError>(
            if names_an_entry(decoder, index) {
                DecoderView {
                    cache: crate::mvs_cache::CacheView {
                        previous_cache_index: index,
                        ..decoder.cache
                    },
                    ..decoder
                }
            } else {
                decoder
            },
        ),
{
    reveal(crate::mvs_partial_record::partial_step);
    reveal_with_fuel(crate::mvs_partial_record::partial_tiles_done, 3);
    let frame = FullFrame {
        rect_x: at.rect_x,
        rect_y: at.rect_y,
        width: at.width,
        height: at.height,
        surface_width: at.surface_width,
        surface_height: at.surface_height,
        generation: decoder.committed_records,
    };
    let task = crate::mvs_partial_record::partial_task(decoder, payload, frame);
    let start = PartialState { cache: decoder.cache, events: Seq::empty(), pos: 0 };
    let previous = decoder.cache.previous_cache_index;
    assert(frame.tile_count() == 1);
    assert(crate::mvs_partial_record::partial_index_at(task.bytes, 2, previous)
        == crate::mvs_partial_record::partial_index_at(task.bytes, 2, 0));
    let step = crate::mvs_partial_record::partial_step(task, 0, start);
    assert(step is Ok && (step->Ok_0).pos == 19);
    lemma_ended(task, 19);
}

} // verus!
