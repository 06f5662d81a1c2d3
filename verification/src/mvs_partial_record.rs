//! The decoder of partial MVS records, which fill the tile cache and publish no pixels.

use vstd::prelude::*;
use crate::error::{context, VncError, TilePlace};
use crate::mvs_bitstream::BitReader;
use crate::mvs_cache::{
    cache_entry_coefficients, lookup_cache_entry, stage_cache_population, CacheView, MvsCacheState,
};
use crate::mvs_full::{DecoderView, FullFrame, MvsFullDecoder, MvsSurfaceState, SurfaceView};
use crate::mvs_partial::{prepare_partial_cache_entry, run_partial_idct_scratch};
use crate::mvs_tiles::SavedTileState;
use crate::mvs_wire::MvsTables;

verus! {

/// A step of the handling of a partial tile that others must come before or after.
#[derive(Clone, Copy, Debug, PartialEq, Eq, Structural)]
pub enum PartialOrderEvent {
    /// A tile was rendered into a buffer of its own.
    IdctScratch,
    /// An entry was put into the cache.
    CachePopulation,
}

/// A partial record that is not installed yet: the state that it leads to and the steps taken.
#[derive(Debug)]
pub struct PreparedMvsOpaqueState {
    pub next_decoder: MvsFullDecoder,
    pub events: Vec<PartialOrderEvent>,
}

/// Why a kept reference is refused, where it is. A tile without one and a tile whose source was
/// painted by another record are fine.
pub open spec fn reference_refusal(surface: SurfaceView, tile: SavedTileState) -> Option<VncError> {
    match tile.reference {
        None => None,
        Some(reference) => if reference.tile_index >= surface.tiles.len() {
            Some(VncError::Text("MVS type-1 opcode 2 saved reference tile 越界"))
        } else if surface.tiles[reference.tile_index as int].generation != tile.generation {
            None
        } else if reference.framebuffer_offset >= surface.width * surface.height * 4 {
            Some(VncError::Text("MVS type-1 opcode 2 framebuffer offset 越界"))
        } else {
            None
        },
    }
}

/// Where a partial record works, or why it cannot.
pub open spec fn partial_frame(
    decoder: DecoderView,
    payload: Seq<u8>,
    rect_x: usize,
    rect_y: usize,
    width: usize,
    height: usize,
    surface_width: usize,
    surface_height: usize,
) -> Result<FullFrame, VncError> {
    if payload.len() < 3 || payload[0] != 1 {
        Err(VncError::Text("MVS type-1 payload 头部非法"))
    } else if width == 0 || height == 0 || surface_width == 0 || surface_height == 0 {
        Err(VncError::Text("MVS type-1 矩形与 surface 尺寸不能为零"))
    } else if rect_x + width > usize::MAX {
        Err(VncError::Text("MVS type-1 矩形右边界溢出"))
    } else if rect_y + height > usize::MAX {
        Err(VncError::Text("MVS type-1 矩形下边界溢出"))
    } else if rect_x + width > surface_width || rect_y + height > surface_height {
        Err(VncError::Text("MVS type-1 矩形超出当前 surface"))
    } else {
        match decoder.surface {
            None => Err(VncError::Text("MVS type-1 缺少已提交的 full-frame tile 状态")),
            Some(s) => if s.width != surface_width || s.height != surface_height {
                Err(VncError::Text("MVS type-1 surface 几何与 generation-scoped decoder 不一致"))
            } else {
                Ok(
                    FullFrame {
                        rect_x,
                        rect_y,
                        width,
                        height,
                        surface_width,
                        surface_height,
                        generation: decoder.committed_records,
                    },
                )
            },
        }
    }
}

/// A partial record and what it is decoded against.
pub struct PartialTask {
    pub frame: FullFrame,
    pub surface: SurfaceView,
    pub bytes: Seq<u8>,
    pub cb_extent: int,
    pub cr_extent: int,
}

/// How far a partial record has been decoded.
#[verifier::ext_equal]
pub struct PartialState {
    pub cache: CacheView,
    pub events: Seq<PartialOrderEvent>,
    pub pos: int,
}

/// Where tile `index` stands.
pub open spec fn tile_place(frame: FullFrame, index: int) -> TilePlace {
    TilePlace {
        rect_x: frame.rect_x,
        rect_y: frame.rect_y,
        width: frame.width,
        height: frame.height,
        local_index: index as usize,
        local_row: frame.tile_row(index) as usize,
        local_col: frame.tile_column(index) as usize,
        global_index: frame.global_tile(index) as usize,
        global_row: (frame.rect_y as int / 8 + frame.tile_row(index)) as usize,
        global_col: (frame.rect_x as int / 8 + frame.tile_column(index)) as usize,
    }
}

/// Opcode 1: the kept coefficients are refined and the result is put into the cache. The tile is
/// rendered before it is put there.
pub open spec fn refined_tile(task: PartialTask, tile: SavedTileState, s: PartialState) -> (
    Result<PartialState, VncError>,
    int,
) {
    match tile.coefficients {
        None => (Err(VncError::Text("MVS type-1 opcode 1 缺少 full-frame 系数 seed")), s.pos),
        Some(seed) => match crate::mvs_partial::partial_entry_at(
            task.bytes,
            s.pos,
            seed,
            task.cb_extent,
            task.cr_extent,
        ) {
            (Err(e), p) => (Err(e), p),
            (Ok(entry), p) => match crate::mvs_cache::populated(s.cache, entry) {
                Err(e) => (Err(e), p),
                Ok(cache) => (
                    Ok(
                        PartialState {
                            cache,
                            events: s.events.push(PartialOrderEvent::IdctScratch).push(
                                PartialOrderEvent::CachePopulation,
                            ),
                            pos: p,
                        },
                    ),
                    p,
                ),
            },
        },
    }
}

/// The cache index of opcode 3: the next one, or one from the stream.
pub open spec fn partial_index_at(bytes: Seq<u8>, pos: int, previous: u16) -> (
    Result<u16, VncError>,
    int,
) {
    match crate::mvs_bitstream::read_at(bytes, pos, 1) {
        (Err(e), p) => (Err(crate::error::within("MVS type-1 opcode 3 缺少 selector", e)), p),
        (Ok(selector), p) => if selector != 0 {
            (Ok(previous.wrapping_add(1)), p)
        } else {
            match crate::mvs_bitstream::read_at(bytes, p, 8) {
                (Err(e), p) => (Err(crate::error::within("MVS type-1 opcode 3 缺少高字节", e)), p),
                (Ok(high), p) => match crate::mvs_bitstream::read_at(bytes, p, 8) {
                    (Err(e), p) => (
                        Err(crate::error::within("MVS type-1 opcode 3 缺少低字节", e)),
                        p,
                    ),
                    (Ok(low), p) => (Ok((high * 256 + low) as u16), p),
                },
            }
        },
    }
}

/// Opcode 3: a cache entry is rendered and becomes the last one looked up. An index that names no
/// entry changes nothing.
pub open spec fn looked_up_tile(task: PartialTask, s: PartialState) -> (
    Result<PartialState, VncError>,
    int,
) {
    match partial_index_at(task.bytes, s.pos, s.cache.previous_cache_index) {
        (Err(e), p) => (Err(e), p),
        (Ok(index), p) => match crate::mvs_cache::cached(s.cache, index) {
            Err(_) => (Ok(PartialState { pos: p, ..s }), p),
            Ok(_) => (
                Ok(
                    PartialState {
                        cache: CacheView { previous_cache_index: index, ..s.cache },
                        events: s.events.push(PartialOrderEvent::IdctScratch),
                        pos: p,
                    },
                ),
                p,
            ),
        },
    }
}

/// The state after the body of a partial tile, and the place in the stream where it ended.
pub open spec fn partial_tile_done(
    task: PartialTask,
    tile: SavedTileState,
    opcode: int,
    s: PartialState,
) -> (Result<PartialState, VncError>, int) {
    if opcode == 0 {
        (Ok(s), s.pos)
    } else if opcode == 1 {
        refined_tile(task, tile, s)
    } else if opcode == 2 {
        match reference_refusal(task.surface, tile) {
            Some(e) => (Err(e), s.pos),
            None => (Ok(s), s.pos),
        }
    } else {
        looked_up_tile(task, s)
    }
}

/// The state after one partial tile: an opcode of two bits and its body.
#[verifier::opaque]
pub open spec fn partial_step(task: PartialTask, index: int, s: PartialState) -> Result<
    PartialState,
    VncError,
> {
    let place = tile_place(task.frame, index);
    match crate::mvs_bitstream::read_at(task.bytes, s.pos, 2) {
        (Err(e), p) => Err(
            VncError::PartialOpcode {
                place,
                opcode_start_bit: s.pos as usize,
                failure_bit: p as usize,
                cause: Box::new(crate::error::within("MVS type-1 opcode 不完整", e)),
            },
        ),
        (Ok(opcode), p) => match partial_tile_done(
            task,
            task.surface.tiles[task.frame.global_tile(index)],
            opcode as int,
            PartialState { pos: p, ..s },
        ) {
            (Err(e), p) => Err(
                VncError::PartialTile {
                    place,
                    opcode: opcode as u8,
                    opcode_start_bit: s.pos as usize,
                    failure_bit: p as usize,
                    cause: Box::new(e),
                },
            ),
            (Ok(next), p) => Ok(next),
        },
    }
}

/// The state after all partial tiles from `index` on.
pub open spec fn partial_tiles_done(task: PartialTask, index: int, s: PartialState) -> Result<
    PartialState,
    VncError,
>
    decreases task.frame.tile_count() - index,
{
    if index >= task.frame.tile_count() {
        Ok(s)
    } else {
        match partial_step(task, index, s) {
            Err(e) => Err(e),
            Ok(next) => partial_tiles_done(task, index + 1, next),
        }
    }
}

/// The bytes that end a partial record.
pub open spec fn partial_terminals() -> Seq<u8> {
    seq![0x6du8, 0x76u8, 0x73u8]
}

/// Whether the terminal bytes from the given one on stand at `pos`.
pub open spec fn partial_terminals_at(task: PartialTask, pos: int, terminal: int) -> Result<(), VncError>
    decreases 3 - terminal,
{
    if terminal >= 3 {
        Ok(())
    } else {
        let frame = task.frame;
        let told = crate::mvs_bitstream::read_at(task.bytes, pos, 8);
        let cause = match told.0 {
            Err(e) => Some(crate::error::within("MVS type-1 位流缺少终止符", e)),
            Ok(byte) => if byte != partial_terminals()[terminal] {
                Some(VncError::Byte { before: "MVS type-1 位流终止符非法: ", byte: byte as u8 })
            } else {
                None
            },
        };
        match cause {
            Some(cause) => Err(
                VncError::PartialTerminal {
                    rect_x: frame.rect_x,
                    rect_y: frame.rect_y,
                    width: frame.width,
                    height: frame.height,
                    terminal_index: terminal as usize,
                    terminal_bit: pos as usize,
                    failure_bit: told.1 as usize,
                    cause: Box::new(cause),
                },
            ),
            None => partial_terminals_at(task, told.1, terminal + 1),
        }
    }
}

/// The lesser of an extent and 64.
pub open spec fn extent_of(byte: u8) -> int {
    if byte < 64 {
        byte as int
    } else {
        64
    }
}

/// What a partial record is decoded against, once it is known where it works.
pub open spec fn partial_task(decoder: DecoderView, payload: Seq<u8>, frame: FullFrame) -> PartialTask {
    PartialTask {
        frame,
        surface: decoder.surface->0,
        bytes: payload.skip(3),
        cb_extent: extent_of(payload[1]),
        cr_extent: extent_of(payload[2]),
    }
}

/// The state that a partial record leads to and the steps taken. Only the cache changes.
pub open spec fn partial_decoded(
    decoder: DecoderView,
    payload: Seq<u8>,
    rect_x: usize,
    rect_y: usize,
    width: usize,
    height: usize,
    surface_width: usize,
    surface_height: usize,
) -> Result<(DecoderView, Seq<PartialOrderEvent>), VncError> {
    match partial_frame(
        decoder,
        payload,
        rect_x,
        rect_y,
        width,
        height,
        surface_width,
        surface_height,
    ) {
        Err(e) => Err(e),
        Ok(frame) => {
            let task = partial_task(decoder, payload, frame);
            match partial_tiles_done(
                task,
                0,
                PartialState { cache: decoder.cache, events: Seq::empty(), pos: 0 },
            ) {
                Err(e) => Err(e),
                Ok(s) => match partial_terminals_at(task, s.pos, 0) {
                    Err(e) => Err(e),
                    Ok(_) => Ok((DecoderView { cache: s.cache, ..decoder }, s.events)),
                },
            }
        },
    }
}

/// Accepts a tile whose kept reference, if it still holds, lies inside the surface.
pub fn validate_saved_reference(surface: &MvsSurfaceState, tile: &SavedTileState) -> (r: Result<
    (),
    VncError,
>)
    requires
        surface@.wf(),
    ensures
        r == (match reference_refusal(surface@, *tile) {
            None => Ok(()),
            Some(e) => Err(e),
        }),
{
    let reference = match tile.reference {
        None => {
            return Ok(());
        },
        Some(reference) => reference,
    };
    if reference.tile_index >= surface.tiles.len() {
        return Err(VncError::Text("MVS type-1 opcode 2 saved reference tile 越界"));
    }
    if surface.tiles[reference.tile_index].generation != tile.generation {
        return Ok(());
    }
    if reference.framebuffer_offset >= surface.width * surface.height * 4 {
        return Err(VncError::Text("MVS type-1 opcode 2 framebuffer offset 越界"));
    }
    Ok(())
}

/// Whether the body of a tile answered and left what `expected` says.
spec fn partial_reached(
    r: Result<(), VncError>,
    cache: CacheView,
    events: Seq<PartialOrderEvent>,
    pos: int,
    expected: (Result<PartialState, VncError>, int),
) -> bool {
    &&& pos == expected.1
    &&& match expected.0 {
        Ok(s) => r is Ok && (PartialState { cache, events, pos }) =~= s,
        Err(e) => r == Err::<(), VncError>(e),
    }
}

/// Handles opcode 3.
fn stage_lookup(
    reader: &mut BitReader<'_>,
    cache: &mut MvsCacheState,
    events: &mut Vec<PartialOrderEvent>,
    tables: &MvsTables,
    Ghost(task): Ghost<PartialTask>,
) -> (r: Result<(), VncError>)
    requires
        old(reader).wf(),
        old(cache).wf(),
        task.bytes == old(reader).bytes@,
    ensures
        final(reader).wf(),
        final(reader).bytes == old(reader).bytes,
        final(cache).wf(),
        partial_reached(
            r,
            final(cache)@,
            final(events)@,
            final(reader).position as int,
            looked_up_tile(
                task,
                PartialState {
                    cache: old(cache)@,
                    events: old(events)@,
                    pos: old(reader).position as int,
                },
            ),
        ),
{
    let selector: u32 = context(reader.read_bits(1), "MVS type-1 opcode 3 缺少 selector")?;
    let index: u16 = if selector != 0 {
        cache.previous_cache_index.wrapping_add(1)
    } else {
        let high: u8 = context(reader.read_u8(), "MVS type-1 opcode 3 缺少高字节")?;
        let low: u8 = context(reader.read_u8(), "MVS type-1 opcode 3 缺少低字节")?;
        high as u16 * 256 + low as u16
    };
    match lookup_cache_entry(cache, index) {
        Ok(entry) => {
            let _scratch: [u8; 192] = run_partial_idct_scratch(
                &cache_entry_coefficients(&entry),
                tables,
            );
            events.push(PartialOrderEvent::IdctScratch);
            cache.previous_cache_index = index;
        },
        Err(_) => {},
    }
    Ok(())
}

/// Handles the body of a partial tile.
fn stage_partial_tile(
    reader: &mut BitReader<'_>,
    cache: &mut MvsCacheState,
    events: &mut Vec<PartialOrderEvent>,
    tables: &MvsTables,
    surface: &MvsSurfaceState,
    tile: &SavedTileState,
    opcode: u32,
    cb_extent: usize,
    cr_extent: usize,
    Ghost(task): Ghost<PartialTask>,
) -> (r: Result<(), VncError>)
    requires
        old(reader).wf(),
        old(cache).wf(),
        surface@.wf(),
        opcode < 4,
        cb_extent <= 64,
        cr_extent <= 64,
        task.bytes == old(reader).bytes@,
        task.surface == surface@,
        task.cb_extent == cb_extent,
        task.cr_extent == cr_extent,
    ensures
        final(reader).wf(),
        final(reader).bytes == old(reader).bytes,
        final(cache).wf(),
        partial_reached(
            r,
            final(cache)@,
            final(events)@,
            final(reader).position as int,
            partial_tile_done(
                task,
                *tile,
                opcode as int,
                PartialState {
                    cache: old(cache)@,
                    events: old(events)@,
                    pos: old(reader).position as int,
                },
            ),
        ),
{
    if opcode == 0 {
        Ok(())
    } else if opcode == 1 {
        let entry: [i8; 99] = match &tile.coefficients {
            None => {
                return Err(VncError::Text("MVS type-1 opcode 1 缺少 full-frame 系数 seed"));
            },
            Some(seed) => prepare_partial_cache_entry(reader, seed, cb_extent, cr_extent, tables)?,
        };
        events.push(PartialOrderEvent::IdctScratch);
        stage_cache_population(cache, entry)?;
        events.push(PartialOrderEvent::CachePopulation);
        Ok(())
    } else if opcode == 2 {
        validate_saved_reference(surface, tile)
    } else {
        stage_lookup(reader, cache, events, tables, Ghost(task))
    }
}

/// The lesser of an extent and 64.
fn clip_extent(byte: u8) -> (r: usize)
    ensures
        r == extent_of(byte),
        r <= 64,
{
    if byte < 64 {
        byte as usize
    } else {
        64
    }
}

/// Reads the terminal bytes of a partial record.
fn read_partial_terminals(
    reader: &mut BitReader<'_>,
    frame: &FullFrame,
    Ghost(task): Ghost<PartialTask>,
) -> (r: Result<(), VncError>)
    requires
        old(reader).wf(),
        task.bytes == old(reader).bytes@,
        task.frame == *frame,
    ensures
        r == partial_terminals_at(task, old(reader).position as int, 0),
{
    let expected: [u8; 3] = [0x6d, 0x76, 0x73];
    assert(expected@ =~= partial_terminals());
    let ghost goal = partial_terminals_at(task, reader.position as int, 0);
    let mut terminal: usize = 0;
    while terminal < 3
        invariant
            terminal <= 3,
            reader.wf(),
            task.bytes == reader.bytes@,
            task.frame == *frame,
            expected@ == partial_terminals(),
            goal == partial_terminals_at(task, old(reader).position as int, 0),
            goal == partial_terminals_at(task, reader.position as int, terminal as int),
        decreases 3 - terminal,
    {
        let terminal_bit: usize = reader.bit_position();
        let outcome: Result<(), VncError> = match context(
            reader.read_u8(),
            "MVS type-1 位流缺少终止符",
        ) {
            Err(e) => Err(e),
            Ok(actual) => if actual != expected[terminal] {
                Err(VncError::Byte { before: "MVS type-1 位流终止符非法: ", byte: actual })
            } else {
                Ok(())
            },
        };
        match outcome {
            Ok(_) => {},
            Err(cause) => {
                return Err(
                    VncError::PartialTerminal {
                        rect_x: frame.rect_x,
                        rect_y: frame.rect_y,
                        width: frame.width,
                        height: frame.height,
                        terminal_index: terminal,
                        terminal_bit,
                        failure_bit: reader.bit_position(),
                        cause: Box::new(cause),
                    },
                );
            },
        }
        terminal = terminal + 1;
    }
    Ok(())
}

/// Whether a partial decoding answered as `expected` says.
pub open spec fn opaque_as(
    r: Result<PreparedMvsOpaqueState, VncError>,
    expected: Result<(DecoderView, Seq<PartialOrderEvent>), VncError>,
) -> bool {
    match expected {
        Err(e) => r matches Err(f) && f == e,
        Ok((next, events)) => r matches Ok(p) && p.next_decoder@ == next && p.next_decoder.wf()
            && p.events@ == events,
    }
}

proof fn lemma_partial_frame_fits(surface: SurfaceView, frame: FullFrame)
    requires
        surface.wf(),
        surface.width == frame.surface_width,
        surface.height == frame.surface_height,
        0 < frame.width,
        0 < frame.height,
        frame.rect_x + frame.width <= frame.surface_width,
        frame.rect_y + frame.height <= frame.surface_height,
    ensures
        frame.wf(),
{
    let w = frame.width as int;
    let h = frame.height as int;
    let sw = frame.surface_width as int;
    let sh = frame.surface_height as int;
    assert(w * h <= sw * sh) by (nonlinear_arith)
        requires
            0 < w <= sw,
            0 < h <= sh,
    ;
}

impl MvsFullDecoder {
    /// Decodes one tile of a partial record.
    fn stage_partial_step(
        &self,
        surface: &MvsSurfaceState,
        frame: &FullFrame,
        reader: &mut BitReader<'_>,
        cache: &mut MvsCacheState,
        events: &mut Vec<PartialOrderEvent>,
        index: usize,
        tiles_x: usize,
        cb_extent: usize,
        cr_extent: usize,
        Ghost(task): Ghost<PartialTask>,
    ) -> (r: Result<(), VncError>)
        requires
            frame.wf(),
            surface@.wf(),
            surface.width == frame.surface_width,
            surface.height == frame.surface_height,
            old(reader).wf(),
            old(cache).wf(),
            tiles_x == frame.tiles_x(),
            index < frame.tile_count(),
            cb_extent <= 64,
            cr_extent <= 64,
            task.frame == *frame,
            task.surface == surface@,
            task.bytes == old(reader).bytes@,
            task.cb_extent == cb_extent,
            task.cr_extent == cr_extent,
        ensures
            final(reader).wf(),
            final(reader).bytes == old(reader).bytes,
            final(cache).wf(),
            match partial_step(
                task,
                index as int,
                PartialState {
                    cache: old(cache)@,
                    events: old(events)@,
                    pos: old(reader).position as int,
                },
            ) {
                Ok(s) => r is Ok && s == (PartialState {
                    cache: final(cache)@,
                    events: final(events)@,
                    pos: final(reader).position as int,
                }),
                Err(e) => r == Err::<(), VncError>(e),
            },
    {
        let ghost at = index as int;
        proof {
            crate::mvs_full::lemma_tiles_over(*frame);
            crate::mvs_full::lemma_tile_place(*frame, at);
            crate::mvs_bitstream::lemma_read_bound(reader.bytes@, 0, 0);
            reveal(partial_step);
        }
        let column: usize = index % tiles_x;
        let row: usize = index / tiles_x;
        let global_column: usize = frame.rect_x / 8 + column;
        let global_row: usize = frame.rect_y / 8 + row;
        let global_index: usize = global_row * surface.tiles_x + global_column;
        let place: TilePlace = TilePlace {
            rect_x: frame.rect_x,
            rect_y: frame.rect_y,
            width: frame.width,
            height: frame.height,
            local_index: index,
            local_row: row,
            local_col: column,
            global_index,
            global_row,
            global_col: global_column,
        };
        assert(place == tile_place(*frame, at));
        let tile: SavedTileState = surface.tiles[global_index];
        let opcode_start_bit: usize = reader.bit_position();
        let opcode: u32 = match context(reader.read_bits(2), "MVS type-1 opcode 不完整") {
            Ok(opcode) => opcode,
            Err(cause) => {
                return Err(
                    VncError::PartialOpcode {
                        place,
                        opcode_start_bit,
                        failure_bit: reader.bit_position(),
                        cause: Box::new(cause),
                    },
                );
            },
        };
        match stage_partial_tile(
            reader,
            cache,
            events,
            &self.tables,
            surface,
            &tile,
            opcode,
            cb_extent,
            cr_extent,
            Ghost(task),
        ) {
            Ok(_) => Ok(()),
            Err(cause) => Err(
                VncError::PartialTile {
                    place,
                    opcode: opcode as u8,
                    opcode_start_bit,
                    failure_bit: reader.bit_position(),
                    cause: Box::new(cause),
                },
            ),
        }
    }

    /// Decodes a partial record.
    pub fn prepare_partial(
        &self,
        payload: &[u8],
        rect_x: usize,
        rect_y: usize,
        width: usize,
        height: usize,
        surface_width: usize,
        surface_height: usize,
    ) -> (r: Result<PreparedMvsOpaqueState, VncError>)
        requires
            self.wf(),
        ensures
            opaque_as(
                r,
                partial_decoded(
                    self@,
                    payload@,
                    rect_x,
                    rect_y,
                    width,
                    height,
                    surface_width,
                    surface_height,
                ),
            ),
    {
        if payload.len() < 3 || payload[0] != 1 {
            return Err(VncError::Text("MVS type-1 payload 头部非法"));
        }
        if width == 0 || height == 0 || surface_width == 0 || surface_height == 0 {
            return Err(VncError::Text("MVS type-1 矩形与 surface 尺寸不能为零"));
        }
        let right: usize = match rect_x.checked_add(width) {
            Some(right) => right,
            None => {
                return Err(VncError::Text("MVS type-1 矩形右边界溢出"));
            },
        };
        let bottom: usize = match rect_y.checked_add(height) {
            Some(bottom) => bottom,
            None => {
                return Err(VncError::Text("MVS type-1 矩形下边界溢出"));
            },
        };
        if right > surface_width || bottom > surface_height {
            return Err(VncError::Text("MVS type-1 矩形超出当前 surface"));
        }
        let surface: &MvsSurfaceState = match &self.surface_state {
            None => {
                return Err(VncError::Text("MVS type-1 缺少已提交的 full-frame tile 状态"));
            },
            Some(surface) => surface,
        };
        if surface.width != surface_width || surface.height != surface_height {
            return Err(
                VncError::Text("MVS type-1 surface 几何与 generation-scoped decoder 不一致"),
            );
        }
        let frame: FullFrame = FullFrame {
            rect_x,
            rect_y,
            width,
            height,
            surface_width,
            surface_height,
            generation: self.committed_records,
        };
        let ghost task = partial_task(self@, payload@, frame);
        let cb_extent: usize = clip_extent(payload[1]);
        let cr_extent: usize = clip_extent(payload[2]);
        let body: &[u8] = vstd::slice::slice_subrange(payload, 3, payload.len());
        assert(body@ =~= payload@.skip(3));
        proof {
            lemma_partial_frame_fits(surface@, frame);
            crate::mvs_full::lemma_tiles_over(frame);
        }
        let mut reader: BitReader<'_> = BitReader::new(body);
        let mut cache: MvsCacheState = self.cache_state.duplicate();
        let mut events: Vec<PartialOrderEvent> = Vec::new();
        let ghost goal = partial_tiles_done(
            task,
            0,
            PartialState { cache: cache@, events: events@, pos: 0 },
        );
        let tiles_x: usize = (width + 7) / 8;
        let tile_count: usize = tiles_x * ((height + 7) / 8);
        let mut index: usize = 0;
        while index < tile_count
            invariant
                self.wf(),
                frame.wf(),
                self.surface_state == Some(*surface),
                partial_frame(
                    self@,
                    payload@,
                    rect_x,
                    rect_y,
                    width,
                    height,
                    surface_width,
                    surface_height,
                ) == Ok::<FullFrame, VncError>(frame),
                task == partial_task(self@, payload@, frame),
                surface.width == frame.surface_width,
                surface.height == frame.surface_height,
                task.bytes == reader.bytes@,
                task.cb_extent == cb_extent,
                task.cr_extent == cr_extent,
                cb_extent <= 64,
                cr_extent <= 64,
                reader.wf(),
                cache.wf(),
                tiles_x == frame.tiles_x(),
                1 <= tiles_x,
                tile_count == frame.tile_count(),
                index <= tile_count,
                goal == partial_tiles_done(
                    task,
                    0,
                    PartialState { cache: self@.cache, events: Seq::empty(), pos: 0 },
                ),
                goal == partial_tiles_done(
                    task,
                    index as int,
                    PartialState { cache: cache@, events: events@, pos: reader.position as int },
                ),
            decreases tile_count - index,
        {
            self.stage_partial_step(
                surface,
                &frame,
                &mut reader,
                &mut cache,
                &mut events,
                index,
                tiles_x,
                cb_extent,
                cr_extent,
                Ghost(task),
            )?;
            index = index + 1;
        }
        read_partial_terminals(&mut reader, &frame, Ghost(task))?;
        let mut next_decoder: MvsFullDecoder = self.duplicate();
        next_decoder.cache_state = cache;
        Ok(PreparedMvsOpaqueState { next_decoder, events })
    }

    /// Installs the state that a partial record leads to.
    pub fn commit_opaque(&mut self, prepared: PreparedMvsOpaqueState)
        ensures
            *final(self) == prepared.next_decoder,
    {
        *self = prepared.next_decoder;
    }
}

/// A partial record changes the cache and nothing else.
pub proof fn law_partial_keeps_surface(
    decoder: DecoderView,
    payload: Seq<u8>,
    rect_x: usize,
    rect_y: usize,
    width: usize,
    height: usize,
    surface_width: usize,
    surface_height: usize,
)
    ensures
        partial_decoded(
            decoder,
            payload,
            rect_x,
            rect_y,
            width,
            height,
            surface_width,
            surface_height,
        ) matches Ok((next, events)) ==> next.tables == decoder.tables && next.committed_records
            == decoder.committed_records && next.surface == decoder.surface,
{
}

/// Whether step `i` puts an entry into the cache.
pub open spec fn populates(events: Seq<PartialOrderEvent>, i: int) -> bool {
    events[i] == PartialOrderEvent::CachePopulation
}

/// Whether every entry is put into the cache right after its tile was rendered.
pub open spec fn populations_follow_scratch(events: Seq<PartialOrderEvent>) -> bool {
    forall|i: int|
        0 <= i < events.len() && #[trigger] populates(events, i) ==> 0 < i && events[i - 1]
            == PartialOrderEvent::IdctScratch
}

proof fn lemma_step_ordered(task: PartialTask, index: int, s: PartialState)
    requires
        populations_follow_scratch(s.events),
    ensures
        partial_step(task, index, s) matches Ok(next) ==> populations_follow_scratch(next.events),
{
    reveal(partial_step);
    let once = s.events.push(PartialOrderEvent::IdctScratch);
    let twice = once.push(PartialOrderEvent::CachePopulation);
    assert forall|i: int| 0 <= i < once.len() && #[trigger] populates(once, i) implies 0 < i
        && once[i - 1] == PartialOrderEvent::IdctScratch by {
        assert(populates(s.events, i));
    }
    assert forall|i: int| 0 <= i < twice.len() && #[trigger] populates(twice, i) implies 0 < i
        && twice[i - 1] == PartialOrderEvent::IdctScratch by {
        if i < once.len() {
            assert(populates(once, i));
        }
    }
}

proof fn lemma_events_ordered(task: PartialTask, index: int, s: PartialState)
    requires
        populations_follow_scratch(s.events),
    ensures
        partial_tiles_done(task, index, s) matches Ok(next) ==> populations_follow_scratch(
            next.events,
        ),
    decreases task.frame.tile_count() - index,
{
    if index < task.frame.tile_count() {
        match partial_step(task, index, s) {
            Err(e) => {},
            Ok(next) => {
                lemma_step_ordered(task, index, s);
                lemma_events_ordered(task, index + 1, next);
            },
        }
    }
}

/// A tile is rendered before its entry is put into the cache, in every record that is accepted.
pub proof fn law_scratch_before_population(
    decoder: DecoderView,
    payload: Seq<u8>,
    rect_x: usize,
    rect_y: usize,
    width: usize,
    height: usize,
    surface_width: usize,
    surface_height: usize,
)
    ensures
        partial_decoded(
            decoder,
            payload,
            rect_x,
            rect_y,
            width,
            height,
            surface_width,
            surface_height,
        ) matches Ok((next, events)) ==> populations_follow_scratch(events),
{
    let told = partial_frame(
        decoder,
        payload,
        rect_x,
        rect_y,
        width,
        height,
        surface_width,
        surface_height,
    );
    if told is Ok {
        lemma_events_ordered(
            partial_task(decoder, payload, told->Ok_0),
            0,
            PartialState { cache: decoder.cache, events: Seq::empty(), pos: 0 },
        );
    }
}

} // verus!
