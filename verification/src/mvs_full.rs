//! The decoder of full-frame and partial MVS records.
//!
//! A record is decoded against the decoder's state without touching it; the state that the record
//! leads to is installed only when the caller commits it.

use vstd::prelude::*;
use crate::error::{context, VncError};
use crate::mvs_bitstream::{decode_repeat_count, BitReader};
use crate::mvs_cache::{
    cache_entry_coefficients, duplicate_all, lookup_cache_entry, CacheView, MvsCacheState,
};
use crate::mvs_paint::{
    copy_tile, decode_bitmap_tile, fill_tile, read_mode_four_color, render_mode_five_tile,
};
use crate::mvs_tiles::{
    decode_mode_five_coefficients, ModeFiveCoefficients, ModeFiveTileState, SavedTileReference,
    SavedTileState,
};
use crate::mvs_wire::{MvsFullRecord, MvsTables};

verus! {

/// The most pixels that a rectangle or a surface may have.
pub const MAX_MVS_DECODE_PIXELS: usize = 67_108_864;

/// The byte that ends both streams of a full-frame record.
pub const STREAM_TERMINAL: u8 = 0x6d;

/// The number of tiles that cover `pixels` pixels.
pub open spec fn tiles_over(pixels: int) -> int {
    (pixels + 7) / 8
}

/// What is kept of the surface.
#[derive(Clone, Debug, PartialEq, Eq)]
pub struct MvsSurfaceState {
    pub width: usize,
    pub height: usize,
    pub tiles_x: usize,
    pub tiles: Vec<SavedTileState>,
}

/// What is kept of the surface, as a value.
#[verifier::ext_equal]
pub struct SurfaceView {
    pub width: usize,
    pub height: usize,
    pub tiles_x: usize,
    pub tiles: Seq<SavedTileState>,
}

impl View for MvsSurfaceState {
    type V = SurfaceView;

    open spec fn view(&self) -> SurfaceView {
        SurfaceView {
            width: self.width,
            height: self.height,
            tiles_x: self.tiles_x,
            tiles: self.tiles@,
        }
    }
}

impl SurfaceView {
    /// The surface is not empty and within the budget, and there is a tile state for every tile.
    pub open spec fn wf(self) -> bool {
        &&& 0 < self.width
        &&& 0 < self.height
        &&& self.width * self.height <= MAX_MVS_DECODE_PIXELS
        &&& self.tiles_x == tiles_over(self.width as int)
        &&& self.tiles.len() == self.tiles_x * tiles_over(self.height as int)
    }
}

/// A decoded rectangle, three bytes per pixel.
#[derive(Clone, Debug, PartialEq, Eq)]
pub struct DecodedMvsRect {
    pub width: usize,
    pub height: usize,
    pub rgb: Vec<u8>,
}

/// The state that records are decoded against.
#[derive(Clone, Debug)]
pub struct MvsFullDecoder {
    pub tables: MvsTables,
    pub committed_records: u64,
    pub surface_state: Option<MvsSurfaceState>,
    pub cache_state: MvsCacheState,
}

/// The state of a decoder, as a value.
#[verifier::ext_equal]
pub struct DecoderView {
    pub tables: MvsTables,
    pub committed_records: u64,
    pub surface: Option<SurfaceView>,
    pub cache: CacheView,
}

impl View for MvsFullDecoder {
    type V = DecoderView;

    open spec fn view(&self) -> DecoderView {
        DecoderView {
            tables: self.tables,
            committed_records: self.committed_records,
            surface: match self.surface_state {
                Some(s) => Some(s@),
                None => None,
            },
            cache: self.cache_state@,
        }
    }
}

impl DecoderView {
    /// Every slot and every tile has its place.
    pub open spec fn wf(self) -> bool {
        &&& self.cache.entries.len() == crate::mvs_cache::MVS_CACHE_SLOT_COUNT
        &&& (self.surface matches Some(s) ==> s.wf())
    }
}

/// A decoded record that is not installed yet.
#[derive(Debug)]
pub struct PreparedMvsFull {
    pub decoded: DecodedMvsRect,
    pub next_decoder: MvsFullDecoder,
}

/// Where a full-frame record paints, and the generation that its tiles get.
#[derive(Clone, Copy, Debug, PartialEq, Eq, Structural)]
pub struct FullFrame {
    pub rect_x: usize,
    pub rect_y: usize,
    pub width: usize,
    pub height: usize,
    pub surface_width: usize,
    pub surface_height: usize,
    pub generation: u64,
}

impl FullFrame {
    /// The rectangle lies inside the surface, and both are within the budget.
    pub open spec fn wf(self) -> bool {
        &&& 0 < self.width
        &&& 0 < self.height
        &&& self.width * self.height <= MAX_MVS_DECODE_PIXELS
        &&& self.surface_width * self.surface_height <= MAX_MVS_DECODE_PIXELS
        &&& self.rect_x + self.width <= self.surface_width
        &&& self.rect_y + self.height <= self.surface_height
    }

    /// The number of tiles in a row of the rectangle.
    pub open spec fn tiles_x(self) -> int {
        tiles_over(self.width as int)
    }

    /// The number of tiles of the rectangle.
    pub open spec fn tile_count(self) -> int {
        self.tiles_x() * tiles_over(self.height as int)
    }

    /// The number of tiles in a row of the surface.
    pub open spec fn surface_tiles_x(self) -> int {
        tiles_over(self.surface_width as int)
    }

    /// The column of tile `index` in the rectangle.
    pub open spec fn tile_column(self, index: int) -> int {
        index % self.tiles_x()
    }

    /// The row of tile `index` in the rectangle.
    pub open spec fn tile_row(self, index: int) -> int {
        index / self.tiles_x()
    }

    /// The place of tile `index` of the rectangle among the tiles of the surface.
    pub open spec fn global_tile(self, index: int) -> int {
        (self.rect_y as int / 8 + self.tile_row(index)) * self.surface_tiles_x() + (
        self.rect_x as int / 8 + self.tile_column(index))
    }

    /// The byte offset, at four bytes per pixel, of a pixel of the rectangle on the surface.
    pub open spec fn framebuffer_offset(self, x: int, y: int) -> int {
        ((self.rect_y + y) * self.surface_width + (self.rect_x + x)) * 4
    }
}

/// A full-frame record and what it is decoded against.
pub struct FullTask {
    pub frame: FullFrame,
    pub scale_threshold_a: u8,
    pub scale_threshold_b: u8,
    pub modes: Seq<u8>,
    pub data: Seq<u8>,
    pub tables: MvsTables,
    pub cache: CacheView,
}

/// How far a full-frame record has been decoded.
#[verifier::ext_equal]
pub struct FullState {
    pub rgb: Seq<u8>,
    pub tiles: Seq<SavedTileState>,
    pub cache_index: u16,
    pub one_color: Seq<u8>,
    pub color_of_ones: Seq<u8>,
    pub color_of_zeros: Seq<u8>,
    pub previous: Option<ModeFiveTileState>,
    pub data_pos: int,
}

/// White.
pub open spec fn white() -> Seq<u8> {
    seq![255u8, 255u8, 255u8]
}

/// Black.
pub open spec fn black() -> Seq<u8> {
    seq![0u8, 0u8, 0u8]
}

/// The state before the first tile.
pub open spec fn full_start(frame: FullFrame, tiles: Seq<SavedTileState>, cache_index: u16) -> FullState {
    FullState {
        rgb: Seq::new((frame.width * frame.height * 3) as nat, |i: int| 0u8),
        tiles,
        cache_index,
        one_color: black(),
        color_of_ones: white(),
        color_of_zeros: seq![181u8, 213u8, 254u8],
        previous: None,
        data_pos: 0,
    }
}

/// A copied tile: the picture and the place that it was copied from.
pub open spec fn copied_tile(
    task: FullTask,
    index: int,
    s: FullState,
    source_x: int,
    source_y: int,
    source_tile: int,
) -> FullState {
    let frame = task.frame;
    let g = frame.global_tile(index);
    FullState {
        rgb: crate::mvs_paint::copied(
            s.rgb,
            frame.width as int,
            source_x,
            source_y,
            frame.tile_column(index) * 8,
            frame.tile_row(index) * 8,
        ),
        tiles: s.tiles.update(
            g,
            SavedTileState {
                generation: s.tiles[g].generation,
                coefficients: s.tiles[g].coefficients,
                reference: Some(
                    SavedTileReference {
                        tile_index: source_tile as usize,
                        framebuffer_offset: frame.framebuffer_offset(source_x, source_y) as usize,
                    },
                ),
            },
        ),
        ..s
    }
}

/// A two-color tile.
pub open spec fn bitmap_tile(task: FullTask, index: int, s: FullState, one: Seq<u8>, zero: Seq<u8>) -> Result<
    FullState,
    VncError,
> {
    match crate::mvs_paint::bitmap_at(task.data, s.data_pos) {
        (Err(e), p) => Err(e),
        (Ok(masks), p) => Ok(
            FullState {
                rgb: crate::mvs_paint::bitmapped(
                    s.rgb,
                    task.frame.width as int,
                    task.frame.tile_column(index) * 8,
                    task.frame.tile_row(index) * 8,
                    masks,
                    one,
                    zero,
                ),
                data_pos: p,
                ..s
            },
        ),
    }
}

/// A tile of one color.
pub open spec fn plain_tile(task: FullTask, index: int, s: FullState, color: Seq<u8>) -> FullState {
    FullState {
        rgb: crate::mvs_paint::filled(
            s.rgb,
            task.frame.width as int,
            task.frame.tile_column(index) * 8,
            task.frame.tile_row(index) * 8,
            color,
        ),
        ..s
    }
}

/// A tile that coefficients render to.
pub open spec fn rendered_tile(
    task: FullTask,
    index: int,
    s: FullState,
    coefficients: ModeFiveCoefficients,
) -> FullState {
    FullState {
        rgb: crate::mvs_paint::rendered(
            s.rgb,
            task.frame.width as int,
            task.frame.tile_column(index) * 8,
            task.frame.tile_row(index) * 8,
            coefficients,
            task.tables,
        ),
        ..s
    }
}

/// A tile of mode 4: one color or two, each from the stream or as the last time.
pub open spec fn palette_tile(task: FullTask, index: int, s: FullState) -> Result<FullState, VncError> {
    match crate::mvs_bitstream::read_at(task.data, s.data_pos, 1) {
        (Err(e), p) => Err(crate::error::within("MVS type-0 mode 4 缺少单双颜色标志", e)),
        (Ok(two), p) => match crate::mvs_bitstream::read_at(task.data, p, 1) {
            (Err(e), p) => Err(crate::error::within("MVS type-0 mode 4 缺少颜色复用标志", e)),
            (Ok(reuse), p) => if two != 0 {
                if reuse != 0 {
                    bitmap_tile(
                        task,
                        index,
                        FullState { data_pos: p, ..s },
                        s.color_of_ones,
                        s.color_of_zeros,
                    )
                } else {
                    match crate::mvs_paint::mode_four_color_at(task.data, p) {
                        (Err(e), p) => Err(e),
                        (Ok(ones), p) => match crate::mvs_paint::mode_four_color_at(task.data, p) {
                            (Err(e), p) => Err(e),
                            (Ok(zeros), p) => bitmap_tile(
                                task,
                                index,
                                FullState {
                                    color_of_ones: ones,
                                    color_of_zeros: zeros,
                                    data_pos: p,
                                    ..s
                                },
                                ones,
                                zeros,
                            ),
                        },
                    }
                }
            } else if reuse != 0 {
                Ok(plain_tile(task, index, FullState { data_pos: p, ..s }, s.one_color))
            } else {
                match crate::mvs_paint::mode_four_color_at(task.data, p) {
                    (Err(e), p) => Err(e),
                    (Ok(color), p) => Ok(
                        plain_tile(
                            task,
                            index,
                            FullState { one_color: color, data_pos: p, ..s },
                            color,
                        ),
                    ),
                }
            },
        },
    }
}

/// A tile of mode 5: its coefficients, which are kept where they are its own.
pub open spec fn coefficient_tile(task: FullTask, index: int, s: FullState) -> Result<
    FullState,
    VncError,
> {
    match crate::mvs_tiles::mode_five_at(
        task.data,
        s.data_pos,
        s.previous,
        task.scale_threshold_a,
        task.scale_threshold_b,
    ) {
        (Err(e), p) => Err(e),
        (Ok(tile), p) => {
            let g = task.frame.global_tile(index);
            let tiles = match tile.seed {
                Some(seed) => s.tiles.update(
                    g,
                    SavedTileState {
                        generation: s.tiles[g].generation,
                        coefficients: Some(seed),
                        reference: s.tiles[g].reference,
                    },
                ),
                None => s.tiles,
            };
            Ok(
                FullState {
                    tiles,
                    previous: Some(tile),
                    data_pos: p,
                    ..rendered_tile(task, index, s, tile.coefficients)
                },
            )
        },
    }
}

/// The cache index of a tile of mode 6, which is in the stream, or 7, which is the next one.
pub open spec fn cache_index_at(task: FullTask, mode: int, s: FullState) -> (
    Result<u16, VncError>,
    int,
) {
    if mode == 6 {
        match crate::mvs_bitstream::read_at(task.data, s.data_pos, 8) {
            (Err(e), p) => (
                Err(crate::error::within("MVS type-0 mode 6 缺少 cache 索引高字节", e)),
                p,
            ),
            (Ok(high), p) => match crate::mvs_bitstream::read_at(task.data, p, 8) {
                (Err(e), p) => (
                    Err(crate::error::within("MVS type-0 mode 6 缺少 cache 索引低字节", e)),
                    p,
                ),
                (Ok(low), p) => (Ok((high * 256 + low) as u16), p),
            },
        }
    } else {
        (Ok(s.cache_index.wrapping_add(1)), s.data_pos)
    }
}

/// A tile of mode 6 or 7: a cache entry.
pub open spec fn cached_tile(task: FullTask, mode: int, index: int, s: FullState) -> Result<
    FullState,
    VncError,
> {
    match cache_index_at(task, mode, s) {
        (Err(e), p) => Err(e),
        (Ok(cache_index), p) => match crate::mvs_cache::cached(task.cache, cache_index) {
            Err(e) => Err(e),
            Ok(entry) => Ok(
                FullState {
                    cache_index,
                    data_pos: p,
                    ..rendered_tile(task, index, s, crate::mvs_cache::entry_coefficients(entry@))
                },
            ),
        },
    }
}

/// The tile states with that of tile `index` marked as painted by this record.
pub open spec fn marked(task: FullTask, index: int, s: FullState) -> FullState {
    let g = task.frame.global_tile(index);
    FullState {
        tiles: s.tiles.update(
            g,
            SavedTileState {
                generation: task.frame.generation,
                coefficients: s.tiles[g].coefficients,
                reference: None,
            },
        ),
        ..s
    }
}

/// The state after one tile.
#[verifier::opaque]
pub open spec fn tile_done(task: FullTask, mode: int, index: int, before: FullState) -> Result<
    FullState,
    VncError,
> {
    let frame = task.frame;
    let s = marked(task, index, before);
    let x = frame.tile_column(index) * 8;
    let y = frame.tile_row(index) * 8;
    if mode == 0 {
        Ok(plain_tile(task, index, s, white()))
    } else if mode == 1 {
        if frame.tile_column(index) == 0 {
            Err(VncError::Text("MVS type-0 mode 1 不能出现在首列"))
        } else {
            Ok(copied_tile(task, index, s, x - 8, y, frame.global_tile(index) - 1))
        }
    } else if mode == 2 {
        if frame.tile_row(index) == 0 {
            Err(VncError::Text("MVS type-0 mode 2 不能出现在首行"))
        } else {
            Ok(
                copied_tile(
                    task,
                    index,
                    s,
                    x,
                    y - 8,
                    frame.global_tile(index) - frame.surface_tiles_x(),
                ),
            )
        }
    } else if mode == 3 {
        bitmap_tile(task, index, s, white(), black())
    } else if mode == 4 {
        palette_tile(task, index, s)
    } else if mode == 5 {
        coefficient_tile(task, index, s)
    } else {
        cached_tile(task, mode, index, s)
    }
}

/// The state after `count` tiles of one mode.
pub open spec fn run_done(task: FullTask, mode: int, index: int, count: int, s: FullState) -> Result<
    FullState,
    VncError,
>
    decreases count,
{
    if count <= 0 {
        Ok(s)
    } else {
        match tile_done(task, mode, index, s) {
            Err(e) => Err(e),
            Ok(next) => run_done(task, mode, index + 1, count - 1, next),
        }
    }
}

/// The state after all tiles from `index` on, and the place in the mode stream behind them.
pub open spec fn tiles_done(task: FullTask, mode_pos: int, index: int, s: FullState) -> Result<
    (FullState, int),
    VncError,
>
    decreases task.frame.tile_count() - index,
{
    if index >= task.frame.tile_count() {
        Ok((s, mode_pos))
    } else {
        match crate::mvs_bitstream::read_at(task.modes, mode_pos, 3) {
            (Err(e), p) => Err(crate::error::within("MVS type-0 mode 字段不完整", e)),
            (Ok(mode), p) => match crate::mvs_bitstream::repeat_at(task.modes, p) {
                (Err(e), p) => Err(crate::error::within("MVS type-0 repeat 字段不完整", e)),
                (Ok(repeat), p) => {
                    let count = repeat + 1;
                    let remaining = task.frame.tile_count() - index;
                    if count > remaining {
                        Err(
                            VncError::Numbers {
                                before: "MVS type-0 repeat 超过剩余 tile: run=",
                                first: count as u64,
                                between: ", remaining=",
                                second: remaining as u64,
                                after: "",
                            },
                        )
                    } else {
                        match run_done(task, mode as int, index, count, s) {
                            Err(e) => Err(e),
                            Ok(next) => tiles_done(task, p, index + count, next),
                        }
                    }
                },
            },
        }
    }
}

/// Whether the terminal byte stands at `pos`.
pub open spec fn terminal_at(
    bytes: Seq<u8>,
    pos: int,
    missing: &'static str,
    wrong: &'static str,
) -> Result<(), VncError> {
    match crate::mvs_bitstream::read_at(bytes, pos, 8) {
        (Err(e), p) => Err(crate::error::within(missing, e)),
        (Ok(byte), p) => if byte != STREAM_TERMINAL {
            Err(VncError::Byte { before: wrong, byte: byte as u8 })
        } else {
            Ok(())
        },
    }
}

/// The state after all tiles of a record whose streams end as they must.
pub open spec fn record_done(task: FullTask, start: FullState) -> Result<FullState, VncError> {
    match crate::mvs_bitstream::read_at(task.modes, 0, 1) {
        (Err(e), p) => Err(crate::error::within("MVS type-0 mode 流缺少起始位", e)),
        (Ok(_), p) => match tiles_done(task, p, 0, start) {
            Err(e) => Err(e),
            Ok((s, mode_pos)) => match terminal_at(
                task.modes,
                mode_pos,
                "MVS type-0 mode 流缺少终止符",
                "MVS type-0 mode 流终止符非法: ",
            ) {
                Err(e) => Err(e),
                Ok(_) => match terminal_at(
                    task.data,
                    s.data_pos,
                    "MVS type-0 data 流缺少终止符",
                    "MVS type-0 data 流终止符非法: ",
                ) {
                    Err(e) => Err(e),
                    Ok(_) => Ok(s),
                },
            },
        },
    }
}

/// Where a record paints, or why it cannot.
pub open spec fn full_frame(
    decoder: DecoderView,
    rect_x: usize,
    rect_y: usize,
    width: usize,
    height: usize,
    surface_width: usize,
    surface_height: usize,
) -> Result<FullFrame, VncError> {
    if width * height > usize::MAX {
        Err(VncError::Text("MVS type-0 矩形像素数溢出"))
    } else if width * height == 0 {
        Err(VncError::Text("MVS type-0 矩形尺寸不能为零"))
    } else if width * height > MAX_MVS_DECODE_PIXELS {
        Err(
            VncError::Number {
                before: "MVS type-0 矩形超过协议解码预算: ",
                value: (width * height) as u64,
                after: " 像素",
            },
        )
    } else if surface_width * surface_height > usize::MAX {
        Err(VncError::Text("MVS surface 像素数溢出"))
    } else if surface_width * surface_height == 0 {
        Err(VncError::Text("MVS surface 尺寸不能为零"))
    } else if surface_width * surface_height > MAX_MVS_DECODE_PIXELS {
        Err(
            VncError::Number {
                before: "MVS surface 超过协议解码预算: ",
                value: (surface_width * surface_height) as u64,
                after: " 像素",
            },
        )
    } else if rect_x + width > usize::MAX {
        Err(VncError::Text("MVS type-0 矩形右边界溢出"))
    } else if rect_y + height > usize::MAX {
        Err(VncError::Text("MVS type-0 矩形下边界溢出"))
    } else if rect_x + width > surface_width || rect_y + height > surface_height {
        Err(
            VncError::RectOutsideSurface {
                before: "MVS type-0 矩形超出 surface: rect=",
                x: rect_x,
                y: rect_y,
                width,
                height,
                surface_width,
                surface_height,
            },
        )
    } else if decoder.committed_records == u64::MAX {
        Err(VncError::Text("MVS type-0 已提交记录计数溢出"))
    } else if decoder.surface matches Some(s) && (s.width != surface_width || s.height
        != surface_height) {
        Err(VncError::Text("MVS surface 几何与 generation-scoped decoder 不一致"))
    } else {
        Ok(
            FullFrame {
                rect_x,
                rect_y,
                width,
                height,
                surface_width,
                surface_height,
                generation: (decoder.committed_records + 1) as u64,
            },
        )
    }
}

/// The tile states that a record starts from.
pub open spec fn starting_tiles(decoder: DecoderView, frame: FullFrame) -> Seq<SavedTileState> {
    match decoder.surface {
        Some(s) => s.tiles,
        None => Seq::new(
            (frame.surface_tiles_x() * tiles_over(frame.surface_height as int)) as nat,
            |i: int| crate::mvs_tiles::blank_tile(),
        ),
    }
}

/// The state of the decoder once a record that left `s` is installed.
pub open spec fn installed(decoder: DecoderView, frame: FullFrame, s: FullState) -> DecoderView {
    DecoderView {
        tables: decoder.tables,
        committed_records: frame.generation,
        surface: Some(
            SurfaceView {
                width: frame.surface_width,
                height: frame.surface_height,
                tiles_x: frame.surface_tiles_x() as usize,
                tiles: s.tiles,
            },
        ),
        cache: CacheView { previous_cache_index: s.cache_index, ..decoder.cache },
    }
}

/// The pixels that a full-frame record decodes to and the state that it leads to.
pub open spec fn full_decoded(
    decoder: DecoderView,
    record: MvsFullRecord<'_>,
    rect_x: usize,
    rect_y: usize,
    width: usize,
    height: usize,
    surface_width: usize,
    surface_height: usize,
) -> Result<(Seq<u8>, DecoderView), VncError> {
    match full_frame(decoder, rect_x, rect_y, width, height, surface_width, surface_height) {
        Err(e) => Err(e),
        Ok(frame) => {
            let task = FullTask {
                frame,
                scale_threshold_a: record.scale_threshold_a,
                scale_threshold_b: record.scale_threshold_b,
                modes: record.mode_stream@,
                data: record.data_stream@,
                tables: decoder.tables,
                cache: decoder.cache,
            };
            match record_done(
                task,
                full_start(
                    frame,
                    starting_tiles(decoder, frame),
                    decoder.cache.previous_cache_index,
                ),
            ) {
                Err(e) => Err(e),
                Ok(s) => Ok((s.rgb, installed(decoder, frame, s))),
            }
        },
    }
}

/// How far a full-frame record has been decoded.
struct FullStage {
    rgb: Vec<u8>,
    tiles: Vec<SavedTileState>,
    cache_index: u16,
    one_color: [u8; 3],
    color_of_ones: [u8; 3],
    color_of_zeros: [u8; 3],
    previous: Option<ModeFiveTileState>,
}

impl FullStage {
    spec fn at(self, data_pos: int) -> FullState {
        FullState {
            rgb: self.rgb@,
            tiles: self.tiles@,
            cache_index: self.cache_index,
            one_color: self.one_color@,
            color_of_ones: self.color_of_ones@,
            color_of_zeros: self.color_of_zeros@,
            previous: self.previous,
            data_pos,
        }
    }

    spec fn fits(self, frame: FullFrame) -> bool {
        &&& crate::mvs_paint::buffer_fits(self.rgb@, frame.width as int, frame.height as int)
        &&& self.tiles@.len() == frame.surface_tiles_x() * tiles_over(frame.surface_height as int)
    }
}

/// Tile counts stay within the pixel budget.
pub proof fn lemma_tiles_over(frame: FullFrame)
    requires
        frame.wf(),
    ensures
        1 <= frame.tiles_x() <= frame.width,
        1 <= tiles_over(frame.height as int) <= frame.height,
        1 <= frame.tile_count() <= MAX_MVS_DECODE_PIXELS,
        frame.surface_tiles_x() <= frame.surface_width,
        frame.surface_width <= MAX_MVS_DECODE_PIXELS,
        frame.surface_height <= MAX_MVS_DECODE_PIXELS,
        frame.surface_tiles_x() * tiles_over(frame.surface_height as int) <= MAX_MVS_DECODE_PIXELS,
        frame.width * frame.height * 3 <= 201_326_592,
{
    let w = frame.width as int;
    let h = frame.height as int;
    let sw = frame.surface_width as int;
    let sh = frame.surface_height as int;
    let a = tiles_over(w);
    let b = tiles_over(h);
    let c = tiles_over(sw);
    let d = tiles_over(sh);
    assert(1 <= a * b <= w * h) by (nonlinear_arith)
        requires
            1 <= a <= w,
            1 <= b <= h,
    ;
    assert(1 <= c * d <= sw * sh) by (nonlinear_arith)
        requires
            1 <= c <= sw,
            1 <= d <= sh,
    ;
    assert(sw <= sw * sh && sh <= sw * sh) by (nonlinear_arith)
        requires
            1 <= sw,
            1 <= sh,
    ;
}

/// Every tile of the rectangle is a tile of the surface.
pub proof fn lemma_tile_place(frame: FullFrame, index: int)
    requires
        frame.wf(),
        0 <= index < frame.tile_count(),
    ensures
        0 <= frame.tile_column(index) < frame.tiles_x(),
        0 <= frame.tile_row(index) < tiles_over(frame.height as int),
        frame.tile_column(index) * 8 < frame.width,
        frame.tile_row(index) * 8 < frame.height,
        0 <= frame.rect_x as int / 8 + frame.tile_column(index) < frame.surface_tiles_x(),
        0 <= frame.rect_y as int / 8 + frame.tile_row(index) < tiles_over(
            frame.surface_height as int,
        ),
        0 <= frame.global_tile(index) < frame.surface_tiles_x() * tiles_over(
            frame.surface_height as int,
        ),
        0 <= (frame.rect_y as int / 8 + frame.tile_row(index)) * frame.surface_tiles_x(),
        frame.tile_column(index) > 0 ==> frame.global_tile(index) >= 1,
        frame.tile_row(index) > 0 ==> frame.global_tile(index) >= frame.surface_tiles_x(),
{
    lemma_tiles_over(frame);
    let tx = frame.tiles_x();
    let ty = tiles_over(frame.height as int);
    vstd::arithmetic::div_mod::lemma_mod_bound(index, tx);
    vstd::arithmetic::div_mod::lemma_div_pos_is_pos(index, tx);
    vstd::arithmetic::div_mod::lemma_multiply_divide_lt(index, tx, ty);
    vstd::arithmetic::mul::lemma_mul_is_commutative(tx, ty);
    let row = frame.rect_y as int / 8 + frame.tile_row(index);
    let column = frame.rect_x as int / 8 + frame.tile_column(index);
    let stx = frame.surface_tiles_x();
    let sty = tiles_over(frame.surface_height as int);
    assert(0 <= row * stx && row * stx + column < stx * sty) by (nonlinear_arith)
        requires
            0 <= row < sty,
            0 <= column < stx,
    ;
    if frame.tile_row(index) > 0 {
        assert(row * stx >= stx) by (nonlinear_arith)
            requires
                row >= 1,
                stx >= 0,
        ;
    }
}

proof fn lemma_offset_bound(frame: FullFrame, x: int, y: int)
    requires
        frame.wf(),
        0 <= x < frame.width,
        0 <= y < frame.height,
    ensures
        0 <= (frame.rect_y + y) * frame.surface_width <= MAX_MVS_DECODE_PIXELS,
        0 <= frame.framebuffer_offset(x, y) <= 4 * MAX_MVS_DECODE_PIXELS,
{
    let row = frame.rect_y + y;
    let column = frame.rect_x + x;
    let sw = frame.surface_width as int;
    let sh = frame.surface_height as int;
    assert(0 <= row * sw && row * sw + column < sw * sh) by (nonlinear_arith)
        requires
            0 <= row < sh,
            0 <= column < sw,
    ;
}

/// The byte offset of a pixel of the rectangle on the surface.
fn framebuffer_offset(frame: &FullFrame, x: usize, y: usize) -> (r: usize)
    requires
        frame.wf(),
        x < frame.width,
        y < frame.height,
    ensures
        r == frame.framebuffer_offset(x as int, y as int),
{
    proof {
        lemma_offset_bound(*frame, x as int, y as int);
    }
    ((frame.rect_y + y) * frame.surface_width + (frame.rect_x + x)) * 4
}

/// The place of tile `index` among the tiles of the surface.
fn global_tile_index(frame: &FullFrame, column: usize, row: usize, Ghost(index): Ghost<int>) -> (r:
    usize)
    requires
        frame.wf(),
        0 <= index < frame.tile_count(),
        column == frame.tile_column(index),
        row == frame.tile_row(index),
    ensures
        r == frame.global_tile(index),
{
    proof {
        lemma_tiles_over(*frame);
        lemma_tile_place(*frame, index);
    }
    let surface_tiles_x: usize = (frame.surface_width + 7) / 8;
    (frame.rect_y / 8 + row) * surface_tiles_x + (frame.rect_x / 8 + column)
}

/// Whether what a step answered and left is what `expected` says.
spec fn stage_reached(
    r: Result<(), VncError>,
    stage: FullStage,
    data_pos: int,
    expected: Result<FullState, VncError>,
) -> bool {
    match expected {
        Ok(s) => r is Ok && stage.at(data_pos) =~= s,
        Err(e) => r == Err::<(), VncError>(e),
    }
}

/// Copies a neighbouring tile and keeps where it was copied from.
fn stage_copy(
    frame: &FullFrame,
    stage: &mut FullStage,
    source_x: usize,
    source_y: usize,
    source_tile: usize,
    tile_x: usize,
    tile_y: usize,
    global: usize,
    Ghost(task): Ghost<FullTask>,
    Ghost(index): Ghost<int>,
    Ghost(data_pos): Ghost<int>,
)
    requires
        frame.wf(),
        old(stage).fits(*frame),
        task.frame == *frame,
        0 <= index < frame.tile_count(),
        tile_x == frame.tile_column(index) * 8,
        tile_y == frame.tile_row(index) * 8,
        tile_x < frame.width,
        tile_y < frame.height,
        global == frame.global_tile(index),
        global < old(stage).tiles@.len(),
        (source_x + 8 == tile_x && source_y == tile_y) || (source_x == tile_x && source_y + 8
            == tile_y),
    ensures
        final(stage).fits(*frame),
        final(stage).at(data_pos) =~= copied_tile(
            task,
            index,
            old(stage).at(data_pos),
            source_x as int,
            source_y as int,
            source_tile as int,
        ),
{
    let offset: usize = framebuffer_offset(frame, source_x, source_y);
    copy_tile(&mut stage.rgb, frame.width, frame.height, source_x, source_y, tile_x, tile_y);
    let tile: SavedTileState = stage.tiles[global];
    stage.tiles.set(
        global,
        SavedTileState {
            generation: tile.generation,
            coefficients: tile.coefficients,
            reference: Some(
                SavedTileReference { tile_index: source_tile, framebuffer_offset: offset },
            ),
        },
    );
}

/// Decodes a mode-4 tile.
fn stage_palette(
    frame: &FullFrame,
    stage: &mut FullStage,
    data_bits: &mut BitReader<'_>,
    tile_x: usize,
    tile_y: usize,
    Ghost(task): Ghost<FullTask>,
    Ghost(index): Ghost<int>,
) -> (r: Result<(), VncError>)
    requires
        frame.wf(),
        old(stage).fits(*frame),
        old(data_bits).wf(),
        task.frame == *frame,
        task.data == old(data_bits).bytes@,
        tile_x == frame.tile_column(index) * 8,
        tile_y == frame.tile_row(index) * 8,
        tile_x < frame.width,
        tile_y < frame.height,
    ensures
        final(stage).fits(*frame),
        final(data_bits).wf(),
        final(data_bits).bytes == old(data_bits).bytes,
        stage_reached(
            r,
            *final(stage),
            final(data_bits).position as int,
            palette_tile(task, index, old(stage).at(old(data_bits).position as int)),
        ),
{
    let two: u32 = context(
        data_bits.read_bits(1),
        "MVS type-0 mode 4 缺少单双颜色标志",
    )?;
    let reuse: u32 = context(
        data_bits.read_bits(1),
        "MVS type-0 mode 4 缺少颜色复用标志",
    )?;
    if two != 0 {
        if reuse == 0 {
            let ones: [u8; 3] = read_mode_four_color(data_bits)?;
            let zeros: [u8; 3] = read_mode_four_color(data_bits)?;
            stage.color_of_ones = ones;
            stage.color_of_zeros = zeros;
        }
        decode_bitmap_tile(
            data_bits,
            &mut stage.rgb,
            frame.width,
            frame.height,
            tile_x,
            tile_y,
            stage.color_of_ones,
            stage.color_of_zeros,
        )
    } else {
        if reuse == 0 {
            let color: [u8; 3] = read_mode_four_color(data_bits)?;
            stage.one_color = color;
        }
        fill_tile(&mut stage.rgb, frame.width, frame.height, tile_x, tile_y, stage.one_color);
        Ok(())
    }
}

/// Decodes a mode-5 tile.
fn stage_coefficients(
    frame: &FullFrame,
    stage: &mut FullStage,
    data_bits: &mut BitReader<'_>,
    record: &MvsFullRecord<'_>,
    tables: &MvsTables,
    tile_x: usize,
    tile_y: usize,
    global: usize,
    Ghost(task): Ghost<FullTask>,
    Ghost(index): Ghost<int>,
) -> (r: Result<(), VncError>)
    requires
        frame.wf(),
        old(stage).fits(*frame),
        old(data_bits).wf(),
        task.frame == *frame,
        task.data == old(data_bits).bytes@,
        task.tables == *tables,
        task.scale_threshold_a == record.scale_threshold_a,
        task.scale_threshold_b == record.scale_threshold_b,
        tile_x == frame.tile_column(index) * 8,
        tile_y == frame.tile_row(index) * 8,
        tile_x < frame.width,
        tile_y < frame.height,
        global == frame.global_tile(index),
        global < old(stage).tiles@.len(),
    ensures
        final(stage).fits(*frame),
        final(data_bits).wf(),
        final(data_bits).bytes == old(data_bits).bytes,
        stage_reached(
            r,
            *final(stage),
            final(data_bits).position as int,
            coefficient_tile(task, index, old(stage).at(old(data_bits).position as int)),
        ),
{
    let tile_state: ModeFiveTileState = decode_mode_five_coefficients(
        data_bits,
        &stage.previous,
        record.scale_threshold_a,
        record.scale_threshold_b,
    )?;
    render_mode_five_tile(
        &mut stage.rgb,
        frame.width,
        frame.height,
        tile_x,
        tile_y,
        &tile_state.coefficients,
        tables,
    );
    if let Some(seed) = tile_state.seed {
        let tile: SavedTileState = stage.tiles[global];
        stage.tiles.set(
            global,
            SavedTileState {
                generation: tile.generation,
                coefficients: Some(seed),
                reference: tile.reference,
            },
        );
    }
    stage.previous = Some(tile_state);
    Ok(())
}

/// Decodes a tile of mode 6 or 7.
fn stage_cached(
    frame: &FullFrame,
    stage: &mut FullStage,
    data_bits: &mut BitReader<'_>,
    cache: &MvsCacheState,
    tables: &MvsTables,
    mode: u8,
    tile_x: usize,
    tile_y: usize,
    Ghost(task): Ghost<FullTask>,
    Ghost(index): Ghost<int>,
) -> (r: Result<(), VncError>)
    requires
        frame.wf(),
        old(stage).fits(*frame),
        old(data_bits).wf(),
        cache.wf(),
        task.frame == *frame,
        task.data == old(data_bits).bytes@,
        task.tables == *tables,
        task.cache == cache@,
        tile_x == frame.tile_column(index) * 8,
        tile_y == frame.tile_row(index) * 8,
        tile_x < frame.width,
        tile_y < frame.height,
    ensures
        final(stage).fits(*frame),
        final(data_bits).wf(),
        final(data_bits).bytes == old(data_bits).bytes,
        stage_reached(
            r,
            *final(stage),
            final(data_bits).position as int,
            cached_tile(task, mode as int, index, old(stage).at(old(data_bits).position as int)),
        ),
{
    let cache_index: u16 = if mode == 6 {
        let high: u8 = context(
            data_bits.read_u8(),
            "MVS type-0 mode 6 缺少 cache 索引高字节",
        )?;
        let low: u8 = context(
            data_bits.read_u8(),
            "MVS type-0 mode 6 缺少 cache 索引低字节",
        )?;
        high as u16 * 256 + low as u16
    } else {
        stage.cache_index.wrapping_add(1)
    };
    let entry: [i8; 99] = lookup_cache_entry(cache, cache_index)?;
    let coefficients: ModeFiveCoefficients = cache_entry_coefficients(&entry);
    render_mode_five_tile(
        &mut stage.rgb,
        frame.width,
        frame.height,
        tile_x,
        tile_y,
        &coefficients,
        tables,
    );
    stage.cache_index = cache_index;
    Ok(())
}

/// Decodes one tile.
fn stage_tile(
    frame: &FullFrame,
    stage: &mut FullStage,
    data_bits: &mut BitReader<'_>,
    record: &MvsFullRecord<'_>,
    tables: &MvsTables,
    cache: &MvsCacheState,
    mode: u8,
    index: usize,
    Ghost(task): Ghost<FullTask>,
) -> (r: Result<(), VncError>)
    requires
        frame.wf(),
        old(stage).fits(*frame),
        old(data_bits).wf(),
        cache.wf(),
        task.frame == *frame,
        task.data == old(data_bits).bytes@,
        task.tables == *tables,
        task.cache == cache@,
        task.scale_threshold_a == record.scale_threshold_a,
        task.scale_threshold_b == record.scale_threshold_b,
        index < frame.tile_count(),
        mode < 8,
    ensures
        final(stage).fits(*frame),
        final(data_bits).wf(),
        final(data_bits).bytes == old(data_bits).bytes,
        stage_reached(
            r,
            *final(stage),
            final(data_bits).position as int,
            tile_done(
                task,
                mode as int,
                index as int,
                old(stage).at(old(data_bits).position as int),
            ),
        ),
{
    reveal(tile_done);
    let ghost at = index as int;
    proof {
        lemma_tiles_over(*frame);
        lemma_tile_place(*frame, at);
    }
    let tiles_x: usize = (frame.width + 7) / 8;
    let column: usize = index % tiles_x;
    let row: usize = index / tiles_x;
    let tile_x: usize = column * 8;
    let tile_y: usize = row * 8;
    let global: usize = global_tile_index(frame, column, row, Ghost(at));
    let tile: SavedTileState = stage.tiles[global];
    stage.tiles.set(
        global,
        SavedTileState {
            generation: frame.generation,
            coefficients: tile.coefficients,
            reference: None,
        },
    );
    let ghost pos = data_bits.position as int;
    let ghost s = marked(task, at, old(stage).at(pos));
    assert(stage.at(pos) =~= s);
    if mode == 0 {
        fill_tile(&mut stage.rgb, frame.width, frame.height, tile_x, tile_y, [255, 255, 255]);
        assert([255u8, 255u8, 255u8]@ =~= white());
        Ok(())
    } else if mode == 1 {
        if column == 0 {
            return Err(VncError::Text("MVS type-0 mode 1 不能出现在首列"));
        }
        stage_copy(
            frame,
            stage,
            tile_x - 8,
            tile_y,
            global - 1,
            tile_x,
            tile_y,
            global,
            Ghost(task),
            Ghost(at),
            Ghost(pos),
        );
        Ok(())
    } else if mode == 2 {
        if row == 0 {
            return Err(VncError::Text("MVS type-0 mode 2 不能出现在首行"));
        }
        let surface_tiles_x: usize = (frame.surface_width + 7) / 8;
        stage_copy(
            frame,
            stage,
            tile_x,
            tile_y - 8,
            global - surface_tiles_x,
            tile_x,
            tile_y,
            global,
            Ghost(task),
            Ghost(at),
            Ghost(pos),
        );
        Ok(())
    } else if mode == 3 {
        assert([255u8, 255u8, 255u8]@ =~= white());
        assert([0u8, 0u8, 0u8]@ =~= black());
        decode_bitmap_tile(
            data_bits,
            &mut stage.rgb,
            frame.width,
            frame.height,
            tile_x,
            tile_y,
            [255, 255, 255],
            [0, 0, 0],
        )
    } else if mode == 4 {
        stage_palette(frame, stage, data_bits, tile_x, tile_y, Ghost(task), Ghost(at))
    } else if mode == 5 {
        stage_coefficients(
            frame,
            stage,
            data_bits,
            record,
            tables,
            tile_x,
            tile_y,
            global,
            Ghost(task),
            Ghost(at),
        )
    } else {
        stage_cached(
            frame,
            stage,
            data_bits,
            cache,
            tables,
            mode,
            tile_x,
            tile_y,
            Ghost(task),
            Ghost(at),
        )
    }
}

impl MvsFullDecoder {
    /// Every slot and every tile has its place.
    pub open spec fn wf(self) -> bool {
        self@.wf()
    }

    /// A decoder that has seen no record.
    pub fn new(tables: MvsTables) -> (r: Self)
        ensures
            r.wf(),
            r@ == (DecoderView {
                tables,
                committed_records: 0,
                surface: None,
                cache: crate::mvs_cache::empty_cache(),
            }),
    {
        MvsFullDecoder {
            tables,
            committed_records: 0,
            surface_state: None,
            cache_state: MvsCacheState::new(),
        }
    }

    /// The same decoder again.
    pub fn duplicate(&self) -> (r: Self)
        ensures
            r@ == self@,
    {
        MvsFullDecoder {
            tables: self.tables,
            committed_records: self.committed_records,
            surface_state: match &self.surface_state {
                Some(s) => Some(
                    MvsSurfaceState {
                        width: s.width,
                        height: s.height,
                        tiles_x: s.tiles_x,
                        tiles: duplicate_all(&s.tiles),
                    },
                ),
                None => None,
            },
            cache_state: self.cache_state.duplicate(),
        }
    }

    /// Decodes a full-frame record that covers the whole surface.
    pub fn prepare(&self, record: &MvsFullRecord<'_>, width: usize, height: usize) -> (r: Result<
        PreparedMvsFull,
        VncError,
    >)
        requires
            self.wf(),
        ensures
            prepared_as(
                r,
                width,
                height,
                full_decoded(self@, *record, 0, 0, width, height, width, height),
            ),
    {
        self.prepare_rect(record, 0, 0, width, height, width, height)
    }

    /// Where a record paints, or why it cannot.
    fn check_frame(
        &self,
        rect_x: usize,
        rect_y: usize,
        width: usize,
        height: usize,
        surface_width: usize,
        surface_height: usize,
    ) -> (r: Result<FullFrame, VncError>)
        requires
            self.wf(),
        ensures
            r == full_frame(
                self@,
                rect_x,
                rect_y,
                width,
                height,
                surface_width,
                surface_height,
            ),
            r matches Ok(frame) ==> frame.wf(),
    {
        let pixel_count: usize = match width.checked_mul(height) {
            Some(count) => count,
            None => {
                return Err(VncError::Text("MVS type-0 矩形像素数溢出"));
            },
        };
        if pixel_count == 0 {
            return Err(VncError::Text("MVS type-0 矩形尺寸不能为零"));
        }
        if pixel_count > MAX_MVS_DECODE_PIXELS {
            return Err(
                VncError::Number {
                    before: "MVS type-0 矩形超过协议解码预算: ",
                    value: pixel_count as u64,
                    after: " 像素",
                },
            );
        }
        let surface_pixel_count: usize = match surface_width.checked_mul(surface_height) {
            Some(count) => count,
            None => {
                return Err(VncError::Text("MVS surface 像素数溢出"));
            },
        };
        if surface_pixel_count == 0 {
            return Err(VncError::Text("MVS surface 尺寸不能为零"));
        }
        if surface_pixel_count > MAX_MVS_DECODE_PIXELS {
            return Err(
                VncError::Number {
                    before: "MVS surface 超过协议解码预算: ",
                    value: surface_pixel_count as u64,
                    after: " 像素",
                },
            );
        }
        let right: usize = match rect_x.checked_add(width) {
            Some(right) => right,
            None => {
                return Err(VncError::Text("MVS type-0 矩形右边界溢出"));
            },
        };
        let bottom: usize = match rect_y.checked_add(height) {
            Some(bottom) => bottom,
            None => {
                return Err(VncError::Text("MVS type-0 矩形下边界溢出"));
            },
        };
        if right > surface_width || bottom > surface_height {
            return Err(
                VncError::RectOutsideSurface {
                    before: "MVS type-0 矩形超出 surface: rect=",
                    x: rect_x,
                    y: rect_y,
                    width,
                    height,
                    surface_width,
                    surface_height,
                },
            );
        }
        let generation: u64 = match self.committed_records.checked_add(1) {
            Some(generation) => generation,
            None => {
                return Err(VncError::Text("MVS type-0 已提交记录计数溢出"));
            },
        };
        if let Some(state) = &self.surface_state {
            if state.width != surface_width || state.height != surface_height {
                return Err(VncError::Text("MVS surface 几何与 generation-scoped decoder 不一致"));
            }
        }
        assert(width > 0 && height > 0) by (nonlinear_arith)
            requires
                width * height != 0,
        ;
        Ok(
            FullFrame {
                rect_x,
                rect_y,
                width,
                height,
                surface_width,
                surface_height,
                generation,
            },
        )
    }

    /// The tile states that a record starts from.
    fn start_tiles(&self, frame: &FullFrame) -> (r: Vec<SavedTileState>)
        requires
            self.wf(),
            frame.wf(),
            self@.surface matches Some(s) ==> s.width == frame.surface_width && s.height
                == frame.surface_height,
        ensures
            r@ == starting_tiles(self@, *frame),
            r@.len() == frame.surface_tiles_x() * tiles_over(frame.surface_height as int),
    {
        if let Some(state) = &self.surface_state {
            return duplicate_all(&state.tiles);
        }
        proof {
            lemma_tiles_over(*frame);
        }
        let count: usize = ((frame.surface_width + 7) / 8) * ((frame.surface_height + 7) / 8);
        let mut tiles: Vec<SavedTileState> = Vec::with_capacity(count);
        let mut i: usize = 0;
        while i < count
            invariant
                i <= count,
                tiles@.len() == i,
                forall|j: int| 0 <= j < i ==> #[trigger] tiles@[j] == crate::mvs_tiles::blank_tile(),
            decreases count - i,
        {
            tiles.push(SavedTileState { generation: 0, coefficients: None, reference: None });
            i = i + 1;
        }
        assert(tiles@ =~= starting_tiles(self@, *frame));
        tiles
    }

    /// Decodes a full-frame record that covers a rectangle of the surface.
    pub fn prepare_rect(
        &self,
        record: &MvsFullRecord<'_>,
        rect_x: usize,
        rect_y: usize,
        width: usize,
        height: usize,
        surface_width: usize,
        surface_height: usize,
    ) -> (r: Result<PreparedMvsFull, VncError>)
        requires
            self.wf(),
        ensures
            prepared_as(
                r,
                width,
                height,
                full_decoded(
                    self@,
                    *record,
                    rect_x,
                    rect_y,
                    width,
                    height,
                    surface_width,
                    surface_height,
                ),
            ),
    {
        let frame: FullFrame = self.check_frame(
            rect_x,
            rect_y,
            width,
            height,
            surface_width,
            surface_height,
        )?;
        let ghost task = FullTask {
            frame,
            scale_threshold_a: record.scale_threshold_a,
            scale_threshold_b: record.scale_threshold_b,
            modes: record.mode_stream@,
            data: record.data_stream@,
            tables: self.tables,
            cache: self.cache_state@,
        };
        let mut stage: FullStage = self.first_stage(&frame);
        let ghost start = full_start(
            frame,
            starting_tiles(self@, frame),
            self.cache_state.previous_cache_index,
        );
        let mut mode_bits: BitReader<'_> = BitReader::new(record.mode_stream);
        let mut data_bits: BitReader<'_> = BitReader::new(record.data_stream);
        let _start_bit: u32 = context(
            mode_bits.read_bits(1),
            "MVS type-0 mode 流缺少起始位",
        )?;
        self.stage_tiles(&frame, &mut stage, &mut mode_bits, &mut data_bits, record, Ghost(task))?;
        read_terminal(
            &mut mode_bits,
            "MVS type-0 mode 流缺少终止符",
            "MVS type-0 mode 流终止符非法: ",
        )?;
        read_terminal(
            &mut data_bits,
            "MVS type-0 data 流缺少终止符",
            "MVS type-0 data 流终止符非法: ",
        )?;
        proof {
            lemma_tiles_over(frame);
        }
        let mut cache_state: MvsCacheState = self.cache_state.duplicate();
        cache_state.previous_cache_index = stage.cache_index;
        let next_decoder: MvsFullDecoder = MvsFullDecoder {
            tables: self.tables,
            committed_records: frame.generation,
            surface_state: Some(
                MvsSurfaceState {
                    width: surface_width,
                    height: surface_height,
                    tiles_x: (surface_width + 7) / 8,
                    tiles: stage.tiles,
                },
            ),
            cache_state,
        };
        Ok(
            PreparedMvsFull {
                decoded: DecodedMvsRect { width, height, rgb: stage.rgb },
                next_decoder,
            },
        )
    }

    fn first_stage(&self, frame: &FullFrame) -> (r: FullStage)
        requires
            self.wf(),
            frame.wf(),
            self@.surface matches Some(s) ==> s.width == frame.surface_width && s.height
                == frame.surface_height,
        ensures
            r.fits(*frame),
            r.at(0) == full_start(
                *frame,
                starting_tiles(self@, *frame),
                self.cache_state.previous_cache_index,
            ),
    {
        proof {
            lemma_tiles_over(*frame);
        }
        let length: usize = frame.width * frame.height * 3;
        let stage: FullStage = FullStage {
            rgb: vec![0; length],
            tiles: self.start_tiles(frame),
            cache_index: self.cache_state.previous_cache_index,
            one_color: [0, 0, 0],
            color_of_ones: [255, 255, 255],
            color_of_zeros: [181, 213, 254],
            previous: None,
        };
        proof {
            let start = full_start(
                *frame,
                starting_tiles(self@, *frame),
                self.cache_state.previous_cache_index,
            );
            assert(stage.rgb@ =~= start.rgb);
            assert(stage.one_color@ =~= start.one_color);
            assert(stage.color_of_ones@ =~= start.color_of_ones);
            assert(stage.color_of_zeros@ =~= start.color_of_zeros);
        }
        stage
    }

    /// Decodes all tiles of a record.
    fn stage_tiles(
        &self,
        frame: &FullFrame,
        stage: &mut FullStage,
        mode_bits: &mut BitReader<'_>,
        data_bits: &mut BitReader<'_>,
        record: &MvsFullRecord<'_>,
        Ghost(task): Ghost<FullTask>,
    ) -> (r: Result<(), VncError>)
        requires
            self.wf(),
            frame.wf(),
            old(stage).fits(*frame),
            old(mode_bits).wf(),
            old(data_bits).wf(),
            task == (FullTask {
                frame: *frame,
                scale_threshold_a: record.scale_threshold_a,
                scale_threshold_b: record.scale_threshold_b,
                modes: old(mode_bits).bytes@,
                data: old(data_bits).bytes@,
                tables: self.tables,
                cache: self.cache_state@,
            }),
        ensures
            final(stage).fits(*frame),
            final(mode_bits).wf(),
            final(mode_bits).bytes == old(mode_bits).bytes,
            final(data_bits).wf(),
            final(data_bits).bytes == old(data_bits).bytes,
            match tiles_done(
                task,
                old(mode_bits).position as int,
                0,
                old(stage).at(old(data_bits).position as int),
            ) {
                Err(e) => r == Err::<(), VncError>(e),
                Ok((s, p)) => r is Ok && final(stage).at(final(data_bits).position as int) == s
                    && final(mode_bits).position == p,
            },
    {
        proof {
            lemma_tiles_over(*frame);
            crate::mvs_bitstream::lemma_read_bound(mode_bits.bytes@, 0, 0);
        }
        let ghost goal = tiles_done(
            task,
            mode_bits.position as int,
            0,
            stage.at(data_bits.position as int),
        );
        let tile_count: usize = ((frame.width + 7) / 8) * ((frame.height + 7) / 8);
        let mut index: usize = 0;
        while index < tile_count
            invariant
                self.wf(),
                frame.wf(),
                stage.fits(*frame),
                mode_bits.wf(),
                data_bits.wf(),
                mode_bits.bytes == old(mode_bits).bytes,
                data_bits.bytes == old(data_bits).bytes,
                tile_count == frame.tile_count(),
                index <= tile_count <= MAX_MVS_DECODE_PIXELS,
                crate::mvs_bitstream::two_to(3) == 8,
                task == (FullTask {
                    frame: *frame,
                    scale_threshold_a: record.scale_threshold_a,
                    scale_threshold_b: record.scale_threshold_b,
                    modes: old(mode_bits).bytes@,
                    data: old(data_bits).bytes@,
                    tables: self.tables,
                    cache: self.cache_state@,
                }),
                goal == tiles_done(
                    task,
                    mode_bits.position as int,
                    index as int,
                    stage.at(data_bits.position as int),
                ),
                goal == tiles_done(
                    task,
                    old(mode_bits).position as int,
                    0,
                    old(stage).at(old(data_bits).position as int),
                ),
            decreases tile_count - index,
        {
            let mode: u32 = context(mode_bits.read_bits(3), "MVS type-0 mode 字段不完整")?;
            let repeat: usize = context(
                decode_repeat_count(mode_bits),
                "MVS type-0 repeat 字段不完整",
            )?;
            let run_length: usize = repeat + 1;
            let remaining: usize = tile_count - index;
            if run_length > remaining {
                return Err(
                    VncError::Numbers {
                        before: "MVS type-0 repeat 超过剩余 tile: run=",
                        first: run_length as u64,
                        between: ", remaining=",
                        second: remaining as u64,
                        after: "",
                    },
                );
            }
            self.stage_run(
                frame,
                stage,
                data_bits,
                record,
                mode as u8,
                index,
                run_length,
                Ghost(task),
            )?;
            index = index + run_length;
        }
        Ok(())
    }

    /// Decodes a run of tiles of one mode.
    fn stage_run(
        &self,
        frame: &FullFrame,
        stage: &mut FullStage,
        data_bits: &mut BitReader<'_>,
        record: &MvsFullRecord<'_>,
        mode: u8,
        first: usize,
        count: usize,
        Ghost(task): Ghost<FullTask>,
    ) -> (r: Result<(), VncError>)
        requires
            self.wf(),
            frame.wf(),
            old(stage).fits(*frame),
            old(data_bits).wf(),
            task.frame == *frame,
            task.data == old(data_bits).bytes@,
            task.tables == self.tables,
            task.cache == self.cache_state@,
            task.scale_threshold_a == record.scale_threshold_a,
            task.scale_threshold_b == record.scale_threshold_b,
            first + count <= frame.tile_count(),
            frame.tile_count() <= MAX_MVS_DECODE_PIXELS,
            mode < 8,
        ensures
            final(stage).fits(*frame),
            final(data_bits).wf(),
            final(data_bits).bytes == old(data_bits).bytes,
            match run_done(
                task,
                mode as int,
                first as int,
                count as int,
                old(stage).at(old(data_bits).position as int),
            ) {
                Err(e) => r == Err::<(), VncError>(e),
                Ok(s) => r is Ok && final(stage).at(final(data_bits).position as int) == s,
            },
    {
        let ghost goal = run_done(
            task,
            mode as int,
            first as int,
            count as int,
            stage.at(data_bits.position as int),
        );
        let mut done: usize = 0;
        while done < count
            invariant
                self.wf(),
                frame.wf(),
                stage.fits(*frame),
                data_bits.wf(),
                data_bits.bytes == old(data_bits).bytes,
                task.frame == *frame,
                task.data == old(data_bits).bytes@,
                task.tables == self.tables,
                task.cache == self.cache_state@,
                task.scale_threshold_a == record.scale_threshold_a,
                task.scale_threshold_b == record.scale_threshold_b,
                first + count <= frame.tile_count(),
                frame.tile_count() <= MAX_MVS_DECODE_PIXELS,
                mode < 8,
                done <= count,
                goal == run_done(
                    task,
                    mode as int,
                    first as int,
                    count as int,
                    old(stage).at(old(data_bits).position as int),
                ),
                goal == run_done(
                    task,
                    mode as int,
                    first + done,
                    count - done,
                    stage.at(data_bits.position as int),
                ),
            decreases count - done,
        {
            stage_tile(
                frame,
                stage,
                data_bits,
                record,
                &self.tables,
                &self.cache_state,
                mode,
                first + done,
                Ghost(task),
            )?;
            done = done + 1;
        }
        Ok(())
    }

    /// The pixels of a decoded record.
    pub fn decoded(prepared: &PreparedMvsFull) -> (r: &DecodedMvsRect)
        ensures
            *r == prepared.decoded,
    {
        &prepared.decoded
    }

    /// Installs the state that a decoded record leads to and hands out its pixels.
    pub fn commit(&mut self, prepared: PreparedMvsFull) -> (r: DecodedMvsRect)
        ensures
            *final(self) == prepared.next_decoder,
            r == prepared.decoded,
    {
        *self = prepared.next_decoder;
        prepared.decoded
    }
}

/// Reads the terminal byte of a stream.
fn read_terminal(reader: &mut BitReader<'_>, missing: &'static str, wrong: &'static str) -> (r:
    Result<(), VncError>)
    requires
        old(reader).wf(),
    ensures
        r == terminal_at(old(reader).bytes@, old(reader).position as int, missing, wrong),
        final(reader).bytes == old(reader).bytes,
        final(reader).wf(),
{
    let byte: u8 = context(reader.read_u8(), missing)?;
    if byte != STREAM_TERMINAL {
        return Err(VncError::Byte { before: wrong, byte });
    }
    Ok(())
}

/// Whether a decoding answered as `expected` says.
pub open spec fn prepared_as(
    r: Result<PreparedMvsFull, VncError>,
    width: usize,
    height: usize,
    expected: Result<(Seq<u8>, DecoderView), VncError>,
) -> bool {
    match expected {
        Err(e) => r matches Err(f) && f == e,
        Ok((rgb, next)) => r matches Ok(p) && p.decoded.width == width && p.decoded.height == height
            && p.decoded.rgb@ == rgb && p.next_decoder@ == next && p.next_decoder.wf(),
    }
}

} // verus!
