//! What the tiles of a full-frame record do to its picture, told pixel by pixel.

use vstd::prelude::*;
use crate::error::VncError;
use crate::mvs_bitstream::two_to;
use crate::mvs_code_laws;
use crate::mvs_full;
use crate::mvs_full::{FullFrame, FullState, FullTask};
use crate::mvs_paint;
use crate::mvs_tiles::{ModeFiveCoefficients, SavedTileReference};
use crate::mvs_wire::MvsTables;

verus! {

/// Where a channel of a pixel stands: rows from the top, pixels from the left, red before green
/// before blue.
pub open spec fn place(width: int, x: int, y: int, channel: int) -> int {
    3 * (width * y + x) + channel
}

/// A channel of a pixel.
pub open spec fn seen(rgb: Seq<u8>, width: int, x: int, y: int, channel: int) -> u8 {
    rgb[place(width, x, y, channel)]
}

/// Whether a pixel lies on the eight by eight pixels from a corner on.
pub open spec fn on_tile(x: int, y: int, tile_x: int, tile_y: int) -> bool {
    tile_x <= x && x - tile_x < 8 && tile_y <= y && y - tile_y < 8
}

/// Whether a buffer has that pixel and channel.
pub open spec fn shows(rgb: Seq<u8>, width: int, height: int, x: int, y: int, channel: int) -> bool {
    &&& rgb.len() == 3 * (width * height)
    &&& 0 <= x < width
    &&& 0 <= y < height
    &&& 0 <= channel < 3
}

proof fn lemma_place(rgb: Seq<u8>, width: int, height: int, x: int, y: int, channel: int)
    requires
        shows(rgb, width, height, x, y, channel),
    ensures
        0 <= place(width, x, y, channel) < rgb.len(),
        mvs_paint::column_of_byte(place(width, x, y, channel), width) == x,
        mvs_paint::row_of_byte(place(width, x, y, channel), width) == y,
        place(width, x, y, channel) % 3 == channel,
        place(width, x, y, channel) == (y * width + x) * 3 + channel,
{
    let q = width * y + x;
    assert(0 <= q < width * height) by (nonlinear_arith)
        requires
            q == width * y + x,
            0 <= x < width,
            0 <= y < height,
    ;
    assert(width * y == y * width) by (nonlinear_arith);
    assert((3 * q + channel) / 3 == q && (3 * q + channel) % 3 == channel);
    vstd::arithmetic::div_mod::lemma_fundamental_div_mod_converse(q, width, y, x);
}

proof fn lemma_painted(
    rgb: Seq<u8>,
    width: int,
    height: int,
    tile_x: int,
    tile_y: int,
    color: spec_fn(int, int) -> Seq<u8>,
    x: int,
    y: int,
    channel: int,
)
    requires
        shows(rgb, width, height, x, y, channel),
    ensures
        seen(mvs_paint::painted(rgb, width, tile_x, tile_y, color), width, x, y, channel) == (
        if on_tile(x, y, tile_x, tile_y) {
            color(x - tile_x, y - tile_y)[channel]
        } else {
            seen(rgb, width, x, y, channel)
        }),
{
    lemma_place(rgb, width, height, x, y, channel);
}

/// A tile in one color has it in all its pixels, and no other pixel changes.
pub proof fn law_filled_tile(
    rgb: Seq<u8>,
    width: int,
    height: int,
    tile_x: int,
    tile_y: int,
    color: Seq<u8>,
    x: int,
    y: int,
    channel: int,
)
    requires
        shows(rgb, width, height, x, y, channel),
    ensures
        seen(mvs_paint::filled(rgb, width, tile_x, tile_y, color), width, x, y, channel) == (
        if on_tile(x, y, tile_x, tile_y) {
            color[channel]
        } else {
            seen(rgb, width, x, y, channel)
        }),
{
    lemma_painted(
        rgb,
        width,
        height,
        tile_x,
        tile_y,
        |dx: int, dy: int| color,
        x,
        y,
        channel,
    );
}

/// A copied tile shows what stood at the same distance from the source's corner, neither turned nor
/// moved, and no other pixel changes.
pub proof fn law_copied_tile(
    rgb: Seq<u8>,
    width: int,
    height: int,
    source_x: int,
    source_y: int,
    tile_x: int,
    tile_y: int,
    x: int,
    y: int,
    channel: int,
)
    requires
        shows(rgb, width, height, x, y, channel),
        on_tile(x, y, tile_x, tile_y) ==> shows(
            rgb,
            width,
            height,
            x + source_x - tile_x,
            y + source_y - tile_y,
            channel,
        ),
    ensures
        seen(
            mvs_paint::copied(rgb, width, source_x, source_y, tile_x, tile_y),
            width,
            x,
            y,
            channel,
        ) == (if on_tile(x, y, tile_x, tile_y) {
            seen(rgb, width, x + source_x - tile_x, y + source_y - tile_y, channel)
        } else {
            seen(rgb, width, x, y, channel)
        }),
{
    let color = |dx: int, dy: int| mvs_paint::color_at(rgb, width, source_x + dx, source_y + dy);
    lemma_painted(rgb, width, height, tile_x, tile_y, color, x, y, channel);
    if on_tile(x, y, tile_x, tile_y) {
        let from_x = x + source_x - tile_x;
        let from_y = y + source_y - tile_y;
        lemma_place(rgb, width, height, from_x, from_y, channel);
        assert(source_x + (x - tile_x) == from_x && source_y + (y - tile_y) == from_y);
    }
}

/// Bit `i` of a mask, the leftmost first, is its digit of that place.
pub proof fn law_mask_bits_are_digits(mask: u8, i: int)
    requires
        0 <= i < 8,
    ensures
        mvs_paint::mask_bit(mask, i) <==> (mask as int / two_to(7 - i)) % 2 == 1,
{
    reveal_with_fuel(two_to, 9);
    assert((mask >> 0u8) & 1 == (mask / 1) % 2 && (mask >> 1u8) & 1 == (mask / 2) % 2 && (mask
        >> 2u8) & 1 == (mask / 4) % 2 && (mask >> 3u8) & 1 == (mask / 8) % 2 && (mask >> 4u8) & 1
        == (mask / 16) % 2 && (mask >> 5u8) & 1 == (mask / 32) % 2 && (mask >> 6u8) & 1 == (mask
        / 64) % 2 && (mask >> 7u8) & 1 == (mask / 128) % 2) by (bit_vector);
    assert(i == 0 || i == 1 || i == 2 || i == 3 || i == 4 || i == 5 || i == 6 || i == 7);
}

/// A two-color tile has the first color where the mask of the row has a one, the leftmost pixel at
/// the digit that counts most, and no other pixel changes.
pub proof fn law_bitmap_tile(
    rgb: Seq<u8>,
    width: int,
    height: int,
    tile_x: int,
    tile_y: int,
    masks: Seq<u8>,
    one: Seq<u8>,
    zero: Seq<u8>,
    x: int,
    y: int,
    channel: int,
)
    requires
        shows(rgb, width, height, x, y, channel),
    ensures
        seen(
            mvs_paint::bitmapped(rgb, width, tile_x, tile_y, masks, one, zero),
            width,
            x,
            y,
            channel,
        ) == (if !on_tile(x, y, tile_x, tile_y) {
            seen(rgb, width, x, y, channel)
        } else if (masks[y - tile_y] as int / two_to(7 - (x - tile_x))) % 2 == 1 {
            one[channel]
        } else {
            zero[channel]
        }),
{
    lemma_place(rgb, width, height, x, y, channel);
    if on_tile(x, y, tile_x, tile_y) {
        law_mask_bits_are_digits(masks[y - tile_y], x - tile_x);
    }
}

/// A rendered tile shows the samples of its three blocks, the luma under its own steps and both
/// chromas under theirs, row by row, and no other pixel changes.
pub proof fn law_rendered_tile(
    rgb: Seq<u8>,
    width: int,
    height: int,
    tile_x: int,
    tile_y: int,
    coefficients: ModeFiveCoefficients,
    tables: MvsTables,
    x: int,
    y: int,
    channel: int,
)
    requires
        shows(rgb, width, height, x, y, channel),
    ensures
        seen(
            mvs_paint::rendered(rgb, width, tile_x, tile_y, coefficients, tables),
            width,
            x,
            y,
            channel,
        ) == (if on_tile(x, y, tile_x, tile_y) {
            let at = 8 * (y - tile_y) + (x - tile_x);
            crate::mvs_pixels::rgb_of(
                crate::mvs_pixels::block_samples(coefficients.y@, tables.luminance@)[at],
                crate::mvs_pixels::block_samples(coefficients.cb@, tables.chrominance@)[at],
                crate::mvs_pixels::block_samples(coefficients.cr@, tables.chrominance@)[at],
            )[channel]
        } else {
            seen(rgb, width, x, y, channel)
        }),
{
    let color = |dx: int, dy: int|
        crate::mvs_partial::tile_colors(coefficients, tables, dy * 8 + dx);
    lemma_painted(rgb, width, height, tile_x, tile_y, color, x, y, channel);
}

/// The digits of the pixel masks from a row on; a row of ones is left out.
pub open spec fn mask_digits(masks: Seq<u8>, row: int) -> Seq<bool>
    decreases 8 - row,
{
    if row >= 8 {
        Seq::empty()
    } else if masks[row] == 255 {
        mask_digits(masks, row + 1)
    } else {
        mvs_code_laws::digits(masks[row] as int, 8) + mask_digits(masks, row + 1)
    }
}

/// What a bitmap is written as: a digit for each row, one where the row is all ones, and then the
/// masks of the others.
pub open spec fn bitmap_bits(masks: Seq<u8>) -> Seq<bool> {
    Seq::new(8, |row: int| masks[row] == 255) + mask_digits(masks, 0)
}

proof fn lemma_eight_digits(bits: Seq<bool>, i: int)
    requires
        bits.len() == 8,
        0 <= i < 8,
    ensures
        0 <= mvs_code_laws::number(bits) < 256,
        (mvs_code_laws::number(bits) / two_to(7 - i)) % 2 == 1 <==> bits[i],
{
    reveal_with_fuel(two_to, 9);
    reveal_with_fuel(mvs_code_laws::number, 9);
    let b7 = bits.drop_last();
    let b6 = b7.drop_last();
    let b5 = b6.drop_last();
    let b4 = b5.drop_last();
    let b3 = b4.drop_last();
    let b2 = b3.drop_last();
    let b1 = b2.drop_last();
    assert(b7.last() == bits[6] && b6.last() == bits[5] && b5.last() == bits[4] && b4.last()
        == bits[3] && b3.last() == bits[2] && b2.last() == bits[1] && b1.last() == bits[0]);
    let v = |k: int|
        if bits[k] {
            1int
        } else {
            0
        };
    let n = mvs_code_laws::number(bits);
    assert(n == 128 * v(0) + 64 * v(1) + 32 * v(2) + 16 * v(3) + 8 * v(4) + 4 * v(5) + 2 * v(6) + v(
        7,
    ));
    if i == 0 {
        assert(n / 128 == v(0));
    } else if i == 1 {
        assert(n / 64 == 2 * v(0) + v(1));
    } else if i == 2 {
        assert(n / 32 == 4 * v(0) + 2 * v(1) + v(2));
    } else if i == 3 {
        assert(n / 16 == 8 * v(0) + 4 * v(1) + 2 * v(2) + v(3));
    } else if i == 4 {
        assert(n / 8 == 16 * v(0) + 8 * v(1) + 4 * v(2) + 2 * v(3) + v(4));
    } else if i == 5 {
        assert(n / 4 == 32 * v(0) + 16 * v(1) + 8 * v(2) + 4 * v(3) + 2 * v(4) + v(5));
    } else if i == 6 {
        assert(n / 2 == 64 * v(0) + 32 * v(1) + 16 * v(2) + 8 * v(3) + 4 * v(4) + 2 * v(5) + v(6));
    } else {
        assert(two_to(0) == 1);
    }
}

proof fn lemma_mask_digits(bytes: Seq<u8>, pos: int, masks: Seq<u8>, row_mask: u8, row: int)
    requires
        masks.len() == 8,
        0 <= row <= 8,
        forall|r: int| 0 <= r < 8 ==> (#[trigger] mvs_paint::mask_bit(row_mask, r) <==> masks[r] == 255),
        mvs_code_laws::holds(bytes, pos, mask_digits(masks, row)),
    ensures
        mvs_paint::bitmap_rows_at(bytes, pos, row_mask, row, masks.take(row)) == (
            Ok::<Seq<u8>, VncError>(masks),
            pos + mask_digits(masks, row).len(),
        ),
    decreases 8 - row,
{
    if row >= 8 {
        assert(masks.take(8) =~= masks);
    } else {
        assert(masks.take(row).push(masks[row]) =~= masks.take(row + 1));
        assert(mvs_paint::mask_bit(row_mask, row) <==> masks[row] == 255);
        if masks[row] == 255 {
            lemma_mask_digits(bytes, pos, masks, row_mask, row + 1);
        } else {
            let front = mvs_code_laws::digits(masks[row] as int, 8);
            reveal_with_fuel(two_to, 9);
            mvs_code_laws::lemma_digits(masks[row] as int, 8);
            mvs_code_laws::lemma_split(bytes, pos, front, mask_digits(masks, row + 1));
            mvs_code_laws::lemma_read(bytes, pos, masks[row] as int, 8);
            lemma_mask_digits(bytes, pos + 8, masks, row_mask, row + 1);
        }
    }
}

/// A bitmap that was written is read back.
pub proof fn law_bitmap_is_read_back(bytes: Seq<u8>, pos: int, masks: Seq<u8>)
    requires
        masks.len() == 8,
        mvs_code_laws::holds(bytes, pos, bitmap_bits(masks)),
    ensures
        mvs_paint::bitmap_at(bytes, pos) == (
            Ok::<Seq<u8>, VncError>(masks),
            pos + bitmap_bits(masks).len(),
        ),
{
    let front = Seq::new(8, |row: int| masks[row] == 255);
    mvs_code_laws::lemma_split(bytes, pos, front, mask_digits(masks, 0));
    mvs_code_laws::law_digits_are_read(bytes, pos, front);
    let row_mask = mvs_code_laws::number(front) as u8;
    lemma_eight_digits(front, 0);
    assert forall|r: int| 0 <= r < 8 implies (#[trigger] mvs_paint::mask_bit(row_mask, r)
        <==> masks[r] == 255) by {
        lemma_eight_digits(front, r);
        law_mask_bits_are_digits(row_mask, r);
    }
    lemma_mask_digits(bytes, pos + 8, masks, row_mask, 0);
    assert(masks.take(0) =~= Seq::<u8>::empty());
}

/// The tile of a rectangle that a pixel lies on, counted along the rows of tiles from the top.
pub open spec fn tile_of(frame: FullFrame, x: int, y: int) -> int {
    (y / 8) * ((frame.width + 7) / 8) + x / 8
}

/// Whether a state belongs to a rectangle, and has that pixel and channel.
pub open spec fn pixel_of(frame: FullFrame, s: FullState, x: int, y: int, channel: int) -> bool {
    &&& frame.wf()
    &&& shows(s.rgb, frame.width as int, frame.height as int, x, y, channel)
    &&& s.tiles.len() == ((frame.surface_width + 7) / 8) * ((frame.surface_height + 7) / 8)
}

proof fn lemma_tile_of(frame: FullFrame, index: int, x: int, y: int)
    requires
        frame.wf(),
        0 <= index < frame.tile_count(),
        0 <= x < frame.width,
        0 <= y < frame.height,
    ensures
        on_tile(x, y, frame.tile_column(index) * 8, frame.tile_row(index) * 8) <==> tile_of(
            frame,
            x,
            y,
        ) == index,
        0 <= tile_of(frame, x, y) < frame.tile_count(),
{
    mvs_full::lemma_tile_place(frame, index);
    let across = frame.tiles_x();
    let down = mvs_full::tiles_over(frame.height as int);
    assert(0 <= x / 8 < across);
    assert(0 <= y / 8 < down);
    vstd::arithmetic::div_mod::lemma_fundamental_div_mod(index, across);
    vstd::arithmetic::mul::lemma_mul_is_commutative(across, frame.tile_row(index));
    vstd::arithmetic::div_mod::lemma_fundamental_div_mod_converse(
        tile_of(frame, x, y),
        across,
        y / 8,
        x / 8,
    );
    assert(0 <= (y / 8) * across + x / 8 < across * down) by (nonlinear_arith)
        requires
            0 <= x / 8 < across,
            0 <= y / 8 < down,
    ;
}

proof fn lemma_marked(task: FullTask, index: int, s: FullState, x: int, y: int, channel: int)
    requires
        pixel_of(task.frame, s, x, y, channel),
        0 <= index < task.frame.tile_count(),
    ensures
        pixel_of(task.frame, mvs_full::marked(task, index, s), x, y, channel),
        mvs_full::marked(task, index, s) == (FullState {
            tiles: mvs_full::marked(task, index, s).tiles,
            ..s
        }),
{
    mvs_full::lemma_tile_place(task.frame, index);
}

/// A tile of mode 0 is white, and no other tile changes.
pub proof fn law_white_tile(task: FullTask, index: int, s: FullState, x: int, y: int, channel: int)
    requires
        pixel_of(task.frame, s, x, y, channel),
        0 <= index < task.frame.tile_count(),
    ensures
        mvs_full::tile_done(task, 0, index, s) matches Ok(t) && seen(
            t.rgb,
            task.frame.width as int,
            x,
            y,
            channel,
        ) == (if tile_of(task.frame, x, y) == index {
            255
        } else {
            seen(s.rgb, task.frame.width as int, x, y, channel)
        }) && t.rgb.len() == s.rgb.len() && t.tiles.len() == s.tiles.len() && t.data_pos
            == s.data_pos,
{
    let marked = mvs_full::marked(task, index, s);
    assert(mvs_full::tile_done(task, 0, index, s) == Ok::<FullState, VncError>(
        mvs_full::plain_tile(task, index, marked, mvs_full::white()),
    )) by {
        reveal(mvs_full::tile_done);
    }
    lemma_marked(task, index, s, x, y, channel);
    let white = mvs_full::white();
    assert(white[0] == 255 && white[1] == 255 && white[2] == 255);
    let frame = task.frame;
    lemma_tile_of(frame, index, x, y);
    law_filled_tile(
        s.rgb,
        frame.width as int,
        frame.height as int,
        frame.tile_column(index) * 8,
        frame.tile_row(index) * 8,
        mvs_full::white(),
        x,
        y,
        channel,
    );
}

/// A tile of mode 1 shows again what stands eight pixels to its left, one of mode 2 what stands
/// eight pixels above; the first column and the first row of tiles have no such neighbour and are
/// refused. No other tile changes.
pub proof fn law_repeated_tiles(
    task: FullTask,
    index: int,
    s: FullState,
    x: int,
    y: int,
    channel: int,
)
    requires
        pixel_of(task.frame, s, x, y, channel),
        0 <= index < task.frame.tile_count(),
    ensures
        mvs_full::tile_done(task, 1, index, s) is Err <==> index % ((task.frame.width + 7) / 8)
            == 0,
        mvs_full::tile_done(task, 1, index, s) matches Ok(t) ==> seen(
            t.rgb,
            task.frame.width as int,
            x,
            y,
            channel,
        ) == (if tile_of(task.frame, x, y) == index {
            seen(s.rgb, task.frame.width as int, x - 8, y, channel)
        } else {
            seen(s.rgb, task.frame.width as int, x, y, channel)
        }),
        mvs_full::tile_done(task, 2, index, s) is Err <==> index < (task.frame.width + 7) / 8,
        mvs_full::tile_done(task, 2, index, s) matches Ok(t) ==> seen(
            t.rgb,
            task.frame.width as int,
            x,
            y,
            channel,
        ) == (if tile_of(task.frame, x, y) == index {
            seen(s.rgb, task.frame.width as int, x, y - 8, channel)
        } else {
            seen(s.rgb, task.frame.width as int, x, y, channel)
        }),
{
    reveal(mvs_full::tile_done);
    let frame = task.frame;
    lemma_tile_of(frame, index, x, y);
    mvs_full::lemma_tile_place(frame, index);
    mvs_full::lemma_tiles_over(frame);
    let width = frame.width as int;
    let height = frame.height as int;
    let tile_x = frame.tile_column(index) * 8;
    let tile_y = frame.tile_row(index) * 8;
    let across = frame.tiles_x();
    if index < across {
        vstd::arithmetic::div_mod::lemma_basic_div(index, across);
    } else {
        vstd::arithmetic::div_mod::lemma_div_non_zero(index, across);
    }
    if frame.tile_column(index) > 0 {
        law_copied_tile(
            s.rgb,
            width,
            height,
            tile_x - 8,
            tile_y,
            tile_x,
            tile_y,
            x,
            y,
            channel,
        );
        assert(x + (tile_x - 8) - tile_x == x - 8 && y + tile_y - tile_y == y);
    }
    if frame.tile_row(index) > 0 {
        law_copied_tile(
            s.rgb,
            width,
            height,
            tile_x,
            tile_y - 8,
            tile_x,
            tile_y,
            x,
            y,
            channel,
        );
        assert(y + (tile_y - 8) - tile_y == y - 8 && x + tile_x - tile_x == x);
    }
}

/// What a color is written as: eight digits of luma and then six of each chroma.
pub open spec fn color_bits(y: u8, cb: int, cr: int) -> Seq<bool> {
    mvs_code_laws::digits(y as int, 8) + (mvs_code_laws::digits(cb, 6) + mvs_code_laws::digits(
        cr,
        6,
    ))
}

/// The color that such digits stand for.
pub open spec fn color_of(y: u8, cb: int, cr: int) -> Seq<u8> {
    crate::mvs_pixels::rgb_of(y, (4 * cb) as u8, (4 * cr) as u8)
}

proof fn lemma_color_length(y: u8, cb: int, cr: int)
    requires
        0 <= cb < 64,
        0 <= cr < 64,
    ensures
        color_bits(y, cb, cr).len() == 20,
{
    reveal_with_fuel(two_to, 9);
    mvs_code_laws::lemma_digits(y as int, 8);
    mvs_code_laws::lemma_digits(cb, 6);
    mvs_code_laws::lemma_digits(cr, 6);
}

/// A channel of a pixel after a tile in two colors was painted.
pub open spec fn two_colored(
    frame: FullFrame,
    index: int,
    rgb: Seq<u8>,
    masks: Seq<u8>,
    one: Seq<u8>,
    zero: Seq<u8>,
    x: int,
    y: int,
    channel: int,
) -> u8 {
    if tile_of(frame, x, y) != index {
        seen(rgb, frame.width as int, x, y, channel)
    } else if (masks[y % 8] as int / two_to(7 - x % 8)) % 2 == 1 {
        one[channel]
    } else {
        zero[channel]
    }
}

proof fn lemma_bitmap_tile(
    task: FullTask,
    index: int,
    s: FullState,
    masks: Seq<u8>,
    one: Seq<u8>,
    zero: Seq<u8>,
    x: int,
    y: int,
    channel: int,
)
    requires
        pixel_of(task.frame, s, x, y, channel),
        0 <= index < task.frame.tile_count(),
        masks.len() == 8,
        mvs_code_laws::holds(task.data, s.data_pos, bitmap_bits(masks)),
    ensures
        mvs_full::bitmap_tile(task, index, s, one, zero) matches Ok(t) && seen(
            t.rgb,
            task.frame.width as int,
            x,
            y,
            channel,
        ) == two_colored(task.frame, index, s.rgb, masks, one, zero, x, y, channel) && t.data_pos
            == s.data_pos + bitmap_bits(masks).len() && t == (FullState {
            rgb: t.rgb,
            data_pos: t.data_pos,
            ..s
        }),
{
    let frame = task.frame;
    law_bitmap_is_read_back(task.data, s.data_pos, masks);
    lemma_tile_of(frame, index, x, y);
    let tile_x = frame.tile_column(index) * 8;
    let tile_y = frame.tile_row(index) * 8;
    law_bitmap_tile(
        s.rgb,
        frame.width as int,
        frame.height as int,
        tile_x,
        tile_y,
        masks,
        one,
        zero,
        x,
        y,
        channel,
    );
    if on_tile(x, y, tile_x, tile_y) {
        assert(x % 8 == x - tile_x && y % 8 == y - tile_y);
    }
}

/// A tile of mode 3 is white where its bitmap has a one and black where it has a zero.
pub proof fn law_black_and_white_tile(
    task: FullTask,
    index: int,
    s: FullState,
    masks: Seq<u8>,
    x: int,
    y: int,
    channel: int,
)
    requires
        pixel_of(task.frame, s, x, y, channel),
        0 <= index < task.frame.tile_count(),
        masks.len() == 8,
        mvs_code_laws::holds(task.data, s.data_pos, bitmap_bits(masks)),
    ensures
        mvs_full::tile_done(task, 3, index, s) matches Ok(t) && seen(
            t.rgb,
            task.frame.width as int,
            x,
            y,
            channel,
        ) == two_colored(
            task.frame,
            index,
            s.rgb,
            masks,
            seq![255u8, 255u8, 255u8],
            seq![0u8, 0u8, 0u8],
            x,
            y,
            channel,
        ) && t.data_pos == s.data_pos + bitmap_bits(masks).len(),
{
    let marked = mvs_full::marked(task, index, s);
    let one = mvs_full::white();
    let zero = mvs_full::black();
    assert(mvs_full::tile_done(task, 3, index, s) == mvs_full::bitmap_tile(
        task,
        index,
        marked,
        one,
        zero,
    )) by {
        reveal(mvs_full::tile_done);
    }
    lemma_marked(task, index, s, x, y, channel);
    lemma_bitmap_tile(task, index, marked, masks, one, zero, x, y, channel);
}

/// A palette tile of one color: a zero, and then a zero and the color, which is kept, or a one for
/// the color kept last.
pub proof fn law_one_color_tile(
    task: FullTask,
    index: int,
    s: FullState,
    luma: u8,
    cb: int,
    cr: int,
    x: int,
    y: int,
    channel: int,
)
    requires
        pixel_of(task.frame, s, x, y, channel),
        0 <= index < task.frame.tile_count(),
        0 <= cb < 64,
        0 <= cr < 64,
    ensures
        mvs_code_laws::holds(
            task.data,
            s.data_pos,
            seq![false] + (seq![false] + color_bits(luma, cb, cr)),
        ) ==> (mvs_full::tile_done(task, 4, index, s) matches Ok(t) && seen(
            t.rgb,
            task.frame.width as int,
            x,
            y,
            channel,
        ) == (if tile_of(task.frame, x, y) == index {
            color_of(luma, cb, cr)[channel]
        } else {
            seen(s.rgb, task.frame.width as int, x, y, channel)
        }) && t.one_color == color_of(luma, cb, cr) && t.color_of_ones == s.color_of_ones
            && t.color_of_zeros == s.color_of_zeros && t.data_pos == s.data_pos + 22),
        mvs_code_laws::holds(task.data, s.data_pos, seq![false] + seq![true]) ==> (
        mvs_full::tile_done(task, 4, index, s) matches Ok(t) && seen(
            t.rgb,
            task.frame.width as int,
            x,
            y,
            channel,
        ) == (if tile_of(task.frame, x, y) == index {
            s.one_color[channel]
        } else {
            seen(s.rgb, task.frame.width as int, x, y, channel)
        }) && t.one_color == s.one_color && t.color_of_ones == s.color_of_ones && t.color_of_zeros
            == s.color_of_zeros && t.data_pos == s.data_pos + 2),
{
    let marked = mvs_full::marked(task, index, s);
    let frame = task.frame;
    let pos = s.data_pos;
    assert(mvs_full::tile_done(task, 4, index, s) == mvs_full::palette_tile(task, index, marked))
        by {
        reveal(mvs_full::tile_done);
    }
    lemma_tile_of(frame, index, x, y);
    let color = color_of(luma, cb, cr);
    if mvs_code_laws::holds(
        task.data,
        pos,
        seq![false] + (seq![false] + color_bits(luma, cb, cr)),
    ) {
        mvs_code_laws::lemma_split(
            task.data,
            pos,
            seq![false],
            seq![false] + color_bits(luma, cb, cr),
        );
        mvs_code_laws::lemma_read_bit(task.data, pos, false);
        mvs_code_laws::lemma_split(task.data, pos + 1, seq![false], color_bits(luma, cb, cr));
        mvs_code_laws::lemma_read_bit(task.data, pos + 1, false);
        crate::mvs_picture_laws::law_palette_color_is_read(task.data, pos + 2, luma, cb, cr);
        law_filled_tile(
            s.rgb,
            frame.width as int,
            frame.height as int,
            frame.tile_column(index) * 8,
            frame.tile_row(index) * 8,
            color,
            x,
            y,
            channel,
        );
    }
    if mvs_code_laws::holds(task.data, pos, seq![false] + seq![true]) {
        mvs_code_laws::lemma_split(task.data, pos, seq![false], seq![true]);
        mvs_code_laws::lemma_read_bit(task.data, pos, false);
        mvs_code_laws::lemma_read_bit(task.data, pos + 1, true);
        law_filled_tile(
            s.rgb,
            frame.width as int,
            frame.height as int,
            frame.tile_column(index) * 8,
            frame.tile_row(index) * 8,
            s.one_color,
            x,
            y,
            channel,
        );
    }
}

/// A palette tile of two colors: a one, then a zero and both colors, the color of the ones first,
/// which are kept, or a one for the colors kept last, and then the bitmap.
pub proof fn law_two_color_tile(
    task: FullTask,
    index: int,
    s: FullState,
    ones: (u8, int, int),
    zeros: (u8, int, int),
    masks: Seq<u8>,
    x: int,
    y: int,
    channel: int,
)
    requires
        pixel_of(task.frame, s, x, y, channel),
        0 <= index < task.frame.tile_count(),
        0 <= ones.1 < 64,
        0 <= ones.2 < 64,
        0 <= zeros.1 < 64,
        0 <= zeros.2 < 64,
        masks.len() == 8,
    ensures
        mvs_code_laws::holds(
            task.data,
            s.data_pos,
            seq![true] + (seq![false] + (color_bits(ones.0, ones.1, ones.2) + (color_bits(
                zeros.0,
                zeros.1,
                zeros.2,
            ) + bitmap_bits(masks)))),
        ) ==> (mvs_full::tile_done(task, 4, index, s) matches Ok(t) && seen(
            t.rgb,
            task.frame.width as int,
            x,
            y,
            channel,
        ) == two_colored(
            task.frame,
            index,
            s.rgb,
            masks,
            color_of(ones.0, ones.1, ones.2),
            color_of(zeros.0, zeros.1, zeros.2),
            x,
            y,
            channel,
        ) && t.color_of_ones == color_of(ones.0, ones.1, ones.2) && t.color_of_zeros == color_of(
            zeros.0,
            zeros.1,
            zeros.2,
        ) && t.one_color == s.one_color && t.data_pos == s.data_pos + 42 + bitmap_bits(
            masks,
        ).len()),
        mvs_code_laws::holds(
            task.data,
            s.data_pos,
            seq![true] + (seq![true] + bitmap_bits(masks)),
        ) ==> (mvs_full::tile_done(task, 4, index, s) matches Ok(t) && seen(
            t.rgb,
            task.frame.width as int,
            x,
            y,
            channel,
        ) == two_colored(
            task.frame,
            index,
            s.rgb,
            masks,
            s.color_of_ones,
            s.color_of_zeros,
            x,
            y,
            channel,
        ) && t.color_of_ones == s.color_of_ones && t.color_of_zeros == s.color_of_zeros
            && t.one_color == s.one_color && t.data_pos == s.data_pos + 2 + bitmap_bits(
            masks,
        ).len()),
{
    let marked = mvs_full::marked(task, index, s);
    let data = task.data;
    let pos = s.data_pos;
    assert(mvs_full::tile_done(task, 4, index, s) == mvs_full::palette_tile(task, index, marked))
        by {
        reveal(mvs_full::tile_done);
    }
    lemma_marked(task, index, s, x, y, channel);
    let first = color_bits(ones.0, ones.1, ones.2);
    let second = color_bits(zeros.0, zeros.1, zeros.2);
    let bitmap = bitmap_bits(masks);
    let one = color_of(ones.0, ones.1, ones.2);
    let zero = color_of(zeros.0, zeros.1, zeros.2);
    if mvs_code_laws::holds(data, pos, seq![true] + (seq![false] + (first + (second + bitmap)))) {
        mvs_code_laws::lemma_split(
            data,
            pos,
            seq![true],
            seq![false] + (first + (second + bitmap)),
        );
        mvs_code_laws::lemma_read_bit(data, pos, true);
        mvs_code_laws::lemma_split(data, pos + 1, seq![false], first + (second + bitmap));
        mvs_code_laws::lemma_read_bit(data, pos + 1, false);
        lemma_color_length(ones.0, ones.1, ones.2);
        lemma_color_length(zeros.0, zeros.1, zeros.2);
        mvs_code_laws::lemma_split(data, pos + 2, first, second + bitmap);
        crate::mvs_picture_laws::law_palette_color_is_read(data, pos + 2, ones.0, ones.1, ones.2);
        mvs_code_laws::lemma_split(data, pos + 22, second, bitmap);
        crate::mvs_picture_laws::law_palette_color_is_read(
            data,
            pos + 22,
            zeros.0,
            zeros.1,
            zeros.2,
        );
        let kept = FullState {
            color_of_ones: one,
            color_of_zeros: zero,
            data_pos: pos + 42,
            ..marked
        };
        lemma_bitmap_tile(task, index, kept, masks, one, zero, x, y, channel);
    }
    if mvs_code_laws::holds(data, pos, seq![true] + (seq![true] + bitmap)) {
        mvs_code_laws::lemma_split(data, pos, seq![true], seq![true] + bitmap);
        mvs_code_laws::lemma_read_bit(data, pos, true);
        mvs_code_laws::lemma_split(data, pos + 1, seq![true], bitmap);
        mvs_code_laws::lemma_read_bit(data, pos + 1, true);
        let kept = FullState { data_pos: pos + 2, ..marked };
        lemma_bitmap_tile(
            task,
            index,
            kept,
            masks,
            s.color_of_ones,
            s.color_of_zeros,
            x,
            y,
            channel,
        );
    }
}

/// A cached tile of mode 6 names its entry in sixteen digits, one of mode 7 takes the entry after the
/// last one named; both show what that entry holds, keep its number, and fail as the look-up does.
pub proof fn law_cached_tiles(task: FullTask, index: int, s: FullState, entry: int)
    requires
        0 <= entry < 65536,
    ensures
        mvs_code_laws::holds(task.data, s.data_pos, mvs_code_laws::digits(entry, 16)) ==> match (
            mvs_full::tile_done(task, 6, index, s),
            crate::mvs_cache::cached(task.cache, entry as u16),
        ) {
            (Ok(t), Ok(kept)) => t.rgb == mvs_paint::rendered(
                s.rgb,
                task.frame.width as int,
                task.frame.tile_column(index) * 8,
                task.frame.tile_row(index) * 8,
                crate::mvs_cache::entry_coefficients(kept@),
                task.tables,
            ) && t.cache_index == entry && t.data_pos == s.data_pos + 16,
            (Err(e), Err(f)) => e == f,
            _ => false,
        },
        entry == (s.cache_index + 1) % 65536 ==> match (
            mvs_full::tile_done(task, 7, index, s),
            crate::mvs_cache::cached(task.cache, entry as u16),
        ) {
            (Ok(t), Ok(kept)) => t.rgb == mvs_paint::rendered(
                s.rgb,
                task.frame.width as int,
                task.frame.tile_column(index) * 8,
                task.frame.tile_row(index) * 8,
                crate::mvs_cache::entry_coefficients(kept@),
                task.tables,
            ) && t.cache_index == entry && t.data_pos == s.data_pos,
            (Err(e), Err(f)) => e == f,
            _ => false,
        },
{
    let marked = mvs_full::marked(task, index, s);
    assert(mvs_full::tile_done(task, 6, index, s) == mvs_full::cached_tile(task, 6, index, marked)
        && mvs_full::tile_done(task, 7, index, s) == mvs_full::cached_tile(task, 7, index, marked))
        by {
        reveal(mvs_full::tile_done);
    }
    if mvs_code_laws::holds(task.data, s.data_pos, mvs_code_laws::digits(entry, 16)) {
        let high = entry / 256;
        let low = entry % 256;
        lemma_two_bytes(entry);
        assert(two_to(8) == 256) by {
            reveal_with_fuel(two_to, 9);
        }
        mvs_code_laws::lemma_digits(high, 8);
        mvs_code_laws::lemma_split(
            task.data,
            s.data_pos,
            mvs_code_laws::digits(high, 8),
            mvs_code_laws::digits(low, 8),
        );
        mvs_code_laws::lemma_read(task.data, s.data_pos, high, 8);
        mvs_code_laws::lemma_read(task.data, s.data_pos + 8, low, 8);
        assert(high * 256 + low == entry);
        assert(mvs_full::cache_index_at(task, 6, marked) == (
            Ok::<u16, VncError>(entry as u16),
            s.data_pos + 16,
        ));
    }
    if entry == (s.cache_index + 1) % 65536 {
        assert(mvs_full::cache_index_at(task, 7, marked) == (
            Ok::<u16, VncError>(entry as u16),
            s.data_pos,
        ));
    }
}

proof fn lemma_two_bytes(value: int)
    requires
        0 <= value < 65536,
    ensures
        mvs_code_laws::digits(value, 16) =~= mvs_code_laws::digits(value / 256, 8)
            + mvs_code_laws::digits(value % 256, 8),
{
    lemma_digits_join(value, 8, 8);
}

proof fn lemma_digits_join(value: int, front: int, back: int)
    requires
        0 <= front,
        0 <= back <= 8,
        0 <= value,
    ensures
        mvs_code_laws::digits(value, front + back) =~= mvs_code_laws::digits(
            value / two_to(back),
            front,
        ) + mvs_code_laws::digits(value % two_to(back), back),
        two_to(8) == 256,
    decreases back,
{
    reveal_with_fuel(two_to, 9);
    if back > 0 {
        lemma_digits_join(value / 2, front, back - 1);
        let t = two_to(back - 1);
        assert(t > 0) by {
            mvs_code_laws::lemma_two_to_positive(back - 1);
        }
        assert(two_to(back) == 2 * t);
        vstd::arithmetic::div_mod::lemma_div_denominator(value, 2, t);
        vstd::arithmetic::div_mod::lemma_mod_breakdown(value, 2, t);
        assert((value % (2 * t)) / 2 == (value / 2) % t && (value % (2 * t)) % 2 == value % 2);
        let a = mvs_code_laws::digits(value / two_to(back), front);
        let b = mvs_code_laws::digits((value / 2) % t, back - 1);
        assert((a + b).push(value % 2 == 1) =~= a + b.push(value % 2 == 1));
    } else {
        assert(mvs_code_laws::digits(value, front) + Seq::<bool>::empty() =~= mvs_code_laws::digits(
            value,
            front,
        ));
    }
}

/// The tile of the surface that a tile of an aligned rectangle lies on is the one that holds its
/// pixels, counted along the rows of tiles of the surface from the top. A pixel has four bytes on
/// the surface, whose rows follow each other.
pub proof fn law_tiles_lie_on_the_surface(frame: FullFrame, x: int, y: int)
    requires
        frame.wf(),
        0 <= x < frame.width,
        0 <= y < frame.height,
    ensures
        frame.rect_x % 8 == 0 && frame.rect_y % 8 == 0 ==> frame.global_tile(tile_of(frame, x, y))
            == ((frame.rect_y + y) / 8) * ((frame.surface_width + 7) / 8) + (frame.rect_x + x) / 8,
        frame.rect_x == 0 && frame.rect_y == 0 ==> frame.framebuffer_offset(0, 0) == 0,
        frame.framebuffer_offset(x + 1, y) == frame.framebuffer_offset(x, y) + 4,
        frame.framebuffer_offset(x, y + 1) == frame.framebuffer_offset(x, y) + 4
            * frame.surface_width,
        frame.rect_x >= 1 ==> frame.framebuffer_offset(x, y) == (FullFrame {
            rect_x: (frame.rect_x - 1) as usize,
            ..frame
        }).framebuffer_offset(x + 1, y),
        frame.rect_y >= 1 ==> frame.framebuffer_offset(x, y) == (FullFrame {
            rect_y: (frame.rect_y - 1) as usize,
            ..frame
        }).framebuffer_offset(x, y + 1),
{
    mvs_full::lemma_tiles_over(frame);
    let across = frame.tiles_x();
    assert(0 <= x / 8 < across);
    vstd::arithmetic::div_mod::lemma_fundamental_div_mod_converse(
        tile_of(frame, x, y),
        across,
        y / 8,
        x / 8,
    );
    if frame.rect_x % 8 == 0 && frame.rect_y % 8 == 0 {
        assert((frame.rect_x + x) / 8 == frame.rect_x as int / 8 + x / 8);
        assert((frame.rect_y + y) / 8 == frame.rect_y as int / 8 + y / 8);
    }
    let sw = frame.surface_width as int;
    let row = frame.rect_y + y;
    assert((row + 1) * sw == row * sw + sw) by (nonlinear_arith);
    assert(frame.rect_y + (y + 1) == row + 1);
    if frame.rect_x == 0 && frame.rect_y == 0 {
        assert(0 * sw == 0);
    }
}

proof fn lemma_neighbour_tiles(frame: FullFrame, index: int)
    requires
        frame.wf(),
        0 <= index < frame.tile_count(),
    ensures
        frame.tile_column(index) > 0 ==> frame.global_tile(index - 1) == frame.global_tile(index)
            - 1,
        frame.tile_row(index) > 0 ==> frame.global_tile(index - frame.tiles_x())
            == frame.global_tile(index) - frame.surface_tiles_x(),
{
    mvs_full::lemma_tiles_over(frame);
    mvs_full::lemma_tile_place(frame, index);
    let across = frame.tiles_x();
    let column = frame.tile_column(index);
    let row = frame.tile_row(index);
    vstd::arithmetic::div_mod::lemma_fundamental_div_mod(index, across);
    if column > 0 {
        assert(index - 1 == row * across + (column - 1)) by (nonlinear_arith)
            requires
                index == across * row + column,
        ;
        vstd::arithmetic::div_mod::lemma_fundamental_div_mod_converse(
            index - 1,
            across,
            row,
            column - 1,
        );
    }
    if row > 0 {
        assert(index - across == (row - 1) * across + column) by (nonlinear_arith)
            requires
                index == across * row + column,
        ;
        vstd::arithmetic::div_mod::lemma_fundamental_div_mod_converse(
            index - across,
            across,
            row - 1,
            column,
        );
        let stx = frame.surface_tiles_x();
        let top = frame.rect_y as int / 8;
        assert((top + (row - 1)) * stx == (top + row) * stx - stx) by (nonlinear_arith);
    }
}

proof fn lemma_tile_states(task: FullTask, mode: int, index: int, s: FullState, other: int)
    requires
        0 <= task.frame.global_tile(index) < s.tiles.len(),
        0 <= other < s.tiles.len(),
        0 <= mode < 8,
    ensures
        mvs_full::tile_done(task, mode, index, s) matches Ok(t) ==> {
            let g = task.frame.global_tile(index);
            &&& t.tiles.len() == s.tiles.len()
            &&& t.tiles[g].generation == task.frame.generation
            &&& other != g ==> t.tiles[other] == s.tiles[other]
            &&& mode != 5 ==> t.tiles[g].coefficients == s.tiles[g].coefficients
            &&& mode != 1 && mode != 2 ==> t.tiles[g].reference is None
        },
{
    reveal(mvs_full::tile_done);
}

proof fn lemma_references(task: FullTask, index: int, s: FullState)
    requires
        0 <= task.frame.global_tile(index) < s.tiles.len(),
    ensures
        ({
            let g = task.frame.global_tile(index);
            let x = task.frame.tile_column(index) * 8;
            let y = task.frame.tile_row(index) * 8;
            &&& mvs_full::tile_done(task, 1, index, s) matches Ok(t) ==> task.frame.tile_column(index)
                != 0 && t.tiles[g].reference == Some(
                SavedTileReference {
                    tile_index: (g - 1) as usize,
                    framebuffer_offset: task.frame.framebuffer_offset(x - 8, y) as usize,
                },
            )
            &&& mvs_full::tile_done(task, 2, index, s) matches Ok(t) ==> task.frame.tile_row(index)
                != 0 && t.tiles[g].reference == Some(
                SavedTileReference {
                    tile_index: (g - task.frame.surface_tiles_x()) as usize,
                    framebuffer_offset: task.frame.framebuffer_offset(x, y - 8) as usize,
                },
            )
        }),
{
    reveal(mvs_full::tile_done);
}

/// A tile that is painted bears the number of the record and no reference; a repeated one bears the
/// number too and refers to the tile that it repeats, by its place among the tiles of the surface
/// and the place of its first pixel. The other tiles keep what they had.
pub proof fn law_painted_tiles_are_marked(task: FullTask, mode: int, index: int, s: FullState, other: int)
    requires
        task.frame.wf(),
        0 <= index < task.frame.tile_count(),
        s.tiles.len() == ((task.frame.surface_width + 7) / 8) * ((task.frame.surface_height + 7)
            / 8),
        0 <= mode < 8,
        0 <= other < s.tiles.len(),
    ensures
        mvs_full::tile_done(task, mode, index, s) matches Ok(t) ==> {
            let g = task.frame.global_tile(index);
            let x = task.frame.tile_column(index) * 8;
            let y = task.frame.tile_row(index) * 8;
            &&& t.tiles.len() == s.tiles.len()
            &&& t.tiles[g].generation == task.frame.generation
            &&& other != g ==> t.tiles[other] == s.tiles[other]
            &&& mode != 5 ==> t.tiles[g].coefficients == s.tiles[g].coefficients
            &&& t.tiles[g].reference == (if mode == 1 {
                Some(
                    SavedTileReference {
                        tile_index: task.frame.global_tile(index - 1) as usize,
                        framebuffer_offset: task.frame.framebuffer_offset(x - 8, y) as usize,
                    },
                )
            } else if mode == 2 {
                Some(
                    SavedTileReference {
                        tile_index: task.frame.global_tile(index - task.frame.tiles_x()) as usize,
                        framebuffer_offset: task.frame.framebuffer_offset(x, y - 8) as usize,
                    },
                )
            } else {
                None
            })
        },
{
    mvs_full::lemma_tile_place(task.frame, index);
    lemma_neighbour_tiles(task.frame, index);
    lemma_tile_states(task, mode, index, s, other);
    lemma_references(task, index, s);
}

proof fn lemma_white_run(
    task: FullTask,
    index: int,
    count: int,
    s: FullState,
    x: int,
    y: int,
    channel: int,
)
    requires
        pixel_of(task.frame, s, x, y, channel),
        0 <= index,
        0 <= count,
        index + count <= task.frame.tile_count(),
    ensures
        mvs_full::run_done(task, 0, index, count, s) matches Ok(t) && seen(
            t.rgb,
            task.frame.width as int,
            x,
            y,
            channel,
        ) == (if index <= tile_of(task.frame, x, y) < index + count {
            255
        } else {
            seen(s.rgb, task.frame.width as int, x, y, channel)
        }) && t.data_pos == s.data_pos,
    decreases count,
{
    if count > 0 {
        law_white_tile(task, index, s, x, y, channel);
        let next = mvs_full::tile_done(task, 0, index, s)->Ok_0;
        lemma_white_run(task, index + 1, count - 1, next, x, y, channel);
    }
}

/// A run is written as three digits of its mode and the code of the tiles that follow its first; its
/// tiles are done one after another, in the order of their numbers, and the rest follows.
pub proof fn law_runs_are_done_in_order(
    task: FullTask,
    pos: int,
    mode: int,
    index: int,
    count: int,
    s: FullState,
)
    requires
        0 <= mode < 8,
        1 <= count <= task.frame.tile_count() - index,
        task.frame.wf(),
        count <= 16 + 0x40_0000,
        0 <= index,
        mvs_code_laws::holds(
            task.modes,
            pos,
            mvs_code_laws::digits(mode, 3) + mvs_code_laws::repeat_bits(count - 1),
        ),
    ensures
        mvs_full::tiles_done(task, pos, index, s) == match mvs_full::run_done(
            task,
            mode,
            index,
            count,
            s,
        ) {
            Ok(t) => mvs_full::tiles_done(
                task,
                pos + 3 + mvs_code_laws::repeat_bits(count - 1).len(),
                index + count,
                t,
            ),
            Err(e) => Err(e),
        },
        mvs_full::run_done(task, mode, index, count, s) == match mvs_full::tile_done(
            task,
            mode,
            index,
            s,
        ) {
            Ok(t) => mvs_full::run_done(task, mode, index + 1, count - 1, t),
            Err(e) => Err(e),
        },
        mvs_full::run_done(task, mode, index, 0, s) == Ok::<FullState, VncError>(s),
{
    reveal_with_fuel(two_to, 5);
    mvs_full::lemma_tiles_over(task.frame);
    mvs_code_laws::lemma_digits(mode, 3);
    mvs_code_laws::lemma_split(
        task.modes,
        pos,
        mvs_code_laws::digits(mode, 3),
        mvs_code_laws::repeat_bits(count - 1),
    );
    mvs_code_laws::lemma_read(task.modes, pos, mode, 3);
    mvs_code_laws::law_repeat_is_read_back(task.modes, pos + 3, count - 1);
    reveal_with_fuel(mvs_full::tiles_done, 2);
    reveal_with_fuel(mvs_full::run_done, 2);
}

/// A record of one run of white tiles decodes to a white picture: one bit, the run and the end byte
/// 0x6d in the one stream and that byte alone in the other are all that it takes, and without the
/// byte in either stream it is refused.
pub proof fn law_white_record(
    task: FullTask,
    s: FullState,
    first: bool,
    end: int,
    other_end: int,
    x: int,
    y: int,
    channel: int,
)
    requires
        pixel_of(task.frame, s, x, y, channel),
        task.frame.tile_count() <= 16 + 0x40_0000,
        0 <= end < 256,
        0 <= other_end < 256,
        mvs_code_laws::holds(
            task.modes,
            0,
            seq![first] + ((mvs_code_laws::digits(0, 3) + mvs_code_laws::repeat_bits(
                task.frame.tile_count() - 1,
            )) + mvs_code_laws::digits(end, 8)),
        ),
        mvs_code_laws::holds(task.data, s.data_pos, mvs_code_laws::digits(other_end, 8)),
    ensures
        mvs_full::record_done(task, s) is Ok <==> end == 0x6d && other_end == 0x6d,
        mvs_full::record_done(task, s) matches Ok(t) ==> seen(
            t.rgb,
            task.frame.width as int,
            x,
            y,
            channel,
        ) == 255,
{
    let all = task.frame.tile_count();
    let run = mvs_code_laws::digits(0, 3) + mvs_code_laws::repeat_bits(all - 1);
    let tail = mvs_code_laws::digits(end, 8);
    mvs_full::lemma_tiles_over(task.frame);
    lemma_tile_of(task.frame, 0, x, y);
    reveal_with_fuel(two_to, 9);
    mvs_code_laws::lemma_split(task.modes, 0, seq![first], run + tail);
    mvs_code_laws::lemma_read_bit(task.modes, 0, first);
    mvs_code_laws::lemma_split(task.modes, 1, run, tail);
    mvs_code_laws::lemma_digits(0, 3);
    law_runs_are_done_in_order(task, 1, 0, 0, all, s);
    lemma_white_run(task, 0, all, s, x, y, channel);
    mvs_code_laws::lemma_read(task.modes, 1int + run.len(), end, 8);
    mvs_code_laws::lemma_read(task.data, s.data_pos, other_end, 8);
}

} // verus!
