//! Tiles painted into an RGB buffer.

use vstd::prelude::*;
use crate::error::{context, VncError};
use crate::mvs_bitstream::BitReader;
use crate::mvs_pixels::{inverse_dct_8x8, ycbcr_20_to_rgb, ycbcr_8_to_rgb};
use crate::mvs_tiles::ModeFiveCoefficients;
use crate::mvs_wire::MvsTables;

verus! {

/// The edge of a tile in pixels.
pub const TILE_EDGE: usize = 8;

/// The column of the pixel that byte `k` belongs to.
pub open spec fn column_of_byte(k: int, width: int) -> int {
    (k / 3) % width
}

/// The row of the pixel that byte `k` belongs to.
pub open spec fn row_of_byte(k: int, width: int) -> int {
    (k / 3) / width
}

/// Whether byte `k` belongs to a pixel of the tile at `(tile_x, tile_y)`.
pub open spec fn in_tile(k: int, width: int, tile_x: int, tile_y: int) -> bool {
    &&& tile_x <= column_of_byte(k, width) < tile_x + 8
    &&& tile_y <= row_of_byte(k, width) < tile_y + 8
}

/// The buffer with the tile at `(tile_x, tile_y)` painted: its pixel at column `dx` and row `dy` has
/// the color `color(dx, dy)`.
pub open spec fn painted(
    rgb: Seq<u8>,
    width: int,
    tile_x: int,
    tile_y: int,
    color: spec_fn(int, int) -> Seq<u8>,
) -> Seq<u8> {
    Seq::new(
        rgb.len(),
        |k: int|
            if in_tile(k, width, tile_x, tile_y) {
                color(column_of_byte(k, width) - tile_x, row_of_byte(k, width) - tile_y)[k % 3]
            } else {
                rgb[k]
            },
    )
}

/// The tile in one color.
pub open spec fn filled(rgb: Seq<u8>, width: int, tile_x: int, tile_y: int, color: Seq<u8>) -> Seq<
    u8,
> {
    painted(rgb, width, tile_x, tile_y, |dx: int, dy: int| color)
}

/// The color of the pixel at `(x, y)`.
pub open spec fn color_at(rgb: Seq<u8>, width: int, x: int, y: int) -> Seq<u8> {
    let offset = (y * width + x) * 3;
    seq![rgb[offset], rgb[offset + 1], rgb[offset + 2]]
}

/// The tile as a copy of the one at `(source_x, source_y)`.
pub open spec fn copied(
    rgb: Seq<u8>,
    width: int,
    source_x: int,
    source_y: int,
    tile_x: int,
    tile_y: int,
) -> Seq<u8> {
    painted(
        rgb,
        width,
        tile_x,
        tile_y,
        |dx: int, dy: int| color_at(rgb, width, source_x + dx, source_y + dy),
    )
}

/// The tile that these coefficients render to.
pub open spec fn rendered(
    rgb: Seq<u8>,
    width: int,
    tile_x: int,
    tile_y: int,
    coefficients: ModeFiveCoefficients,
    tables: MvsTables,
) -> Seq<u8> {
    painted(
        rgb,
        width,
        tile_x,
        tile_y,
        |dx: int, dy: int| crate::mvs_partial::tile_colors(coefficients, tables, dy * 8 + dx),
    )
}

/// Whether bit `i` of `mask`, counted from the most significant, is one.
pub open spec fn mask_bit(mask: u8, i: int) -> bool {
    (mask >> ((7 - i) as u8)) & 1 == 1
}

/// The pixel masks of the rows from `row` on. A row whose bit of the row mask is one has all ones
/// and is not in the stream.
pub open spec fn bitmap_rows_at(bytes: Seq<u8>, pos: int, row_mask: u8, row: int, done: Seq<u8>) -> (
    Result<Seq<u8>, VncError>,
    int,
)
    decreases 8 - row,
{
    if row >= 8 {
        (Ok(done), pos)
    } else if mask_bit(row_mask, row) {
        bitmap_rows_at(bytes, pos, row_mask, row + 1, done.push(0xff))
    } else {
        match crate::mvs_bitstream::read_at(bytes, pos, 8) {
            (Err(e), p) => (Err(crate::error::within("MVS type-0 bitmap 缺少像素掩码", e)), p),
            (Ok(mask), p) => bitmap_rows_at(bytes, p, row_mask, row + 1, done.push(mask as u8)),
        }
    }
}

/// The eight pixel masks of a bitmap tile.
pub open spec fn bitmap_at(bytes: Seq<u8>, pos: int) -> (Result<Seq<u8>, VncError>, int) {
    match crate::mvs_bitstream::read_at(bytes, pos, 8) {
        (Err(e), p) => (Err(crate::error::within("MVS type-0 bitmap 缺少行掩码", e)), p),
        (Ok(row_mask), p) => bitmap_rows_at(bytes, p, row_mask as u8, 0, Seq::empty()),
    }
}

/// The tile in two colors, chosen by the pixel masks.
pub open spec fn bitmapped(
    rgb: Seq<u8>,
    width: int,
    tile_x: int,
    tile_y: int,
    masks: Seq<u8>,
    one: Seq<u8>,
    zero: Seq<u8>,
) -> Seq<u8> {
    painted(
        rgb,
        width,
        tile_x,
        tile_y,
        |dx: int, dy: int|
            if mask_bit(masks[dy], dx) {
                one
            } else {
                zero
            },
    )
}

/// A color read at `pos`: eight bits of luma and twice six of chroma.
pub open spec fn mode_four_color_at(bytes: Seq<u8>, pos: int) -> (Result<Seq<u8>, VncError>, int) {
    match crate::mvs_bitstream::read_at(bytes, pos, 8) {
        (Err(e), p) => (Err(crate::error::within("MVS type-0 mode 4 缺少 Y 字段", e)), p),
        (Ok(y), p) => match crate::mvs_bitstream::read_at(bytes, p, 6) {
            (Err(e), p) => (Err(crate::error::within("MVS type-0 mode 4 缺少 Cb 字段", e)), p),
            (Ok(cb), p) => match crate::mvs_bitstream::read_at(bytes, p, 6) {
                (Err(e), p) => (Err(crate::error::within("MVS type-0 mode 4 缺少 Cr 字段", e)), p),
                (Ok(cr), p) => (
                    Ok(crate::mvs_pixels::rgb_of(y as u8, (cb * 4) as u8, (cr * 4) as u8)),
                    p,
                ),
            },
        },
    }
}

/// The buffer after the pixels of the tile before column `dx` of row `dy` were painted.
pub open spec fn partly_painted(
    rgb: Seq<u8>,
    width: int,
    tile_x: int,
    tile_y: int,
    color: spec_fn(int, int) -> Seq<u8>,
    dx: int,
    dy: int,
) -> Seq<u8> {
    Seq::new(
        rgb.len(),
        |k: int|
            if in_tile(k, width, tile_x, tile_y) && (row_of_byte(k, width) - tile_y < dy || (
            row_of_byte(k, width) - tile_y == dy && column_of_byte(k, width) - tile_x < dx)) {
                color(column_of_byte(k, width) - tile_x, row_of_byte(k, width) - tile_y)[k % 3]
            } else {
                rgb[k]
            },
    )
}

proof fn lemma_pixel_bytes(width: int, x: int, y: int, k: int)
    requires
        0 <= x < width,
        0 <= y,
        0 <= k,
    ensures
        k / 3 == y * width + x <==> (column_of_byte(k, width) == x && row_of_byte(k, width) == y),
{
    let q = k / 3;
    if q == y * width + x {
        vstd::arithmetic::div_mod::lemma_fundamental_div_mod_converse(q, width, y, x);
    }
    if q % width == x && q / width == y {
        vstd::arithmetic::div_mod::lemma_fundamental_div_mod(q, width);
        vstd::arithmetic::mul::lemma_mul_is_commutative(width, y);
    }
}

/// The buffer holds every pixel of a `width` by `height` rectangle.
pub open spec fn buffer_fits(rgb: Seq<u8>, width: int, height: int) -> bool {
    &&& rgb.len() == width * height * 3
    &&& 0 < width
    &&& 0 < height
}

proof fn lemma_pixel_in_buffer(width: int, height: int, x: int, y: int)
    requires
        0 <= x < width,
        0 <= y < height,
    ensures
        0 <= y * width + x < width * height,
        0 <= (y * width + x) * 3,
        (y * width + x) * 3 + 3 <= width * height * 3,
        0 <= y * width <= width * height,
{
    assert(y * width + x < width * height && 0 <= y * width) by (nonlinear_arith)
        requires
            0 <= x < width,
            0 <= y < height,
    ;
}

/// Paints one pixel.
fn write_pixel(rgb: &mut Vec<u8>, width: usize, height: usize, x: usize, y: usize, color: &[u8; 3])
    requires
        buffer_fits(old(rgb)@, width as int, height as int),
        x < width,
        y < height,
    ensures
        final(rgb)@ =~= Seq::new(
            old(rgb)@.len(),
            |k: int|
                if column_of_byte(k, width as int) == x && row_of_byte(k, width as int) == y {
                    color@[k % 3]
                } else {
                    old(rgb)@[k]
                },
        ),
{
    proof {
        lemma_pixel_in_buffer(width as int, height as int, x as int, y as int);
    }
    let length: usize = rgb.len();
    assert(y * width + x <= length);
    let offset: usize = (y * width + x) * 3;
    rgb.set(offset, color[0]);
    rgb.set(offset + 1, color[1]);
    rgb.set(offset + 2, color[2]);
    assert forall|k: int| 0 <= k < rgb@.len() implies #[trigger] rgb@[k] == (if column_of_byte(
        k,
        width as int,
    ) == x && row_of_byte(k, width as int) == y {
        color@[k % 3]
    } else {
        old(rgb)@[k]
    }) by {
        lemma_pixel_bytes(width as int, x as int, y as int, k);
    }
}

proof fn lemma_paint_step(
    rgb: Seq<u8>,
    width: int,
    height: int,
    tile_x: int,
    tile_y: int,
    color: spec_fn(int, int) -> Seq<u8>,
    dx: int,
    dy: int,
    before: Seq<u8>,
    after: Seq<u8>,
    painted_color: Seq<u8>,
)
    requires
        buffer_fits(rgb, width, height),
        0 <= tile_x,
        0 <= tile_y,
        0 <= dx < 8,
        0 <= dy < 8,
        before == partly_painted(rgb, width, tile_x, tile_y, color, dx, dy),
        tile_x + dx < width && tile_y + dy < height ==> after =~= Seq::new(
            before.len(),
            |k: int|
                if column_of_byte(k, width) == tile_x + dx && row_of_byte(k, width) == tile_y
                    + dy {
                    painted_color[k % 3]
                } else {
                    before[k]
                },
        ),
        tile_x + dx < width && tile_y + dy < height ==> painted_color == color(dx, dy),
        !(tile_x + dx < width && tile_y + dy < height) ==> after == before,
    ensures
        after == partly_painted(rgb, width, tile_x, tile_y, color, dx + 1, dy),
{
    let next = partly_painted(rgb, width, tile_x, tile_y, color, dx + 1, dy);
    assert forall|k: int| 0 <= k < rgb.len() implies after[k] == next[k] by {
        lemma_byte_in_rectangle(width, height, k);
    }
    assert(after =~= next);
}

proof fn lemma_byte_in_rectangle(width: int, height: int, k: int)
    requires
        0 < width,
        0 <= k < width * height * 3,
    ensures
        0 <= column_of_byte(k, width) < width,
        0 <= row_of_byte(k, width) < height,
{
    let q = k / 3;
    assert(0 <= q < width * height);
    vstd::arithmetic::div_mod::lemma_mod_bound(q, width);
    vstd::arithmetic::div_mod::lemma_div_pos_is_pos(q, width);
    vstd::arithmetic::mul::lemma_mul_is_commutative(width, height);
    vstd::arithmetic::div_mod::lemma_multiply_divide_lt(q, width, height);
}

proof fn lemma_row_done(
    rgb: Seq<u8>,
    width: int,
    height: int,
    tile_x: int,
    tile_y: int,
    color: spec_fn(int, int) -> Seq<u8>,
    dy: int,
)
    requires
        buffer_fits(rgb, width, height),
    ensures
        partly_painted(rgb, width, tile_x, tile_y, color, 8, dy) =~= partly_painted(
            rgb,
            width,
            tile_x,
            tile_y,
            color,
            0,
            dy + 1,
        ),
        partly_painted(rgb, width, tile_x, tile_y, color, 0, 0) =~= rgb,
        partly_painted(rgb, width, tile_x, tile_y, color, 0, 8) =~= painted(
            rgb,
            width,
            tile_x,
            tile_y,
            color,
        ),
{
}

/// Paints the tile in one color.
pub fn fill_tile(
    rgb: &mut Vec<u8>,
    width: usize,
    height: usize,
    tile_x: usize,
    tile_y: usize,
    color: [u8; 3],
)
    requires
        buffer_fits(old(rgb)@, width as int, height as int),
        tile_x < width,
        tile_y < height,
    ensures
        final(rgb)@ == filled(old(rgb)@, width as int, tile_x as int, tile_y as int, color@),
{
    let ghost colors = |dx: int, dy: int| color@;
    paint_choice(rgb, width, height, tile_x, tile_y, &[0xff; 8], &color, &color);
    proof {
        assert(rgb@ =~= filled(old(rgb)@, width as int, tile_x as int, tile_y as int, color@));
    }
}

/// Paints the tile in two colors, chosen by the pixel masks.
fn paint_choice(
    rgb: &mut Vec<u8>,
    width: usize,
    height: usize,
    tile_x: usize,
    tile_y: usize,
    masks: &[u8; 8],
    one: &[u8; 3],
    zero: &[u8; 3],
)
    requires
        buffer_fits(old(rgb)@, width as int, height as int),
        tile_x < width,
        tile_y < height,
    ensures
        final(rgb)@ == bitmapped(
            old(rgb)@,
            width as int,
            tile_x as int,
            tile_y as int,
            masks@,
            one@,
            zero@,
        ),
{
    let ghost start = rgb@;
    let ghost w = width as int;
    let ghost h = height as int;
    let ghost tx = tile_x as int;
    let ghost ty = tile_y as int;
    let ghost colors = |dx: int, dy: int|
        if mask_bit(masks@[dy], dx) {
            one@
        } else {
            zero@
        };
    proof {
        lemma_row_done(start, w, h, tx, ty, colors, 0);
    }
    let mut dy: usize = 0;
    while dy < 8
        invariant
            dy <= 8,
            w == width,
            h == height,
            tx == tile_x,
            ty == tile_y,
            tile_x < width,
            tile_y < height,
            buffer_fits(start, w, h),
            start == old(rgb)@,
            colors == (|dx: int, dy: int|
                if mask_bit(masks@[dy], dx) {
                    one@
                } else {
                    zero@
                }),
            rgb@ == partly_painted(start, w, tx, ty, colors, 0, dy as int),
        decreases 8 - dy,
    {
        let mask: u8 = masks[dy];
        let mut dx: usize = 0;
        while dx < 8
            invariant
                dy < 8,
                dx <= 8,
                w == width,
                h == height,
                tx == tile_x,
                ty == tile_y,
                tile_x < width,
                tile_y < height,
                buffer_fits(start, w, h),
                mask == masks@[dy as int],
                colors == (|dx: int, dy: int|
                    if mask_bit(masks@[dy], dx) {
                        one@
                    } else {
                        zero@
                    }),
                rgb@ == partly_painted(start, w, tx, ty, colors, dx as int, dy as int),
            decreases 8 - dx,
        {
            let ghost before = rgb@;
            let shift: u8 = (7 - dx) as u8;
            let chosen: bool = (mask >> shift) & 1 == 1;
            if dx < width - tile_x && dy < height - tile_y {
                if chosen {
                    write_pixel(rgb, width, height, tile_x + dx, tile_y + dy, one);
                } else {
                    write_pixel(rgb, width, height, tile_x + dx, tile_y + dy, zero);
                }
            }
            proof {
                lemma_paint_step(
                    start,
                    w,
                    h,
                    tx,
                    ty,
                    colors,
                    dx as int,
                    dy as int,
                    before,
                    rgb@,
                    colors(dx as int, dy as int),
                );
            }
            dx = dx + 1;
        }
        proof {
            lemma_row_done(start, w, h, tx, ty, colors, dy as int);
        }
        dy = dy + 1;
    }
    proof {
        lemma_row_done(start, w, h, tx, ty, colors, 0);
        assert(rgb@ =~= bitmapped(start, w, tx, ty, masks@, one@, zero@));
    }
}

/// Copies the tile from another one that it does not overlap.
pub fn copy_tile(
    rgb: &mut Vec<u8>,
    width: usize,
    height: usize,
    source_x: usize,
    source_y: usize,
    tile_x: usize,
    tile_y: usize,
)
    requires
        buffer_fits(old(rgb)@, width as int, height as int),
        tile_x < width,
        tile_y < height,
        (source_x + 8 == tile_x && source_y == tile_y) || (source_x == tile_x && source_y + 8
            == tile_y),
    ensures
        final(rgb)@ == copied(
            old(rgb)@,
            width as int,
            source_x as int,
            source_y as int,
            tile_x as int,
            tile_y as int,
        ),
{
    let ghost start = rgb@;
    let ghost w = width as int;
    let ghost h = height as int;
    let ghost tx = tile_x as int;
    let ghost ty = tile_y as int;
    let ghost colors = |dx: int, dy: int| color_at(start, w, source_x + dx, source_y + dy);
    proof {
        lemma_row_done(start, w, h, tx, ty, colors, 0);
    }
    let mut dy: usize = 0;
    while dy < 8
        invariant
            dy <= 8,
            w == width,
            h == height,
            tx == tile_x,
            ty == tile_y,
            tile_x < width,
            tile_y < height,
            (source_x + 8 == tile_x && source_y == tile_y) || (source_x == tile_x && source_y + 8
                == tile_y),
            buffer_fits(start, w, h),
            start == old(rgb)@,
            colors == (|dx: int, dy: int| color_at(start, w, source_x + dx, source_y + dy)),
            rgb@ == partly_painted(start, w, tx, ty, colors, 0, dy as int),
        decreases 8 - dy,
    {
        let mut dx: usize = 0;
        while dx < 8
            invariant
                dy < 8,
                dx <= 8,
                w == width,
                h == height,
                tx == tile_x,
                ty == tile_y,
                tile_x < width,
                tile_y < height,
                (source_x + 8 == tile_x && source_y == tile_y) || (source_x == tile_x && source_y
                    + 8 == tile_y),
                buffer_fits(start, w, h),
                colors == (|dx: int, dy: int| color_at(start, w, source_x + dx, source_y + dy)),
                rgb@ == partly_painted(start, w, tx, ty, colors, dx as int, dy as int),
            decreases 8 - dx,
        {
            let ghost before = rgb@;
            if dx < width - tile_x && dy < height - tile_y {
                let color: [u8; 3] = pixel_color(
                    rgb,
                    width,
                    height,
                    source_x + dx,
                    source_y + dy,
                );
                proof {
                    let x = source_x + dx;
                    let y = source_y + dy;
                    lemma_pixel_in_buffer(w, h, x, y);
                    let o = (y * w + x) * 3;
                    lemma_pixel_bytes(w, x, y, o);
                    lemma_pixel_bytes(w, x, y, o + 1);
                    lemma_pixel_bytes(w, x, y, o + 2);
                    assert(o / 3 == y * w + x && (o + 1) / 3 == y * w + x && (o + 2) / 3 == y * w
                        + x);
                    assert(color_at(before, w, x, y) =~= color_at(start, w, x, y));
                }
                write_pixel(rgb, width, height, tile_x + dx, tile_y + dy, &color);
            }
            proof {
                lemma_paint_step(
                    start,
                    w,
                    h,
                    tx,
                    ty,
                    colors,
                    dx as int,
                    dy as int,
                    before,
                    rgb@,
                    colors(dx as int, dy as int),
                );
            }
            dx = dx + 1;
        }
        proof {
            lemma_row_done(start, w, h, tx, ty, colors, dy as int);
        }
        dy = dy + 1;
    }
    proof {
        lemma_row_done(start, w, h, tx, ty, colors, 0);
        assert(rgb@ =~= copied(start, w, source_x as int, source_y as int, tx, ty));
    }
}

/// The color of the pixel at `(x, y)`.
fn pixel_color(rgb: &Vec<u8>, width: usize, height: usize, x: usize, y: usize) -> (r: [u8; 3])
    requires
        buffer_fits(rgb@, width as int, height as int),
        x < width,
        y < height,
    ensures
        r@ == color_at(rgb@, width as int, x as int, y as int),
{
    proof {
        lemma_pixel_in_buffer(width as int, height as int, x as int, y as int);
    }
    let length: usize = rgb.len();
    assert(y * width + x <= length);
    let offset: usize = (y * width + x) * 3;
    let color: [u8; 3] = [rgb[offset], rgb[offset + 1], rgb[offset + 2]];
    assert(color@ =~= color_at(rgb@, width as int, x as int, y as int));
    color
}

/// Paints the tile that these coefficients render to.
pub fn render_mode_five_tile(
    rgb: &mut Vec<u8>,
    width: usize,
    height: usize,
    tile_x: usize,
    tile_y: usize,
    coefficients: &ModeFiveCoefficients,
    tables: &MvsTables,
)
    requires
        buffer_fits(old(rgb)@, width as int, height as int),
        tile_x < width,
        tile_y < height,
    ensures
        final(rgb)@ == rendered(
            old(rgb)@,
            width as int,
            tile_x as int,
            tile_y as int,
            *coefficients,
            *tables,
        ),
{
    let luma: [u8; 64] = inverse_dct_8x8(&coefficients.y, &tables.luminance);
    let cb: [u8; 64] = inverse_dct_8x8(&coefficients.cb, &tables.chrominance);
    let cr: [u8; 64] = inverse_dct_8x8(&coefficients.cr, &tables.chrominance);
    let ghost start = rgb@;
    let ghost w = width as int;
    let ghost h = height as int;
    let ghost tx = tile_x as int;
    let ghost ty = tile_y as int;
    let ghost colors = |dx: int, dy: int|
        crate::mvs_partial::tile_colors(*coefficients, *tables, dy * 8 + dx);
    proof {
        lemma_row_done(start, w, h, tx, ty, colors, 0);
    }
    let mut dy: usize = 0;
    while dy < 8
        invariant
            dy <= 8,
            w == width,
            h == height,
            tx == tile_x,
            ty == tile_y,
            tile_x < width,
            tile_y < height,
            buffer_fits(start, w, h),
            start == old(rgb)@,
            luma@ == crate::mvs_pixels::block_samples(coefficients.y@, tables.luminance@),
            cb@ == crate::mvs_pixels::block_samples(coefficients.cb@, tables.chrominance@),
            cr@ == crate::mvs_pixels::block_samples(coefficients.cr@, tables.chrominance@),
            colors == (|dx: int, dy: int|
                crate::mvs_partial::tile_colors(*coefficients, *tables, dy * 8 + dx)),
            rgb@ == partly_painted(start, w, tx, ty, colors, 0, dy as int),
        decreases 8 - dy,
    {
        let mut dx: usize = 0;
        while dx < 8
            invariant
                dy < 8,
                dx <= 8,
                w == width,
                h == height,
                tx == tile_x,
                ty == tile_y,
                tile_x < width,
                tile_y < height,
                buffer_fits(start, w, h),
                luma@ == crate::mvs_pixels::block_samples(coefficients.y@, tables.luminance@),
                cb@ == crate::mvs_pixels::block_samples(coefficients.cb@, tables.chrominance@),
                cr@ == crate::mvs_pixels::block_samples(coefficients.cr@, tables.chrominance@),
                colors == (|dx: int, dy: int|
                    crate::mvs_partial::tile_colors(*coefficients, *tables, dy * 8 + dx)),
                rgb@ == partly_painted(start, w, tx, ty, colors, dx as int, dy as int),
            decreases 8 - dx,
        {
            let ghost before = rgb@;
            let logical: usize = dy * 8 + dx;
            let color: [u8; 3] = ycbcr_8_to_rgb(luma[logical], cb[logical], cr[logical]);
            if dx < width - tile_x && dy < height - tile_y {
                write_pixel(rgb, width, height, tile_x + dx, tile_y + dy, &color);
            }
            proof {
                lemma_paint_step(
                    start,
                    w,
                    h,
                    tx,
                    ty,
                    colors,
                    dx as int,
                    dy as int,
                    before,
                    rgb@,
                    color@,
                );
            }
            dx = dx + 1;
        }
        proof {
            lemma_row_done(start, w, h, tx, ty, colors, dy as int);
        }
        dy = dy + 1;
    }
    proof {
        lemma_row_done(start, w, h, tx, ty, colors, 0);
        assert(rgb@ =~= rendered(start, w, tx, ty, *coefficients, *tables));
    }
}

/// Reads the pixel masks of a bitmap tile.
fn decode_bitmap_masks(data_bits: &mut BitReader<'_>) -> (r: Result<[u8; 8], VncError>)
    requires
        old(data_bits).wf(),
    ensures
        match bitmap_at(old(data_bits).bytes@, old(data_bits).position as int).0 {
            Ok(masks) => r matches Ok(a) && a@ == masks,
            Err(e) => r == Err::<[u8; 8], VncError>(e),
        },
        final(data_bits).moved(
            *old(data_bits),
            bitmap_at(old(data_bits).bytes@, old(data_bits).position as int).1,
        ),
{
    let ghost goal = bitmap_at(data_bits.bytes@, data_bits.position as int);
    let row_mask: u8 = context(data_bits.read_u8(), "MVS type-0 bitmap 缺少行掩码")?;
    let mut masks: [u8; 8] = [0; 8];
    let mut row: usize = 0;
    assert(masks@.take(0) =~= Seq::<u8>::empty());
    while row < 8
        invariant
            row <= 8,
            data_bits.wf(),
            data_bits.bytes == old(data_bits).bytes,
            goal == bitmap_at(old(data_bits).bytes@, old(data_bits).position as int),
            goal == bitmap_rows_at(
                data_bits.bytes@,
                data_bits.position as int,
                row_mask,
                row as int,
                masks@.take(row as int),
            ),
        decreases 8 - row,
    {
        let ghost done = masks@.take(row as int);
        let shift: u8 = (7 - row) as u8;
        let mask: u8 = if (row_mask >> shift) & 1 == 1 {
            0xff
        } else {
            context(data_bits.read_u8(), "MVS type-0 bitmap 缺少像素掩码")?
        };
        masks[row] = mask;
        row = row + 1;
        assert(masks@.take(row as int) =~= done.push(mask));
    }
    assert(masks@.take(8) =~= masks@);
    Ok(masks)
}

/// Reads a bitmap tile and paints it. A refused tile is not painted at all.
pub fn decode_bitmap_tile(
    data_bits: &mut BitReader<'_>,
    rgb: &mut Vec<u8>,
    width: usize,
    height: usize,
    tile_x: usize,
    tile_y: usize,
    one: [u8; 3],
    zero: [u8; 3],
) -> (r: Result<(), VncError>)
    requires
        old(data_bits).wf(),
        buffer_fits(old(rgb)@, width as int, height as int),
        tile_x < width,
        tile_y < height,
    ensures
        match bitmap_at(old(data_bits).bytes@, old(data_bits).position as int).0 {
            Ok(masks) => r is Ok && final(rgb)@ == bitmapped(
                old(rgb)@,
                width as int,
                tile_x as int,
                tile_y as int,
                masks,
                one@,
                zero@,
            ),
            Err(e) => r == Err::<(), VncError>(e) && final(rgb)@ == old(rgb)@,
        },
        final(data_bits).moved(
            *old(data_bits),
            bitmap_at(old(data_bits).bytes@, old(data_bits).position as int).1,
        ),
{
    let masks: [u8; 8] = decode_bitmap_masks(data_bits)?;
    paint_choice(rgb, width, height, tile_x, tile_y, &masks, &one, &zero);
    Ok(())
}

/// Reads a color of a mode-4 tile.
pub fn read_mode_four_color(data_bits: &mut BitReader<'_>) -> (r: Result<[u8; 3], VncError>)
    requires
        old(data_bits).wf(),
    ensures
        match mode_four_color_at(old(data_bits).bytes@, old(data_bits).position as int).0 {
            Ok(color) => r matches Ok(a) && a@ == color,
            Err(e) => r == Err::<[u8; 3], VncError>(e),
        },
        final(data_bits).moved(
            *old(data_bits),
            mode_four_color_at(old(data_bits).bytes@, old(data_bits).position as int).1,
        ),
{
    proof {
        crate::mvs_bitstream::lemma_read_bound(data_bits.bytes@, 0, 0);
    }
    let y: u8 = context(data_bits.read_u8(), "MVS type-0 mode 4 缺少 Y 字段")?;
    let cb: u32 = context(data_bits.read_bits(6), "MVS type-0 mode 4 缺少 Cb 字段")?;
    let cr: u32 = context(data_bits.read_bits(6), "MVS type-0 mode 4 缺少 Cr 字段")?;
    Ok(ycbcr_20_to_rgb(y, cb as u8, cr as u8))
}

} // verus!
