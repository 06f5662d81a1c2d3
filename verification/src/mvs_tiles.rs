//! What the decoder keeps of a tile, and the coefficients of a mode-5 tile.

use vstd::prelude::*;
use crate::error::{context, VncError};
use crate::mvs_bitstream::BitReader;
use crate::mvs_rice::{decode_dc_rice, decode_luma_ac_rice};
use crate::mvs_tables::APPLE_NATURAL_ORDER;

verus! {

/// The number of bytes of a cache entry: 64 luma, 15 Cb and 20 Cr coefficients.
pub const MVS_CACHE_ENTRY_BYTES: usize = 99;

/// The coefficients that a later partial record refines, in zigzag order.
#[derive(Clone, Copy, Debug, PartialEq, Eq)]
pub struct SavedCoefficientSeed {
    pub selected_threshold: u8,
    pub y: [i8; 64],
    pub cb_count: u8,
    pub cb_dc: i8,
    pub cr_count: u8,
    pub cr_dc: i8,
}

/// The tile and the framebuffer place that a copied tile was taken from.
#[derive(Clone, Copy, Debug, PartialEq, Eq, Structural)]
pub struct SavedTileReference {
    pub tile_index: usize,
    pub framebuffer_offset: usize,
}

/// What is kept of one tile of the surface.
#[derive(Clone, Copy, Debug, PartialEq, Eq)]
pub struct SavedTileState {
    pub generation: u64,
    pub coefficients: Option<SavedCoefficientSeed>,
    pub reference: Option<SavedTileReference>,
}

/// A tile of which nothing is kept.
pub open spec fn blank_tile() -> SavedTileState {
    SavedTileState { generation: 0, coefficients: None, reference: None }
}

impl Default for SavedTileState {
    fn default() -> (r: Self)
        ensures
            r == blank_tile(),
    {
        SavedTileState { generation: 0, coefficients: None, reference: None }
    }
}

/// The coefficients of a tile, row by row.
#[derive(Clone, Copy, Debug, PartialEq, Eq)]
pub struct ModeFiveCoefficients {
    pub y: [i16; 64],
    pub cb: [i16; 64],
    pub cr: [i16; 64],
}

/// A tile with the coefficients in these sequences.
pub open spec fn coefficients_of(y: Seq<i16>, cb: Seq<i16>, cr: Seq<i16>) -> ModeFiveCoefficients {
    ModeFiveCoefficients {
        y: crate::mvs_tables::array_of(y),
        cb: crate::mvs_tables::array_of(cb),
        cr: crate::mvs_tables::array_of(cr),
    }
}

/// A tile without coefficients.
pub open spec fn no_coefficients() -> ModeFiveCoefficients {
    coefficients_of(
        crate::mvs_rice::zero_block(),
        crate::mvs_rice::zero_block(),
        crate::mvs_rice::zero_block(),
    )
}

/// A tile is determined by its coefficients.
pub proof fn lemma_coefficients_of(c: ModeFiveCoefficients)
    ensures
        coefficients_of(c.y@, c.cb@, c.cr@) == c,
{
    crate::mvs_tables::lemma_array_of(c.y);
    crate::mvs_tables::lemma_array_of(c.cb);
    crate::mvs_tables::lemma_array_of(c.cr);
}

impl Default for ModeFiveCoefficients {
    fn default() -> (r: Self)
        ensures
            r == no_coefficients(),
            r.y@ == crate::mvs_rice::zero_block(),
            r.cb@ == crate::mvs_rice::zero_block(),
            r.cr@ == crate::mvs_rice::zero_block(),
    {
        let r: ModeFiveCoefficients = ModeFiveCoefficients { y: [0; 64], cb: [0; 64], cr: [0; 64] };
        proof {
            assert(r.y@ =~= crate::mvs_rice::zero_block());
            assert(r.cb@ =~= crate::mvs_rice::zero_block());
            assert(r.cr@ =~= crate::mvs_rice::zero_block());
            lemma_coefficients_of(r);
        }
        r
    }
}

/// A decoded tile and what is to be kept of it.
#[derive(Clone, Copy, Debug, PartialEq, Eq)]
pub struct ModeFiveTileState {
    pub coefficients: ModeFiveCoefficients,
    pub seed: Option<SavedCoefficientSeed>,
}

/// The low eight bits of the first `count` coefficients in zigzag order.
pub open spec fn zigzag_bytes(block: Seq<i16>, count: int) -> Seq<i8> {
    Seq::new(count as nat, |scan: int| block[APPLE_NATURAL_ORDER[scan] as int] as i8)
}

/// Half of `value`, rounded toward zero.
pub open spec fn half_toward_zero(value: int) -> int {
    if value >= 0 {
        value / 2
    } else {
        -((-value) / 2)
    }
}

/// The luma DC after a difference from the tile before.
pub open spec fn luma_dc(previous: i16, delta: i16) -> Result<i16, VncError> {
    if i16::MIN <= previous - delta <= i16::MAX {
        Ok((previous - delta) as i16)
    } else {
        Err(VncError::Text("MVS mode 5 Y DC predictor 溢出"))
    }
}

/// The chroma DC after a difference from half of that of the tile before.
pub open spec fn chroma_dc(previous: i16, delta: i16) -> Result<i16, VncError> {
    let half = half_toward_zero(previous as int) - delta;
    if i16::MIN <= half <= i16::MAX && i16::MIN <= half * 2 <= i16::MAX {
        Ok((half * 2) as i16)
    } else {
        Err(VncError::Text("MVS mode 5 Cb/Cr DC predictor 溢出"))
    }
}

/// The luma DC after a difference from the tile before.
pub fn apply_luma_dc_predictor(previous: i16, delta: i16) -> (r: Result<i16, VncError>)
    ensures
        r == luma_dc(previous, delta),
{
    match previous.checked_sub(delta) {
        Some(v) => Ok(v),
        None => Err(VncError::Text("MVS mode 5 Y DC predictor 溢出")),
    }
}

/// The chroma DC after a difference from half of that of the tile before.
pub fn apply_chroma_dc_predictor(previous: i16, delta: i16) -> (r: Result<i16, VncError>)
    ensures
        r == chroma_dc(previous, delta),
{
    let half: i16 = if previous >= 0 {
        previous / 2
    } else {
        (0 - ((0 - previous as i32) / 2)) as i16
    };
    match half.checked_sub(delta) {
        Some(v) => match v.checked_mul(2) {
            Some(v) => Ok(v),
            None => Err(VncError::Text("MVS mode 5 Cb/Cr DC predictor 溢出")),
        },
        None => Err(VncError::Text("MVS mode 5 Cb/Cr DC predictor 溢出")),
    }
}

/// The chroma DCs of a tile, as differences from those of the tile before or the same again.
pub open spec fn chroma_at(bytes: Seq<u8>, pos: int, reuse: bool, cb: i16, cr: i16) -> (
    Result<(i16, i16), VncError>,
    int,
) {
    if reuse {
        (Ok((cb, cr)), pos)
    } else {
        match crate::mvs_rice::dc_at(bytes, pos) {
            (Err(e), p) => (Err(crate::error::within("MVS mode 5 Cb DC 解码失败", e)), p),
            (Ok(cb_delta), p) => match chroma_dc(cb, cb_delta) {
                Err(e) => (Err(e), p),
                Ok(new_cb) => match crate::mvs_rice::dc_at(bytes, p) {
                    (Err(e), p) => (Err(crate::error::within("MVS mode 5 Cr DC 解码失败", e)), p),
                    (Ok(cr_delta), p) => match chroma_dc(cr, cr_delta) {
                        Err(e) => (Err(e), p),
                        Ok(new_cr) => (Ok((new_cb, new_cr)), p),
                    },
                },
            },
        }
    }
}

/// The luma coefficients of a tile: the DC difference, then all others.
pub open spec fn luma_at(bytes: Seq<u8>, pos: int, threshold: u8, previous_dc: i16) -> (
    Result<Seq<i16>, VncError>,
    int,
) {
    match crate::mvs_rice::dc_at(bytes, pos) {
        (Err(e), p) => (Err(crate::error::within("MVS mode 5 Y DC 解码失败", e)), p),
        (Ok(delta), p) => match crate::mvs_rice::luma_ac_at(
            bytes,
            p,
            threshold as int,
            1,
            crate::mvs_rice::zero_block(),
        ) {
            (Err(e), p) => (Err(crate::error::within("MVS mode 5 Y AC 解码失败", e)), p),
            (Ok(block), p) => match luma_dc(previous_dc, delta) {
                Err(e) => (Err(e), p),
                Ok(dc) => (Ok(block.update(0, dc)), p),
            },
        },
    }
}

/// The tile with these luma coefficients and chroma DCs, and all that is kept of it.
pub open spec fn tile_of(y: Seq<i16>, cb: i16, cr: i16, threshold: u8) -> ModeFiveTileState {
    ModeFiveTileState {
        coefficients: coefficients_of(
            y,
            crate::mvs_rice::zero_block().update(0, cb),
            crate::mvs_rice::zero_block().update(0, cr),
        ),
        seed: Some(
            SavedCoefficientSeed {
                selected_threshold: threshold,
                y: crate::mvs_tables::array_of(zigzag_bytes(y, 64)),
                cb_count: 1,
                cb_dc: cb as i8,
                cr_count: 1,
                cr_dc: cr as i8,
            },
        ),
    }
}

/// The coefficients that a tile's differences are taken from.
pub open spec fn prior_coefficients(previous: Option<ModeFiveTileState>) -> ModeFiveCoefficients {
    match previous {
        Some(state) => state.coefficients,
        None => no_coefficients(),
    }
}

/// A mode-5 tile that is not a copy: whether the chroma DCs stay, which threshold scales the luma
/// coefficients, the chroma DCs and the luma coefficients.
pub open spec fn fresh_tile_at(
    bytes: Seq<u8>,
    pos: int,
    previous: Option<ModeFiveTileState>,
    threshold_a: u8,
    threshold_b: u8,
) -> (Result<ModeFiveTileState, VncError>, int) {
    match crate::mvs_bitstream::read_at(bytes, pos, 1) {
        (Err(e), p) => (
            Err(crate::error::within("MVS mode 5 缺少 Cb/Cr predictor 复用标志", e)),
            p,
        ),
        (Ok(reuse), p) => match crate::mvs_bitstream::read_at(bytes, p, 1) {
            (Err(e), p) => (
                Err(crate::error::within("MVS mode 5 缺少 scale threshold 选择位", e)),
                p,
            ),
            (Ok(select_b), p) => {
                let threshold = if select_b != 0 {
                    threshold_b
                } else {
                    threshold_a
                };
                let prior = prior_coefficients(previous);
                match chroma_at(bytes, p, reuse != 0, prior.cb[0], prior.cr[0]) {
                    (Err(e), p) => (Err(e), p),
                    (Ok(chroma), p) => match luma_at(bytes, p, threshold, prior.y[0]) {
                        (Err(e), p) => (Err(e), p),
                        (Ok(y), p) => (Ok(tile_of(y, chroma.0, chroma.1, threshold)), p),
                    },
                }
            },
        },
    }
}

/// A mode-5 tile read at `pos`: a copy of the tile before, of which the first has no coefficients
/// and keeps nothing, or a tile of its own.
pub open spec fn mode_five_at(
    bytes: Seq<u8>,
    pos: int,
    previous: Option<ModeFiveTileState>,
    threshold_a: u8,
    threshold_b: u8,
) -> (Result<ModeFiveTileState, VncError>, int) {
    match crate::mvs_bitstream::read_at(bytes, pos, 1) {
        (Err(e), p) => (Err(crate::error::within("MVS mode 5 缺少 copy 标志", e)), p),
        (Ok(copy), p) => if copy != 0 {
            (
                Ok(
                    match previous {
                        Some(state) => state,
                        None => ModeFiveTileState { coefficients: no_coefficients(), seed: None },
                    },
                ),
                p,
            )
        } else {
            fresh_tile_at(bytes, p, previous, threshold_a, threshold_b)
        },
    }
}

/// The low eight bits of the coefficients of a block, in zigzag order.
fn zigzag_cut(block: &[i16; 64]) -> (r: [i8; 64])
    ensures
        r@ == zigzag_bytes(block@, 64),
{
    let mut out: [i8; 64] = [0; 64];
    let mut scan: usize = 0;
    while scan < 64
        invariant
            scan <= 64,
            forall|i: int|
                0 <= i < scan ==> #[trigger] out[i] == block[APPLE_NATURAL_ORDER[i] as int] as i8,
        decreases 64 - scan,
    {
        proof {
            crate::mvs_tables::lemma_natural_order_bound(scan as int);
        }
        let place: usize = APPLE_NATURAL_ORDER[scan];
        out[scan] = block[place] as i8;
        scan = scan + 1;
    }
    assert(out@ =~= zigzag_bytes(block@, 64));
    out
}

fn decode_chroma_dcs(reader: &mut BitReader<'_>, reuse: bool, cb: i16, cr: i16) -> (r: Result<
    (i16, i16),
    VncError,
>)
    requires
        old(reader).wf(),
    ensures
        r == chroma_at(old(reader).bytes@, old(reader).position as int, reuse, cb, cr).0,
        final(reader).moved(
            *old(reader),
            chroma_at(old(reader).bytes@, old(reader).position as int, reuse, cb, cr).1,
        ),
{
    if reuse {
        return Ok((cb, cr));
    }
    let cb_delta: i16 = context(decode_dc_rice(reader), "MVS mode 5 Cb DC 解码失败")?;
    let new_cb: i16 = apply_chroma_dc_predictor(cb, cb_delta)?;
    let cr_delta: i16 = context(decode_dc_rice(reader), "MVS mode 5 Cr DC 解码失败")?;
    let new_cr: i16 = apply_chroma_dc_predictor(cr, cr_delta)?;
    Ok((new_cb, new_cr))
}

fn decode_luma(reader: &mut BitReader<'_>, threshold: u8, previous_dc: i16) -> (r: Result<
    [i16; 64],
    VncError,
>)
    requires
        old(reader).wf(),
    ensures
        match luma_at(
            old(reader).bytes@,
            old(reader).position as int,
            threshold,
            previous_dc,
        ).0 {
            Ok(c) => r matches Ok(a) && a@ == c,
            Err(e) => r == Err::<[i16; 64], VncError>(e),
        },
        final(reader).moved(
            *old(reader),
            luma_at(old(reader).bytes@, old(reader).position as int, threshold, previous_dc).1,
        ),
{
    let delta: i16 = context(decode_dc_rice(reader), "MVS mode 5 Y DC 解码失败")?;
    let mut block: [i16; 64] = context(
        decode_luma_ac_rice(reader, threshold),
        "MVS mode 5 Y AC 解码失败",
    )?;
    let dc: i16 = apply_luma_dc_predictor(previous_dc, delta)?;
    block[0] = dc;
    Ok(block)
}

/// Reads a mode-5 tile.
pub fn decode_mode_five_coefficients(
    reader: &mut BitReader<'_>,
    previous: &Option<ModeFiveTileState>,
    scale_threshold_a: u8,
    scale_threshold_b: u8,
) -> (r: Result<ModeFiveTileState, VncError>)
    requires
        old(reader).wf(),
    ensures
        r == mode_five_at(
            old(reader).bytes@,
            old(reader).position as int,
            *previous,
            scale_threshold_a,
            scale_threshold_b,
        ).0,
        final(reader).moved(
            *old(reader),
            mode_five_at(
                old(reader).bytes@,
                old(reader).position as int,
                *previous,
                scale_threshold_a,
                scale_threshold_b,
            ).1,
        ),
{
    let copy: u32 = context(reader.read_bits(1), "MVS mode 5 缺少 copy 标志")?;
    if copy != 0 {
        return match previous {
            Some(state) => Ok(*state),
            None => Ok(
                ModeFiveTileState { coefficients: ModeFiveCoefficients::default(), seed: None },
            ),
        };
    }
    let reuse: u32 = context(reader.read_bits(1), "MVS mode 5 缺少 Cb/Cr predictor 复用标志")?;
    let select_b: u32 = context(reader.read_bits(1), "MVS mode 5 缺少 scale threshold 选择位")?;
    let selected_threshold: u8 = if select_b != 0 {
        scale_threshold_b
    } else {
        scale_threshold_a
    };
    let prior: ModeFiveCoefficients = match previous {
        Some(state) => state.coefficients,
        None => ModeFiveCoefficients::default(),
    };
    let chroma: (i16, i16) = decode_chroma_dcs(reader, reuse != 0, prior.cb[0], prior.cr[0])?;
    let y: [i16; 64] = decode_luma(reader, selected_threshold, prior.y[0])?;
    let mut current: ModeFiveCoefficients = ModeFiveCoefficients::default();
    current.y = y;
    current.cb[0] = chroma.0;
    current.cr[0] = chroma.1;
    let saved_y: [i8; 64] = zigzag_cut(&current.y);
    proof {
        lemma_coefficients_of(current);
        crate::mvs_tables::lemma_array_of(saved_y);
    }
    Ok(
        ModeFiveTileState {
            coefficients: current,
            seed: Some(
                SavedCoefficientSeed {
                    selected_threshold,
                    y: saved_y,
                    cb_count: 1,
                    cb_dc: current.cb[0] as i8,
                    cr_count: 1,
                    cr_dc: current.cr[0] as i8,
                },
            ),
        },
    )
}

} // verus!
