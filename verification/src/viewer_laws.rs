//! What a viewer does with what it is told of a surface.

use vstd::prelude::*;
use crate::framebuffer::SurfaceView;
use crate::hpss_viewer;
use crate::hpss_viewer::{PatchView, SurfacePatch, SurfaceUpdate};

verus! {

/// A surface that begins anew is black and has its own number and size, where that is within the
/// budget and its pixels are laid out as the viewer knows them; parts of another surface change
/// nothing, and those of this one are put into it; the end of a frame changes nothing.
pub proof fn law_updates_are_of_their_surface(
    surface: SurfaceView,
    generation: u64,
    next: u64,
    width: u32,
    height: u32,
    bgrx: bool,
    patches: Vec<SurfacePatch>,
    i: int,
)
    ensures
        ({
            let told = hpss_viewer::updated(
                surface,
                generation,
                SurfaceUpdate::Reset { generation: next, width, height, bgrx },
            );
            &&& told is Ok <==> bgrx && width > 0 && height > 0 && width * height <= 67_108_864
            &&& told matches Ok((fresh, number)) ==> number == next && fresh.width == width
                && fresh.height == height && fresh.pixels.len() == width * height && (0 <= i
                < fresh.pixels.len() ==> fresh.pixels[i] == 0)
        }),
        next != generation ==> hpss_viewer::updated(
            surface,
            generation,
            SurfaceUpdate::Damage { generation: next, patches },
        ) == Ok::<(SurfaceView, u64), crate::error::VncError>((surface, generation)),
        hpss_viewer::updated(surface, generation, SurfaceUpdate::Damage { generation, patches })
            == Ok::<(SurfaceView, u64), crate::error::VncError>(
            (hpss_viewer::patched_all(surface, patches@), generation),
        ),
{
    assert(width * height >= 0) by (nonlinear_arith)
        requires
            width >= 0,
            height >= 0,
    ;
}

/// A part fits where every pixel of it lies on the surface and all of its four bytes are there.
pub proof fn law_fitting_parts(patch: PatchView, width: int, height: int, row: int, column: int)
    requires
        hpss_viewer::fits(patch, width, height),
        0 <= patch.x,
        0 <= patch.y,
        0 <= patch.stride,
        0 <= row < patch.height,
        0 <= column < patch.width,
    ensures
        patch.x + column < width,
        patch.y + row < height,
        0 <= row * patch.stride + 4 * column,
        row * patch.stride + 4 * column + 4 <= patch.bytes.len(),
{
    assert(hpss_viewer::row_end(patch, row) <= patch.bytes.len());
    assert(0 <= row * patch.stride) by (nonlinear_arith)
        requires
            0 <= row,
            0 <= patch.stride,
    ;
}

/// A part without a gap between its rows fits just where it lies on the surface and has four bytes
/// for each of its pixels.
pub proof fn law_dense_parts_fit(patch: PatchView, width: int, height: int)
    requires
        0 < patch.width,
        0 < patch.height,
        patch.stride == 4 * patch.width,
    ensures
        hpss_viewer::fits(patch, width, height) <==> patch.x + patch.width <= width && patch.y
            + patch.height <= height && 4 * patch.width * patch.height <= patch.bytes.len(),
{
    let (w, h) = (patch.width, patch.height);
    assert(hpss_viewer::row_end(patch, h - 1) == 4 * w * h) by {
        assert((h - 1) * (4 * w) + w * 4 == 4 * w * h) by (nonlinear_arith);
    }
    assert forall|row: int| 0 <= row < h implies #[trigger] hpss_viewer::row_end(patch, row) <= 4 * w
        * h by {
        assert(row * (4 * w) + w * 4 <= 4 * w * h) by (nonlinear_arith)
            requires
                0 <= row < h,
                0 < w,
        ;
    }
}

} // verus!
