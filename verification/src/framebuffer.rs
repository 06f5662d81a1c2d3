//! A framebuffer and its limits.

use vstd::prelude::*;
use crate::error::VncError;
use crate::protocol::limits::MAX_FRAMEBUFFER_PIXELS;

verus! {

/// Why a framebuffer of this size is refused, where it is.
pub open spec fn framebuffer_refusal(width: int, height: int) -> Option<VncError> {
    if width == 0 || height == 0 {
        Some(VncError::Text("framebuffer 尺寸不能为零"))
    } else if width * height > MAX_FRAMEBUFFER_PIXELS {
        Some(VncError::Text("framebuffer 尺寸超过资源预算"))
    } else {
        None
    }
}

/// Accepts a size that is not empty and within the budget.
pub fn validate_framebuffer_geometry(width: usize, height: usize) -> (r: Result<(), VncError>)
    ensures
        r == crate::error::checked(framebuffer_refusal(width as int, height as int)),
{
    if width == 0 || height == 0 {
        return Err(VncError::Text("framebuffer 尺寸不能为零"));
    }
    match width.checked_mul(height) {
        Some(pixels) => if pixels > MAX_FRAMEBUFFER_PIXELS {
            Err(VncError::Text("framebuffer 尺寸超过资源预算"))
        } else {
            Ok(())
        },
        None => Err(VncError::Text("framebuffer 尺寸超过资源预算")),
    }
}

/// A surface, each pixel `0x00RRGGBB`, row by row.
#[derive(Debug, PartialEq, Eq)]
pub struct Framebuffer {
    pub width: usize,
    pub height: usize,
    pub pixels: Vec<u32>,
}

/// A surface.
pub struct SurfaceView {
    pub width: int,
    pub height: int,
    pub pixels: Seq<u32>,
}

/// The pixel in this row and column.
pub open spec fn pixel_of(surface: SurfaceView, row: int, column: int) -> u32 {
    surface.pixels[row * surface.width + column]
}

/// A black surface of this size.
pub open spec fn black(width: int, height: int) -> SurfaceView {
    SurfaceView { width, height, pixels: Seq::new((width * height) as nat, |i: int| 0u32) }
}

impl View for Framebuffer {
    type V = SurfaceView;

    open spec fn view(&self) -> SurfaceView {
        SurfaceView {
            width: self.width as int,
            height: self.height as int,
            pixels: self.pixels@,
        }
    }
}

impl Framebuffer {
    /// The size is within the limits, and there is a pixel for every place.
    pub open spec fn wf(self) -> bool {
        &&& framebuffer_refusal(self.width as int, self.height as int) is None
        &&& self.pixels@.len() == self.width * self.height
    }

    /// A black surface of this size.
    pub fn new(width: usize, height: usize) -> (r: Result<Framebuffer, VncError>)
        ensures
            match (framebuffer_refusal(width as int, height as int), r) {
                (Some(e), Err(f)) => e == f,
                (None, Ok(framebuffer)) => framebuffer.wf() && framebuffer@ == black(
                    width as int,
                    height as int,
                ),
                _ => false,
            },
    {
        validate_framebuffer_geometry(width, height)?;
        assert(width * height >= 0) by (nonlinear_arith)
            requires
                width >= 0,
                height >= 0,
        ;
        let total: usize = width * height;
        let mut pixels: Vec<u32> = Vec::new();
        let mut i: usize = 0;
        while i < total
            invariant
                i <= total,
                pixels@ == Seq::new(i as nat, |k: int| 0u32),
            decreases total - i,
        {
            pixels.push(0);
            i = i + 1;
            assert(pixels@ =~= Seq::new(i as nat, |k: int| 0u32));
        }
        Ok(Framebuffer { width, height, pixels })
    }
}

/// A size is accepted just where it is not empty and has no more than 64 times 1024 times 1024
/// pixels, whichever side is the longer; a new surface has a black pixel in every place.
pub proof fn law_sizes_within_the_budget(width: int, height: int, row: int, column: int)
    requires
        0 <= width,
        0 <= height,
    ensures
        framebuffer_refusal(width, height) is None <==> 1 <= width && 1 <= height && width * height
            <= 67_108_864,
        framebuffer_refusal(width, height) is None <==> framebuffer_refusal(height, width) is None,
        0 <= row < height && 0 <= column < width ==> pixel_of(black(width, height), row, column)
            == 0,
{
    assert(width * height == height * width) by (nonlinear_arith);
    if 0 <= row < height && 0 <= column < width {
        assert(0 <= row * width + column < width * height) by (nonlinear_arith)
            requires
                0 <= row < height,
                0 <= column < width,
        ;
    }
}

} // verus!
