//! What a viewer does between the session and its window.

use vstd::prelude::*;
use crate::error::VncError;
use crate::framebuffer;
use crate::framebuffer::{Framebuffer, SurfaceView};

verus! {

/// A part of a surface, each pixel in four bytes: blue, green, red and one that says nothing.
#[derive(Debug, PartialEq, Eq)]
pub struct SurfacePatch {
    pub x: u32,
    pub y: u32,
    pub width: u32,
    pub height: u32,
    /// The bytes from one row to the next.
    pub stride_bytes: u32,
    pub pixels: Vec<u8>,
}

/// A part of a surface.
pub struct PatchView {
    pub x: int,
    pub y: int,
    pub width: int,
    pub height: int,
    pub stride: int,
    pub bytes: Seq<u8>,
}

impl View for SurfacePatch {
    type V = PatchView;

    open spec fn view(&self) -> PatchView {
        PatchView {
            x: self.x as int,
            y: self.y as int,
            width: self.width as int,
            height: self.height as int,
            stride: self.stride_bytes as int,
            bytes: self.pixels@,
        }
    }
}

/// Whether a part lies on the surface and has bytes for all its pixels.
pub open spec fn fits(patch: PatchView, width: int, height: int) -> bool {
    &&& patch.x + patch.width <= width
    &&& patch.y + patch.height <= height
    &&& forall|row: int|
        0 <= row < patch.height ==> #[trigger] row_end(patch, row) <= patch.bytes.len()
}

/// Where the bytes of a row begin.
pub open spec fn row_start(patch: PatchView, row: int) -> int {
    row * patch.stride
}

/// Where the bytes of a row end.
pub open spec fn row_end(patch: PatchView, row: int) -> int {
    row_start(patch, row) + patch.width * 4
}

/// The pixel of a part in this row and column of it.
pub open spec fn patch_pixel(patch: PatchView, row: int, column: int) -> u32 {
    let at = row_start(patch, row) + column * 4;
    (patch.bytes[at + 2] * 0x1_0000 + patch.bytes[at + 1] * 0x100 + patch.bytes[at]) as u32
}

/// Whether a place lies in a part.
pub open spec fn covers(patch: PatchView, row: int, column: int) -> bool {
    &&& patch.y <= row < patch.y + patch.height
    &&& patch.x <= column < patch.x + patch.width
}

/// The surface with a part of it replaced.
pub open spec fn patched(surface: SurfaceView, patch: PatchView) -> SurfaceView {
    SurfaceView {
        pixels: Seq::new(
            surface.pixels.len(),
            |i: int|
                if covers(patch, i / surface.width, i % surface.width) {
                    patch_pixel(patch, i / surface.width - patch.y, i % surface.width - patch.x)
                } else {
                    surface.pixels[i]
                },
        ),
        ..surface
    }
}

/// The surface with parts of it replaced, one after the other.
pub open spec fn patched_all(surface: SurfaceView, patches: Seq<SurfacePatch>) -> SurfaceView
    decreases patches.len(),
{
    if patches.len() == 0 {
        surface
    } else {
        patched(patched_all(surface, patches.drop_last()), patches.last()@)
    }
}

/// What is told of a surface.
#[derive(Debug, PartialEq, Eq)]
pub enum SurfaceUpdate {
    /// The surface begins anew, in another size.
    Reset { generation: u64, width: u32, height: u32, bgrx: bool },
    /// Parts of the surface have changed.
    Damage { generation: u64, patches: Vec<SurfacePatch> },
    /// A frame is complete.
    FrameBoundary { generation: u64 },
}

proof fn lemma_place(row: int, column: int, width: int)
    requires
        0 <= column < width,
        row >= 0,
    ensures
        (row * width + column) / width == row,
        (row * width + column) % width == column,
        row * width + column >= 0,
{
    vstd::arithmetic::div_mod::lemma_fundamental_div_mod_converse(
        row * width + column,
        width,
        row,
        column,
    );
    assert(row * width >= 0) by (nonlinear_arith)
        requires
            row >= 0,
            width >= 0,
    ;
}

/// Whether a part lies on the surface and has bytes for all its pixels.
pub fn patch_fits(patch: &SurfacePatch, framebuffer: &Framebuffer) -> (r: bool)
    requires
        framebuffer.wf(),
    ensures
        r == fits(patch@, framebuffer@.width, framebuffer@.height),
{
    let right: u64 = patch.x as u64 + patch.width as u64;
    let bottom: u64 = patch.y as u64 + patch.height as u64;
    if right > framebuffer.width as u64 || bottom > framebuffer.height as u64 {
        return false;
    }
    if patch.height == 0 {
        return true;
    }
    let rows: u64 = patch.height as u64 - 1;
    assert(rows * patch.stride_bytes <= 0xffff_ffff * 0xffff_ffff) by (nonlinear_arith)
        requires
            rows <= 0xffff_ffff,
            patch.stride_bytes <= 0xffff_ffff,
    ;
    let last_start: u64 = rows * patch.stride_bytes as u64;
    let length: u64 = patch.pixels.len() as u64;
    let width: u64 = patch.width as u64 * 4;
    let enough: bool = last_start <= length && width <= length - last_start;
    proof {
        let p = patch@;
        assert(row_end(p, rows as int) == last_start + width);
        assert forall|row: int| 0 <= row < p.height && enough implies #[trigger] row_end(p, row)
            <= p.bytes.len() by {
            assert(row * p.stride <= rows * p.stride) by (nonlinear_arith)
                requires
                    row <= rows,
                    p.stride >= 0,
            ;
        }
    }
    enough
}

/// The surface with the first `rows` rows of a part replaced, and the first `columns` places of
/// the row behind them.
spec fn painted(surface: SurfaceView, patch: PatchView, rows: int, columns: int) -> SurfaceView {
    SurfaceView {
        pixels: Seq::new(
            surface.pixels.len(),
            |i: int|
                {
                    let row = i / surface.width - patch.y;
                    let column = i % surface.width - patch.x;
                    if covers(patch, i / surface.width, i % surface.width) && (row < rows || (row
                        == rows && column < columns)) {
                        patch_pixel(patch, row, column)
                    } else {
                        surface.pixels[i]
                    }
                },
        ),
        ..surface
    }
}

proof fn lemma_painted_next(surface: SurfaceView, patch: PatchView, row: int, column: int)
    requires
        0 <= row < patch.height,
        0 <= column < patch.width,
        0 <= patch.x,
        0 <= patch.y,
        patch.x + patch.width <= surface.width,
        patch.y + patch.height <= surface.height,
        surface.pixels.len() == surface.width * surface.height,
    ensures
        ({
            let at = (patch.y + row) * surface.width + patch.x + column;
            &&& 0 <= at < surface.pixels.len()
            &&& painted(surface, patch, row, column + 1).pixels == painted(
                surface,
                patch,
                row,
                column,
            ).pixels.update(at, patch_pixel(patch, row, column))
        }),
{
    let at = (patch.y + row) * surface.width + patch.x + column;
    lemma_place(patch.y + row, patch.x + column, surface.width);
    assert((patch.y + row) * surface.width + surface.width <= surface.width * surface.height)
        by (nonlinear_arith)
        requires
            patch.y + row + 1 <= surface.height,
            surface.width >= 0,
    ;
    let before = painted(surface, patch, row, column).pixels;
    let after = painted(surface, patch, row, column + 1).pixels;
    assert forall|i: int| 0 <= i < surface.pixels.len() implies after[i] == before.update(
        at,
        patch_pixel(patch, row, column),
    )[i] by {
        if i / surface.width == patch.y + row && i % surface.width == patch.x + column {
            vstd::arithmetic::div_mod::lemma_fundamental_div_mod(i, surface.width);
            assert(surface.width * (i / surface.width) == (i / surface.width) * surface.width)
                by (nonlinear_arith);
            assert(i == at);
        }
    }
    assert(after =~= before.update(at, patch_pixel(patch, row, column)));
}

proof fn lemma_painted_row(surface: SurfaceView, patch: PatchView, row: int)
    requires
        surface.width > 0,
    ensures
        painted(surface, patch, row, patch.width) == painted(surface, patch, row + 1, 0),
{
    let done = painted(surface, patch, row, patch.width).pixels;
    let next = painted(surface, patch, row + 1, 0).pixels;
    assert forall|i: int| 0 <= i < surface.pixels.len() implies done[i] == next[i] by {
        if covers(patch, i / surface.width, i % surface.width) {
            assert(i % surface.width - patch.x < patch.width);
            assert(i % surface.width - patch.x >= 0);
        }
    }
    assert(done =~= next);
}

/// Replaces a part of a surface.
pub fn apply_patch(framebuffer: &mut Framebuffer, patch: &SurfacePatch)
    requires
        old(framebuffer).wf(),
        fits(patch@, old(framebuffer)@.width, old(framebuffer)@.height),
    ensures
        final(framebuffer).wf(),
        final(framebuffer)@ == patched(old(framebuffer)@, patch@),
{
    let ghost surface = framebuffer@;
    let ghost p = patch@;
    let mut row: usize = 0;
    let height: usize = patch.height as usize;
    let width: usize = patch.width as usize;
    let length: usize = patch.pixels.len();
    assert(framebuffer@.pixels =~= painted(surface, p, 0, 0).pixels);
    while row < height
        invariant
            framebuffer.wf(),
            surface == old(framebuffer)@,
            surface.pixels.len() == surface.width * surface.height,
            surface.width > 0,
            framebuffer@ == painted(surface, p, row as int, 0),
            p == patch@,
            fits(p, surface.width, surface.height),
            row <= height == p.height,
            width == p.width,
            length == p.bytes.len(),
        decreases height - row,
    {
        assert(row_end(p, row as int) <= p.bytes.len());
        assert(0 <= row * patch.stride_bytes) by (nonlinear_arith)
            requires
                row >= 0,
                patch.stride_bytes >= 0,
        ;
        let source: usize = row * patch.stride_bytes as usize;
        let mut column: usize = 0;
        while column < width
            invariant
                framebuffer.wf(),
                surface.pixels.len() == surface.width * surface.height,
                surface.width > 0,
                framebuffer@ == painted(surface, p, row as int, column as int),
                p == patch@,
                fits(p, surface.width, surface.height),
                row < p.height,
                column <= width == p.width,
                length == p.bytes.len(),
                source == row_start(p, row as int),
                source + width * 4 <= length,
            decreases width - column,
        {
            let at: usize = source + column * 4;
            let pixel: u32 = patch.pixels[at + 2] as u32 * 0x1_0000 + patch.pixels[at + 1] as u32
                * 0x100 + patch.pixels[at] as u32;
            proof {
                lemma_painted_next(surface, p, row as int, column as int);
                assert((p.y + row) * surface.width >= 0) by (nonlinear_arith)
                    requires
                        p.y + row >= 0,
                        surface.width > 0,
                ;
                assert(framebuffer.pixels@.len() == surface.pixels.len());
            }
            let total: usize = framebuffer.pixels.len();
            let place: usize = (patch.y as usize + row) * framebuffer.width + patch.x as usize
                + column;
            assert(place < total);
            framebuffer.pixels.set(place, pixel);
            column = column + 1;
            assert(framebuffer@.pixels == painted(surface, p, row as int, column as int).pixels);
        }
        proof {
            lemma_painted_row(surface, p, row as int);
        }
        row = row + 1;
    }
    proof {
        let done = painted(surface, p, p.height, 0).pixels;
        assert(done =~= patched(surface, p).pixels);
    }
}

/// What a surface and its generation become by an update, where it is accepted. Parts that belong
/// to another generation change nothing.
pub open spec fn updated(surface: SurfaceView, generation: u64, update: SurfaceUpdate) -> Result<
    (SurfaceView, u64),
    VncError,
> {
    match update {
        SurfaceUpdate::Reset { generation: next, width, height, bgrx } => if !bgrx {
            Err(VncError::Text("legacy HPSS viewer only accepts BGRX surfaces"))
        } else {
            match framebuffer::framebuffer_refusal(width as int, height as int) {
                Some(e) => Err(e),
                None => Ok((framebuffer::black(width as int, height as int), next)),
            }
        },
        SurfaceUpdate::Damage { generation: of, patches } => if of == generation {
            Ok((patched_all(surface, patches@), generation))
        } else {
            Ok((surface, generation))
        },
        SurfaceUpdate::FrameBoundary { .. } => Ok((surface, generation)),
    }
}

/// Applies an update to a surface.
pub fn apply_surface_update(
    framebuffer: &mut Framebuffer,
    generation: &mut u64,
    update: &SurfaceUpdate,
) -> (r: Result<(), VncError>)
    requires
        old(framebuffer).wf(),
        update matches SurfaceUpdate::Damage { generation: of, patches } ==> of == *old(generation)
            ==> forall|i: int|
            0 <= i < patches@.len() ==> fits(
                #[trigger] patches@[i]@,
                old(framebuffer)@.width,
                old(framebuffer)@.height,
            ),
    ensures
        final(framebuffer).wf(),
        match (updated(old(framebuffer)@, *old(generation), *update), r) {
            (Ok((surface, next)), Ok(_)) => final(framebuffer)@ == surface && *final(generation)
                == next,
            (Err(e), Err(f)) => e == f && final(framebuffer)@ == old(framebuffer)@
                && *final(generation) == *old(generation),
            _ => false,
        },
{
    match update {
        SurfaceUpdate::Reset { generation: next, width, height, bgrx } => {
            if !*bgrx {
                return Err(VncError::Text("legacy HPSS viewer only accepts BGRX surfaces"));
            }
            *framebuffer = Framebuffer::new(*width as usize, *height as usize)?;
            *generation = *next;
            Ok(())
        },
        SurfaceUpdate::Damage { generation: of, patches } => {
            if *of != *generation {
                return Ok(());
            }
            let ghost surface = framebuffer@;
            let mut i: usize = 0;
            assert(patches@.take(0) =~= Seq::empty());
            while i < patches.len()
                invariant
                    framebuffer.wf(),
                    *generation == *old(generation),
                    i <= patches@.len(),
                    framebuffer@ == patched_all(surface, patches@.take(i as int)),
                    framebuffer@.width == surface.width,
                    framebuffer@.height == surface.height,
                    forall|k: int|
                        0 <= k < patches@.len() ==> fits(
                            #[trigger] patches@[k]@,
                            surface.width,
                            surface.height,
                        ),
                decreases patches@.len() - i,
            {
                assert(fits(patches@[i as int]@, surface.width, surface.height));
                apply_patch(framebuffer, &patches[i]);
                proof {
                    let next = patches@.take(i + 1);
                    assert(next.drop_last() =~= patches@.take(i as int));
                    assert(next.last() == patches@[i as int]);
                }
                i = i + 1;
            }
            assert(patches@.take(i as int) =~= patches@);
            Ok(())
        },
        SurfaceUpdate::FrameBoundary { .. } => Ok(()),
    }
}

/// The part of a window that shows the remote surface.
#[derive(Clone, Copy, Debug, PartialEq, Eq, Structural)]
pub struct ContentRect {
    pub x: u32,
    pub y: u32,
    pub width: u32,
    pub height: u32,
}

/// Whether the part lies in the window and is not empty.
pub open spec fn within_drawable(content: ContentRect, width: int, height: int) -> bool {
    &&& content.width > 0
    &&& content.height > 0
    &&& content.x + content.width <= width
    &&& content.y + content.height <= height
}

/// Whether a surface can be drawn into this part of a window.
pub fn content_fits(content: ContentRect, width: usize, height: usize) -> (r: bool)
    ensures
        r == (within_drawable(content, width as int, height as int) && width * height
            <= usize::MAX),
{
    if width.checked_mul(height).is_none() {
        return false;
    }
    content.width > 0 && content.height > 0 && content.x as u64 + content.width as u64
        <= width as u64 && content.y as u64 + content.height as u64 <= height as u64
}

/// The place of the surface that a place of the window shows.
pub open spec fn nearest(place: int, remote: int, content: int) -> int {
    place * remote / content
}

/// The pixel of the window in this row and column: of the surface inside the content, and black
/// around it.
pub open spec fn rendered_pixel(surface: SurfaceView, content: ContentRect, row: int, column: int) -> u32 {
    if content.y <= row < content.y + content.height && content.x <= column < content.x
        + content.width {
        framebuffer::pixel_of(
            surface,
            nearest(row - content.y, surface.height, content.height as int),
            nearest(column - content.x, surface.width, content.width as int),
        )
    } else {
        0
    }
}

/// The pixels of the window.
pub open spec fn rendered(surface: SurfaceView, content: ContentRect, width: int, height: int) -> Seq<u32> {
    Seq::new(
        (width * height) as nat,
        |i: int| rendered_pixel(surface, content, i / width, i % width),
    )
}

proof fn lemma_nearest(place: int, remote: int, content: int)
    requires
        0 <= place < content,
        remote > 0,
    ensures
        0 <= nearest(place, remote, content) < remote,
{
    assert(0 <= place * remote) by (nonlinear_arith)
        requires
            place >= 0,
            remote > 0,
    ;
    assert(place * remote < remote * content) by (nonlinear_arith)
        requires
            place < content,
            remote > 0,
    ;
    assert(0 <= (place * remote) / content < remote) by (nonlinear_arith)
        requires
            0 <= place * remote < remote * content,
            content > 0,
    ;
}

fn nearest_place(place: usize, remote: usize, content: u32) -> (r: usize)
    requires
        place < content,
        0 < remote <= 67_108_864,
    ensures
        r == nearest(place as int, remote as int, content as int),
        r < remote,
{
    proof {
        lemma_nearest(place as int, remote as int, content as int);
        assert(place * remote <= 0xffff_ffff * 67_108_864) by (nonlinear_arith)
            requires
                place <= 0xffff_ffff,
                remote <= 67_108_864,
        ;
    }
    (place as u64 * remote as u64 / content as u64) as usize
}

/// Draws a surface into a window, each place with the pixel that is nearest.
pub fn render_nearest(
    framebuffer: &Framebuffer,
    width: usize,
    height: usize,
    content: ContentRect,
) -> (r: Vec<u32>)
    requires
        framebuffer.wf(),
        within_drawable(content, width as int, height as int),
        width * height <= usize::MAX,
    ensures
        r@ == rendered(framebuffer@, content, width as int, height as int),
{
    let ghost surface = framebuffer@;
    let mut output: Vec<u32> = Vec::new();
    proof {
        assert(surface.width <= 67_108_864 && surface.height <= 67_108_864) by (nonlinear_arith)
            requires
                surface.width > 0,
                surface.height > 0,
                surface.width * surface.height <= 67_108_864,
        ;
    }
    let mut row: usize = 0;
    while row < height
        invariant
            framebuffer.wf(),
            surface == framebuffer@,
            surface.width <= 67_108_864,
            surface.height <= 67_108_864,
            within_drawable(content, width as int, height as int),
            row <= height,
            width > 0,
            output@.len() == row * width,
            forall|i: int|
                0 <= i < output@.len() ==> #[trigger] output@[i] == rendered_pixel(
                    surface,
                    content,
                    i / width as int,
                    i % width as int,
                ),
        decreases height - row,
    {
        let inside_row: bool = (content.y as usize) <= row && row - (content.y as usize) < (
        content.height as usize);
        let source_row: usize = if inside_row {
            nearest_place(row - content.y as usize, framebuffer.height, content.height)
        } else {
            0
        };
        let mut column: usize = 0;
        while column < width
            invariant
                framebuffer.wf(),
                surface == framebuffer@,
                surface.width <= 67_108_864,
                surface.height <= 67_108_864,
                within_drawable(content, width as int, height as int),
                row < height,
                column <= width,
                width > 0,
                inside_row == (content.y <= row < content.y + content.height),
                inside_row ==> source_row == nearest(
                    row - content.y,
                    surface.height,
                    content.height as int,
                ) && source_row < surface.height,
                output@.len() == row * width + column,
                forall|i: int|
                    0 <= i < output@.len() ==> #[trigger] output@[i] == rendered_pixel(
                        surface,
                        content,
                        i / width as int,
                        i % width as int,
                    ),
            decreases width - column,
        {
            let inside: bool = inside_row && (content.x as usize) <= column && column - (
            content.x as usize) < (content.width as usize);
            let pixel: u32 = if inside {
                let source_column: usize = nearest_place(
                    column - content.x as usize,
                    framebuffer.width,
                    content.width,
                );
                proof {
                    assert(source_row * surface.width + surface.width <= surface.width
                        * surface.height) by (nonlinear_arith)
                        requires
                            source_row + 1 <= surface.height,
                            surface.width > 0,
                    ;
                    assert(source_row * surface.width >= 0) by (nonlinear_arith)
                        requires
                            source_row >= 0,
                            surface.width > 0,
                    ;
                }
                let total: usize = framebuffer.pixels.len();
                let at: usize = source_row * framebuffer.width + source_column;
                assert(at < total);
                framebuffer.pixels[at]
            } else {
                0
            };
            proof {
                lemma_place(row as int, column as int, width as int);
            }
            output.push(pixel);
            column = column + 1;
        }
        proof {
            assert(row * width + width == (row + 1) * width) by (nonlinear_arith);
        }
        row = row + 1;
    }
    assert(output@ =~= rendered(surface, content, width as int, height as int)) by {
        assert(row * width == width * height) by (nonlinear_arith)
            requires
                row == height,
        ;
    }
    output
}

/// A button of the pointer.
#[derive(Clone, Copy, Debug, PartialEq, Eq, Structural)]
pub enum PointerButton {
    Primary,
    Middle,
    Secondary,
}

/// Which buttons of the pointer are down.
#[derive(Clone, Copy, Debug, PartialEq, Eq, Structural)]
pub struct PointerButtons {
    pub primary: bool,
    pub middle: bool,
    pub secondary: bool,
}

impl PointerButtons {
    /// Whether one of them is.
    pub fn any_pressed(&self) -> (r: bool)
        ensures
            r == (self.primary || self.middle || self.secondary),
    {
        self.primary || self.middle || self.secondary
    }
}

/// Where the pointer is on the remote surface, what is down, and how the wheel was turned.
#[derive(Clone, Copy, Debug, PartialEq, Eq, Structural)]
pub struct PointerSample {
    pub x: u16,
    pub y: u16,
    pub buttons: PointerButtons,
    pub wheel_horizontal: i8,
    pub wheel_vertical: i8,
}

/// What a session is told of the pointer.
#[derive(Clone, Copy, Debug, PartialEq, Eq, Structural)]
pub enum InputEvent {
    PointerMove { x: u16, y: u16 },
    PointerButton { button: PointerButton, pressed: bool },
    Wheel { horizontal: i8, vertical: i8 },
    ReleaseAll,
}

/// What is told of a button: that it went down or up, where it did.
pub open spec fn button_events(button: PointerButton, before: bool, after: bool) -> Seq<InputEvent> {
    if before == after {
        Seq::empty()
    } else {
        seq![InputEvent::PointerButton { button, pressed: after }]
    }
}

/// What is told of the wheel, where it was turned.
pub open spec fn wheel_events(horizontal: i8, vertical: i8) -> Seq<InputEvent> {
    if horizontal == 0 && vertical == 0 {
        Seq::empty()
    } else {
        seq![InputEvent::Wheel { horizontal, vertical }]
    }
}

/// What a session is told of the pointer: where it is, then what changed.
pub open spec fn sample_events(sample: PointerSample, previous: PointerButtons) -> Seq<InputEvent> {
    seq![InputEvent::PointerMove { x: sample.x, y: sample.y }] + button_events(
        PointerButton::Primary,
        previous.primary,
        sample.buttons.primary,
    ) + button_events(PointerButton::Middle, previous.middle, sample.buttons.middle)
        + button_events(PointerButton::Secondary, previous.secondary, sample.buttons.secondary)
        + wheel_events(sample.wheel_horizontal, sample.wheel_vertical)
}

fn push_button(events: &mut Vec<InputEvent>, button: PointerButton, before: bool, after: bool)
    ensures
        final(events)@ == old(events)@ + button_events(button, before, after),
{
    if before != after {
        events.push(InputEvent::PointerButton { button, pressed: after });
    }
    assert(events@ =~= old(events)@ + button_events(button, before, after));
}

/// Tells a session of the pointer, and remembers which buttons are down.
pub fn pointer_events(sample: &PointerSample, previous: &mut PointerButtons) -> (r: Vec<InputEvent>)
    ensures
        r@ == sample_events(*sample, *old(previous)),
        *final(previous) == sample.buttons,
{
    let mut events: Vec<InputEvent> = Vec::new();
    events.push(InputEvent::PointerMove { x: sample.x, y: sample.y });
    assert(events@ =~= seq![InputEvent::PointerMove { x: sample.x, y: sample.y }]);
    push_button(&mut events, PointerButton::Primary, previous.primary, sample.buttons.primary);
    push_button(&mut events, PointerButton::Middle, previous.middle, sample.buttons.middle);
    push_button(
        &mut events,
        PointerButton::Secondary,
        previous.secondary,
        sample.buttons.secondary,
    );
    if sample.wheel_horizontal != 0 || sample.wheel_vertical != 0 {
        events.push(
            InputEvent::Wheel {
                horizontal: sample.wheel_horizontal,
                vertical: sample.wheel_vertical,
            },
        );
    }
    assert(events@ =~= sample_events(*sample, *old(previous)));
    *previous = sample.buttons;
    events
}

/// The buttons that are down behind an event.
pub open spec fn pressed_after(buttons: PointerButtons, event: InputEvent) -> PointerButtons {
    match event {
        InputEvent::PointerButton { button: PointerButton::Primary, pressed } => PointerButtons {
            primary: pressed,
            ..buttons
        },
        InputEvent::PointerButton { button: PointerButton::Middle, pressed } => PointerButtons {
            middle: pressed,
            ..buttons
        },
        InputEvent::PointerButton { button: PointerButton::Secondary, pressed } => PointerButtons {
            secondary: pressed,
            ..buttons
        },
        InputEvent::ReleaseAll => PointerButtons {
            primary: false,
            middle: false,
            secondary: false,
        },
        _ => buttons,
    }
}

/// The buttons that are down behind events.
pub open spec fn pressed_after_all(buttons: PointerButtons, events: Seq<InputEvent>) -> PointerButtons
    decreases events.len(),
{
    if events.len() == 0 {
        buttons
    } else {
        pressed_after(pressed_after_all(buttons, events.drop_last()), events.last())
    }
}

proof fn lemma_pressed_append(buttons: PointerButtons, front: Seq<InputEvent>, back: Seq<InputEvent>)
    requires
        back.len() <= 1,
    ensures
        pressed_after_all(buttons, front + back) == (if back.len() == 0 {
            pressed_after_all(buttons, front)
        } else {
            pressed_after(pressed_after_all(buttons, front), back[0])
        }),
{
    if back.len() == 0 {
        assert(front + back =~= front);
    } else {
        assert((front + back).drop_last() =~= front);
    }
}

/// Behind the events of a sample, the session has the buttons of the sample down and no others.
pub proof fn law_events_lead_to_the_sample(sample: PointerSample, previous: PointerButtons)
    ensures
        pressed_after_all(previous, sample_events(sample, previous)) == sample.buttons,
{
    let none = Seq::<InputEvent>::empty();
    let first = seq![InputEvent::PointerMove { x: sample.x, y: sample.y }];
    let primary = button_events(
        PointerButton::Primary,
        previous.primary,
        sample.buttons.primary,
    );
    let middle = button_events(PointerButton::Middle, previous.middle, sample.buttons.middle);
    let secondary = button_events(
        PointerButton::Secondary,
        previous.secondary,
        sample.buttons.secondary,
    );
    let wheel = wheel_events(sample.wheel_horizontal, sample.wheel_vertical);
    assert(none + first =~= first);
    lemma_pressed_append(previous, none, first);
    lemma_pressed_append(previous, first, primary);
    lemma_pressed_append(previous, first + primary, middle);
    lemma_pressed_append(previous, first + primary + middle, secondary);
    lemma_pressed_append(previous, first + primary + middle + secondary, wheel);
}

/// Whether a session is told of a window of another size: once there is a surface, where the
/// session may change its size.
pub fn viewport_changed(
    generation: u64,
    dynamic_resolution: bool,
    size: (usize, usize),
    last: (usize, usize),
) -> (r: bool)
    ensures
        r == (generation != 0 && dynamic_resolution && size != last),
{
    generation != 0 && dynamic_resolution && (size.0 != last.0 || size.1 != last.1)
}

/// Whether all buttons are released when the viewer ends.
pub fn releases_at_end(generation: u64, previous: &PointerButtons) -> (r: bool)
    ensures
        r == (generation != 0 && (previous.primary || previous.middle || previous.secondary)),
{
    generation != 0 && previous.any_pressed()
}

/// Whether samples of this rate and so many channels are played.
pub fn is_playable_pcm(sample_rate_hz: u32, channels: u16) -> (r: bool)
    ensures
        r == (sample_rate_hz == 48_000 && channels == 2),
{
    sample_rate_hz == 48_000 && channels == 2
}

/// How the worker of a session ended.
#[derive(Debug, PartialEq, Eq)]
pub enum WorkerExit {
    Closed,
    /// The session failed, with this code.
    Failed(String),
    Panicked,
}

/// How a viewer ends: with what failed in its window, or else with what failed in its session.
pub fn viewer_result(window: Result<(), VncError>, worker: WorkerExit) -> (r: Result<(), VncError>)
    ensures
        match (window, worker) {
            (Err(e), _) => r == Err::<(), VncError>(e),
            (Ok(_), WorkerExit::Closed) => r is Ok,
            (Ok(_), WorkerExit::Failed(code)) => r matches Err(VncError::Said { before, said, after })
                && before@ == "Apple adapter 已失败: "@ && said == code && after@ == ""@,
            (Ok(_), WorkerExit::Panicked) => r == Err::<(), VncError>(
                VncError::Text("Apple adapter worker 异常退出"),
            ),
        },
{
    match window {
        Err(e) => Err(e),
        Ok(()) => match worker {
            WorkerExit::Closed => Ok(()),
            WorkerExit::Failed(code) => Err(
                VncError::Said { before: "Apple adapter 已失败: ", said: code, after: "" },
            ),
            WorkerExit::Panicked => Err(VncError::Text("Apple adapter worker 异常退出")),
        },
    }
}

/// A window shows the surface row by row and column by column: a place of the content shows the
/// place of the surface that is as far along, and everything around the content is black.
pub proof fn law_window_shows_the_surface(
    surface: SurfaceView,
    content: ContentRect,
    width: int,
    height: int,
    row: int,
    column: int,
    source_row: int,
    source_column: int,
)
    requires
        within_drawable(content, width, height),
        0 <= row < height,
        0 <= column < width,
    ensures
        ({
            let shown = rendered(surface, content, width, height)[row * width + column];
            let down = row - content.y;
            let across = column - content.x;
            let inside = 0 <= down < content.height && 0 <= across < content.width;
            &&& !inside ==> shown == 0
            &&& inside && source_row * content.height <= down * surface.height < (source_row + 1)
                * content.height && source_column * content.width <= across * surface.width < (
            source_column + 1) * content.width ==> shown == surface.pixels[source_row
                * surface.width + source_column]
        }),
        rendered(surface, content, width, height).len() == width * height,
{
    lemma_place(row, column, width);
    assert(row * width + column < width * height && width * height >= 0) by (nonlinear_arith)
        requires
            0 <= row < height,
            0 <= column < width,
    ;
    let down = row - content.y;
    let across = column - content.x;
    let (h, w) = (content.height as int, content.width as int);
    let d = down * surface.height;
    let a = across * surface.width;
    if source_row * h <= d < (source_row + 1) * h {
        assert(d / h == source_row) by {
            let rest = d - source_row * h;
            assert((source_row + 1) * h == source_row * h + h) by (nonlinear_arith);
            vstd::arithmetic::div_mod::lemma_fundamental_div_mod_converse(d, h, source_row, rest);
        }
    }
    if source_column * w <= a < (source_column + 1) * w {
        assert(a / w == source_column) by {
            let rest = a - source_column * w;
            assert((source_column + 1) * w == source_column * w + w) by (nonlinear_arith);
            vstd::arithmetic::div_mod::lemma_fundamental_div_mod_converse(
                a,
                w,
                source_column,
                rest,
            );
        }
    }
}

/// Where the content has the size of the surface, the window shows it unchanged.
pub proof fn law_same_size_is_shown_unchanged(
    surface: SurfaceView,
    content: ContentRect,
    width: int,
    height: int,
    row: int,
    column: int,
)
    requires
        within_drawable(content, width, height),
        surface.width == content.width,
        surface.height == content.height,
        0 <= row < surface.height,
        0 <= column < surface.width,
    ensures
        rendered(surface, content, width, height)[(content.y + row) * width + content.x + column]
            == surface.pixels[row * surface.width + column],
{
    assert(row * surface.height < (row + 1) * surface.height && column * surface.width < (column
        + 1) * surface.width) by (nonlinear_arith)
        requires
            surface.height > 0,
            surface.width > 0,
    ;
    law_window_shows_the_surface(
        surface,
        content,
        width,
        height,
        content.y + row,
        content.x + column,
        row,
        column,
    );
}

/// A part of a surface replaces what it covers and nothing else: the pixel at a place of the part
/// has the red, the green and the blue of its four bytes, which are told in the opposite order.
pub proof fn law_patch_replaces_what_it_covers(
    surface: SurfaceView,
    patch: PatchView,
    row: int,
    column: int,
)
    requires
        0 <= row < surface.height,
        0 <= column < surface.width,
        surface.pixels.len() == surface.width * surface.height,
    ensures
        ({
            let after = patched(surface, patch);
            let at = row * surface.width + column;
            let bytes = (row - patch.y) * patch.stride + (column - patch.x) * 4;
            let inside = 0 <= row - patch.y < patch.height && 0 <= column - patch.x < patch.width;
            &&& after.width == surface.width
            &&& after.height == surface.height
            &&& after.pixels.len() == surface.pixels.len()
            &&& !inside ==> after.pixels[at] == surface.pixels[at]
            &&& inside ==> {
                &&& after.pixels[at] as int / 0x1_0000 == patch.bytes[bytes + 2]
                &&& after.pixels[at] as int / 0x100 % 0x100 == patch.bytes[bytes + 1]
                &&& after.pixels[at] as int % 0x100 == patch.bytes[bytes]
            }
        }),
{
    lemma_place(row, column, surface.width);
    assert(row * surface.width + column < surface.width * surface.height) by (nonlinear_arith)
        requires
            0 <= row < surface.height,
            0 <= column < surface.width,
    ;
}

/// The last part that covers a place is the one that is seen there.
pub proof fn law_last_patch_is_seen(surface: SurfaceView, patches: Seq<SurfacePatch>, i: int)
    requires
        patches.len() > 0,
        0 <= i < surface.pixels.len(),
    ensures
        ({
            let after = patched_all(surface, patches).pixels[i];
            let before = patched_all(surface, patches.drop_last());
            &&& covers(patches.last()@, i / surface.width, i % surface.width) ==> after == patched(
                surface,
                patches.last()@,
            ).pixels[i]
            &&& !covers(patches.last()@, i / surface.width, i % surface.width) ==> after
                == before.pixels[i]
        }),
{
    lemma_patched_all_size(surface, patches.drop_last());
}

proof fn lemma_patched_all_size(surface: SurfaceView, patches: Seq<SurfacePatch>)
    ensures
        patched_all(surface, patches).width == surface.width,
        patched_all(surface, patches).height == surface.height,
        patched_all(surface, patches).pixels.len() == surface.pixels.len(),
    decreases patches.len(),
{
    if patches.len() > 0 {
        lemma_patched_all_size(surface, patches.drop_last());
    }
}

/// The place where the pointer is behind events, of which the first says where it moved.
pub open spec fn place_after_all(events: Seq<InputEvent>) -> Option<(u16, u16)>
    decreases events.len(),
{
    if events.len() == 0 {
        None
    } else {
        match events.last() {
            InputEvent::PointerMove { x, y } => Some((x, y)),
            _ => place_after_all(events.drop_last()),
        }
    }
}

/// How far events turn the wheel, to the side and up.
pub open spec fn turned_by_all(events: Seq<InputEvent>) -> (int, int)
    decreases events.len(),
{
    if events.len() == 0 {
        (0, 0)
    } else {
        let before = turned_by_all(events.drop_last());
        match events.last() {
            InputEvent::Wheel { horizontal, vertical } => (
                before.0 + horizontal,
                before.1 + vertical,
            ),
            _ => before,
        }
    }
}

proof fn lemma_told_append(front: Seq<InputEvent>, back: Seq<InputEvent>)
    requires
        back.len() <= 1,
        back.len() == 1 ==> !(back[0] is PointerMove),
    ensures
        place_after_all(front + back) == place_after_all(front),
        turned_by_all(front + back) == (if back.len() == 1 && back[0] is Wheel {
            (
                turned_by_all(front).0 + back[0]->horizontal,
                turned_by_all(front).1 + back[0]->vertical,
            )
        } else {
            turned_by_all(front)
        }),
{
    if back.len() == 0 {
        assert(front + back =~= front);
    } else {
        assert((front + back).drop_last() =~= front);
    }
}

/// Behind the events of a sample, the session has the pointer where the sample says, told before
/// anything else, and the wheel turned as far as it says; and it is told of no button twice.
pub proof fn law_events_tell_place_and_wheel(sample: PointerSample, previous: PointerButtons)
    ensures
        ({
            let events = sample_events(sample, previous);
            &&& events[0] == (InputEvent::PointerMove { x: sample.x, y: sample.y })
            &&& place_after_all(events) == Some((sample.x, sample.y))
            &&& turned_by_all(events) == (
                sample.wheel_horizontal as int,
                sample.wheel_vertical as int,
            )
            &&& events.len() <= 5
            &&& sample.buttons == previous && sample.wheel_horizontal == 0 && sample.wheel_vertical
                == 0 ==> events.len() == 1
        }),
{
    let none = Seq::<InputEvent>::empty();
    let first = seq![InputEvent::PointerMove { x: sample.x, y: sample.y }];
    let primary = button_events(
        PointerButton::Primary,
        previous.primary,
        sample.buttons.primary,
    );
    let middle = button_events(PointerButton::Middle, previous.middle, sample.buttons.middle);
    let secondary = button_events(
        PointerButton::Secondary,
        previous.secondary,
        sample.buttons.secondary,
    );
    let wheel = wheel_events(sample.wheel_horizontal, sample.wheel_vertical);
    assert(first.drop_last() =~= none);
    assert(turned_by_all(none) == (0int, 0int));
    assert(turned_by_all(first) == turned_by_all(none));
    lemma_told_append(first, primary);
    lemma_told_append(first + primary, middle);
    lemma_told_append(first + primary + middle, secondary);
    lemma_told_append(first + primary + middle + secondary, wheel);
}

} // verus!
