use frd_vnc::error::VncError;
use frd_vnc::framebuffer::{validate_framebuffer_geometry, Framebuffer};
use frd_vnc::hpss_viewer::{
    apply_patch, apply_surface_update, content_fits, is_playable_pcm, patch_fits, pointer_events,
    releases_at_end, render_nearest, viewer_result, viewport_changed, ContentRect, InputEvent,
    PointerButton, PointerButtons, PointerSample, SurfacePatch, SurfaceUpdate,
    WorkerExit,
};

fn patch(x: u32, y: u32, width: u32, height: u32, stride_bytes: u32, pixels: Vec<u8>) -> SurfacePatch {
    SurfacePatch { x, y, width, height, stride_bytes, pixels }
}

const RELEASED: PointerButtons = PointerButtons { primary: false, middle: false, secondary: false };

#[test]
fn patches_are_painted_where_they_lie() {
    let mut framebuffer = Framebuffer::new(3, 2).unwrap();
    let part = patch(1, 0, 2, 2, 12, (0u8..20).collect());
    assert!(patch_fits(&part, &framebuffer));
    apply_patch(&mut framebuffer, &part);
    assert_eq!(
        framebuffer.pixels,
        [0, 0x02_01_00, 0x06_05_04, 0, 0x0e_0d_0c, 0x12_11_10]
    );
}

#[test]
fn patches_past_the_surface_or_their_bytes_do_not_fit() {
    let framebuffer = Framebuffer::new(3, 2).unwrap();
    assert!(!patch_fits(&patch(2, 0, 2, 1, 8, vec![0; 8]), &framebuffer));
    assert!(!patch_fits(&patch(0, 1, 1, 2, 4, vec![0; 8]), &framebuffer));
    assert!(!patch_fits(&patch(0, 0, 1, 2, 8, vec![0; 11]), &framebuffer));
    assert!(patch_fits(&patch(0, 0, 1, 2, 8, vec![0; 12]), &framebuffer));
    assert!(!patch_fits(&patch(u32::MAX, 0, u32::MAX, 1, 8, vec![0; 8]), &framebuffer));
}

#[test]
fn updates_of_another_generation_change_nothing() {
    let mut framebuffer = Framebuffer::new(1, 1).unwrap();
    let mut generation = 0;
    let reset = |generation, bgrx| SurfaceUpdate::Reset { generation, width: 2, height: 1, bgrx };
    apply_surface_update(&mut framebuffer, &mut generation, &reset(7, true)).unwrap();
    assert_eq!((framebuffer.width, framebuffer.height, generation), (2, 1, 7));

    let damage = |generation| SurfaceUpdate::Damage {
        generation,
        patches: vec![
            patch(0, 0, 2, 1, 8, vec![1, 0, 0, 9, 2, 0, 0, 9]),
            patch(1, 0, 1, 1, 4, vec![3, 0, 0, 0]),
        ],
    };
    apply_surface_update(&mut framebuffer, &mut generation, &damage(6)).unwrap();
    assert_eq!(framebuffer.pixels, [0, 0]);
    apply_surface_update(&mut framebuffer, &mut generation, &damage(7)).unwrap();
    assert_eq!(framebuffer.pixels, [1, 3]);
    apply_surface_update(
        &mut framebuffer,
        &mut generation,
        &SurfaceUpdate::FrameBoundary { generation: 7 },
    )
    .unwrap();
    assert_eq!(
        apply_surface_update(&mut framebuffer, &mut generation, &reset(8, false))
            .unwrap_err()
            .message(),
        "legacy HPSS viewer only accepts BGRX surfaces"
    );
    assert_eq!((framebuffer.width, generation), (2, 7));
    let empty = SurfaceUpdate::Reset { generation: 9, width: 0, height: 1, bgrx: true };
    assert!(apply_surface_update(&mut framebuffer, &mut generation, &empty).is_err());
}

#[test]
fn surfaces_have_limits() {
    assert!(validate_framebuffer_geometry(1, 1).is_ok());
    assert!(validate_framebuffer_geometry(0, 1).is_err());
    assert!(validate_framebuffer_geometry(1, 0).is_err());
    assert!(validate_framebuffer_geometry(usize::MAX, usize::MAX).is_err());
}

#[test]
fn a_surface_is_drawn_only_inside_its_window() {
    let content = |x, y, width, height| ContentRect { x, y, width, height };
    assert!(content_fits(content(1, 1, 4, 1), 6, 3));
    assert!(content_fits(content(0, 0, 6, 3), 6, 3));
    assert!(!content_fits(content(3, 0, 4, 1), 6, 3));
    assert!(!content_fits(content(0, 2, 1, 2), 6, 3));
    assert!(!content_fits(content(0, 0, 0, 1), 6, 3));
    assert!(!content_fits(content(u32::MAX, 0, 1, 1), 6, 3));
    assert!(!content_fits(content(0, 0, 1, 1), usize::MAX, 2));
}

#[test]
fn each_place_shows_the_nearest_pixel() {
    let mut framebuffer = Framebuffer::new(2, 1).unwrap();
    framebuffer.pixels = vec![5, 6];
    let content = ContentRect { x: 1, y: 1, width: 4, height: 1 };
    assert_eq!(
        render_nearest(&framebuffer, 6, 3, content),
        [0, 0, 0, 0, 0, 0, 0, 5, 5, 6, 6, 0, 0, 0, 0, 0, 0, 0]
    );
}

#[test]
fn the_session_learns_what_changed_of_the_pointer() {
    let mut previous = RELEASED;
    let sample = PointerSample {
        x: 3,
        y: 4,
        buttons: PointerButtons { primary: true, middle: false, secondary: true },
        wheel_horizontal: 0,
        wheel_vertical: -1,
    };
    assert_eq!(
        pointer_events(&sample, &mut previous),
        [
            InputEvent::PointerMove { x: 3, y: 4 },
            InputEvent::PointerButton { button: PointerButton::Primary, pressed: true },
            InputEvent::PointerButton { button: PointerButton::Secondary, pressed: true },
            InputEvent::Wheel { horizontal: 0, vertical: -1 },
        ]
    );
    assert_eq!(previous, sample.buttons);
    let released = PointerSample { buttons: RELEASED, wheel_vertical: 0, ..sample };
    assert_eq!(
        pointer_events(&released, &mut previous)[1..],
        [
            InputEvent::PointerButton { button: PointerButton::Primary, pressed: false },
            InputEvent::PointerButton { button: PointerButton::Secondary, pressed: false },
        ]
    );
    assert!(releases_at_end(1, &sample.buttons));
    assert!(!releases_at_end(0, &sample.buttons));
    assert!(!releases_at_end(1, &previous));
}

#[test]
fn a_viewer_ends_with_what_failed_first() {
    assert!(viewer_result(Ok(()), WorkerExit::Closed).is_ok());
    assert_eq!(
        viewer_result(Err(VncError::Text("window")), WorkerExit::Panicked).unwrap_err().message(),
        "window"
    );
    assert_eq!(
        viewer_result(Ok(()), WorkerExit::Failed("code".to_string())).unwrap_err().message(),
        "Apple adapter 已失败: code"
    );
    assert!(viewer_result(Ok(()), WorkerExit::Panicked).is_err());
    assert!(viewport_changed(1, true, (1, 2), (1, 3)));
    assert!(!viewport_changed(0, true, (1, 2), (1, 3)));
    assert!(!viewport_changed(1, false, (1, 2), (1, 3)));
    assert!(!viewport_changed(1, true, (1, 2), (1, 2)));
    assert!(is_playable_pcm(48_000, 2));
    assert!(!is_playable_pcm(48_000, 1));
}
