use gif_engine::compose::{blend_pixel_over, blend_region, clear_region, convert_to_rgba, Compositor};
use gif_engine::types::{AnimError, BlendMode, ColorKind, DisposalMode, FrameControl};

fn ctrl(
    x: u32,
    y: u32,
    w: u32,
    h: u32,
    dispose: DisposalMode,
    blend: BlendMode,
) -> FrameControl {
    FrameControl {
        width: w,
        height: h,
        x_offset: x,
        y_offset: y,
        delay_num: 1,
        delay_den: 100,
        dispose_op: dispose,
        blend_op: blend,
    }
}

fn solid(w: u32, h: u32, rgba: [u8; 4]) -> Vec<u8> {
    let mut v = Vec::new();
    for _ in 0..(w * h) {
        v.extend_from_slice(&rgba);
    }
    v
}

#[test]
fn over_blend_half_alpha_pixel() {
    // Destination (0,0,0,255) under source (255,255,255,128): alpha saturates
    // and each colour lands on 128, give or take integer truncation.
    let (r, g, b, a) = blend_pixel_over(255, 255, 255, 128, 0, 0, 0, 255);
    assert_eq!(a, 255);
    for c in [r, g, b] {
        assert!(127 <= c && c <= 129, "channel was {}", c);
    }
}

#[test]
fn over_blend_short_cuts() {
    // A fully transparent source leaves the destination untouched.
    assert_eq!(blend_pixel_over(9, 9, 9, 0, 1, 2, 3, 4), (1, 2, 3, 4));
    // A fully opaque source replaces the destination outright.
    assert_eq!(blend_pixel_over(9, 8, 7, 255, 1, 2, 3, 4), (9, 8, 7, 255));
}

#[test]
fn background_disposal_then_covering_source_leaves_no_residue() {
    let mut comp = Compositor::new(2, 2);
    // Frame 1: opaque red over the whole canvas, to be disposed to background.
    let red = solid(2, 2, [255, 0, 0, 255]);
    comp.step(ctrl(0, 0, 2, 2, DisposalMode::Background, BlendMode::Source), &red);
    // Frame 2: an opaque green source frame covering the same region.
    let green = solid(2, 2, [0, 255, 0, 255]);
    let f2 = comp.step(ctrl(0, 0, 2, 2, DisposalMode::Keep, BlendMode::Source), &green);
    assert_eq!(f2.buffer, green);
    // Even an all-transparent Over frame after the disposal shows no red:
    // the region was cleared before it was composited.
    let mut comp2 = Compositor::new(2, 2);
    comp2.step(ctrl(0, 0, 2, 2, DisposalMode::Background, BlendMode::Source), &red);
    let clear = solid(2, 2, [0, 0, 0, 0]);
    let f2b = comp2.step(ctrl(0, 0, 2, 2, DisposalMode::Keep, BlendMode::Over), &clear);
    assert_eq!(f2b.buffer, clear);
}

#[test]
fn previous_disposal_restores_canvas_before_edit() {
    let mut comp = Compositor::new(2, 1);
    // Frame A: full-canvas source.
    let a = vec![255, 0, 0, 255, 0, 0, 255, 255];
    let fa = comp.step(ctrl(0, 0, 2, 1, DisposalMode::Keep, BlendMode::Source), &a);
    // Frame B: a sub-rectangle edit whose own disposal is Previous.
    let b = vec![0, 255, 0, 255];
    let fb = comp.step(ctrl(1, 0, 1, 1, DisposalMode::Previous, BlendMode::Source), &b);
    assert_eq!(fb.buffer, vec![255, 0, 0, 255, 0, 255, 0, 255]);
    // Frame C composites onto the canvas as it was before B's edit: an
    // all-transparent Over frame exposes exactly frame A's canvas.
    let c = solid(2, 1, [0, 0, 0, 0]);
    let fc = comp.step(ctrl(0, 0, 2, 1, DisposalMode::Keep, BlendMode::Over), &c);
    assert_eq!(fc.buffer, fa.buffer);
}

#[test]
fn keep_disposal_accumulates_edits() {
    let mut comp = Compositor::new(2, 1);
    let a = vec![255, 0, 0, 255, 0, 0, 255, 255];
    comp.step(ctrl(0, 0, 2, 1, DisposalMode::Keep, BlendMode::Source), &a);
    let b = vec![0, 255, 0, 255];
    comp.step(ctrl(1, 0, 1, 1, DisposalMode::Keep, BlendMode::Source), &b);
    // With Keep disposal, B's edit stays under frame C.
    let c = solid(2, 1, [0, 0, 0, 0]);
    let fc = comp.step(ctrl(0, 0, 2, 1, DisposalMode::Keep, BlendMode::Over), &c);
    assert_eq!(fc.buffer, vec![255, 0, 0, 255, 0, 255, 0, 255]);
}

#[test]
fn step_emits_frame_delay_from_control() {
    let mut comp = Compositor::new(1, 1);
    let px = solid(1, 1, [1, 1, 1, 255]);
    let mut fc = ctrl(0, 0, 1, 1, DisposalMode::Keep, BlendMode::Source);
    fc.delay_num = 3;
    fc.delay_den = 2;
    let frame = comp.step(fc, &px);
    assert_eq!(frame.delay, 1_500_000_000);
    assert_eq!(frame.width, 1);
    assert_eq!(frame.height, 1);
}

#[test]
fn clear_region_zeroes_exactly_the_region() {
    // A 2x2 canvas of opaque white; clear the right column.
    let mut canvas = solid(2, 2, [255, 255, 255, 255]);
    clear_region(&mut canvas, 2, 1, 0, 1, 2);
    assert_eq!(
        canvas,
        vec![
            255, 255, 255, 255, 0, 0, 0, 0, //
            255, 255, 255, 255, 0, 0, 0, 0,
        ]
    );
}

#[test]
fn clear_region_clips_out_of_bounds_rows() {
    let mut canvas = solid(1, 1, [255, 255, 255, 255]);
    let before = canvas.clone();
    // A region claiming to start past the canvas is clipped away entirely.
    clear_region(&mut canvas, 1, 0, 5, 1, 1);
    assert_eq!(canvas, before);
}

#[test]
fn clear_region_clips_columns_at_canvas_edge() {
    // A 2x2 canvas; the region claims two columns starting at x = 1, so it
    // overhangs the right edge. Only pixel (1, 0) is cleared: pixel (0, 1)
    // of the next row keeps its bytes.
    let mut canvas = solid(2, 2, [255, 255, 255, 255]);
    clear_region(&mut canvas, 2, 1, 0, 2, 1);
    assert_eq!(
        canvas,
        vec![
            255, 255, 255, 255, 0, 0, 0, 0, //
            255, 255, 255, 255, 255, 255, 255, 255,
        ]
    );
}

#[test]
fn blend_region_source_overwrites_subrectangle() {
    let mut canvas = solid(2, 2, [9, 9, 9, 9]);
    let src = vec![1, 2, 3, 4];
    blend_region(&mut canvas, 2, &src, 1, 1, 1, 1, BlendMode::Source);
    assert_eq!(
        canvas,
        vec![
            9, 9, 9, 9, 9, 9, 9, 9, //
            9, 9, 9, 9, 1, 2, 3, 4,
        ]
    );
}

#[test]
fn convert_passes_rgba_and_expands_rgb() {
    let rgba = vec![1, 2, 3, 4, 5, 6, 7, 8];
    assert_eq!(convert_to_rgba(&rgba, ColorKind::Rgba8).unwrap(), rgba);
    let rgb = vec![10, 20, 30, 40, 50, 60];
    assert_eq!(
        convert_to_rgba(&rgb, ColorKind::Rgb8).unwrap(),
        vec![10, 20, 30, 255, 40, 50, 60, 255]
    );
    assert_eq!(
        convert_to_rgba(&rgb, ColorKind::Other).unwrap_err(),
        AnimError::UnsupportedColorType
    );
    let ragged = vec![1, 2];
    assert_eq!(
        convert_to_rgba(&ragged, ColorKind::Rgb8).unwrap_err(),
        AnimError::DecodeError
    );
}
