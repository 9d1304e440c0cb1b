use gif_engine::decoder::load_animation;
use gif_engine::types::AnimError;

/// Encodes an animated PNG in memory: full-canvas RGBA frames with the given
/// delay fractions and per-frame control, over a `width` by `height` canvas.
fn encode_apng(
    width: u32,
    height: u32,
    frames: &[(Vec<u8>, u16, u16, png::DisposeOp, png::BlendOp)],
) -> Vec<u8> {
    let mut out: Vec<u8> = Vec::new();
    {
        let mut enc = png::Encoder::new(&mut out, width, height);
        enc.set_color(png::ColorType::Rgba);
        enc.set_depth(png::BitDepth::Eight);
        enc.set_animated(frames.len() as u32, 0).unwrap();
        let mut writer = enc.write_header().unwrap();
        for (data, num, den, dispose, blend) in frames {
            writer.set_frame_delay(*num, *den).unwrap();
            writer.set_dispose_op(*dispose).unwrap();
            writer.set_blend_op(*blend).unwrap();
            writer.write_image_data(data).unwrap();
        }
        writer.finish().unwrap();
    }
    out
}

/// Encodes a plain, non-animated RGBA PNG in memory.
fn encode_plain_png(width: u32, height: u32, data: &[u8]) -> Vec<u8> {
    let mut out: Vec<u8> = Vec::new();
    {
        let mut enc = png::Encoder::new(&mut out, width, height);
        enc.set_color(png::ColorType::Rgba);
        enc.set_depth(png::BitDepth::Eight);
        let mut writer = enc.write_header().unwrap();
        writer.write_image_data(data).unwrap();
        writer.finish().unwrap();
    }
    out
}

/// Encodes a GIF in memory from full-canvas RGBA frames, all with the same
/// delay in milliseconds.
fn encode_gif(width: u32, height: u32, frames: &[Vec<u8>], delay_ms: u32) -> Vec<u8> {
    let mut out: Vec<u8> = Vec::new();
    {
        let mut enc = image::codecs::gif::GifEncoder::new(&mut out);
        enc.set_repeat(image::codecs::gif::Repeat::Infinite).unwrap();
        for data in frames {
            let buffer = image::RgbaImage::from_raw(width, height, data.clone()).unwrap();
            let frame = image::Frame::from_parts(
                buffer,
                0,
                0,
                image::Delay::from_numer_denom_ms(delay_ms, 1),
            );
            enc.encode_frame(frame).unwrap();
        }
    }
    out
}

fn solid(width: u32, height: u32, rgba: [u8; 4]) -> Vec<u8> {
    let mut v = Vec::new();
    for _ in 0..(width * height) {
        v.extend_from_slice(&rgba);
    }
    v
}

#[test]
fn apng_two_frames_counts_and_duration() {
    let f1 = solid(2, 2, [255, 0, 0, 255]);
    let f2 = solid(2, 2, [0, 255, 0, 255]);
    let data = encode_apng(
        2,
        2,
        &[
            (f1, 1, 10, png::DisposeOp::None, png::BlendOp::Source),
            (f2, 1, 4, png::DisposeOp::None, png::BlendOp::Source),
        ],
    );
    let (info, frames) = load_animation("anim.png", data).unwrap();
    assert_eq!(info.frame_count, 2);
    assert_eq!(frames.len(), 2);
    assert_eq!(info.width, 2);
    assert_eq!(info.height, 2);
    assert_eq!(frames[0].delay, 100_000_000);
    assert_eq!(frames[1].delay, 250_000_000);
    assert_eq!(info.duration, 350_000_000);
    assert_eq!(frames[0].buffer, solid(2, 2, [255, 0, 0, 255]));
    assert_eq!(frames[1].buffer, solid(2, 2, [0, 255, 0, 255]));
}

#[test]
fn apng_zero_delay_denominator_means_hundredths() {
    let f1 = solid(1, 1, [1, 2, 3, 255]);
    let data = encode_apng(1, 1, &[(f1, 10, 0, png::DisposeOp::None, png::BlendOp::Source)]);
    let (info, frames) = load_animation("t.apng", data).unwrap();
    // delay_num=10 with delay_den=0 reads as 10/100 s, not a division error.
    assert_eq!(frames[0].delay, 100_000_000);
    assert_eq!(info.duration, 100_000_000);
}

#[test]
fn apng_subrectangle_frame_is_composited_in_place() {
    let f1 = vec![
        255, 0, 0, 255, // red
        0, 0, 255, 255, // blue
    ];
    let mut data = Vec::new();
    {
        let mut enc = png::Encoder::new(&mut data, 2, 1);
        enc.set_color(png::ColorType::Rgba);
        enc.set_depth(png::BitDepth::Eight);
        enc.set_animated(2, 0).unwrap();
        let mut writer = enc.write_header().unwrap();
        writer.set_frame_delay(1, 100).unwrap();
        writer.write_image_data(&f1).unwrap();
        // Second frame: a 1x1 green region at (1, 0), overwriting the blue.
        writer.set_frame_delay(1, 100).unwrap();
        writer.set_frame_dimension(1, 1).unwrap();
        writer.set_frame_position(1, 0).unwrap();
        writer.set_blend_op(png::BlendOp::Source).unwrap();
        writer.write_image_data(&[0, 255, 0, 255]).unwrap();
        writer.finish().unwrap();
    }
    let (_, frames) = load_animation("sub.png", data).unwrap();
    assert_eq!(frames.len(), 2);
    assert_eq!(frames[0].buffer, vec![255, 0, 0, 255, 0, 0, 255, 255]);
    assert_eq!(frames[1].buffer, vec![255, 0, 0, 255, 0, 255, 0, 255]);
}

#[test]
fn apng_over_blend_half_alpha_through_file() {
    let f1 = solid(1, 1, [0, 0, 0, 255]);
    let f2 = solid(1, 1, [255, 255, 255, 128]);
    let data = encode_apng(
        1,
        1,
        &[
            (f1, 1, 100, png::DisposeOp::None, png::BlendOp::Source),
            (f2, 1, 100, png::DisposeOp::None, png::BlendOp::Over),
        ],
    );
    let (_, frames) = load_animation("blend.png", data).unwrap();
    let px = &frames[1].buffer;
    assert_eq!(px[3], 255);
    for k in 0..3 {
        assert!(127 <= px[k] && px[k] <= 129, "channel {} was {}", k, px[k]);
    }
}

#[test]
fn apng_separate_default_image_is_skipped() {
    // The leading image carries no frame-control chunk, so it is a separate
    // default image (a thumbnail for decoders unaware of animation) and not
    // part of the animation. Decoding yields exactly the two declared
    // frames; no pixel of the default image appears.
    let mut data = Vec::new();
    {
        let mut enc = png::Encoder::new(&mut data, 2, 1);
        enc.set_color(png::ColorType::Rgba);
        enc.set_depth(png::BitDepth::Eight);
        enc.set_animated(2, 0).unwrap();
        enc.set_sep_def_img(true).unwrap();
        let mut writer = enc.write_header().unwrap();
        writer.write_image_data(&[9, 9, 9, 255, 9, 9, 9, 255]).unwrap();
        // First animation frame: full canvas, red then blue.
        writer.set_frame_delay(1, 10).unwrap();
        writer.write_image_data(&[255, 0, 0, 255, 0, 0, 255, 255]).unwrap();
        // Second animation frame: a 1x1 green region at (1, 0).
        writer.set_frame_delay(1, 4).unwrap();
        writer.set_frame_dimension(1, 1).unwrap();
        writer.set_frame_position(1, 0).unwrap();
        writer.write_image_data(&[0, 255, 0, 255]).unwrap();
        writer.finish().unwrap();
    }
    let (info, frames) = load_animation("sep.png", data).unwrap();
    assert_eq!(info.frame_count, 2);
    assert_eq!(frames.len(), 2);
    assert_eq!(frames[0].buffer, vec![255, 0, 0, 255, 0, 0, 255, 255]);
    assert_eq!(frames[1].buffer, vec![255, 0, 0, 255, 0, 255, 0, 255]);
    assert_eq!(frames[0].delay, 100_000_000);
    assert_eq!(frames[1].delay, 250_000_000);
    assert_eq!(info.duration, 350_000_000);
}

#[test]
fn plain_png_is_not_animated() {
    let data = encode_plain_png(2, 2, &solid(2, 2, [9, 9, 9, 255]));
    let err = load_animation("still.png", data).unwrap_err();
    assert_eq!(err, AnimError::NotAnimated);
}

#[test]
fn bmp_extension_is_unsupported() {
    let err = load_animation("picture.bmp", vec![0, 1, 2, 3]).unwrap_err();
    assert_eq!(err, AnimError::UnsupportedFormat);
}

#[test]
fn extensionless_path_is_unsupported() {
    let err = load_animation("no_extension", vec![0, 1, 2, 3]).unwrap_err();
    assert_eq!(err, AnimError::UnsupportedFormat);
}

#[test]
fn extension_dispatch_ignores_case_and_directories() {
    // A mangled stream under a GIF extension reaches the GIF decoder.
    let err = load_animation("dir.png/CLIP.GiF", vec![1, 2, 3]).unwrap_err();
    assert_eq!(err, AnimError::DecodeError);
    // A hidden file with no further dot has no extension.
    let err = load_animation("/tmp/.gif", vec![1, 2, 3]).unwrap_err();
    assert_eq!(err, AnimError::UnsupportedFormat);
}

#[test]
fn garbage_png_bytes_are_a_decode_error() {
    let err = load_animation("x.png", vec![137, 80, 78, 71, 0, 0]).unwrap_err();
    assert_eq!(err, AnimError::DecodeError);
}

#[test]
fn grayscale_apng_is_unsupported_color_type() {
    let mut data = Vec::new();
    {
        let mut enc = png::Encoder::new(&mut data, 2, 1);
        enc.set_color(png::ColorType::Grayscale);
        enc.set_depth(png::BitDepth::Eight);
        enc.set_animated(1, 0).unwrap();
        let mut writer = enc.write_header().unwrap();
        writer.set_frame_delay(1, 100).unwrap();
        writer.write_image_data(&[7, 8]).unwrap();
        writer.finish().unwrap();
    }
    let err = load_animation("gray.png", data).unwrap_err();
    assert_eq!(err, AnimError::UnsupportedColorType);
}

#[test]
fn gif_frames_and_duration() {
    let f1 = solid(4, 3, [255, 0, 0, 255]);
    let f2 = solid(4, 3, [0, 255, 0, 255]);
    let data = encode_gif(4, 3, &[f1.clone(), f2.clone()], 100);
    let (info, frames) = load_animation("clip.gif", data).unwrap();
    assert_eq!(info.frame_count, 2);
    assert_eq!(info.width, 4);
    assert_eq!(info.height, 3);
    assert_eq!(frames[0].delay, 100_000_000);
    assert_eq!(frames[1].delay, 100_000_000);
    assert_eq!(info.duration, 200_000_000);
    assert_eq!(frames[0].buffer, f1);
    assert_eq!(frames[1].buffer, f2);
}

#[test]
fn frameless_gif_is_rejected() {
    // A GIF stream holding only the header, a 1x1 logical screen with its
    // palette, and the trailer: the codec refuses it outright.
    let mut data: Vec<u8> = Vec::new();
    data.extend_from_slice(b"GIF89a");
    data.extend_from_slice(&[1, 0, 1, 0, 0x80, 0, 0]);
    data.extend_from_slice(&[0, 0, 0, 255, 255, 255]);
    data.push(0x3B);
    let err = load_animation("empty.gif", data).unwrap_err();
    assert_eq!(err, AnimError::DecodeError);
}

#[test]
fn error_descriptions_name_each_failure() {
    assert_eq!(AnimError::UnsupportedFormat.describe(), "unsupported file format");
    assert_eq!(AnimError::NotAnimated.describe(), "not an animated PNG file");
    assert_eq!(AnimError::NoFrames.describe(), "no frames found in animation");
    assert_eq!(AnimError::UnsupportedColorType.describe(), "unsupported color type");
    assert_eq!(AnimError::IoError.describe(), "failed to read file");
    assert_eq!(AnimError::DecodeError.describe(), "malformed animation stream");
}

