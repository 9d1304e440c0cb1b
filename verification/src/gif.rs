use vstd::prelude::*;
use crate::types::{AnimationInfo, AnimError, Frame};
use crate::types::{gif_delay_nanos, gif_frame_delay, sum_delays};

verus! {

// ---------------------------------------------------------------------------
// Trusted surface over the `image` codec's animated-GIF decoder. The codec
// already composites GIF frames fully, so the loader only normalizes each
// decoded frame into the library's frame model. What the codec decodes is a
// function of the input bytes alone: one name stands for the decoded frame
// sequence, a second for the frames a holder carries, and every wrapper
// contract speaks over them, so the loader's own contract says exactly when
// decoding succeeds and what the frames then are.
// ---------------------------------------------------------------------------

/// One decoded GIF frame, as the specification sees it: the frame's buffer
/// dimensions, its delay as a ratio of milliseconds, and its RGBA bytes.
pub struct GifFrameView {
    /// Width of the frame's buffer in pixels.
    pub width: u32,
    /// Height of the frame's buffer in pixels.
    pub height: u32,
    /// Numerator of the frame delay in milliseconds.
    pub delay_num: u32,
    /// Denominator of the frame delay in milliseconds.
    pub delay_den: u32,
    /// The frame's RGBA bytes.
    pub pixels: Seq<u8>,
}

/// The frames the codec decodes from the bytes, in stream order: nothing
/// when the stream is malformed.
pub uninterp spec fn gif_frames_of(data: Seq<u8>) -> Option<Seq<GifFrameView>>;

/// The fully decoded frames of one GIF file. Verus cannot declare the
/// codec's frame type (its name collides with the library's own frame
/// type), so this holder is opaque and trusted.
#[verifier::external_body]
pub struct GifFrames {
    frames: Vec<image::Frame>,
}

/// The decoded frames a holder carries.
pub uninterp spec fn gif_held_frames(f: GifFrames) -> Seq<GifFrameView>;

/// One decoded GIF frame as plain values: its pixel buffer dimensions, its
/// delay as a ratio of milliseconds, and its RGBA bytes.
pub struct GifFramePart {
    /// Width of the frame's buffer in pixels.
    pub width: u32,
    /// Height of the frame's buffer in pixels.
    pub height: u32,
    /// Numerator of the frame delay in milliseconds.
    pub delay_num: u32,
    /// Denominator of the frame delay in milliseconds; never zero.
    pub delay_den: u32,
    /// The frame's RGBA bytes; at least 4 per pixel.
    pub pixels: Vec<u8>,
}

/// Relies on image::codecs::gif::GifDecoder::new over an in-memory cursor,
/// image::AnimationDecoder::into_frames and image::Frames::collect_frames:
/// decodes every frame of the GIF. The chain succeeds exactly when the
/// stream decodes, and the holder then carries the decoded frames.
#[verifier::external_body]
fn gif_decode(data: Vec<u8>) -> (r: Result<GifFrames, AnimError>)
    ensures
        r matches Ok(fs) ==> (gif_frames_of(data@) matches Some(v) && gif_held_frames(fs) == v),
        r matches Err(e) ==> e == AnimError::DecodeError && gif_frames_of(data@) is None,
{
    let decoder = match image::codecs::gif::GifDecoder::new(std::io::Cursor::new(data)) {
        Ok(d) => d,
        Err(_) => return Err(AnimError::DecodeError),
    };
    match image::AnimationDecoder::into_frames(decoder).collect_frames() {
        Ok(frames) => Ok(GifFrames { frames }),
        Err(_) => Err(AnimError::DecodeError),
    }
}

/// Relies on Vec::len: how many frames were decoded.
#[verifier::external_body]
fn gif_frame_count(f: &GifFrames) -> (n: usize)
    ensures
        n == gif_held_frames(*f).len(),
{
    f.frames.len()
}

/// Relies on image::Frame::buffer, image::Frame::delay,
/// image::Delay::numer_denom_ms and the codec's image-buffer invariant (a
/// buffer holds at least four bytes for each of `width * height` pixels,
/// and a delay ratio's denominator is never zero): copies the `i`-th
/// decoded frame out as plain values, exactly as the holder carries it.
#[verifier::external_body]
fn gif_frame_at(f: &GifFrames, i: usize) -> (r: Option<GifFramePart>)
    ensures
        i < gif_held_frames(*f).len() ==> r is Some,
        i >= gif_held_frames(*f).len() ==> r is None,
        r matches Some(p) ==> (i < gif_held_frames(*f).len() && p.width == gif_held_frames(
            *f,
        )[i as int].width && p.height == gif_held_frames(*f)[i as int].height && p.delay_num
            == gif_held_frames(*f)[i as int].delay_num && p.delay_den == gif_held_frames(
            *f,
        )[i as int].delay_den && p.pixels@ == gif_held_frames(*f)[i as int].pixels),
        r matches Some(p) ==> p.pixels@.len() >= 4 * p.width * p.height && 4 * p.width * p.height
            <= usize::MAX && p.delay_den >= 1,
{
    match f.frames.get(i) {
        Some(fr) => {
            let (num, den) = fr.delay().numer_denom_ms();
            let buf = fr.buffer();
            Some(GifFramePart {
                width: buf.width(), height: buf.height(),
                delay_num: num, delay_den: den,
                pixels: buf.as_raw().clone(),
            })
        },
        None => None,
    }
}

// ---------------------------------------------------------------------------
// The GIF loader.
// ---------------------------------------------------------------------------

/// The exact successful result owed on a decodable, nonempty GIF: one frame
/// per decoded frame, its pixel bytes verbatim (exactly four per pixel), its
/// own dimensions, and its delay converted to nanoseconds; the summary takes
/// the first frame's dimensions and the exact counts.
pub open spec fn gif_ok_result(data: Seq<u8>, info: AnimationInfo, frames: Seq<Frame>) -> bool {
    match gif_frames_of(data) {
        Option::Some(v) => {
            &&& frames.len() == v.len()
            &&& forall|j: int|
                #![trigger frames[j]]
                0 <= j < frames.len() ==> {
                    &&& frames[j].width == v[j].width
                    &&& frames[j].height == v[j].height
                    &&& frames[j].buffer@ == v[j].pixels.subrange(
                        0,
                        4 * v[j].width * v[j].height,
                    )
                    &&& frames[j].delay == gif_delay_nanos(v[j].delay_num, v[j].delay_den)
                }
            &&& info.width == v[0].width as u16
            &&& info.height == v[0].height as u16
            &&& info.frame_count == frames.len()
            &&& info.duration == sum_delays(frames)
        },
        Option::None => false,
    }
}

/// Everything the GIF loader promises of its result: a malformed stream
/// fails with `DecodeError`, a decodable stream with no frames at all fails
/// with `NoFrames`, and every other GIF decodes successfully, into exactly
/// the codec's frames.
pub open spec fn gif_result_spec(
    data: Seq<u8>,
    r: Result<(AnimationInfo, Vec<Frame>), AnimError>,
) -> bool {
    &&& (gif_frames_of(data) is None ==> (r matches Err(e) && e == AnimError::DecodeError))
    &&& ((gif_frames_of(data) matches Some(v) && v.len() == 0) ==> (r matches Err(e) && e
        == AnimError::NoFrames))
    &&& ((gif_frames_of(data) matches Some(v) && v.len() >= 1) ==> (r matches Ok(ok)
        && gif_ok_result(data, ok.0, ok.1@)))
}

/// Decodes a GIF from its raw bytes into the library's frame model. The
/// codec composites each frame fully; this loader copies every frame's
/// pixels verbatim and converts its delay to nanoseconds. `gif_result_spec`
/// fixes the result for every input.
pub fn load_gif(data: Vec<u8>) -> (r: Result<(AnimationInfo, Vec<Frame>), AnimError>)
    ensures
        gif_result_spec(data@, r),
        r matches Err(e) ==> e != AnimError::UnsupportedFormat,
        r matches Ok(ok) ==> {
            &&& ok.1@.len() >= 1
            &&& ok.0.frame_count == ok.1@.len()
            &&& ok.0.duration == sum_delays(ok.1@)
            &&& forall|i: int| #![trigger ok.1@[i]] 0 <= i < ok.1@.len() ==> ok.1@[i].wf()
            &&& ok.0.width == ok.1@[0].width as u16
            &&& ok.0.height == ok.1@[0].height as u16
        },
{
    let ghost d: Seq<u8> = data@;
    let src = match gif_decode(data) {
        Ok(s) => s,
        Err(e) => { return Err(e) },
    };
    let n = gif_frame_count(&src);
    if n == 0 {
        return Err(AnimError::NoFrames);
    }
    let mut frames: Vec<Frame> = Vec::new();
    let mut duration: u128 = 0;
    let mut i: usize = 0;
    while i < n
        invariant
            d == data@,
            gif_frames_of(d) matches Some(v) && v == gif_held_frames(src),
            n == gif_held_frames(src).len(),
            n >= 1,
            frames@.len() == i as int,
            i <= n,
            duration == sum_delays(frames@),
            duration <= (i as int) * 0xffff_ffff_ffff_ffffu64,
            forall|j: int|
                #![trigger frames@[j]]
                0 <= j < frames@.len() ==> {
                    let v = gif_held_frames(src)[j];
                    &&& frames@[j].wf()
                    &&& frames@[j].width == v.width
                    &&& frames@[j].height == v.height
                    &&& frames@[j].buffer@ == v.pixels.subrange(0, 4 * v.width * v.height)
                    &&& frames@[j].delay == gif_delay_nanos(v.delay_num, v.delay_den)
                },
        decreases n - i,
    {
        let part = match gif_frame_at(&src, i) {
            Some(p) => p,
            None => { return Err(AnimError::DecodeError) },
        };
        let mut pixels = part.pixels;
        proof {
            assert(0 <= 4 * (part.width as int) * (part.height as int)
                <= 0x4_0000_0000_0000_0000) by (nonlinear_arith)
                requires
                    0 <= part.width as int <= 0x1_0000_0000,
                    0 <= part.height as int <= 0x1_0000_0000,
            ;
        }
        let need128: u128 = 4 * part.width as u128 * part.height as u128;
        let need: usize = need128 as usize;
        pixels.truncate(need);
        let delay = gif_frame_delay(part.delay_num, part.delay_den);
        duration = duration + delay as u128;
        let frame = Frame { buffer: pixels, width: part.width, height: part.height, delay };
        let ghost fprev = frames@;
        let ghost fr = frame;
        frames.push(frame);
        proof {
            assert(frames@.drop_last() =~= fprev);
            assert(frames@.last() == fr);
        }
        i = i + 1;
    }
    let first_w = frames[0].width;
    let first_h = frames[0].height;
    let info = AnimationInfo {
        width: #[verifier::truncate] (first_w as u16),
        height: #[verifier::truncate] (first_h as u16),
        frame_count: frames.len(),
        duration,
    };
    proof {
        assert(gif_ok_result(d, info, frames@));
    }
    Ok((info, frames))
}

} // verus!
