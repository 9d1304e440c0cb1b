use vstd::prelude::*;
use crate::compose::{convert_to_rgba, initial_state, rgb_expanded, run_state, CanvasState, Compositor};
use crate::types::{AnimationInfo, AnimError, ColorKind, Frame, FrameControl};
use crate::types::{apng_delay_nanos, sum_delays};

verus! {

// ---------------------------------------------------------------------------
// Trusted surface over the `png` codec. The codec parses the chunk stream
// and inflates each frame's raw pixel data; everything the animation
// specification says about disposal, blending and timing is computed by this
// crate's verified compositor from the plain values these wrappers hand out.
//
// What the codec extracts is a function of the input bytes alone. Three
// names stand for those results — the parsed header, the sequence of
// decodable raw frames, and the canvas buffer size — and two more model the
// reader itself as the bytes it was opened over plus how many frames it has
// handed out. Every wrapper contract speaks over these names, so the
// loader's own contract can say exactly when decoding succeeds and what the
// frames then are.
// ---------------------------------------------------------------------------

/// The codec's reader over an in-memory cursor. The reader's own type
/// cannot be declared to the verifier (its generic bounds are io traits the
/// verifier does not know), so this holder is opaque and trusted.
#[verifier::external_body]
pub struct PngSource {
    reader: png::Reader<std::io::Cursor<Vec<u8>>>,
}

#[verifier::external_type_specification]
#[verifier::external_body]
pub struct ExPngDisposeOp(png::DisposeOp);

#[verifier::external_type_specification]
#[verifier::external_body]
pub struct ExPngBlendOp(png::BlendOp);

/// What the codec reports about the file before any frame is read.
pub struct ApngHeader {
    /// Canvas width in pixels.
    pub width: u32,
    /// Canvas height in pixels.
    pub height: u32,
    /// The declared number of animation frames, if the file carries an
    /// animation-control chunk at all.
    pub anim_frames: Option<u32>,
    /// The file's pixel format.
    pub color: ColorKind,
}

/// The bytes a reader was opened over.
pub uninterp spec fn source_bytes(s: PngSource) -> Seq<u8>;

/// How many frames a reader has handed out so far.
pub uninterp spec fn source_frames_read(s: PngSource) -> int;

/// The header the codec parses from the bytes: nothing when the stream's
/// metadata is malformed.
pub uninterp spec fn apng_header_of(data: Seq<u8>) -> Option<ApngHeader>;

/// The decodable declared animation frames of the bytes: the longest
/// prefix of the stream's declared frames the codec can decode, in order,
/// each frame's control record paired with the raw pixel bytes of its
/// region exactly as the codec emits them. A truncated or corrupted stream
/// has a shorter sequence than its header declares. A separate default
/// image is not an animation frame and has no record here.
pub uninterp spec fn apng_raw_frames(data: Seq<u8>) -> Seq<(FrameControl, Seq<u8>)>;

/// Whether the bytes' default image stands apart from the animation: no
/// frame-control chunk precedes the image data, so the codec's first read
/// yields an extra, record-less default frame (a thumbnail for decoders
/// unaware of animation) before the declared animation frames.
pub uninterp spec fn apng_sep_default(data: Seq<u8>) -> bool;

/// How many reads the separate default image adds before the animation
/// frames: one when there is one, none otherwise.
pub open spec fn sep_offset(data: Seq<u8>) -> int {
    if apng_sep_default(data) {
        1
    } else {
        0
    }
}

/// How many frame reads the codec serves on the bytes before failing: the
/// separate default image, if there is one, followed by the decodable
/// declared animation frames.
pub uninterp spec fn apng_decodable_reads(data: Seq<u8>) -> int;

/// The byte count the codec wants a whole decoded canvas frame's buffer to
/// have, or nothing when no such buffer fits in memory.
pub uninterp spec fn apng_buf_size_of(data: Seq<u8>) -> Option<usize>;

/// Relies on png::Decoder::new and png::Decoder::read_info: builds the
/// codec's decoder over the given bytes and reads all metadata up to the
/// first image data chunk. read_info succeeds exactly on streams whose
/// metadata parses; the fresh reader holds the bytes and has read no frame.
#[verifier::external_body]
fn apng_open(data: Vec<u8>) -> (r: Result<PngSource, AnimError>)
    ensures
        r matches Ok(s) ==> source_bytes(s) == data@ && source_frames_read(s) == 0
            && apng_header_of(data@) is Some,
        r matches Err(e) ==> e == AnimError::DecodeError && apng_header_of(data@) is None,
{
    match png::Decoder::new(std::io::Cursor::new(data)).read_info() {
        Ok(reader) => Ok(PngSource { reader }),
        Err(_) => Err(AnimError::DecodeError),
    }
}

/// Relies on png::Reader::info: copies the header fields out as plain
/// values; they are fixed by the IHDR and acTL chunks of the bytes. The
/// colour kind pairs the header's colour type with its bit depth; every
/// combination but 8-bit RGB and 8-bit RGBA is `Other`.
#[verifier::external_body]
fn apng_header(r: &PngSource) -> (h: ApngHeader)
    ensures
        apng_header_of(source_bytes(*r)) == Some(h),
{
    let info = r.reader.info();
    ApngHeader {
        width: info.width,
        height: info.height,
        anim_frames: info.animation_control.map(|ac| ac.num_frames),
        color: match (info.color_type, info.bit_depth) {
            (png::ColorType::Rgba, png::BitDepth::Eight) => ColorKind::Rgba8,
            (png::ColorType::Rgb, png::BitDepth::Eight) => ColorKind::Rgb8,
            _ => ColorKind::Other,
        },
    }
}

/// Relies on png::Reader::output_buffer_size: the byte count a whole
/// decoded canvas frame needs, a function of the header alone.
#[verifier::external_body]
fn apng_buffer_size(r: &PngSource) -> (res: Option<usize>)
    ensures
        res == apng_buf_size_of(source_bytes(*r)),
{
    r.reader.output_buffer_size()
}

/// Relies on png::Reader::info: before any frame is read, a frame-control
/// record is present exactly when an fcTL chunk precedes the image data —
/// that is, when the default image is itself the first animation frame
/// rather than a separate, record-less extra.
#[verifier::external_body]
fn apng_default_is_first_frame(r: &PngSource) -> (b: bool)
    ensures
        source_frames_read(*r) == 0 ==> b == !apng_sep_default(source_bytes(*r)),
{
    r.reader.info().frame_control.is_some()
}

/// Relies on png::Reader::next_frame and png::OutputInfo::buffer_size. The
/// codec serves one read per remaining frame: on a file whose default
/// image is separate, the first read yields that record-less default
/// image; every other read yields the next declared animation frame,
/// writing its raw bytes at the front of the buffer — never resizing it —
/// and reporting their count: the frame's region rows times its row bytes,
/// which for the supported formats is 4 (RGBA) or 3 (RGB) bytes per region
/// pixel. If a decodable read remains and the buffer is at least the
/// advertised canvas buffer size, the call succeeds; a malformed or
/// exhausted stream and a too-small buffer return an error, without
/// panicking.
#[verifier::external_body]
fn apng_next_frame(r: &mut PngSource, buf: &mut Vec<u8>) -> (res: Result<usize, AnimError>)
    ensures
        final(buf)@.len() == old(buf)@.len(),
        source_bytes(*final(r)) == source_bytes(*old(r)),
        res matches Err(e) ==> e == AnimError::DecodeError,
        res matches Ok(bs) ==> ({
            let k = source_frames_read(*old(r));
            let fs = apng_raw_frames(source_bytes(*old(r)));
            let a = k - sep_offset(source_bytes(*old(r)));
            &&& 0 <= k < apng_decodable_reads(source_bytes(*old(r)))
            &&& source_frames_read(*final(r)) == k + 1
            &&& bs <= old(buf)@.len()
            &&& (0 <= a ==> {
                &&& a < fs.len()
                &&& bs == fs[a].1.len()
                &&& final(buf)@.subrange(0, bs as int) == fs[a].1
                &&& (apng_header_of(source_bytes(*old(r))) matches Some(h) ==> {
                    &&& (h.color == ColorKind::Rgba8 ==> fs[a].1.len() == 4 * fs[a].0.width
                        * fs[a].0.height)
                    &&& (h.color == ColorKind::Rgb8 ==> fs[a].1.len() == 3 * fs[a].0.width
                        * fs[a].0.height)
                })
            })
        }),
        ({
            let k = source_frames_read(*old(r));
            &&& 0 <= k < apng_decodable_reads(source_bytes(*old(r)))
            &&& (apng_buf_size_of(source_bytes(*old(r))) matches Some(nb) && old(buf)@.len() >= nb)
        }) ==> res is Ok,
{
    match r.reader.next_frame(buf.as_mut_slice()) {
        Ok(out) => Ok(out.buffer_size()),
        Err(_) => Err(AnimError::DecodeError),
    }
}

/// Relies on png::DisposeOp: maps the codec's disposal variants one for
/// one onto the library's.
#[verifier::external_body]
fn dispose_from_png(op: png::DisposeOp) -> crate::types::DisposalMode {
    match op {
        png::DisposeOp::None => crate::types::DisposalMode::Keep,
        png::DisposeOp::Background => crate::types::DisposalMode::Background,
        png::DisposeOp::Previous => crate::types::DisposalMode::Previous,
    }
}

/// Relies on png::BlendOp: maps the codec's blend variants one for one
/// onto the library's.
#[verifier::external_body]
fn blend_from_png(op: png::BlendOp) -> crate::types::BlendMode {
    match op {
        png::BlendOp::Source => crate::types::BlendMode::Source,
        png::BlendOp::Over => crate::types::BlendMode::Over,
    }
}

/// Relies on png::Reader::info: copies the frame-control record of the
/// frame just decoded out as plain values. Once the codec has handed out
/// `a >= 1` animation frames — not counting a separate default image,
/// which carries no record — it is the `a`-th declared record; the codec
/// validated every stored record against the header, so its region is
/// nonempty and lies inside the canvas.
#[verifier::external_body]
fn apng_frame_ctrl(r: &PngSource) -> (res: Option<FrameControl>)
    ensures
        ({
            let a = source_frames_read(*r) - sep_offset(source_bytes(*r));
            1 <= a <= apng_raw_frames(source_bytes(*r)).len()
        }) ==> res == Some(
            apng_raw_frames(source_bytes(*r))[source_frames_read(*r) - sep_offset(
                source_bytes(*r),
            ) - 1].0,
        ),
        res matches Some(fc) ==> (apng_header_of(source_bytes(*r)) matches Some(h) ==> {
            &&& fc.width >= 1
            &&& fc.height >= 1
            &&& fc.x_offset + fc.width <= h.width
            &&& fc.y_offset + fc.height <= h.height
        }),
{
    match r.reader.info().frame_control {
        Some(fc) => Some(FrameControl {
            width: fc.width, height: fc.height,
            x_offset: fc.x_offset, y_offset: fc.y_offset,
            delay_num: fc.delay_num, delay_den: fc.delay_den,
            dispose_op: dispose_from_png(fc.dispose_op),
            blend_op: blend_from_png(fc.blend_op),
        }),
        None => None,
    }
}

// ---------------------------------------------------------------------------
// The animated-PNG loader.
// ---------------------------------------------------------------------------

/// The record sequence the canvas state machine runs on: each raw frame's
/// control record with its pixel data converted to RGBA.
pub open spec fn apng_machine_records(data: Seq<u8>) -> Seq<(FrameControl, Seq<u8>)> {
    match apng_header_of(data) {
        Option::Some(h) => Seq::new(
            apng_raw_frames(data).len(),
            |j: int|
                (
                    apng_raw_frames(data)[j].0,
                    if h.color == ColorKind::Rgba8 {
                        apng_raw_frames(data)[j].1
                    } else {
                        rgb_expanded(apng_raw_frames(data)[j].1)
                    },
                ),
        ),
        Option::None => Seq::empty(),
    }
}

/// A parse the loader owes success on: an animated header with at least one
/// frame in a supported pixel format, a nonempty canvas the machine can
/// hold, and enough decodable reads for the declared frames — plus one for
/// the separate default image where the file carries one.
pub open spec fn apng_parse_ok(data: Seq<u8>) -> bool {
    match apng_header_of(data) {
        Option::Some(h) => match h.anim_frames {
            Option::Some(n) => {
                &&& n >= 1
                &&& h.color != ColorKind::Other
                &&& h.width >= 1
                &&& h.height >= 1
                &&& 4 * h.width * h.height <= usize::MAX
                &&& apng_buf_size_of(data) is Some
                &&& apng_decodable_reads(data) >= n + sep_offset(data)
            },
            Option::None => false,
        },
        Option::None => false,
    }
}

/// The exact successful result owed on a well-formed parse: one frame per
/// declared animation frame, each the canvas of the state machine run over
/// the parsed records up to and including its own, with the parsed delay,
/// over the header's canvas; and a summary with the exact counts.
pub open spec fn apng_ok_result(data: Seq<u8>, info: AnimationInfo, frames: Seq<Frame>) -> bool {
    match apng_header_of(data) {
        Option::Some(h) => match h.anim_frames {
            Option::Some(n) => {
                &&& frames.len() == n
                &&& forall|j: int|
                    #![trigger frames[j]]
                    0 <= j < frames.len() ==> {
                        &&& frames[j].buffer@ == run_state(
                            initial_state(h.width as int, h.height as int),
                            h.width as int,
                            apng_machine_records(data),
                            j + 1,
                        ).canvas
                        &&& frames[j].delay == apng_delay_nanos(
                            apng_raw_frames(data)[j].0.delay_num,
                            apng_raw_frames(data)[j].0.delay_den,
                        )
                        &&& frames[j].width == h.width
                        &&& frames[j].height == h.height
                    }
                &&& info.width == h.width as u16
                &&& info.height == h.height as u16
                &&& info.frame_count == frames.len()
                &&& info.duration == sum_delays(frames)
            },
            Option::None => false,
        },
        Option::None => false,
    }
}

/// Everything the animated-PNG loader promises of its result: each failure
/// kind comes exactly from the named condition of the parsed bytes, and a
/// well-formed parse is decoded successfully, into exactly the state
/// machine's frames.
pub open spec fn apng_result_spec(
    data: Seq<u8>,
    r: Result<(AnimationInfo, Vec<Frame>), AnimError>,
) -> bool {
    &&& (apng_header_of(data) is None ==> (r matches Err(e) && e == AnimError::DecodeError))
    &&& ((apng_header_of(data) matches Some(h) && h.anim_frames is None) ==> (r matches Err(e)
        && e == AnimError::NotAnimated))
    &&& ((apng_header_of(data) matches Some(h) && h.anim_frames matches Some(n) && n == 0) ==> (
    r matches Err(e) && e == AnimError::NoFrames))
    &&& ((apng_header_of(data) matches Some(h) && h.anim_frames matches Some(n) && n >= 1
        && h.color == ColorKind::Other) ==> (r matches Err(e) && e
        == AnimError::UnsupportedColorType))
    &&& ((apng_header_of(data) matches Some(h) && h.anim_frames matches Some(n) && n >= 1
        && h.color != ColorKind::Other && !apng_parse_ok(data)) ==> (r matches Err(e) && e
        == AnimError::DecodeError))
    &&& (apng_parse_ok(data) ==> (r matches Ok(ok) && apng_ok_result(data, ok.0, ok.1@)))
}

/// Decodes an animated PNG from its raw bytes into fully composited
/// full-canvas RGBA frames by running the canvas state machine over the
/// frames the codec hands out.
///
/// A file without an animation-control chunk fails with `NotAnimated`; a
/// pixel format other than 8-bit RGB or RGBA fails with
/// `UnsupportedColorType`; a malformed, truncated or oversized stream fails
/// with `DecodeError`, never with a truncated frame list. A separate
/// default image — one not preceded by a frame-control chunk — is read
/// once and discarded: it is not part of the animation. Every other
/// animated PNG decodes successfully, and `apng_result_spec` fixes the
/// result in each case.
pub fn load_apng(data: Vec<u8>) -> (r: Result<(AnimationInfo, Vec<Frame>), AnimError>)
    ensures
        apng_result_spec(data@, r),
        r matches Err(e) ==> e != AnimError::UnsupportedFormat,
        r matches Ok(ok) ==> {
            &&& ok.1@.len() >= 1
            &&& ok.0.frame_count == ok.1@.len()
            &&& ok.0.duration == sum_delays(ok.1@)
            &&& forall|i: int|
                #![trigger ok.1@[i]]
                0 <= i < ok.1@.len() ==> ok.1@[i].wf() && ok.1@[i].width == ok.1@[0].width
                    && ok.1@[i].height == ok.1@[0].height
            &&& ok.0.width == ok.1@[0].width as u16
            &&& ok.0.height == ok.1@[0].height as u16
        },
{
    let ghost d: Seq<u8> = data@;
    let mut reader = match apng_open(data) {
        Ok(r) => r,
        Err(e) => { return Err(e) },
    };
    let hdr = apng_header(&reader);
    let num_frames = match hdr.anim_frames {
        Some(n) => n,
        None => { return Err(AnimError::NotAnimated) },
    };
    if num_frames == 0 {
        return Err(AnimError::NoFrames);
    }
    if hdr.color == ColorKind::Other {
        return Err(AnimError::UnsupportedColorType);
    }
    if hdr.width == 0 || hdr.height == 0 {
        return Err(AnimError::DecodeError);
    }
    proof {
        assert(4 * (hdr.width as int) * (hdr.height as int) <= 0x4_0000_0000_0000_0000)
            by (nonlinear_arith)
            requires
                hdr.width as int <= 0x1_0000_0000,
                hdr.height as int <= 0x1_0000_0000,
                0 <= hdr.width as int,
                0 <= hdr.height as int,
        ;
    }
    if 4u128 * hdr.width as u128 * hdr.height as u128 > usize::MAX as u128 {
        return Err(AnimError::DecodeError);
    }
    let buf_size = match apng_buffer_size(&reader) {
        Some(b) => b,
        None => { return Err(AnimError::DecodeError) },
    };
    let ghost sep: bool = apng_sep_default(d);
    let default_is_first = apng_default_is_first_frame(&reader);
    if !default_is_first {
        // The default image is not part of the animation: read it once and
        // discard it, so the loop below sees exactly the declared frames.
        let mut dbuf: Vec<u8> = vec![0u8; buf_size];
        match apng_next_frame(&mut reader, &mut dbuf) {
            Ok(_) => {},
            Err(e) => {
                // Nothing of the stream was decodable, so the declared
                // frames certainly are not: the parse is not well formed.
                return Err(e)
            },
        }
    }
    let mut comp = Compositor::new(hdr.width, hdr.height);
    let mut frames: Vec<Frame> = Vec::new();
    let mut duration: u128 = 0;
    let mut i: u32 = 0;
    let ghost hw: int = hdr.width as int;
    let ghost hh: int = hdr.height as int;
    let ghost s0: CanvasState = initial_state(hw, hh);
    while i < num_frames
        invariant
            comp.wf(),
            comp.spec_width() == hdr.width,
            comp.spec_height() == hdr.height,
            hdr.width >= 1,
            hdr.height >= 1,
            hdr.color != ColorKind::Other,
            hdr.anim_frames == Some(num_frames),
            num_frames >= 1,
            d == data@,
            apng_header_of(d) == Some(hdr),
            apng_buf_size_of(d) == Some(buf_size),
            4 * hw * hh <= usize::MAX,
            source_bytes(reader) == d,
            sep == apng_sep_default(d),
            source_frames_read(reader) == i as int + sep_offset(d),
            source_frames_read(reader) <= apng_decodable_reads(d) || source_frames_read(reader)
                == 0,
            hw == hdr.width as int,
            hh == hdr.height as int,
            s0 == initial_state(hw, hh),
            frames@.len() == i as int,
            i <= num_frames,
            duration == sum_delays(frames@),
            duration <= (i as int) * 0xffff_ffff_ffff_ffffu64,
            comp.state() == run_state(s0, hw, apng_machine_records(d), i as int),
            forall|j: int|
                #![trigger frames@[j]]
                0 <= j < frames@.len() ==> {
                    &&& frames@[j].wf()
                    &&& frames@[j].width == hdr.width
                    &&& frames@[j].height == hdr.height
                    &&& frames@[j].buffer@ == run_state(
                        s0,
                        hw,
                        apng_machine_records(d),
                        j + 1,
                    ).canvas
                    &&& frames@[j].delay == apng_delay_nanos(
                        apng_raw_frames(d)[j].0.delay_num,
                        apng_raw_frames(d)[j].0.delay_den,
                    )
                },
        decreases num_frames - i,
    {
        let mut buf: Vec<u8> = vec![0u8; buf_size];
        let bs = match apng_next_frame(&mut reader, &mut buf) {
            Ok(b) => b,
            Err(e) => {
                // The buffer was large enough, so the only failure is a
                // stream with fewer decodable reads than the declared
                // frames need: the parse is not well formed.
                proof {
                    assert(apng_decodable_reads(d) <= i as int + sep_offset(d));
                }
                return Err(e)
            },
        };
        let ctrl = match apng_frame_ctrl(&reader) {
            Some(c) => c,
            None => { return Err(AnimError::DecodeError) },
        };
        if ctrl.x_offset as u64 + ctrl.width as u64 > hdr.width as u64 || ctrl.y_offset as u64
            + ctrl.height as u64 > hdr.height as u64 {
            return Err(AnimError::DecodeError);
        }
        proof {
            assert((ctrl.width as int) * (ctrl.height as int) <= 0x1_0000_0000_0000_0000 && 0 <= (
            ctrl.width as int) * (ctrl.height as int)) by (nonlinear_arith)
                requires
                    0 <= ctrl.width as int <= 0x1_0000_0000,
                    0 <= ctrl.height as int <= 0x1_0000_0000,
            ;
            assert((ctrl.width as int) * (ctrl.height as int) * 4 == 4 * (ctrl.width as int) * (
            ctrl.height as int) && (ctrl.width as int) * (ctrl.height as int) * 3 == 3 * (
            ctrl.width as int) * (ctrl.height as int)) by (nonlinear_arith);
        }
        let px: u128 = ctrl.width as u128 * ctrl.height as u128;
        let bpp: u128 = if matches!(hdr.color, ColorKind::Rgba8) {
            4
        } else {
            3
        };
        proof {
            assert((px as int) * (bpp as int) <= 0x4_0000_0000_0000_0000) by (nonlinear_arith)
                requires
                    0 <= px as int <= 0x1_0000_0000_0000_0000,
                    0 <= bpp as int <= 4,
            ;
        }
        if bs as u128 != px * bpp || bs > buf.len() {
            return Err(AnimError::DecodeError);
        }
        buf.truncate(bs);
        let rgba = match convert_to_rgba(&buf, hdr.color) {
            Ok(v) => v,
            Err(e) => { return Err(e) },
        };
        proof {
            lemma_raw_sizes(
                ctrl.width as int,
                ctrl.height as int,
                hdr.color,
                bs as int,
                buf@.len() as int,
                rgba@.len() as int,
            );
            assert(apng_machine_records(d)[i as int] == (ctrl, rgba@));
        }
        let frame = comp.step(ctrl, &rgba);
        duration = duration + frame.delay as u128;
        let ghost fprev = frames@;
        let ghost fr = frame;
        frames.push(frame);
        proof {
            assert(frames@.drop_last() =~= fprev);
            assert(frames@.last() == fr);
        }
        i = i + 1;
    }
    let info = AnimationInfo {
        width: #[verifier::truncate] (hdr.width as u16),
        height: #[verifier::truncate] (hdr.height as u16),
        frame_count: frames.len(),
        duration,
    };
    proof {
        assert(apng_parse_ok(d));
        assert(apng_ok_result(d, info, frames@));
    }
    Ok((info, frames))
}

/// The raw byte count the codec reports for a frame pins down the length of
/// its RGBA conversion: exactly four bytes per region pixel.
proof fn lemma_raw_sizes(w: int, h: int, color: ColorKind, bs: int, buf_len: int, rgba_len: int)
    requires
        0 <= w,
        0 <= h,
        color != ColorKind::Other,
        bs == w * h * (if color == ColorKind::Rgba8 { 4int } else { 3int }),
        buf_len == bs,
        color == ColorKind::Rgba8 ==> rgba_len == buf_len,
        color == ColorKind::Rgb8 && buf_len % 3 == 0 ==> rgba_len == buf_len / 3 * 4,
    ensures
        rgba_len == 4 * w * h,
{
    if color == ColorKind::Rgba8 {
        assert(w * h * 4 == 4 * w * h) by (nonlinear_arith);
    } else {
        assert(w * h * 3 == 3 * (w * h) && (3 * (w * h)) % 3 == 0 && (3 * (w * h)) / 3 == w * h
            && 4 * w * h == w * h * 4) by (nonlinear_arith);
        assert((w * h) * 4 == 4 * (w * h)) by (nonlinear_arith);
    }
}

} // verus!
