use vstd::prelude::*;

verus! {

/// How the canvas region of a frame is treated before the next frame is
/// composited onto the canvas.
#[derive(Clone, Copy, Debug, PartialEq, Eq, Structural)]
pub enum DisposalMode {
    /// Leave the canvas unchanged.
    Keep,
    /// Clear the frame's region to fully transparent black.
    Background,
    /// Restore the canvas to its state before the frame was composited.
    Previous,
}

/// How a frame's pixels combine with the canvas content underneath them.
#[derive(Clone, Copy, Debug, PartialEq, Eq, Structural)]
pub enum BlendMode {
    /// The frame's pixels overwrite the canvas unconditionally.
    Source,
    /// Standard alpha compositing of the frame over the canvas.
    Over,
}

/// The pixel layout of the raw data a decoded animation frame carries.
#[derive(Clone, Copy, Debug, PartialEq, Eq, Structural)]
pub enum ColorKind {
    /// 8-bit red, green, blue and alpha samples.
    Rgba8,
    /// 8-bit red, green and blue samples, no alpha.
    Rgb8,
    /// Any other combination of colour type and bit depth.
    Other,
}

/// Per-frame metadata declared in an animated PNG file: the frame's
/// sub-rectangle on the canvas, its delay as a fraction of a second, and the
/// disposal and blend rules to apply.
#[derive(Clone, Copy, Debug, PartialEq, Eq, Structural)]
pub struct FrameControl {
    /// Width of the frame's region in pixels.
    pub width: u32,
    /// Height of the frame's region in pixels.
    pub height: u32,
    /// Horizontal offset of the frame's region on the canvas.
    pub x_offset: u32,
    /// Vertical offset of the frame's region on the canvas.
    pub y_offset: u32,
    /// Numerator of the frame delay fraction, in seconds.
    pub delay_num: u16,
    /// Denominator of the frame delay fraction; zero stands for 100.
    pub delay_den: u16,
    /// Disposal applied to this frame's region before the next frame.
    pub dispose_op: DisposalMode,
    /// How this frame's pixels are blended onto the canvas.
    pub blend_op: BlendMode,
}

/// One fully composited animation frame: a straight (non-premultiplied) RGBA
/// byte buffer in row-major order, its dimensions, and how long it is shown.
#[derive(Clone, Debug)]
pub struct Frame {
    /// RGBA bytes; 4 bytes per pixel, `width * height` pixels.
    pub buffer: Vec<u8>,
    /// Width of the frame in pixels.
    pub width: u32,
    /// Height of the frame in pixels.
    pub height: u32,
    /// Display delay in nanoseconds.
    pub delay: u64,
}

impl Frame {
    /// The frame's buffer holds exactly 4 bytes for every pixel.
    pub open spec fn wf(&self) -> bool {
        self.buffer@.len() == 4 * self.width * self.height
    }
}

/// Summary metadata of a decoded animation: nominal canvas size, how many
/// frames were emitted, and the exact sum of their delays.
#[derive(Clone, Copy, Debug)]
pub struct AnimationInfo {
    /// Canvas width in pixels, truncated to 16 bits.
    pub width: u16,
    /// Canvas height in pixels, truncated to 16 bits.
    pub height: u16,
    /// Number of frames in the decoded sequence.
    pub frame_count: usize,
    /// Total duration of one loop of the animation, in nanoseconds.
    pub duration: u128,
}

/// Why a decode attempt failed. Every error is terminal for that attempt.
#[derive(Clone, Copy, Debug, PartialEq, Eq, Structural)]
pub enum AnimError {
    /// The file extension names no supported animation format.
    UnsupportedFormat,
    /// The PNG file carries no animation-control data (a plain PNG).
    NotAnimated,
    /// Decoding produced zero frames.
    NoFrames,
    /// The file's pixel format cannot be converted to 8-bit RGBA.
    UnsupportedColorType,
    /// The file could not be opened or read.
    IoError,
    /// The underlying codec reported a malformed stream.
    DecodeError,
}

impl AnimError {
    /// A short human-readable description of the error.
    pub fn describe(&self) -> &'static str {
        match self {
            AnimError::UnsupportedFormat => "unsupported file format",
            AnimError::NotAnimated => "not an animated PNG file",
            AnimError::NoFrames => "no frames found in animation",
            AnimError::UnsupportedColorType => "unsupported color type",
            AnimError::IoError => "failed to read file",
            AnimError::DecodeError => "malformed animation stream",
        }
    }
}

/// Sum of the delays of a sequence of frames, in nanoseconds.
pub open spec fn sum_delays(frames: Seq<Frame>) -> int
    decreases frames.len(),
{
    if frames.len() == 0 {
        0
    } else {
        sum_delays(frames.drop_last()) + frames.last().delay
    }
}

/// Delay of an animated-PNG frame in nanoseconds: `num / den` seconds, where
/// a zero denominator stands for 100 (hundredths of a second).
pub open spec fn apng_delay_nanos(num: u16, den: u16) -> int {
    num * 1_000_000_000 / (if den == 0 { 100int } else { den as int })
}

/// Delay of a GIF frame in nanoseconds, from a ratio of milliseconds.
pub open spec fn gif_delay_nanos(num: u32, den: u32) -> int
    recommends
        den > 0,
{
    num * 1_000_000 / (den as int)
}

/// Exact integer delay computation for an animated-PNG frame.
pub fn apng_frame_delay(num: u16, den: u16) -> (d: u64)
    ensures
        d == apng_delay_nanos(num, den),
{
    let d64: u64 = if den == 0 { 100 } else { den as u64 };
    (num as u64) * 1_000_000_000 / d64
}

/// Exact integer delay computation for a GIF frame.
pub fn gif_frame_delay(num: u32, den: u32) -> (d: u64)
    requires
        den > 0,
    ensures
        d == gif_delay_nanos(num, den),
{
    (num as u64) * 1_000_000 / (den as u64)
}

} // verus!
