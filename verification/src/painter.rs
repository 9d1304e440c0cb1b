use vstd::prelude::*;
use crate::types::Frame;

verus! {

/// A colour channel scaled by its alpha: `c * a / 255`.
pub open spec fn premul(c: int, a: int) -> int {
    c * a / 255
}

/// One packed surface word for a straight RGBA pixel: alpha in the top
/// byte, then the premultiplied red, green and blue channels.
pub open spec fn argb_word(r: int, g: int, b: int, a: int) -> int {
    a * 0x1000000 + premul(r, a) * 0x10000 + premul(g, a) * 0x100 + premul(b, a)
}

/// One premultiplied channel; stays in the byte range.
fn premul_channel(c: u8, a: u8) -> (r: u32)
    ensures
        r == premul(c as int, a as int),
        r <= 255,
{
    proof {
        assert(0 <= (c as int) * (a as int) <= 255 * 255) by (nonlinear_arith)
            requires
                c <= 255,
                a <= 255,
        ;
        vstd::arithmetic::div_mod::lemma_div_pos_is_pos((c as int) * (a as int), 255);
        vstd::arithmetic::div_mod::lemma_div_is_ordered((c as int) * (a as int), 65025, 255);
    }
    let v: u32 = (c as u32) * (a as u32);
    v / 255
}

/// Converts a frame's straight (non-premultiplied) RGBA bytes into packed
/// premultiplied surface words, one per pixel: the presentation surface
/// composites assuming premultiplied input, so each colour channel is
/// scaled by its pixel's alpha before packing.
pub fn premultiply(frame: &Frame) -> (out: Vec<u32>)
    requires
        frame.wf(),
        frame.width * frame.height <= usize::MAX,
    ensures
        out@.len() == frame.width * frame.height,
        forall|p: int|
            0 <= p < out@.len() ==> #[trigger] out@[p] == argb_word(
                frame.buffer@[4 * p] as int,
                frame.buffer@[4 * p + 1] as int,
                frame.buffer@[4 * p + 2] as int,
                frame.buffer@[4 * p + 3] as int,
            ),
{
    proof {
        assert(4 * (frame.width as int) * (frame.height as int) == 4 * ((frame.width as int) * (
        frame.height as int))) by (nonlinear_arith);
    }
    let n: usize = (frame.width as usize) * (frame.height as usize);
    let len = frame.buffer.len();
    let mut out: Vec<u32> = Vec::new();
    let mut p: usize = 0;
    while p < n
        invariant
            frame.wf(),
            len == frame.buffer@.len(),
            4 * n == len,
            p <= n,
            out@.len() == p,
            forall|q: int|
                0 <= q < p ==> #[trigger] out@[q] == argb_word(
                    frame.buffer@[4 * q] as int,
                    frame.buffer@[4 * q + 1] as int,
                    frame.buffer@[4 * q + 2] as int,
                    frame.buffer@[4 * q + 3] as int,
                ),
        decreases n - p,
    {
        let r = frame.buffer[4 * p];
        let g = frame.buffer[4 * p + 1];
        let b = frame.buffer[4 * p + 2];
        let a = frame.buffer[4 * p + 3];
        let word: u32 = (a as u32) * 0x1000000 + premul_channel(r, a) * 0x10000 + premul_channel(
            g,
            a,
        ) * 0x100 + premul_channel(b, a);
        out.push(word);
        p = p + 1;
    }
    out
}

} // verus!
