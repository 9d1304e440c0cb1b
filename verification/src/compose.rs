use vstd::prelude::*;
use vstd::arithmetic::div_mod::{
    lemma_div_multiples_vanish, lemma_div_is_ordered, lemma_div_pos_is_pos,
    lemma_fundamental_div_mod, lemma_fundamental_div_mod_converse,
};
use crate::types::{AnimError, BlendMode, ColorKind, DisposalMode, Frame, FrameControl};
use crate::types::{apng_delay_nanos, apng_frame_delay};

verus! {

// ---------------------------------------------------------------------------
// Per-pixel alpha compositing ("over"), computed exactly over integers on the
// 0..255 scale. With alphas read as fractions `sa/255` and `da/255`, the
// standard formulas are
//     out_a = sa + da * (1 - sa)
//     out_c = (sc * sa + dc * da * (1 - sa)) / out_a     (when out_a > 0)
// Multiplying numerator and denominator out gives the integer forms below.
// ---------------------------------------------------------------------------

/// Numerator of the composited alpha on the 255*255 scale.
pub open spec fn over_alpha_num(sa: int, da: int) -> int {
    255 * sa + da * (255 - sa)
}

/// Composited alpha channel of source over destination, on the 0..255 scale.
/// A fully transparent source leaves the destination alpha unchanged.
pub open spec fn over_alpha(sa: int, da: int) -> int {
    if sa == 0 {
        da
    } else {
        over_alpha_num(sa, da) / 255
    }
}

/// Composited colour channel of source over destination, on the 0..255
/// scale. A fully transparent source leaves the destination unchanged (the
/// composited alpha can only be zero in that case).
pub open spec fn over_color(sc: int, sa: int, dc: int, da: int) -> int {
    if sa == 0 {
        dc
    } else {
        (255 * sc * sa + dc * da * (255 - sa)) / over_alpha_num(sa, da)
    }
}

/// The composited channels stay in the 0..255 byte range.
pub proof fn lemma_over_in_byte_range(sc: int, sa: int, dc: int, da: int)
    requires
        0 <= sc <= 255,
        0 <= sa <= 255,
        0 <= dc <= 255,
        0 <= da <= 255,
    ensures
        0 <= over_alpha(sa, da) <= 255,
        0 <= over_color(sc, sa, dc, da) <= 255,
{
    if sa != 0 {
        let a_num = over_alpha_num(sa, da);
        let c_num = 255 * sc * sa + dc * da * (255 - sa);
        assert(255 <= a_num <= 65025 && 0 <= c_num <= 255 * a_num) by (nonlinear_arith)
            requires
                1 <= sa <= 255,
                0 <= da <= 255,
                0 <= sc <= 255,
                0 <= dc <= 255,
                a_num == 255 * sa + da * (255 - sa),
                c_num == 255 * sc * sa + dc * da * (255 - sa),
        ;
        lemma_div_pos_is_pos(a_num, 255);
        lemma_div_is_ordered(a_num, 65025, 255);
        lemma_div_pos_is_pos(c_num, a_num);
        lemma_div_is_ordered(c_num, 255 * a_num, a_num);
        lemma_div_multiples_vanish(255, a_num);
    }
}

/// One alpha-composited pixel: the source RGBA bytes laid over the
/// destination RGBA bytes. Fully transparent sources are skipped and fully
/// opaque sources copied directly; both short cuts agree with the formula.
pub fn blend_pixel_over(sr: u8, sg: u8, sb: u8, sa: u8, dr: u8, dg: u8, db: u8, da: u8) -> (out: (
    u8,
    u8,
    u8,
    u8,
))
    ensures
        out.0 == over_color(sr as int, sa as int, dr as int, da as int),
        out.1 == over_color(sg as int, sa as int, dg as int, da as int),
        out.2 == over_color(sb as int, sa as int, db as int, da as int),
        out.3 == over_alpha(sa as int, da as int),
{
    proof {
        lemma_over_in_byte_range(sr as int, sa as int, dr as int, da as int);
        lemma_over_in_byte_range(sg as int, sa as int, dg as int, da as int);
        lemma_over_in_byte_range(sb as int, sa as int, db as int, da as int);
    }
    if sa == 0 {
        (dr, dg, db, da)
    } else if sa == 255 {
        proof {
            lemma_over_opaque_source(sr as int, dr as int, da as int);
            lemma_over_opaque_source(sg as int, dg as int, da as int);
            lemma_over_opaque_source(sb as int, db as int, da as int);
        }
        (sr, sg, sb, sa)
    } else {
        let sa32 = sa as u32;
        let da32 = da as u32;
        let a_num: u32 = 255 * sa32 + da32 * (255 - sa32);
        proof {
            assert(255 <= a_num <= 65025 && a_num == over_alpha_num(sa as int, da as int))
                by (nonlinear_arith)
                requires
                    1 <= sa32 <= 255,
                    0 <= da32 <= 255,
                    a_num == 255 * sa32 + da32 * (255 - sa32),
                    sa32 == sa as int,
                    da32 == da as int,
            ;
        }
        let out_a: u32 = a_num / 255;
        let out_r: u32 = blend_channel_over(sr, dr, sa32, da32, a_num);
        let out_g: u32 = blend_channel_over(sg, dg, sa32, da32, a_num);
        let out_b: u32 = blend_channel_over(sb, db, sa32, da32, a_num);
        (out_r as u8, out_g as u8, out_b as u8, out_a as u8)
    }
}

/// For a fully opaque source the formula collapses to the source channel.
proof fn lemma_over_opaque_source(sc: int, dc: int, da: int)
    requires
        0 <= sc <= 255,
        0 <= dc <= 255,
        0 <= da <= 255,
    ensures
        over_color(sc, 255, dc, da) == sc,
        over_alpha(255, da) == 255,
{
    assert(over_alpha_num(255, da) == 65025);
    assert(255 * sc * 255 + dc * da * (255 - 255) == 65025 * sc) by (nonlinear_arith);
    lemma_div_multiples_vanish(sc, 65025);
    lemma_div_multiples_vanish(255, 255);
}

/// One colour channel of the general "over" case, `0 < sa < 255`.
fn blend_channel_over(sc: u8, dc: u8, sa32: u32, da32: u32, a_num: u32) -> (out: u32)
    requires
        1 <= sa32 <= 255,
        0 <= da32 <= 255,
        a_num == over_alpha_num(sa32 as int, da32 as int),
        255 <= a_num <= 65025,
    ensures
        out == over_color(sc as int, sa32 as int, dc as int, da32 as int),
        out <= 255,
{
    let t1: u32 = 255 * (sc as u32);
    proof {
        assert(t1 * sa32 <= 16581375) by (nonlinear_arith)
            requires
                t1 <= 65025,
                sa32 <= 255,
        ;
        assert((dc as u32) * da32 <= 65025) by (nonlinear_arith)
            requires
                dc <= 255,
                da32 <= 255,
        ;
    }
    let src_part: u32 = t1 * sa32;
    let t2: u32 = (dc as u32) * da32;
    proof {
        assert(t2 * (255 - sa32) <= 16581375) by (nonlinear_arith)
            requires
                t2 <= 65025,
                sa32 <= 255,
        ;
    }
    let dst_part: u32 = t2 * (255 - sa32);
    let c_num: u32 = src_part + dst_part;
    proof {
        assert(c_num == 255 * (sc as int) * (sa32 as int) + (dc as int) * (da32 as int) * (255
            - sa32 as int) && c_num <= 255 * a_num) by (nonlinear_arith)
            requires
                1 <= sa32 <= 255,
                0 <= da32 <= 255,
                sc <= 255,
                dc <= 255,
                a_num == 255 * (sa32 as int) + (da32 as int) * (255 - sa32 as int),
                c_num == 255 * (sc as int) * (sa32 as int) + (dc as int) * (da32 as int) * (255
                    - sa32 as int),
        ;
        lemma_div_is_ordered(c_num as int, 255 * (a_num as int), a_num as int);
        lemma_div_multiples_vanish(255, a_num as int);
    }
    c_num / a_num
}

// ---------------------------------------------------------------------------
// Clearing a canvas region to transparent black. Byte `i` of the canvas
// belongs to pixel `i / 4`, which sits at column `(i/4) % stride` and row
// `(i/4) / stride`. The region is clipped to the canvas bounds: columns clip
// at `stride`, rows clip at the end of the buffer, so a malformed region
// touches no pixel outside itself and cannot overrun the buffer.
// ---------------------------------------------------------------------------

/// Whether byte `i` of the canvas belongs to a pixel of the `w` by `h`
/// region at `(x, y)` on a canvas `stride` pixels wide. A pixel's column is
/// always below `stride`, so the region clips at the canvas's right edge by
/// construction; bytes past the buffer's end name no pixel at all.
pub open spec fn in_region(stride: int, x: int, y: int, w: int, h: int, i: int) -> bool {
    let p = i / 4;
    let xx = p % stride;
    let yy = p / stride;
    x <= xx < x + w && y <= yy < y + h
}

/// The canvas after the `w` by `h` region at `(x, y)` is cleared to
/// transparent black, clipped to the canvas bounds: exactly the bytes of the
/// region's pixels are zero, every other byte is unchanged. A canvas of zero
/// width has no pixels to clear.
pub open spec fn cleared_canvas(
    canvas: Seq<u8>,
    stride: int,
    x: int,
    y: int,
    w: int,
    h: int,
) -> Seq<u8> {
    if stride < 1 {
        canvas
    } else {
        Seq::new(
            canvas.len(),
            |i: int|
                if in_region(stride, x, y, w, h, i) {
                    0u8
                } else {
                    canvas[i]
                },
        )
    }
}

/// A byte inside one row's span of pixels `a..b` decomposes to that row and
/// a column in `a..b`.
proof fn lemma_span_decompose(stride: int, yy: int, a: int, b: int, i: int)
    requires
        stride >= 1,
        0 <= yy,
        0 <= a <= b <= stride,
        4 * (yy * stride + a) <= i < 4 * (yy * stride + b),
    ensures
        a <= (i / 4) % stride < b,
        (i / 4) / stride == yy,
        0 <= i % 4 < 4,
{
    lemma_fundamental_div_mod(i, 4);
    let p = i / 4;
    let r = p - yy * stride;
    lemma_fundamental_div_mod_converse(p, stride, yy, r);
}

/// Clears the `w` by `h` pixel region at `(x, y)` to transparent black (all
/// bytes zero). The region is clipped to the canvas bounds, so a malformed
/// record claiming pixels outside the canvas clears only what lies inside.
pub fn clear_region(canvas: &mut Vec<u8>, stride: u32, x: u32, y: u32, w: u32, h: u32)
    ensures
        final(canvas)@ == cleared_canvas(
            old(canvas)@,
            stride as int,
            x as int,
            y as int,
            w as int,
            h as int,
        ),
{
    let ghost orig = old(canvas)@;
    let len = canvas.len();
    if stride == 0 {
        return;
    }
    // Clip the region's columns at the canvas's right edge once.
    let ce64: u64 = if x as u64 + w as u64 <= stride as u64 {
        x as u64 + w as u64
    } else {
        stride as u64
    };
    let col_end: u32 = ce64 as u32;
    if x >= col_end {
        proof {
            assert forall|i: int| 0 <= i < len implies !in_region(
                stride as int,
                x as int,
                y as int,
                w as int,
                h as int,
                i,
            ) by {
                lemma_byte_in_own_pixel(stride as int, i);
            }
            assert(canvas@ =~= cleared_canvas(
                orig,
                stride as int,
                x as int,
                y as int,
                w as int,
                h as int,
            ));
        }
        return;
    }
    let mut row: u32 = 0;
    proof {
        assert(canvas@ =~= cleared_canvas(orig, stride as int, x as int, y as int, w as int, 0));
    }
    while row < h
        invariant
            stride >= 1,
            x < col_end,
            col_end <= stride,
            col_end <= x + w,
            x + w <= stride ==> col_end == x + w,
            x + w > stride ==> col_end == stride,
            len == canvas@.len(),
            orig.len() == len,
            row <= h,
            canvas@ == cleared_canvas(
                orig,
                stride as int,
                x as int,
                y as int,
                w as int,
                row as int,
            ),
        decreases h - row,
    {
        let ghost pre = canvas@;
        proof {
            assert(0 <= (y as int + row as int) * (stride as int) <= 0x2_0000_0000_0000_0000)
                by (nonlinear_arith)
                requires
                    0 <= y as int + row as int <= 0x2_0000_0000,
                    0 <= stride as int <= 0x1_0000_0000,
            ;
        }
        let start128: u128 = ((y as u128 + row as u128) * stride as u128 + x as u128) * 4;
        let end128: u128 = ((y as u128 + row as u128) * stride as u128 + col_end as u128) * 4;
        let start: usize = if start128 >= len as u128 {
            len
        } else {
            start128 as usize
        };
        let end: usize = if end128 >= len as u128 {
            len
        } else {
            end128 as usize
        };
        let mut j = start;
        while j < end
            invariant
                canvas@.len() == pre.len(),
                pre.len() == len,
                start <= j <= end <= len,
                forall|i: int|
                    0 <= i < len ==> canvas@[i] == (if start <= i < j {
                        0u8
                    } else {
                        pre[i]
                    }),
            decreases end - j,
        {
            canvas[j] = 0;
            j = j + 1;
        }
        proof {
            lemma_clear_row_done(
                orig,
                canvas@,
                stride as int,
                x as int,
                y as int,
                w as int,
                col_end as int,
                row as int,
                start128 as int,
                end128 as int,
                start as int,
                end as int,
            );
        }
        row = row + 1;
    }
}

/// After zeroing the clipped byte span of the region's next row, the canvas
/// matches the clear of one more row of the region.
proof fn lemma_clear_row_done(
    orig: Seq<u8>,
    now: Seq<u8>,
    stride: int,
    x: int,
    y: int,
    w: int,
    col_end: int,
    row: int,
    s128: int,
    e128: int,
    start: int,
    end: int,
)
    requires
        stride >= 1,
        0 <= x < col_end <= stride,
        col_end <= x + w,
        x + w <= stride ==> col_end == x + w,
        x + w > stride ==> col_end == stride,
        0 <= y,
        0 <= row,
        now.len() == orig.len(),
        s128 == 4 * ((y + row) * stride + x),
        e128 == 4 * ((y + row) * stride + col_end),
        start == (if s128 >= orig.len() {
            orig.len() as int
        } else {
            s128
        }),
        end == (if e128 >= orig.len() {
            orig.len() as int
        } else {
            e128
        }),
        forall|i: int|
            0 <= i < orig.len() ==> now[i] == (if start <= i < end {
                0u8
            } else {
                cleared_canvas(orig, stride, x, y, w, row)[i]
            }),
    ensures
        now == cleared_canvas(orig, stride, x, y, w, row + 1),
{
    let len = orig.len() as int;
    assert(0 <= (y + row) * stride) by (nonlinear_arith)
        requires
            0 <= y + row,
            stride >= 1,
    ;
    assert forall|i: int| 0 <= i < len implies now[i] == cleared_canvas(
        orig,
        stride,
        x,
        y,
        w,
        row + 1,
    )[i] by {
        lemma_byte_in_own_pixel(stride, i);
        if s128 <= i < e128 {
            // A byte of the freshly cleared row: its pixel sits in this row
            // at a column of the clipped region.
            lemma_span_decompose(stride, y + row, x, col_end, i);
            assert(in_region(stride, x, y, w, row + 1, i));
            assert(start <= i < end);
        } else {
            // Any other byte: its pixel is not in this row, so membership in
            // the first `row + 1` rows equals membership in the first `row`.
            if in_region(stride, x, y, w, row + 1, i) && !in_region(stride, x, y, w, row, i) {
                // The pixel lies in this row and in the clipped columns,
                // so the byte would lie in the span after all.
                assert((i / 4) / stride == y + row);
                assert(x <= (i / 4) % stride < col_end);
                assert(i / 4 == (y + row) * stride + (i / 4) % stride);
                assert(s128 <= i < e128);
            }
            assert(!(start <= i < end));
        }
    }
    assert(now =~= cleared_canvas(orig, stride, x, y, w, row + 1));
}

// ---------------------------------------------------------------------------
// Blending a frame's pixels onto the canvas at its declared sub-rectangle.
// The rectangle must lie inside the canvas.
// ---------------------------------------------------------------------------

/// The byte the blend writes at canvas byte index `i`: the corresponding
/// source byte for `Source`, the alpha-composited value for `Over`.
pub open spec fn blended_byte(
    canvas: Seq<u8>,
    src: Seq<u8>,
    stride: int,
    x: int,
    y: int,
    w: int,
    i: int,
    op: BlendMode,
) -> u8 {
    let p = i / 4;
    let k = i % 4;
    let xx = p % stride;
    let yy = p / stride;
    let sp = 4 * ((yy - y) * w + (xx - x));
    let cp = 4 * p;
    match op {
        BlendMode::Source => src[sp + k],
        BlendMode::Over => {
            let sa = src[sp + 3] as int;
            let da = canvas[cp + 3] as int;
            if k == 3 {
                over_alpha(sa, da) as u8
            } else {
                over_color(src[sp + k] as int, sa, canvas[cp + k] as int, da) as u8
            }
        },
    }
}

/// The canvas after the region's source pixels are blended onto it.
pub open spec fn blended_canvas(
    canvas: Seq<u8>,
    src: Seq<u8>,
    stride: int,
    x: int,
    y: int,
    w: int,
    h: int,
    op: BlendMode,
) -> Seq<u8> {
    Seq::new(
        canvas.len(),
        |i: int|
            if in_region(stride, x, y, w, h, i) {
                blended_byte(canvas, src, stride, x, y, w, i, op)
            } else {
                canvas[i]
            },
    )
}

/// A byte in the 4-byte span of the pixel at `(xx, yy)` decomposes back to
/// exactly that pixel, its column and its row.
proof fn lemma_pixel_byte_decompose(stride: int, xx: int, yy: int, i: int)
    requires
        stride >= 1,
        0 <= xx < stride,
        0 <= yy,
        4 * (yy * stride + xx) <= i < 4 * (yy * stride + xx) + 4,
    ensures
        i / 4 == yy * stride + xx,
        i % 4 == i - 4 * (yy * stride + xx),
        (i / 4) % stride == xx,
        (i / 4) / stride == yy,
{
    let p = yy * stride + xx;
    assert(p >= 0 && stride * yy == yy * stride) by (nonlinear_arith)
        requires
            stride >= 1,
            0 <= xx,
            0 <= yy,
            p == yy * stride + xx,
    ;
    lemma_fundamental_div_mod_converse(i, 4, p, i - 4 * p);
    lemma_fundamental_div_mod_converse(p, stride, yy, xx);
}

/// Every nonnegative byte index lies in the span of the pixel its
/// decomposition names.
proof fn lemma_byte_in_own_pixel(stride: int, i: int)
    requires
        stride >= 1,
        i >= 0,
    ensures
        i / 4 == ((i / 4) / stride) * stride + (i / 4) % stride,
        4 * (i / 4) <= i < 4 * (i / 4) + 4,
        0 <= (i / 4) % stride < stride,
        0 <= (i / 4) / stride,
{
    lemma_fundamental_div_mod(i, 4);
    lemma_fundamental_div_mod(i / 4, stride);
    assert(((i / 4) / stride) * stride == stride * ((i / 4) / stride)) by (nonlinear_arith);
    lemma_div_pos_is_pos(i, 4);
    lemma_div_pos_is_pos(i / 4, stride);
    vstd::arithmetic::div_mod::lemma_mod_division_less_than_divisor(i / 4, stride);
    vstd::arithmetic::div_mod::lemma_mod_division_less_than_divisor(i, 4);
}

/// Composites the `w` by `h` source pixels onto the canvas region at
/// `(x, y)`: `Source` overwrites the canvas pixels, `Over` alpha-composites
/// them over the canvas.
///
/// The region must lie inside the canvas — blending, unlike clearing, is
/// not clipped. The loaders reject any record claiming pixels outside the
/// canvas before compositing (the codec refuses such records as well), so
/// the requirement costs callers nothing.
pub fn blend_region(
    canvas: &mut Vec<u8>,
    stride: u32,
    src: &Vec<u8>,
    x: u32,
    y: u32,
    w: u32,
    h: u32,
    op: BlendMode,
)
    requires
        stride >= 1,
        x + w <= stride,
        src@.len() == 4 * w * h,
        4 * (y + h) * stride <= old(canvas)@.len(),
    ensures
        final(canvas)@ == blended_canvas(
            old(canvas)@,
            src@,
            stride as int,
            x as int,
            y as int,
            w as int,
            h as int,
            op,
        ),
{
    let ghost orig = old(canvas)@;
    let len = canvas.len();
    proof {
        assert(canvas@ =~= blended_canvas(
            orig,
            src@,
            stride as int,
            x as int,
            y as int,
            w as int,
            0,
            op,
        ));
    }
    let mut row: u32 = 0;
    while row < h
        invariant
            stride >= 1,
            x + w <= stride,
            src@.len() == 4 * w * h,
            4 * (y + h) * stride <= len,
            len == canvas@.len(),
            orig.len() == len,
            row <= h,
            canvas@ == blended_canvas(
                orig,
                src@,
                stride as int,
                x as int,
                y as int,
                w as int,
                row as int,
                op,
            ),
        decreases h - row,
    {
        let mut col: u32 = 0;
        while col < w
            invariant
                stride >= 1,
                x + w <= stride,
                src@.len() == 4 * w * h,
                4 * (y + h) * stride <= len,
                len == canvas@.len(),
                orig.len() == len,
                row < h,
                col <= w,
                forall|i: int|
                    0 <= i < len ==> canvas@[i] == (if in_region(
                        stride as int,
                        x as int,
                        y as int,
                        w as int,
                        row as int,
                        i,
                    ) || in_row_prefix(
                        stride as int,
                        x as int,
                        y as int,
                        row as int,
                        col as int,
                        i,
                    ) {
                        blended_byte(orig, src@, stride as int, x as int, y as int, w as int, i, op)
                    } else {
                        orig[i]
                    }),
            decreases w - col,
        {
            blend_one_pixel(canvas, stride, src, x, y, w, h, op, row, col, Ghost(orig), Ghost(len as int));
            col = col + 1;
        }
        proof {
            lemma_blend_row_complete(
                orig,
                canvas@,
                src@,
                stride as int,
                x as int,
                y as int,
                w as int,
                h as int,
                row as int,
                op,
            );
        }
        row = row + 1;
    }
}

/// Whether byte `i` belongs to the first `col` pixels of row `row` of the
/// region.
pub open spec fn in_row_prefix(stride: int, x: int, y: int, row: int, col: int, i: int) -> bool {
    let p = i / 4;
    x <= p % stride < x + col && p / stride == y + row
}

/// Blends the single region pixel at `(x + col, y + row)` onto the canvas,
/// extending the blended row prefix by one pixel.
fn blend_one_pixel(
    canvas: &mut Vec<u8>,
    stride: u32,
    src: &Vec<u8>,
    x: u32,
    y: u32,
    w: u32,
    h: u32,
    op: BlendMode,
    row: u32,
    col: u32,
    Ghost(orig): Ghost<Seq<u8>>,
    Ghost(len): Ghost<int>,
)
    requires
        stride >= 1,
        x + w <= stride,
        src@.len() == 4 * w * h,
        4 * (y + h) * stride <= len,
        old(canvas)@.len() == len,
        orig.len() == len,
        row < h,
        col < w,
        forall|i: int|
            0 <= i < len ==> old(canvas)@[i] == (if in_region(
                stride as int,
                x as int,
                y as int,
                w as int,
                row as int,
                i,
            ) || in_row_prefix(stride as int, x as int, y as int, row as int, col as int, i) {
                blended_byte(orig, src@, stride as int, x as int, y as int, w as int, i, op)
            } else {
                orig[i]
            }),
    ensures
        final(canvas)@.len() == len,
        forall|i: int|
            0 <= i < len ==> final(canvas)@[i] == (if in_region(
                stride as int,
                x as int,
                y as int,
                w as int,
                row as int,
                i,
            ) || in_row_prefix(stride as int, x as int, y as int, row as int, col as int + 1, i) {
                blended_byte(orig, src@, stride as int, x as int, y as int, w as int, i, op)
            } else {
                orig[i]
            }),
{
    let n = canvas.len();
    let m = src.len();
    let xx: u32 = x + col;
    let yy64: u64 = y as u64 + row as u64;
    proof {
        assert(0 <= (yy64 as int) * (stride as int) && 0 <= (row as int) * (w as int) && 4 * ((
        yy64 as int) * (stride as int) + (xx as int)) + 4 <= 4 * (y as int + h as int) * (
        stride as int) && 4 * ((row as int) * (w as int) + (col as int)) + 4 <= 4 * (w as int) * (
        h as int)) by (nonlinear_arith)
            requires
                stride >= 1,
                yy64 == y as int + row as int,
                xx == x as int + col as int,
                x as int + w as int <= stride as int,
                (row as int) < (h as int),
                (col as int) < (w as int),
                0 <= y as int,
                0 <= x as int,
                0 <= row as int,
                0 <= col as int,
        ;
    }
    let p64: u64 = yy64 * (stride as u64) + (xx as u64);
    let cp: usize = (4 * p64) as usize;
    let sp: usize = (4 * ((row as u64) * (w as u64) + (col as u64))) as usize;
    let ghost pi: int = p64 as int;
    let sr = src[sp];
    let sg = src[sp + 1];
    let sb = src[sp + 2];
    let sa = src[sp + 3];
    let dr = canvas[cp];
    let dg = canvas[cp + 1];
    let db = canvas[cp + 2];
    let da = canvas[cp + 3];
    proof {
        // The four destination bytes still hold their pre-blend values:
        // the pixel being written lies past every blended row and prefix.
        assert forall|k: int| 0 <= k < 4 implies old(canvas)@[4 * pi + k] == #[trigger] orig[4 * pi
            + k] by {
            lemma_pixel_byte_decompose(stride as int, xx as int, yy64 as int, 4 * pi + k);
        }
    }
    let (v0, v1, v2, v3) = match op {
        BlendMode::Source => (sr, sg, sb, sa),
        BlendMode::Over => blend_pixel_over(sr, sg, sb, sa, dr, dg, db, da),
    };
    canvas[cp] = v0;
    canvas[cp + 1] = v1;
    canvas[cp + 2] = v2;
    canvas[cp + 3] = v3;
    proof {
        lemma_over_in_byte_range(sr as int, sa as int, dr as int, da as int);
        lemma_over_in_byte_range(sg as int, sa as int, dg as int, da as int);
        lemma_over_in_byte_range(sb as int, sa as int, db as int, da as int);
        assert forall|i: int| 0 <= i < len implies canvas@[i] == (if in_region(
            stride as int,
            x as int,
            y as int,
            w as int,
            row as int,
            i,
        ) || in_row_prefix(stride as int, x as int, y as int, row as int, col as int + 1, i) {
            blended_byte(orig, src@, stride as int, x as int, y as int, w as int, i, op)
        } else {
            orig[i]
        }) by {
            if 4 * pi <= i < 4 * pi + 4 {
                lemma_pixel_byte_decompose(stride as int, xx as int, yy64 as int, i);
            } else {
                lemma_byte_in_own_pixel(stride as int, i);
            }
        }
    }
}

/// Once every pixel of row `row` is blended, the canvas matches the blend of
/// the region's first `row + 1` rows.
proof fn lemma_blend_row_complete(
    orig: Seq<u8>,
    now: Seq<u8>,
    src: Seq<u8>,
    stride: int,
    x: int,
    y: int,
    w: int,
    h: int,
    row: int,
    op: BlendMode,
)
    requires
        stride >= 1,
        x + w <= stride,
        now.len() == orig.len(),
        0 <= row,
        forall|i: int|
            0 <= i < orig.len() ==> now[i] == (if in_region(stride, x, y, w, row, i)
                || in_row_prefix(stride, x, y, row, w, i) {
                blended_byte(orig, src, stride, x, y, w, i, op)
            } else {
                orig[i]
            }),
    ensures
        now == blended_canvas(orig, src, stride, x, y, w, row + 1, op),
{
    let len = orig.len() as int;
    assert forall|i: int| 0 <= i < len implies now[i] == blended_canvas(
        orig,
        src,
        stride,
        x,
        y,
        w,
        row + 1,
        op,
    )[i] by {
        lemma_byte_in_own_pixel(stride, i);
    }
    assert(now =~= blended_canvas(orig, src, stride, x, y, w, row + 1, op));
}

// ---------------------------------------------------------------------------
// Conversion of a frame's raw pixel data to RGBA.
// ---------------------------------------------------------------------------

/// 8-bit RGB bytes expanded to RGBA with full opacity.
pub open spec fn rgb_expanded(src: Seq<u8>) -> Seq<u8> {
    Seq::new(
        src.len() / 3 * 4,
        |i: int|
            if i % 4 == 3 {
                255u8
            } else {
                src[i / 4 * 3 + i % 4]
            },
    )
}

/// Converts a frame's raw pixel bytes to RGBA: 8-bit RGBA passes through
/// unchanged, 8-bit RGB is expanded with full opacity, and any other pixel
/// format is rejected.
pub fn convert_to_rgba(buf: &Vec<u8>, color: ColorKind) -> (r: Result<Vec<u8>, AnimError>)
    ensures
        color == ColorKind::Rgba8 ==> (r matches Ok(v) && v@ == buf@),
        color == ColorKind::Rgb8 && buf@.len() % 3 == 0 ==> (r matches Ok(v) && v@ == rgb_expanded(
            buf@,
        )),
        color == ColorKind::Rgb8 && buf@.len() % 3 != 0 ==> (r matches Err(e) && e
            == AnimError::DecodeError),
        color == ColorKind::Other ==> (r matches Err(e) && e == AnimError::UnsupportedColorType),
{
    match color {
        ColorKind::Rgba8 => Ok(clone_bytes(buf)),
        ColorKind::Rgb8 => {
            let len = buf.len();
            if len % 3 != 0 {
                return Err(AnimError::DecodeError);
            }
            let pixels = len / 3;
            proof {
                vstd::arithmetic::div_mod::lemma_fundamental_div_mod(buf@.len() as int, 3);
            }
            let mut out: Vec<u8> = Vec::new();
            let mut p: usize = 0;
            while p < pixels
                invariant
                    pixels == buf@.len() / 3,
                    buf@.len() % 3 == 0,
                    3 * pixels == len,
                    len == buf@.len(),
                    p <= pixels,
                    out@.len() == 4 * p,
                    forall|i: int| 0 <= i < 4 * p ==> out@[i] == rgb_expanded(buf@)[i],
                decreases pixels - p,
            {
                out.push(buf[3 * p]);
                out.push(buf[3 * p + 1]);
                out.push(buf[3 * p + 2]);
                out.push(255);
                proof {
                    assert forall|k: int| 0 <= k < 4 implies #[trigger] out@[4 * (p as int) + k]
                        == rgb_expanded(buf@)[4 * (p as int) + k] by {
                        lemma_fundamental_div_mod_converse(4 * (p as int) + k, 4, p as int, k);
                    }
                }
                p = p + 1;
            }
            proof {
                assert(out@ =~= rgb_expanded(buf@));
            }
            Ok(out)
        },
        ColorKind::Other => Err(AnimError::UnsupportedColorType),
    }
}

/// A fresh copy of a byte vector's contents.
pub fn clone_bytes(src: &Vec<u8>) -> (out: Vec<u8>)
    ensures
        out@ == src@,
{
    let len = src.len();
    let mut out: Vec<u8> = Vec::new();
    let mut i: usize = 0;
    while i < len
        invariant
            len == src@.len(),
            i <= len,
            out@ == src@.take(i as int),
        decreases len - i,
    {
        out.push(src[i]);
        proof {
            assert(out@ =~= src@.take(i as int + 1));
        }
        i = i + 1;
    }
    proof {
        assert(src@.take(len as int) =~= src@);
    }
    out
}

/// Overwrites `dst` with the bytes of `src`; both have the same length.
fn copy_canvas(dst: &mut Vec<u8>, src: &Vec<u8>)
    requires
        old(dst)@.len() == src@.len(),
    ensures
        final(dst)@ == src@,
{
    let len = src.len();
    let mut i: usize = 0;
    while i < len
        invariant
            len == src@.len(),
            dst@.len() == len,
            i <= len,
            forall|j: int| 0 <= j < i ==> dst@[j] == src@[j],
        decreases len - i,
    {
        dst[i] = src[i];
        i = i + 1;
    }
    proof {
        assert(dst@ =~= src@);
    }
}

// ---------------------------------------------------------------------------
// The canvas state machine: disposal of the previous frame, snapshot for
// `Previous` disposal, blending of the current frame, emission of a
// fully composited full-canvas frame.
// ---------------------------------------------------------------------------

/// The transient state of the animated-PNG compositing state machine: the
/// composed canvas, the snapshot that `Previous` disposal restores, and the
/// control record of the frame composited last.
pub struct CanvasState {
    pub canvas: Seq<u8>,
    pub previous: Seq<u8>,
    pub prev_ctrl: Option<FrameControl>,
}

/// A control record whose region lies inside a canvas of the given size.
pub open spec fn ctrl_in_bounds(ctrl: FrameControl, width: int, height: int) -> bool {
    ctrl.x_offset + ctrl.width <= width && ctrl.y_offset + ctrl.height <= height
}

/// The canvas after the previously composited frame's disposal is applied:
/// `Keep` leaves it, `Background` clears that frame's region, `Previous`
/// restores the snapshot. With no previous frame the canvas is untouched.
pub open spec fn disposed_canvas(s: CanvasState, width: int) -> Seq<u8> {
    match s.prev_ctrl {
        Option::Some(fc) => match fc.dispose_op {
            DisposalMode::Keep => s.canvas,
            DisposalMode::Background => cleared_canvas(
                s.canvas,
                width,
                fc.x_offset as int,
                fc.y_offset as int,
                fc.width as int,
                fc.height as int,
            ),
            DisposalMode::Previous => s.previous,
        },
        Option::None => s.canvas,
    }
}

/// One step of the state machine: dispose the previous frame, snapshot the
/// canvas if this frame's own disposal is `Previous`, blend this frame's
/// pixels at its region, and record its control for the next step. The
/// emitted frame's buffer is the canvas of the resulting state.
pub open spec fn step_state(s: CanvasState, width: int, ctrl: FrameControl, rgba: Seq<u8>) -> CanvasState {
    let base = disposed_canvas(s, width);
    CanvasState {
        canvas: blended_canvas(
            base,
            rgba,
            width,
            ctrl.x_offset as int,
            ctrl.y_offset as int,
            ctrl.width as int,
            ctrl.height as int,
            ctrl.blend_op,
        ),
        previous: if ctrl.dispose_op == DisposalMode::Previous {
            base
        } else {
            s.previous
        },
        prev_ctrl: Option::Some(ctrl),
    }
}

/// The state every decode starts from: a fully transparent canvas, an
/// equally transparent snapshot, and no frame composited yet.
pub open spec fn initial_state(width: int, height: int) -> CanvasState {
    CanvasState {
        canvas: Seq::new((4 * width * height) as nat, |i: int| 0u8),
        previous: Seq::new((4 * width * height) as nat, |i: int| 0u8),
        prev_ctrl: Option::None,
    }
}

/// The state after the first `k` records of a raw frame sequence — each a
/// control record with its RGBA region pixels — have been composited.
pub open spec fn run_state(
    s0: CanvasState,
    width: int,
    records: Seq<(FrameControl, Seq<u8>)>,
    k: int,
) -> CanvasState
    decreases k,
{
    if k <= 0 {
        s0
    } else {
        step_state(run_state(s0, width, records, k - 1), width, records[k - 1].0, records[k - 1].1)
    }
}

/// The animated-PNG compositor: owns the canvas buffers of one decode call
/// and composites each raw frame into a full-canvas RGBA frame.
pub struct Compositor {
    width: u32,
    height: u32,
    canvas: Vec<u8>,
    previous: Vec<u8>,
    prev_ctrl: Option<FrameControl>,
}

impl Compositor {
    /// The compositor's state as the state machine sees it.
    pub closed spec fn state(&self) -> CanvasState {
        CanvasState { canvas: self.canvas@, previous: self.previous@, prev_ctrl: self.prev_ctrl }
    }

    /// Canvas width in pixels.
    pub closed spec fn spec_width(&self) -> u32 {
        self.width
    }

    /// Canvas height in pixels.
    pub closed spec fn spec_height(&self) -> u32 {
        self.height
    }

    /// Both buffers always hold exactly one canvas of RGBA bytes.
    pub open spec fn wf(&self) -> bool {
        &&& self.spec_width() >= 1
        &&& self.state().canvas.len() == 4 * self.spec_width() * self.spec_height()
        &&& self.state().previous.len() == 4 * self.spec_width() * self.spec_height()
    }

    /// A compositor over a fully transparent canvas with no frame recorded.
    pub fn new(width: u32, height: u32) -> (c: Compositor)
        requires
            width >= 1,
            height >= 1,
            4 * width * height <= usize::MAX,
        ensures
            c.wf(),
            c.spec_width() == width,
            c.spec_height() == height,
            c.state() == initial_state(width as int, height as int),
    {
        proof {
            assert(4 * (width as int) <= 4 * (width as int) * (height as int)) by (nonlinear_arith)
                requires
                    width >= 1,
                    height >= 1,
            ;
        }
        let len: usize = 4 * (width as usize) * (height as usize);
        let mut canvas: Vec<u8> = Vec::new();
        while canvas.len() < len
            invariant
                canvas@.len() <= len,
                forall|i: int| 0 <= i < canvas@.len() ==> canvas@[i] == 0u8,
            decreases len - canvas@.len(),
        {
            canvas.push(0);
        }
        let previous = clone_bytes(&canvas);
        proof {
            assert(canvas@ =~= Seq::new((4 * width * height) as nat, |i: int| 0u8));
        }
        let c = Compositor { width, height, canvas, previous, prev_ctrl: Option::None };
        proof {
            assert(c.state() == initial_state(width as int, height as int));
        }
        c
    }

    /// Composites one raw frame onto the canvas and emits the resulting
    /// full-canvas frame, advancing the state machine by one step.
    pub fn step(&mut self, ctrl: FrameControl, rgba: &Vec<u8>) -> (frame: Frame)
        requires
            old(self).wf(),
            ctrl_in_bounds(ctrl, old(self).spec_width() as int, old(self).spec_height() as int),
            rgba@.len() == 4 * ctrl.width * ctrl.height,
        ensures
            final(self).wf(),
            final(self).spec_width() == old(self).spec_width(),
            final(self).spec_height() == old(self).spec_height(),
            final(self).state() == step_state(
                old(self).state(),
                old(self).spec_width() as int,
                ctrl,
                rgba@,
            ),
            frame.wf(),
            frame.width == old(self).spec_width(),
            frame.height == old(self).spec_height(),
            frame.buffer@ == final(self).state().canvas,
            frame.delay == apng_delay_nanos(ctrl.delay_num, ctrl.delay_den),
    {
        // 1. Dispose the previously composited frame.
        match self.prev_ctrl {
            Option::Some(p) => match p.dispose_op {
                DisposalMode::Keep => {},
                DisposalMode::Background => {
                    clear_region(
                        &mut self.canvas,
                        self.width,
                        p.x_offset,
                        p.y_offset,
                        p.width,
                        p.height,
                    );
                },
                DisposalMode::Previous => {
                    copy_canvas(&mut self.canvas, &self.previous);
                },
            },
            Option::None => {},
        }
        // 2. Snapshot the canvas if this frame's own disposal restores it.
        if ctrl.dispose_op == DisposalMode::Previous {
            copy_canvas(&mut self.previous, &self.canvas);
        }
        // 3. Blend this frame's pixels at its declared region.
        proof {
            assert(4 * (ctrl.y_offset as int + ctrl.height as int) * (self.width as int) <= 4 * (
            self.width as int) * (self.height as int)) by (nonlinear_arith)
                requires
                    ctrl.y_offset as int + ctrl.height as int <= self.height as int,
                    self.width as int >= 0,
                    0 <= ctrl.y_offset as int,
                    0 <= ctrl.height as int,
            ;
        }
        blend_region(
            &mut self.canvas,
            self.width,
            rgba,
            ctrl.x_offset,
            ctrl.y_offset,
            ctrl.width,
            ctrl.height,
            ctrl.blend_op,
        );
        // 4. Emit an independent full-canvas copy and record this frame.
        let buffer = clone_bytes(&self.canvas);
        let delay = apng_frame_delay(ctrl.delay_num, ctrl.delay_den);
        self.prev_ctrl = Option::Some(ctrl);
        Frame { buffer, width: self.width, height: self.height, delay }
    }
}

// ---------------------------------------------------------------------------
// Laws of the state machine.
// ---------------------------------------------------------------------------

/// `Source` blending determines every byte of the region from the frame's
/// own pixels alone: two canvases of equal size agree on the whole region
/// after the same frame is composited onto each with `Source`. So after a
/// `Background` disposal, a covering `Source` frame leaves no residual pixel
/// of anything composited earlier anywhere in its region.
pub proof fn lemma_source_blend_leaves_no_residue(
    c1: Seq<u8>,
    c2: Seq<u8>,
    src: Seq<u8>,
    stride: int,
    x: int,
    y: int,
    w: int,
    h: int,
    i: int,
)
    requires
        c1.len() == c2.len(),
        0 <= i < c1.len(),
        in_region(stride, x, y, w, h, i),
    ensures
        blended_canvas(c1, src, stride, x, y, w, h, BlendMode::Source)[i] == blended_canvas(
            c2,
            src,
            stride,
            x,
            y,
            w,
            h,
            BlendMode::Source,
        )[i],
{
}

/// The same, lifted to the state machine: whatever two histories left on
/// the canvas — in particular a `Background` disposal against anything
/// else — a `Source` frame makes every byte of its region identical after
/// one step. Nothing from two frames back survives inside the region.
pub proof fn lemma_source_step_erases_history(
    s1: CanvasState,
    s2: CanvasState,
    width: int,
    ctrl: FrameControl,
    rgba: Seq<u8>,
    i: int,
)
    requires
        ctrl.blend_op == BlendMode::Source,
        disposed_canvas(s1, width).len() == disposed_canvas(s2, width).len(),
        0 <= i < disposed_canvas(s1, width).len(),
        in_region(
            width,
            ctrl.x_offset as int,
            ctrl.y_offset as int,
            ctrl.width as int,
            ctrl.height as int,
            i,
        ),
    ensures
        step_state(s1, width, ctrl, rgba).canvas[i] == step_state(s2, width, ctrl, rgba).canvas[i],
{
    lemma_source_blend_leaves_no_residue(
        disposed_canvas(s1, width),
        disposed_canvas(s2, width),
        rgba,
        width,
        ctrl.x_offset as int,
        ctrl.y_offset as int,
        ctrl.width as int,
        ctrl.height as int,
        i,
    );
}

/// `Previous` disposal restores faithfully: if a frame declares disposal
/// `Previous`, then whatever that frame painted, the canvas the next frame
/// is composited onto equals the canvas this frame itself was composited
/// onto.
pub proof fn lemma_previous_disposal_restores(
    s: CanvasState,
    width: int,
    ctrl: FrameControl,
    rgba: Seq<u8>,
)
    requires
        ctrl.dispose_op == DisposalMode::Previous,
    ensures
        disposed_canvas(step_state(s, width, ctrl, rgba), width) == disposed_canvas(s, width),
{
    // The step snapshots the disposed canvas before blending, and the next
    // disposal restores exactly that snapshot.
}

} // verus!
