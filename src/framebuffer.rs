//! The RGBA8 pixel model of a frame, and "over" compositing.
//!
//! A frame of `w × h` pixels is a byte sequence of length `w * h * 4`, row by
//! row; pixel (x, y) occupies the four bytes from `(y * w + x) * 4`.

use vstd::prelude::*;
use vstd::arithmetic::div_mod::lemma_fundamental_div_mod_converse;

verus! {

/// Largest screen side, in pixels: `u32::MAX`, the largest side a canvas or
/// its image data can have. With it, every product the wall and sprite
/// projections form stays inside `i128`.
pub const MAX_SCREEN: usize = 4294967295;

/// One pixel.
#[derive(Clone, Copy, Debug, PartialEq, Eq, Structural)]
pub struct Rgba {
    pub r: u8,
    pub g: u8,
    pub b: u8,
    pub a: u8,
}

/// First byte of pixel (x, y) in a frame `w` pixels wide.
pub open spec fn px_index(w: int, x: int, y: int) -> int {
    (y * w + x) * 4
}

/// The pixel (x, y) of a frame `w` pixels wide.
pub open spec fn pixel_at(buf: Seq<u8>, w: int, x: int, y: int) -> Rgba {
    let i = px_index(w, x, y);
    Rgba { r: buf[i], g: buf[i + 1], b: buf[i + 2], a: buf[i + 3] }
}

/// The four bytes of a pixel lie inside the frame.
pub proof fn lemma_pixel_in_frame(w: int, h: int, x: int, y: int)
    requires
        0 <= x < w,
        0 <= y < h,
    ensures
        0 <= y * w <= y * w + x < w * h,
        0 <= px_index(w, x, y),
        px_index(w, x, y) + 3 < w * h * 4,
{
    assert(0 <= y * w) by (nonlinear_arith)
        requires 0 <= x < w, 0 <= y < h;
    assert(0 <= y * w + x < w * h) by (nonlinear_arith)
        requires 0 <= x < w, 0 <= y < h;
}

/// Distinct pixels occupy disjoint bytes.
pub proof fn lemma_pixels_disjoint(w: int, x1: int, y1: int, x2: int, y2: int)
    requires
        0 <= x1 < w,
        0 <= x2 < w,
        0 <= y1,
        0 <= y2,
        x1 != x2 || y1 != y2,
    ensures
        px_index(w, x1, y1) + 4 <= px_index(w, x2, y2) || px_index(w, x2, y2) + 4 <= px_index(
            w,
            x1,
            y1,
        ),
{
    let q1 = y1 * w + x1;
    let q2 = y2 * w + x2;
    if q1 == q2 {
        lemma_fundamental_div_mod_converse(q1, w, y1, x1);
        lemma_fundamental_div_mod_converse(q2, w, y2, x2);
    }
}

/// "Over" compositing of `src` onto `dst`, in exact integer arithmetic with
/// alpha on a 0..=255 scale. A transparent source leaves the destination as
/// it is. Otherwise the source carries weight `srcA·255` and the destination
/// `dstA·(255 − srcA)`; each colour channel is the weighted mean, and the new
/// alpha is the total weight over 255. A zero total only clears the alpha.
pub open spec fn blend(dst: Rgba, src: Rgba) -> Rgba {
    if src.a == 0 {
        dst
    } else {
        let ws = src.a * 255;
        let wd = dst.a * (255 - src.a);
        let total = ws + wd;
        if total == 0 {
            Rgba { a: 0, ..dst }
        } else {
            Rgba {
                r: ((src.r * ws + dst.r * wd) / total) as u8,
                g: ((src.g * ws + dst.g * wd) / total) as u8,
                b: ((src.b * ws + dst.b * wd) / total) as u8,
                a: (total / 255) as u8,
            }
        }
    }
}

/// The weighted mean of two channels stays a channel value.
proof fn lemma_mean_in_range(s: int, d: int, ws: int, wd: int)
    requires
        0 <= s <= 255,
        0 <= d <= 255,
        0 <= ws,
        0 <= wd,
        ws + wd > 0,
    ensures
        0 <= (s * ws + d * wd) / (ws + wd) <= 255,
{
    assert(0 <= s * ws + d * wd <= 255 * (ws + wd)) by (nonlinear_arith)
        requires 0 <= s <= 255, 0 <= d <= 255, 0 <= ws, 0 <= wd;
    vstd::arithmetic::div_mod::lemma_div_is_ordered(s * ws + d * wd, 255 * (ws + wd), ws + wd);
    vstd::arithmetic::div_mod::lemma_div_pos_is_pos(s * ws + d * wd, ws + wd);
    assert((255 * (ws + wd)) / (ws + wd) == 255) by {
        vstd::arithmetic::div_mod::lemma_div_multiples_vanish(255, ws + wd);
        assert((ws + wd) * 255 == 255 * (ws + wd)) by (nonlinear_arith);
    }
}

fn channel_mean(s: u8, d: u8, ws: u32, wd: u32) -> (r: u8)
    requires
        ws <= 255 * 255,
        wd <= 255 * 255,
        ws + wd > 0,
    ensures
        r == (s * ws + d * wd) / (ws + wd),
{
    assert(s * ws <= 255 * 255 * 255 && d * wd <= 255 * 255 * 255) by (nonlinear_arith)
        requires s <= 255, d <= 255, ws <= 255 * 255, wd <= 255 * 255;
    proof { lemma_mean_in_range(s as int, d as int, ws as int, wd as int); }
    ((s as u32 * ws + d as u32 * wd) / (ws + wd)) as u8
}

/// Composites `src` over `dst`.
pub fn blend_pixel(dst: Rgba, src: Rgba) -> (r: Rgba)
    ensures
        r == blend(dst, src),
{
    if src.a == 0 {
        return dst;
    }
    let ws: u32 = src.a as u32 * 255;
    assert(dst.a * (255 - src.a) <= 255 * 255) by (nonlinear_arith)
        requires dst.a <= 255, 0 < src.a <= 255;
    let wd: u32 = dst.a as u32 * (255 - src.a as u32);
    let total = ws + wd;
    if total == 0 {
        return Rgba { a: 0, ..dst };
    }
    assert(total / 255 <= 255) by {
        assert(src.a * 255 + dst.a * (255 - src.a) <= 255 * 255) by (nonlinear_arith)
            requires dst.a <= 255, 0 < src.a <= 255;
        vstd::arithmetic::div_mod::lemma_div_is_ordered(total as int, 255int * 255, 255int);
    }
    Rgba {
        r: channel_mean(src.r, dst.r, ws, wd),
        g: channel_mean(src.g, dst.g, ws, wd),
        b: channel_mean(src.b, dst.b, ws, wd),
        a: (total / 255) as u8,
    }
}

/// Compositing a fully opaque source replaces the destination exactly,
/// whatever the destination held.
pub proof fn lemma_blend_opaque_replaces(dst: Rgba, src: Rgba)
    requires
        src.a == 255,
    ensures
        blend(dst, src) == src,
{
    assert(dst.a * (255 - src.a) == 0);
    lemma_scale_cancels(src.r as int);
    lemma_scale_cancels(src.g as int);
    lemma_scale_cancels(src.b as int);
}

proof fn lemma_scale_cancels(c: int)
    ensures
        (c * (255int * 255) + 0) / (255int * 255) == c,
{
    vstd::arithmetic::div_mod::lemma_div_multiples_vanish(c, 255int * 255);
    assert((255int * 255) * c == c * (255int * 255)) by (nonlinear_arith);
}

/// Compositing a fully transparent source never changes the destination.
pub proof fn lemma_blend_transparent_keeps(dst: Rgba, src: Rgba)
    requires
        src.a == 0,
    ensures
        blend(dst, src) == dst,
{
}

/// Compositing onto an opaque destination leaves it opaque.
pub proof fn lemma_blend_onto_opaque_stays_opaque(dst: Rgba, src: Rgba)
    requires
        dst.a == 255,
    ensures
        blend(dst, src).a == 255,
{
    if src.a != 0 {
        assert(src.a * 255 + 255 * (255 - src.a) == 255 * 255) by (nonlinear_arith);
    }
}

} // verus!
