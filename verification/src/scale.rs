//! Integer upscaling of a rendered color buffer: deterministic
//! nearest-neighbor pixel replication, exact at every factor and lossless at
//! factor one.

use vstd::prelude::*;
use vstd::arithmetic::div_mod::{
    lemma_div_is_ordered, lemma_div_pos_is_pos, lemma_fundamental_div_mod_converse,
};
use crate::color::Rgba;
use crate::framebuffer::lemma_row_major_index;

verus! {

/// Largest supported upscale factor.
pub const MAX_SCALE: usize = 16;

/// The color an output pixel takes: that of the source pixel it replicates.
pub open spec fn scaled_pixel(src: Seq<Rgba>, w: int, k: int, x: int, y: int) -> Rgba {
    src[(y / k) * w + (x / k)]
}

/// Law: scaling by factor one replicates each pixel onto itself, so the
/// output buffer is the input buffer.
pub proof fn lemma_scale_one(src: Seq<Rgba>, w: int, x: int, y: int)
    requires
        0 <= x,
        0 <= y,
    ensures
        scaled_pixel(src, w, 1, x, y) == src[y * w + x],
{
    lemma_fundamental_div_mod_converse(x, 1, x, 0);
    lemma_fundamental_div_mod_converse(y, 1, y, 0);
}

/// Scale a `w` by `h` buffer up by the integer factor `k`: the output is
/// exactly `k` times as wide and tall, and output pixel `(x, y)` carries
/// source pixel `(x / k, y / k)` — each source pixel becomes a `k` by `k`
/// block.
pub fn scale_buffer(src: &Vec<Rgba>, w: usize, h: usize, k: usize) -> (out: Vec<Rgba>)
    requires
        0 < w,
        0 < h,
        0 < k <= MAX_SCALE,
        w * k <= 4096,
        h * k <= 4096,
        src@.len() == w * h,
    ensures
        out@.len() == (w * k) * (h * k),
        forall|x: int, y: int|
            0 <= x < w * k && 0 <= y < h * k
                ==> out@[y * (w * k) + x] == scaled_pixel(src@, w as int, k as int, x, y),
{
    let wk = w * k;
    let hk = h * k;
    proof {
        assert(w <= wk && h <= hk) by (nonlinear_arith)
            requires 0 < w, 0 < h, 0 < k, wk == w * k, hk == h * k;
        lemma_row_major_index(wk as int, hk as int, 0, 0);
        lemma_row_major_index(w as int, h as int, 0, 0);
    }
    let mut out: Vec<Rgba> = Vec::new();
    let mut oy: usize = 0;
    while oy < hk
        invariant
            0 < w,
            0 < h,
            0 < k <= MAX_SCALE,
            wk == w * k,
            hk == h * k,
            0 < wk <= 4096,
            0 < hk <= 4096,
            src@.len() == w * h,
            oy <= hk,
            out@.len() == oy * wk,
            forall|x: int, y: int|
                0 <= x < wk && 0 <= y < oy
                    ==> out@[y * (wk as int) + x]
                        == scaled_pixel(src@, w as int, k as int, x, y),
        decreases hk - oy,
    {
        let mut ox: usize = 0;
        while ox < wk
            invariant
                0 < w,
                0 < h,
                0 < k <= MAX_SCALE,
                wk == w * k,
                hk == h * k,
                0 < wk <= 4096,
                0 < hk <= 4096,
                src@.len() == w * h,
                oy < hk,
                ox <= wk,
                out@.len() == oy * wk + ox,
                forall|x: int, y: int|
                    0 <= x < wk && 0 <= y < oy
                        ==> out@[y * (wk as int) + x]
                            == scaled_pixel(src@, w as int, k as int, x, y),
                forall|x: int|
                    0 <= x < ox
                        ==> out@[oy * (wk as int) + x]
                            == scaled_pixel(src@, w as int, k as int, x, oy as int),
            decreases wk - ox,
        {
            let sx = ox / k;
            let sy = oy / k;
            proof {
                lemma_div_pos_is_pos(ox as int, k as int);
                lemma_div_pos_is_pos(oy as int, k as int);
                lemma_div_is_ordered(ox as int, wk as int - 1, k as int);
                lemma_div_is_ordered(oy as int, hk as int - 1, k as int);
                assert(wk as int - 1 == (w - 1) * k + (k - 1)) by (nonlinear_arith)
                    requires wk == w * k;
                lemma_fundamental_div_mod_converse(
                    wk as int - 1, k as int, w as int - 1, k as int - 1,
                );
                assert(hk as int - 1 == (h - 1) * k + (k - 1)) by (nonlinear_arith)
                    requires hk == h * k;
                lemma_fundamental_div_mod_converse(
                    hk as int - 1, k as int, h as int - 1, k as int - 1,
                );
                lemma_row_major_index(w as int, h as int, sx as int, sy as int);
                lemma_row_major_index(wk as int, hk as int, ox as int, oy as int);
            }
            let si = sy * w + sx;
            out.push(src[si]);
            proof {
                assert(out@.len() == oy * wk + ox + 1);
                assert(out@[oy * (wk as int) + ox as int]
                    == scaled_pixel(src@, w as int, k as int, ox as int, oy as int));
                assert forall|x: int, y: int|
                    0 <= x < wk && 0 <= y < oy
                        implies out@[y * (wk as int) + x]
                            == scaled_pixel(src@, w as int, k as int, x, y) by {
                    assert(0 <= y * (wk as int) + x < oy * wk) by (nonlinear_arith)
                        requires 0 <= x < wk, 0 <= y, y < oy;
                }
            }
            ox = ox + 1;
        }
        proof {
            assert((oy + 1) * (wk as int) == oy * wk + wk) by (nonlinear_arith);
            assert forall|x: int, y: int|
                0 <= x < wk && 0 <= y < oy + 1
                    implies out@[y * (wk as int) + x]
                        == scaled_pixel(src@, w as int, k as int, x, y) by {
                if y < oy {
                    assert(0 <= y * (wk as int) + x < oy * wk) by (nonlinear_arith)
                        requires 0 <= x < wk, 0 <= y, y < oy;
                }
            }
        }
        oy = oy + 1;
    }
    proof {
        assert(hk * (wk as int) == (wk as int) * (hk as int)) by (nonlinear_arith);
    }
    out
}

} // verus!
