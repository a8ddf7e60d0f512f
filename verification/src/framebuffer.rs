//! The shared color/depth buffer pair that both shader passes draw into.
//!
//! A fragment is written only if it wins the strictly-less-than depth test,
//! and then color and depth move together: there is no partial write.

use vstd::prelude::*;
use crate::color::Rgba;

verus! {

/// Depth the buffer is cleared to; fragments carry depths in `[0, FP_ONE]`,
/// all nearer than this.
pub const DEPTH_FAR: i64 = 0x4000_0000;

/// Largest supported buffer side length.
pub const MAX_DIM: usize = 4096;

/// Bounds on a row-major pixel index.
pub proof fn lemma_row_major_index(w: int, h: int, x: int, y: int)
    requires
        0 <= x < w,
        0 <= y < h,
        w <= MAX_DIM,
        h <= MAX_DIM,
    ensures
        0 <= y * w + x < w * h,
        w * h <= 0x100_0000,
{
    assert(y * w + x < w * h && w * h <= 0x100_0000) by (nonlinear_arith)
        requires 0 <= x < w, 0 <= y < h, w <= 4096, h <= 4096;
    assert(0 <= y * w) by (nonlinear_arith)
        requires 0 <= y, 0 < w;
}

/// A color buffer and a depth buffer of one size, row-major, top row first.
pub struct Framebuffer {
    pub width: usize,
    pub height: usize,
    pub color: Vec<Rgba>,
    pub depth: Vec<i64>,
}

/// What one depth-tested fragment leaves in a pixel's color slot.
pub open spec fn frag_color(old_c: Rgba, old_d: i64, c: Rgba, d: i64) -> Rgba {
    if d < old_d { c } else { old_c }
}

/// What one depth-tested fragment leaves in a pixel's depth slot.
pub open spec fn frag_depth(old_d: i64, d: i64) -> i64 {
    if d < old_d { d } else { old_d }
}

impl Framebuffer {
    pub open spec fn wf(self) -> bool {
        &&& 0 < self.width <= MAX_DIM
        &&& 0 < self.height <= MAX_DIM
        &&& self.color@.len() == self.width * self.height
        &&& self.depth@.len() == self.width * self.height
    }

    pub open spec fn idx(self, x: int, y: int) -> int {
        y * self.width + x
    }

    /// A fresh buffer: every pixel holds the background color, every depth
    /// slot the far value.
    pub fn new(width: usize, height: usize, background: Rgba) -> (fb: Framebuffer)
        requires
            0 < width <= MAX_DIM,
            0 < height <= MAX_DIM,
        ensures
            fb.wf(),
            fb.width == width,
            fb.height == height,
            forall|i: int| 0 <= i < width * height ==> fb.color@[i] == background,
            forall|i: int| 0 <= i < width * height ==> fb.depth@[i] == DEPTH_FAR,
    {
        proof {
            lemma_row_major_index(width as int, height as int, 0, 0);
        }
        let n = width * height;
        let mut color: Vec<Rgba> = Vec::new();
        let mut depth: Vec<i64> = Vec::new();
        let mut i: usize = 0;
        while i < n
            invariant
                i <= n,
                color@.len() == i,
                depth@.len() == i,
                forall|j: int| 0 <= j < i ==> color@[j] == background,
                forall|j: int| 0 <= j < i ==> depth@[j] == DEPTH_FAR,
            decreases n - i,
        {
            color.push(background);
            depth.push(DEPTH_FAR);
            i = i + 1;
        }
        Framebuffer { width, height, color, depth }
    }

    /// Submit one fragment at pixel `(x, y)`: it lands iff its depth is
    /// strictly nearer than the stored depth, updating color and depth
    /// atomically; otherwise the buffer is untouched.
    pub fn write_fragment(&mut self, x: usize, y: usize, c: Rgba, d: i64)
        requires
            old(self).wf(),
            x < old(self).width,
            y < old(self).height,
        ensures
            final(self).wf(),
            final(self).width == old(self).width,
            final(self).height == old(self).height,
            ({
                let i = old(self).idx(x as int, y as int);
                &&& final(self).color@ == old(self).color@.update(
                        i,
                        frag_color(old(self).color@[i], old(self).depth@[i], c, d),
                    )
                &&& final(self).depth@ == old(self).depth@.update(
                        i,
                        frag_depth(old(self).depth@[i], d),
                    )
            }),
    {
        proof {
            lemma_row_major_index(
                self.width as int, self.height as int, x as int, y as int,
            );
        }
        let i = y * self.width + x;
        if d < self.depth[i] {
            self.color.set(i, c);
            self.depth.set(i, d);
        } else {
            proof {
                assert(self.color@ =~= self.color@.update(
                    i as int, self.color@[i as int],
                ));
                assert(self.depth@ =~= self.depth@.update(
                    i as int, self.depth@[i as int],
                ));
            }
        }
    }
}

/// Law: when two fragments at distinct depths, both nearer than the stored
/// depth, hit the same pixel, the pixel ends with the nearer fragment's color
/// and depth whichever of the two arrives first.
pub proof fn lemma_depth_order_independent(
    c0: Rgba, d0: i64, c1: Rgba, d1: i64, c2: Rgba, d2: i64,
)
    requires
        d1 < d0,
        d2 < d0,
        d1 != d2,
    ensures
        ({
            let first_then_second = frag_color(
                frag_color(c0, d0, c1, d1), frag_depth(d0, d1), c2, d2,
            );
            let second_then_first = frag_color(
                frag_color(c0, d0, c2, d2), frag_depth(d0, d2), c1, d1,
            );
            &&& first_then_second == second_then_first
            &&& first_then_second == (if d1 < d2 { c1 } else { c2 })
            &&& frag_depth(frag_depth(d0, d1), d2) == frag_depth(frag_depth(d0, d2), d1)
        }),
{
}

} // verus!
