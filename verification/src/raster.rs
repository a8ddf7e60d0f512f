//! The shared triangle-rasterization primitive of both shader passes.
//!
//! Vertices arrive in screen space (integer pixel coordinates, fixed-point
//! depth). A triangle is filled with one flat color: for every pixel of its
//! bounding box that lies inside all three edges, a depth-tested fragment is
//! submitted. The contract pins the whole resulting buffer pixel by pixel.

use vstd::prelude::*;
use vstd::arithmetic::div_mod::{
    lemma_div_is_ordered, lemma_fundamental_div_mod, lemma_fundamental_div_mod_converse,
    lemma_mod_bound,
};
use crate::color::Rgba;
use crate::framebuffer::{frag_color, frag_depth, lemma_row_major_index, Framebuffer};
use crate::fx::{div_floor_pos, iabs, lemma_mul_bound, FP_ONE};

verus! {

/// Bound on screen-space coordinates the rasterizer accepts.
pub const COORD_LIM: i64 = 0x10_0000;

/// A vertex mapped to the screen: integer pixel coordinates, and a
/// fixed-point depth in `[0, FP_ONE]` (0 nearest).
#[derive(Clone, Copy, PartialEq, Eq, Structural, Debug)]
pub struct ScreenVertex {
    pub x: i64,
    pub y: i64,
    pub z: i64,
}

pub open spec fn sv_wf(v: ScreenVertex) -> bool {
    &&& -COORD_LIM <= v.x <= COORD_LIM
    &&& -COORD_LIM <= v.y <= COORD_LIM
    &&& 0 <= v.z <= FP_ONE
}

/// Twice the signed area of the triangle (a, b, p); positive when the walk
/// a -> b -> p turns clockwise on screen (y grows downward).
pub open spec fn edge_fn(ax: int, ay: int, bx: int, by: int, px: int, py: int) -> int {
    (bx - ax) * (py - ay) - (by - ay) * (px - ax)
}

pub open spec fn tri_area2(v0: ScreenVertex, v1: ScreenVertex, v2: ScreenVertex) -> int {
    edge_fn(v0.x as int, v0.y as int, v1.x as int, v1.y as int, v2.x as int, v2.y as int)
}

pub open spec fn min3(a: int, b: int, c: int) -> int {
    if a <= b && a <= c { a } else if b <= c { b } else { c }
}

pub open spec fn max3(a: int, b: int, c: int) -> int {
    if a >= b && a >= c { a } else if b >= c { b } else { c }
}

/// Whether the rasterizer fills pixel `(px, py)` for this (front-facing)
/// triangle: inside the triangle's bounding box and on or inside all three
/// edges.
pub open spec fn tri_covers(
    v0: ScreenVertex, v1: ScreenVertex, v2: ScreenVertex, px: int, py: int,
) -> bool {
    &&& tri_area2(v0, v1, v2) > 0
    &&& min3(v0.x as int, v1.x as int, v2.x as int) <= px
        <= max3(v0.x as int, v1.x as int, v2.x as int)
    &&& min3(v0.y as int, v1.y as int, v2.y as int) <= py
        <= max3(v0.y as int, v1.y as int, v2.y as int)
    &&& edge_fn(v1.x as int, v1.y as int, v2.x as int, v2.y as int, px, py) >= 0
    &&& edge_fn(v2.x as int, v2.y as int, v0.x as int, v0.y as int, px, py) >= 0
    &&& edge_fn(v0.x as int, v0.y as int, v1.x as int, v1.y as int, px, py) >= 0
}

/// Barycentric depth at a covered pixel: the edge-weighted mean of the three
/// vertex depths, flooring.
pub open spec fn tri_depth(
    v0: ScreenVertex, v1: ScreenVertex, v2: ScreenVertex, px: int, py: int,
) -> int {
    let e0 = edge_fn(v1.x as int, v1.y as int, v2.x as int, v2.y as int, px, py);
    let e1 = edge_fn(v2.x as int, v2.y as int, v0.x as int, v0.y as int, px, py);
    let e2 = edge_fn(v0.x as int, v0.y as int, v1.x as int, v1.y as int, px, py);
    (e0 * v0.z + e1 * v1.z + e2 * v2.z) / tri_area2(v0, v1, v2)
}

/// One rasterization request against a snapshot of the buffers.
pub ghost struct TriJob {
    pub c: Seq<Rgba>,
    pub d: Seq<int>,
    pub w: int,
    pub h: int,
    pub v0: ScreenVertex,
    pub v1: ScreenVertex,
    pub v2: ScreenVertex,
    pub col: Rgba,
}

/// The depth buffer viewed as mathematical integers.
pub open spec fn dview(fb: Framebuffer) -> Seq<int> {
    fb.depth@.map_values(|v: i64| v as int)
}

pub open spec fn job_of(
    fb: Framebuffer, v0: ScreenVertex, v1: ScreenVertex, v2: ScreenVertex, col: Rgba,
) -> TriJob {
    TriJob {
        c: fb.color@,
        d: dview(fb),
        w: fb.width as int,
        h: fb.height as int,
        v0,
        v1,
        v2,
        col,
    }
}

/// The color pixel `i` holds after the triangle is rasterized.
pub open spec fn out_color(g: TriJob, i: int) -> Rgba {
    if tri_covers(g.v0, g.v1, g.v2, i % g.w, i / g.w)
        && tri_depth(g.v0, g.v1, g.v2, i % g.w, i / g.w) < g.d[i] {
        g.col
    } else {
        g.c[i]
    }
}

/// The depth pixel `i` holds after the triangle is rasterized.
pub open spec fn out_depth(g: TriJob, i: int) -> int {
    if tri_covers(g.v0, g.v1, g.v2, i % g.w, i / g.w)
        && tri_depth(g.v0, g.v1, g.v2, i % g.w, i / g.w) < g.d[i] {
        tri_depth(g.v0, g.v1, g.v2, i % g.w, i / g.w)
    } else {
        g.d[i]
    }
}

pub open spec fn tri_apply_c(g: TriJob) -> Seq<Rgba> {
    Seq::new(g.c.len(), |i: int| out_color(g, i))
}

pub open spec fn tri_apply_d(g: TriJob) -> Seq<int> {
    Seq::new(g.d.len(), |i: int| out_depth(g, i))
}

/// Pixel `(px, py)` of the buffers holds its final (post-triangle) value.
pub open spec fn cell_done(g: TriJob, fb: Framebuffer, px: int, py: int) -> bool {
    &&& fb.color@[py * g.w + px] == out_color(g, py * g.w + px)
    &&& fb.depth@[py * g.w + px] as int == out_depth(g, py * g.w + px)
}

/// Pixel `(px, py)` of the buffers is untouched.
pub open spec fn cell_same(g: TriJob, fb: Framebuffer, px: int, py: int) -> bool {
    &&& fb.color@[py * g.w + px] == g.c[py * g.w + px]
    &&& fb.depth@[py * g.w + px] as int == g.d[py * g.w + px]
}

pub fn edge(ax: i64, ay: i64, bx: i64, by: i64, px: i64, py: i64) -> (e: i64)
    requires
        iabs(ax as int) <= COORD_LIM,
        iabs(ay as int) <= COORD_LIM,
        iabs(bx as int) <= COORD_LIM,
        iabs(by as int) <= COORD_LIM,
        iabs(px as int) <= COORD_LIM,
        iabs(py as int) <= COORD_LIM,
    ensures
        e as int == edge_fn(ax as int, ay as int, bx as int, by as int, px as int, py as int),
        iabs(e as int) <= 0x1000_0000_0000,
{
    proof {
        lemma_mul_bound(bx - ax, py - ay, 0x20_0000, 0x20_0000);
        lemma_mul_bound(by - ay, px - ax, 0x20_0000, 0x20_0000);
    }
    (bx - ax) * (py - ay) - (by - ay) * (px - ax)
}

/// Rasterize one flat-colored triangle into the buffers. Every pixel of the
/// result is pinned: covered pixels receive a depth-tested fragment of color
/// `col` at the interpolated depth, all others are untouched. A triangle with
/// non-positive signed area (back-facing or degenerate) covers nothing.
pub fn draw_triangle(
    fb: &mut Framebuffer,
    v0: ScreenVertex,
    v1: ScreenVertex,
    v2: ScreenVertex,
    col: Rgba,
)
    requires
        old(fb).wf(),
        sv_wf(v0),
        sv_wf(v1),
        sv_wf(v2),
    ensures
        final(fb).wf(),
        final(fb).width == old(fb).width,
        final(fb).height == old(fb).height,
        final(fb).color@ == tri_apply_c(job_of(*old(fb), v0, v1, v2, col)),
        dview(*final(fb)) == tri_apply_d(job_of(*old(fb), v0, v1, v2, col)),
{
    let ghost g = job_of(*fb, v0, v1, v2, col);
    let w = fb.width;
    let h = fb.height;
    proof {
        lemma_row_major_index(w as int, h as int, 0, 0);
        assert(g.c.len() == g.w * g.h);
        assert(g.d.len() == g.w * g.h);
    }
    let area = edge(v0.x, v0.y, v1.x, v1.y, v2.x, v2.y);
    if area <= 0 {
        proof {
            assert forall|qx: int, qy: int|
                0 <= qx < g.w && 0 <= qy < g.h implies !tri_covers(v0, v1, v2, qx, qy) by {}
            lemma_tri_job_identity(g, *fb);
        }
        return;
    }
    let xa = min3_exec(v0.x, v1.x, v2.x);
    let xb = max3_exec(v0.x, v1.x, v2.x);
    let ya = min3_exec(v0.y, v1.y, v2.y);
    let yb = max3_exec(v0.y, v1.y, v2.y);
    let x_lo_i: i64 = if xa < 0 { 0 } else { xa };
    let x_hi_i: i64 = if xb > (w as i64) - 1 { (w as i64) - 1 } else { xb };
    let y_lo_i: i64 = if ya < 0 { 0 } else { ya };
    let y_hi_i: i64 = if yb > (h as i64) - 1 { (h as i64) - 1 } else { yb };
    if x_lo_i > x_hi_i || y_lo_i > y_hi_i {
        proof {
            assert forall|qx: int, qy: int|
                0 <= qx < g.w && 0 <= qy < g.h implies !tri_covers(v0, v1, v2, qx, qy) by {}
            lemma_tri_job_identity(g, *fb);
        }
        return;
    }
    let x_lo: usize = x_lo_i as usize;
    let x_hi: usize = x_hi_i as usize;
    let y_lo: usize = y_lo_i as usize;
    let y_hi: usize = y_hi_i as usize;
    let mut py: usize = y_lo;
    proof {
        assert forall|qx: int, qy: int|
            0 <= qx < g.w && 0 <= qy < g.h implies #[trigger] cell_same(g, *fb, qx, qy) by {
            lemma_row_major_index(g.w, g.h, qx, qy);
        }
        assert forall|qx: int, qy: int|
            0 <= qx < g.w && 0 <= qy < g.h && qy < py as int
                implies #[trigger] cell_done(g, *fb, qx, qy) by {
            lemma_row_major_index(g.w, g.h, qx, qy);
            lemma_fundamental_div_mod_converse(qy * g.w + qx, g.w, qy, qx);
            assert(!tri_covers(v0, v1, v2, qx, qy));
        }
    }
    while py <= y_hi
        invariant
            fb.wf(),
            fb.width == w,
            fb.height == h,
            area as int == tri_area2(v0, v1, v2),
            g == (TriJob {
                c: g.c, d: g.d, w: w as int, h: h as int, v0, v1, v2, col,
            }),
            g.c.len() == g.w * g.h,
            g.d.len() == g.w * g.h,
            g.c.len() == fb.color@.len(),
            g.d.len() == fb.depth@.len(),
            sv_wf(v0) && sv_wf(v1) && sv_wf(v2),
            tri_area2(v0, v1, v2) > 0,
            x_lo == (if min3(v0.x as int, v1.x as int, v2.x as int) < 0 { 0 }
                else { min3(v0.x as int, v1.x as int, v2.x as int) }),
            x_hi_i == (if max3(v0.x as int, v1.x as int, v2.x as int) > w - 1 { w - 1 }
                else { max3(v0.x as int, v1.x as int, v2.x as int) }),
            y_lo == (if min3(v0.y as int, v1.y as int, v2.y as int) < 0 { 0 }
                else { min3(v0.y as int, v1.y as int, v2.y as int) }),
            y_hi_i == (if max3(v0.y as int, v1.y as int, v2.y as int) > h - 1 { h - 1 }
                else { max3(v0.y as int, v1.y as int, v2.y as int) }),
            x_lo == x_lo_i && x_hi == x_hi_i && y_lo == y_lo_i && y_hi == y_hi_i,
            0 <= x_lo_i <= x_hi_i <= w - 1,
            0 <= y_lo_i <= y_hi_i <= h - 1,
            y_lo <= py <= y_hi + 1,
            forall|qx: int, qy: int|
                0 <= qx < g.w && 0 <= qy < g.h && qy < py
                    ==> #[trigger] cell_done(g, *fb, qx, qy),
            forall|qx: int, qy: int|
                0 <= qx < g.w && 0 <= qy < g.h && qy >= py
                    ==> #[trigger] cell_same(g, *fb, qx, qy),
        decreases y_hi + 1 - py,
    {
        let mut px: usize = x_lo;
        proof {
            assert forall|qx: int|
                0 <= qx < px as int implies #[trigger] cell_done(g, *fb, qx, py as int) by {
                lemma_row_major_index(g.w, g.h, qx, py as int);
                lemma_fundamental_div_mod_converse(py as int * g.w + qx, g.w, py as int, qx);
                assert(cell_same(g, *fb, qx, py as int));
                assert(!tri_covers(v0, v1, v2, qx, py as int));
            }
        }
        while px <= x_hi
            invariant
                fb.wf(),
                fb.width == w,
                fb.height == h,
                area as int == tri_area2(v0, v1, v2),
                g == (TriJob {
                    c: g.c, d: g.d, w: w as int, h: h as int, v0, v1, v2, col,
                }),
                g.c.len() == g.w * g.h,
                g.d.len() == g.w * g.h,
                g.c.len() == fb.color@.len(),
                g.d.len() == fb.depth@.len(),
                sv_wf(v0) && sv_wf(v1) && sv_wf(v2),
                tri_area2(v0, v1, v2) > 0,
                x_lo == (if min3(v0.x as int, v1.x as int, v2.x as int) < 0 { 0 }
                    else { min3(v0.x as int, v1.x as int, v2.x as int) }),
                x_hi_i == (if max3(v0.x as int, v1.x as int, v2.x as int) > w - 1 { w - 1 }
                    else { max3(v0.x as int, v1.x as int, v2.x as int) }),
                y_lo == (if min3(v0.y as int, v1.y as int, v2.y as int) < 0 { 0 }
                    else { min3(v0.y as int, v1.y as int, v2.y as int) }),
                y_hi_i == (if max3(v0.y as int, v1.y as int, v2.y as int) > h - 1 { h - 1 }
                    else { max3(v0.y as int, v1.y as int, v2.y as int) }),
                x_lo == x_lo_i && x_hi == x_hi_i && y_lo == y_lo_i && y_hi == y_hi_i,
                0 <= x_lo_i <= x_hi_i <= w - 1,
                0 <= y_lo_i <= y_hi_i <= h - 1,
                y_lo <= py <= y_hi <= h - 1,
                x_lo <= px <= x_hi + 1,
                forall|qx: int, qy: int|
                    0 <= qx < g.w && 0 <= qy < g.h && qy < py
                        ==> #[trigger] cell_done(g, *fb, qx, qy),
                forall|qx: int|
                    0 <= qx < px ==> #[trigger] cell_done(g, *fb, qx, py as int),
                forall|qx: int|
                    px <= qx < g.w ==> #[trigger] cell_same(g, *fb, qx, py as int),
                forall|qx: int, qy: int|
                    0 <= qx < g.w && 0 <= qy < g.h && qy > py
                        ==> #[trigger] cell_same(g, *fb, qx, qy),
            decreases x_hi + 1 - px,
        {
            let pxi = px as i64;
            let pyi = py as i64;
            let e0 = edge(v1.x, v1.y, v2.x, v2.y, pxi, pyi);
            let e1 = edge(v2.x, v2.y, v0.x, v0.y, pxi, pyi);
            let e2 = edge(v0.x, v0.y, v1.x, v1.y, pxi, pyi);
            let ghost i = py as int * g.w + px as int;
            proof {
                lemma_row_major_index(g.w, g.h, px as int, py as int);
                lemma_fundamental_div_mod_converse(i, g.w, py as int, px as int);
            }
            if e0 >= 0 && e1 >= 0 && e2 >= 0 {
                proof {
                    lemma_mul_bound(e0 as int, v0.z as int, 0x1000_0000_0000, FP_ONE as int);
                    lemma_mul_bound(e1 as int, v1.z as int, 0x1000_0000_0000, FP_ONE as int);
                    lemma_mul_bound(e2 as int, v2.z as int, 0x1000_0000_0000, FP_ONE as int);
                }
                let num = e0 * v0.z + e1 * v1.z + e2 * v2.z;
                let d = div_floor_pos(num, area);
                proof {
                    assert(tri_covers(v0, v1, v2, px as int, py as int));
                    assert(d == tri_depth(v0, v1, v2, px as int, py as int));
                }
                let ghost fb_before = *fb;
                fb.write_fragment(px, py, col, d);
                proof {
                    assert(cell_same(g, fb_before, px as int, py as int));
                    assert(fb.color@[i] == frag_color(
                        fb_before.color@[i], fb_before.depth@[i], col, d,
                    ));
                    assert(fb.depth@[i] == frag_depth(fb_before.depth@[i], d));
                    lemma_cell_step(g, fb_before, *fb, px as int, py as int, d as int);
                }
            } else {
                proof {
                    assert(!tri_covers(v0, v1, v2, px as int, py as int));
                    assert(cell_same(g, *fb, px as int, py as int));
                    assert(cell_done(g, *fb, px as int, py as int));
                }
            }
            px = px + 1;
        }
        proof {
            assert forall|qx: int|
                0 <= qx < g.w implies #[trigger] cell_done(g, *fb, qx, py as int) by {
                if qx >= px {
                    assert(cell_same(g, *fb, qx, py as int));
                    assert(qx > max3(v0.x as int, v1.x as int, v2.x as int));
                    assert(!tri_covers(v0, v1, v2, qx, py as int));
                    lemma_row_major_index(g.w, g.h, qx, py as int);
                    lemma_fundamental_div_mod_converse(
                        py as int * g.w + qx, g.w, py as int, qx,
                    );
                }
            }
        }
        py = py + 1;
    }
    proof {
        assert forall|qx: int, qy: int|
            0 <= qx < g.w && 0 <= qy < g.h implies #[trigger] cell_done(g, *fb, qx, qy) by {
            if qy >= py {
                assert(cell_same(g, *fb, qx, qy));
                assert(qy > max3(v0.y as int, v1.y as int, v2.y as int));
                assert(!tri_covers(v0, v1, v2, qx, qy));
                lemma_row_major_index(g.w, g.h, qx, qy);
                lemma_fundamental_div_mod_converse(qy * g.w + qx, g.w, qy, qx);
            }
        }
        lemma_cells_done_to_seqs(g, *fb);
    }
}

/// Law: when two triangles cover one pixel and both would pass the depth
/// test there, at distinct depths, the pixel ends with the nearer triangle's
/// color and depth whichever of the two is rasterized first.
pub proof fn lemma_raster_order_independent(
    c: Seq<Rgba>, d: Seq<int>, w: int, h: int,
    v0a: ScreenVertex, v1a: ScreenVertex, v2a: ScreenVertex, cola: Rgba,
    v0b: ScreenVertex, v1b: ScreenVertex, v2b: ScreenVertex, colb: Rgba, i: int,
)
    requires
        0 < w,
        0 < h,
        c.len() == w * h,
        d.len() == w * h,
        0 <= i < c.len(),
        tri_covers(v0a, v1a, v2a, i % w, i / w),
        tri_covers(v0b, v1b, v2b, i % w, i / w),
        tri_depth(v0a, v1a, v2a, i % w, i / w) < d[i],
        tri_depth(v0b, v1b, v2b, i % w, i / w) < d[i],
        tri_depth(v0a, v1a, v2a, i % w, i / w) != tri_depth(v0b, v1b, v2b, i % w, i / w),
    ensures
        ({
            let ga = TriJob { c, d, w, h, v0: v0a, v1: v1a, v2: v2a, col: cola };
            let gb_after_a = TriJob {
                c: tri_apply_c(ga), d: tri_apply_d(ga), w, h, v0: v0b, v1: v1b, v2: v2b,
                col: colb,
            };
            let gb = TriJob { c, d, w, h, v0: v0b, v1: v1b, v2: v2b, col: colb };
            let ga_after_b = TriJob {
                c: tri_apply_c(gb), d: tri_apply_d(gb), w, h, v0: v0a, v1: v1a, v2: v2a,
                col: cola,
            };
            let nearer_col = if tri_depth(v0a, v1a, v2a, i % w, i / w)
                < tri_depth(v0b, v1b, v2b, i % w, i / w) { cola } else { colb };
            &&& tri_apply_c(gb_after_a)[i] == nearer_col
            &&& tri_apply_c(ga_after_b)[i] == nearer_col
            &&& tri_apply_d(gb_after_a)[i] == tri_apply_d(ga_after_b)[i]
        }),
{
    let ga = TriJob { c, d, w, h, v0: v0a, v1: v1a, v2: v2a, col: cola };
    let gb = TriJob { c, d, w, h, v0: v0b, v1: v1b, v2: v2b, col: colb };
    assert(tri_apply_c(ga)[i] == out_color(ga, i));
    assert(tri_apply_d(ga)[i] == out_depth(ga, i));
    assert(tri_apply_c(gb)[i] == out_color(gb, i));
    assert(tri_apply_d(gb)[i] == out_depth(gb, i));
}

fn min3_exec(a: i64, b: i64, c: i64) -> (m: i64)
    ensures
        m as int == min3(a as int, b as int, c as int),
{
    if a <= b && a <= c { a } else if b <= c { b } else { c }
}

fn max3_exec(a: i64, b: i64, c: i64) -> (m: i64)
    ensures
        m as int == max3(a as int, b as int, c as int),
{
    if a >= b && a >= c { a } else if b >= c { b } else { c }
}

/// A triangle that covers no on-screen pixel leaves the buffers equal to
/// their per-pixel rasterization image.
proof fn lemma_tri_job_identity(g: TriJob, fb: Framebuffer)
    requires
        fb.wf(),
        g.c == fb.color@,
        g.d == dview(fb),
        g.w == fb.width as int,
        g.h == fb.height as int,
        g.c.len() == g.w * g.h,
        g.d.len() == g.w * g.h,
        forall|px: int, py: int|
            0 <= px < g.w && 0 <= py < g.h ==> !tri_covers(g.v0, g.v1, g.v2, px, py),
    ensures
        fb.color@ == tri_apply_c(g),
        dview(fb) == tri_apply_d(g),
{
    assert forall|i: int| 0 <= i < g.c.len() implies out_color(g, i) == g.c[i]
        && out_depth(g, i) == g.d[i] by {
        lemma_index_decomp(g.w, g.h, i);
    }
    assert(fb.color@ =~= tri_apply_c(g));
    assert(dview(fb) =~= tri_apply_d(g));
}

/// Row-major index decomposition: for `0 <= i < w * h`, the pixel coordinates
/// `(i % w, i / w)` are on screen.
pub proof fn lemma_index_decomp(w: int, h: int, i: int)
    requires
        0 < w,
        0 < h,
        0 <= i < w * h,
    ensures
        0 <= i % w < w,
        0 <= i / w < h,
        (i / w) * w + (i % w) == i,
{
    lemma_fundamental_div_mod(i, w);
    lemma_mod_bound(i, w);
    assert((i / w) * w + (i % w) == i) by (nonlinear_arith)
        requires i == w * (i / w) + (i % w);
    assert(i / w < h) by {
        if i / w >= h {
            assert(w * (i / w) >= w * h) by (nonlinear_arith)
                requires i / w >= h, 0 < w;
        }
    }
    assert(0 <= i / w) by {
        if i / w < 0 {
            assert(w * (i / w) <= -w) by (nonlinear_arith)
                requires i / w <= -1, 0 < w;
            assert(i < 0);
        }
    }
}

/// A depth-tested fragment write at a covered pixel makes exactly that cell
/// done and keeps every other cell as it was.
proof fn lemma_cell_step(
    g: TriJob, before: Framebuffer, after: Framebuffer, px: int, py: int, d: int,
)
    requires
        before.wf(),
        after.wf(),
        g.w == before.width as int,
        g.h == before.height as int,
        after.width == before.width,
        after.height == before.height,
        g.c.len() == g.w * g.h,
        g.d.len() == g.w * g.h,
        g.c.len() == before.color@.len(),
        g.d.len() == before.depth@.len(),
        0 <= px < g.w,
        0 <= py < g.h,
        tri_covers(g.v0, g.v1, g.v2, px, py),
        d == tri_depth(g.v0, g.v1, g.v2, px, py),
        forall|j: int|
            0 <= j < g.c.len() && j != py * g.w + px
                ==> after.color@[j] == before.color@[j] && after.depth@[j] == before.depth@[j],
        after.depth@[py * g.w + px] as int
            == (if d < g.d[py * g.w + px] { d } else { g.d[py * g.w + px] }),
        after.color@[py * g.w + px]
            == (if d < g.d[py * g.w + px] { g.col } else { g.c[py * g.w + px] }),
    ensures
        cell_done(g, after, px, py),
        forall|qx: int, qy: int|
            0 <= qx < g.w && 0 <= qy < g.h && !(qx == px && qy == py)
                ==> (cell_same(g, before, qx, qy) ==> cell_same(g, after, qx, qy))
                    && (cell_done(g, before, qx, qy) ==> cell_done(g, after, qx, qy)),
{
    let i = py * g.w + px;
    lemma_row_major_index(g.w, g.h, px, py);
    lemma_fundamental_div_mod_converse(i, g.w, py, px);
    assert(cell_done(g, after, px, py));
    assert forall|qx: int, qy: int|
        0 <= qx < g.w && 0 <= qy < g.h && !(qx == px && qy == py)
            implies (cell_same(g, before, qx, qy) ==> cell_same(g, after, qx, qy))
                && (cell_done(g, before, qx, qy) ==> cell_done(g, after, qx, qy)) by {
        let j = qy * g.w + qx;
        lemma_row_major_index(g.w, g.h, qx, qy);
        if j == i {
            lemma_fundamental_div_mod_converse(j, g.w, qy, qx);
        }
    }
}

/// From "every cell is done" to equality with the rasterization image.
proof fn lemma_cells_done_to_seqs(g: TriJob, fb: Framebuffer)
    requires
        fb.wf(),
        g.w == fb.width as int,
        g.h == fb.height as int,
        g.c.len() == g.w * g.h,
        g.d.len() == g.w * g.h,
        g.c.len() == fb.color@.len(),
        g.d.len() == fb.depth@.len(),
        forall|qx: int, qy: int|
            0 <= qx < g.w && 0 <= qy < g.h ==> #[trigger] cell_done(g, fb, qx, qy),
    ensures
        fb.color@ == tri_apply_c(g),
        dview(fb) == tri_apply_d(g),
{
    assert forall|i: int| 0 <= i < g.c.len() implies fb.color@[i] == out_color(g, i)
        && fb.depth@[i] as int == out_depth(g, i) by {
        lemma_index_decomp(g.w, g.h, i);
        assert(cell_done(g, fb, i % g.w, i / g.w));
    }
    assert(fb.color@ =~= tri_apply_c(g));
    assert(dview(fb) =~= tri_apply_d(g));
}

} // verus!
