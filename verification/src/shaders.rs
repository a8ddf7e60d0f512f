//! The two shader stages: what each pass computes per vertex and per
//! triangle before handing flat-colored screen-space triangles to the
//! rasterizer.
//!
//! The cel stage shades one banded (quantized) diffuse color per triangle
//! from its averaged normal and centroid; the outline stage expands each
//! vertex along its projected normal by the outline thickness in pixels and
//! draws the reversed-winding (back-face) hull, so the shaded body later
//! overdraws everything but the silhouette rim.

use vstd::prelude::*;
use vstd::arithmetic::div_mod::{
    lemma_div_is_ordered, lemma_div_pos_is_pos, lemma_fundamental_div_mod_converse,
};
use crate::color::{Rgb, Rgba};
use crate::fx::{
    clamp01, clamp01_spec, clamp_sym, clamp_sym_spec, cos_fx, cos_fx_spec, div_floor_pos,
    fx_div, fx_mul, fx_mul_unit, fxd, fxm, iabs, isqrt, lemma_div_floor_bound,
    lemma_mul_bound, lemma_sqrt_floor_at_least, lemma_sqrt_floor_bounds, sqrt_floor,
    FP_ONE, FP_PI,
};
use crate::light::{
    inv_square, inv_square_spec, range_factor, range_factor_spec, spot_factor,
    spot_factor_spec, LightType, MAX_INTENSITY,
};
use crate::raster::{ScreenVertex, sv_wf};
use crate::vecmat::{
    dot3, dot3_spec, m4_lim, transform4, transform4_spec, v3_lim, Mat4, Vec3, Vec4,
};

verus! {

/// Bound on placed-light positions and axes (256 world units, fixed point).
pub const LIGHT_POS_LIM: i64 = 0x100_0000;

/// Envelope surface points and normals are clamped into before lighting.
pub const SHADE_LIM: i64 = 0x200_0000;

/// Vector-magnitude cap accepted by `cos_between`.
pub const COS_IN_LIM: i64 = 0x4000_0000;

/// Bound on matrix entries accepted by the vertex projection.
pub const MVP_LIM: i64 = 0x80_0000_0000;

/// Clip-space magnitude cap; vertices beyond it are rejected (clipped).
pub const CLIP_LIM: i64 = 0x4000_0000_0000;

/// Normalized-device-coordinate guard band (eight screens across).
pub const NDC_LIM: i64 = 0x8_0000;

/// Largest accepted outline thickness (64 pixels, fixed point).
pub const MAX_THICKNESS: i64 = 0x40_0000;

/// Largest accepted light-list length.
pub const MAX_LIGHTS: usize = 256;

/// A light together with its placement: `position` locates point and spot
/// lights, `direction` is the forward (local minus-z) axis of directional and
/// spot lights, in world space.
#[derive(Clone, Copy, PartialEq, Eq, Structural, Debug)]
pub struct PlacedLight {
    pub light: LightType,
    pub position: Vec3,
    pub direction: Vec3,
}

pub open spec fn placed_wf(pl: PlacedLight) -> bool {
    &&& pl.light.wf()
    &&& v3_lim(pl.position, LIGHT_POS_LIM as int)
    &&& v3_lim(pl.direction, LIGHT_POS_LIM as int)
}

/// Componentwise difference `a - b`.
pub open spec fn sub3_spec(a: Vec3, b: Vec3) -> Vec3 {
    Vec3 { x: (a.x - b.x) as i64, y: (a.y - b.y) as i64, z: (a.z - b.z) as i64 }
}

pub open spec fn neg3_spec(a: Vec3) -> Vec3 {
    Vec3 { x: (-a.x) as i64, y: (-a.y) as i64, z: (-a.z) as i64 }
}

pub open spec fn clamp3_spec(a: Vec3, lim: int) -> Vec3 {
    Vec3 {
        x: clamp_sym_spec(a.x as int, lim) as i64,
        y: clamp_sym_spec(a.y as int, lim) as i64,
        z: clamp_sym_spec(a.z as int, lim) as i64,
    }
}

pub fn sub3(a: Vec3, b: Vec3, Ghost(l): Ghost<int>) -> (r: Vec3)
    requires
        v3_lim(a, l),
        v3_lim(b, l),
        0 <= l <= 0x1000_0000,
    ensures
        r == sub3_spec(a, b),
        v3_lim(r, 2 * l),
{
    Vec3 { x: a.x - b.x, y: a.y - b.y, z: a.z - b.z }
}

pub fn neg3(a: Vec3, Ghost(l): Ghost<int>) -> (r: Vec3)
    requires
        v3_lim(a, l),
        0 <= l <= 0x1000_0000,
    ensures
        r == neg3_spec(a),
        v3_lim(r, l),
{
    Vec3 { x: -a.x, y: -a.y, z: -a.z }
}

pub fn clamp3(a: Vec3, lim: i64) -> (r: Vec3)
    requires
        0 <= lim,
    ensures
        r == clamp3_spec(a, lim as int),
        v3_lim(r, lim as int),
{
    Vec3 { x: clamp_sym(a.x, lim), y: clamp_sym(a.y, lim), z: clamp_sym(a.z, lim) }
}

/// Euclidean length of a fixed-point vector, rounded down (a fixed-point
/// magnitude again, since the components scale linearly).
pub open spec fn norm_raw_spec(v: Vec3) -> int {
    sqrt_floor((v.x * v.x + v.y * v.y + v.z * v.z) as nat) as int
}

pub fn norm_raw(v: Vec3, Ghost(l): Ghost<int>) -> (r: i64)
    requires
        v3_lim(v, l),
        0 <= l <= COS_IN_LIM,
    ensures
        r as int == norm_raw_spec(v),
        0 <= r <= 0x8000_0000,
{
    proof {
        lemma_mul_bound(v.x as int, v.x as int, l, l);
        lemma_mul_bound(v.y as int, v.y as int, l, l);
        lemma_mul_bound(v.z as int, v.z as int, l, l);
        assert(0 <= v.x as int * v.x as int && 0 <= v.y as int * v.y as int
            && 0 <= v.z as int * v.z as int) by (nonlinear_arith);
        assert(l * l <= 0x1000_0000_0000_0000) by (nonlinear_arith)
            requires 0 <= l <= 0x4000_0000;
    }
    let sq = v.x * v.x + v.y * v.y + v.z * v.z;
    let r = isqrt(sq as u64);
    proof {
        assert(0 <= sq);
        assert(sq as nat <= 0x8000_0000 * 0x8000_0000);
        crate::fx::lemma_sqrt_le(sq as nat, 0x8000_0000);
    }
    r as i64
}

/// Cosine of the angle between two vectors, in `[-FP_ONE, FP_ONE]`; zero when
/// either vector is (nearly) zero length.
pub open spec fn cos_between_spec(a: Vec3, b: Vec3) -> int {
    let den = fxm(norm_raw_spec(a), norm_raw_spec(b));
    if den <= 0 {
        0
    } else {
        clamp_sym_spec(fxd(dot3_spec(a, b), den), FP_ONE as int)
    }
}

pub fn cos_between(a: Vec3, b: Vec3, Ghost(l): Ghost<int>) -> (r: i64)
    requires
        v3_lim(a, l),
        v3_lim(b, l),
        0 <= l <= COS_IN_LIM,
    ensures
        r as int == cos_between_spec(a, b),
        -FP_ONE <= r <= FP_ONE,
{
    let na = norm_raw(a, Ghost(l));
    let nb = norm_raw(b, Ghost(l));
    proof {
        lemma_mul_bound(na as int, nb as int, 0x8000_0000, 0x8000_0000);
    }
    let den = fx_mul(na, nb);
    if den <= 0 {
        0
    } else {
        proof {
            assert(l * l <= 0x4000_0000_0000_0000) by (nonlinear_arith)
                requires 0 <= l <= 0x4000_0000;
        }
        let dt = dot3(a, b, Ghost(l), Ghost(l));
        proof {
            assert(3 * (l * l / (FP_ONE as int)) + 3 <= 0x4000_0000_0000) by (nonlinear_arith)
                requires 0 <= l <= 0x4000_0000;
        }
        let c = fx_div(dt, den);
        clamp_sym(c, FP_ONE)
    }
}

/// Quantize a diffuse term in `[0, FP_ONE]` into four discrete cel bands.
pub open spec fn band_spec(x: int) -> int {
    (4 * x / (FP_ONE as int)) * 16384
}

pub fn band(x: i64) -> (r: i64)
    requires
        0 <= x <= FP_ONE,
    ensures
        r as int == band_spec(x as int),
        0 <= r <= FP_ONE,
{
    let q = div_floor_pos(4 * x, FP_ONE);
    proof {
        lemma_div_pos_is_pos(4 * x as int, FP_ONE as int);
        lemma_div_is_ordered(4 * x as int, 4 * FP_ONE as int, FP_ONE as int);
    }
    q * 16384
}

/// The scalar diffuse weight one placed light contributes at surface point
/// `p` with (unnormalized) normal `n`: its intensity, attenuated by inverse
/// square distance, range falloff and spot cone where applicable, times the
/// banded Lambert term.
pub open spec fn light_weight_spec(pl: PlacedLight, p: Vec3, n: Vec3) -> int {
    match pl.light {
        LightType::Directional { intensity, .. } => {
            let lam = clamp01_spec(cos_between_spec(n, neg3_spec(pl.direction)));
            fxm(intensity as int, band_spec(lam))
        },
        LightType::Point { intensity, range, .. } => {
            let delta = sub3_spec(pl.position, p);
            let d = norm_raw_spec(delta);
            let lam = clamp01_spec(cos_between_spec(n, delta));
            fxm(
                fxm(fxm(intensity as int, inv_square_spec(d)), range_factor_spec(d, range)),
                band_spec(lam),
            )
        },
        LightType::Spot { intensity, range, inner_cone_angle, outer_cone_angle, .. } => {
            let delta = sub3_spec(pl.position, p);
            let d = norm_raw_spec(delta);
            let lam = clamp01_spec(cos_between_spec(n, delta));
            let ang = if outer_cone_angle == FP_PI {
                FP_ONE as int
            } else {
                spot_factor_spec(
                    cos_between_spec(neg3_spec(delta), pl.direction),
                    clamp01_spec(cos_fx_spec(inner_cone_angle as int)),
                    clamp01_spec(cos_fx_spec(outer_cone_angle as int)),
                )
            };
            fxm(
                fxm(
                    fxm(fxm(intensity as int, inv_square_spec(d)), range_factor_spec(d, range)),
                    ang,
                ),
                band_spec(lam),
            )
        },
    }
}

pub fn light_weight(pl: &PlacedLight, p: Vec3, n: Vec3) -> (r: i64)
    requires
        placed_wf(*pl),
        v3_lim(p, SHADE_LIM as int),
        v3_lim(n, SHADE_LIM as int),
    ensures
        r as int == light_weight_spec(*pl, p, n),
        0 <= r <= MAX_INTENSITY,
{
    match pl.light {
        LightType::Directional { intensity, .. } => {
            let lam = clamp01(cos_between(n, neg3(pl.direction, Ghost(LIGHT_POS_LIM as int)),
                Ghost(SHADE_LIM as int)));
            fx_mul_unit(intensity, band(lam))
        },
        LightType::Point { intensity, range, .. } => {
            let delta = sub3(pl.position, p, Ghost(SHADE_LIM as int));
            let d = norm_raw(delta, Ghost(2 * SHADE_LIM as int));
            let lam = clamp01(cos_between(n, delta, Ghost(2 * SHADE_LIM as int)));
            let w1 = fx_mul_unit(intensity, inv_square(d));
            let w2 = fx_mul_unit(w1, range_factor(d, range));
            fx_mul_unit(w2, band(lam))
        },
        LightType::Spot { intensity, range, inner_cone_angle, outer_cone_angle, .. } => {
            let delta = sub3(pl.position, p, Ghost(SHADE_LIM as int));
            let d = norm_raw(delta, Ghost(2 * SHADE_LIM as int));
            let lam = clamp01(cos_between(n, delta, Ghost(2 * SHADE_LIM as int)));
            let ang = if outer_cone_angle == FP_PI {
                FP_ONE
            } else {
                let ci = clamp01(cos_fx(inner_cone_angle));
                let co = clamp01(cos_fx(outer_cone_angle));
                let ca = cos_between(neg3(delta, Ghost(2 * SHADE_LIM as int)), pl.direction,
                    Ghost(2 * SHADE_LIM as int));
                spot_factor(ca, ci, co)
            };
            let w1 = fx_mul_unit(intensity, inv_square(d));
            let w2 = fx_mul_unit(w1, range_factor(d, range));
            let w3 = fx_mul_unit(w2, ang);
            fx_mul_unit(w3, band(lam))
        },
    }
}

/// Accumulated per-channel diffuse light, as unbounded integers.
pub ghost struct RgbAcc {
    pub r: int,
    pub g: int,
    pub b: int,
}

pub open spec fn light_rgb_spec(pl: PlacedLight, p: Vec3, n: Vec3) -> RgbAcc {
    let w = light_weight_spec(pl, p, n);
    let c = pl.light.color_of();
    RgbAcc { r: fxm(c.r as int, w), g: fxm(c.g as int, w), b: fxm(c.b as int, w) }
}

/// Sum of the first `k` lights' contributions.
pub open spec fn acc_lights_spec(lights: Seq<PlacedLight>, p: Vec3, n: Vec3, k: int) -> RgbAcc
    decreases k,
{
    if k <= 0 {
        RgbAcc { r: 0, g: 0, b: 0 }
    } else {
        let a = acc_lights_spec(lights, p, n, k - 1);
        let c = light_rgb_spec(lights[k - 1], p, n);
        RgbAcc { r: a.r + c.r, g: a.g + c.g, b: a.b + c.b }
    }
}

/// The cel-shaded surface color: base color times the clamped sum of the
/// ambient floor and every light's banded diffuse contribution; alpha is the
/// base alpha.
pub open spec fn cel_shade_spec(
    base: Rgba, ambient: int, lights: Seq<PlacedLight>, p: Vec3, n: Vec3,
) -> Rgba {
    let acc = acc_lights_spec(lights, p, n, lights.len() as int);
    Rgba {
        r: fxm(base.r as int, clamp01_spec(ambient + acc.r)) as i64,
        g: fxm(base.g as int, clamp01_spec(ambient + acc.g)) as i64,
        b: fxm(base.b as int, clamp01_spec(ambient + acc.b)) as i64,
        a: base.a,
    }
}

pub fn cel_shade(
    base: Rgba, ambient: i64, lights: &Vec<PlacedLight>, p: Vec3, n: Vec3,
) -> (r: Rgba)
    requires
        base.wf(),
        0 <= ambient <= FP_ONE,
        lights@.len() <= MAX_LIGHTS,
        forall|i: int| 0 <= i < lights@.len() ==> placed_wf(#[trigger] lights@[i]),
        v3_lim(p, SHADE_LIM as int),
        v3_lim(n, SHADE_LIM as int),
    ensures
        r == cel_shade_spec(base, ambient as int, lights@, p, n),
        r.wf(),
{
    let mut ar: i64 = 0;
    let mut ag: i64 = 0;
    let mut ab: i64 = 0;
    let mut i: usize = 0;
    while i < lights.len()
        invariant
            i <= lights@.len() <= MAX_LIGHTS,
            forall|j: int| 0 <= j < lights@.len() ==> placed_wf(#[trigger] lights@[j]),
            v3_lim(p, SHADE_LIM as int),
            v3_lim(n, SHADE_LIM as int),
            acc_lights_spec(lights@, p, n, i as int)
                == (RgbAcc { r: ar as int, g: ag as int, b: ab as int }),
            0 <= ar <= i * (MAX_INTENSITY as int),
            0 <= ag <= i * (MAX_INTENSITY as int),
            0 <= ab <= i * (MAX_INTENSITY as int),
        decreases lights@.len() - i,
    {
        let pl = &lights[i];
        let w = light_weight(pl, p, n);
        let c = pl.light.color();
        let cr = fx_mul_unit(w, c.r);
        let cg = fx_mul_unit(w, c.g);
        let cb = fx_mul_unit(w, c.b);
        proof {
            crate::fx::lemma_fxm_comm(w as int, c.r as int);
            crate::fx::lemma_fxm_comm(w as int, c.g as int);
            crate::fx::lemma_fxm_comm(w as int, c.b as int);
            assert((i + 1) * (MAX_INTENSITY as int)
                == i * (MAX_INTENSITY as int) + MAX_INTENSITY) by (nonlinear_arith);
        }
        ar = ar + cr;
        ag = ag + cg;
        ab = ab + cb;
        i = i + 1;
    }
    proof {
        assert(0 <= ar <= 0x100_0000_0000);
        assert(MAX_LIGHTS * (MAX_INTENSITY as int) == 0x100_0000_0000);
    }
    Rgba {
        r: fx_mul_unit(base.r, clamp01(ambient + ar)),
        g: fx_mul_unit(base.g, clamp01(ambient + ag)),
        b: fx_mul_unit(base.b, clamp01(ambient + ab)),
        a: base.a,
    }
}

/// Project one model-space position through the composite transform onto the
/// screen: perspective divide, guard-band clipping, then the viewport map
/// (top row first, depth in `[0, FP_ONE]`).
pub open spec fn project_spec(mvp: Mat4, pos: Vec3, w: int, h: int) -> Option<ScreenVertex> {
    let clip = transform4_spec(mvp, Vec4 { x: pos.x, y: pos.y, z: pos.z, w: FP_ONE });
    if !(0 < clip.w <= CLIP_LIM) || iabs(clip.x as int) > CLIP_LIM
        || iabs(clip.y as int) > CLIP_LIM || iabs(clip.z as int) > CLIP_LIM {
        Option::None
    } else {
        let nx = fxd(clip.x as int, clip.w as int);
        let ny = fxd(clip.y as int, clip.w as int);
        let nz = fxd(clip.z as int, clip.w as int);
        if nx < -NDC_LIM || nx > NDC_LIM || ny < -NDC_LIM || ny > NDC_LIM
            || nz < 0 || nz > FP_ONE {
            Option::None
        } else {
            Option::Some(ScreenVertex {
                x: ((nx + FP_ONE) * w / 131072) as i64,
                y: (((FP_ONE - ny) * h) / 131072) as i64,
                z: nz as i64,
            })
        }
    }
}

pub fn project_vertex(mvp: &Mat4, pos: Vec3, w: usize, h: usize) -> (r: Option<ScreenVertex>)
    requires
        m4_lim(*mvp, MVP_LIM as int),
        v3_lim(pos, 0x80_0000),
        0 < w <= 4096,
        0 < h <= 4096,
    ensures
        r == project_spec(*mvp, pos, w as int, h as int),
        r is Some ==> sv_wf(r->0) && iabs(r->0.x as int) <= 0x8000
            && iabs(r->0.y as int) <= 0x8000,
{
    let clip = transform4(
        mvp,
        Vec4 { x: pos.x, y: pos.y, z: pos.z, w: FP_ONE },
        Ghost(MVP_LIM as int),
        Ghost(0x80_0000),
    );
    if !(clip.w > 0 && clip.w <= CLIP_LIM) || clip.x > CLIP_LIM || clip.x < -CLIP_LIM
        || clip.y > CLIP_LIM || clip.y < -CLIP_LIM || clip.z > CLIP_LIM || clip.z < -CLIP_LIM {
        return Option::None;
    }
    let nx = fx_div(clip.x, clip.w);
    let ny = fx_div(clip.y, clip.w);
    let nz = fx_div(clip.z, clip.w);
    if nx < -NDC_LIM || nx > NDC_LIM || ny < -NDC_LIM || ny > NDC_LIM || nz < 0 || nz > FP_ONE {
        return Option::None;
    }
    proof {
        lemma_mul_bound(nx as int + FP_ONE, w as int, 0x9_0000, 4096);
        lemma_mul_bound(FP_ONE as int - ny, h as int, 0x9_0000, 4096);
    }
    let sx = div_floor_pos((nx + FP_ONE) * (w as i64), 131072);
    let sy = div_floor_pos((FP_ONE - ny) * (h as i64), 131072);
    proof {
        lemma_div_floor_bound((nx as int + FP_ONE) * w as int, 0x9000_0000, 131072);
        lemma_div_floor_bound((FP_ONE as int - ny) * h as int, 0x9000_0000, 131072);
    }
    Option::Some(ScreenVertex { x: sx, y: sy, z: nz })
}

/// Move a projected vertex `thickness` pixels along its projected normal
/// direction `nd` (clip-space; the screen y axis points down, so the y
/// offset is negated). A normal that projects to (nearly) zero moves
/// nothing.
pub open spec fn expand_spec(sv: ScreenVertex, nd: Vec4, thickness: int) -> ScreenVertex {
    let cx = clamp_sym_spec(nd.x as int, COS_IN_LIM as int);
    let cy = clamp_sym_spec(nd.y as int, COS_IN_LIM as int);
    let len = sqrt_floor((cx * cx + cy * cy) as nat) as int;
    if len <= 0 {
        sv
    } else {
        let ux = fxd(cx, len);
        let uy = fxd(cy, len);
        ScreenVertex {
            x: (sv.x + fxm(thickness, ux) / (FP_ONE as int)) as i64,
            y: (sv.y - fxm(thickness, uy) / (FP_ONE as int)) as i64,
            z: sv.z,
        }
    }
}

pub fn expand_vertex(sv: ScreenVertex, nd: Vec4, thickness: i64) -> (r: ScreenVertex)
    requires
        iabs(sv.x as int) <= 0x8000,
        iabs(sv.y as int) <= 0x8000,
        0 <= sv.z <= FP_ONE,
        0 <= thickness <= MAX_THICKNESS,
    ensures
        r == expand_spec(sv, nd, thickness as int),
        sv_wf(r),
{
    let cx = clamp_sym(nd.x, COS_IN_LIM);
    let cy = clamp_sym(nd.y, COS_IN_LIM);
    proof {
        lemma_mul_bound(cx as int, cx as int, COS_IN_LIM as int, COS_IN_LIM as int);
        lemma_mul_bound(cy as int, cy as int, COS_IN_LIM as int, COS_IN_LIM as int);
        assert(0 <= cx as int * cx as int && 0 <= cy as int * cy as int) by (nonlinear_arith);
    }
    let sq = cx * cx + cy * cy;
    let len = isqrt(sq as u64);
    if len == 0 {
        proof {
            lemma_sqrt_floor_bounds(sq as nat);
        }
        return sv;
    }
    proof {
        assert(0 <= sq);
        assert(sq as nat <= 0x8000_0000 * 0x8000_0000);
        crate::fx::lemma_sqrt_le(sq as nat, 0x8000_0000);
        assert(iabs(cx as int) * iabs(cx as int) <= sq) by (nonlinear_arith)
            requires sq == cx as int * cx as int + cy as int * cy as int;
        lemma_sqrt_floor_at_least((sq as u64) as nat, iabs(cx as int) as nat);
        assert(iabs(cy as int) * iabs(cy as int) <= sq) by (nonlinear_arith)
            requires sq == cx as int * cx as int + cy as int * cy as int;
        lemma_sqrt_floor_at_least((sq as u64) as nat, iabs(cy as int) as nat);
    }
    let leni = len as i64;
    let ux = fx_div(cx, leni);
    let uy = fx_div(cy, leni);
    proof {
        lemma_unit_ratio(cx as int, leni as int);
        lemma_unit_ratio(cy as int, leni as int);
        lemma_mul_bound(thickness as int, ux as int, MAX_THICKNESS as int, FP_ONE as int);
        lemma_mul_bound(thickness as int, uy as int, MAX_THICKNESS as int, FP_ONE as int);
        lemma_div_floor_bound(thickness as int * ux as int, 0x40_0000_0000, FP_ONE as int);
        lemma_div_floor_bound(thickness as int * uy as int, 0x40_0000_0000, FP_ONE as int);
    }
    let ox = div_floor_pos(fx_mul(thickness, ux), FP_ONE);
    let oy = div_floor_pos(fx_mul(thickness, uy), FP_ONE);
    proof {
        lemma_div_floor_bound(fxm(thickness as int, ux as int), 0x40_0001, FP_ONE as int);
        lemma_div_floor_bound(fxm(thickness as int, uy as int), 0x40_0001, FP_ONE as int);
    }
    ScreenVertex { x: sv.x + ox, y: sv.y - oy, z: sv.z }
}

/// `|a| <= b` gives a fixed-point ratio `a * FP_ONE / b` within
/// `[-FP_ONE, FP_ONE]`.
proof fn lemma_unit_ratio(a: int, b: int)
    requires
        0 < b,
        iabs(a) <= b,
        b <= 0x8000_0000,
    ensures
        -(FP_ONE as int) <= fxd(a, b) <= FP_ONE as int,
{
    lemma_div_is_ordered(a * FP_ONE, b * FP_ONE, b);
    lemma_div_is_ordered(-(b * FP_ONE as int), a * FP_ONE, b);
    assert(a * FP_ONE <= b * FP_ONE && -(b * FP_ONE as int) <= a * FP_ONE)
        by (nonlinear_arith)
        requires iabs(a) <= b;
    lemma_fundamental_div_mod_converse(b * FP_ONE, b, FP_ONE as int, 0);
    lemma_fundamental_div_mod_converse(-(b * FP_ONE as int), b, -(FP_ONE as int), 0);
}

} // verus!
