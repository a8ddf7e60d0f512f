//! The light model: punctual light variants, their ingestion from raw asset
//! data, and the attenuation the cel shader must apply.
//!
//! Distances, angles and intensities are 16.16 fixed point. The falloff
//! policies (chosen once and kept consistent): range falloff is linear,
//! reaching zero exactly at the range; spot-cone falloff interpolates
//! linearly in the cosine of the angle; both round up so that the factor
//! stays strictly positive until the stated cutoff.

use vstd::prelude::*;
use vstd::arithmetic::div_mod::{
    lemma_div_is_ordered, lemma_div_pos_is_pos, lemma_fundamental_div_mod_converse,
};
use crate::color::Rgb;
use crate::fx::{
    div_floor_pos, fx_mul, fxm, fxd, lemma_div_floor_bound, lemma_mul_bound,
    FP_HALF_PI, FP_ONE, FP_PI,
};

verus! {

/// Largest accepted light intensity (65536 units, fixed point).
pub const MAX_INTENSITY: i64 = 0x1_0000_0000;

/// Largest accepted raw (pre-correction) intensity: 1000 times the above.
pub const MAX_RAW_INTENSITY: i64 = 0x3E8_0000_0000;

/// Largest accepted distance and range (32768 world units, fixed point).
pub const MAX_DIST: i64 = 0x8000_0000;

pub open spec fn rgb_wf(c: Rgb) -> bool {
    &&& 0 <= c.r <= FP_ONE
    &&& 0 <= c.g <= FP_ONE
    &&& 0 <= c.b <= FP_ONE
}

pub open spec fn range_wf(r: Option<i64>) -> bool {
    match r {
        Option::None => true,
        Option::Some(d) => 0 < d <= MAX_DIST,
    }
}

/// A punctual light. Colors are linear; intensities are in candela for
/// point/spot lights and lux for directional lights; cone angles are radians.
/// A range of `None` means an infinite range; zero is never a valid range.
#[derive(Clone, Copy, PartialEq, Eq, Structural, Debug)]
pub enum LightType {
    Point { color: Rgb, intensity: i64, range: Option<i64> },
    Directional { color: Rgb, intensity: i64 },
    Spot {
        color: Rgb,
        intensity: i64,
        range: Option<i64>,
        inner_cone_angle: i64,
        outer_cone_angle: i64,
    },
}

impl LightType {
    /// The construction-time invariant: positive finite ranges, bounded
    /// intensity, and for spots `0 <= inner < outer` with `outer` at most a
    /// right angle unless it is the pi sentinel that disables angular
    /// attenuation.
    pub open spec fn wf(self) -> bool {
        match self {
            LightType::Point { color, intensity, range } => {
                &&& rgb_wf(color)
                &&& 0 <= intensity <= MAX_INTENSITY
                &&& range_wf(range)
            },
            LightType::Directional { color, intensity } => {
                &&& rgb_wf(color)
                &&& 0 <= intensity <= MAX_INTENSITY
            },
            LightType::Spot { color, intensity, range, inner_cone_angle, outer_cone_angle } => {
                &&& rgb_wf(color)
                &&& 0 <= intensity <= MAX_INTENSITY
                &&& range_wf(range)
                &&& 0 <= inner_cone_angle < outer_cone_angle
                &&& (outer_cone_angle <= FP_HALF_PI || outer_cone_angle == FP_PI)
            },
        }
    }
}

impl LightType {
    /// The light's linear color.
    pub open spec fn color_of(self) -> Rgb {
        match self {
            LightType::Point { color, .. } => color,
            LightType::Directional { color, .. } => color,
            LightType::Spot { color, .. } => color,
        }
    }

    pub fn color(&self) -> (c: Rgb)
        ensures
            c == self.color_of(),
    {
        match self {
            LightType::Point { color, .. } => *color,
            LightType::Directional { color, .. } => *color,
            LightType::Spot { color, .. } => *color,
        }
    }
}

/// The shape of raw punctual-light data, before validation.
#[derive(Clone, Copy, PartialEq, Eq, Structural, Debug)]
pub enum PunctualKind {
    Point,
    Directional,
    Spot { inner_cone_angle: i64, outer_cone_angle: i64 },
}

#[derive(Clone, Copy, PartialEq, Eq, Structural, Debug)]
pub enum LightError {
    InvalidColor,
    InvalidIntensity,
    InvalidRange,
    InvalidConeAngles,
}

pub open spec fn punctual_valid(
    kind: PunctualKind, color: Rgb, intensity_raw: i64, range: Option<i64>,
) -> bool {
    &&& rgb_wf(color)
    &&& 0 <= intensity_raw <= MAX_RAW_INTENSITY
    &&& range_wf(range)
    &&& match kind {
        PunctualKind::Spot { inner_cone_angle, outer_cone_angle } => {
            &&& 0 <= inner_cone_angle < outer_cone_angle
            &&& (outer_cone_angle <= FP_HALF_PI || outer_cone_angle == FP_PI)
        },
        _ => true,
    }
}

/// The light a valid raw record ingests to: the raw intensity is divided by
/// 1000 to undo the unit-encoding defect of the known exporter. This
/// correction belongs here at the ingestion boundary only, never inside the
/// shading math.
pub open spec fn punctual_light(
    kind: PunctualKind, color: Rgb, intensity_raw: i64, range: Option<i64>,
) -> LightType {
    let intensity = (intensity_raw as int / 1000) as i64;
    match kind {
        PunctualKind::Point => LightType::Point { color, intensity, range },
        PunctualKind::Directional => LightType::Directional { color, intensity },
        PunctualKind::Spot { inner_cone_angle, outer_cone_angle } => LightType::Spot {
            color, intensity, range, inner_cone_angle, outer_cone_angle,
        },
    }
}

impl LightType {
    /// Ingest one punctual light from raw asset data, validating the
    /// construction invariants; nothing is silently repaired. Succeeds
    /// exactly on valid records (a directional light's range must still be
    /// valid, but is not stored).
    pub fn from_punctual(
        kind: PunctualKind, color: Rgb, intensity_raw: i64, range: Option<i64>,
    ) -> (r: Result<LightType, LightError>)
        ensures
            r is Ok <==> punctual_valid(kind, color, intensity_raw, range),
            r is Ok ==> r->Ok_0 == punctual_light(kind, color, intensity_raw, range)
                && r->Ok_0.wf(),
    {
        if color.r < 0 || color.r > FP_ONE || color.g < 0 || color.g > FP_ONE
            || color.b < 0 || color.b > FP_ONE {
            return Result::Err(LightError::InvalidColor);
        }
        if intensity_raw < 0 || intensity_raw > MAX_RAW_INTENSITY {
            return Result::Err(LightError::InvalidIntensity);
        }
        match range {
            Option::Some(d) => {
                if d <= 0 || d > MAX_DIST {
                    return Result::Err(LightError::InvalidRange);
                }
            },
            Option::None => {},
        }
        let intensity = div_floor_pos(intensity_raw, 1000);
        proof {
            lemma_div_pos_is_pos(intensity_raw as int, 1000);
            lemma_div_is_ordered(intensity_raw as int, MAX_RAW_INTENSITY as int, 1000);
        }
        match kind {
            PunctualKind::Point => Result::Ok(LightType::Point { color, intensity, range }),
            PunctualKind::Directional => Result::Ok(LightType::Directional { color, intensity }),
            PunctualKind::Spot { inner_cone_angle, outer_cone_angle } => {
                if inner_cone_angle < 0 || inner_cone_angle >= outer_cone_angle
                    || (outer_cone_angle > FP_HALF_PI && outer_cone_angle != FP_PI) {
                    return Result::Err(LightError::InvalidConeAngles);
                }
                Result::Ok(LightType::Spot {
                    color, intensity, range, inner_cone_angle, outer_cone_angle,
                })
            },
        }
    }
}

/// Linear range falloff, rounding up: `FP_ONE` at distance 0, exactly 0 at
/// the range and beyond, strictly positive before it. `None` (infinite
/// range) never attenuates.
pub open spec fn range_factor_spec(d: int, range: Option<i64>) -> int {
    match range {
        Option::None => FP_ONE as int,
        Option::Some(rr) => {
            if d >= rr {
                0
            } else {
                ((rr - d) * FP_ONE + rr - 1) / (rr as int)
            }
        },
    }
}

pub fn range_factor(d: i64, range: Option<i64>) -> (r: i64)
    requires
        0 <= d,
        range_wf(range),
    ensures
        r as int == range_factor_spec(d as int, range),
        0 <= r <= FP_ONE,
{
    match range {
        Option::None => FP_ONE,
        Option::Some(rr) => {
            if d >= rr {
                0
            } else {
                let num = (rr - d) * FP_ONE + rr - 1;
                let f = div_floor_pos(num, rr);
                proof {
                    lemma_div_pos_is_pos(num as int, rr as int);
                    lemma_div_is_ordered(
                        num as int, rr as int * FP_ONE + rr - 1, rr as int,
                    );
                    assert(rr as int * FP_ONE + rr - 1
                        == FP_ONE * (rr as int) + (rr - 1)) by (nonlinear_arith);
                    lemma_fundamental_div_mod_converse(
                        rr as int * FP_ONE + rr - 1, rr as int, FP_ONE as int, rr as int - 1,
                    );
                }
                f
            }
        },
    }
}

/// Law: with a finite range, attenuation reaches exactly 0 at that distance
/// and is strictly positive at every shorter distance.
pub proof fn lemma_range_attenuation(d: int, rr: i64)
    requires
        0 < rr,
        0 <= d,
    ensures
        d >= rr ==> range_factor_spec(d, Option::Some(rr)) == 0,
        d < rr ==> range_factor_spec(d, Option::Some(rr)) > 0,
        range_factor_spec(0, Option::Some(rr)) == FP_ONE,
{
    if d < rr {
        let num = (rr - d) * FP_ONE + rr - 1;
        assert(num >= FP_ONE + rr - 1) by (nonlinear_arith)
            requires d < rr, (rr - d) * FP_ONE + rr - 1 == num;
        lemma_div_is_ordered(rr as int, num, rr as int);
        assert(rr as int / rr as int == 1) by {
            lemma_fundamental_div_mod_converse(rr as int, rr as int, 1, 0);
        }
    }
    assert((rr as int - 0) * FP_ONE + rr - 1 == FP_ONE * (rr as int) + (rr - 1))
        by (nonlinear_arith);
    lemma_fundamental_div_mod_converse(
        (rr as int - 0) * FP_ONE + rr - 1, rr as int, FP_ONE as int, rr as int - 1,
    );
}

/// Spot-cone angular falloff, in the cosine domain: the angle between the
/// light's forward axis and the direction to the surface enters through its
/// cosine, which shrinks as the angle grows. Full intensity on or inside the
/// inner cone, zero on or outside the outer cone, linear in the cosine (and
/// rounded up) in between. Degenerate cones (cosines out of order) fall back
/// to a hard cutoff at the inner cosine.
pub open spec fn spot_factor_spec(cos_t: int, cos_inner: int, cos_outer: int) -> int {
    if cos_inner <= cos_outer {
        if cos_t >= cos_inner { FP_ONE as int } else { 0 }
    } else if cos_t >= cos_inner {
        FP_ONE as int
    } else if cos_t <= cos_outer {
        0
    } else {
        ((cos_t - cos_outer) * FP_ONE + (cos_inner - cos_outer) - 1) / (cos_inner - cos_outer)
    }
}

pub fn spot_factor(cos_t: i64, cos_inner: i64, cos_outer: i64) -> (r: i64)
    requires
        -FP_ONE <= cos_t <= FP_ONE,
        -FP_ONE <= cos_outer <= FP_ONE,
        -FP_ONE <= cos_inner <= FP_ONE,
    ensures
        r as int == spot_factor_spec(cos_t as int, cos_inner as int, cos_outer as int),
        0 <= r <= FP_ONE,
{
    if cos_inner <= cos_outer {
        if cos_t >= cos_inner { FP_ONE } else { 0 }
    } else if cos_t >= cos_inner {
        FP_ONE
    } else if cos_t <= cos_outer {
        0
    } else {
        let den = cos_inner - cos_outer;
        let num = (cos_t - cos_outer) * FP_ONE + den - 1;
        let f = div_floor_pos(num, den);
        proof {
            lemma_div_pos_is_pos(num as int, den as int);
            lemma_div_is_ordered(num as int, den as int * FP_ONE + den - 1, den as int);
            assert(den as int * FP_ONE + den - 1 == FP_ONE * (den as int) + (den - 1))
                by (nonlinear_arith);
            lemma_fundamental_div_mod_converse(
                den as int * FP_ONE + den - 1, den as int, FP_ONE as int, den as int - 1,
            );
            assert(num <= den as int * FP_ONE + den - 1) by (nonlinear_arith)
                requires
                    cos_t < cos_inner,
                    den == cos_inner - cos_outer,
                    num == (cos_t as int - cos_outer) * FP_ONE + den - 1;
        }
        f
    }
}

/// Law: a valid spot cone gives factor exactly `FP_ONE` at angle zero
/// (cosine one) and everywhere on or inside the inner cone, exactly 0 on or
/// beyond the outer cone, strictly positive inside it, and the factor never
/// decreases as the cosine grows (that is, never increases with the angle).
pub proof fn lemma_spot_attenuation(c1: int, c2: int, ci: int, co: int)
    requires
        0 <= co < ci <= FP_ONE,
        c1 <= c2 <= FP_ONE,
    ensures
        spot_factor_spec(FP_ONE as int, ci, co) == FP_ONE,
        c1 >= ci ==> spot_factor_spec(c1, ci, co) == FP_ONE,
        c1 <= co ==> spot_factor_spec(c1, ci, co) == 0,
        co < c1 ==> spot_factor_spec(c1, ci, co) > 0,
        spot_factor_spec(c1, ci, co) <= spot_factor_spec(c2, ci, co),
{
    let den = ci - co;
    assert(den as int * FP_ONE + den - 1 == FP_ONE * den + (den - 1)) by (nonlinear_arith);
    lemma_fundamental_div_mod_converse(
        den * FP_ONE + den - 1, den, FP_ONE as int, den - 1,
    );
    if co < c1 < ci {
        let num1 = (c1 - co) * FP_ONE + den - 1;
        assert(num1 >= FP_ONE + den - 1) by (nonlinear_arith)
            requires co < c1, num1 == (c1 - co) * FP_ONE + den - 1;
        lemma_div_is_ordered(den, num1, den);
        assert(den / den == 1) by {
            lemma_fundamental_div_mod_converse(den, den, 1, 0);
        }
        assert(num1 <= den * FP_ONE + den - 1) by (nonlinear_arith)
            requires c1 < ci, den == ci - co, num1 == (c1 - co) * FP_ONE + den - 1;
        lemma_div_is_ordered(num1, den * FP_ONE + den - 1, den);
    }
    if co < c2 < ci {
        let num1 = if co < c1 { (c1 - co) * FP_ONE + den - 1 } else { 0 };
        let num2 = (c2 - co) * FP_ONE + den - 1;
        assert(num2 >= FP_ONE + den - 1) by (nonlinear_arith)
            requires co < c2, num2 == (c2 - co) * FP_ONE + den - 1;
        lemma_div_is_ordered(den, num2, den);
        assert(den / den == 1) by {
            lemma_fundamental_div_mod_converse(den, den, 1, 0);
        }
        if co < c1 {
            assert(num1 <= num2) by (nonlinear_arith)
                requires
                    c1 <= c2,
                    co < c1,
                    num1 == (c1 - co) * FP_ONE + den - 1,
                    num2 == (c2 - co) * FP_ONE + den - 1;
            lemma_div_is_ordered(num1, num2, den);
        } else {
            lemma_div_pos_is_pos(num2, den);
        }
    }
    if c2 >= ci && co < c1 < ci {
        let num1 = (c1 - co) * FP_ONE + den - 1;
        assert(num1 <= den * FP_ONE + den - 1) by (nonlinear_arith)
            requires c1 < ci, den == ci - co, num1 == (c1 - co) * FP_ONE + den - 1;
        lemma_div_is_ordered(num1, den * FP_ONE + den - 1, den);
    }
}

/// Inverse-square distance falloff for point and spot lights, saturating to
/// `FP_ONE` within one world unit of the light.
pub open spec fn inv_square_spec(d: int) -> int {
    let dsq = fxm(d, d);
    if dsq <= FP_ONE { FP_ONE as int } else { fxd(FP_ONE as int, dsq) }
}

pub fn inv_square(d: i64) -> (r: i64)
    requires
        0 <= d <= MAX_DIST,
    ensures
        r as int == inv_square_spec(d as int),
        0 <= r <= FP_ONE,
{
    proof {
        lemma_mul_bound(d as int, d as int, MAX_DIST as int, MAX_DIST as int);
        lemma_div_floor_bound(d as int * d as int, 0x4000_0000_0000_0000, FP_ONE as int);
        assert(0 <= d as int * d as int) by (nonlinear_arith)
            requires 0 <= d;
        lemma_div_pos_is_pos(d as int * d as int, FP_ONE as int);
    }
    let dsq = fx_mul(d, d);
    if dsq <= FP_ONE {
        FP_ONE
    } else {
        let r = div_floor_pos(FP_ONE * FP_ONE, dsq);
        proof {
            let o = FP_ONE as int;
            let q = dsq as int;
            lemma_div_pos_is_pos(o * o, q);
            assert(o * o <= o * q + (q - 1)) by (nonlinear_arith)
                requires q >= o + 1, o == 65536;
            lemma_div_is_ordered(o * o, o * q + (q - 1), q);
            lemma_fundamental_div_mod_converse(o * q + (q - 1), q, o, q - 1);
        }
        r
    }
}

} // verus!
