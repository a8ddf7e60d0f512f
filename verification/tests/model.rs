//! Unit-level checks: fixed-point arithmetic, the output pixel format, the
//! light model and its attenuation, and mesh validation.

use spritec::color::{channel_to_u8, u8_to_channel, Rgb, Rgba};
use spritec::fx::{clamp01, cos_fx, div_floor_pos, fx_div, fx_mul, isqrt, FP_HALF_PI, FP_ONE, FP_PI};
use spritec::geometry::{Mesh, MeshError, Tri};
use spritec::light::{range_factor, spot_factor, LightError, LightType, PunctualKind};
use spritec::shaders::band;
use spritec::vecmat::Vec3;

#[test]
fn div_floor_rounds_toward_negative_infinity() {
    assert_eq!(div_floor_pos(7, 2), 3);
    assert_eq!(div_floor_pos(-7, 2), -4);
    assert_eq!(div_floor_pos(6, 2), 3);
    assert_eq!(div_floor_pos(-6, 2), -3);
    assert_eq!(div_floor_pos(0, 5), 0);
}

#[test]
fn fixed_point_products_and_quotients() {
    assert_eq!(fx_mul(FP_ONE, FP_ONE), FP_ONE);
    assert_eq!(fx_mul(2 * FP_ONE, 3 * FP_ONE), 6 * FP_ONE);
    assert_eq!(fx_mul(FP_ONE / 2, FP_ONE / 2), FP_ONE / 4);
    assert_eq!(fx_div(FP_ONE, 2 * FP_ONE), FP_ONE / 2);
    assert_eq!(fx_div(3 * FP_ONE, FP_ONE), 3 * FP_ONE);
}

#[test]
fn integer_square_root() {
    assert_eq!(isqrt(0), 0);
    assert_eq!(isqrt(1), 1);
    assert_eq!(isqrt(10), 3);
    assert_eq!(isqrt(16), 4);
    assert_eq!(isqrt(u64::MAX), 0xFFFF_FFFF);
}

#[test]
fn cosine_at_zero_is_one_and_shrinks() {
    assert_eq!(cos_fx(0), FP_ONE);
    let quarter = cos_fx(FP_HALF_PI / 2);
    // cos(pi/4) is about 0.7071: 46341 in fixed point, within a small slack.
    assert!((quarter - 46341).abs() < 200);
    let edge = cos_fx(FP_HALF_PI);
    assert!(edge >= 0 && edge < 2000);
}

#[test]
fn clamping() {
    assert_eq!(clamp01(-5), 0);
    assert_eq!(clamp01(FP_ONE + 1), FP_ONE);
    assert_eq!(clamp01(1234), 1234);
}

// The round trip through the 8-bit output format recovers every 8-bit value.
#[test]
fn channel_round_trip_is_exact_on_bytes() {
    let mut b: u16 = 0;
    while b <= 255 {
        let c = u8_to_channel(b as u8);
        assert_eq!(channel_to_u8(c), b as u8);
        b += 1;
    }
}

// Widening the quantized channel lands within one quantization step.
#[test]
fn channel_quantization_tolerance() {
    let samples: Vec<i64> = vec![0, 1, 77, 12345, 32768, 54321, 65535, 65536];
    for c in samples {
        let back = u8_to_channel(channel_to_u8(c));
        assert!((back - c).abs() <= 129);
    }
}

#[test]
fn channel_extremes() {
    assert_eq!(channel_to_u8(0), 0);
    assert_eq!(channel_to_u8(FP_ONE), 255);
    assert_eq!(u8_to_channel(255), FP_ONE);
    assert_eq!(u8_to_channel(0), 0);
    // Values outside the unit interval clamp rather than wrap.
    assert_eq!(channel_to_u8(-100), 0);
    assert_eq!(channel_to_u8(FP_ONE * 10), 255);
}

// Range attenuation is zero exactly at the range and positive below it.
#[test]
fn range_attenuation_cutoff() {
    let r = 10 * FP_ONE;
    assert_eq!(range_factor(0, Some(r)), FP_ONE);
    assert_eq!(range_factor(r, Some(r)), 0);
    assert_eq!(range_factor(r + 1, Some(r)), 0);
    assert!(range_factor(r - 1, Some(r)) > 0);
    assert!(range_factor(r / 2, Some(r)) > 0);
    assert_eq!(range_factor(123456, None), FP_ONE);
}

// Spot attenuation: one at angle zero, zero beyond the outer cone, monotone
// between, strictly positive inside.
#[test]
fn spot_attenuation_cone() {
    let ci: i64 = 60000;
    let co: i64 = 30000;
    assert_eq!(spot_factor(FP_ONE, ci, co), FP_ONE);
    assert_eq!(spot_factor(ci, ci, co), FP_ONE);
    assert_eq!(spot_factor(co, ci, co), 0);
    assert_eq!(spot_factor(co - 1, ci, co), 0);
    assert_eq!(spot_factor(-FP_ONE, ci, co), 0);
    assert!(spot_factor(co + 1, ci, co) > 0);
    assert_eq!(spot_factor(45000, ci, co), 32768);
    let mut prev = 0;
    let mut c = co;
    while c <= ci {
        let f = spot_factor(c, ci, co);
        assert!(f >= prev);
        prev = f;
        c += 1000;
    }
}

#[test]
fn banding_quantizes_into_quarters() {
    assert_eq!(band(0), 0);
    assert_eq!(band(16383), 0);
    assert_eq!(band(16384), 16384);
    assert_eq!(band(40000), 32768);
    assert_eq!(band(65535), 49152);
    assert_eq!(band(FP_ONE), FP_ONE);
}

fn white() -> Rgb {
    Rgb { r: FP_ONE, g: FP_ONE, b: FP_ONE }
}

// Ingestion applies the 1/1000 unit correction of the known exporter defect.
#[test]
fn punctual_ingestion_corrects_units() {
    let l = LightType::from_punctual(PunctualKind::Point, white(), 5000 * FP_ONE, None).unwrap();
    match l {
        LightType::Point { intensity, range, .. } => {
            assert_eq!(intensity, 5 * FP_ONE);
            assert_eq!(range, None);
        },
        _ => panic!("wrong variant"),
    }
    let d = LightType::from_punctual(PunctualKind::Directional, white(), 1000, None).unwrap();
    match d {
        LightType::Directional { intensity, .. } => assert_eq!(intensity, 1),
        _ => panic!("wrong variant"),
    }
}

#[test]
fn punctual_ingestion_rejects_zero_range() {
    let r = LightType::from_punctual(PunctualKind::Point, white(), 1000, Some(0));
    assert_eq!(r, Err(LightError::InvalidRange));
    let r = LightType::from_punctual(PunctualKind::Point, white(), 1000, Some(-5));
    assert_eq!(r, Err(LightError::InvalidRange));
}

#[test]
fn punctual_ingestion_rejects_bad_cones() {
    let spot = |inner: i64, outer: i64| {
        LightType::from_punctual(
            PunctualKind::Spot { inner_cone_angle: inner, outer_cone_angle: outer },
            white(),
            1000,
            None,
        )
    };
    assert!(spot(0, FP_HALF_PI).is_ok());
    assert!(spot(1000, FP_PI).is_ok());
    assert_eq!(spot(2000, 1000), Err(LightError::InvalidConeAngles));
    assert_eq!(spot(1000, 1000), Err(LightError::InvalidConeAngles));
    assert_eq!(spot(-1, 1000), Err(LightError::InvalidConeAngles));
    // Between a right angle and the pi sentinel nothing is accepted.
    assert_eq!(spot(0, FP_HALF_PI + 5000), Err(LightError::InvalidConeAngles));
}

#[test]
fn punctual_ingestion_rejects_bad_color_and_intensity() {
    let bad = Rgb { r: -1, g: 0, b: 0 };
    assert_eq!(
        LightType::from_punctual(PunctualKind::Point, bad, 1000, None),
        Err(LightError::InvalidColor)
    );
    assert_eq!(
        LightType::from_punctual(PunctualKind::Point, white(), -1, None),
        Err(LightError::InvalidIntensity)
    );
}

#[test]
fn mesh_validation() {
    let p = vec![
        Vec3 { x: 0, y: 0, z: 0 },
        Vec3 { x: FP_ONE, y: 0, z: 0 },
        Vec3 { x: 0, y: FP_ONE, z: 0 },
    ];
    let n = vec![
        Vec3 { x: 0, y: 0, z: FP_ONE },
        Vec3 { x: 0, y: 0, z: FP_ONE },
        Vec3 { x: 0, y: 0, z: FP_ONE },
    ];
    let t = vec![Tri { a: 0, b: 1, c: 2 }];
    let base = Rgba { r: FP_ONE, g: FP_ONE, b: FP_ONE, a: FP_ONE };
    assert!(Mesh::new(p.clone(), n.clone(), t.clone(), base).is_ok());

    let r = Mesh::new(p.clone(), vec![n[0]], t.clone(), base);
    assert!(matches!(r, Err(MeshError::MismatchedArrays)));

    let r = Mesh::new(p.clone(), n.clone(), vec![Tri { a: 0, b: 1, c: 3 }], base);
    assert!(matches!(r, Err(MeshError::IndexOutOfBounds)));

    let far = vec![Vec3 { x: i64::MAX / 4, y: 0, z: 0 }, p[1], p[2]];
    let r = Mesh::new(far, n.clone(), t.clone(), base);
    assert!(matches!(r, Err(MeshError::CoordinateOutOfRange)));

    let bad_color = Rgba { r: -1, g: 0, b: 0, a: 0 };
    let r = Mesh::new(p, n, t, bad_color);
    assert!(matches!(r, Err(MeshError::InvalidColor)));
}
