//! Linear-space colors and the 8-bit output pixel format.
//!
//! Shading accumulates in fixed point; only the final image-extraction step
//! quantizes each channel to 8 bits (straight, non-premultiplied alpha).

use vstd::prelude::*;
use vstd::arithmetic::div_mod::{
    lemma_div_is_ordered, lemma_div_pos_is_pos, lemma_fundamental_div_mod,
    lemma_fundamental_div_mod_converse, lemma_mod_bound,
};
use crate::fx::{clamp01, clamp01_spec, div_floor_pos, iabs, FP_ONE};

verus! {

/// A linear RGB color, each channel 16.16 fixed point.
#[derive(Clone, Copy, PartialEq, Eq, Structural, Debug)]
pub struct Rgb {
    pub r: i64,
    pub g: i64,
    pub b: i64,
}

/// A linear RGBA color, each channel 16.16 fixed point. A well-formed channel
/// lies in the unit interval `[0, FP_ONE]`.
#[derive(Clone, Copy, PartialEq, Eq, Structural, Debug)]
pub struct Rgba {
    pub r: i64,
    pub g: i64,
    pub b: i64,
    pub a: i64,
}

impl Rgba {
    pub open spec fn wf(self) -> bool {
        &&& 0 <= self.r <= FP_ONE
        &&& 0 <= self.g <= FP_ONE
        &&& 0 <= self.b <= FP_ONE
        &&& 0 <= self.a <= FP_ONE
    }

    /// Opaque black.
    pub fn black() -> (c: Rgba)
        ensures
            c == (Rgba { r: 0, g: 0, b: 0, a: FP_ONE }),
    {
        Rgba { r: 0, g: 0, b: 0, a: FP_ONE }
    }

    /// Opaque white.
    pub fn white() -> (c: Rgba)
        ensures
            c == (Rgba { r: FP_ONE, g: FP_ONE, b: FP_ONE, a: FP_ONE }),
    {
        Rgba { r: FP_ONE, g: FP_ONE, b: FP_ONE, a: FP_ONE }
    }

    /// Fully transparent black.
    pub fn transparent() -> (c: Rgba)
        ensures
            c == (Rgba { r: 0, g: 0, b: 0, a: 0 }),
    {
        Rgba { r: 0, g: 0, b: 0, a: 0 }
    }
}

/// Quantization of one linear channel to 8 bits: clamp to the unit interval,
/// scale by 255 and round to nearest.
pub open spec fn channel_to_u8_spec(c: int) -> int {
    (clamp01_spec(c) * 255 + 32768) / (FP_ONE as int)
}

/// The inverse accessor: widen an 8-bit channel back to fixed point.
pub open spec fn u8_to_channel_spec(b: int) -> int {
    (b * FP_ONE as int) / 255
}

pub fn channel_to_u8(c: i64) -> (b: u8)
    ensures
        b as int == channel_to_u8_spec(c as int),
{
    let cc = clamp01(c);
    let q = div_floor_pos(cc * 255 + 32768, FP_ONE);
    proof {
        lemma_div_pos_is_pos(cc as int * 255 + 32768, FP_ONE as int);
        lemma_div_is_ordered(cc as int * 255 + 32768, 16744448, FP_ONE as int);
    }
    q as u8
}

pub fn u8_to_channel(b: u8) -> (c: i64)
    ensures
        c as int == u8_to_channel_spec(b as int),
        0 <= c <= FP_ONE,
{
    let c = div_floor_pos((b as i64) * FP_ONE, 255);
    proof {
        lemma_div_pos_is_pos(b as int * FP_ONE as int, 255);
        lemma_div_is_ordered(b as int * FP_ONE as int, 255 * FP_ONE as int, 255);
    }
    c
}

/// Law: quantizing a widened 8-bit channel recovers that channel exactly;
/// the output pixel format round-trips without loss on its own values.
pub proof fn lemma_channel_round_trip(b: int)
    requires
        0 <= b <= 255,
    ensures
        channel_to_u8_spec(u8_to_channel_spec(b)) == b,
{
    let c = (b * 65536) / 255;
    lemma_div_pos_is_pos(b * 65536, 255);
    lemma_div_is_ordered(b * 65536, 16711680, 255);
    assert(0 <= c <= 65536);
    assert(clamp01_spec(c) == c);
    lemma_fundamental_div_mod(b * 65536, 255);
    lemma_mod_bound(b * 65536, 255);
    let rr = (b * 65536) % 255;
    assert(b * 65536 == 255 * c + rr);
    assert(c * 255 + 32768 == b * 65536 + (32768 - rr)) by (nonlinear_arith)
        requires b * 65536 == 255 * c + rr;
    lemma_fundamental_div_mod_converse(c * 255 + 32768, 65536, b, 32768 - rr);
}

/// Law: widening the quantized channel lands within one 8-bit quantization
/// step (at most 129/65536) of any valid channel value.
pub proof fn lemma_channel_tolerance(c: int)
    requires
        0 <= c <= FP_ONE,
    ensures
        iabs(u8_to_channel_spec(channel_to_u8_spec(c)) - c) <= 129,
{
    assert(clamp01_spec(c) == c);
    let q = (c * 255 + 32768) / 65536;
    lemma_fundamental_div_mod(c * 255 + 32768, 65536);
    lemma_mod_bound(c * 255 + 32768, 65536);
    let r1 = (c * 255 + 32768) % 65536;
    let c2 = (q * 65536) / 255;
    lemma_fundamental_div_mod(q * 65536, 255);
    lemma_mod_bound(q * 65536, 255);
    let r2 = (q * 65536) % 255;
    assert(255 * (c2 - c) == 32768 - r1 - r2) by (nonlinear_arith)
        requires
            c * 255 + 32768 == 65536 * q + r1,
            q * 65536 == 255 * c2 + r2;
    assert(iabs(c2 - c) <= 129) by (nonlinear_arith)
        requires
            255 * (c2 - c) == 32768 - r1 - r2,
            0 <= r1 < 65536,
            0 <= r2 < 255;
}

} // verus!
