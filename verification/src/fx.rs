//! 16.16 signed fixed-point arithmetic: the scalar domain of the renderer.
//!
//! A value `v` stands for the real number `v / 65536`. All operations floor,
//! so every computation is deterministic and exactly specified.

use vstd::prelude::*;
use vstd::arithmetic::div_mod::{
    lemma_div_is_ordered, lemma_div_pos_is_pos, lemma_fundamental_div_mod,
    lemma_fundamental_div_mod_converse, lemma_mod_bound,
};

verus! {

/// The fixed-point representation of 1.
pub const FP_ONE: i64 = 65536;

/// The fixed-point representation of pi/2, rounded down.
pub const FP_HALF_PI: i64 = 102943;

/// The fixed-point representation of pi, rounded to nearest.
pub const FP_PI: i64 = 205887;

/// Magnitude bound under which `a * b` is safe for `div_floor_pos`.
pub const FX_DIV_LIM: i64 = 0x4000_0000_0000_0000;

/// Absolute value, at the specification level.
pub open spec fn iabs(a: int) -> int {
    if a < 0 { -a } else { a }
}

/// `a * b / FP_ONE`, flooring: the fixed-point product.
pub open spec fn fxm(a: int, b: int) -> int {
    (a * b) / (FP_ONE as int)
}

/// `a * FP_ONE / b`, flooring: the fixed-point quotient.
pub open spec fn fxd(a: int, b: int) -> int {
    (a * FP_ONE as int) / b
}

/// The fixed-point product is symmetric in its factors.
pub proof fn lemma_fxm_comm(a: int, b: int)
    ensures
        fxm(a, b) == fxm(b, a),
{
    assert(a * b == b * a) by (nonlinear_arith);
}

/// If `|a| <= la` and `|b| <= lb` then `|a * b| <= la * lb`.
pub proof fn lemma_mul_bound(a: int, b: int, la: int, lb: int)
    requires
        iabs(a) <= la,
        iabs(b) <= lb,
    ensures
        iabs(a * b) <= la * lb,
{
    assert(iabs(a * b) <= la * lb) by (nonlinear_arith)
        requires iabs(a) <= la, iabs(b) <= lb;
}

/// A bound on a floored quotient from a bound on the dividend.
pub proof fn lemma_div_floor_bound(t: int, m: int, d: int)
    requires
        iabs(t) <= m,
        0 < d,
    ensures
        -(m / d) - 1 <= t / d <= m / d,
        iabs(t / d) <= m / d + 1,
{
    lemma_div_is_ordered(t, m, d);
    lemma_div_is_ordered(-m, t, d);
    lemma_fundamental_div_mod(m, d);
    lemma_mod_bound(m, d);
    let q = m / d;
    let r = m % d;
    if r == 0 {
        assert(-m == (-q) * d + 0) by (nonlinear_arith)
            requires m == d * q + r, r == 0;
        lemma_fundamental_div_mod_converse(-m, d, -q, 0);
    } else {
        assert(-m == (-q - 1) * d + (d - r)) by (nonlinear_arith)
            requires m == d * q + r;
        lemma_fundamental_div_mod_converse(-m, d, -q - 1, d - r);
    }
    lemma_div_pos_is_pos(m, d);
}

/// Flooring division by a positive divisor, on the full signed range.
pub fn div_floor_pos(a: i64, b: i64) -> (r: i64)
    requires
        0 < b,
        -FX_DIV_LIM <= a <= FX_DIV_LIM,
    ensures
        r == a as int / b as int,
{
    if a >= 0 {
        ((a as u64) / (b as u64)) as i64
    } else {
        let na = (-a) as u64;
        let q = (na + (b as u64) - 1) / (b as u64);
        proof {
            lemma_fundamental_div_mod(na as int, b as int);
            lemma_mod_bound(na as int, b as int);
            let qq = na as int / b as int;
            let rr = na as int % b as int;
            if rr == 0 {
                assert(na as int + b - 1 == qq * (b as int) + (b - 1)) by (nonlinear_arith)
                    requires na as int == b as int * qq + rr, rr == 0;
                lemma_fundamental_div_mod_converse(na as int + b - 1, b as int, qq, b as int - 1);
                assert(a as int == (-qq) * (b as int) + 0) by (nonlinear_arith)
                    requires a as int == -(na as int), na as int == b as int * qq + rr, rr == 0;
                lemma_fundamental_div_mod_converse(a as int, b as int, -qq, 0);
            } else {
                assert(na as int + b - 1 == (qq + 1) * (b as int) + (rr - 1)) by (nonlinear_arith)
                    requires na as int == b as int * qq + rr;
                lemma_fundamental_div_mod_converse(na as int + b - 1, b as int, qq + 1, rr - 1);
                assert(a as int == (-qq - 1) * (b as int) + (b - rr)) by (nonlinear_arith)
                    requires a as int == -(na as int), na as int == b as int * qq + rr;
                lemma_fundamental_div_mod_converse(a as int, b as int, -qq - 1, b as int - rr);
            }
        }
        -((q as i64))
    }
}

/// Fixed-point multiplication; the result is `fxm(a, b)` exactly.
pub fn fx_mul(a: i64, b: i64) -> (r: i64)
    requires
        -FX_DIV_LIM <= a * b <= FX_DIV_LIM,
    ensures
        r == fxm(a as int, b as int),
{
    div_floor_pos(a * b, FP_ONE)
}

/// Fixed-point division by a positive divisor; the result is `fxd(a, b)` exactly.
pub fn fx_div(a: i64, b: i64) -> (r: i64)
    requires
        0 < b,
        -0x4000_0000_0000 <= a <= 0x4000_0000_0000,
    ensures
        r == fxd(a as int, b as int),
{
    div_floor_pos(a * FP_ONE, b)
}

/// Fixed-point product of a non-negative value and a factor from the unit
/// interval: the result never exceeds the value.
pub fn fx_mul_unit(a: i64, f: i64) -> (r: i64)
    requires
        0 <= a <= 0x4000_0000_0000,
        0 <= f <= FP_ONE,
    ensures
        r as int == fxm(a as int, f as int),
        0 <= r <= a,
{
    proof {
        assert(0 <= a as int * f as int <= a as int * 65536) by (nonlinear_arith)
            requires 0 <= a, 0 <= f <= 65536;
        lemma_div_is_ordered(a as int * f as int, a as int * 65536, 65536);
        lemma_div_pos_is_pos(a as int * f as int, 65536);
        lemma_fundamental_div_mod_converse(a as int * 65536, 65536, a as int, 0);
    }
    fx_mul(a, f)
}

/// Sign-symmetric fixed-point division: magnitudes divide flooring, the sign
/// is the usual sign rule.
pub open spec fn fxd_signed(a: int, b: int) -> int {
    if b >= 0 { (a * FP_ONE as int) / b } else { -((a * FP_ONE as int) / (-b)) }
}

pub fn fx_div_signed(a: i64, b: i64) -> (r: i64)
    requires
        b != 0,
        -0x4000_0000_0000 <= a <= 0x4000_0000_0000,
        -0x4000_0000_0000_0000 <= b <= 0x4000_0000_0000_0000,
    ensures
        r as int == fxd_signed(a as int, b as int),
{
    if b > 0 {
        div_floor_pos(a * FP_ONE, b)
    } else {
        let q = div_floor_pos(a * FP_ONE, -b);
        proof {
            lemma_div_floor_bound(a as int * FP_ONE, 0x4000_0000_0000_0000, -(b as int));
        }
        -q
    }
}

/// Clamp into the symmetric interval `[-lim, lim]`.
pub open spec fn clamp_sym_spec(a: int, lim: int) -> int {
    if a < -lim { -lim } else if a > lim { lim } else { a }
}

pub fn clamp_sym(a: i64, lim: i64) -> (r: i64)
    requires
        0 <= lim,
    ensures
        r as int == clamp_sym_spec(a as int, lim as int),
        -lim <= r <= lim,
{
    if a < -lim { -lim } else if a > lim { lim } else { a }
}

/// Clamp into the unit interval `[0, FP_ONE]`.
pub open spec fn clamp01_spec(a: int) -> int {
    if a < 0 { 0 } else if a > FP_ONE as int { FP_ONE as int } else { a }
}

pub fn clamp01(a: i64) -> (r: i64)
    ensures
        r == clamp01_spec(a as int),
{
    if a < 0 { 0 } else if a > FP_ONE { FP_ONE } else { a }
}

/// The integer square root, rounded down.
pub open spec fn sqrt_floor(x: nat) -> nat
    decreases x,
{
    if x == 0 {
        0
    } else {
        let s = sqrt_floor((x - 1) as nat);
        if (s + 1) * (s + 1) <= x { s + 1 } else { s }
    }
}

pub proof fn lemma_sqrt_floor_bounds(x: nat)
    ensures
        sqrt_floor(x) * sqrt_floor(x) <= x,
        x < (sqrt_floor(x) + 1) * (sqrt_floor(x) + 1),
    decreases x,
{
    if x > 0 {
        lemma_sqrt_floor_bounds((x - 1) as nat);
        let s = sqrt_floor((x - 1) as nat);
        assert(s * s <= x - 1);
        assert(x - 1 < (s + 1) * (s + 1));
        let r = sqrt_floor(x);
        if (s + 1) * (s + 1) <= x {
            assert(r == s + 1);
            assert(r * r <= x) by (nonlinear_arith)
                requires r == s + 1, (s + 1) * (s + 1) <= x;
            assert((s + 1) * (s + 1) < (s + 2) * (s + 2)) by (nonlinear_arith)
                requires 0 <= s;
            assert(x < (r + 1) * (r + 1)) by (nonlinear_arith)
                requires r == s + 1, x < (s + 2) * (s + 2);
        } else {
            assert(r == s);
            assert(r * r <= x) by (nonlinear_arith)
                requires r == s, s * s <= x;
            assert(x < (r + 1) * (r + 1)) by (nonlinear_arith)
                requires r == s, x < (s + 1) * (s + 1);
        }
    } else {
        let r = sqrt_floor(x);
        assert(r == 0);
        assert(r * r <= x && x < (r + 1) * (r + 1)) by (nonlinear_arith)
            requires r == 0, x == 0;
    }
}

pub proof fn lemma_sqrt_floor_unique(x: nat, r: nat)
    requires
        r * r <= x,
        x < (r + 1) * (r + 1),
    ensures
        r == sqrt_floor(x),
{
    lemma_sqrt_floor_bounds(x);
    let s = sqrt_floor(x);
    if r < s {
        assert((r + 1) * (r + 1) <= s * s) by (nonlinear_arith)
            requires r + 1 <= s;
    }
    if s < r {
        assert((s + 1) * (s + 1) <= r * r) by (nonlinear_arith)
            requires s + 1 <= r;
    }
}

pub proof fn lemma_sqrt_le(x: nat, m: nat)
    requires
        x <= m * m,
    ensures
        sqrt_floor(x) <= m,
{
    lemma_sqrt_floor_bounds(x);
    let s = sqrt_floor(x);
    if s > m {
        assert(m * m < s * s) by (nonlinear_arith)
            requires m < s;
    }
}

pub proof fn lemma_sqrt_floor_at_least(x: nat, a: nat)
    requires
        a * a <= x,
    ensures
        a <= sqrt_floor(x),
{
    lemma_sqrt_floor_bounds(x);
    let s = sqrt_floor(x);
    if a > s {
        assert((s + 1) * (s + 1) <= a * a) by (nonlinear_arith)
            requires s + 1 <= a;
    }
}

/// Integer square root by binary search.
pub fn isqrt(x: u64) -> (r: u64)
    ensures
        r as nat == sqrt_floor(x as nat),
{
    let mut lo: u64 = 0;
    let mut hi: u64 = 0xFFFF_FFFF;
    proof {
        assert((x as nat) < 0x1_0000_0000 * 0x1_0000_0000);
        assert((hi as nat + 1) * (hi as nat + 1) == 0x1_0000_0000 * 0x1_0000_0000)
            by (nonlinear_arith)
            requires hi == 0xFFFF_FFFFu64;
    }
    while lo < hi
        invariant
            lo <= hi <= 0xFFFF_FFFF,
            lo as nat * lo as nat <= x as nat,
            (x as nat) < (hi as nat + 1) * (hi as nat + 1),
        decreases hi - lo,
    {
        let mid = lo + (hi - lo + 1) / 2;
        proof {
            assert(mid * mid <= 0xFFFF_FFFF * 0xFFFF_FFFF) by (nonlinear_arith)
                requires mid <= 0xFFFF_FFFF;
        }
        if mid * mid <= x {
            lo = mid;
        } else {
            hi = mid - 1;
        }
    }
    proof {
        lemma_sqrt_floor_unique(x as nat, lo as nat);
    }
    lo
}

/// Fixed-point cosine on `[0, pi/2]`: the truncated Taylor polynomial
/// `1 - t^2/2 + t^4/24`, each step flooring. Decreases from `FP_ONE` at 0 to a
/// small positive value at `FP_HALF_PI`.
pub open spec fn cos_fx_spec(t: int) -> int {
    FP_ONE - fxm(t, t) / 2 + fxm(fxm(t, t), fxm(t, t)) / 24
}

pub fn cos_fx(t: i64) -> (r: i64)
    requires
        0 <= t <= FP_HALF_PI,
    ensures
        r == cos_fx_spec(t as int),
{
    proof {
        assert(0 <= t as int * t as int <= 0x2_8000_0000) by (nonlinear_arith)
            requires 0 <= t <= FP_HALF_PI;
    }
    let t2 = fx_mul(t, t);
    proof {
        lemma_div_is_ordered(t as int * t as int, 0x2_8000_0000, FP_ONE as int);
        lemma_div_pos_is_pos(t as int * t as int, FP_ONE as int);
        assert(0 <= t2 as int * t2 as int <= 0x28000 * 0x28000) by (nonlinear_arith)
            requires 0 <= t2 <= 0x28000;
    }
    let t4 = fx_mul(t2, t2);
    proof {
        lemma_div_is_ordered(t2 as int * t2 as int, 0x6_4000_0000, FP_ONE as int);
        lemma_div_pos_is_pos(t2 as int * t2 as int, FP_ONE as int);
    }
    let half_t2 = div_floor_pos(t2, 2);
    let t4_term = div_floor_pos(t4, 24);
    proof {
        lemma_div_is_ordered(t2 as int, 0x28000, 2);
        lemma_div_pos_is_pos(t2 as int, 2);
        lemma_div_is_ordered(t4 as int, 0x6_4000, 24);
        lemma_div_pos_is_pos(t4 as int, 24);
    }
    FP_ONE - half_t2 + t4_term
}

} // verus!
