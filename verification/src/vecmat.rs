//! Fixed-point vectors and 4x4 transform matrices.
//!
//! Points are column vectors multiplied on the right, so a composite
//! transform is built right to left: the model-view-projection matrix is
//! `projection * view * model`.

use vstd::prelude::*;
use crate::fx::{
    fx_div_signed, fx_mul, fxd_signed, fxm, iabs, lemma_div_floor_bound, lemma_mul_bound,
    FP_ONE,
};

verus! {

#[derive(Clone, Copy, PartialEq, Eq, Structural, Debug)]
pub struct Vec3 {
    pub x: i64,
    pub y: i64,
    pub z: i64,
}

#[derive(Clone, Copy, PartialEq, Eq, Structural, Debug)]
pub struct Vec4 {
    pub x: i64,
    pub y: i64,
    pub z: i64,
    pub w: i64,
}

/// A 4x4 matrix held as rows.
#[derive(Clone, Copy, PartialEq, Eq, Structural, Debug)]
pub struct Mat4 {
    pub r0: Vec4,
    pub r1: Vec4,
    pub r2: Vec4,
    pub r3: Vec4,
}

/// A 3x3 matrix held as rows (used for normal transforms).
#[derive(Clone, Copy, PartialEq, Eq, Structural, Debug)]
pub struct Mat3 {
    pub r0: Vec3,
    pub r1: Vec3,
    pub r2: Vec3,
}

/// Every component of the vector has magnitude at most `lim`.
pub open spec fn v4_lim(v: Vec4, lim: int) -> bool {
    &&& iabs(v.x as int) <= lim
    &&& iabs(v.y as int) <= lim
    &&& iabs(v.z as int) <= lim
    &&& iabs(v.w as int) <= lim
}

pub open spec fn v3_lim(v: Vec3, lim: int) -> bool {
    &&& iabs(v.x as int) <= lim
    &&& iabs(v.y as int) <= lim
    &&& iabs(v.z as int) <= lim
}

pub open spec fn m4_lim(m: Mat4, lim: int) -> bool {
    &&& v4_lim(m.r0, lim)
    &&& v4_lim(m.r1, lim)
    &&& v4_lim(m.r2, lim)
    &&& v4_lim(m.r3, lim)
}

pub open spec fn m3_lim(m: Mat3, lim: int) -> bool {
    &&& v3_lim(m.r0, lim)
    &&& v3_lim(m.r1, lim)
    &&& v3_lim(m.r2, lim)
}

/// Fixed-point dot product of two 4-vectors.
pub open spec fn dot4_spec(a: Vec4, b: Vec4) -> int {
    fxm(a.x as int, b.x as int) + fxm(a.y as int, b.y as int) + fxm(a.z as int, b.z as int)
        + fxm(a.w as int, b.w as int)
}

pub open spec fn dot3_spec(a: Vec3, b: Vec3) -> int {
    fxm(a.x as int, b.x as int) + fxm(a.y as int, b.y as int) + fxm(a.z as int, b.z as int)
}

/// Columns of a matrix, for row-times-column products.
pub open spec fn col0(m: Mat4) -> Vec4 {
    Vec4 { x: m.r0.x, y: m.r1.x, z: m.r2.x, w: m.r3.x }
}

pub open spec fn col1(m: Mat4) -> Vec4 {
    Vec4 { x: m.r0.y, y: m.r1.y, z: m.r2.y, w: m.r3.y }
}

pub open spec fn col2(m: Mat4) -> Vec4 {
    Vec4 { x: m.r0.z, y: m.r1.z, z: m.r2.z, w: m.r3.z }
}

pub open spec fn col3(m: Mat4) -> Vec4 {
    Vec4 { x: m.r0.w, y: m.r1.w, z: m.r2.w, w: m.r3.w }
}

/// The matrix product `a * b`.
pub open spec fn mat_mul_spec(a: Mat4, b: Mat4) -> Mat4 {
    Mat4 {
        r0: Vec4 {
            x: dot4_spec(a.r0, col0(b)) as i64,
            y: dot4_spec(a.r0, col1(b)) as i64,
            z: dot4_spec(a.r0, col2(b)) as i64,
            w: dot4_spec(a.r0, col3(b)) as i64,
        },
        r1: Vec4 {
            x: dot4_spec(a.r1, col0(b)) as i64,
            y: dot4_spec(a.r1, col1(b)) as i64,
            z: dot4_spec(a.r1, col2(b)) as i64,
            w: dot4_spec(a.r1, col3(b)) as i64,
        },
        r2: Vec4 {
            x: dot4_spec(a.r2, col0(b)) as i64,
            y: dot4_spec(a.r2, col1(b)) as i64,
            z: dot4_spec(a.r2, col2(b)) as i64,
            w: dot4_spec(a.r2, col3(b)) as i64,
        },
        r3: Vec4 {
            x: dot4_spec(a.r3, col0(b)) as i64,
            y: dot4_spec(a.r3, col1(b)) as i64,
            z: dot4_spec(a.r3, col2(b)) as i64,
            w: dot4_spec(a.r3, col3(b)) as i64,
        },
    }
}

/// The product `m * v` for a column vector `v`.
pub open spec fn transform4_spec(m: Mat4, v: Vec4) -> Vec4 {
    Vec4 {
        x: dot4_spec(m.r0, v) as i64,
        y: dot4_spec(m.r1, v) as i64,
        z: dot4_spec(m.r2, v) as i64,
        w: dot4_spec(m.r3, v) as i64,
    }
}

pub open spec fn transform3_spec(m: Mat3, v: Vec3) -> Vec3 {
    Vec3 {
        x: dot3_spec(m.r0, v) as i64,
        y: dot3_spec(m.r1, v) as i64,
        z: dot3_spec(m.r2, v) as i64,
    }
}

pub open spec fn mat4_identity() -> Mat4 {
    Mat4 {
        r0: Vec4 { x: FP_ONE, y: 0, z: 0, w: 0 },
        r1: Vec4 { x: 0, y: FP_ONE, z: 0, w: 0 },
        r2: Vec4 { x: 0, y: 0, z: FP_ONE, w: 0 },
        r3: Vec4 { x: 0, y: 0, z: 0, w: FP_ONE },
    }
}

pub open spec fn mat3_identity() -> Mat3 {
    Mat3 {
        r0: Vec3 { x: FP_ONE, y: 0, z: 0 },
        r1: Vec3 { x: 0, y: FP_ONE, z: 0 },
        r2: Vec3 { x: 0, y: 0, z: FP_ONE },
    }
}

pub fn identity4() -> (m: Mat4)
    ensures
        m == mat4_identity(),
{
    Mat4 {
        r0: Vec4 { x: FP_ONE, y: 0, z: 0, w: 0 },
        r1: Vec4 { x: 0, y: FP_ONE, z: 0, w: 0 },
        r2: Vec4 { x: 0, y: 0, z: FP_ONE, w: 0 },
        r3: Vec4 { x: 0, y: 0, z: 0, w: FP_ONE },
    }
}

/// One fixed-point product with a magnitude bound derived from bounds on the
/// factors.
fn fx_mul_b(a: i64, b: i64, Ghost(la): Ghost<int>, Ghost(lb): Ghost<int>) -> (r: i64)
    requires
        iabs(a as int) <= la,
        iabs(b as int) <= lb,
        0 <= la,
        0 <= lb,
        la * lb <= 0x4000_0000_0000_0000,
    ensures
        r as int == fxm(a as int, b as int),
        iabs(r as int) <= la * lb / (FP_ONE as int) + 1,
{
    proof {
        lemma_mul_bound(a as int, b as int, la, lb);
        lemma_div_floor_bound(a as int * b as int, la * lb, FP_ONE as int);
    }
    fx_mul(a, b)
}

/// Fixed-point dot product with derived bounds: each side's components are
/// bounded by `la` and `lb` respectively.
pub fn dot4(a: Vec4, b: Vec4, Ghost(la): Ghost<int>, Ghost(lb): Ghost<int>) -> (r: i64)
    requires
        v4_lim(a, la),
        v4_lim(b, lb),
        0 <= la,
        0 <= lb,
        la * lb <= 0x4000_0000_0000_0000,
    ensures
        r as int == dot4_spec(a, b),
        iabs(r as int) <= 4 * (la * lb / (FP_ONE as int)) + 4,
{
    let px = fx_mul_b(a.x, b.x, Ghost(la), Ghost(lb));
    let py = fx_mul_b(a.y, b.y, Ghost(la), Ghost(lb));
    let pz = fx_mul_b(a.z, b.z, Ghost(la), Ghost(lb));
    let pw = fx_mul_b(a.w, b.w, Ghost(la), Ghost(lb));
    px + py + pz + pw
}

pub fn dot3(a: Vec3, b: Vec3, Ghost(la): Ghost<int>, Ghost(lb): Ghost<int>) -> (r: i64)
    requires
        v3_lim(a, la),
        v3_lim(b, lb),
        0 <= la,
        0 <= lb,
        la * lb <= 0x4000_0000_0000_0000,
    ensures
        r as int == dot3_spec(a, b),
        iabs(r as int) <= 3 * (la * lb / (FP_ONE as int)) + 3,
{
    let px = fx_mul_b(a.x, b.x, Ghost(la), Ghost(lb));
    let py = fx_mul_b(a.y, b.y, Ghost(la), Ghost(lb));
    let pz = fx_mul_b(a.z, b.z, Ghost(la), Ghost(lb));
    px + py + pz
}

fn col0_exec(m: &Mat4) -> (c: Vec4)
    ensures
        c == col0(*m),
{
    Vec4 { x: m.r0.x, y: m.r1.x, z: m.r2.x, w: m.r3.x }
}

fn col1_exec(m: &Mat4) -> (c: Vec4)
    ensures
        c == col1(*m),
{
    Vec4 { x: m.r0.y, y: m.r1.y, z: m.r2.y, w: m.r3.y }
}

fn col2_exec(m: &Mat4) -> (c: Vec4)
    ensures
        c == col2(*m),
{
    Vec4 { x: m.r0.z, y: m.r1.z, z: m.r2.z, w: m.r3.z }
}

fn col3_exec(m: &Mat4) -> (c: Vec4)
    ensures
        c == col3(*m),
{
    Vec4 { x: m.r0.w, y: m.r1.w, z: m.r2.w, w: m.r3.w }
}

fn mul_row(r: Vec4, b: &Mat4, Ghost(la): Ghost<int>, Ghost(lb): Ghost<int>) -> (o: Vec4)
    requires
        v4_lim(r, la),
        m4_lim(*b, lb),
        0 <= la,
        0 <= lb,
        la * lb <= 0x4000_0000_0000_0000,
    ensures
        o == (Vec4 {
            x: dot4_spec(r, col0(*b)) as i64,
            y: dot4_spec(r, col1(*b)) as i64,
            z: dot4_spec(r, col2(*b)) as i64,
            w: dot4_spec(r, col3(*b)) as i64,
        }),
        v4_lim(o, 4 * (la * lb / (FP_ONE as int)) + 4),
{
    let c0 = col0_exec(b);
    let c1 = col1_exec(b);
    let c2 = col2_exec(b);
    let c3 = col3_exec(b);
    Vec4 {
        x: dot4(r, c0, Ghost(la), Ghost(lb)),
        y: dot4(r, c1, Ghost(la), Ghost(lb)),
        z: dot4(r, c2, Ghost(la), Ghost(lb)),
        w: dot4(r, c3, Ghost(la), Ghost(lb)),
    }
}

/// The matrix product `a * b`, with component bounds carried through.
pub fn mat_mul(a: &Mat4, b: &Mat4, Ghost(la): Ghost<int>, Ghost(lb): Ghost<int>) -> (m: Mat4)
    requires
        m4_lim(*a, la),
        m4_lim(*b, lb),
        0 <= la,
        0 <= lb,
        la * lb <= 0x4000_0000_0000_0000,
    ensures
        m == mat_mul_spec(*a, *b),
        m4_lim(m, 4 * (la * lb / (FP_ONE as int)) + 4),
{
    Mat4 {
        r0: mul_row(a.r0, b, Ghost(la), Ghost(lb)),
        r1: mul_row(a.r1, b, Ghost(la), Ghost(lb)),
        r2: mul_row(a.r2, b, Ghost(la), Ghost(lb)),
        r3: mul_row(a.r3, b, Ghost(la), Ghost(lb)),
    }
}

/// The product `m * v` for a column vector, with component bounds.
pub fn transform4(m: &Mat4, v: Vec4, Ghost(lm): Ghost<int>, Ghost(lv): Ghost<int>) -> (o: Vec4)
    requires
        m4_lim(*m, lm),
        v4_lim(v, lv),
        0 <= lm,
        0 <= lv,
        lm * lv <= 0x4000_0000_0000_0000,
    ensures
        o == transform4_spec(*m, v),
        v4_lim(o, 4 * (lm * lv / (FP_ONE as int)) + 4),
{
    Vec4 {
        x: dot4(m.r0, v, Ghost(lm), Ghost(lv)),
        y: dot4(m.r1, v, Ghost(lm), Ghost(lv)),
        z: dot4(m.r2, v, Ghost(lm), Ghost(lv)),
        w: dot4(m.r3, v, Ghost(lm), Ghost(lv)),
    }
}

/// Bound accepted for transform-matrix entries handed to the pipeline
/// (64 units, fixed point).
pub const MAT_IN_LIM: i64 = 0x40_0000;

/// Bound on normal-matrix entries; a transform whose inverse-transpose falls
/// outside it degrades to the identity.
pub const NMAT_LIM: i64 = 0x10_0000;

/// The cofactor matrix of the upper-left 3x3 of `m` (the inverse-transpose
/// times the determinant).
pub open spec fn cof3_spec(m: Mat4) -> Mat3 {
    let a00 = m.r0.x as int; let a01 = m.r0.y as int; let a02 = m.r0.z as int;
    let a10 = m.r1.x as int; let a11 = m.r1.y as int; let a12 = m.r1.z as int;
    let a20 = m.r2.x as int; let a21 = m.r2.y as int; let a22 = m.r2.z as int;
    Mat3 {
        r0: Vec3 {
            x: (fxm(a11, a22) - fxm(a12, a21)) as i64,
            y: (fxm(a12, a20) - fxm(a10, a22)) as i64,
            z: (fxm(a10, a21) - fxm(a11, a20)) as i64,
        },
        r1: Vec3 {
            x: (fxm(a02, a21) - fxm(a01, a22)) as i64,
            y: (fxm(a00, a22) - fxm(a02, a20)) as i64,
            z: (fxm(a01, a20) - fxm(a00, a21)) as i64,
        },
        r2: Vec3 {
            x: (fxm(a01, a12) - fxm(a02, a11)) as i64,
            y: (fxm(a02, a10) - fxm(a00, a12)) as i64,
            z: (fxm(a00, a11) - fxm(a01, a10)) as i64,
        },
    }
}

/// Determinant of the upper-left 3x3 of `m`, by cofactor expansion of its
/// first row.
pub open spec fn det3_spec(m: Mat4) -> int {
    let c = cof3_spec(m);
    fxm(m.r0.x as int, c.r0.x as int) + fxm(m.r0.y as int, c.r0.y as int)
        + fxm(m.r0.z as int, c.r0.z as int)
}

/// The matrix normals are transformed by: the inverse-transpose of the
/// model's upper-left 3x3 (so normals stay perpendicular under non-uniform
/// scale). A singular or out-of-envelope transform degrades to the identity
/// rather than failing the job.
pub open spec fn normal_mat_spec(m: Mat4) -> Mat3 {
    let c = cof3_spec(m);
    let det = det3_spec(m);
    if det == 0 {
        mat3_identity()
    } else {
        let n = Mat3 {
            r0: Vec3 {
                x: fxd_signed(c.r0.x as int, det) as i64,
                y: fxd_signed(c.r0.y as int, det) as i64,
                z: fxd_signed(c.r0.z as int, det) as i64,
            },
            r1: Vec3 {
                x: fxd_signed(c.r1.x as int, det) as i64,
                y: fxd_signed(c.r1.y as int, det) as i64,
                z: fxd_signed(c.r1.z as int, det) as i64,
            },
            r2: Vec3 {
                x: fxd_signed(c.r2.x as int, det) as i64,
                y: fxd_signed(c.r2.y as int, det) as i64,
                z: fxd_signed(c.r2.z as int, det) as i64,
            },
        };
        if m3_lim(n, NMAT_LIM as int) { n } else { mat3_identity() }
    }
}

pub fn normal_mat(m: &Mat4) -> (r: Mat3)
    requires
        m4_lim(*m, MAT_IN_LIM as int),
    ensures
        r == normal_mat_spec(*m),
        m3_lim(r, NMAT_LIM as int),
{
    let ghost la: int = MAT_IN_LIM as int;
    let c00 = fx_mul_b(m.r1.y, m.r2.z, Ghost(la), Ghost(la))
        - fx_mul_b(m.r1.z, m.r2.y, Ghost(la), Ghost(la));
    let c01 = fx_mul_b(m.r1.z, m.r2.x, Ghost(la), Ghost(la))
        - fx_mul_b(m.r1.x, m.r2.z, Ghost(la), Ghost(la));
    let c02 = fx_mul_b(m.r1.x, m.r2.y, Ghost(la), Ghost(la))
        - fx_mul_b(m.r1.y, m.r2.x, Ghost(la), Ghost(la));
    let c10 = fx_mul_b(m.r0.z, m.r2.y, Ghost(la), Ghost(la))
        - fx_mul_b(m.r0.y, m.r2.z, Ghost(la), Ghost(la));
    let c11 = fx_mul_b(m.r0.x, m.r2.z, Ghost(la), Ghost(la))
        - fx_mul_b(m.r0.z, m.r2.x, Ghost(la), Ghost(la));
    let c12 = fx_mul_b(m.r0.y, m.r2.x, Ghost(la), Ghost(la))
        - fx_mul_b(m.r0.x, m.r2.y, Ghost(la), Ghost(la));
    let c20 = fx_mul_b(m.r0.y, m.r1.z, Ghost(la), Ghost(la))
        - fx_mul_b(m.r0.z, m.r1.y, Ghost(la), Ghost(la));
    let c21 = fx_mul_b(m.r0.z, m.r1.x, Ghost(la), Ghost(la))
        - fx_mul_b(m.r0.x, m.r1.z, Ghost(la), Ghost(la));
    let c22 = fx_mul_b(m.r0.x, m.r1.y, Ghost(la), Ghost(la))
        - fx_mul_b(m.r0.y, m.r1.x, Ghost(la), Ghost(la));
    let ghost lc: int = 2 * (la * la / (FP_ONE as int)) + 2;
    let det = fx_mul_b(m.r0.x, c00, Ghost(la), Ghost(lc))
        + fx_mul_b(m.r0.y, c01, Ghost(la), Ghost(lc))
        + fx_mul_b(m.r0.z, c02, Ghost(la), Ghost(lc));
    if det == 0 {
        return Mat3 {
            r0: Vec3 { x: FP_ONE, y: 0, z: 0 },
            r1: Vec3 { x: 0, y: FP_ONE, z: 0 },
            r2: Vec3 { x: 0, y: 0, z: FP_ONE },
        };
    }
    let n = Mat3 {
        r0: Vec3 {
            x: fx_div_signed(c00, det),
            y: fx_div_signed(c01, det),
            z: fx_div_signed(c02, det),
        },
        r1: Vec3 {
            x: fx_div_signed(c10, det),
            y: fx_div_signed(c11, det),
            z: fx_div_signed(c12, det),
        },
        r2: Vec3 {
            x: fx_div_signed(c20, det),
            y: fx_div_signed(c21, det),
            z: fx_div_signed(c22, det),
        },
    };
    if n.r0.x >= -NMAT_LIM && n.r0.x <= NMAT_LIM
        && n.r0.y >= -NMAT_LIM && n.r0.y <= NMAT_LIM
        && n.r0.z >= -NMAT_LIM && n.r0.z <= NMAT_LIM
        && n.r1.x >= -NMAT_LIM && n.r1.x <= NMAT_LIM
        && n.r1.y >= -NMAT_LIM && n.r1.y <= NMAT_LIM
        && n.r1.z >= -NMAT_LIM && n.r1.z <= NMAT_LIM
        && n.r2.x >= -NMAT_LIM && n.r2.x <= NMAT_LIM
        && n.r2.y >= -NMAT_LIM && n.r2.y <= NMAT_LIM
        && n.r2.z >= -NMAT_LIM && n.r2.z <= NMAT_LIM {
        n
    } else {
        Mat3 {
            r0: Vec3 { x: FP_ONE, y: 0, z: 0 },
            r1: Vec3 { x: 0, y: FP_ONE, z: 0 },
            r2: Vec3 { x: 0, y: 0, z: FP_ONE },
        }
    }
}

/// The product `m * v` for a 3-vector (directions, normals).
pub fn transform3(m: &Mat3, v: Vec3, Ghost(lm): Ghost<int>, Ghost(lv): Ghost<int>) -> (o: Vec3)
    requires
        m3_lim(*m, lm),
        v3_lim(v, lv),
        0 <= lm,
        0 <= lv,
        lm * lv <= 0x4000_0000_0000_0000,
    ensures
        o == transform3_spec(*m, v),
        v3_lim(o, 3 * (lm * lv / (FP_ONE as int)) + 3),
{
    Vec3 {
        x: dot3(m.r0, v, Ghost(lm), Ghost(lv)),
        y: dot3(m.r1, v, Ghost(lm), Ghost(lv)),
        z: dot3(m.r2, v, Ghost(lm), Ghost(lv)),
    }
}

} // verus!
