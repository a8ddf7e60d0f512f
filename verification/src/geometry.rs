//! The mesh representation the pipeline consumes: triangles as index triples
//! into vertex arrays of positions and normals, plus a base surface color.

use vstd::prelude::*;
use crate::color::Rgba;
use crate::vecmat::{v3_lim, Vec3};

verus! {

/// Bound on mesh vertex coordinates (128 world units, fixed point).
pub const POS_LIM: i64 = 0x80_0000;

/// Bound on mesh normal components (8 units, fixed point; normals need not be
/// exactly unit length).
pub const NRM_LIM: i64 = 0x8_0000;

/// One triangle: indices into the vertex arrays, in consistent winding.
#[derive(Clone, Copy, PartialEq, Eq, Structural, Debug)]
pub struct Tri {
    pub a: usize,
    pub b: usize,
    pub c: usize,
}

pub struct Mesh {
    pub positions: Vec<Vec3>,
    pub normals: Vec<Vec3>,
    pub triangles: Vec<Tri>,
    pub base_color: Rgba,
}

#[derive(Clone, Copy, PartialEq, Eq, Structural, Debug)]
pub enum MeshError {
    MismatchedArrays,
    IndexOutOfBounds,
    CoordinateOutOfRange,
    InvalidColor,
}

impl Mesh {
    /// The mesh invariant: one normal per position, every index in bounds,
    /// all coordinates within the pipeline's numeric envelope.
    pub open spec fn wf(self) -> bool {
        &&& self.positions@.len() == self.normals@.len()
        &&& forall|i: int| 0 <= i < self.triangles@.len()
                ==> (#[trigger] self.triangles@[i]).a < self.positions@.len()
                    && self.triangles@[i].b < self.positions@.len()
                    && self.triangles@[i].c < self.positions@.len()
        &&& forall|i: int| 0 <= i < self.positions@.len()
                ==> v3_lim(#[trigger] self.positions@[i], POS_LIM as int)
        &&& forall|i: int| 0 <= i < self.normals@.len()
                ==> v3_lim(#[trigger] self.normals@[i], NRM_LIM as int)
        &&& self.base_color.wf()
    }

    /// Validate and assemble a mesh; nothing invalid is repaired.
    pub fn new(
        positions: Vec<Vec3>,
        normals: Vec<Vec3>,
        triangles: Vec<Tri>,
        base_color: Rgba,
    ) -> (r: Result<Mesh, MeshError>)
        ensures
            r is Ok ==> r->Ok_0.wf()
                && r->Ok_0.positions@ == positions@
                && r->Ok_0.normals@ == normals@
                && r->Ok_0.triangles@ == triangles@
                && r->Ok_0.base_color == base_color,
            r is Err ==> !(Mesh { positions, normals, triangles, base_color }).wf(),
    {
        if positions.len() != normals.len() {
            return Result::Err(MeshError::MismatchedArrays);
        }
        if !(base_color.r >= 0 && base_color.r <= crate::fx::FP_ONE
            && base_color.g >= 0 && base_color.g <= crate::fx::FP_ONE
            && base_color.b >= 0 && base_color.b <= crate::fx::FP_ONE
            && base_color.a >= 0 && base_color.a <= crate::fx::FP_ONE) {
            return Result::Err(MeshError::InvalidColor);
        }
        let n = positions.len();
        let mut i: usize = 0;
        while i < triangles.len()
            invariant
                i <= triangles@.len(),
                n == positions@.len(),
                forall|j: int| 0 <= j < i
                    ==> (#[trigger] triangles@[j]).a < n
                        && triangles@[j].b < n && triangles@[j].c < n,
            decreases triangles@.len() - i,
        {
            let t = triangles[i];
            if t.a >= n || t.b >= n || t.c >= n {
                proof {
                    let ghost m = Mesh { positions, normals, triangles, base_color };
                    assert(m.triangles@[i as int] == t);
                    assert(!m.wf());
                }
                return Result::Err(MeshError::IndexOutOfBounds);
            }
            i = i + 1;
        }
        let mut i: usize = 0;
        while i < positions.len()
            invariant
                i <= positions@.len(),
                forall|j: int| 0 <= j < i
                    ==> v3_lim(#[trigger] positions@[j], POS_LIM as int),
            decreases positions@.len() - i,
        {
            let p = positions[i];
            if p.x < -POS_LIM || p.x > POS_LIM || p.y < -POS_LIM || p.y > POS_LIM
                || p.z < -POS_LIM || p.z > POS_LIM {
                return Result::Err(MeshError::CoordinateOutOfRange);
            }
            i = i + 1;
        }
        let mut i: usize = 0;
        while i < normals.len()
            invariant
                i <= normals@.len(),
                forall|j: int| 0 <= j < i
                    ==> v3_lim(#[trigger] normals@[j], NRM_LIM as int),
            decreases normals@.len() - i,
        {
            let p = normals[i];
            if p.x < -NRM_LIM || p.x > NRM_LIM || p.y < -NRM_LIM || p.y > NRM_LIM
                || p.z < -NRM_LIM || p.z > NRM_LIM {
                return Result::Err(MeshError::CoordinateOutOfRange);
            }
            i = i + 1;
        }
        Result::Ok(Mesh { positions, normals, triangles, base_color })
    }
}

} // verus!
