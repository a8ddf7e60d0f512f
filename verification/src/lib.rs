//! A deterministic, headless sprite renderer: meshes, lights and a camera go
//! in, a rasterized 2D image comes out. All arithmetic is 16.16 fixed point,
//! so every render is bit-reproducible across machines.
//!
//! Each mesh is drawn in two passes into one shared color/depth buffer pair:
//! first the silhouette outline (an expanded, flat-colored back-face hull),
//! then the cel-shaded body, whose nearer fragments overdraw the outline
//! everywhere but the rim. Occlusion between meshes is resolved by the shared
//! depth buffer, never by draw order.

pub mod color;
pub mod framebuffer;
pub mod geometry;
pub mod fx;
pub mod light;
pub mod raster;
pub mod renderer;
pub mod scale;
pub mod shaders;
pub mod vecmat;

use vstd::prelude::*;
use crate::color::{Rgb, Rgba};
use crate::framebuffer::Framebuffer;
use crate::fx::{div_floor_pos, lemma_div_floor_bound, FP_ONE};
use crate::geometry::{Mesh, NRM_LIM, POS_LIM};
use crate::light::LightType;
use crate::raster::{
    draw_triangle, dview, job_of, tri_apply_c, tri_apply_d, ScreenVertex, TriJob,
};
use crate::shaders::{
    cel_shade, cel_shade_spec, clamp3_spec, expand_spec, expand_vertex, placed_wf,
    project_spec, project_vertex, PlacedLight, MAX_LIGHTS, MAX_THICKNESS, MVP_LIM, SHADE_LIM,
};
use crate::vecmat::{
    m3_lim, m4_lim, mat_mul, mat_mul_spec, normal_mat, normal_mat_spec, transform3,
    transform3_spec, transform4, transform4_spec, v3_lim, Mat3, Mat4, Vec3, Vec4,
    MAT_IN_LIM, NMAT_LIM,
};

verus! {

/// Everything one cel pass reads.
pub ghost struct CelEnv {
    pub mesh: Mesh,
    pub mvp: Mat4,
    pub nmat: Mat3,
    pub model: Mat4,
    pub lights: Seq<PlacedLight>,
    pub ambient: int,
    pub w: int,
    pub h: int,
}

/// Everything one outline pass reads.
pub ghost struct OutEnv {
    pub mesh: Mesh,
    pub mvp: Mat4,
    pub thickness: int,
    pub color: Rgba,
    pub w: int,
    pub h: int,
}

/// Sum of the three vertex normals of triangle `k` (the triangle's shading
/// normal, unnormalized).
pub open spec fn tri_normal_sum(mesh: Mesh, k: int) -> Vec3 {
    let t = mesh.triangles@[k];
    let n0 = mesh.normals@[t.a as int];
    let n1 = mesh.normals@[t.b as int];
    let n2 = mesh.normals@[t.c as int];
    Vec3 {
        x: (n0.x + n1.x + n2.x) as i64,
        y: (n0.y + n1.y + n2.y) as i64,
        z: (n0.z + n1.z + n2.z) as i64,
    }
}

/// Centroid of triangle `k` in model space, flooring.
pub open spec fn tri_centroid(mesh: Mesh, k: int) -> Vec3 {
    let t = mesh.triangles@[k];
    let p0 = mesh.positions@[t.a as int];
    let p1 = mesh.positions@[t.b as int];
    let p2 = mesh.positions@[t.c as int];
    Vec3 {
        x: ((p0.x + p1.x + p2.x) / 3) as i64,
        y: ((p0.y + p1.y + p2.y) / 3) as i64,
        z: ((p0.z + p1.z + p2.z) / 3) as i64,
    }
}

/// Screen-space triangle the cel pass rasterizes, or nothing when any vertex
/// is clipped away.
pub open spec fn cel_tri_screen(env: CelEnv, k: int)
    -> Option<(ScreenVertex, ScreenVertex, ScreenVertex)> {
    let t = env.mesh.triangles@[k];
    let s0 = project_spec(env.mvp, env.mesh.positions@[t.a as int], env.w, env.h);
    let s1 = project_spec(env.mvp, env.mesh.positions@[t.b as int], env.w, env.h);
    let s2 = project_spec(env.mvp, env.mesh.positions@[t.c as int], env.w, env.h);
    if s0 is Some && s1 is Some && s2 is Some {
        Option::Some((s0->0, s1->0, s2->0))
    } else {
        Option::None
    }
}

/// The flat cel color of triangle `k`: its averaged normal is taken through
/// the normal matrix, its centroid through the model transform, and both are
/// clamped into the lighting envelope before shading.
pub open spec fn cel_tri_color(env: CelEnv, k: int) -> Rgba {
    let n = clamp3_spec(
        transform3_spec(env.nmat, tri_normal_sum(env.mesh, k)), SHADE_LIM as int,
    );
    let c = tri_centroid(env.mesh, k);
    let cw = transform4_spec(env.model, Vec4 { x: c.x, y: c.y, z: c.z, w: FP_ONE });
    let p = clamp3_spec(Vec3 { x: cw.x, y: cw.y, z: cw.z }, SHADE_LIM as int);
    cel_shade_spec(env.mesh.base_color, env.ambient, env.lights, p, n)
}

/// The buffers after the cel pass has handled triangle `k`.
pub open spec fn cel_step(env: CelEnv, c: Seq<Rgba>, d: Seq<int>, k: int)
    -> (Seq<Rgba>, Seq<int>) {
    match cel_tri_screen(env, k) {
        Option::None => (c, d),
        Option::Some(tri) => {
            let g = TriJob {
                c, d, w: env.w, h: env.h, v0: tri.0, v1: tri.1, v2: tri.2,
                col: cel_tri_color(env, k),
            };
            (tri_apply_c(g), tri_apply_d(g))
        },
    }
}

/// The buffers after the cel pass has handled the first `k` triangles.
pub open spec fn cel_upto(env: CelEnv, c0: Seq<Rgba>, d0: Seq<int>, k: int)
    -> (Seq<Rgba>, Seq<int>)
    decreases k,
{
    if k <= 0 {
        (c0, d0)
    } else {
        let prev = cel_upto(env, c0, d0, k - 1);
        cel_step(env, prev.0, prev.1, k - 1)
    }
}

/// Screen-space triangle the outline pass rasterizes for triangle `k`: each
/// vertex projected, then pushed `thickness` pixels along its projected
/// normal, with the winding reversed so that only original back faces
/// survive the rasterizer's orientation test (the classic expanded hull).
pub open spec fn out_tri_screen(env: OutEnv, k: int)
    -> Option<(ScreenVertex, ScreenVertex, ScreenVertex)> {
    let t = env.mesh.triangles@[k];
    let s0 = project_spec(env.mvp, env.mesh.positions@[t.a as int], env.w, env.h);
    let s1 = project_spec(env.mvp, env.mesh.positions@[t.b as int], env.w, env.h);
    let s2 = project_spec(env.mvp, env.mesh.positions@[t.c as int], env.w, env.h);
    if s0 is Some && s1 is Some && s2 is Some {
        let n0 = env.mesh.normals@[t.a as int];
        let n1 = env.mesh.normals@[t.b as int];
        let n2 = env.mesh.normals@[t.c as int];
        let e0 = expand_spec(
            s0->0,
            transform4_spec(env.mvp, Vec4 { x: n0.x, y: n0.y, z: n0.z, w: 0 }),
            env.thickness,
        );
        let e1 = expand_spec(
            s1->0,
            transform4_spec(env.mvp, Vec4 { x: n1.x, y: n1.y, z: n1.z, w: 0 }),
            env.thickness,
        );
        let e2 = expand_spec(
            s2->0,
            transform4_spec(env.mvp, Vec4 { x: n2.x, y: n2.y, z: n2.z, w: 0 }),
            env.thickness,
        );
        Option::Some((e0, e2, e1))
    } else {
        Option::None
    }
}

pub open spec fn out_step(env: OutEnv, c: Seq<Rgba>, d: Seq<int>, k: int)
    -> (Seq<Rgba>, Seq<int>) {
    match out_tri_screen(env, k) {
        Option::None => (c, d),
        Option::Some(tri) => {
            let g = TriJob {
                c, d, w: env.w, h: env.h, v0: tri.0, v1: tri.1, v2: tri.2, col: env.color,
            };
            (tri_apply_c(g), tri_apply_d(g))
        },
    }
}

pub open spec fn out_upto(env: OutEnv, c0: Seq<Rgba>, d0: Seq<int>, k: int)
    -> (Seq<Rgba>, Seq<int>)
    decreases k,
{
    if k <= 0 {
        (c0, d0)
    } else {
        let prev = out_upto(env, c0, d0, k - 1);
        out_step(env, prev.0, prev.1, k - 1)
    }
}

/// The cel (toon) pass over one mesh: every triangle is projected, shaded to
/// one banded diffuse color, and rasterized depth-tested.
pub fn cel_pass(
    fb: &mut Framebuffer,
    mesh: &Mesh,
    mvp: &Mat4,
    nmat: &Mat3,
    model: &Mat4,
    lights: &Vec<PlacedLight>,
    ambient: i64,
)
    requires
        old(fb).wf(),
        mesh.wf(),
        m4_lim(*mvp, MVP_LIM as int),
        m3_lim(*nmat, NMAT_LIM as int),
        m4_lim(*model, MAT_IN_LIM as int),
        lights@.len() <= MAX_LIGHTS,
        forall|i: int| 0 <= i < lights@.len() ==> placed_wf(#[trigger] lights@[i]),
        0 <= ambient <= FP_ONE,
    ensures
        final(fb).wf(),
        final(fb).width == old(fb).width,
        final(fb).height == old(fb).height,
        ({
            let env = CelEnv {
                mesh: *mesh, mvp: *mvp, nmat: *nmat, model: *model, lights: lights@,
                ambient: ambient as int, w: old(fb).width as int, h: old(fb).height as int,
            };
            let out = cel_upto(
                env, old(fb).color@, dview(*old(fb)), mesh.triangles@.len() as int,
            );
            final(fb).color@ == out.0 && dview(*final(fb)) == out.1
        }),
{
    let ghost env = CelEnv {
        mesh: *mesh, mvp: *mvp, nmat: *nmat, model: *model, lights: lights@,
        ambient: ambient as int, w: fb.width as int, h: fb.height as int,
    };
    let ghost c0 = fb.color@;
    let ghost d0 = dview(*fb);
    let w = fb.width;
    let h = fb.height;
    let mut k: usize = 0;
    while k < mesh.triangles.len()
        invariant
            fb.wf(),
            fb.width == w,
            fb.height == h,
            mesh.wf(),
            m4_lim(*mvp, MVP_LIM as int),
            m3_lim(*nmat, NMAT_LIM as int),
            m4_lim(*model, MAT_IN_LIM as int),
            lights@.len() <= MAX_LIGHTS,
            forall|i: int| 0 <= i < lights@.len() ==> placed_wf(#[trigger] lights@[i]),
            0 <= ambient <= FP_ONE,
            0 < w <= 4096,
            0 < h <= 4096,
            k <= mesh.triangles@.len(),
            env == (CelEnv {
                mesh: *mesh, mvp: *mvp, nmat: *nmat, model: *model, lights: lights@,
                ambient: ambient as int, w: w as int, h: h as int,
            }),
            c0.len() == w * h,
            d0.len() == w * h,
            ({
                let out = cel_upto(env, c0, d0, k as int);
                fb.color@ == out.0 && dview(*fb) == out.1
            }),
        decreases mesh.triangles@.len() - k,
    {
        let ghost prev = cel_upto(env, c0, d0, k as int);
        let t = mesh.triangles[k];
        let p0 = mesh.positions[t.a];
        let p1 = mesh.positions[t.b];
        let p2 = mesh.positions[t.c];
        let s0o = project_vertex(mvp, p0, w, h);
        let s1o = project_vertex(mvp, p1, w, h);
        let s2o = project_vertex(mvp, p2, w, h);
        if let (Option::Some(s0), Option::Some(s1), Option::Some(s2)) = (s0o, s1o, s2o) {
            let n0 = mesh.normals[t.a];
            let n1 = mesh.normals[t.b];
            let n2 = mesh.normals[t.c];
            let ns = Vec3 {
                x: n0.x + n1.x + n2.x,
                y: n0.y + n1.y + n2.y,
                z: n0.z + n1.z + n2.z,
            };
            let nw = crate::shaders::clamp3(
                transform3(nmat, ns, Ghost(NMAT_LIM as int), Ghost(3 * NRM_LIM as int)),
                SHADE_LIM,
            );
            proof {
                lemma_div_floor_bound(
                    p0.x as int + p1.x + p2.x, 3 * POS_LIM as int, 3,
                );
                lemma_div_floor_bound(
                    p0.y as int + p1.y + p2.y, 3 * POS_LIM as int, 3,
                );
                lemma_div_floor_bound(
                    p0.z as int + p1.z + p2.z, 3 * POS_LIM as int, 3,
                );
            }
            let cen = Vec3 {
                x: div_floor_pos(p0.x + p1.x + p2.x, 3),
                y: div_floor_pos(p0.y + p1.y + p2.y, 3),
                z: div_floor_pos(p0.z + p1.z + p2.z, 3),
            };
            let cw = transform4(
                model,
                Vec4 { x: cen.x, y: cen.y, z: cen.z, w: FP_ONE },
                Ghost(MAT_IN_LIM as int),
                Ghost(POS_LIM as int + 1),
            );
            let pw = crate::shaders::clamp3(Vec3 { x: cw.x, y: cw.y, z: cw.z }, SHADE_LIM);
            let col = cel_shade(mesh.base_color, ambient, lights, pw, nw);
            proof {
                assert(cel_tri_screen(env, k as int) == Option::Some((s0, s1, s2)));
                assert(col == cel_tri_color(env, k as int));
            }
            let ghost before = *fb;
            draw_triangle(fb, s0, s1, s2, col);
            proof {
                let g = job_of(before, s0, s1, s2, col);
                assert(g == (TriJob {
                    c: prev.0, d: prev.1, w: env.w, h: env.h, v0: s0, v1: s1, v2: s2,
                    col,
                }));
                assert(cel_upto(env, c0, d0, k as int + 1)
                    == cel_step(env, prev.0, prev.1, k as int));
            }
        } else {
            proof {
                assert(cel_tri_screen(env, k as int) is None);
                assert(cel_upto(env, c0, d0, k as int + 1)
                    == cel_step(env, prev.0, prev.1, k as int));
            }
        }
        k = k + 1;
    }
}

/// The outline (silhouette) pass over one mesh. With thickness zero it has no
/// effect at all: the buffers come back bit-identical.
pub fn outline_pass(
    fb: &mut Framebuffer,
    mesh: &Mesh,
    mvp: &Mat4,
    thickness: i64,
    color: Rgba,
)
    requires
        old(fb).wf(),
        mesh.wf(),
        m4_lim(*mvp, MVP_LIM as int),
        0 <= thickness <= MAX_THICKNESS,
        color.wf(),
    ensures
        final(fb).wf(),
        final(fb).width == old(fb).width,
        final(fb).height == old(fb).height,
        thickness == 0 ==> final(fb).color@ == old(fb).color@
            && final(fb).depth@ == old(fb).depth@,
        thickness > 0 ==> ({
            let env = OutEnv {
                mesh: *mesh, mvp: *mvp, thickness: thickness as int, color,
                w: old(fb).width as int, h: old(fb).height as int,
            };
            let out = out_upto(
                env, old(fb).color@, dview(*old(fb)), mesh.triangles@.len() as int,
            );
            final(fb).color@ == out.0 && dview(*final(fb)) == out.1
        }),
{
    if thickness == 0 {
        return;
    }
    let ghost env = OutEnv {
        mesh: *mesh, mvp: *mvp, thickness: thickness as int, color,
        w: fb.width as int, h: fb.height as int,
    };
    let ghost c0 = fb.color@;
    let ghost d0 = dview(*fb);
    let w = fb.width;
    let h = fb.height;
    let mut k: usize = 0;
    while k < mesh.triangles.len()
        invariant
            fb.wf(),
            fb.width == w,
            fb.height == h,
            mesh.wf(),
            m4_lim(*mvp, MVP_LIM as int),
            0 <= thickness <= MAX_THICKNESS,
            0 < w <= 4096,
            0 < h <= 4096,
            k <= mesh.triangles@.len(),
            env == (OutEnv {
                mesh: *mesh, mvp: *mvp, thickness: thickness as int, color,
                w: w as int, h: h as int,
            }),
            c0.len() == w * h,
            d0.len() == w * h,
            ({
                let out = out_upto(env, c0, d0, k as int);
                fb.color@ == out.0 && dview(*fb) == out.1
            }),
        decreases mesh.triangles@.len() - k,
    {
        let ghost prev = out_upto(env, c0, d0, k as int);
        let t = mesh.triangles[k];
        let p0 = mesh.positions[t.a];
        let p1 = mesh.positions[t.b];
        let p2 = mesh.positions[t.c];
        let s0o = project_vertex(mvp, p0, w, h);
        let s1o = project_vertex(mvp, p1, w, h);
        let s2o = project_vertex(mvp, p2, w, h);
        if let (Option::Some(s0), Option::Some(s1), Option::Some(s2)) = (s0o, s1o, s2o) {
            let n0 = mesh.normals[t.a];
            let n1 = mesh.normals[t.b];
            let n2 = mesh.normals[t.c];
            let e0 = expand_vertex(
                s0,
                transform4(mvp, Vec4 { x: n0.x, y: n0.y, z: n0.z, w: 0 },
                    Ghost(MVP_LIM as int), Ghost(NRM_LIM as int)),
                thickness,
            );
            let e1 = expand_vertex(
                s1,
                transform4(mvp, Vec4 { x: n1.x, y: n1.y, z: n1.z, w: 0 },
                    Ghost(MVP_LIM as int), Ghost(NRM_LIM as int)),
                thickness,
            );
            let e2 = expand_vertex(
                s2,
                transform4(mvp, Vec4 { x: n2.x, y: n2.y, z: n2.z, w: 0 },
                    Ghost(MVP_LIM as int), Ghost(NRM_LIM as int)),
                thickness,
            );
            proof {
                assert(out_tri_screen(env, k as int) == Option::Some((e0, e2, e1)));
            }
            let ghost before = *fb;
            draw_triangle(fb, e0, e2, e1, color);
            proof {
                let g = job_of(before, e0, e2, e1, color);
                assert(g == (TriJob {
                    c: prev.0, d: prev.1, w: env.w, h: env.h, v0: e0, v1: e2, v2: e1,
                    col: color,
                }));
                assert(out_upto(env, c0, d0, k as int + 1)
                    == out_step(env, prev.0, prev.1, k as int));
            }
        } else {
            proof {
                assert(out_tri_screen(env, k as int) is None);
                assert(out_upto(env, c0, d0, k as int + 1)
                    == out_step(env, prev.0, prev.1, k as int));
            }
        }
        k = k + 1;
    }
}

/// The fixed fallback light: white, intensity one, along the view's forward
/// axis. It exists so meshes always receive some shading even absent scene
/// lights.
pub open spec fn fallback_light_spec(view: Mat4) -> PlacedLight {
    let f = transform4_spec(view, Vec4 { x: 0, y: 0, z: FP_ONE, w: 0 });
    PlacedLight {
        light: LightType::Directional {
            color: Rgb { r: FP_ONE, g: FP_ONE, b: FP_ONE },
            intensity: FP_ONE,
        },
        position: Vec3 { x: 0, y: 0, z: 0 },
        direction: clamp3_spec(Vec3 { x: f.x, y: f.y, z: f.z }, 0x100_0000),
    }
}

pub fn fallback_light(view: &Mat4) -> (pl: PlacedLight)
    requires
        m4_lim(*view, MAT_IN_LIM as int),
    ensures
        pl == fallback_light_spec(*view),
        placed_wf(pl),
{
    let f = transform4(
        view, Vec4 { x: 0, y: 0, z: FP_ONE, w: 0 },
        Ghost(MAT_IN_LIM as int), Ghost(FP_ONE as int),
    );
    PlacedLight {
        light: LightType::Directional {
            color: Rgb { r: FP_ONE, g: FP_ONE, b: FP_ONE },
            intensity: FP_ONE,
        },
        position: Vec3 { x: 0, y: 0, z: 0 },
        direction: crate::shaders::clamp3(Vec3 { x: f.x, y: f.y, z: f.z }, 0x100_0000),
    }
}

/// The light list and ambient floor the cel pass actually runs with: the
/// scene's lights with no ambient-mode fallback when any are given, else the
/// fallback light with ambient one half.
pub open spec fn effective_lights(view: Mat4, lights: Seq<PlacedLight>) -> Seq<PlacedLight> {
    if lights.len() == 0 { seq![fallback_light_spec(view)] } else { lights }
}

pub open spec fn effective_ambient(lights: Seq<PlacedLight>) -> int {
    if lights.len() == 0 { 32768 } else { 0 }
}

/// The buffers after the first `k` meshes have been drawn: for each mesh the
/// outline pass (skipped entirely at thickness zero), then the cel pass.
pub open spec fn render_upto(
    model: Mat4, view: Mat4, projection: Mat4, meshes: Seq<Mesh>,
    lights: Seq<PlacedLight>, thickness: int, ocolor: Rgba,
    c0: Seq<Rgba>, d0: Seq<int>, w: int, h: int, k: int,
) -> (Seq<Rgba>, Seq<int>)
    decreases k,
{
    if k <= 0 {
        (c0, d0)
    } else {
        let prev = render_upto(
            model, view, projection, meshes, lights, thickness, ocolor, c0, d0, w, h, k - 1,
        );
        let mvp = mat_mul_spec(projection, mat_mul_spec(view, model));
        let mid = if thickness == 0 {
            prev
        } else {
            let oenv = OutEnv {
                mesh: meshes[k - 1], mvp, thickness, color: ocolor, w, h,
            };
            out_upto(oenv, prev.0, prev.1, meshes[k - 1].triangles@.len() as int)
        };
        let cenv = CelEnv {
            mesh: meshes[k - 1], mvp, nmat: normal_mat_spec(model), model,
            lights: effective_lights(view, lights),
            ambient: effective_ambient(lights), w, h,
        };
        cel_upto(cenv, mid.0, mid.1, meshes[k - 1].triangles@.len() as int)
    }
}

/// The buffers after a render that runs only the cel passes.
pub open spec fn cel_only_upto(
    model: Mat4, view: Mat4, projection: Mat4, meshes: Seq<Mesh>,
    lights: Seq<PlacedLight>, c0: Seq<Rgba>, d0: Seq<int>, w: int, h: int, k: int,
) -> (Seq<Rgba>, Seq<int>)
    decreases k,
{
    if k <= 0 {
        (c0, d0)
    } else {
        let prev = cel_only_upto(model, view, projection, meshes, lights, c0, d0, w, h, k - 1);
        let mvp = mat_mul_spec(projection, mat_mul_spec(view, model));
        let cenv = CelEnv {
            mesh: meshes[k - 1], mvp, nmat: normal_mat_spec(model), model,
            lights: effective_lights(view, lights),
            ambient: effective_ambient(lights), w, h,
        };
        cel_upto(cenv, prev.0, prev.1, meshes[k - 1].triangles@.len() as int)
    }
}

/// Law: an outline pass of thickness zero leaves the render bit-identical to
/// running only the cel passes, for any meshes, camera and lights.
pub proof fn lemma_outline_zero_is_cel_only(
    model: Mat4, view: Mat4, projection: Mat4, meshes: Seq<Mesh>,
    lights: Seq<PlacedLight>, ocolor: Rgba, c0: Seq<Rgba>, d0: Seq<int>,
    w: int, h: int, k: int,
)
    ensures
        render_upto(model, view, projection, meshes, lights, 0, ocolor, c0, d0, w, h, k)
            == cel_only_upto(model, view, projection, meshes, lights, c0, d0, w, h, k),
    decreases k,
{
    if k > 0 {
        lemma_outline_zero_is_cel_only(
            model, view, projection, meshes, lights, ocolor, c0, d0, w, h, k - 1,
        );
    }
}

/// The pipeline driver: for each mesh, in the order given, run the outline
/// pass and then the cel pass against the shared buffers. The composite
/// vertex transform is `projection * view * model`. When the scene supplies
/// no lights, a fixed white light along the view's forward axis with ambient
/// one half stands in; otherwise the supplied lights drive the shading with
/// the full attenuation model.
pub fn render(
    fb: &mut Framebuffer,
    model: &Mat4,
    view: &Mat4,
    projection: &Mat4,
    meshes: &Vec<Mesh>,
    lights: &Vec<PlacedLight>,
    outline_thickness: i64,
    outline_color: Rgba,
)
    requires
        old(fb).wf(),
        m4_lim(*model, MAT_IN_LIM as int),
        m4_lim(*view, MAT_IN_LIM as int),
        m4_lim(*projection, MAT_IN_LIM as int),
        forall|i: int| 0 <= i < meshes@.len() ==> (#[trigger] meshes@[i]).wf(),
        lights@.len() <= MAX_LIGHTS,
        forall|i: int| 0 <= i < lights@.len() ==> placed_wf(#[trigger] lights@[i]),
        0 <= outline_thickness <= MAX_THICKNESS,
        outline_color.wf(),
    ensures
        final(fb).wf(),
        final(fb).width == old(fb).width,
        final(fb).height == old(fb).height,
        ({
            let out = render_upto(
                *model, *view, *projection, meshes@, lights@, outline_thickness as int,
                outline_color, old(fb).color@, dview(*old(fb)),
                old(fb).width as int, old(fb).height as int, meshes@.len() as int,
            );
            final(fb).color@ == out.0 && dview(*final(fb)) == out.1
        }),
{
    let vm = mat_mul(view, model, Ghost(MAT_IN_LIM as int), Ghost(MAT_IN_LIM as int));
    let mvp = mat_mul(
        projection, &vm, Ghost(MAT_IN_LIM as int),
        Ghost(4 * (MAT_IN_LIM as int * MAT_IN_LIM as int / (FP_ONE as int)) + 4),
    );
    let nmat = normal_mat(model);
    let mut fallback_vec: Vec<PlacedLight> = Vec::new();
    fallback_vec.push(fallback_light(view));
    let use_fallback = lights.len() == 0;
    let eff: &Vec<PlacedLight> = if use_fallback { &fallback_vec } else { lights };
    let ambient: i64 = if use_fallback { 32768 } else { 0 };
    proof {
        assert(m4_lim(mvp, MVP_LIM as int));
        assert(eff@ == effective_lights(*view, lights@));
        assert(ambient as int == effective_ambient(lights@));
    }
    let ghost c0 = fb.color@;
    let ghost d0 = dview(*fb);
    let w = fb.width;
    let h = fb.height;
    let mut m: usize = 0;
    while m < meshes.len()
        invariant
            fb.wf(),
            fb.width == w,
            fb.height == h,
            0 < w <= 4096,
            0 < h <= 4096,
            m <= meshes@.len(),
            m4_lim(*model, MAT_IN_LIM as int),
            m4_lim(*view, MAT_IN_LIM as int),
            m4_lim(*projection, MAT_IN_LIM as int),
            forall|i: int| 0 <= i < meshes@.len() ==> (#[trigger] meshes@[i]).wf(),
            lights@.len() <= MAX_LIGHTS,
            forall|i: int| 0 <= i < lights@.len() ==> placed_wf(#[trigger] lights@[i]),
            0 <= outline_thickness <= MAX_THICKNESS,
            outline_color.wf(),
            mvp == mat_mul_spec(*projection, mat_mul_spec(*view, *model)),
            m4_lim(mvp, MVP_LIM as int),
            nmat == normal_mat_spec(*model),
            m3_lim(nmat, NMAT_LIM as int),
            eff@ == effective_lights(*view, lights@),
            eff@.len() <= MAX_LIGHTS,
            forall|i: int| 0 <= i < eff@.len() ==> placed_wf(#[trigger] eff@[i]),
            ambient as int == effective_ambient(lights@),
            0 <= ambient <= FP_ONE,
            ({
                let out = render_upto(
                    *model, *view, *projection, meshes@, lights@, outline_thickness as int,
                    outline_color, c0, d0, w as int, h as int, m as int,
                );
                fb.color@ == out.0 && dview(*fb) == out.1
            }),
        decreases meshes@.len() - m,
    {
        let ghost prev = render_upto(
            *model, *view, *projection, meshes@, lights@, outline_thickness as int,
            outline_color, c0, d0, w as int, h as int, m as int,
        );
        let mesh = &meshes[m];
        let ghost fb_mid_before = *fb;
        outline_pass(fb, mesh, &mvp, outline_thickness, outline_color);
        proof {
            if outline_thickness == 0 {
                assert(fb.color@ == prev.0 && dview(*fb) == prev.1);
            }
        }
        cel_pass(fb, mesh, &mvp, &nmat, model, eff, ambient);
        proof {
            assert(render_upto(
                *model, *view, *projection, meshes@, lights@, outline_thickness as int,
                outline_color, c0, d0, w as int, h as int, m as int + 1,
            ).0 == fb.color@);
            assert(render_upto(
                *model, *view, *projection, meshes@, lights@, outline_thickness as int,
                outline_color, c0, d0, w as int, h as int, m as int + 1,
            ).1 == dview(*fb));
        }
        m = m + 1;
    }
}

} // verus!
