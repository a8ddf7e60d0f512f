//! The top-level render job: one complete rendering request, from a resolved
//! geometry query to a finished 8-bit image.
//!
//! A job acquires a framebuffer at the node's size, fills it with the
//! background, draws every mesh through the two-pass pipeline, scales the
//! result by the job's integer factor (nearest neighbor), and only then
//! quantizes to the output pixel format: four channels, eight bits each,
//! straight (non-premultiplied) alpha, row-major, top row first. On any
//! failure no partial image is returned.

use vstd::prelude::*;
use crate::color::{channel_to_u8, channel_to_u8_spec, Rgba};
use crate::framebuffer::{Framebuffer, DEPTH_FAR};
use crate::fx::FP_ONE;
use crate::geometry::Mesh;
use crate::light::LightType;
use crate::raster::{dview, lemma_index_decomp};
use crate::render;
use crate::render_upto;
use crate::scale::{scale_buffer, scaled_pixel, MAX_SCALE};
use crate::shaders::{placed_wf, PlacedLight, MAX_LIGHTS, MAX_THICKNESS};
use crate::vecmat::{identity4, m4_lim, mat4_identity, transform4, transform4_spec, Mat4, Vec4,
    MAT_IN_LIM};

verus! {

/// Output dimensions of one rendered image, before scaling.
#[derive(Clone, Copy, PartialEq, Eq, Structural, Debug)]
pub struct Size {
    pub width: u32,
    pub height: u32,
}

/// Silhouette style of one rendered image.
#[derive(Clone, Copy, PartialEq, Eq, Structural, Debug)]
pub struct Outline {
    pub thickness: i64,
    pub color: Rgba,
}

/// A resolved camera: the view and projection matrices the collaborator
/// produced.
#[derive(Clone, Copy, PartialEq, Eq, Structural, Debug)]
pub struct RenderCamera {
    pub view: Mat4,
    pub projection: Mat4,
}

/// One image to render: size, background, camera, scene lights and outline
/// style. The geometry itself arrives separately, as the result of the scene
/// query.
pub struct RenderedImage {
    pub size: Size,
    pub background: Rgba,
    pub camera: RenderCamera,
    pub lights: Vec<PlacedLight>,
    pub outline: Outline,
}

/// The node tree of a job. Today one variant; composition variants would
/// consume already-rendered child images without touching the rasterizer.
pub enum RenderNode {
    RenderedImage(RenderedImage),
}

/// One complete rendering request.
pub struct RenderJob {
    pub scale: u32,
    pub root: RenderNode,
}

/// Failure of the external geometry query (a missing selection or
/// animation); it propagates as a job failure.
#[derive(Clone, Copy, PartialEq, Eq, Structural, Debug)]
pub enum QueryError {
    SelectionNotFound,
    AnimationNotFound,
}

#[derive(Clone, Copy, PartialEq, Eq, Structural, Debug)]
pub enum RenderError {
    Query(QueryError),
    BadSize,
    BadScale,
    BadBackground,
    BadCamera,
    BadLights,
    BadOutline,
}

/// The finished image: four 8-bit channels per pixel, straight alpha,
/// row-major, top row first.
pub struct Image {
    pub width: u32,
    pub height: u32,
    pub data: Vec<u8>,
}

impl Image {
    pub open spec fn wf(self) -> bool {
        &&& self.width <= 4096
        &&& self.height <= 4096
        &&& self.data@.len() == 4 * self.width * self.height
    }

    pub fn width(&self) -> (w: u32)
        ensures
            w == self.width,
    {
        self.width
    }

    pub fn height(&self) -> (h: u32)
        ensures
            h == self.height,
    {
        self.height
    }

    /// The raw bytes, pixel by pixel: red, green, blue, alpha.
    pub fn bytes(&self) -> (b: &Vec<u8>)
        ensures
            b@ == self.data@,
    {
        &self.data
    }

    /// The four channels of pixel `i` in row-major order.
    pub fn pixel_at(&self, i: usize) -> (p: (u8, u8, u8, u8))
        requires
            self.wf(),
            i < self.width * self.height,
        ensures
            p.0 == self.data@[4 * i],
            p.1 == self.data@[4 * i + 1],
            p.2 == self.data@[4 * i + 2],
            p.3 == self.data@[4 * i + 3],
    {
        proof {
            assert(4 * (self.width * self.height) <= 0x400_0000) by (nonlinear_arith)
                requires self.width <= 4096, self.height <= 4096;
            assert(4 * self.width * self.height == 4 * (self.width * self.height))
                by (nonlinear_arith);
        }
        (self.data[4 * i], self.data[4 * i + 1], self.data[4 * i + 2], self.data[4 * i + 3])
    }
}

/// Whether a job and its geometry can produce an image at all.
pub open spec fn job_valid(job: RenderJob, geometry: Result<Vec<Mesh>, QueryError>) -> bool {
    let node = job.root;
    match node {
        RenderNode::RenderedImage(img) => {
            &&& geometry is Ok
            &&& 0 < img.size.width
            &&& 0 < img.size.height
            &&& 0 < job.scale <= MAX_SCALE
            &&& img.size.width * job.scale <= 4096
            &&& img.size.height * job.scale <= 4096
            &&& img.background.wf()
            &&& m4_lim(img.camera.view, MAT_IN_LIM as int)
            &&& m4_lim(img.camera.projection, MAT_IN_LIM as int)
            &&& camera_forward_nonzero(img.camera.view)
            &&& img.lights@.len() <= MAX_LIGHTS
            &&& (forall|i: int| 0 <= i < img.lights@.len()
                    ==> placed_wf(#[trigger] img.lights@[i]))
            &&& 0 <= img.outline.thickness <= MAX_THICKNESS
            &&& img.outline.color.wf()
        },
    }
}

/// A camera whose view transform sends the forward axis to zero is
/// malformed.
pub open spec fn camera_forward_nonzero(view: Mat4) -> bool {
    let f = transform4_spec(view, Vec4 { x: 0, y: 0, z: FP_ONE, w: 0 });
    f.x != 0 || f.y != 0 || f.z != 0
}

/// Pixel `j` of the finished image carries the quantized channels of the
/// scaled buffer's pixel `j`.
pub open spec fn pixel_bytes_ok(
    data: Seq<u8>, rendered: Seq<Rgba>, w: int, k: int, j: int,
) -> bool {
    let wk = w * k;
    let px = scaled_pixel(rendered, w, k, j % wk, j / wk);
    &&& data[4 * j] == channel_to_u8_spec(px.r as int) as u8
    &&& data[4 * j + 1] == channel_to_u8_spec(px.g as int) as u8
    &&& data[4 * j + 2] == channel_to_u8_spec(px.b as int) as u8
    &&& data[4 * j + 3] == channel_to_u8_spec(px.a as int) as u8
}

/// The pre-scale color buffer a valid job renders, as a sequence.
pub open spec fn job_rendered(img: RenderedImage, meshes: Seq<Mesh>) -> Seq<Rgba> {
    let w = img.size.width as int;
    let h = img.size.height as int;
    render_upto(
        mat4_identity(), img.camera.view, img.camera.projection, meshes, img.lights@,
        img.outline.thickness as int, img.outline.color,
        Seq::new((w * h) as nat, |i: int| img.background),
        Seq::new((w * h) as nat, |i: int| DEPTH_FAR as int),
        w, h, meshes.len() as int,
    ).0
}

impl RenderJob {
    /// Execute the job against the already-resolved geometry. Succeeds
    /// exactly on valid jobs whose query succeeded; the image is then the
    /// two-pass render of every mesh, scaled by the job's factor and
    /// quantized to the output format.
    pub fn execute(&self, geometry: Result<Vec<Mesh>, QueryError>) -> (r: Result<
        Image,
        RenderError,
    >)
        requires
            geometry is Ok ==> forall|i: int|
                0 <= i < geometry->Ok_0@.len() ==> (#[trigger] geometry->Ok_0@[i]).wf(),
        ensures
            r is Ok <==> job_valid(*self, geometry),
            r is Ok ==> ({
                let img = r->Ok_0;
                let node = self.root->RenderedImage_0;
                let rendered = job_rendered(node, geometry->Ok_0@);
                let w = node.size.width as int;
                let k = self.scale as int;
                let wk = w * k;
                let hk = node.size.height as int * k;
                &&& img.wf()
                &&& img.width == node.size.width * self.scale
                &&& img.height == node.size.height * self.scale
                &&& img.data@.len() == 4 * wk * hk
                &&& forall|j: int| 0 <= j < wk * hk
                        ==> #[trigger] pixel_bytes_ok(img.data@, rendered, w, k, j)
            }),
    {
        let node = match &self.root {
            RenderNode::RenderedImage(img) => img,
        };
        let meshes = match geometry {
            Result::Ok(m) => m,
            Result::Err(e) => {
                return Result::Err(RenderError::Query(e));
            },
        };
        if node.size.width == 0 || node.size.height == 0 {
            return Result::Err(RenderError::BadSize);
        }
        if self.scale == 0 || self.scale > MAX_SCALE as u32 {
            return Result::Err(RenderError::BadScale);
        }
        let wu = node.size.width as u64;
        let hu = node.size.height as u64;
        let su = self.scale as u64;
        proof {
            assert((wu as int) * (su as int) < 0x10_0000_0000_0000) by (nonlinear_arith)
                requires wu < 0x1_0000_0000, su <= 16;
            assert((hu as int) * (su as int) < 0x10_0000_0000_0000) by (nonlinear_arith)
                requires hu < 0x1_0000_0000, su <= 16;
        }
        if wu * su > 4096 || hu * su > 4096 {
            return Result::Err(RenderError::BadSize);
        }
        if !(node.background.r >= 0 && node.background.r <= FP_ONE
            && node.background.g >= 0 && node.background.g <= FP_ONE
            && node.background.b >= 0 && node.background.b <= FP_ONE
            && node.background.a >= 0 && node.background.a <= FP_ONE) {
            return Result::Err(RenderError::BadBackground);
        }
        if !(mat_in_range(&node.camera.view) && mat_in_range(&node.camera.projection)) {
            return Result::Err(RenderError::BadCamera);
        }
        let fwd = transform4(
            &node.camera.view, Vec4 { x: 0, y: 0, z: FP_ONE, w: 0 },
            Ghost(MAT_IN_LIM as int), Ghost(FP_ONE as int),
        );
        if fwd.x == 0 && fwd.y == 0 && fwd.z == 0 {
            return Result::Err(RenderError::BadCamera);
        }
        if node.lights.len() > MAX_LIGHTS || !lights_in_range(&node.lights) {
            return Result::Err(RenderError::BadLights);
        }
        if node.outline.thickness < 0 || node.outline.thickness > MAX_THICKNESS
            || !(node.outline.color.r >= 0 && node.outline.color.r <= FP_ONE
                && node.outline.color.g >= 0 && node.outline.color.g <= FP_ONE
                && node.outline.color.b >= 0 && node.outline.color.b <= FP_ONE
                && node.outline.color.a >= 0 && node.outline.color.a <= FP_ONE) {
            return Result::Err(RenderError::BadOutline);
        }
        let w = node.size.width as usize;
        let h = node.size.height as usize;
        let k = self.scale as usize;
        proof {
            assert(w <= w * k && h <= h * k) by (nonlinear_arith)
                requires 0 < w, 0 < h, 0 < k;
            assert((w as int) * (k as int) <= 4096 && (h as int) * (k as int) <= 4096)
                by (nonlinear_arith)
                requires
                    w as int == wu as int,
                    h as int == hu as int,
                    k as int == su as int,
                    (wu as int) * (su as int) <= 4096,
                    (hu as int) * (su as int) <= 4096;
            assert((w * k) * (h * k) <= 0x100_0000) by (nonlinear_arith)
                requires w * k <= 4096, h * k <= 4096;
        }
        let mut fb = Framebuffer::new(w, h, node.background);
        proof {
            assert(fb.color@ =~= Seq::new((w * h) as nat, |i: int| node.background));
            assert(dview(fb) =~= Seq::new((w * h) as nat, |i: int| DEPTH_FAR as int));
        }
        let ident = identity4();
        render(
            &mut fb, &ident, &node.camera.view, &node.camera.projection, &meshes,
            &node.lights, node.outline.thickness, node.outline.color,
        );
        proof {
            assert(fb.color@ == job_rendered(*node, meshes@));
        }
        let scaled = scale_buffer(&fb.color, w, h, k);
        let wk = w * k;
        let hk = h * k;
        let ghost rendered = job_rendered(*node, meshes@);
        let mut data: Vec<u8> = Vec::new();
        let n = wk * hk;
        let mut i: usize = 0;
        while i < n
            invariant
                n == wk * hk,
                wk == w * k,
                hk == h * k,
                0 < wk <= 4096,
                0 < hk <= 4096,
                0 < w,
                0 < h,
                0 < k <= MAX_SCALE,
                scaled@.len() == n,
                i <= n,
                data@.len() == 4 * i,
                forall|x: int, y: int|
                    0 <= x < wk && 0 <= y < hk
                        ==> scaled@[y * (wk as int) + x]
                            == scaled_pixel(rendered, w as int, k as int, x, y),
                forall|j: int| 0 <= j < i
                    ==> #[trigger] pixel_bytes_ok(data@, rendered, w as int, k as int, j),
            decreases n - i,
        {
            let px = scaled[i];
            let ghost data_old = data@;
            proof {
                lemma_index_decomp(wk as int, hk as int, i as int);
                assert(scaled@[(i as int / wk as int) * wk as int + (i as int % wk as int)]
                    == scaled_pixel(rendered, w as int, k as int,
                        i as int % wk as int, i as int / wk as int));
            }
            data.push(channel_to_u8(px.r));
            data.push(channel_to_u8(px.g));
            data.push(channel_to_u8(px.b));
            data.push(channel_to_u8(px.a));
            proof {
                assert(pixel_bytes_ok(data@, rendered, w as int, k as int, i as int));
                assert forall|j: int| 0 <= j < i
                    implies #[trigger] pixel_bytes_ok(data@, rendered, w as int, k as int, j)
                    by {
                    assert(pixel_bytes_ok(data_old, rendered, w as int, k as int, j));
                    assert(data@[4 * j] == data_old[4 * j]);
                    assert(data@[4 * j + 1] == data_old[4 * j + 1]);
                    assert(data@[4 * j + 2] == data_old[4 * j + 2]);
                    assert(data@[4 * j + 3] == data_old[4 * j + 3]);
                }
            }
            i = i + 1;
        }
        proof {
            assert(4 * (wk as int) * (hk as int) == 4 * ((wk as int) * (hk as int)))
                by (nonlinear_arith);
            assert(node.size.width * self.scale == wk);
            assert(node.size.height * self.scale == hk);
        }
        Result::Ok(Image {
            width: node.size.width * self.scale,
            height: node.size.height * self.scale,
            data,
        })
    }
}

/// Runtime check that every matrix entry is inside the pipeline envelope.
fn mat_in_range(m: &Mat4) -> (b: bool)
    ensures
        b == m4_lim(*m, MAT_IN_LIM as int),
{
    m.r0.x >= -MAT_IN_LIM && m.r0.x <= MAT_IN_LIM
        && m.r0.y >= -MAT_IN_LIM && m.r0.y <= MAT_IN_LIM
        && m.r0.z >= -MAT_IN_LIM && m.r0.z <= MAT_IN_LIM
        && m.r0.w >= -MAT_IN_LIM && m.r0.w <= MAT_IN_LIM
        && m.r1.x >= -MAT_IN_LIM && m.r1.x <= MAT_IN_LIM
        && m.r1.y >= -MAT_IN_LIM && m.r1.y <= MAT_IN_LIM
        && m.r1.z >= -MAT_IN_LIM && m.r1.z <= MAT_IN_LIM
        && m.r1.w >= -MAT_IN_LIM && m.r1.w <= MAT_IN_LIM
        && m.r2.x >= -MAT_IN_LIM && m.r2.x <= MAT_IN_LIM
        && m.r2.y >= -MAT_IN_LIM && m.r2.y <= MAT_IN_LIM
        && m.r2.z >= -MAT_IN_LIM && m.r2.z <= MAT_IN_LIM
        && m.r2.w >= -MAT_IN_LIM && m.r2.w <= MAT_IN_LIM
        && m.r3.x >= -MAT_IN_LIM && m.r3.x <= MAT_IN_LIM
        && m.r3.y >= -MAT_IN_LIM && m.r3.y <= MAT_IN_LIM
        && m.r3.z >= -MAT_IN_LIM && m.r3.z <= MAT_IN_LIM
        && m.r3.w >= -MAT_IN_LIM && m.r3.w <= MAT_IN_LIM
}

/// Runtime check of one light's construction invariant.
fn light_in_range(l: &LightType) -> (b: bool)
    ensures
        b == l.wf(),
{
    match l {
        LightType::Point { color, intensity, range } => {
            color.r >= 0 && color.r <= FP_ONE && color.g >= 0 && color.g <= FP_ONE
                && color.b >= 0 && color.b <= FP_ONE
                && *intensity >= 0 && *intensity <= crate::light::MAX_INTENSITY
                && (match range {
                    Option::Some(d) => *d > 0 && *d <= crate::light::MAX_DIST,
                    Option::None => true,
                })
        },
        LightType::Directional { color, intensity } => {
            color.r >= 0 && color.r <= FP_ONE && color.g >= 0 && color.g <= FP_ONE
                && color.b >= 0 && color.b <= FP_ONE
                && *intensity >= 0 && *intensity <= crate::light::MAX_INTENSITY
        },
        LightType::Spot { color, intensity, range, inner_cone_angle, outer_cone_angle } => {
            color.r >= 0 && color.r <= FP_ONE && color.g >= 0 && color.g <= FP_ONE
                && color.b >= 0 && color.b <= FP_ONE
                && *intensity >= 0 && *intensity <= crate::light::MAX_INTENSITY
                && (match range {
                    Option::Some(d) => *d > 0 && *d <= crate::light::MAX_DIST,
                    Option::None => true,
                })
                && *inner_cone_angle >= 0 && *inner_cone_angle < *outer_cone_angle
                && (*outer_cone_angle <= crate::fx::FP_HALF_PI
                    || *outer_cone_angle == crate::fx::FP_PI)
        },
    }
}

/// Runtime check of the whole light list.
fn lights_in_range(lights: &Vec<PlacedLight>) -> (b: bool)
    ensures
        b == (forall|i: int| 0 <= i < lights@.len() ==> placed_wf(#[trigger] lights@[i])),
{
    let mut i: usize = 0;
    while i < lights.len()
        invariant
            i <= lights@.len(),
            forall|j: int| 0 <= j < i ==> placed_wf(#[trigger] lights@[j]),
        decreases lights@.len() - i,
    {
        let pl = &lights[i];
        let ok = light_in_range(&pl.light)
            && pl.position.x >= -crate::shaders::LIGHT_POS_LIM
            && pl.position.x <= crate::shaders::LIGHT_POS_LIM
            && pl.position.y >= -crate::shaders::LIGHT_POS_LIM
            && pl.position.y <= crate::shaders::LIGHT_POS_LIM
            && pl.position.z >= -crate::shaders::LIGHT_POS_LIM
            && pl.position.z <= crate::shaders::LIGHT_POS_LIM
            && pl.direction.x >= -crate::shaders::LIGHT_POS_LIM
            && pl.direction.x <= crate::shaders::LIGHT_POS_LIM
            && pl.direction.y >= -crate::shaders::LIGHT_POS_LIM
            && pl.direction.y <= crate::shaders::LIGHT_POS_LIM
            && pl.direction.z >= -crate::shaders::LIGHT_POS_LIM
            && pl.direction.z <= crate::shaders::LIGHT_POS_LIM;
        if !ok {
            return false;
        }
        i = i + 1;
    }
    true
}

} // verus!
