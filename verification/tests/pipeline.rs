//! End-to-end scenarios through the render job: the unit cube sprite, the
//! outline ring, depth-order independence, scaling, and job failures.

use spritec::color::Rgba;
use spritec::fx::FP_ONE;
use spritec::geometry::{Mesh, Tri};
use spritec::renderer::{
    Image, Outline, QueryError, RenderCamera, RenderError, RenderJob, RenderNode,
    RenderedImage, Size,
};
use spritec::scale::scale_buffer;
use spritec::shaders::PlacedLight;
use spritec::vecmat::{Mat4, Vec3, Vec4};

fn m4(rows: [[i64; 4]; 4]) -> Mat4 {
    Mat4 {
        r0: Vec4 { x: rows[0][0], y: rows[0][1], z: rows[0][2], w: rows[0][3] },
        r1: Vec4 { x: rows[1][0], y: rows[1][1], z: rows[1][2], w: rows[1][3] },
        r2: Vec4 { x: rows[2][0], y: rows[2][1], z: rows[2][2], w: rows[2][3] },
        r3: Vec4 { x: rows[3][0], y: rows[3][1], z: rows[3][2], w: rows[3][3] },
    }
}

/// View transform of a camera at (8, 8, 8) looking at the origin, y up.
fn corner_view() -> Mat4 {
    m4([
        [46341, 0, -46341, 0],
        [-26755, 53510, -26755, 0],
        [-37837, -37837, -37837, 908088],
        [0, 0, 0, FP_ONE],
    ])
}

/// View transform of a camera at (0, 0, 8) looking at the origin, y up.
fn frontal_view() -> Mat4 {
    m4([
        [FP_ONE, 0, 0, 0],
        [0, FP_ONE, 0, 0],
        [0, 0, -FP_ONE, 8 * FP_ONE],
        [0, 0, 0, FP_ONE],
    ])
}

/// Orthographic projection: x and y cover four world units across, depth
/// maps camera-space 0..32 onto 0..1.
fn ortho() -> Mat4 {
    m4([
        [FP_ONE / 2, 0, 0, 0],
        [0, FP_ONE / 2, 0, 0],
        [0, 0, FP_ONE / 32, 0],
        [0, 0, 0, FP_ONE],
    ])
}

/// Append one quad (corners in counter-clockwise order seen from outside,
/// one shared outward normal) as two triangles wound for the rasterizer.
fn quad(
    ps: &mut Vec<Vec3>,
    ns: &mut Vec<Vec3>,
    ts: &mut Vec<Tri>,
    corners: [[i64; 3]; 4],
    normal: [i64; 3],
) {
    let base = ps.len();
    for c in corners.iter() {
        ps.push(Vec3 { x: c[0], y: c[1], z: c[2] });
        ns.push(Vec3 { x: normal[0], y: normal[1], z: normal[2] });
    }
    ts.push(Tri { a: base, b: base + 2, c: base + 1 });
    ts.push(Tri { a: base, b: base + 3, c: base + 2 });
}

/// A unit cube centered at the origin with the given base color.
fn unit_cube(color: Rgba) -> Mesh {
    let h = FP_ONE / 2;
    let mut ps: Vec<Vec3> = Vec::new();
    let mut ns: Vec<Vec3> = Vec::new();
    let mut ts: Vec<Tri> = Vec::new();
    quad(&mut ps, &mut ns, &mut ts,
        [[-h, -h, h], [h, -h, h], [h, h, h], [-h, h, h]], [0, 0, FP_ONE]);
    quad(&mut ps, &mut ns, &mut ts,
        [[h, -h, -h], [-h, -h, -h], [-h, h, -h], [h, h, -h]], [0, 0, -FP_ONE]);
    quad(&mut ps, &mut ns, &mut ts,
        [[h, -h, h], [h, -h, -h], [h, h, -h], [h, h, h]], [FP_ONE, 0, 0]);
    quad(&mut ps, &mut ns, &mut ts,
        [[-h, -h, -h], [-h, -h, h], [-h, h, h], [-h, h, -h]], [-FP_ONE, 0, 0]);
    quad(&mut ps, &mut ns, &mut ts,
        [[-h, h, h], [h, h, h], [h, h, -h], [-h, h, -h]], [0, FP_ONE, 0]);
    quad(&mut ps, &mut ns, &mut ts,
        [[-h, -h, -h], [h, -h, -h], [h, -h, h], [-h, -h, h]], [0, -FP_ONE, 0]);
    Mesh::new(ps, ns, ts, color).unwrap()
}

/// A flat square of side two in the plane z = `z`, facing +z.
fn flat_quad(z: i64, color: Rgba) -> Mesh {
    let mut ps: Vec<Vec3> = Vec::new();
    let mut ns: Vec<Vec3> = Vec::new();
    let mut ts: Vec<Tri> = Vec::new();
    quad(&mut ps, &mut ns, &mut ts,
        [[-FP_ONE, -FP_ONE, z], [FP_ONE, -FP_ONE, z], [FP_ONE, FP_ONE, z],
            [-FP_ONE, FP_ONE, z]],
        [0, 0, FP_ONE]);
    Mesh::new(ps, ns, ts, color).unwrap()
}

fn white() -> Rgba {
    Rgba { r: FP_ONE, g: FP_ONE, b: FP_ONE, a: FP_ONE }
}

fn transparent() -> Rgba {
    Rgba { r: 0, g: 0, b: 0, a: 0 }
}

fn opaque_black() -> Rgba {
    Rgba { r: 0, g: 0, b: 0, a: FP_ONE }
}

fn cube_job(thickness: i64, outline_color: Rgba, scale: u32) -> RenderJob {
    RenderJob {
        scale,
        root: RenderNode::RenderedImage(RenderedImage {
            size: Size { width: 64, height: 64 },
            background: transparent(),
            camera: RenderCamera { view: corner_view(), projection: ortho() },
            lights: Vec::new(),
            outline: Outline { thickness, color: outline_color },
        }),
    }
}

fn px(img: &Image, x: u32, y: u32) -> (u8, u8, u8, u8) {
    img.pixel_at((y * img.width() + x) as usize)
}

// Scenario: a unit cube at the origin, camera at (8, 8, 8) looking at the
// origin, 64x64, transparent background, fallback directional light along
// the camera's forward axis with ambient one half, no outline. Pixels off
// the silhouette stay background; pixels on lit faces exceed the
// ambient-only floor; every channel is a sane byte.
#[test]
fn cube_sprite_lit_above_ambient_floor() {
    let img = cube_job(0, opaque_black(), 1).execute(Ok(vec![unit_cube(white())])).unwrap();
    assert_eq!(img.width(), 64);
    assert_eq!(img.height(), 64);
    // Corners lie outside the silhouette: pure background.
    assert_eq!(px(&img, 0, 0), (0, 0, 0, 0));
    assert_eq!(px(&img, 63, 0), (0, 0, 0, 0));
    assert_eq!(px(&img, 0, 63), (0, 0, 0, 0));
    assert_eq!(px(&img, 63, 63), (0, 0, 0, 0));
    // The screen center shows a lit face: strictly above the ambient-only
    // floor of one half.
    let (r, g, b, a) = px(&img, 32, 32);
    assert!(r > 128 && g > 128 && b > 128);
    assert_eq!(a, 255);
    // Every pixel is either background or an opaque lit surface.
    let mut i: u32 = 0;
    while i < 64 * 64 {
        let (r, g, b, a) = img.pixel_at(i as usize);
        assert!(a == 0 || a == 255);
        if a == 255 {
            assert!(r > 128 && g > 128 && b > 128);
        } else {
            assert_eq!((r, g, b), (0, 0, 0));
        }
        i += 1;
    }
}

// Scenario: the same setup with outline thickness two and opaque black
// outline color grows a ring of opaque black pixels that is absent at
// thickness zero.
#[test]
fn cube_outline_ring_appears() {
    let plain = cube_job(0, opaque_black(), 1).execute(Ok(vec![unit_cube(white())])).unwrap();
    let outlined = cube_job(2 * FP_ONE, opaque_black(), 1)
        .execute(Ok(vec![unit_cube(white())]))
        .unwrap();
    let count_black = |img: &Image| {
        let mut n: u32 = 0;
        let mut i: u32 = 0;
        while i < 64 * 64 {
            if img.pixel_at(i as usize) == (0, 0, 0, 255) {
                n += 1;
            }
            i += 1;
        }
        n
    };
    assert_eq!(count_black(&plain), 0);
    let ring = count_black(&outlined);
    assert!(ring > 0);
    // The ring sits at the silhouette: some black pixel borders the body.
    let mut found_boundary = false;
    let mut y: u32 = 1;
    while y < 63 {
        let mut x: u32 = 1;
        while x < 63 {
            if px(&outlined, x, y) == (0, 0, 0, 255) {
                let body = |p: (u8, u8, u8, u8)| p.3 == 255 && p.0 > 128;
                if body(px(&outlined, x + 1, y)) || body(px(&outlined, x - 1, y))
                    || body(px(&outlined, x, y + 1)) || body(px(&outlined, x, y - 1)) {
                    found_boundary = true;
                }
            }
            x += 1;
        }
        y += 1;
    }
    assert!(found_boundary);
}

// With thickness zero the outline pass is inert: even the outline color is
// irrelevant, the output is bit-identical.
#[test]
fn zero_thickness_outline_leaves_no_trace() {
    let a = cube_job(0, opaque_black(), 1).execute(Ok(vec![unit_cube(white())])).unwrap();
    let b = cube_job(0, white(), 1).execute(Ok(vec![unit_cube(white())])).unwrap();
    assert_eq!(a.bytes(), b.bytes());
}

// Two meshes at different depths over the same pixel: the nearer one's color
// wins in either submission order.
#[test]
fn nearer_mesh_wins_either_order() {
    let red = Rgba { r: FP_ONE, g: 0, b: 0, a: FP_ONE };
    let blue = Rgba { r: 0, g: 0, b: FP_ONE, a: FP_ONE };
    // The camera sits at +8 on the z axis: z = +0.2 is nearer than -0.2.
    let near = flat_quad(FP_ONE / 5, red);
    let far = flat_quad(-FP_ONE / 5, blue);
    let job = |meshes: Vec<Mesh>| {
        RenderJob {
            scale: 1,
            root: RenderNode::RenderedImage(RenderedImage {
                size: Size { width: 32, height: 32 },
                background: transparent(),
                camera: RenderCamera { view: frontal_view(), projection: ortho() },
                lights: Vec::new(),
                outline: Outline { thickness: 0, color: opaque_black() },
            }),
        }
        .execute(Ok(meshes))
        .unwrap()
    };
    let near_first = job(vec![
        flat_quad(FP_ONE / 5, red), flat_quad(-FP_ONE / 5, blue),
    ]);
    let far_first = job(vec![far, near]);
    let a = px(&near_first, 16, 16);
    let b = px(&far_first, 16, 16);
    assert_eq!(a, b);
    assert!(a.0 > 0 && a.2 == 0, "the nearer, red quad must win");
    assert_eq!(a.3, 255);
}

// Scaling by one is lossless; scaling by two replicates each pixel into a
// 2x2 block.
#[test]
fn integer_scaling_replicates_pixels() {
    let one = cube_job(0, opaque_black(), 1).execute(Ok(vec![unit_cube(white())])).unwrap();
    let two = cube_job(0, opaque_black(), 2).execute(Ok(vec![unit_cube(white())])).unwrap();
    assert_eq!(two.width(), 128);
    assert_eq!(two.height(), 128);
    let mut y: u32 = 0;
    while y < 128 {
        let mut x: u32 = 0;
        while x < 128 {
            assert_eq!(px(&two, x, y), px(&one, x / 2, y / 2));
            x += 1;
        }
        y += 1;
    }
}

#[test]
fn scale_one_is_identity_on_the_buffer() {
    let src = vec![
        Rgba { r: 1, g: 2, b: 3, a: 4 },
        Rgba { r: 5, g: 6, b: 7, a: 8 },
        Rgba { r: 9, g: 10, b: 11, a: 12 },
        Rgba { r: 13, g: 14, b: 15, a: 16 },
    ];
    let out = scale_buffer(&src, 2, 2, 1);
    assert_eq!(out, src);
    let out2 = scale_buffer(&src, 2, 2, 3);
    assert_eq!(out2.len(), 36);
    assert_eq!(out2[0], src[0]);
    assert_eq!(out2[2], src[0]);
    assert_eq!(out2[3], src[1]);
    assert_eq!(out2[6 * 3], src[2]);
    assert_eq!(out2[6 * 5 + 5], src[3]);
}

// Job failures: a query failure or malformed parameters produce a typed
// error and never a partial image.
#[test]
fn job_failures_are_typed() {
    let cube = unit_cube(white());
    let q: Result<Vec<Mesh>, QueryError> = Err(QueryError::AnimationNotFound);
    assert_eq!(
        cube_job(0, opaque_black(), 1).execute(q).err().unwrap(),
        RenderError::Query(QueryError::AnimationNotFound)
    );

    let mut j = cube_job(0, opaque_black(), 1);
    match &mut j.root {
        RenderNode::RenderedImage(img) => img.size.width = 0,
    }
    assert_eq!(j.execute(Ok(vec![unit_cube(white())])).err().unwrap(), RenderError::BadSize);

    let j = cube_job(0, opaque_black(), 0);
    assert_eq!(j.execute(Ok(vec![unit_cube(white())])).err().unwrap(), RenderError::BadScale);

    let j = cube_job(0, opaque_black(), 100);
    assert_eq!(j.execute(Ok(vec![unit_cube(white())])).err().unwrap(), RenderError::BadScale);

    // An upscale that would overflow the working envelope is rejected.
    let mut j = cube_job(0, opaque_black(), 16);
    match &mut j.root {
        RenderNode::RenderedImage(img) => img.size.width = 1000,
    }
    assert_eq!(j.execute(Ok(vec![unit_cube(white())])).err().unwrap(), RenderError::BadSize);

    // A camera that collapses the forward axis is malformed.
    let mut j = cube_job(0, opaque_black(), 1);
    match &mut j.root {
        RenderNode::RenderedImage(img) => {
            img.camera.view = m4([
                [FP_ONE, 0, 0, 0],
                [0, FP_ONE, 0, 0],
                [0, 0, 0, 0],
                [0, 0, 0, FP_ONE],
            ]);
        },
    }
    assert_eq!(j.execute(Ok(vec![cube])).err().unwrap(), RenderError::BadCamera);

    // A background outside the unit interval is rejected.
    let mut j = cube_job(0, opaque_black(), 1);
    match &mut j.root {
        RenderNode::RenderedImage(img) => img.background = Rgba { r: -1, g: 0, b: 0, a: 0 },
    }
    assert_eq!(
        j.execute(Ok(vec![unit_cube(white())])).err().unwrap(),
        RenderError::BadBackground
    );

    // An invalid placed light is rejected.
    let mut j = cube_job(0, opaque_black(), 1);
    match &mut j.root {
        RenderNode::RenderedImage(img) => img.lights.push(PlacedLight {
            light: spritec::light::LightType::Spot {
                color: spritec::color::Rgb { r: FP_ONE, g: FP_ONE, b: FP_ONE },
                intensity: FP_ONE,
                range: None,
                inner_cone_angle: 5000,
                outer_cone_angle: 100,
            },
            position: Vec3 { x: 0, y: 0, z: 8 * FP_ONE },
            direction: Vec3 { x: 0, y: 0, z: -FP_ONE },
        }),
    }
    assert_eq!(j.execute(Ok(vec![unit_cube(white())])).err().unwrap(), RenderError::BadLights);

    // A negative outline thickness is rejected.
    let j = cube_job(-1, opaque_black(), 1);
    assert_eq!(j.execute(Ok(vec![unit_cube(white())])).err().unwrap(), RenderError::BadOutline);
}

// An explicit scene light drives the shading instead of the fallback: a
// point light with a short range cannot reach the quad, leaving it black
// (ambient is zero in scene-light mode).
#[test]
fn scene_light_range_limits_reach() {
    let red = Rgba { r: FP_ONE, g: 0, b: 0, a: FP_ONE };
    let job = |lights: Vec<PlacedLight>| {
        RenderJob {
            scale: 1,
            root: RenderNode::RenderedImage(RenderedImage {
                size: Size { width: 32, height: 32 },
                background: transparent(),
                camera: RenderCamera { view: frontal_view(), projection: ortho() },
                lights,
                outline: Outline { thickness: 0, color: opaque_black() },
            }),
        }
        .execute(Ok(vec![flat_quad(0, red)]))
        .unwrap()
    };
    let point = |range: Option<i64>| PlacedLight {
        light: spritec::light::LightType::Point {
            color: spritec::color::Rgb { r: FP_ONE, g: FP_ONE, b: FP_ONE },
            intensity: 4 * FP_ONE,
            range,
        },
        position: Vec3 { x: 0, y: 0, z: 2 * FP_ONE },
        direction: Vec3 { x: 0, y: 0, z: -FP_ONE },
    };
    // In range: the light is two units away, range covers it.
    let lit = job(vec![point(Some(8 * FP_ONE))]);
    let (r, _, _, a) = px(&lit, 16, 16);
    assert!(r > 0);
    assert_eq!(a, 255);
    // Out of range: the quad sits beyond the light's cutoff.
    let dark = job(vec![point(Some(FP_ONE))]);
    let (r, g, b, a) = px(&dark, 16, 16);
    assert_eq!((r, g, b), (0, 0, 0));
    assert_eq!(a, 255);
}

// A spot light lights the quad only while it points at it.
#[test]
fn spot_light_cone_selects_targets() {
    let red = Rgba { r: FP_ONE, g: 0, b: 0, a: FP_ONE };
    let job = |lights: Vec<PlacedLight>| {
        RenderJob {
            scale: 1,
            root: RenderNode::RenderedImage(RenderedImage {
                size: Size { width: 32, height: 32 },
                background: transparent(),
                camera: RenderCamera { view: frontal_view(), projection: ortho() },
                lights,
                outline: Outline { thickness: 0, color: opaque_black() },
            }),
        }
        .execute(Ok(vec![flat_quad(0, red)]))
        .unwrap()
    };
    // A 0.5-radian cone: fixed-point angles 16384 and 32768.
    let spot = |direction: Vec3| PlacedLight {
        light: spritec::light::LightType::Spot {
            color: spritec::color::Rgb { r: FP_ONE, g: FP_ONE, b: FP_ONE },
            intensity: 4 * FP_ONE,
            range: None,
            inner_cone_angle: 16384,
            outer_cone_angle: 32768,
        },
        position: Vec3 { x: 0, y: 0, z: 2 * FP_ONE },
        direction,
    };
    // Aimed at the quad: the screen center is inside the cone.
    let lit = job(vec![spot(Vec3 { x: 0, y: 0, z: -FP_ONE })]);
    assert!(px(&lit, 16, 16).0 > 0);
    // Aimed away: nothing inside the cone, the quad stays dark.
    let dark = job(vec![spot(Vec3 { x: 0, y: 0, z: FP_ONE })]);
    assert_eq!(px(&dark, 16, 16).0, 0);
}
