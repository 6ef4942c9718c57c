use vstd::prelude::*;
use crate::fx::{SCALE, FRAC_1_PI_FX, fxmul, fxdiv, mul_fx, lemma_abs_mul, lemma_tdiv_bound,
    lemma_tdiv_shrink, clamp_fx, clamp_s};
use crate::vec3::{Float3, Color, Point3, bounded, dot_s, zero_s, one_s};
use crate::ray::Ray;
use crate::texture::{Texture, texture_value_s, texture_wf};
use crate::material::{Material, material_wf, emitted_s, scattering_pdf_s, hit_wf};
use crate::shape::{Shape, ShapeKind, ShapeList, RectAxisType, HitInfo, list_hit_s, ray_wf};
use crate::builder::box_faces_s;
use crate::builder::ShapeBuilder;
use crate::pdf::{CosinePdf, cosine_pdf_value_s};

verus! {

/// The nearest intersection is probed no closer than this, to avoid a
/// scattered ray immediately re-hitting its own surface.
pub const T_MIN: i64 = 66;

/// The far end of the probed interval: effectively infinity for scenes
/// within the world coordinate range.
pub const T_MAX: i64 = 0x1000_0000;

/// Radiance components are kept within this magnitude; the Monte-Carlo
/// weighting clamps to it to keep every intermediate finite.
pub const L_MAX: i64 = 0x8000_0000;

/// The radiance bound as a spec value.
pub open spec fn lmax() -> int {
    0x8000_0000
}

/// A camera given by a precomputed image-plane basis: `ray(u, v)` points
/// from the origin through the image plane point at the normalized
/// coordinates `(u, v)`.
#[derive(Clone, Copy, PartialEq, Eq, Structural, Debug)]
pub struct Camera {
    pub origin: Point3,
    pub lower_left: Point3,
    pub horizontal: Float3,
    pub vertical: Float3,
}

/// A camera the renderer accepts: origin within the world range and an
/// image plane within a few units of the origin.
pub open spec fn camera_wf(c: Camera) -> bool {
    bounded(c.origin, 0x800_0000) && -0x10_0000 <= c.lower_left.x - c.origin.x <= 0x10_0000
        && -0x10_0000 <= c.lower_left.y - c.origin.y <= 0x10_0000 && -0x10_0000 <= c.lower_left.z
        - c.origin.z <= 0x10_0000 && bounded(c.horizontal, 0x10_0000) && bounded(
        c.vertical,
        0x10_0000,
    )
}

/// The ray through normalized image coordinates `(u, v)`:
/// `lower_left + u * horizontal + v * vertical - origin` from the origin.
pub open spec fn camera_ray_s(c: Camera, u: int, v: int) -> Ray {
    Ray {
        origin: c.origin,
        direction: Float3 {
            x: (c.lower_left.x + fxmul(c.horizontal.x as int, u) + fxmul(c.vertical.x as int, v)
                - c.origin.x) as i64,
            y: (c.lower_left.y + fxmul(c.horizontal.y as int, u) + fxmul(c.vertical.y as int, v)
                - c.origin.y) as i64,
            z: (c.lower_left.z + fxmul(c.horizontal.z as int, u) + fxmul(c.vertical.z as int, v)
                - c.origin.z) as i64,
        },
    }
}

impl Camera {
    pub fn new(origin: Point3, lower_left: Point3, horizontal: Float3, vertical: Float3) -> (r:
        Self)
        ensures
            r == (Camera { origin, lower_left, horizontal, vertical }),
    {
        Camera { origin, lower_left, horizontal, vertical }
    }

    /// The camera ray for normalized image coordinates `(u, v)` in
    /// `[0, 1]`.
    pub fn ray(&self, u: i64, v: i64) -> (r: Ray)
        requires
            camera_wf(*self),
            0 <= u <= SCALE,
            0 <= v <= SCALE,
        ensures
            r == camera_ray_s(*self, u as int, v as int),
            ray_wf(r),
    {
        proof {
            lemma_cam_terms(*self, u as int, v as int);
        }
        let dx: i64 = self.lower_left.x + mul_fx(self.horizontal.x, u) + mul_fx(self.vertical.x, v)
            - self.origin.x;
        let dy: i64 = self.lower_left.y + mul_fx(self.horizontal.y, u) + mul_fx(self.vertical.y, v)
            - self.origin.y;
        let dz: i64 = self.lower_left.z + mul_fx(self.horizontal.z, u) + mul_fx(self.vertical.z, v)
            - self.origin.z;
        Ray { origin: self.origin, direction: Float3 { x: dx, y: dy, z: dz } }
    }
}

/// Bounds for the camera ray terms.
proof fn lemma_cam_terms(c: Camera, u: int, v: int)
    requires
        camera_wf(c),
        0 <= u <= SCALE as int,
        0 <= v <= SCALE as int,
    ensures
        -0x10_0000 <= fxmul(c.horizontal.x as int, u) <= 0x10_0000,
        -0x10_0000 <= fxmul(c.horizontal.y as int, u) <= 0x10_0000,
        -0x10_0000 <= fxmul(c.horizontal.z as int, u) <= 0x10_0000,
        -0x10_0000 <= fxmul(c.vertical.x as int, v) <= 0x10_0000,
        -0x10_0000 <= fxmul(c.vertical.y as int, v) <= 0x10_0000,
        -0x10_0000 <= fxmul(c.vertical.z as int, v) <= 0x10_0000,
{
    lemma_cam_term(c.horizontal.x as int, u);
    lemma_cam_term(c.horizontal.y as int, u);
    lemma_cam_term(c.horizontal.z as int, u);
    lemma_cam_term(c.vertical.x as int, v);
    lemma_cam_term(c.vertical.y as int, v);
    lemma_cam_term(c.vertical.z as int, v);
}

/// One camera ray term: an image-plane component scaled by a coordinate
/// in `[0, 1]` stays within the image-plane bound.
proof fn lemma_cam_term(a: int, u: int)
    requires
        -0x10_0000 <= a <= 0x10_0000,
        0 <= u <= SCALE as int,
    ensures
        -0x10_0000 <= fxmul(a, u) <= 0x10_0000,
{
    assert(-(0x10_0000 * (SCALE as int)) <= a * u <= 0x10_0000 * (SCALE as int))
        by (nonlinear_arith)
        requires
            -0x10_0000 <= a <= 0x10_0000,
            0 <= u <= SCALE as int,
            SCALE == 65536,
    ;
    lemma_tdiv_shrink(a * u, SCALE as int, 0x10_0000);
}

/// A whole number of world units as a raw fixed-point value.
pub open spec fn fxu(n: int) -> i64 {
    (n * (SCALE as int)) as i64
}

/// Hundredths of a unit as a raw fixed-point value.
pub open spec fn fxc(n: int) -> i64 {
    (n * (SCALE as int) / 100) as i64
}

/// The red wall color of the test scene.
pub open spec fn cornell_red_s() -> Color {
    Float3 { x: fxc(64), y: fxc(5), z: fxc(5) }
}

/// The white wall and box color of the test scene.
pub open spec fn cornell_white_s() -> Color {
    Float3 { x: fxc(73), y: fxc(73), z: fxc(73) }
}

/// The green wall color of the test scene.
pub open spec fn cornell_green_s() -> Color {
    Float3 { x: fxc(12), y: fxc(45), z: fxc(15) }
}

/// The emission color of the ceiling light.
pub open spec fn cornell_light_s() -> Color {
    Float3 { x: fxu(15), y: fxu(15), z: fxu(15) }
}

/// A diffuse material of one constant color.
pub open spec fn diffuse_of(c: Color) -> Material {
    Material::Lambertian { albedo: Texture::Constant { color: c } }
}

/// An axis-aligned rectangle shape.
pub open spec fn rect_shape_s(
    x0: i64,
    x1: i64,
    y0: i64,
    y1: i64,
    k: i64,
    axis: RectAxisType,
    m: Material,
    flip: bool,
) -> Shape {
    Shape { kind: ShapeKind::Rect { x0, x1, y0, y1, k, axis }, m, flip }
}

/// A white diffuse box with the given corners and the standard six
/// faces.
pub open spec fn cornell_box_at(s: Shape, p0: Point3, p1: Point3) -> bool {
    s.m == diffuse_of(cornell_white_s()) && !s.flip && (match s.kind {
        ShapeKind::Box3D { p0: q0, p1: q1, faces } => q0 == p0 && q1 == p1 && faces@
            == box_faces_s(p0, p1),
        _ => false,
    })
}

/// The enclosed test scene: five diffuse walls, one ceiling light, and
/// two diffuse boxes, all built through the shape builder.
pub struct CornelBoxScene {
    pub world: ShapeList,
}

impl CornelBoxScene {
    /// Every shape of the scene is well-formed.
    pub open spec fn wf(&self) -> bool {
        self.world.wf()
    }

    /// Assemble the scene: the green and red side walls, the ceiling
    /// light, the white ceiling, floor and back wall (enclosing faces
    /// flipped inward), and the two white boxes — each pinned exactly.
    pub fn new() -> (r: Self)
        ensures
            r.wf(),
            r.world.objects@.len() == 8,
            r.world.objects@[0] == rect_shape_s(0, fxu(555), 0, fxu(555), fxu(555),
                RectAxisType::YZ, diffuse_of(cornell_green_s()), true),
            r.world.objects@[1] == rect_shape_s(0, fxu(555), 0, fxu(555), 0, RectAxisType::YZ,
                diffuse_of(cornell_red_s()), false),
            r.world.objects@[2] == rect_shape_s(fxu(213), fxu(343), fxu(227), fxu(332), fxu(554),
                RectAxisType::XZ, Material::DiffuseLight {
                    emit: Texture::Constant { color: cornell_light_s() },
                }, true),
            r.world.objects@[3] == rect_shape_s(0, fxu(555), 0, fxu(555), fxu(555),
                RectAxisType::XZ, diffuse_of(cornell_white_s()), true),
            r.world.objects@[4] == rect_shape_s(0, fxu(555), 0, fxu(555), 0, RectAxisType::XZ,
                diffuse_of(cornell_white_s()), false),
            r.world.objects@[5] == rect_shape_s(0, fxu(555), 0, fxu(555), fxu(555),
                RectAxisType::XY, diffuse_of(cornell_white_s()), true),
            cornell_box_at(r.world.objects@[6], Float3 { x: fxu(130), y: 0i64, z: fxu(65) },
                Float3 { x: fxu(295), y: fxu(165), z: fxu(230) }),
            cornell_box_at(r.world.objects@[7], Float3 { x: fxu(265), y: 0i64, z: fxu(295) },
                Float3 { x: fxu(430), y: fxu(330), z: fxu(460) }),
    {
        let mut world: ShapeList = ShapeList::new();

        let red: Color = Float3::new(64 * SCALE / 100, 5 * SCALE / 100, 5 * SCALE / 100);
        let white: Color = Float3::full(73 * SCALE / 100);
        let green: Color = Float3::new(12 * SCALE / 100, 45 * SCALE / 100, 15 * SCALE / 100);

        world.push(
            ShapeBuilder::new().color_texture(green).lambertian().rect_yz(
                0,
                555 * SCALE,
                0,
                555 * SCALE,
                555 * SCALE,
            ).flip_face().build(),
        );
        world.push(
            ShapeBuilder::new().color_texture(red).lambertian().rect_yz(
                0,
                555 * SCALE,
                0,
                555 * SCALE,
                0,
            ).build(),
        );
        world.push(
            ShapeBuilder::new().color_texture(Float3::full(15 * SCALE)).diffuse_light().rect_xz(
                213 * SCALE,
                343 * SCALE,
                227 * SCALE,
                332 * SCALE,
                554 * SCALE,
            ).flip_face().build(),
        );
        world.push(
            ShapeBuilder::new().color_texture(white).lambertian().rect_xz(
                0,
                555 * SCALE,
                0,
                555 * SCALE,
                555 * SCALE,
            ).flip_face().build(),
        );
        world.push(
            ShapeBuilder::new().color_texture(white).lambertian().rect_xz(
                0,
                555 * SCALE,
                0,
                555 * SCALE,
                0,
            ).build(),
        );
        world.push(
            ShapeBuilder::new().color_texture(white).lambertian().rect_xy(
                0,
                555 * SCALE,
                0,
                555 * SCALE,
                555 * SCALE,
            ).flip_face().build(),
        );
        world.push(
            ShapeBuilder::new().color_texture(white).lambertian().box3d(
                Float3::new(130 * SCALE, 0, 65 * SCALE),
                Float3::new(295 * SCALE, 165 * SCALE, 230 * SCALE),
            ).build(),
        );
        world.push(
            ShapeBuilder::new().color_texture(white).lambertian().box3d(
                Float3::new(265 * SCALE, 0, 295 * SCALE),
                Float3::new(430 * SCALE, 330 * SCALE, 460 * SCALE),
            ).build(),
        );

        CornelBoxScene { world }
    }

    /// The background radiance: an enclosed box sees nothing outside
    /// itself.
    pub fn background(&self, _d: Float3) -> (r: Color)
        ensures
            r == zero_s(),
    {
        Float3::full(0)
    }

    /// The camera framing the box: look from `(278, 278, -800)` toward
    /// `(278, 278, 0)` with a forty-degree vertical field of view, with
    /// the image-plane basis written out as constants.
    pub fn camera(&self) -> (r: Camera)
        ensures
            camera_wf(r),
            r.origin == (Float3 { x: fxu(278), y: fxu(278), z: fxu(-800) }),
            r.lower_left.x == fxu(278) + 23855,
            r.lower_left.y == fxu(278) - 23855,
            r.lower_left.z == fxu(-799),
            r.horizontal == (Float3 { x: -47710i64, y: 0i64, z: 0i64 }),
            r.vertical == (Float3 { x: 0i64, y: 47710i64, z: 0i64 }),
    {
        Camera::new(
            Float3::new(278 * SCALE, 278 * SCALE, -800 * SCALE),
            Float3::new(278 * SCALE + 23855, 278 * SCALE - 23855, -799 * SCALE),
            Float3::new(-47710, 0, 0),
            Float3::new(0, 47710, 0),
        )
    }

    /// One radiance estimate along `ray` with at most `depth` more
    /// bounces: emission at the nearest hit, plus — when the material
    /// scatters and the cosine sample is usable — the importance-weighted
    /// recursive estimate. Misses see the background; exhausted depth,
    /// refused scatters and degenerate samples or hit points fall back to
    /// the emission alone.
    pub fn trace(&self, ray: Ray, depth: usize) -> (r: Color)
        requires
            self.wf(),
            ray_wf(ray),
        ensures
            (match list_hit_s(self.world.objects@, ray, T_MIN as int, T_MAX as int) {
                None => r == zero_s(),
                Some(hit) => {
                    &&& (depth == 0 ==> r == emitted_s(hit.m, ray, hit))
                    &&& (hit.m is DiffuseLight ==> r == emitted_s(hit.m, ray, hit))
                    &&& (!bounded(hit.p, 0x1000_0000) ==> r == emitted_s(hit.m, ray, hit))
                    &&& (r == emitted_s(hit.m, ray, hit) || (exists|d: Float3, inc: Color|
                        {
                            &&& cosine_pdf_value_s(hit.n, d) > 0
                            &&& bounded(inc, lmax())
                            &&& r == #[trigger] clamp3_s(
                                add3_s(
                                    emitted_s(hit.m, ray, hit),
                                    weigh_bounce_s(
                                        scatter_albedo_s(hit.m, hit),
                                        scattering_pdf_s(
                                            hit.m,
                                            Ray { origin: hit.p, direction: d },
                                            hit,
                                        ),
                                        inc,
                                        cosine_pdf_value_s(hit.n, d),
                                    ),
                                ),
                                lmax(),
                            )
                        }))
                },
            }),
            bounded(r, lmax()),
        decreases depth,
    {
        let hit_opt: Option<HitInfo> = self.world.hit(&ray, T_MIN, T_MAX);
        match hit_opt {
            None => self.background(ray.direction),
            Some(hit) => {
                let emitted: Color = hit.m.emitted(&ray, &hit);
                proof {
                    lemma_emitted_bounded(hit.m, ray, hit);
                }
                let scatter_opt = if depth > 0 && in_range(&hit.p, 0x1000_0000) {
                    hit.m.scatter(&ray, &hit)
                } else {
                    None
                };
                match scatter_opt {
                    Some(scatter) => {
                        let pdf = CosinePdf::new();
                        let new_ray: Ray = Ray::new(hit.p, pdf.generate(&hit));
                        let spdf_value: i64 = pdf.value(&hit, new_ray.direction);
                        if spdf_value > 0 {
                            let pdf_value: i64 = hit.m.scattering_pdf(&new_ray, &hit);
                            proof {
                                lemma_scattering_pdf_bounded(hit.m, new_ray, hit);
                                lemma_albedo_bounded(hit.m, scatter.albedo, hit);
                                assert(scatter.albedo == scatter_albedo_s(hit.m, hit));
                            }
                            let rec: Color = self.trace(new_ray, depth - 1);
                            let bounce: Color = weigh_bounce(scatter.albedo, pdf_value, rec,
                                spdf_value);
                            let combined: Color = clamp3(emitted.add(bounce), L_MAX);
                            proof {
                                assert(new_ray == Ray {
                                    origin: hit.p,
                                    direction: new_ray.direction,
                                });
                                assert(combined == clamp3_s(
                                    add3_s(
                                        emitted_s(hit.m, ray, hit),
                                        weigh_bounce_s(
                                            scatter_albedo_s(hit.m, hit),
                                            scattering_pdf_s(hit.m, new_ray, hit),
                                            rec,
                                            cosine_pdf_value_s(hit.n, new_ray.direction),
                                        ),
                                    ),
                                    lmax(),
                                ));
                            }
                            combined
                        } else {
                            emitted
                        }
                    },
                    None => emitted,
                }
            },
        }
    }
}

/// The attenuation a scattering material reports: its texture color for
/// the diffuse and reflective materials, plain white for the refractive
/// one (the emissive material never scatters).
pub open spec fn scatter_albedo_s(m: Material, hit: HitInfo) -> Color {
    match m {
        Material::Lambertian { albedo } => texture_value_s(
            albedo,
            hit.u as int,
            hit.v as int,
            hit.p,
        ),
        Material::Metal { albedo, fuzz } => texture_value_s(albedo, hit.u as int, hit.v as int,
            hit.p),
        Material::Dielectric { ri } => one_s(),
        Material::DiffuseLight { emit } => zero_s(),
    }
}

/// Componentwise sum of two colors.
pub open spec fn add3_s(a: Color, b: Color) -> Color {
    Float3 { x: (a.x + b.x) as i64, y: (a.y + b.y) as i64, z: (a.z + b.z) as i64 }
}

/// Componentwise clamp of a color to `[-b, b]`.
pub open spec fn clamp3_s(v: Color, b: int) -> Color {
    Float3 {
        x: clamp_s(v.x as int, -b, b) as i64,
        y: clamp_s(v.y as int, -b, b) as i64,
        z: clamp_s(v.z as int, -b, b) as i64,
    }
}

/// The weighted bounce term of the Monte-Carlo estimator: the albedo
/// scaled by the material's reported density, multiplied by the incoming
/// radiance and divided by the sampling density, with the two scaling
/// stages clamped to the radiance range.
pub open spec fn weigh_bounce_s(albedo: Color, pdf_value: int, incoming: Color, spdf: int) -> Color {
    let wx = clamp_s(fxmul(albedo.x as int, pdf_value), -lmax(), lmax());
    let wy = clamp_s(fxmul(albedo.y as int, pdf_value), -lmax(), lmax());
    let wz = clamp_s(fxmul(albedo.z as int, pdf_value), -lmax(), lmax());
    Float3 {
        x: clamp_s(fxdiv(fxmul(wx, incoming.x as int), spdf), -lmax(), lmax()) as i64,
        y: clamp_s(fxdiv(fxmul(wy, incoming.y as int), spdf), -lmax(), lmax()) as i64,
        z: clamp_s(fxdiv(fxmul(wz, incoming.z as int), spdf), -lmax(), lmax()) as i64,
    }
}

/// Weight one recursive radiance estimate: exactly `weigh_bounce_s` of
/// the albedo, the material density, the incoming radiance and the
/// sampling density.
pub fn weigh_bounce(albedo: Color, pdf_value: i64, incoming: Color, spdf: i64) -> (r: Color)
    requires
        bounded(albedo, 0x8000_0000),
        0 <= pdf_value <= 0x8000_0000,
        bounded(incoming, lmax()),
        1 <= spdf,
    ensures
        r == weigh_bounce_s(albedo, pdf_value as int, incoming, spdf as int),
        bounded(r, lmax()),
{
    proof {
        lemma_abs_mul(albedo.x as int, pdf_value as int, 0x8000_0000, 0x8000_0000);
        lemma_abs_mul(albedo.y as int, pdf_value as int, 0x8000_0000, 0x8000_0000);
        lemma_abs_mul(albedo.z as int, pdf_value as int, 0x8000_0000, 0x8000_0000);
    }
    let weighted: Color = clamp3(albedo.scale(pdf_value), L_MAX);
    let prod: Color = weighted.mul(incoming);
    proof {
        lemma_radiance_product(weighted, incoming);
    }
    clamp3(prod.div(spdf), L_MAX)
}

/// Componentwise clamp to `[-b, b]`.
fn clamp3(v: Color, b: i64) -> (r: Color)
    requires
        b >= 0,
    ensures
        r == clamp3_s(v, b as int),
        bounded(r, b as int),
{
    Float3 { x: clamp_fx(v.x, -b, b), y: clamp_fx(v.y, -b, b), z: clamp_fx(v.z, -b, b) }
}

/// Componentwise range test.
fn in_range(v: &Float3, b: i64) -> (r: bool)
    requires
        b >= 0,
    ensures
        r <==> bounded(*v, b as int),
{
    -b <= v.x && v.x <= b && -b <= v.y && v.y <= b && -b <= v.z && v.z <= b
}

/// What a texture yields is one of its stored colors, hence within the
/// texture color range.
pub proof fn lemma_texture_value_bounded(t: Texture, u: int, v: int, p: Float3)
    requires
        texture_wf(t),
    ensures
        bounded(texture_value_s(t, u, v, p), 0x8000_0000),
{
}

/// What a material emits is a texture color or zero.
proof fn lemma_emitted_bounded(m: Material, ray: Ray, hit: HitInfo)
    requires
        material_wf(m),
    ensures
        bounded(emitted_s(m, ray, hit), 0x8000_0000),
{
    match m {
        Material::DiffuseLight { emit } => {
            lemma_texture_value_bounded(emit, hit.u as int, hit.v as int, hit.p);
        },
        _ => {},
    }
}

/// The scattering density is non-negative and within the radiance range.
proof fn lemma_scattering_pdf_bounded(m: Material, ray: Ray, hit: HitInfo)
    requires
        material_wf(m),
        hit_wf(hit),
        bounded(ray.direction, 0x40_0000_0000),
    ensures
        0 <= scattering_pdf_s(m, ray, hit) <= 0x8000_0000,
{
    match m {
        Material::Lambertian { albedo } => {
            let u = if dot_s(ray.direction, ray.direction) >= 1 {
                crate::vec3::unit_s(ray.direction)
            } else {
                crate::vec3::zaxis_s()
            };
            if dot_s(ray.direction, ray.direction) >= 1 {
                crate::vec3::lemma_normalize_bounds(ray.direction);
            }
            crate::vec3::lemma_dot_raw_bound(u, hit.n, 2 * SCALE as int, 2 * SCALE as int);
            assert(3 * ((2 * SCALE as int) * (2 * SCALE as int)) == (12 * SCALE as int) * (
            SCALE as int)) by (nonlinear_arith)
                requires
                    SCALE == 65536,
            ;
            lemma_tdiv_shrink(crate::vec3::dot_raw(u, hit.n), SCALE as int, 12 * SCALE as int);
            let c = dot_s(u, hit.n);
            if c > 0 {
                lemma_tdiv_bound(c * (FRAC_1_PI_FX as int), SCALE as int);
                assert(0 <= c * (FRAC_1_PI_FX as int) <= 0x8000_0000 * (SCALE as int))
                    by (nonlinear_arith)
                    requires
                        0 < c <= 12 * (SCALE as int),
                        FRAC_1_PI_FX == 20861,
                        SCALE == 65536,
                ;
                lemma_tdiv_shrink(c * (FRAC_1_PI_FX as int), SCALE as int, 0x8000_0000);
            }
        },
        _ => {},
    }
}

/// A scattered albedo is a texture color or the unit color.
proof fn lemma_albedo_bounded(m: Material, albedo: Color, hit: HitInfo)
    requires
        material_wf(m),
        (match m {
            Material::Lambertian { albedo: tex } => albedo == texture_value_s(
                tex,
                hit.u as int,
                hit.v as int,
                hit.p,
            ),
            Material::Metal { albedo: tex, fuzz } => albedo == texture_value_s(
                tex,
                hit.u as int,
                hit.v as int,
                hit.p,
            ),
            Material::Dielectric { ri } => albedo == one_s(),
            Material::DiffuseLight { emit } => false,
        }),
    ensures
        bounded(albedo, 0x8000_0000),
{
    match m {
        Material::Lambertian { albedo: tex } => {
            lemma_texture_value_bounded(tex, hit.u as int, hit.v as int, hit.p);
        },
        Material::Metal { albedo: tex, fuzz } => {
            lemma_texture_value_bounded(tex, hit.u as int, hit.v as int, hit.p);
        },
        _ => {},
    }
}

/// Componentwise products of clamped radiances stay within the divide
/// range.
proof fn lemma_radiance_product(a: Color, b: Color)
    requires
        bounded(a, L_MAX as int),
        bounded(b, L_MAX as int),
    ensures
        -0x4000_0000_0000_0000 <= a.x * b.x <= 0x4000_0000_0000_0000,
        -0x4000_0000_0000_0000 <= a.y * b.y <= 0x4000_0000_0000_0000,
        -0x4000_0000_0000_0000 <= a.z * b.z <= 0x4000_0000_0000_0000,
        -0x4000_0000_0000 <= fxmul(a.x as int, b.x as int) <= 0x4000_0000_0000,
        -0x4000_0000_0000 <= fxmul(a.y as int, b.y as int) <= 0x4000_0000_0000,
        -0x4000_0000_0000 <= fxmul(a.z as int, b.z as int) <= 0x4000_0000_0000,
{
    lemma_abs_mul(a.x as int, b.x as int, L_MAX as int, L_MAX as int);
    lemma_abs_mul(a.y as int, b.y as int, L_MAX as int, L_MAX as int);
    lemma_abs_mul(a.z as int, b.z as int, L_MAX as int, L_MAX as int);
    assert((L_MAX as int) * (L_MAX as int) == 0x4000_0000_0000 * (SCALE as int))
        by (nonlinear_arith)
        requires
            L_MAX == 0x8000_0000,
            SCALE == 65536,
    ;
    lemma_tdiv_shrink(a.x * b.x, SCALE as int, 0x4000_0000_0000);
    lemma_tdiv_shrink(a.y * b.y, SCALE as int, 0x4000_0000_0000);
    lemma_tdiv_shrink(a.z * b.z, SCALE as int, 0x4000_0000_0000);
}

} // verus!
