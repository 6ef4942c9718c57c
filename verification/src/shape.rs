use vstd::prelude::*;
use crate::fx::{SCALE, tdiv, fxmul, fxdiv, isqrt_s, mul_fx, div_fx, lemma_isqrt_unique,
    lemma_abs_mul, lemma_tdiv_bound, lemma_tdiv_shrink};
use crate::vec3::{Float3, Point3, bounded, dot_s, unit_s, yaxis_s};
use crate::ray::{Ray, at_s};
use crate::material::{Material, material_wf};

verus! {

/// Everything known about a ray-surface intersection: parameter `t`,
/// world point, outward normal, the material struck, and texture
/// coordinates.
#[derive(Clone, Copy, PartialEq, Eq, Structural, Debug)]
pub struct HitInfo {
    pub t: i64,
    pub p: Point3,
    pub n: Float3,
    pub m: Material,
    pub u: i64,
    pub v: i64,
}

impl HitInfo {
    pub fn new(t: i64, p: Point3, n: Float3, m: Material, u: i64, v: i64) -> (r: Self)
        ensures
            r == (HitInfo { t, p, n, m, u, v }),
    {
        HitInfo { t, p, n, m, u, v }
    }
}

/// The three axis orientations of an axis-aligned rectangle.
#[derive(Clone, Copy, PartialEq, Eq, Structural, Debug)]
pub enum RectAxisType {
    XY,
    XZ,
    YZ,
}

/// One face of an axis-aligned box: a rectangle, possibly with its
/// normal flipped inward.
#[derive(Clone, Copy, PartialEq, Eq, Structural, Debug)]
pub struct RectFace {
    pub x0: i64,
    pub x1: i64,
    pub y0: i64,
    pub y1: i64,
    pub k: i64,
    pub axis: RectAxisType,
    pub flip: bool,
}

/// The geometry of a shape: a sphere, an axis-aligned rectangle, or an
/// axis-aligned box composed of six rectangle faces.
#[derive(Clone, Debug)]
pub enum ShapeKind {
    Sphere { center: Point3, radius: i64 },
    Rect { x0: i64, x1: i64, y0: i64, y1: i64, k: i64, axis: RectAxisType },
    Box3D { p0: Point3, p1: Point3, faces: Vec<RectFace> },
}

/// A scene object: its geometry, its material, and whether its normal is
/// flipped.
#[derive(Clone, Debug)]
pub struct Shape {
    pub kind: ShapeKind,
    pub m: Material,
    pub flip: bool,
}

/// An aggregate of shapes answering with the nearest hit.
#[derive(Clone, Debug)]
pub struct ShapeList {
    pub objects: Vec<Shape>,
}

/// Componentwise negation, for flipped normals.
pub open spec fn neg_s(v: Float3) -> Float3 {
    Float3 { x: (-v.x) as i64, y: (-v.y) as i64, z: (-v.z) as i64 }
}

/// The fixed outward normal of a rectangle orientation.
pub open spec fn axis_normal(axis: RectAxisType) -> Float3 {
    match axis {
        RectAxisType::XY => Float3 { x: 0i64, y: 0i64, z: SCALE },
        RectAxisType::XZ => Float3 { x: 0i64, y: SCALE, z: 0i64 },
        RectAxisType::YZ => Float3 { x: SCALE, y: 0i64, z: 0i64 },
    }
}

/// Permute a vector so that the rectangle's plane becomes the canonical
/// XY plane at `z = k`.
pub open spec fn perm_s(axis: RectAxisType, v: Float3) -> Float3 {
    match axis {
        RectAxisType::XY => v,
        RectAxisType::XZ => Float3 { x: v.x, y: v.z, z: v.y },
        RectAxisType::YZ => Float3 { x: v.y, y: v.z, z: v.x },
    }
}

/// Rectangle intersection: solve for the plane crossing, accept the
/// parameter strictly inside `(t0, t1)`, and the crossing point within
/// the bounds; texture coordinates are the normalized offsets within
/// the rectangle.
pub open spec fn rect_hit_s(
    x0: int,
    x1: int,
    y0: int,
    y1: int,
    k: int,
    axis: RectAxisType,
    m: Material,
    ray: Ray,
    t0: int,
    t1: int,
) -> Option<HitInfo> {
    let o = perm_s(axis, ray.origin);
    let d = perm_s(axis, ray.direction);
    if d.z == 0 {
        None
    } else {
        let t = if d.z > 0 {
            fxdiv(k - o.z, d.z as int)
        } else {
            fxdiv(o.z - k, -(d.z as int))
        };
        if t <= t0 || t >= t1 {
            None
        } else {
            let hx = o.x + fxmul(d.x as int, t);
            let hy = o.y + fxmul(d.y as int, t);
            if hx < x0 || hx > x1 || hy < y0 || hy > y1 {
                None
            } else {
                Some(
                    HitInfo {
                        t: t as i64,
                        p: at_s(ray, t),
                        n: axis_normal(axis),
                        m,
                        u: fxdiv(hx - x0, x1 - x0) as i64,
                        v: fxdiv(hy - y0, y1 - y0) as i64,
                    },
                )
            }
        }
    }
}

/// The hit record for a sphere at parameter `t`: the point along the
/// ray and the outward normal `(p - center) / radius`, with
/// renormalization fallbacks for degenerate magnitudes.
pub open spec fn sphere_mk_s(center: Point3, radius: int, m: Material, ray: Ray, t: int) -> HitInfo {
    let p = at_s(ray, t);
    let n0 = Float3 {
        x: fxdiv(p.x - center.x, radius) as i64,
        y: fxdiv(p.y - center.y, radius) as i64,
        z: fxdiv(p.z - center.z, radius) as i64,
    };
    let n = if bounded(n0, 2 * SCALE as int) {
        n0
    } else if bounded(n0, 0x40_0000_0000) && dot_s(n0, n0) >= 1 {
        unit_s(n0)
    } else {
        yaxis_s()
    };
    HitInfo { t: t as i64, p, n, m, u: 0i64, v: 0i64 }
}

/// Sphere intersection: the quadratic in `t` for
/// `|origin + t*d - center|^2 = radius^2`, taking the near root first
/// and the far root second, each accepted strictly inside `(t0, t1)`; a
/// non-positive discriminant is a miss.
pub open spec fn sphere_hit_s(
    center: Point3,
    radius: int,
    m: Material,
    ray: Ray,
    t0: int,
    t1: int,
) -> Option<HitInfo> {
    let dx = ray.direction.x as int;
    let dy = ray.direction.y as int;
    let dz = ray.direction.z as int;
    let ox = ray.origin.x - center.x;
    let oy = ray.origin.y - center.y;
    let oz = ray.origin.z - center.z;
    let a2 = dx * dx + dy * dy + dz * dz;
    let b2 = 2 * (dx * ox + dy * oy + dz * oz);
    let c2 = ox * ox + oy * oy + oz * oz - radius * radius;
    let disc = b2 * b2 - 4 * (a2 * c2);
    if a2 <= 0 || disc <= 0 {
        None
    } else {
        let root = isqrt_s(disc);
        let tn = tdiv((-b2 - root) * (SCALE as int), 2 * a2);
        let tf = tdiv((-b2 + root) * (SCALE as int), 2 * a2);
        if t0 < tn && tn < t1 {
            Some(sphere_mk_s(center, radius, m, ray, tn))
        } else if t0 < tf && tf < t1 {
            Some(sphere_mk_s(center, radius, m, ray, tf))
        } else {
            None
        }
    }
}

/// Negate the normal of a hit when `flip` is set.
pub open spec fn flip_opt(o: Option<HitInfo>, flip: bool) -> Option<HitInfo> {
    match o {
        Some(h) => Some(
            if flip {
                HitInfo { n: neg_s(h.n), ..h }
            } else {
                h
            },
        ),
        None => None,
    }
}

/// One box face: its rectangle test, with the face flip applied.
pub open spec fn face_hit_s(f: RectFace, m: Material, ray: Ray, t0: int, t1: int) -> Option<
    HitInfo,
> {
    flip_opt(
        rect_hit_s(f.x0 as int, f.x1 as int, f.y0 as int, f.y1 as int, f.k as int, f.axis, m, ray,
            t0, t1),
        f.flip,
    )
}

/// The nearest face hit of a box: each face is probed with the interval
/// shrunk to the best parameter found so far.
pub open spec fn faces_hit_s(fs: Seq<RectFace>, m: Material, ray: Ray, t0: int, t1: int) -> Option<
    HitInfo,
>
    decreases fs.len(),
{
    if fs.len() == 0 {
        None
    } else {
        let prev = faces_hit_s(fs.drop_last(), m, ray, t0, t1);
        let cur_t1 = match prev {
            Some(h) => h.t as int,
            None => t1,
        };
        match face_hit_s(fs.last(), m, ray, t0, cur_t1) {
            Some(h) => Some(h),
            None => prev,
        }
    }
}

/// What a shape's geometry answers for a ray over `(t0, t1)`.
pub open spec fn geom_hit_s(kind: ShapeKind, m: Material, ray: Ray, t0: int, t1: int) -> Option<
    HitInfo,
> {
    match kind {
        ShapeKind::Sphere { center, radius } => sphere_hit_s(center, radius as int, m, ray, t0, t1),
        ShapeKind::Rect { x0, x1, y0, y1, k, axis } => rect_hit_s(
            x0 as int,
            x1 as int,
            y0 as int,
            y1 as int,
            k as int,
            axis,
            m,
            ray,
            t0,
            t1,
        ),
        ShapeKind::Box3D { p0, p1, faces } => faces_hit_s(faces@, m, ray, t0, t1),
    }
}

/// What a shape answers: its geometry's hit, with the shape flip
/// applied.
pub open spec fn shape_hit_s(s: Shape, ray: Ray, t0: int, t1: int) -> Option<HitInfo> {
    flip_opt(geom_hit_s(s.kind, s.m, ray, t0, t1), s.flip)
}

/// The nearest hit over a list of shapes: each shape is probed with the
/// interval shrunk to the best parameter found so far, so the result is
/// the hit of globally minimal `t`.
pub open spec fn list_hit_s(s: Seq<Shape>, ray: Ray, t0: int, t1: int) -> Option<HitInfo>
    decreases s.len(),
{
    if s.len() == 0 {
        None
    } else {
        let prev = list_hit_s(s.drop_last(), ray, t0, t1);
        let cur_t1 = match prev {
            Some(h) => h.t as int,
            None => t1,
        };
        match shape_hit_s(s.last(), ray, t0, cur_t1) {
            Some(h) => Some(h),
            None => prev,
        }
    }
}

/// Rectangle dimensions the renderer accepts: coordinates within the
/// world range, with proper extents.
pub open spec fn rect_dims_wf(x0: int, x1: int, y0: int, y1: int, k: int) -> bool {
    -0x400_0000 <= x0 < x1 <= 0x400_0000 && -0x400_0000 <= y0 < y1 <= 0x400_0000 && -0x400_0000
        <= k <= 0x400_0000
}

/// A well-formed box face.
pub open spec fn face_wf(f: RectFace) -> bool {
    rect_dims_wf(f.x0 as int, f.x1 as int, f.y0 as int, f.y1 as int, f.k as int)
}

/// A well-formed shape: geometry within the world range and a
/// well-formed material.
pub open spec fn shape_wf(s: Shape) -> bool {
    material_wf(s.m) && match s.kind {
        ShapeKind::Sphere { center, radius } => bounded(center, 0x400_0000) && 1 <= radius
            <= 0x400_0000,
        ShapeKind::Rect { x0, x1, y0, y1, k, axis } => rect_dims_wf(
            x0 as int,
            x1 as int,
            y0 as int,
            y1 as int,
            k as int,
        ),
        ShapeKind::Box3D { p0, p1, faces } => bounded(p0, 0x400_0000) && bounded(p1, 0x400_0000)
            && (forall|i: int| 0 <= i < faces@.len() ==> face_wf(#[trigger] faces@[i])),
    }
}

/// A ray the intersection routines accept: origin within the world
/// range, direction of at most a few dozen units.
pub open spec fn ray_wf(r: Ray) -> bool {
    bounded(r.origin, 0x1000_0000) && bounded(r.direction, 0x40_0000)
}

/// What every intersection routine guarantees of a returned hit: the
/// parameter lies strictly inside the probed interval, the point is the
/// ray at that parameter, and normal, point and material are within
/// what the materials accept.
pub open spec fn hit_ok(r: Option<HitInfo>, ray: Ray, t0: int, t1: int) -> bool {
    match r {
        None => true,
        Some(h) => t0 < h.t < t1 && h.p == at_s(ray, h.t as int) && bounded(h.n, 2 * SCALE as int)
            && bounded(h.p, 0x8_0000_0000) && material_wf(h.m),
    }
}

/// Componentwise bound test.
fn in_bounds(v: &Float3, b: i64) -> (r: bool)
    requires
        b >= 0,
    ensures
        r <==> bounded(*v, b as int),
{
    -b <= v.x && v.x <= b && -b <= v.y && v.y <= b && -b <= v.z && v.z <= b
}

/// Rectangle intersection.
fn rect_hit(
    x0: i64,
    x1: i64,
    y0: i64,
    y1: i64,
    k: i64,
    axis: RectAxisType,
    m: &Material,
    ray: &Ray,
    t0: i64,
    t1: i64,
) -> (r: Option<HitInfo>)
    requires
        rect_dims_wf(x0 as int, x1 as int, y0 as int, y1 as int, k as int),
        material_wf(*m),
        ray_wf(*ray),
        -0x1000_0000 <= t0 <= 0x1000_0000,
        -0x1000_0000 <= t1 <= 0x1000_0000,
    ensures
        r == rect_hit_s(x0 as int, x1 as int, y0 as int, y1 as int, k as int, axis, *m, *ray,
            t0 as int, t1 as int),
        hit_ok(r, *ray, t0 as int, t1 as int),
{
    let o: Float3 = match axis {
        RectAxisType::XY => ray.origin,
        RectAxisType::XZ => Float3 { x: ray.origin.x, y: ray.origin.z, z: ray.origin.y },
        RectAxisType::YZ => Float3 { x: ray.origin.y, y: ray.origin.z, z: ray.origin.x },
    };
    let d: Float3 = match axis {
        RectAxisType::XY => ray.direction,
        RectAxisType::XZ => Float3 { x: ray.direction.x, y: ray.direction.z, z: ray.direction.y },
        RectAxisType::YZ => Float3 { x: ray.direction.y, y: ray.direction.z, z: ray.direction.x },
    };
    if d.z == 0 {
        return None;
    }
    let num: i64 = if d.z > 0 {
        k - o.z
    } else {
        o.z - k
    };
    let den: i64 = if d.z > 0 {
        d.z
    } else {
        -d.z
    };
    let tw: i128 = (num as i128) * (SCALE as i128) / (den as i128);
    proof {
        lemma_tdiv_bound(num * (SCALE as int), den as int);
    }
    if tw <= t0 as i128 || tw >= t1 as i128 {
        return None;
    }
    let t: i64 = tw as i64;
    proof {
        lemma_abs_mul(d.x as int, t as int, 0x40_0000, 0x1000_0000);
        lemma_abs_mul(d.y as int, t as int, 0x40_0000, 0x1000_0000);
        lemma_tdiv_bound(d.x * t, SCALE as int);
        lemma_tdiv_bound(d.y * t, SCALE as int);
    }
    let hx: i64 = o.x + mul_fx(d.x, t);
    let hy: i64 = o.y + mul_fx(d.y, t);
    if hx < x0 || hx > x1 || hy < y0 || hy > y1 {
        return None;
    }
    let p: Point3 = ray.at(t);
    proof {
        lemma_abs_mul(ray.direction.x as int, t as int, 0x40_0000, 0x1000_0000);
        lemma_abs_mul(ray.direction.y as int, t as int, 0x40_0000, 0x1000_0000);
        lemma_abs_mul(ray.direction.z as int, t as int, 0x40_0000, 0x1000_0000);
        lemma_tdiv_shrink(ray.direction.x * t, SCALE as int, 0x4_0000_0000);
        lemma_tdiv_shrink(ray.direction.y * t, SCALE as int, 0x4_0000_0000);
        lemma_tdiv_shrink(ray.direction.z * t, SCALE as int, 0x4_0000_0000);
    }
    let n: Float3 = match axis {
        RectAxisType::XY => Float3::zaxis(),
        RectAxisType::XZ => Float3::yaxis(),
        RectAxisType::YZ => Float3::xaxis(),
    };
    let u: i64 = div_fx(hx - x0, x1 - x0);
    let v: i64 = div_fx(hy - y0, y1 - y0);
    Some(HitInfo { t, p, n, m: *m, u, v })
}

/// Sphere intersection.
fn sphere_hit(center: &Point3, radius: i64, m: &Material, ray: &Ray, t0: i64, t1: i64) -> (r:
    Option<HitInfo>)
    requires
        bounded(*center, 0x400_0000),
        1 <= radius <= 0x400_0000,
        material_wf(*m),
        ray_wf(*ray),
        -0x1000_0000 <= t0 <= 0x1000_0000,
        -0x1000_0000 <= t1 <= 0x1000_0000,
    ensures
        r == sphere_hit_s(*center, radius as int, *m, *ray, t0 as int, t1 as int),
        hit_ok(r, *ray, t0 as int, t1 as int),
{
    let dx: i128 = ray.direction.x as i128;
    let dy: i128 = ray.direction.y as i128;
    let dz: i128 = ray.direction.z as i128;
    let ox: i128 = (ray.origin.x - center.x) as i128;
    let oy: i128 = (ray.origin.y - center.y) as i128;
    let oz: i128 = (ray.origin.z - center.z) as i128;
    proof {
        lemma_sphere_products(dx as int, dy as int, dz as int, ox as int, oy as int, oz as int,
            radius as int);
    }
    let a2: i128 = dx * dx + dy * dy + dz * dz;
    let b2: i128 = 2 * (dx * ox + dy * oy + dz * oz);
    let c2: i128 = ox * ox + oy * oy + oz * oz - (radius as i128) * (radius as i128);
    let disc: i128 = b2 * b2 - 4 * (a2 * c2);
    if a2 <= 0 || disc <= 0 {
        return None;
    }
    let root_u: u128 = crate::fx::isqrt_u128(disc as u128);
    proof {
        lemma_isqrt_unique(disc as int, root_u as int);
        assert(root_u * root_u <= disc ==> root_u < 0x100_0000_0000_0000_0000) by (nonlinear_arith)
            requires
                disc < 0x1_0000_0000_0000_0000_0000_0000_0000,
        ;
    }
    let root: i128 = root_u as i128;
    let den: i128 = 2 * a2;
    let num_n: i128 = -b2 - root;
    let tn: i128 = num_n * (SCALE as i128) / den;
    proof {
        lemma_tdiv_bound((num_n * (SCALE as int)) as int, den as int);
    }
    if (t0 as i128) < tn && tn < (t1 as i128) {
        return Some(sphere_mk(center, radius, m, ray, tn as i64, t0, t1));
    }
    let num_f: i128 = -b2 + root;
    let tf: i128 = num_f * (SCALE as i128) / den;
    proof {
        lemma_tdiv_bound((num_f * (SCALE as int)) as int, den as int);
    }
    if (t0 as i128) < tf && tf < (t1 as i128) {
        return Some(sphere_mk(center, radius, m, ray, tf as i64, t0, t1));
    }
    None
}

/// Build the sphere hit record at an accepted parameter.
fn sphere_mk(center: &Point3, radius: i64, m: &Material, ray: &Ray, t: i64, t0: i64, t1: i64) -> (r:
    HitInfo)
    requires
        bounded(*center, 0x400_0000),
        1 <= radius <= 0x400_0000,
        material_wf(*m),
        ray_wf(*ray),
        -0x1000_0000 <= t0 < t < t1 <= 0x1000_0000,
    ensures
        r == sphere_mk_s(*center, radius as int, *m, *ray, t as int),
        t0 < r.t < t1,
        r.p == at_s(*ray, r.t as int),
        bounded(r.n, 2 * SCALE as int),
        bounded(r.p, 0x8_0000_0000),
        material_wf(r.m),
{
    let p: Point3 = ray.at(t);
    proof {
        lemma_abs_mul(ray.direction.x as int, t as int, 0x40_0000, 0x1000_0000);
        lemma_abs_mul(ray.direction.y as int, t as int, 0x40_0000, 0x1000_0000);
        lemma_abs_mul(ray.direction.z as int, t as int, 0x40_0000, 0x1000_0000);
        lemma_tdiv_shrink(ray.direction.x * t, SCALE as int, 0x4_0000_0000);
        lemma_tdiv_shrink(ray.direction.y * t, SCALE as int, 0x4_0000_0000);
        lemma_tdiv_shrink(ray.direction.z * t, SCALE as int, 0x4_0000_0000);
    }
    let diff: Float3 = p.sub(*center);
    let n0: Float3 = diff.div(radius);
    let n: Float3 = if in_bounds(&n0, 2 * SCALE) {
        n0
    } else if in_bounds(&n0, 0x40_0000_0000) {
        let lsq: i64 = n0.length_squared();
        if lsq >= 1 {
            n0.normalize()
        } else {
            Float3::yaxis()
        }
    } else {
        Float3::yaxis()
    };
    HitInfo { t, p, n, m: *m, u: 0, v: 0 }
}

impl Shape {
    /// The hit of this shape for `ray` over the open interval
    /// `(t0, t1)`, with the shape's flip applied to the normal.
    pub fn hit(&self, ray: &Ray, t0: i64, t1: i64) -> (r: Option<HitInfo>)
        requires
            shape_wf(*self),
            ray_wf(*ray),
            -0x1000_0000 <= t0 <= 0x1000_0000,
            -0x1000_0000 <= t1 <= 0x1000_0000,
        ensures
            r == shape_hit_s(*self, *ray, t0 as int, t1 as int),
            hit_ok(r, *ray, t0 as int, t1 as int),
    {
        let base: Option<HitInfo> = match &self.kind {
            ShapeKind::Sphere { center, radius } => sphere_hit(center, *radius, &self.m, ray, t0,
                t1),
            ShapeKind::Rect { x0, x1, y0, y1, k, axis } => rect_hit(*x0, *x1, *y0, *y1, *k, *axis,
                &self.m, ray, t0, t1),
            ShapeKind::Box3D { p0, p1, faces } => faces_hit(faces, &self.m, ray, t0, t1),
        };
        if self.flip {
            match base {
                Some(h) => Some(HitInfo { n: h.n.neg(), ..h }),
                None => None,
            }
        } else {
            base
        }
    }
}

/// The nearest hit among a box's faces, probing each face with the
/// interval shrunk to the best parameter found so far.
fn faces_hit(faces: &Vec<RectFace>, m: &Material, ray: &Ray, t0: i64, t1: i64) -> (r: Option<
    HitInfo,
>)
    requires
        forall|i: int| 0 <= i < faces@.len() ==> face_wf(#[trigger] faces@[i]),
        material_wf(*m),
        ray_wf(*ray),
        -0x1000_0000 <= t0 <= 0x1000_0000,
        -0x1000_0000 <= t1 <= 0x1000_0000,
    ensures
        r == faces_hit_s(faces@, *m, *ray, t0 as int, t1 as int),
        hit_ok(r, *ray, t0 as int, t1 as int),
{
    let mut best: Option<HitInfo> = None;
    let mut closest: i64 = t1;
    let mut i: usize = 0;
    while i < faces.len()
        invariant
            0 <= i <= faces@.len(),
            forall|j: int| 0 <= j < faces@.len() ==> face_wf(#[trigger] faces@[j]),
            material_wf(*m),
            ray_wf(*ray),
            -0x1000_0000 <= t0 <= 0x1000_0000,
            -0x1000_0000 <= t1 <= 0x1000_0000,
            best == faces_hit_s(faces@.subrange(0, i as int), *m, *ray, t0 as int, t1 as int),
            closest as int == (match best {
                Some(h) => h.t as int,
                None => t1 as int,
            }),
            hit_ok(best, *ray, t0 as int, t1 as int),
        decreases faces@.len() - i,
    {
        let f: RectFace = faces[i];
        let cur: Option<HitInfo> = rect_hit(f.x0, f.x1, f.y0, f.y1, f.k, f.axis, m, ray, t0,
            closest);
        let cur_flipped: Option<HitInfo> = match cur {
            Some(h) => Some(
                if f.flip {
                    HitInfo { n: h.n.neg(), ..h }
                } else {
                    h
                },
            ),
            None => None,
        };
        proof {
            assert(faces@.subrange(0, i + 1).drop_last() =~= faces@.subrange(0, i as int));
            assert(faces@.subrange(0, i + 1).last() == faces@[i as int]);
        }
        match cur_flipped {
            Some(h) => {
                closest = h.t;
                best = Some(h);
            },
            None => {},
        }
        i = i + 1;
    }
    proof {
        assert(faces@.subrange(0, faces@.len() as int) =~= faces@);
    }
    best
}

impl ShapeList {
    pub fn new() -> (r: Self)
        ensures
            r.objects@ =~= Seq::<Shape>::empty(),
    {
        ShapeList { objects: Vec::new() }
    }

    pub fn push(&mut self, object: Shape)
        ensures
            final(self).objects@ == old(self).objects@.push(object),
    {
        self.objects.push(object);
    }

    /// Every shape of the list is well-formed.
    pub open spec fn wf(&self) -> bool {
        forall|i: int| 0 <= i < self.objects@.len() ==> shape_wf(#[trigger] self.objects@[i])
    }

    /// The nearest hit over all shapes of the list for `ray` over the
    /// open interval `(t0, t1)`: each shape is probed with the interval
    /// shrunk to the best parameter found so far, which yields the hit
    /// of globally minimal parameter without sorting.
    pub fn hit(&self, ray: &Ray, t0: i64, t1: i64) -> (r: Option<HitInfo>)
        requires
            self.wf(),
            ray_wf(*ray),
            -0x1000_0000 <= t0 <= 0x1000_0000,
            -0x1000_0000 <= t1 <= 0x1000_0000,
        ensures
            r == list_hit_s(self.objects@, *ray, t0 as int, t1 as int),
            hit_ok(r, *ray, t0 as int, t1 as int),
    {
        let mut best: Option<HitInfo> = None;
        let mut closest: i64 = t1;
        let mut i: usize = 0;
        while i < self.objects.len()
            invariant
                0 <= i <= self.objects@.len(),
                self.wf(),
                ray_wf(*ray),
                -0x1000_0000 <= t0 <= 0x1000_0000,
                -0x1000_0000 <= t1 <= 0x1000_0000,
                best == list_hit_s(self.objects@.subrange(0, i as int), *ray, t0 as int, t1 as int),
                closest as int == (match best {
                    Some(h) => h.t as int,
                    None => t1 as int,
                }),
                hit_ok(best, *ray, t0 as int, t1 as int),
            decreases self.objects@.len() - i,
        {
            let cur: Option<HitInfo> = self.objects[i].hit(ray, t0, closest);
            proof {
                assert(self.objects@.subrange(0, i + 1).drop_last() =~= self.objects@.subrange(
                    0,
                    i as int,
                ));
                assert(self.objects@.subrange(0, i + 1).last() == self.objects@[i as int]);
            }
            match cur {
                Some(h) => {
                    closest = h.t;
                    best = Some(h);
                },
                None => {},
            }
            i = i + 1;
        }
        proof {
            assert(self.objects@.subrange(0, self.objects@.len() as int) =~= self.objects@);
        }
        best
    }
}

/// Magnitude bounds for every product in the sphere quadratic, so that
/// the wide arithmetic cannot overflow.
proof fn lemma_sphere_products(dx: int, dy: int, dz: int, ox: int, oy: int, oz: int, radius: int)
    requires
        -0x40_0000 <= dx <= 0x40_0000,
        -0x40_0000 <= dy <= 0x40_0000,
        -0x40_0000 <= dz <= 0x40_0000,
        -0x2000_0000 <= ox <= 0x2000_0000,
        -0x2000_0000 <= oy <= 0x2000_0000,
        -0x2000_0000 <= oz <= 0x2000_0000,
        1 <= radius <= 0x400_0000,
    ensures
        0 <= dx * dx <= 0x1000_0000_0000,
        0 <= dy * dy <= 0x1000_0000_0000,
        0 <= dz * dz <= 0x1000_0000_0000,
        -0x8_0000_0000_0000 <= dx * ox <= 0x8_0000_0000_0000,
        -0x8_0000_0000_0000 <= dy * oy <= 0x8_0000_0000_0000,
        -0x8_0000_0000_0000 <= dz * oz <= 0x8_0000_0000_0000,
        0 <= ox * ox <= 0x400_0000_0000_0000,
        0 <= oy * oy <= 0x400_0000_0000_0000,
        0 <= oz * oz <= 0x400_0000_0000_0000,
        0 <= radius * radius <= 0x10_0000_0000_0000,
        0 <= dx * dx + dy * dy + dz * dz <= 0x3000_0000_0000,
        -0x40_0000_0000_0000 <= 2 * (dx * ox + dy * oy + dz * oz) <= 0x40_0000_0000_0000,
        -0x1_0000_0000_0000_0000 <= ox * ox + oy * oy + oz * oz - radius * radius
            <= 0x1_0000_0000_0000_0000,
        0 <= (2 * (dx * ox + dy * oy + dz * oz)) * (2 * (dx * ox + dy * oy + dz * oz))
            <= 0x1000_0000_0000_0000_0000_0000_0000,
        -0x3000_0000_0000_0000_0000_0000_0000 <= (dx * dx + dy * dy + dz * dz) * (ox * ox + oy
            * oy + oz * oz - radius * radius) <= 0x3000_0000_0000_0000_0000_0000_0000,
        (2 * (dx * ox + dy * oy + dz * oz)) * (2 * (dx * ox + dy * oy + dz * oz)) - 4 * ((dx * dx
            + dy * dy + dz * dz) * (ox * ox + oy * oy + oz * oz - radius * radius))
            < 0x1_0000_0000_0000_0000_0000_0000_0000,
        -0x1_0000_0000_0000_0000_0000_0000_0000 <= (2 * (dx * ox + dy * oy + dz * oz)) * (2 * (dx
            * ox + dy * oy + dz * oz)) - 4 * ((dx * dx + dy * dy + dz * dz) * (ox * ox + oy * oy
            + oz * oz - radius * radius)),
{
    assert(0 <= dx * dx <= 0x1000_0000_0000 && 0 <= dy * dy <= 0x1000_0000_0000 && 0 <= dz * dz
        <= 0x1000_0000_0000) by (nonlinear_arith)
        requires
            -0x40_0000 <= dx <= 0x40_0000,
            -0x40_0000 <= dy <= 0x40_0000,
            -0x40_0000 <= dz <= 0x40_0000,
    ;
    assert(-0x8_0000_0000_0000 <= dx * ox <= 0x8_0000_0000_0000 && -0x8_0000_0000_0000 <= dy * oy
        <= 0x8_0000_0000_0000 && -0x8_0000_0000_0000 <= dz * oz <= 0x8_0000_0000_0000)
        by (nonlinear_arith)
        requires
            -0x40_0000 <= dx <= 0x40_0000,
            -0x40_0000 <= dy <= 0x40_0000,
            -0x40_0000 <= dz <= 0x40_0000,
            -0x2000_0000 <= ox <= 0x2000_0000,
            -0x2000_0000 <= oy <= 0x2000_0000,
            -0x2000_0000 <= oz <= 0x2000_0000,
    ;
    assert(0 <= ox * ox <= 0x400_0000_0000_0000 && 0 <= oy * oy <= 0x400_0000_0000_0000 && 0 <= oz
        * oz <= 0x400_0000_0000_0000 && 0 <= radius * radius <= 0x10_0000_0000_0000)
        by (nonlinear_arith)
        requires
            -0x2000_0000 <= ox <= 0x2000_0000,
            -0x2000_0000 <= oy <= 0x2000_0000,
            -0x2000_0000 <= oz <= 0x2000_0000,
            1 <= radius <= 0x400_0000,
    ;
    let b2 = 2 * (dx * ox + dy * oy + dz * oz);
    let a2 = dx * dx + dy * dy + dz * dz;
    let c2 = ox * ox + oy * oy + oz * oz - radius * radius;
    assert(b2 * b2 <= 0x1000_0000_0000_0000_0000_0000_0000) by (nonlinear_arith)
        requires
            -0x40_0000_0000_0000 <= b2 <= 0x40_0000_0000_0000,
    ;
    assert(-0x3000_0000_0000_0000_0000_0000_0000 <= a2 * c2 <= 0x3000_0000_0000_0000_0000_0000_0000)
        by (nonlinear_arith)
        requires
            0 <= a2 <= 0x3000_0000_0000,
            -0x1_0000_0000_0000_0000 <= c2 <= 0x1_0000_0000_0000_0000,
    ;
    assert(b2 * b2 >= 0) by (nonlinear_arith);
}

} // verus!
