use vstd::prelude::*;
use crate::fx::{SCALE, lemma_isqrt, lemma_tdiv_mono_gen};
use crate::ray::{Ray, at_s};
use crate::material::Material;
use crate::vec3::Float3;
use crate::shape::{Shape, ShapeKind, RectFace, RectAxisType, HitInfo, rect_hit_s, sphere_hit_s,
    face_hit_s, faces_hit_s, shape_hit_s, list_hit_s, perm_s};

verus! {

/// Restrict a hit to those whose parameter lies below `t1`.
pub open spec fn clip(o: Option<HitInfo>, t1: int) -> Option<HitInfo> {
    match o {
        Some(h) => if h.t < t1 {
            Some(h)
        } else {
            None
        },
        None => None,
    }
}

/// A hit answer is no better than parameter `t`.
pub open spec fn no_closer_than(o: Option<HitInfo>, t: int) -> bool {
    match o {
        Some(g) => g.t >= t,
        None => true,
    }
}

/// A rectangle hit lies strictly inside the probed interval and on the
/// ray.
proof fn lemma_rect_range(
    x0: int,
    x1: int,
    y0: int,
    y1: int,
    k: int,
    axis: RectAxisType,
    m: Material,
    ray: Ray,
    t0: int,
    t1: int,
)
    requires
        -0x1000_0000 <= t0 <= 0x1000_0000,
        -0x1000_0000 <= t1 <= 0x1000_0000,
    ensures
        (match rect_hit_s(x0, x1, y0, y1, k, axis, m, ray, t0, t1) {
            Some(h) => t0 < h.t < t1 && h.p == at_s(ray, h.t as int),
            None => true,
        }),
{
}

/// A sphere hit lies strictly inside the probed interval and on the ray.
proof fn lemma_sphere_range(center: crate::vec3::Point3, radius: int, m: Material, ray: Ray,
    t0: int, t1: int)
    requires
        -0x1000_0000 <= t0 <= 0x1000_0000,
        -0x1000_0000 <= t1 <= 0x1000_0000,
    ensures
        (match sphere_hit_s(center, radius, m, ray, t0, t1) {
            Some(h) => t0 < h.t < t1 && h.p == at_s(ray, h.t as int),
            None => true,
        }),
{
}

/// A box-face hit lies strictly inside the probed interval and on the
/// ray.
proof fn lemma_face_range(f: RectFace, m: Material, ray: Ray, t0: int, t1: int)
    requires
        -0x1000_0000 <= t0 <= 0x1000_0000,
        -0x1000_0000 <= t1 <= 0x1000_0000,
    ensures
        (match face_hit_s(f, m, ray, t0, t1) {
            Some(h) => t0 < h.t < t1 && h.p == at_s(ray, h.t as int),
            None => true,
        }),
{
    lemma_rect_range(f.x0 as int, f.x1 as int, f.y0 as int, f.y1 as int, f.k as int, f.axis, m,
        ray, t0, t1);
}

/// The nearest face hit lies strictly inside the probed interval and on
/// the ray.
proof fn lemma_faces_range(fs: Seq<RectFace>, m: Material, ray: Ray, t0: int, t1: int)
    requires
        -0x1000_0000 <= t0 <= 0x1000_0000,
        -0x1000_0000 <= t1 <= 0x1000_0000,
    ensures
        (match faces_hit_s(fs, m, ray, t0, t1) {
            Some(h) => t0 < h.t < t1 && h.p == at_s(ray, h.t as int),
            None => true,
        }),
    decreases fs.len(),
{
    if fs.len() > 0 {
        lemma_faces_range(fs.drop_last(), m, ray, t0, t1);
        let prev = faces_hit_s(fs.drop_last(), m, ray, t0, t1);
        let cur_t1 = match prev {
            Some(h) => h.t as int,
            None => t1,
        };
        lemma_face_range(fs.last(), m, ray, t0, cur_t1);
    }
}

/// A shape hit lies strictly inside the probed interval and on the ray.
proof fn lemma_shape_range(s: Shape, ray: Ray, t0: int, t1: int)
    requires
        -0x1000_0000 <= t0 <= 0x1000_0000,
        -0x1000_0000 <= t1 <= 0x1000_0000,
    ensures
        (match shape_hit_s(s, ray, t0, t1) {
            Some(h) => t0 < h.t < t1 && h.p == at_s(ray, h.t as int),
            None => true,
        }),
{
    match s.kind {
        ShapeKind::Sphere { center, radius } => {
            lemma_sphere_range(center, radius as int, s.m, ray, t0, t1);
        },
        ShapeKind::Rect { x0, x1, y0, y1, k, axis } => {
            lemma_rect_range(x0 as int, x1 as int, y0 as int, y1 as int, k as int, axis, s.m,
                ray, t0, t1);
        },
        ShapeKind::Box3D { p0, p1, faces } => {
            lemma_faces_range(faces@, s.m, ray, t0, t1);
        },
    }
}

/// Shrinking the probed interval keeps exactly the rectangle hits below
/// the new far end.
proof fn lemma_rect_clip(
    x0: int,
    x1: int,
    y0: int,
    y1: int,
    k: int,
    axis: RectAxisType,
    m: Material,
    ray: Ray,
    t0: int,
    t1a: int,
    t1b: int,
)
    requires
        -0x1000_0000 <= t0 <= 0x1000_0000,
        -0x1000_0000 <= t1a <= 0x1000_0000,
        -0x1000_0000 <= t1b <= 0x1000_0000,
        t1a <= t1b,
    ensures
        rect_hit_s(x0, x1, y0, y1, k, axis, m, ray, t0, t1a) == clip(
            rect_hit_s(x0, x1, y0, y1, k, axis, m, ray, t0, t1b),
            t1a,
        ),
{
}

/// Shrinking the probed interval keeps exactly the sphere hits below the
/// new far end: the near root is probed before the far root, so the
/// accepted root is the smaller one in range either way.
proof fn lemma_sphere_clip(center: crate::vec3::Point3, radius: int, m: Material, ray: Ray,
    t0: int, t1a: int, t1b: int)
    requires
        -0x1000_0000 <= t0 <= 0x1000_0000,
        -0x1000_0000 <= t1a <= 0x1000_0000,
        -0x1000_0000 <= t1b <= 0x1000_0000,
        t1a <= t1b,
    ensures
        sphere_hit_s(center, radius, m, ray, t0, t1a) == clip(
            sphere_hit_s(center, radius, m, ray, t0, t1b),
            t1a,
        ),
{
    let dx = ray.direction.x as int;
    let dy = ray.direction.y as int;
    let dz = ray.direction.z as int;
    let ox = ray.origin.x - center.x;
    let oy = ray.origin.y - center.y;
    let oz = ray.origin.z - center.z;
    let a2 = dx * dx + dy * dy + dz * dz;
    let b2 = 2 * (dx * ox + dy * oy + dz * oz);
    let c2 = ox * ox + oy * oy + oz * oz - radius * radius;
    let disc = b2 * b2 - 4 * (a2 * c2);
    if a2 > 0 && disc > 0 {
        lemma_isqrt(disc);
        let root = crate::fx::isqrt_s(disc);
        lemma_tdiv_mono_gen((-b2 - root) * (SCALE as int), (-b2 + root) * (SCALE as int), 2 * a2);
        assert((-b2 - root) * (SCALE as int) <= (-b2 + root) * (SCALE as int))
            by (nonlinear_arith)
            requires
                root >= 0,
                SCALE == 65536,
        ;
    }
}

/// Shrinking the probed interval keeps exactly the face hits below the
/// new far end.
proof fn lemma_face_clip(f: RectFace, m: Material, ray: Ray, t0: int, t1a: int, t1b: int)
    requires
        -0x1000_0000 <= t0 <= 0x1000_0000,
        -0x1000_0000 <= t1a <= 0x1000_0000,
        -0x1000_0000 <= t1b <= 0x1000_0000,
        t1a <= t1b,
    ensures
        face_hit_s(f, m, ray, t0, t1a) == clip(face_hit_s(f, m, ray, t0, t1b), t1a),
{
    lemma_rect_clip(f.x0 as int, f.x1 as int, f.y0 as int, f.y1 as int, f.k as int, f.axis, m,
        ray, t0, t1a, t1b);
}

/// Shrinking the probed interval keeps exactly the nearest-face hits
/// below the new far end.
proof fn lemma_faces_clip(fs: Seq<RectFace>, m: Material, ray: Ray, t0: int, t1a: int, t1b: int)
    requires
        -0x1000_0000 <= t0 <= 0x1000_0000,
        -0x1000_0000 <= t1a <= 0x1000_0000,
        -0x1000_0000 <= t1b <= 0x1000_0000,
        t1a <= t1b,
    ensures
        faces_hit_s(fs, m, ray, t0, t1a) == clip(faces_hit_s(fs, m, ray, t0, t1b), t1a),
    decreases fs.len(),
{
    if fs.len() > 0 {
        lemma_faces_clip(fs.drop_last(), m, ray, t0, t1a, t1b);
        lemma_faces_range(fs.drop_last(), m, ray, t0, t1b);
        let prev_b = faces_hit_s(fs.drop_last(), m, ray, t0, t1b);
        let prev_a = faces_hit_s(fs.drop_last(), m, ray, t0, t1a);
        let cur_b = match prev_b {
            Some(h) => h.t as int,
            None => t1b,
        };
        let cur_a = match prev_a {
            Some(h) => h.t as int,
            None => t1a,
        };
        lemma_face_clip(fs.last(), m, ray, t0, cur_a, cur_b);
        lemma_face_range(fs.last(), m, ray, t0, cur_b);
    }
}

/// Shrinking the probed interval keeps exactly the shape hits below the
/// new far end.
proof fn lemma_shape_clip(s: Shape, ray: Ray, t0: int, t1a: int, t1b: int)
    requires
        -0x1000_0000 <= t0 <= 0x1000_0000,
        -0x1000_0000 <= t1a <= 0x1000_0000,
        -0x1000_0000 <= t1b <= 0x1000_0000,
        t1a <= t1b,
    ensures
        shape_hit_s(s, ray, t0, t1a) == clip(shape_hit_s(s, ray, t0, t1b), t1a),
{
    match s.kind {
        ShapeKind::Sphere { center, radius } => {
            lemma_sphere_clip(center, radius as int, s.m, ray, t0, t1a, t1b);
        },
        ShapeKind::Rect { x0, x1, y0, y1, k, axis } => {
            lemma_rect_clip(x0 as int, x1 as int, y0 as int, y1 as int, k as int, axis, s.m,
                ray, t0, t1a, t1b);
        },
        ShapeKind::Box3D { p0, p1, faces } => {
            lemma_faces_clip(faces@, s.m, ray, t0, t1a, t1b);
        },
    }
}

/// The aggregate nearest-hit law: what the shape list answers over
/// `(t0, t1)` is a hit of one of its shapes over the full interval, no
/// shape hits strictly closer, and the list answers nothing only when no
/// shape hits at all. The answer lies strictly inside the interval, on
/// the ray.
pub proof fn lemma_list_hit_nearest(s: Seq<Shape>, ray: Ray, t0: int, t1: int)
    requires
        -0x1000_0000 <= t0 <= 0x1000_0000,
        -0x1000_0000 <= t1 <= 0x1000_0000,
    ensures
        (match list_hit_s(s, ray, t0, t1) {
            None => forall|i: int|
                0 <= i < s.len() ==> #[trigger] shape_hit_s(s[i], ray, t0, t1) is None,
            Some(h) => t0 < h.t < t1 && h.p == at_s(ray, h.t as int) && (exists|i: int|
                0 <= i < s.len() && #[trigger] shape_hit_s(s[i], ray, t0, t1) == Some(h)) && (
            forall|i: int|
                0 <= i < s.len() ==> no_closer_than(
                    #[trigger] shape_hit_s(s[i], ray, t0, t1),
                    h.t as int,
                )),
        }),
    decreases s.len(),
{
    if s.len() > 0 {
        lemma_list_hit_nearest(s.drop_last(), ray, t0, t1);
        let prev = list_hit_s(s.drop_last(), ray, t0, t1);
        let cur_t1 = match prev {
            Some(h) => h.t as int,
            None => t1,
        };
        lemma_shape_clip(s.last(), ray, t0, cur_t1, t1);
        lemma_shape_range(s.last(), ray, t0, t1);
        let last_full = shape_hit_s(s.last(), ray, t0, t1);
        assert(s.last() == s[s.len() - 1]);
        assert(forall|i: int| 0 <= i < s.len() - 1 ==> s.drop_last()[i] == s[i]);
        match list_hit_s(s, ray, t0, t1) {
            None => {
            },
            Some(h) => {
                match clip(last_full, cur_t1) {
                    Some(g) => {
                        assert(shape_hit_s(s[s.len() - 1], ray, t0, t1) == Some(h));
                    },
                    None => {
                        assert(prev == Some(h));
                        let j = choose|j: int|
                            0 <= j < s.drop_last().len() && #[trigger] shape_hit_s(
                                s.drop_last()[j],
                                ray,
                                t0,
                                t1,
                            ) == Some(h);
                        assert(shape_hit_s(s[j], ray, t0, t1) == Some(h));
                    },
                }
            },
        }
    }
}

/// The permutation law: two shape lists holding the same shapes (in any
/// order) answer hits of the same parameter and the same point — or both
/// answer nothing.
pub proof fn lemma_list_hit_permutation(s1: Seq<Shape>, s2: Seq<Shape>, ray: Ray, t0: int, t1: int)
    requires
        -0x1000_0000 <= t0 <= 0x1000_0000,
        -0x1000_0000 <= t1 <= 0x1000_0000,
        s1.to_multiset() == s2.to_multiset(),
    ensures
        (list_hit_s(s1, ray, t0, t1) is None) <==> (list_hit_s(s2, ray, t0, t1) is None),
        (match (list_hit_s(s1, ray, t0, t1), list_hit_s(s2, ray, t0, t1)) {
            (Some(h1), Some(h2)) => h1.t == h2.t && h1.p == h2.p,
            (None, None) => true,
            _ => false,
        }),
{
    broadcast use vstd::seq_lib::group_to_multiset_ensures;

    lemma_list_hit_nearest(s1, ray, t0, t1);
    lemma_list_hit_nearest(s2, ray, t0, t1);
    let r1 = list_hit_s(s1, ray, t0, t1);
    let r2 = list_hit_s(s2, ray, t0, t1);
    match (r1, r2) {
        (Some(h1), Some(h2)) => {
            lemma_candidate_transfer(s1, s2, ray, t0, t1, h1);
            lemma_candidate_transfer(s2, s1, ray, t0, t1, h2);
        },
        (Some(h1), None) => {
            lemma_candidate_transfer(s1, s2, ray, t0, t1, h1);
        },
        (None, Some(h2)) => {
            lemma_candidate_transfer(s2, s1, ray, t0, t1, h2);
        },
        (None, None) => {},
    }
}

/// A ray fired from `(0, 0, -dist)` straight along the z-axis at a
/// sphere of radius `radius` centered at the origin hits at exactly
/// `t = dist - radius`: the axial quadratic is solved without any
/// rounding loss.
pub proof fn lemma_sphere_axial_hit(dist: int, radius: int, m: Material, t0: int, t1: int)
    requires
        1 <= radius < dist <= 0x400_0000,
        -0x1000_0000 <= t0 <= 0x1000_0000,
        -0x1000_0000 <= t1 <= 0x1000_0000,
        t0 < dist - radius < t1,
    ensures
        (match sphere_hit_s(
            crate::vec3::zero_s(),
            radius,
            m,
            Ray {
                origin: Float3 { x: 0i64, y: 0i64, z: (-dist) as i64 },
                direction: Float3 { x: 0i64, y: 0i64, z: SCALE },
            },
            t0,
            t1,
        ) {
            Some(h) => h.t == dist - radius,
            None => false,
        }),
{
    let s = SCALE as int;
    let ray = Ray {
        origin: Float3 { x: 0i64, y: 0i64, z: (-dist) as i64 },
        direction: Float3 { x: 0i64, y: 0i64, z: SCALE },
    };
    let dx = ray.direction.x as int;
    let dy = ray.direction.y as int;
    let dz = ray.direction.z as int;
    let ox = ray.origin.x - 0;
    let oy = ray.origin.y - 0;
    let oz = ray.origin.z - 0;
    assert(dx * dx == 0 && dy * dy == 0 && dz * dz == s * s && dx * ox == 0 && dy * oy == 0 && dz
        * oz == s * (-dist) && ox * ox == 0 && oy * oy == 0 && oz * oz == dist * dist)
        by (nonlinear_arith)
        requires
            dx == 0,
            dy == 0,
            dz == s,
            ox == 0,
            oy == 0,
            oz == -dist,
            s == 65536,
            dist <= 0x400_0000,
    ;
    let a2 = s * s;
    let b2 = 2 * (s * (-dist));
    let c2 = dist * dist - radius * radius;
    let disc = b2 * b2 - 4 * (a2 * c2);
    assert(disc == (2 * (s * radius)) * (2 * (s * radius)) && disc > 0) by (nonlinear_arith)
        requires
            a2 == s * s,
            b2 == 2 * (s * (-dist)),
            c2 == dist * dist - radius * radius,
            disc == b2 * b2 - 4 * (a2 * c2),
            1 <= radius < dist,
            s == 65536,
    ;
    let root = 2 * (s * radius);
    assert(root * root <= disc && disc < (root + 1) * (root + 1) && root >= 0)
        by (nonlinear_arith)
        requires
            disc == root * root,
            root == 2 * (s * radius),
            radius >= 1,
            s == 65536,
    ;
    crate::fx::lemma_isqrt_unique(disc, root);
    assert((-b2 - root) * s == (dist - radius) * (2 * a2)) by (nonlinear_arith)
        requires
            b2 == 2 * (s * (-dist)),
            root == 2 * (s * radius),
            a2 == s * s,
    ;
    crate::fx::lemma_tdiv_exact(dist - radius, 2 * a2);
}

/// A ray fired from `(0, off, -dist)` straight along the z-axis misses a
/// sphere of radius `radius` at the origin whenever the perpendicular
/// offset exceeds the radius: the discriminant is negative.
pub proof fn lemma_sphere_axial_miss(dist: int, off: int, radius: int, m: Material, t0: int,
    t1: int)
    requires
        1 <= radius < off <= 0x400_0000,
        1 <= dist <= 0x400_0000,
    ensures
        sphere_hit_s(
            crate::vec3::zero_s(),
            radius,
            m,
            Ray {
                origin: Float3 { x: 0i64, y: off as i64, z: (-dist) as i64 },
                direction: Float3 { x: 0i64, y: 0i64, z: SCALE },
            },
            t0,
            t1,
        ) is None,
{
    let s = SCALE as int;
    let ray = Ray {
        origin: Float3 { x: 0i64, y: off as i64, z: (-dist) as i64 },
        direction: Float3 { x: 0i64, y: 0i64, z: SCALE },
    };
    let dx = ray.direction.x as int;
    let dy = ray.direction.y as int;
    let dz = ray.direction.z as int;
    let ox = ray.origin.x - 0;
    let oy = ray.origin.y - 0;
    let oz = ray.origin.z - 0;
    assert(dx * dx == 0 && dy * dy == 0 && dz * dz == s * s && dx * ox == 0 && dy * oy == 0 && dz
        * oz == s * (-dist) && ox * ox == 0 && oy * oy == off * off && oz * oz == dist * dist)
        by (nonlinear_arith)
        requires
            dx == 0,
            dy == 0,
            dz == s,
            ox == 0,
            oy == off,
            oz == -dist,
            s == 65536,
            dist <= 0x400_0000,
            off <= 0x400_0000,
    ;
    let a2 = s * s;
    let b2 = 2 * (s * (-dist));
    let c2 = off * off + dist * dist - radius * radius;
    assert(b2 * b2 - 4 * (a2 * c2) < 0) by (nonlinear_arith)
        requires
            a2 == s * s,
            b2 == 2 * (s * (-dist)),
            c2 == off * off + dist * dist - radius * radius,
            1 <= radius < off,
            1 <= dist,
            s == 65536,
    ;
}

/// A ray through the exact center of a rectangle, perpendicular to its
/// plane, hits — when it hits at all — with both texture coordinates
/// exactly one half.
pub proof fn lemma_rect_center_uv(
    x0: int,
    x1: int,
    y0: int,
    y1: int,
    k: int,
    axis: RectAxisType,
    m: Material,
    ray: Ray,
    t0: int,
    t1: int,
)
    requires
        x0 < x1,
        y0 < y1,
        perm_s(axis, ray.direction).x == 0,
        perm_s(axis, ray.direction).y == 0,
        2 * perm_s(axis, ray.origin).x == x0 + x1,
        2 * perm_s(axis, ray.origin).y == y0 + y1,
    ensures
        (match rect_hit_s(x0, x1, y0, y1, k, axis, m, ray, t0, t1) {
            Some(h) => h.u == SCALE as int / 2 && h.v == SCALE as int / 2,
            None => true,
        }),
{
    let o = perm_s(axis, ray.origin);
    let d = perm_s(axis, ray.direction);
    if d.z != 0 {
        let t = if d.z > 0 {
            crate::fx::fxdiv(k - o.z, d.z as int)
        } else {
            crate::fx::fxdiv(o.z - k, -(d.z as int))
        };
        if t0 < t < t1 {
            let hx = o.x + crate::fx::fxmul(0, t);
            let hy = o.y + crate::fx::fxmul(0, t);
            assert(crate::fx::fxmul(0, t) == 0);
            let dx = o.x - x0;
            let dy = o.y - y0;
            assert(x1 - x0 == 2 * dx && y1 - y0 == 2 * dy);
            if x0 <= hx <= x1 && y0 <= hy <= y1 {
                assert(dx * (SCALE as int) == 32768 * (2 * dx)) by (nonlinear_arith)
                    requires
                        SCALE == 65536,
                ;
                assert(dy * (SCALE as int) == 32768 * (2 * dy)) by (nonlinear_arith)
                    requires
                        SCALE == 65536,
                ;
                crate::fx::lemma_tdiv_exact(32768, 2 * dx);
                crate::fx::lemma_tdiv_exact(32768, 2 * dy);
            }
        }
    }
}

/// A hit produced by some shape of `s1` is produced by some shape of any
/// reordering `s2` as well.
proof fn lemma_candidate_transfer(s1: Seq<Shape>, s2: Seq<Shape>, ray: Ray, t0: int, t1: int,
    h: HitInfo)
    requires
        -0x1000_0000 <= t0 <= 0x1000_0000,
        -0x1000_0000 <= t1 <= 0x1000_0000,
        s1.to_multiset() == s2.to_multiset(),
        exists|i: int| 0 <= i < s1.len() && #[trigger] shape_hit_s(s1[i], ray, t0, t1) == Some(h),
    ensures
        exists|i: int| 0 <= i < s2.len() && #[trigger] shape_hit_s(s2[i], ray, t0, t1) == Some(h),
{
    broadcast use vstd::seq_lib::group_to_multiset_ensures;

    let i = choose|i: int|
        0 <= i < s1.len() && #[trigger] shape_hit_s(s1[i], ray, t0, t1) == Some(h);
    let shape = s1[i];
    assert(s1.contains(shape));
    assert(s1.to_multiset().count(shape) > 0);
    assert(s2.contains(shape));
    let j = choose|j: int| 0 <= j < s2.len() && s2[j] == shape;
    assert(shape_hit_s(s2[j], ray, t0, t1) == Some(h));
}

} // verus!
