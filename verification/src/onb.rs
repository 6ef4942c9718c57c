use vstd::prelude::*;
use crate::fx::{SCALE, tdiv, fxmul, lemma_tdiv_exact, lemma_tdiv_bound, lemma_tdiv_shrink,
    lemma_tdiv_mono, lemma_abs_mul};
use crate::vec3::{Float3, bounded, dot_s, dot_raw, cross_s, unit_or_s, unit_s, near_unit,
    xaxis_s, yaxis_s, zaxis_s, lemma_unit_length_tolerance, lemma_unit_near_orthogonal,
    lemma_cross_near_orthogonal};

verus! {

/// A local coordinate frame anchored at a surface normal: `w` is the
/// normal itself and `u`, `v` are tangent directions derived from cross
/// products with a coordinate axis.
#[derive(Clone, Copy, PartialEq, Eq, Structural, Debug)]
pub struct Onb {
    pub u: Float3,
    pub v: Float3,
    pub w: Float3,
}

/// Mapping a local-frame vector into world space:
/// `u * d.x + v * d.y + w * d.z`.
pub open spec fn local_s(o: Onb, d: Float3) -> Float3 {
    Float3 {
        x: (fxmul(o.u.x as int, d.x as int) + fxmul(o.v.x as int, d.y as int) + fxmul(
            o.w.x as int,
            d.z as int,
        )) as i64,
        y: (fxmul(o.u.y as int, d.x as int) + fxmul(o.v.y as int, d.y as int) + fxmul(
            o.w.y as int,
            d.z as int,
        )) as i64,
        z: (fxmul(o.u.z as int, d.x as int) + fxmul(o.v.z as int, d.y as int) + fxmul(
            o.w.z as int,
            d.z as int,
        )) as i64,
    }
}

/// The frame built from a normal `n`: `w` is `n` itself; the first
/// tangent is the normalized cross product of `n` with a coordinate
/// axis chosen away from `n` (with a fixed fallback for a degenerate
/// cross product); the second tangent is the cross product of the
/// normal with the first tangent.
pub open spec fn onb_s(n: Float3) -> Onb {
    let toward_x = n.x > 9 * (SCALE as int) / 10 || n.x < -(9 * (SCALE as int) / 10);
    let a = if toward_x {
        yaxis_s()
    } else {
        xaxis_s()
    };
    let fb = if toward_x {
        zaxis_s()
    } else {
        yaxis_s()
    };
    let u = unit_or_s(cross_s(n, a), fb);
    Onb { u, v: cross_s(n, u), w: n }
}

impl Onb {
    /// Build the frame from a normal `n` of direction magnitude (at most a
    /// couple of units per component): `w` is `n` itself; the first
    /// tangent is the normalized cross product of `n` with a coordinate
    /// axis chosen away from `n`, with a fixed fallback when the cross
    /// product degenerates; the second tangent closes the frame. For a
    /// unit-length normal (within tolerance) the first tangent is unit
    /// length within tolerance and both tangents are orthogonal to the
    /// normal and to each other within a few units of the last place.
    pub fn new(n: Float3) -> (r: Onb)
        requires
            bounded(n, 2 * SCALE as int),
        ensures
            r == onb_s(n),
            r.w == n,
            bounded(r.u, 2 * SCALE as int),
            bounded(r.v, 9 * SCALE as int),
            near_unit(n) ==> SCALE as int - 16 <= dot_s(r.u, r.u) <= SCALE as int + 16,
            near_unit(n) ==> -6 <= dot_s(r.u, r.w) <= 6,
            near_unit(n) ==> -6 <= dot_s(r.v, r.w) <= 6,
            near_unit(n) ==> -6 <= dot_s(r.v, r.u) <= 6,
    {
        let threshold: i64 = 9 * SCALE / 10;
        let toward_x: bool = n.x > threshold || n.x < -threshold;
        let a: Float3 = if toward_x {
            Float3::yaxis()
        } else {
            Float3::xaxis()
        };
        let fb: Float3 = if toward_x {
            Float3::zaxis()
        } else {
            Float3::yaxis()
        };
        let c: Float3 = n.cross(a);
        proof {
            lemma_tdiv_bound(n.y * a.z - n.z * a.y, SCALE as int);
            lemma_tdiv_bound(n.z * a.x - n.x * a.z, SCALE as int);
            lemma_tdiv_bound(n.x * a.y - n.y * a.x, SCALE as int);
            lemma_abs_mul(n.y as int, a.z as int, 2 * SCALE as int, SCALE as int);
            lemma_abs_mul(n.z as int, a.y as int, 2 * SCALE as int, SCALE as int);
            lemma_abs_mul(n.z as int, a.x as int, 2 * SCALE as int, SCALE as int);
            lemma_abs_mul(n.x as int, a.z as int, 2 * SCALE as int, SCALE as int);
            lemma_abs_mul(n.x as int, a.y as int, 2 * SCALE as int, SCALE as int);
            lemma_abs_mul(n.y as int, a.x as int, 2 * SCALE as int, SCALE as int);
            if near_unit(n) {
                lemma_axis_cross(n, a, toward_x);
            }
        }
        let u: Float3 = c.normalize_or(fb);
        proof {
            if near_unit(n) {
                lemma_unit_length_tolerance(c);
                lemma_unit_near_orthogonal(c, n);
            }
        }
        proof {
            lemma_abs_mul(n.y as int, u.z as int, 2 * SCALE as int, 2 * SCALE as int);
            lemma_abs_mul(n.z as int, u.y as int, 2 * SCALE as int, 2 * SCALE as int);
            lemma_abs_mul(n.z as int, u.x as int, 2 * SCALE as int, 2 * SCALE as int);
            lemma_abs_mul(n.x as int, u.z as int, 2 * SCALE as int, 2 * SCALE as int);
            lemma_abs_mul(n.x as int, u.y as int, 2 * SCALE as int, 2 * SCALE as int);
            lemma_abs_mul(n.y as int, u.x as int, 2 * SCALE as int, 2 * SCALE as int);
            assert(2 * SCALE as int * (2 * SCALE as int) + 2 * SCALE as int * (2 * SCALE as int)
                == (8 * SCALE as int) * (SCALE as int)) by (nonlinear_arith)
                requires
                    SCALE == 65536,
            ;
            lemma_tdiv_shrink(n.y * u.z - n.z * u.y, SCALE as int, 8 * SCALE as int);
            lemma_tdiv_shrink(n.z * u.x - n.x * u.z, SCALE as int, 8 * SCALE as int);
            lemma_tdiv_shrink(n.x * u.y - n.y * u.x, SCALE as int, 8 * SCALE as int);
        }
        let v: Float3 = n.cross(u);
        proof {
            if near_unit(n) {
                lemma_cross_raw_orthogonal(n, u);
                lemma_cross_near_orthogonal(n, u, n);
                lemma_cross_near_orthogonal(n, u, u);
            }
        }
        Onb { u, v, w: n }
    }

    /// Map a local-frame vector into world space.
    pub fn local(&self, d: Float3) -> (r: Float3)
        requires
            bounded(self.u, 0x8000_0000),
            bounded(self.v, 0x8000_0000),
            bounded(self.w, 0x8000_0000),
            bounded(d, 0x8000_0000),
        ensures
            r == local_s(*self, d),
    {
        proof {
            lemma_scaled_terms(*self, d);
        }
        let su: Float3 = self.u.scale(d.x);
        let sv: Float3 = self.v.scale(d.y);
        let sw: Float3 = self.w.scale(d.z);
        su.add(sv).add(sw)
    }
}

/// Bounds for the three scaled frame terms, so their sums cannot
/// overflow.
proof fn lemma_scaled_terms(o: Onb, d: Float3)
    requires
        bounded(o.u, 0x8000_0000),
        bounded(o.v, 0x8000_0000),
        bounded(o.w, 0x8000_0000),
        bounded(d, 0x8000_0000),
    ensures
        -0x8000_0000_0000 <= fxmul(o.u.x as int, d.x as int) <= 0x8000_0000_0000,
        -0x8000_0000_0000 <= fxmul(o.u.y as int, d.x as int) <= 0x8000_0000_0000,
        -0x8000_0000_0000 <= fxmul(o.u.z as int, d.x as int) <= 0x8000_0000_0000,
        -0x8000_0000_0000 <= fxmul(o.v.x as int, d.y as int) <= 0x8000_0000_0000,
        -0x8000_0000_0000 <= fxmul(o.v.y as int, d.y as int) <= 0x8000_0000_0000,
        -0x8000_0000_0000 <= fxmul(o.v.z as int, d.y as int) <= 0x8000_0000_0000,
        -0x8000_0000_0000 <= fxmul(o.w.x as int, d.z as int) <= 0x8000_0000_0000,
        -0x8000_0000_0000 <= fxmul(o.w.y as int, d.z as int) <= 0x8000_0000_0000,
        -0x8000_0000_0000 <= fxmul(o.w.z as int, d.z as int) <= 0x8000_0000_0000,
{
    lemma_fxmul_bound(o.u.x as int, d.x as int);
    lemma_fxmul_bound(o.u.y as int, d.x as int);
    lemma_fxmul_bound(o.u.z as int, d.x as int);
    lemma_fxmul_bound(o.v.x as int, d.y as int);
    lemma_fxmul_bound(o.v.y as int, d.y as int);
    lemma_fxmul_bound(o.v.z as int, d.y as int);
    lemma_fxmul_bound(o.w.x as int, d.z as int);
    lemma_fxmul_bound(o.w.y as int, d.z as int);
    lemma_fxmul_bound(o.w.z as int, d.z as int);
}

/// The fixed-point product of two values below `2^31` in magnitude is
/// below `2^47`.
proof fn lemma_fxmul_bound(a: int, b: int)
    requires
        -0x8000_0000 <= a <= 0x8000_0000,
        -0x8000_0000 <= b <= 0x8000_0000,
    ensures
        -0x8000_0000_0000 <= fxmul(a, b) <= 0x8000_0000_0000,
{
    lemma_abs_mul(a, b, 0x8000_0000, 0x8000_0000);
    lemma_tdiv_bound(a * b, SCALE as int);
    assert(a * b >= 0 ==> (a * b) / (SCALE as int) <= 0x8000_0000_0000) by (nonlinear_arith)
        requires
            -0x4000_0000_0000_0000 <= a * b <= 0x4000_0000_0000_0000,
            SCALE == 65536,
    ;
    assert(a * b < 0 ==> (-(a * b)) / (SCALE as int) <= 0x8000_0000_0000) by (nonlinear_arith)
        requires
            -0x4000_0000_0000_0000 <= a * b <= 0x4000_0000_0000_0000,
            SCALE == 65536,
    ;
}

/// The local frame maps the local z-axis exactly onto the normal the
/// frame was built from: no truncation is incurred on the unit
/// coefficient.
pub proof fn lemma_local_zaxis(o: Onb)
    ensures
        local_s(o, Float3 { x: 0i64, y: 0i64, z: SCALE }) == o.w,
{
    lemma_tdiv_exact(o.w.x as int, SCALE as int);
    lemma_tdiv_exact(o.w.y as int, SCALE as int);
    lemma_tdiv_exact(o.w.z as int, SCALE as int);
}

/// The unscaled cross product is exactly orthogonal to both factors: the
/// tangent directions of a frame are orthogonal to the normal before the
/// final fixed-point scaling.
pub proof fn lemma_cross_raw_orthogonal(a: Float3, b: Float3)
    ensures
        (a.y * b.z - a.z * b.y) * a.x + (a.z * b.x - a.x * b.z) * a.y + (a.x * b.y - a.y * b.x)
            * a.z == 0,
        (a.y * b.z - a.z * b.y) * b.x + (a.z * b.x - a.x * b.z) * b.y + (a.x * b.y - a.y * b.x)
            * b.z == 0,
{
    assert((a.y * b.z - a.z * b.y) * a.x + (a.z * b.x - a.x * b.z) * a.y + (a.x * b.y - a.y
        * b.x) * a.z == 0) by (nonlinear_arith);
    assert((a.y * b.z - a.z * b.y) * b.x + (a.z * b.x - a.x * b.z) * b.y + (a.x * b.y - a.y
        * b.x) * b.z == 0) by (nonlinear_arith);
}

/// The frame mapping of a sampled direction stays within a few dozen
/// units.
pub proof fn lemma_local_bound(o: Onb, d: Float3)
    requires
        bounded(o.u, 2 * SCALE as int),
        bounded(o.v, 9 * SCALE as int),
        bounded(o.w, 2 * SCALE as int),
        bounded(d, 2 * SCALE as int),
    ensures
        bounded(local_s(o, d), 26 * SCALE as int),
{
    lemma_local_term(o.u.x as int, d.x as int, 2);
    lemma_local_term(o.u.y as int, d.x as int, 2);
    lemma_local_term(o.u.z as int, d.x as int, 2);
    lemma_local_term(o.v.x as int, d.y as int, 9);
    lemma_local_term(o.v.y as int, d.y as int, 9);
    lemma_local_term(o.v.z as int, d.y as int, 9);
    lemma_local_term(o.w.x as int, d.z as int, 2);
    lemma_local_term(o.w.y as int, d.z as int, 2);
    lemma_local_term(o.w.z as int, d.z as int, 2);
}

/// One frame term: a product of a `k`-unit frame vector component and a
/// two-unit coefficient shrinks to `2 * k` units.
proof fn lemma_local_term(a: int, b: int, k: int)
    requires
        1 <= k <= 16,
        -k * (SCALE as int) <= a <= k * (SCALE as int),
        -2 * (SCALE as int) <= b <= 2 * (SCALE as int),
    ensures
        -(2 * k) * (SCALE as int) <= fxmul(a, b) <= (2 * k) * (SCALE as int),
{
    assert(-(((2 * k) * (SCALE as int)) * (SCALE as int)) <= a * b <= ((2 * k) * (SCALE as int))
        * (SCALE as int)) by (nonlinear_arith)
        requires
            1 <= k <= 16,
            -k * (SCALE as int) <= a <= k * (SCALE as int),
            -2 * (SCALE as int) <= b <= 2 * (SCALE as int),
            SCALE == 65536,
    ;
    lemma_tdiv_shrink(a * b, SCALE as int, (2 * k) * (SCALE as int));
}

/// The cross product of a near-unit normal with the chosen coordinate
/// axis: exactly a signed permutation of two normal components, exactly
/// orthogonal to the normal, and long enough to normalize within
/// tolerance.
proof fn lemma_axis_cross(n: Float3, a: Float3, toward_x: bool)
    requires
        bounded(n, 2 * SCALE as int),
        near_unit(n),
        toward_x == (n.x > 9 * SCALE / 10 || n.x < -(9 * SCALE / 10)),
        a == if toward_x {
            yaxis_s()
        } else {
            xaxis_s()
        },
    ensures
        dot_raw(cross_s(n, a), n) == 0,
        dot_s(cross_s(n, a), cross_s(n, a)) >= SCALE as int / 6,
{
    let s = SCALE as int;
    let sig = dot_raw(n, n);
    lemma_tdiv_bound(sig, s);
    assert(n.x * n.x >= 0 && n.y * n.y >= 0 && n.z * n.z >= 0) by (nonlinear_arith);
    assert(dot_s(n, n) * s <= sig) by (nonlinear_arith)
        requires
            sig >= 0,
            dot_s(n, n) == sig / (SCALE as int),
            s == 65536,
    ;
    assert(sig >= (s - 16) * s) by (nonlinear_arith)
        requires
            dot_s(n, n) * s <= sig,
            dot_s(n, n) >= s - 16,
            s == 65536,
    ;
    let c = cross_s(n, a);
    if toward_x {
        assert(n.y * a.z - n.z * a.y == -(n.z * s) && n.z * a.x - n.x * a.z == 0 && n.x * a.y
            - n.y * a.x == n.x * s) by (nonlinear_arith)
            requires
                a.x == 0,
                a.y == SCALE,
                a.z == 0,
                s == 65536,
        ;
        lemma_tdiv_exact(-n.z as int, s);
        lemma_tdiv_exact(n.x as int, s);
        assert(-(n.z * s) == (-n.z as int) * s) by (nonlinear_arith);
        assert(tdiv(0, s) == 0);
        assert(c == Float3 { x: (-n.z) as i64, y: 0i64, z: n.x });
        assert(dot_raw(c, n) == 0) by (nonlinear_arith)
            requires
                dot_raw(c, n) == (-n.z as int) * n.x + 0 * n.y + n.x * n.z,
        ;
        assert(dot_raw(c, c) >= 58983 * 58983) by (nonlinear_arith)
            requires
                dot_raw(c, c) == (-n.z as int) * (-n.z as int) + 0 * 0 + n.x * n.x,
                n.x > 58982 || n.x < -58982,
        ;
        lemma_tdiv_mono(58983int * 58983, dot_raw(c, c), s);
        assert(tdiv(58983int * 58983, 65536int) >= 10922);
    } else {
        assert(n.y * a.z - n.z * a.y == 0 && n.z * a.x - n.x * a.z == n.z * s && n.x * a.y - n.y
            * a.x == -(n.y * s)) by (nonlinear_arith)
            requires
                a.x == SCALE,
                a.y == 0,
                a.z == 0,
                s == 65536,
        ;
        lemma_tdiv_exact(n.z as int, s);
        lemma_tdiv_exact(-n.y as int, s);
        assert(-(n.y * s) == (-n.y as int) * s) by (nonlinear_arith);
        assert(tdiv(0, s) == 0);
        assert(c == Float3 { x: 0i64, y: n.z, z: (-n.y) as i64 });
        assert(dot_raw(c, n) == 0) by (nonlinear_arith)
            requires
                dot_raw(c, n) == 0 * n.x + n.z * n.y + (-n.y as int) * n.z,
        ;
        assert(dot_raw(c, c) == n.y * n.y + n.z * n.z) by (nonlinear_arith)
            requires
                dot_raw(c, c) == 0 * 0 + n.z * n.z + (-n.y as int) * (-n.y as int),
        ;
        assert(n.x * n.x <= 58982 * 58982) by (nonlinear_arith)
            requires
                -58982 <= n.x <= 58982,
        ;
        assert(dot_raw(c, c) >= (s - 16) * s - 58982 * 58982) by (nonlinear_arith)
            requires
                dot_raw(c, c) == n.y * n.y + n.z * n.z,
                sig == n.x * n.x + n.y * n.y + n.z * n.z,
                sig >= (s - 16) * s,
                n.x * n.x <= 58982 * 58982,
                s == 65536,
        ;
        lemma_tdiv_mono((s - 16) * s - 58982 * 58982, dot_raw(c, c), s);
        assert(tdiv((65536int - 16) * 65536 - 58982int * 58982, 65536int) >= 10922);
    }
}

} // verus!
