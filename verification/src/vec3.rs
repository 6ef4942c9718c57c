use vstd::prelude::*;
use crate::fx::{
    SCALE, tdiv, fxmul, fxdiv, fxsqrt, lemma_isqrt, lemma_tdiv_bound, lemma_abs_mul,
    lemma_tdiv_mono, lemma_tdiv_mono_gen, lemma_tdiv_shrink, lemma_tdiv_exact, mul_fx, div_fx,
    sqrt_fx, clamp_fx, clamp_s,
};

verus! {

/// A 3-component vector of fixed-point scalars (see `fx`): the value type
/// used for points, directions and colors alike.
#[derive(Clone, Copy, PartialEq, Eq, Structural, Debug)]
pub struct Float3 {
    pub x: i64,
    pub y: i64,
    pub z: i64,
}

/// Color and point aliases, matching how the renderer reads the type.
pub type Color = Float3;

pub type Point3 = Float3;

/// The zero vector.
pub open spec fn zero_s() -> Float3 {
    Float3 { x: 0i64, y: 0i64, z: 0i64 }
}

/// The unit vector along x.
pub open spec fn xaxis_s() -> Float3 {
    Float3 { x: SCALE, y: 0i64, z: 0i64 }
}

/// The unit vector along y.
pub open spec fn yaxis_s() -> Float3 {
    Float3 { x: 0i64, y: SCALE, z: 0i64 }
}

/// The unit vector along z.
pub open spec fn zaxis_s() -> Float3 {
    Float3 { x: 0i64, y: 0i64, z: SCALE }
}

/// The all-ones vector.
pub open spec fn one_s() -> Float3 {
    Float3 { x: SCALE, y: SCALE, z: SCALE }
}

/// Unit length to within the normalization tolerance.
pub open spec fn near_unit(v: Float3) -> bool {
    SCALE as int - 16 <= dot_s(v, v) <= SCALE as int + 16
}

/// All components lie in `[-b, b]`.
pub open spec fn bounded(v: Float3, b: int) -> bool {
    -b <= v.x <= b && -b <= v.y <= b && -b <= v.z <= b
}

/// The unscaled inner product of the raw components.
pub open spec fn dot_raw(a: Float3, b: Float3) -> int {
    a.x * b.x + a.y * b.y + a.z * b.z
}

/// The fixed-point dot product.
pub open spec fn dot_s(a: Float3, b: Float3) -> int {
    tdiv(dot_raw(a, b), SCALE as int)
}

/// The fixed-point length (root of the fixed-point squared length).
pub open spec fn len_s(v: Float3) -> int {
    fxsqrt(dot_s(v, v))
}

/// The componentwise fixed-point normalization of `v` by its length.
pub open spec fn unit_s(v: Float3) -> Float3 {
    Float3 {
        x: fxdiv(v.x as int, len_s(v)) as i64,
        y: fxdiv(v.y as int, len_s(v)) as i64,
        z: fxdiv(v.z as int, len_s(v)) as i64,
    }
}

/// Normalization with a fallback: the normalized vector when it is long
/// enough to normalize, the fallback otherwise.
pub open spec fn unit_or_s(v: Float3, fb: Float3) -> Float3 {
    if dot_s(v, v) >= 1 {
        unit_s(v)
    } else {
        fb
    }
}

/// The fixed-point cross product.
pub open spec fn cross_s(a: Float3, b: Float3) -> Float3 {
    Float3 {
        x: tdiv(a.y * b.z - a.z * b.y, SCALE as int) as i64,
        y: tdiv(a.z * b.x - a.x * b.z, SCALE as int) as i64,
        z: tdiv(a.x * b.y - a.y * b.x, SCALE as int) as i64,
    }
}

/// Mirror reflection of `v` about the normal `n`.
pub open spec fn reflect_s(v: Float3, n: Float3) -> Float3 {
    Float3 {
        x: (v.x - fxmul(n.x as int, 2 * dot_s(v, n))) as i64,
        y: (v.y - fxmul(n.y as int, 2 * dot_s(v, n))) as i64,
        z: (v.z - fxmul(n.z as int, 2 * dot_s(v, n))) as i64,
    }
}

/// Snell refraction of `v` about the outward normal `n` with index ratio
/// `eta`; `None` when the discriminant vanishes (total internal
/// reflection) or `v` is too short to normalize.
pub open spec fn refract_s(v: Float3, n: Float3, eta: int) -> Option<Float3> {
    if dot_s(v, v) < 1 {
        None
    } else {
        let uv = unit_s(v);
        let dt = dot_s(uv, n);
        let d = SCALE as int - fxmul(fxmul(eta, eta), SCALE as int - fxmul(dt, dt));
        if d > 0 {
            let root = fxsqrt(d);
            Some(
                Float3 {
                    x: (fxmul(uv.x - fxmul(n.x as int, dt), eta) - fxmul(n.x as int, root)) as i64,
                    y: (fxmul(uv.y - fxmul(n.y as int, dt), eta) - fxmul(n.y as int, root)) as i64,
                    z: (fxmul(uv.z - fxmul(n.z as int, dt), eta) - fxmul(n.z as int, root)) as i64,
                },
            )
        } else {
            None
        }
    }
}

/// The unscaled dot product of vectors bounded by `ca` and `cb` is
/// bounded by `3 * ca * cb`.
pub proof fn lemma_dot_raw_bound(a: Float3, b: Float3, ca: int, cb: int)
    requires
        bounded(a, ca),
        bounded(b, cb),
        ca >= 0,
        cb >= 0,
    ensures
        -(3 * (ca * cb)) <= dot_raw(a, b) <= 3 * (ca * cb),
{
    lemma_abs_mul(a.x as int, b.x as int, ca, cb);
    lemma_abs_mul(a.y as int, b.y as int, ca, cb);
    lemma_abs_mul(a.z as int, b.z as int, ca, cb);
}

/// The byte encoding of one color channel: clamp to `[0, 1]`, scale by
/// `255.99`, truncate.
pub open spec fn byte_s(x: int) -> int {
    tdiv(clamp_s(x, 0, SCALE as int) * 25599, 100 * (SCALE as int))
}

impl Float3 {
    pub fn new(x: i64, y: i64, z: i64) -> (r: Self)
        ensures
            r == (Float3 { x, y, z }),
    {
        Float3 { x, y, z }
    }

    pub fn zero() -> (r: Self)
        ensures
            r == (Float3 { x: 0i64, y: 0i64, z: 0i64 }),
    {
        Float3 { x: 0, y: 0, z: 0 }
    }

    pub fn one() -> (r: Self)
        ensures
            r == (Float3 { x: SCALE, y: SCALE, z: SCALE }),
    {
        Float3 { x: SCALE, y: SCALE, z: SCALE }
    }

    pub fn full(value: i64) -> (r: Self)
        ensures
            r == (Float3 { x: value, y: value, z: value }),
    {
        Float3 { x: value, y: value, z: value }
    }

    pub fn xaxis() -> (r: Self)
        ensures
            r == (Float3 { x: SCALE, y: 0i64, z: 0i64 }),
    {
        Float3 { x: SCALE, y: 0, z: 0 }
    }

    pub fn yaxis() -> (r: Self)
        ensures
            r == (Float3 { x: 0i64, y: SCALE, z: 0i64 }),
    {
        Float3 { x: 0, y: SCALE, z: 0 }
    }

    pub fn zaxis() -> (r: Self)
        ensures
            r == (Float3 { x: 0i64, y: 0i64, z: SCALE }),
    {
        Float3 { x: 0, y: 0, z: SCALE }
    }

    pub fn x(&self) -> (r: i64)
        ensures
            r == self.x,
    {
        self.x
    }

    pub fn y(&self) -> (r: i64)
        ensures
            r == self.y,
    {
        self.y
    }

    pub fn z(&self) -> (r: i64)
        ensures
            r == self.z,
    {
        self.z
    }

    pub fn to_array(&self) -> (r: [i64; 3])
        ensures
            r[0] == self.x,
            r[1] == self.y,
            r[2] == self.z,
    {
        [self.x, self.y, self.z]
    }

    /// Componentwise sum.
    pub fn add(self, rhs: Self) -> (r: Self)
        requires
            bounded(self, 0x2000_0000_0000_0000),
            bounded(rhs, 0x2000_0000_0000_0000),
        ensures
            r == (Float3 {
                x: (self.x + rhs.x) as i64,
                y: (self.y + rhs.y) as i64,
                z: (self.z + rhs.z) as i64,
            }),
    {
        Float3 { x: self.x + rhs.x, y: self.y + rhs.y, z: self.z + rhs.z }
    }

    /// Componentwise difference.
    pub fn sub(self, rhs: Self) -> (r: Self)
        requires
            bounded(self, 0x2000_0000_0000_0000),
            bounded(rhs, 0x2000_0000_0000_0000),
        ensures
            r == (Float3 {
                x: (self.x - rhs.x) as i64,
                y: (self.y - rhs.y) as i64,
                z: (self.z - rhs.z) as i64,
            }),
    {
        Float3 { x: self.x - rhs.x, y: self.y - rhs.y, z: self.z - rhs.z }
    }

    /// Componentwise negation.
    pub fn neg(self) -> (r: Self)
        requires
            bounded(self, 0x2000_0000_0000_0000),
        ensures
            r == (Float3 { x: (-self.x) as i64, y: (-self.y) as i64, z: (-self.z) as i64 }),
    {
        Float3 { x: -self.x, y: -self.y, z: -self.z }
    }

    /// Multiplication by a fixed-point scalar.
    pub fn scale(self, k: i64) -> (r: Self)
        requires
            bounded(self, 0x8000_0000),
            -0x8000_0000 <= k <= 0x8000_0000,
        ensures
            r == (Float3 {
                x: fxmul(self.x as int, k as int) as i64,
                y: fxmul(self.y as int, k as int) as i64,
                z: fxmul(self.z as int, k as int) as i64,
            }),
    {
        proof {
            lemma_abs_mul(self.x as int, k as int, 0x8000_0000, 0x8000_0000);
            lemma_abs_mul(self.y as int, k as int, 0x8000_0000, 0x8000_0000);
            lemma_abs_mul(self.z as int, k as int, 0x8000_0000, 0x8000_0000);
        }
        Float3 { x: mul_fx(self.x, k), y: mul_fx(self.y, k), z: mul_fx(self.z, k) }
    }

    /// Componentwise fixed-point product.
    pub fn mul(self, rhs: Self) -> (r: Self)
        requires
            bounded(self, 0x8000_0000),
            bounded(rhs, 0x8000_0000),
        ensures
            r == (Float3 {
                x: fxmul(self.x as int, rhs.x as int) as i64,
                y: fxmul(self.y as int, rhs.y as int) as i64,
                z: fxmul(self.z as int, rhs.z as int) as i64,
            }),
    {
        proof {
            lemma_abs_mul(self.x as int, rhs.x as int, 0x8000_0000, 0x8000_0000);
            lemma_abs_mul(self.y as int, rhs.y as int, 0x8000_0000, 0x8000_0000);
            lemma_abs_mul(self.z as int, rhs.z as int, 0x8000_0000, 0x8000_0000);
        }
        Float3 { x: mul_fx(self.x, rhs.x), y: mul_fx(self.y, rhs.y), z: mul_fx(self.z, rhs.z) }
    }

    /// Division by a positive fixed-point scalar.
    pub fn div(self, k: i64) -> (r: Self)
        requires
            k >= 1,
            bounded(self, 0x4000_0000_0000),
        ensures
            r == (Float3 {
                x: fxdiv(self.x as int, k as int) as i64,
                y: fxdiv(self.y as int, k as int) as i64,
                z: fxdiv(self.z as int, k as int) as i64,
            }),
    {
        Float3 { x: div_fx(self.x, k), y: div_fx(self.y, k), z: div_fx(self.z, k) }
    }

    /// Fixed-point dot product.
    pub fn dot(&self, rhs: Self) -> (r: i64)
        requires
            bounded(*self, 0x40_0000_0000),
            bounded(rhs, 0x40_0000_0000),
        ensures
            r == dot_s(*self, rhs),
    {
        proof {
            lemma_abs_mul(self.x as int, rhs.x as int, 0x40_0000_0000, 0x40_0000_0000);
            lemma_abs_mul(self.y as int, rhs.y as int, 0x40_0000_0000, 0x40_0000_0000);
            lemma_abs_mul(self.z as int, rhs.z as int, 0x40_0000_0000, 0x40_0000_0000);
        }
        let p: i128 = (self.x as i128) * (rhs.x as i128) + (self.y as i128) * (rhs.y as i128)
            + (self.z as i128) * (rhs.z as i128);
        proof {
            lemma_tdiv_bound(p as int, SCALE as int);
        }
        (p / (SCALE as i128)) as i64
    }

    /// Fixed-point cross product.
    pub fn cross(&self, rhs: Self) -> (r: Self)
        requires
            bounded(*self, 0x40_0000_0000),
            bounded(rhs, 0x40_0000_0000),
        ensures
            r == cross_s(*self, rhs),
            r == (Float3 {
                x: tdiv(self.y * rhs.z - self.z * rhs.y, SCALE as int) as i64,
                y: tdiv(self.z * rhs.x - self.x * rhs.z, SCALE as int) as i64,
                z: tdiv(self.x * rhs.y - self.y * rhs.x, SCALE as int) as i64,
            }),
    {
        proof {
            lemma_abs_mul(self.y as int, rhs.z as int, 0x40_0000_0000, 0x40_0000_0000);
            lemma_abs_mul(self.z as int, rhs.y as int, 0x40_0000_0000, 0x40_0000_0000);
            lemma_abs_mul(self.z as int, rhs.x as int, 0x40_0000_0000, 0x40_0000_0000);
            lemma_abs_mul(self.x as int, rhs.z as int, 0x40_0000_0000, 0x40_0000_0000);
            lemma_abs_mul(self.x as int, rhs.y as int, 0x40_0000_0000, 0x40_0000_0000);
            lemma_abs_mul(self.y as int, rhs.x as int, 0x40_0000_0000, 0x40_0000_0000);
        }
        let cx: i128 = (self.y as i128) * (rhs.z as i128) - (self.z as i128) * (rhs.y as i128);
        let cy: i128 = (self.z as i128) * (rhs.x as i128) - (self.x as i128) * (rhs.z as i128);
        let cz: i128 = (self.x as i128) * (rhs.y as i128) - (self.y as i128) * (rhs.x as i128);
        proof {
            lemma_tdiv_bound(cx as int, SCALE as int);
            lemma_tdiv_bound(cy as int, SCALE as int);
            lemma_tdiv_bound(cz as int, SCALE as int);
        }
        Float3 {
            x: (cx / (SCALE as i128)) as i64,
            y: (cy / (SCALE as i128)) as i64,
            z: (cz / (SCALE as i128)) as i64,
        }
    }

    /// Fixed-point squared length; never negative.
    pub fn length_squared(&self) -> (r: i64)
        requires
            bounded(*self, 0x40_0000_0000),
        ensures
            r == dot_s(*self, *self),
            r >= 0,
    {
        proof {
            assert(dot_raw(*self, *self) >= 0) by (nonlinear_arith);
            lemma_tdiv_bound(dot_raw(*self, *self), SCALE as int);
        }
        self.dot(*self)
    }

    /// Fixed-point length.
    pub fn length(&self) -> (r: i64)
        requires
            bounded(*self, 0x40_0000_0000),
        ensures
            r == len_s(*self),
            r >= 0,
    {
        let lsq: i64 = self.length_squared();
        sqrt_fx(lsq)
    }

    /// Fixed-point normalization; the squared length must be at least one
    /// raw unit, and every component of the result is within twice the unit
    /// scale.
    pub fn normalize(&self) -> (r: Self)
        requires
            bounded(*self, 0x40_0000_0000),
            dot_s(*self, *self) >= 1,
        ensures
            r == unit_s(*self),
            bounded(r, 2 * SCALE as int),
            dot_s(*self, *self) >= SCALE as int / 6 ==> SCALE as int - 16 <= dot_s(r, r)
                <= SCALE as int + 16,
    {
        let l: i64 = self.length();
        proof {
            lemma_normalize_bounds(*self);
            if dot_s(*self, *self) >= SCALE as int / 6 {
                lemma_unit_length_tolerance(*self);
            }
        }
        Float3 { x: div_fx(self.x, l), y: div_fx(self.y, l), z: div_fx(self.z, l) }
    }

    /// `normalize` where the input may be degenerate: a vector too short to
    /// normalize yields the fallback instead.
    pub fn normalize_or(&self, fallback: Self) -> (r: Self)
        requires
            bounded(*self, 0x40_0000_0000),
        ensures
            r == unit_or_s(*self, fallback),
            dot_s(*self, *self) >= 1 ==> r == unit_s(*self) && bounded(r, 2 * SCALE as int),
            dot_s(*self, *self) < 1 ==> r == fallback,
    {
        let lsq: i64 = self.length_squared();
        if lsq >= 1 {
            self.normalize()
        } else {
            fallback
        }
    }

    /// Linear interpolation toward `v` by fixed-point `t`.
    pub fn lerp(&self, v: Self, t: i64) -> (r: Self)
        requires
            bounded(*self, 0x4000_0000),
            bounded(v, 0x4000_0000),
            -0x8000_0000 <= t <= 0x8000_0000,
        ensures
            r == (Float3 {
                x: (self.x + fxmul(v.x - self.x, t as int)) as i64,
                y: (self.y + fxmul(v.y - self.y, t as int)) as i64,
                z: (self.z + fxmul(v.z - self.z, t as int)) as i64,
            }),
    {
        let d: Float3 = v.sub(*self);
        let s: Float3 = d.scale(t);
        proof {
            lemma_tdiv_bound((v.x - self.x) * t, SCALE as int);
            lemma_abs_mul(v.x - self.x, t as int, 0x8000_0000, 0x8000_0000);
            lemma_tdiv_bound((v.y - self.y) * t, SCALE as int);
            lemma_abs_mul(v.y - self.y, t as int, 0x8000_0000, 0x8000_0000);
            lemma_tdiv_bound((v.z - self.z) * t, SCALE as int);
            lemma_abs_mul(v.z - self.z, t as int, 0x8000_0000, 0x8000_0000);
        }
        self.add(s)
    }

    /// True exactly when every component is smaller than one raw unit in
    /// magnitude, that is, zero.
    pub fn near_zero(&self) -> (r: bool)
        ensures
            r <==> (self.x == 0 && self.y == 0 && self.z == 0),
    {
        self.x == 0 && self.y == 0 && self.z == 0
    }

    /// Clamp every component to `[0, 1]`.
    pub fn saturate(&self) -> (r: Self)
        ensures
            r == (Float3 {
                x: clamp_s(self.x as int, 0, SCALE as int) as i64,
                y: clamp_s(self.y as int, 0, SCALE as int) as i64,
                z: clamp_s(self.z as int, 0, SCALE as int) as i64,
            }),
    {
        Float3 {
            x: clamp_fx(self.x, 0, SCALE),
            y: clamp_fx(self.y, 0, SCALE),
            z: clamp_fx(self.z, 0, SCALE),
        }
    }

    /// Componentwise fixed-point square root.
    pub fn sqrt(&self) -> (r: Self)
        requires
            self.x >= 0,
            self.y >= 0,
            self.z >= 0,
        ensures
            r == (Float3 {
                x: fxsqrt(self.x as int) as i64,
                y: fxsqrt(self.y as int) as i64,
                z: fxsqrt(self.z as int) as i64,
            }),
    {
        Float3 { x: sqrt_fx(self.x), y: sqrt_fx(self.y), z: sqrt_fx(self.z) }
    }

    /// Gamma-encode for display with the standard transfer exponent of
    /// one over 2.2 — exactly five elevenths — evaluated componentwise
    /// at byte-level precision.
    pub fn gamma(&self) -> (r: Self)
        requires
            0 <= self.x <= SCALE,
            0 <= self.y <= SCALE,
            0 <= self.z <= SCALE,
        ensures
            r.x == 256 * crate::fx::iroot11_s(
                crate::fx::pow5_s(self.x as int / 256) * 0x1_0000_0000_0000,
            ),
            r.y == 256 * crate::fx::iroot11_s(
                crate::fx::pow5_s(self.y as int / 256) * 0x1_0000_0000_0000,
            ),
            r.z == 256 * crate::fx::iroot11_s(
                crate::fx::pow5_s(self.z as int / 256) * 0x1_0000_0000_0000,
            ),
            bounded(r, SCALE as int),
    {
        Float3 {
            x: crate::fx::gamma22_fx(self.x),
            y: crate::fx::gamma22_fx(self.y),
            z: crate::fx::gamma22_fx(self.z),
        }
    }

    /// The inverse display transfer: componentwise power 2.2 — exactly
    /// eleven fifths — at byte-level precision.
    pub fn degamma(&self) -> (r: Self)
        requires
            0 <= self.x <= SCALE,
            0 <= self.y <= SCALE,
            0 <= self.z <= SCALE,
        ensures
            r.x == 256 * crate::fx::iroot5_s(
                crate::fx::pow11_s(self.x as int / 256) / 0x1_0000_0000_0000,
            ),
            r.y == 256 * crate::fx::iroot5_s(
                crate::fx::pow11_s(self.y as int / 256) / 0x1_0000_0000_0000,
            ),
            r.z == 256 * crate::fx::iroot5_s(
                crate::fx::pow11_s(self.z as int / 256) / 0x1_0000_0000_0000,
            ),
            bounded(r, SCALE as int),
    {
        Float3 {
            x: crate::fx::degamma22_fx(self.x),
            y: crate::fx::degamma22_fx(self.y),
            z: crate::fx::degamma22_fx(self.z),
        }
    }

    /// Mirror reflection about a normal: `v - n * (2 * dot(v, n))`.
    pub fn reflect(&self, n: Float3) -> (r: Self)
        requires
            bounded(*self, 0x400_0000),
            bounded(n, 2 * SCALE as int),
        ensures
            r == reflect_s(*self, n),
            bounded(r, 0x1_0000_0000),
    {
        proof {
            lemma_dot_raw_bound(*self, n, 0x400_0000, 2 * SCALE as int);
            lemma_tdiv_shrink(dot_raw(*self, n), SCALE as int, 0x2000_0000);
        }
        let c: i64 = self.dot(n);
        proof {
            lemma_abs_mul(n.x as int, 2 * c, 2 * SCALE as int, 0x4000_0000);
            lemma_abs_mul(n.y as int, 2 * c, 2 * SCALE as int, 0x4000_0000);
            lemma_abs_mul(n.z as int, 2 * c, 2 * SCALE as int, 0x4000_0000);
            lemma_tdiv_shrink(n.x * (2 * c), SCALE as int, 0x1000_0000_0000);
            lemma_tdiv_shrink(n.y * (2 * c), SCALE as int, 0x1000_0000_0000);
            lemma_tdiv_shrink(n.z * (2 * c), SCALE as int, 0x1000_0000_0000);
            lemma_tdiv_shrink(n.x * (2 * c), SCALE as int, 0x8000_0000);
            lemma_tdiv_shrink(n.y * (2 * c), SCALE as int, 0x8000_0000);
            lemma_tdiv_shrink(n.z * (2 * c), SCALE as int, 0x8000_0000);
        }
        let s: Float3 = n.scale(2 * c);
        self.sub(s)
    }

    /// Snell refraction of `self` (pointing away from the surface) about
    /// the outward normal `n` with index ratio `eta`: `None` on total
    /// internal reflection, and on a direction too short to normalize.
    pub fn refract(&self, n: Float3, eta: i64) -> (r: Option<Self>)
        requires
            bounded(*self, 0x400_0000),
            bounded(n, 2 * SCALE as int),
            0 <= eta <= 0x10_0000,
        ensures
            r == refract_s(*self, n, eta as int),
    {
        let lsq: i64 = self.length_squared();
        if lsq < 1 {
            return None;
        }
        let uv: Float3 = self.normalize();
        proof {
            lemma_dot_raw_bound(uv, n, 2 * SCALE as int, 2 * SCALE as int);
            assert(3 * ((2 * SCALE as int) * (2 * SCALE as int)) == (12 * SCALE as int) * (
            SCALE as int)) by (nonlinear_arith)
                requires
                    SCALE == 65536,
            ;
            lemma_tdiv_shrink(dot_raw(uv, n), SCALE as int, 12 * SCALE as int);
        }
        let dt: i64 = uv.dot(n);
        proof {
            lemma_abs_mul(dt as int, dt as int, 12 * SCALE as int, 12 * SCALE as int);
            lemma_tdiv_shrink(dt * dt, SCALE as int, 144 * SCALE as int);
            lemma_abs_mul(eta as int, eta as int, 0x10_0000, 0x10_0000);
            lemma_tdiv_shrink(eta * eta, SCALE as int, 0x100_0000);
        }
        let dt2: i64 = mul_fx(dt, dt);
        let eta2: i64 = mul_fx(eta, eta);
        let rest: i64 = SCALE - dt2;
        proof {
            lemma_abs_mul(eta2 as int, rest as int, 0x100_0000, 145 * SCALE as int);
            lemma_tdiv_shrink(eta2 * rest, SCALE as int, 145int * 0x100_0000);
        }
        let d: i64 = SCALE - mul_fx(eta2, rest);
        if d > 0 {
            proof {
                lemma_abs_mul(n.x as int, dt as int, 2 * SCALE as int, 12 * SCALE as int);
                lemma_abs_mul(n.y as int, dt as int, 2 * SCALE as int, 12 * SCALE as int);
                lemma_abs_mul(n.z as int, dt as int, 2 * SCALE as int, 12 * SCALE as int);
                lemma_tdiv_shrink(n.x * dt, SCALE as int, 24 * SCALE as int);
                lemma_tdiv_shrink(n.y * dt, SCALE as int, 24 * SCALE as int);
                lemma_tdiv_shrink(n.z * dt, SCALE as int, 24 * SCALE as int);
            }
            let root: i64 = sqrt_fx(d);
            proof {
                assert(root as int <= 0x100_0000) by (nonlinear_arith)
                    requires
                        root >= 0,
                        root * root <= d * SCALE,
                        d <= 145 * 0x100_0000 + SCALE,
                        SCALE == 65536,
                ;
            }
            let a: Float3 = uv.sub(n.scale(dt)).scale(eta);
            let b: Float3 = n.scale(root);
            proof {
                lemma_abs_mul((uv.x - fxmul(n.x as int, dt as int)) as int, eta as int,
                    26 * SCALE as int, 0x10_0000);
                lemma_abs_mul((uv.y - fxmul(n.y as int, dt as int)) as int, eta as int,
                    26 * SCALE as int, 0x10_0000);
                lemma_abs_mul((uv.z - fxmul(n.z as int, dt as int)) as int, eta as int,
                    26 * SCALE as int, 0x10_0000);
                lemma_tdiv_shrink((uv.x - fxmul(n.x as int, dt as int)) * eta, SCALE as int,
                    0x8000_0000);
                lemma_tdiv_shrink((uv.y - fxmul(n.y as int, dt as int)) * eta, SCALE as int,
                    0x8000_0000);
                lemma_tdiv_shrink((uv.z - fxmul(n.z as int, dt as int)) * eta, SCALE as int,
                    0x8000_0000);
                lemma_abs_mul(n.x as int, root as int, 2 * SCALE as int, 0x100_0000);
                lemma_abs_mul(n.y as int, root as int, 2 * SCALE as int, 0x100_0000);
                lemma_abs_mul(n.z as int, root as int, 2 * SCALE as int, 0x100_0000);
                lemma_tdiv_shrink(n.x * root, SCALE as int, 0x400_0000int);
                lemma_tdiv_shrink(n.y * root, SCALE as int, 0x400_0000int);
                lemma_tdiv_shrink(n.z * root, SCALE as int, 0x400_0000int);
            }
            Some(a.sub(b))
        } else {
            None
        }
    }

    /// The red channel as a display byte.
    pub fn r(&self) -> (r: u8)
        ensures
            r == byte_s(self.x as int),
    {
        byte_of(self.x)
    }

    /// The green channel as a display byte.
    pub fn g(&self) -> (r: u8)
        ensures
            r == byte_s(self.y as int),
    {
        byte_of(self.y)
    }

    /// The blue channel as a display byte.
    pub fn b(&self) -> (r: u8)
        ensures
            r == byte_s(self.z as int),
    {
        byte_of(self.z)
    }

    /// All three channels as display bytes.
    pub fn to_rgb(&self) -> (r: [u8; 3])
        ensures
            r[0] == byte_s(self.x as int),
            r[1] == byte_s(self.y as int),
            r[2] == byte_s(self.z as int),
    {
        [self.r(), self.g(), self.b()]
    }

    /// A color from display bytes, each scaled to `[0, 1]`.
    pub fn from_rgb(r: u8, g: u8, b: u8) -> (c: Self)
        ensures
            c == (Float3 {
                x: tdiv(r * (SCALE as int), 255) as i64,
                y: tdiv(g * (SCALE as int), 255) as i64,
                z: tdiv(b * (SCALE as int), 255) as i64,
            }),
    {
        Float3 {
            x: (r as i64) * SCALE / 255,
            y: (g as i64) * SCALE / 255,
            z: (b as i64) * SCALE / 255,
        }
    }
}

/// Whether a byte is an ASCII hexadecimal digit.
pub open spec fn is_hex_digit(c: u8) -> bool {
    (48 <= c <= 57) || (65 <= c <= 70) || (97 <= c <= 102)
}

/// The value of an ASCII hexadecimal digit.
pub open spec fn hex_val(c: u8) -> int {
    if 48 <= c <= 57 {
        c - 48
    } else if 65 <= c <= 70 {
        c - 55
    } else {
        c - 87
    }
}

/// One ASCII hexadecimal digit decoded.
fn hex_digit(c: u8) -> (r: u8)
    requires
        is_hex_digit(c),
    ensures
        r == hex_val(c),
        r <= 15,
{
    if c >= 97 {
        c - 87
    } else if c >= 65 {
        c - 55
    } else {
        c - 48
    }
}

impl Float3 {
    /// A color from six ASCII hexadecimal digits, two per channel.
    pub fn from_hex(hex: &[u8; 6]) -> (c: Self)
        requires
            forall|i: int| 0 <= i < 6 ==> is_hex_digit(#[trigger] hex[i]),
        ensures
            c == (Float3 {
                x: tdiv((hex_val(hex[0]) * 16 + hex_val(hex[1])) * (SCALE as int), 255) as i64,
                y: tdiv((hex_val(hex[2]) * 16 + hex_val(hex[3])) * (SCALE as int), 255) as i64,
                z: tdiv((hex_val(hex[4]) * 16 + hex_val(hex[5])) * (SCALE as int), 255) as i64,
            }),
    {
        let r: u8 = hex_digit(hex[0]) * 16 + hex_digit(hex[1]);
        let g: u8 = hex_digit(hex[2]) * 16 + hex_digit(hex[3]);
        let b: u8 = hex_digit(hex[4]) * 16 + hex_digit(hex[5]);
        Float3::from_rgb(r, g, b)
    }
}

/// Encode one channel as a byte: clamp to `[0, 1]`, scale by `255.99`,
/// truncate. The result always fits in a byte.
fn byte_of(x: i64) -> (r: u8)
    ensures
        r == byte_s(x as int),
{
    let c: i64 = clamp_fx(x, 0, SCALE);
    let p: i128 = (c as i128) * 25599;
    let q: i128 = p / (100 * (SCALE as i128));
    proof {
        lemma_tdiv_bound(p as int, 100 * (SCALE as int));
        lemma_tdiv_mono(p as int, 65536int * 25599, 100 * (SCALE as int));
    }
    q as u8
}

/// The truncating division toward zero loses less than one divisor: the
/// quotient times the divisor lands within `l` of the dividend, on the
/// zero side of it.
proof fn lemma_tdiv_err(p: int, l: int)
    requires
        l >= 1,
    ensures
        p >= 0 ==> 0 <= tdiv(p, l) * l <= p && p < tdiv(p, l) * l + l,
        p < 0 ==> p <= tdiv(p, l) * l <= 0 && tdiv(p, l) * l < p + l,
{
    if p >= 0 {
        assert(0 <= (p / l) * l <= p && p < (p / l) * l + l) by (nonlinear_arith)
            requires
                p >= 0,
                l >= 1,
        ;
    } else {
        assert(0 <= ((-p) / l) * l <= -p && -p < ((-p) / l) * l + l) by (nonlinear_arith)
            requires
                -p >= 0,
                l >= 1,
        ;
        assert((-((-p) / l)) * l == -(((-p) / l) * l)) by (nonlinear_arith);
    }
}

/// The square of a truncated quotient, scaled back by the divisor
/// squared, lands within tight bounds of the squared dividend.
proof fn lemma_tdiv_sq_err(p: int, l: int, ap: int)
    requires
        l >= 1,
        ap == if p >= 0 {
            p
        } else {
            -p
        },
    ensures
        (tdiv(p, l) * tdiv(p, l)) * (l * l) <= p * p + l * l,
        p * p - 2 * (ap * l) <= (tdiv(p, l) * tdiv(p, l)) * (l * l),
{
    lemma_tdiv_err(p, l);
    let u = tdiv(p, l);
    assert((u * u) * (l * l) <= p * p + l * l && p * p - 2 * (ap * l) <= (u * u) * (l * l))
        by (nonlinear_arith)
        requires
            l >= 1,
            ap == if p >= 0 {
                p
            } else {
                -p
            },
            p >= 0 ==> 0 <= u * l <= p && p < u * l + l,
            p < 0 ==> p <= u * l <= 0 && u * l < p + l,
    ;
}

/// Normalizing preserves exact orthogonality to within a few raw units:
/// if `c` is exactly orthogonal to `n` (unscaled), the fixed-point dot
/// product of the normalized `c` with a direction-sized `n` is at most
/// six units of the last place.
pub proof fn lemma_unit_near_orthogonal(c: Float3, n: Float3)
    requires
        bounded(c, 0x40_0000_0000),
        bounded(n, 2 * SCALE as int),
        dot_raw(c, n) == 0,
        dot_s(c, c) >= 1,
    ensures
        -6 <= dot_s(unit_s(c), n) <= 6,
{
    let s = SCALE as int;
    let l = len_s(c);
    lemma_normalize_bounds(c);
    lemma_tdiv_err(c.x * s, l);
    lemma_tdiv_err(c.y * s, l);
    lemma_tdiv_err(c.z * s, l);
    let u = unit_s(c);
    assert(u.x == fxdiv(c.x as int, l) && u.y == fxdiv(c.y as int, l) && u.z == fxdiv(
        c.z as int,
        l,
    ));
    lemma_err_dot(tdiv(c.x * s, l), c.x * s, n.x as int, l);
    lemma_err_dot(tdiv(c.y * s, l), c.y * s, n.y as int, l);
    lemma_err_dot(tdiv(c.z * s, l), c.z * s, n.z as int, l);
    assert(l * (u.x * n.x) == (u.x * l) * n.x && l * (u.y * n.y) == (u.y * l) * n.y && l * (u.z
        * n.z) == (u.z * l) * n.z) by (nonlinear_arith);
    assert(l * dot_raw(u, n) == l * (u.x * n.x) + l * (u.y * n.y) + l * (u.z * n.z))
        by (nonlinear_arith)
        requires
            dot_raw(u, n) == u.x * n.x + u.y * n.y + u.z * n.z,
    ;
    assert((c.x * s) * n.x == s * (c.x * n.x) && (c.y * s) * n.y == s * (c.y * n.y) && (c.z * s)
        * n.z == s * (c.z * n.z)) by (nonlinear_arith);
    assert(s * dot_raw(c, n) == s * (c.x * n.x) + s * (c.y * n.y) + s * (c.z * n.z))
        by (nonlinear_arith)
        requires
            dot_raw(c, n) == c.x * n.x + c.y * n.y + c.z * n.z,
    ;
    assert(u.x * l == tdiv(c.x * s, l) * l && u.y * l == tdiv(c.y * s, l) * l && u.z * l == tdiv(
        c.z * s,
        l,
    ) * l);
    assert((u.x * l) * n.x == (tdiv(c.x * s, l) * l) * n.x && (u.y * l) * n.y == (tdiv(
        c.y * s,
        l,
    ) * l) * n.y && (u.z * l) * n.z == (tdiv(c.z * s, l) * l) * n.z) by (nonlinear_arith)
        requires
            u.x * l == tdiv(c.x * (SCALE as int), l) * l,
            u.y * l == tdiv(c.y * (SCALE as int), l) * l,
            u.z * l == tdiv(c.z * (SCALE as int), l) * l,
            s == SCALE as int,
    ;
    assert(l * (6 * s) == l * (2 * (SCALE as int)) + l * (2 * (SCALE as int)) + l * (2 * (
    SCALE as int))) by (nonlinear_arith)
        requires
            s == SCALE as int,
    ;
    assert(-(l * (6 * s)) <= l * dot_raw(u, n) <= l * (6 * s));
    assert(-(6 * s) <= dot_raw(u, n) <= 6 * s) by (nonlinear_arith)
        requires
            -(l * (6 * (SCALE as int))) <= l * dot_raw(u, n) <= l * (6 * (SCALE as int)),
            l >= 1,
            s == SCALE as int,
    ;
    lemma_tdiv_shrink(dot_raw(u, n), s, 6);
}

/// A truncated cross product stays orthogonal to a direction-sized
/// factor to within six units of the last place.
pub proof fn lemma_cross_near_orthogonal(a: Float3, b: Float3, d: Float3)
    requires
        bounded(a, 0x40_0000_0000),
        bounded(b, 0x40_0000_0000),
        bounded(d, 2 * SCALE as int),
        (a.y * b.z - a.z * b.y) * d.x + (a.z * b.x - a.x * b.z) * d.y + (a.x * b.y - a.y * b.x)
            * d.z == 0,
    ensures
        -6 <= dot_s(cross_s(a, b), d) <= 6,
{
    let s = SCALE as int;
    let rx = a.y * b.z - a.z * b.y;
    let ry = a.z * b.x - a.x * b.z;
    let rz = a.x * b.y - a.y * b.x;
    lemma_abs_mul(a.y as int, b.z as int, 0x40_0000_0000, 0x40_0000_0000);
    lemma_abs_mul(a.z as int, b.y as int, 0x40_0000_0000, 0x40_0000_0000);
    lemma_abs_mul(a.z as int, b.x as int, 0x40_0000_0000, 0x40_0000_0000);
    lemma_abs_mul(a.x as int, b.z as int, 0x40_0000_0000, 0x40_0000_0000);
    lemma_abs_mul(a.x as int, b.y as int, 0x40_0000_0000, 0x40_0000_0000);
    lemma_abs_mul(a.y as int, b.x as int, 0x40_0000_0000, 0x40_0000_0000);
    lemma_tdiv_err(rx, s);
    lemma_tdiv_err(ry, s);
    lemma_tdiv_err(rz, s);
    let v = cross_s(a, b);
    lemma_err_dot(tdiv(rx, s), rx, d.x as int, s);
    lemma_err_dot(tdiv(ry, s), ry, d.y as int, s);
    lemma_err_dot(tdiv(rz, s), rz, d.z as int, s);
    assert(s * (v.x * d.x) == (v.x * s) * d.x && s * (v.y * d.y) == (v.y * s) * d.y && s * (v.z
        * d.z) == (v.z * s) * d.z) by (nonlinear_arith);
    assert(s * dot_raw(v, d) == s * (v.x * d.x) + s * (v.y * d.y) + s * (v.z * d.z))
        by (nonlinear_arith)
        requires
            dot_raw(v, d) == v.x * d.x + v.y * d.y + v.z * d.z,
    ;
    assert(rx * d.x + ry * d.y + rz * d.z == 0);
    assert((v.x * s) * d.x == (tdiv(rx, s) * s) * d.x && (v.y * s) * d.y == (tdiv(ry, s) * s)
        * d.y && (v.z * s) * d.z == (tdiv(rz, s) * s) * d.z) by (nonlinear_arith)
        requires
            v.x == tdiv(rx, s),
            v.y == tdiv(ry, s),
            v.z == tdiv(rz, s),
            s == SCALE as int,
    ;
    assert(s * (6 * s) == s * (2 * (SCALE as int)) + s * (2 * (SCALE as int)) + s * (2 * (
    SCALE as int))) by (nonlinear_arith)
        requires
            s == SCALE as int,
    ;
    assert(-(s * (6 * s)) <= s * dot_raw(v, d) <= s * (6 * s));
    assert(-(6 * s) <= dot_raw(v, d) <= 6 * s) by (nonlinear_arith)
        requires
            -(s * (6 * (SCALE as int))) <= s * dot_raw(v, d) <= s * (6 * (SCALE as int)),
            s == SCALE as int,
    ;
    lemma_tdiv_shrink(dot_raw(v, d), s, 6);
}

/// One error term of a truncated-then-summed dot product: the quotient
/// scaled back differs from the dividend by less than the divisor, so
/// its product with a direction-sized factor stays within `2 * SCALE`
/// of the exact product, scaled by the divisor.
proof fn lemma_err_dot(u: int, p: int, n: int, l: int)
    requires
        l >= 1,
        p >= 0 ==> 0 <= u * l <= p && p < u * l + l,
        p < 0 ==> p <= u * l <= 0 && u * l < p + l,
        -2 * (SCALE as int) <= n <= 2 * (SCALE as int),
    ensures
        p * n - l * (2 * (SCALE as int)) <= (u * l) * n <= p * n + l * (2 * (SCALE as int)),
{
    assert(p * n - l * (2 * (SCALE as int)) <= (u * l) * n <= p * n + l * (2 * (SCALE as int)))
        by (nonlinear_arith)
        requires
            l >= 1,
            p - l < u * l <= p || p <= u * l < p + l,
            -2 * (SCALE as int) <= n <= 2 * (SCALE as int),
    ;
}

/// The unit-length law of normalization: for a vector at least about
/// seven tenths long, the fixed-point squared length of its
/// normalization is one to within a few raw units — the three truncated
/// component divisions together lose almost nothing of the length.
#[verifier::rlimit(50)]
pub proof fn lemma_unit_length_tolerance(v: Float3)
    requires
        bounded(v, 0x40_0000_0000),
        dot_s(v, v) >= SCALE as int / 6,
    ensures
        SCALE as int - 16 <= dot_s(unit_s(v), unit_s(v)) <= SCALE as int + 16,
{
    let s = SCALE as int;
    let sig = dot_raw(v, v);
    let lsq = dot_s(v, v);
    let l = len_s(v);
    assert(v.x * v.x >= 0 && v.y * v.y >= 0 && v.z * v.z >= 0) by (nonlinear_arith);
    lemma_tdiv_bound(sig, s);
    lemma_isqrt(lsq * s);
    assert(lsq * s <= sig < lsq * s + s) by (nonlinear_arith)
        requires
            sig >= 0,
            lsq == sig / s,
            s == 65536,
    ;
    assert(l >= 26754) by (nonlinear_arith)
        requires
            l >= 0,
            (l + 1) * (l + 1) > lsq * s,
            lsq >= s / 6,
            s == 65536,
    ;
    let ax = if v.x >= 0 {
        v.x as int
    } else {
        -v.x as int
    };
    let ay = if v.y >= 0 {
        v.y as int
    } else {
        -v.y as int
    };
    let az = if v.z >= 0 {
        v.z as int
    } else {
        -v.z as int
    };
    assert(ax * ax == v.x * v.x && ay * ay == v.y * v.y && az * az == v.z * v.z)
        by (nonlinear_arith)
        requires
            ax == if v.x >= 0 { v.x as int } else { -v.x as int },
            ay == if v.y >= 0 { v.y as int } else { -v.y as int },
            az == if v.z >= 0 { v.z as int } else { -v.z as int },
    ;
    // Component magnitudes are at most l + 256.
    assert(ax <= l + 256 && ay <= l + 256 && az <= l + 256) by (nonlinear_arith)
        requires
            ax * ax <= sig,
            ay * ay <= sig,
            az * az <= sig,
            sig < (l + 1) * (l + 1) + s,
            ax >= 0,
            ay >= 0,
            az >= 0,
            l >= 26754,
            s == 65536,
            ax == if v.x >= 0 { v.x as int } else { -v.x as int },
            ay == if v.y >= 0 { v.y as int } else { -v.y as int },
            az == if v.z >= 0 { v.z as int } else { -v.z as int },
            sig == v.x * v.x + v.y * v.y + v.z * v.z,
    ;
    assert(ax * s == (if (v.x * s) >= 0 { v.x * s } else { -(v.x * s) }) && ay * s == (if (v.y
        * s) >= 0 { v.y * s } else { -(v.y * s) }) && az * s == (if (v.z * s) >= 0 { v.z * s
    } else { -(v.z * s) })) by (nonlinear_arith)
        requires
            s == 65536,
            ax == if v.x >= 0 { v.x as int } else { -v.x as int },
            ay == if v.y >= 0 { v.y as int } else { -v.y as int },
            az == if v.z >= 0 { v.z as int } else { -v.z as int },
    ;
    lemma_tdiv_sq_err(v.x * s, l, ax * s);
    lemma_tdiv_sq_err(v.y * s, l, ay * s);
    lemma_tdiv_sq_err(v.z * s, l, az * s);
    let ux = fxdiv(v.x as int, l);
    let uy = fxdiv(v.y as int, l);
    let uz = fxdiv(v.z as int, l);
    let usq = ux * ux + uy * uy + uz * uz;
    lemma_tdiv_bound(v.x * s, l);
    lemma_tdiv_bound(v.y * s, l);
    lemma_tdiv_bound(v.z * s, l);
    lemma_abs_mul(v.x as int, s, 0x40_0000_0000, 65536);
    lemma_abs_mul(v.y as int, s, 0x40_0000_0000, 65536);
    lemma_abs_mul(v.z as int, s, 0x40_0000_0000, 65536);
    assert(unit_s(v).x == ux && unit_s(v).y == uy && unit_s(v).z == uz);
    assert(dot_s(unit_s(v), unit_s(v)) == tdiv(usq, s));
    assert(l < 0x1_0000_0000_0000) by (nonlinear_arith)
        requires
            l >= 0,
            l * l <= lsq * s <= sig,
            sig == v.x * v.x + v.y * v.y + v.z * v.z,
            -0x40_0000_0000 <= v.x <= 0x40_0000_0000,
            -0x40_0000_0000 <= v.y <= 0x40_0000_0000,
            -0x40_0000_0000 <= v.z <= 0x40_0000_0000,
    ;
    // Scale the per-component bounds up by l * l and sum them.
    assert(usq * (l * l) == (ux * ux) * (l * l) + (uy * uy) * (l * l) + (uz * uz) * (l * l))
        by (nonlinear_arith)
        requires
            usq == ux * ux + uy * uy + uz * uz,
    ;
    assert((s * s) * sig == (v.x * s) * (v.x * s) + (v.y * s) * (v.y * s) + (v.z * s) * (v.z
        * s)) by (nonlinear_arith)
        requires
            sig == v.x * v.x + v.y * v.y + v.z * v.z,
    ;
    assert(2 * ((ax + ay + az) * (s * l)) == 2 * ((ax * s) * l) + 2 * ((ay * s) * l) + 2 * ((az
        * s) * l)) by (nonlinear_arith);
    assert((s * s) * sig - 2 * ((ax + ay + az) * (s * l)) <= usq * (l * l) <= (s * s) * sig + 3 * (
    l * l));
    // Divide through by l * l, one side at a time.
    assert((s * s) * sig <= (s * s) * ((l + 1) * (l + 1) + s - 1)) by (nonlinear_arith)
        requires
            sig <= (l + 1) * (l + 1) + s - 1,
            s == 65536,
    ;
    assert((s * s + 13 * s + 1) * (l * l) > (s * s) * ((l + 1) * (l + 1) + s - 1) + 3 * (l * l))
        by (nonlinear_arith)
        requires
            26754 <= l < 0x1_0000_0000_0000,
            s == 65536,
    ;
    assert(usq <= s * s + 13 * s) by (nonlinear_arith)
        requires
            usq * (l * l) <= (s * s) * sig + 3 * (l * l),
            (s * s) * sig <= (s * s) * ((l + 1) * (l + 1) + s - 1),
            (s * s + 13 * s + 1) * (l * l) > (s * s) * ((l + 1) * (l + 1) + s - 1) + 3 * (l * l),
            l >= 1,
    ;
    assert((s * s) * sig >= (s * s) * (l * l)) by (nonlinear_arith)
        requires
            sig >= l * l,
            s == 65536,
    ;
    assert(2 * ((ax + ay + az) * (s * l)) <= 2 * ((3 * l + 768) * (s * l))) by (nonlinear_arith)
        requires
            0 <= ax + ay + az <= 3 * l + 768,
            l >= 1,
            s == 65536,
    ;
    assert((s * s - 7 * s - 1) * (l * l) < (s * s) * (l * l) - 2 * ((3 * l + 768) * (s * l)))
        by (nonlinear_arith)
        requires
            l >= 26754,
            s == 65536,
    ;
    assert(usq >= s * s - 7 * s) by (nonlinear_arith)
        requires
            usq * (l * l) >= (s * s) * sig - 2 * ((ax + ay + az) * (s * l)),
            (s * s) * sig >= (s * s) * (l * l),
            2 * ((ax + ay + az) * (s * l)) <= 2 * ((3 * l + 768) * (s * l)),
            (s * s - 7 * s - 1) * (l * l) < (s * s) * (l * l) - 2 * ((3 * l + 768) * (s * l)),
            l >= 1,
    ;
    lemma_tdiv_mono_gen(s * s - 7 * s, usq, s);
    lemma_tdiv_mono_gen(usq, s * s + 13 * s, s);
    assert(tdiv(s * s - 7 * s, s) == s - 7) by {
        lemma_tdiv_exact(s - 7, s);
        assert((s - 7) * s == s * s - 7 * s) by (nonlinear_arith);
    }
    assert(tdiv(s * s + 13 * s, s) == s + 13) by {
        lemma_tdiv_exact(s + 13, s);
        assert((s + 13) * s == s * s + 13 * s) by (nonlinear_arith);
    }
}

/// Inside `normalize`: every component magnitude is at most twice the
/// computed length, so the normalized components stay within `2 * SCALE`.
pub proof fn lemma_normalize_bounds(v: Float3)
    requires
        bounded(v, 0x40_0000_0000),
        dot_s(v, v) >= 1,
    ensures
        len_s(v) >= 256,
        -2 * len_s(v) <= v.x <= 2 * len_s(v),
        -2 * len_s(v) <= v.y <= 2 * len_s(v),
        -2 * len_s(v) <= v.z <= 2 * len_s(v),
        -2 * (SCALE as int) <= fxdiv(v.x as int, len_s(v)) <= 2 * (SCALE as int),
        -2 * (SCALE as int) <= fxdiv(v.y as int, len_s(v)) <= 2 * (SCALE as int),
        -2 * (SCALE as int) <= fxdiv(v.z as int, len_s(v)) <= 2 * (SCALE as int),
{
    let sig = dot_raw(v, v);
    let lsq = dot_s(v, v);
    let l = len_s(v);
    lemma_isqrt(lsq * (SCALE as int));
    assert(l >= 256) by (nonlinear_arith)
        requires
            l >= 0,
            (l + 1) * (l + 1) > lsq * (SCALE as int),
            lsq >= 1,
            SCALE == 65536,
    ;
    // sig < (lsq + 1) * SCALE, and lsq * SCALE < (l + 1) * (l + 1)
    assert(lsq * (SCALE as int) <= sig < (lsq + 1) * (SCALE as int)) by (nonlinear_arith)
        requires
            sig >= 0,
            lsq == sig / (SCALE as int),
            SCALE == 65536,
    ;
    assert(v.x * v.x <= sig && v.y * v.y <= sig && v.z * v.z <= sig) by (nonlinear_arith)
        requires
            sig == v.x * v.x + v.y * v.y + v.z * v.z,
    ;
    lemma_comp_le_twice_len(v.x as int, sig, l);
    lemma_comp_le_twice_len(v.y as int, sig, l);
    lemma_comp_le_twice_len(v.z as int, sig, l);
    lemma_unit_comp_bound(v.x as int, l);
    lemma_unit_comp_bound(v.y as int, l);
    lemma_unit_comp_bound(v.z as int, l);
}

/// A component whose square is below `sig` is at most twice `l` when
/// `(l + 1)^2` exceeds `sig - SCALE`.
proof fn lemma_comp_le_twice_len(x: int, sig: int, l: int)
    requires
        x * x <= sig,
        sig < (l + 1) * (l + 1) + 2 * (SCALE as int),
        l >= 256,
    ensures
        -2 * l <= x <= 2 * l,
{
    assert(-2 * l <= x <= 2 * l) by (nonlinear_arith)
        requires
            x * x <= sig,
            sig < (l + 1) * (l + 1) + 2 * (SCALE as int),
            l >= 256,
            SCALE == 65536,
    ;
}

/// Dividing a component of magnitude at most `2 * l` by length `l` stays
/// within twice the unit scale.
proof fn lemma_unit_comp_bound(x: int, l: int)
    requires
        l >= 1,
        -2 * l <= x <= 2 * l,
    ensures
        -2 * (SCALE as int) <= fxdiv(x, l) <= 2 * (SCALE as int),
{
    assert(x >= 0 ==> (x * (SCALE as int)) / l <= 2 * (SCALE as int)) by (nonlinear_arith)
        requires
            l >= 1,
            0 <= x ==> x <= 2 * l,
            SCALE == 65536,
    ;
    assert(x < 0 ==> ((-x) * (SCALE as int)) / l <= 2 * (SCALE as int)) by (nonlinear_arith)
        requires
            l >= 1,
            x < 0 ==> -x <= 2 * l,
            SCALE == 65536,
    ;
    if x >= 0 {
        lemma_tdiv_bound(x * (SCALE as int), l);
    } else {
        lemma_tdiv_bound(x * (SCALE as int), l);
    }
}

} // verus!
