use vstd::prelude::*;
use crate::fx::{SCALE, tdiv, fxmul, mul_fx, lemma_abs_mul, lemma_tdiv_bound, lemma_tdiv_mono,
    lemma_tdiv_exact};
use crate::vec3::{Float3, bounded, dot_s};

verus! {

/// Relies on `rand::random` with the `StandardUniform` distribution on
/// `u32`, which returns some 32-bit value drawn fresh on every call;
/// nothing is assumed about which one.
#[verifier::external_body]
fn random_u32() -> u32 {
    rand::random::<u32>()
}

/// One uniform fixed-point draw in `[0, 1)`.
pub fn random_fx() -> (r: i64)
    ensures
        0 <= r < SCALE,
{
    let w: i64 = random_u32() as i64;
    w % SCALE
}

/// Scaling a draw from `[0, 1)` by a non-negative span stays within the
/// span.
proof fn lemma_unit_scale(r: int, d: int)
    requires
        0 <= r < SCALE as int,
        0 <= d <= 0x8000_0000,
    ensures
        0 <= fxmul(r, d) <= d,
{
    lemma_abs_mul(r, d, SCALE as int, 0x8000_0000);
    assert(r * d >= 0 && r * d <= (SCALE as int) * d) by (nonlinear_arith)
        requires
            0 <= r < SCALE as int,
            0 <= d,
    ;
    lemma_tdiv_bound(r * d, SCALE as int);
    lemma_tdiv_mono(r * d, (SCALE as int) * d, SCALE as int);
    lemma_tdiv_exact(d, SCALE as int);
}

impl Float3 {
    /// A point drawn uniformly from the unit cube `[0, 1)^3`.
    pub fn random() -> (r: Self)
        ensures
            bounded(r, SCALE as int),
            0 <= r.x < SCALE,
            0 <= r.y < SCALE,
            0 <= r.z < SCALE,
    {
        Float3::new(random_fx(), random_fx(), random_fx())
    }

    /// One draw from `[0, 1)` copied into all three components.
    pub fn random_full() -> (r: Self)
        ensures
            0 <= r.x < SCALE,
            r.y == r.x,
            r.z == r.x,
    {
        let v: i64 = random_fx();
        Float3::full(v)
    }

    /// A point drawn from the cube `[min, max)^3`.
    pub fn random_limit(min: i64, max: i64) -> (r: Self)
        requires
            -0x4000_0000 <= min <= max <= 0x4000_0000,
        ensures
            bounded(r, 0x8000_0000),
            min <= r.x <= max,
            min <= r.y <= max,
            min <= r.z <= max,
    {
        let span: i64 = max - min;
        let p: Float3 = Float3::random();
        proof {
            lemma_unit_scale(p.x as int, span as int);
            lemma_unit_scale(p.y as int, span as int);
            lemma_unit_scale(p.z as int, span as int);
            lemma_abs_mul(p.x as int, span as int, SCALE as int, 0x8000_0000);
            lemma_abs_mul(p.y as int, span as int, SCALE as int, 0x8000_0000);
            lemma_abs_mul(p.z as int, span as int, SCALE as int, 0x8000_0000);
        }
        Float3::new(
            min + mul_fx(p.x, span),
            min + mul_fx(p.y, span),
            min + mul_fx(p.z, span),
        )
    }

    /// A point inside the open unit ball, found by rejection sampling over
    /// the cube `[-1, 1)^3`; after too many rejections an interior fallback
    /// point is used so that the function always returns.
    pub fn random_in_unit_sphere() -> (r: Self)
        ensures
            bounded(r, SCALE as int),
            0 <= dot_s(r, r) < SCALE,
    {
        let mut tries: u32 = 0;
        while tries < 64
            invariant
                tries <= 64,
            decreases 64 - tries,
        {
            let p: Float3 = Float3::random_limit(-SCALE, SCALE);
            let lsq: i64 = p.length_squared();
            if lsq < SCALE {
                return p;
            }
            tries = tries + 1;
        }
        let fb: Float3 = Float3::new(SCALE / 2, 0, 0);
        proof {
            assert(dot_s(fb, fb) == tdiv(32768int * 32768, 65536int));
        }
        fb
    }

    /// A direction distributed roughly as a cosine-weighted sample about
    /// the local z-axis: the unit offset construction (`z + unit ball
    /// point, renormalized`), with the z-axis as fallback for degenerate
    /// draws.
    pub fn random_cosine_direction() -> (r: Self)
        ensures
            bounded(r, 2 * SCALE as int),
            !(r.x == 0 && r.y == 0 && r.z == 0),
    {
        let s: Float3 = Float3::random_in_unit_sphere();
        let u: Float3 = s.normalize_or(Float3::zaxis());
        let d: Float3 = Float3::zaxis().add(u);
        let out: Float3 = d.normalize_or(Float3::zaxis());
        if out.near_zero() {
            Float3::zaxis()
        } else {
            out
        }
    }
}

} // verus!
