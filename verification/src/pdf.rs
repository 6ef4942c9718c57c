use vstd::prelude::*;
use crate::fx::{SCALE, FRAC_1_PI_FX, fxmul, mul_fx, lemma_abs_mul, lemma_tdiv_shrink};
use crate::vec3::{Float3, bounded, dot_s, dot_raw, unit_s, zaxis_s, zero_s, lemma_dot_raw_bound};
use crate::onb::{Onb, onb_s, local_s};
use crate::shape::HitInfo;

verus! {

/// The cosine-weighted importance-sampling density anchored at a hit's
/// surface normal.
#[derive(Clone, Copy, PartialEq, Eq, Structural, Debug)]
pub struct CosinePdf {}

/// The density the cosine distribution assigns to a direction:
/// `cos(theta) / pi` against the normal, and zero on the back side.
pub open spec fn cosine_pdf_value_s(n: Float3, direction: Float3) -> int {
    let u = if dot_s(direction, direction) >= 1 {
        unit_s(direction)
    } else {
        zaxis_s()
    };
    let c = dot_s(u, n);
    if c > 0 {
        fxmul(c, FRAC_1_PI_FX as int)
    } else {
        0
    }
}

impl CosinePdf {
    pub fn new() -> (r: Self)
        ensures
            r == (CosinePdf {  }),
    {
        CosinePdf {  }
    }

    /// The density under which this distribution would sample
    /// `direction` at `hit`.
    pub fn value(&self, hit: &HitInfo, direction: Float3) -> (r: i64)
        requires
            bounded(hit.n, 2 * SCALE as int),
            bounded(direction, 0x40_0000_0000),
        ensures
            r == cosine_pdf_value_s(hit.n, direction),
            0 <= r <= 0x4_0000_0000,
    {
        let u: Float3 = direction.normalize_or(Float3::zaxis());
        proof {
            lemma_dot_raw_bound(u, hit.n, 2 * SCALE as int, 2 * SCALE as int);
            assert(3 * ((2 * SCALE as int) * (2 * SCALE as int)) == (12 * SCALE as int) * (
            SCALE as int)) by (nonlinear_arith)
                requires
                    SCALE == 65536,
            ;
            lemma_tdiv_shrink(dot_raw(u, hit.n), SCALE as int, 12 * SCALE as int);
        }
        let c: i64 = u.dot(hit.n);
        if c > 0 {
            proof {
                lemma_abs_mul(c as int, FRAC_1_PI_FX as int, 12 * SCALE as int, 20861);
                lemma_tdiv_shrink(c * FRAC_1_PI_FX, SCALE as int, 0x4_0000_0000);
                crate::fx::lemma_tdiv_bound(c * FRAC_1_PI_FX, SCALE as int);
            }
            mul_fx(c, FRAC_1_PI_FX)
        } else {
            0
        }
    }

    /// Draw a direction about the hit normal, cosine-weighted: some
    /// nonzero sampled local direction, mapped through the normal's
    /// frame.
    pub fn generate(&self, hit: &HitInfo) -> (r: Float3)
        requires
            bounded(hit.n, 2 * SCALE as int),
        ensures
            bounded(r, 26 * SCALE as int),
            exists|w: Float3|
                bounded(w, 2 * SCALE as int) && !(w == zero_s()) && r == #[trigger] local_s(
                    onb_s(hit.n),
                    w,
                ),
    {
        let basis = Onb::new(hit.n);
        let sampled: Float3 = Float3::random_cosine_direction();
        proof {
            crate::onb::lemma_local_bound(basis, sampled);
        }
        let r = basis.local(sampled);
        proof {
            assert(r == local_s(onb_s(hit.n), sampled));
        }
        r
    }
}

} // verus!
