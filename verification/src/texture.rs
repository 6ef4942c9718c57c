use vstd::prelude::*;
use crate::fx::{SCALE, PI_FX, fxmul, mul_fx, floor_div, lemma_abs_mul, lemma_tdiv_bound};
use crate::vec3::{Float3, Color, bounded};

verus! {

/// A surface color source: either one constant color, or a 3-D
/// checkerboard choosing between two colors by the sign of
/// `sin(freq*x) * sin(freq*y) * sin(freq*z)` at the world point.
#[derive(Clone, Copy, PartialEq, Eq, Structural, Debug)]
pub enum Texture {
    Constant { color: Color },
    Checker { odd: Color, even: Color, freq: i64 },
}

/// Which half-turn band of the sine a scaled coordinate falls in.
pub open spec fn band_s(c: int, freq: int) -> int {
    fxmul(c, freq) / (PI_FX as int)
}

/// The sine of a coordinate scaled by `freq` is negative exactly on the
/// odd half-turn bands.
pub open spec fn band_odd(b: int) -> bool {
    b % 2 == 1
}

/// The sign of the triple sine product: true when an odd number of the
/// three factors is negative.
pub open spec fn checker_odd_s(p: Float3, freq: int) -> bool {
    (band_odd(band_s(p.x as int, freq)) != band_odd(band_s(p.y as int, freq))) != band_odd(
        band_s(p.z as int, freq),
    )
}

/// What a texture yields for texture coordinates `u`, `v` at world point
/// `p`. The constant texture ignores all inputs; the checker reads only
/// the world point.
pub open spec fn texture_value_s(t: Texture, u: int, v: int, p: Float3) -> Float3 {
    match t {
        Texture::Constant { color } => color,
        Texture::Checker { odd, even, freq } => if checker_odd_s(p, freq as int) {
            odd
        } else {
            even
        },
    }
}

/// Textures the renderer accepts: colors of sane magnitude and a
/// non-negative checker frequency.
pub open spec fn texture_wf(t: Texture) -> bool {
    match t {
        Texture::Constant { color } => bounded(color, 0x8000_0000),
        Texture::Checker { odd, even, freq } => bounded(odd, 0x8000_0000) && bounded(
            even,
            0x8000_0000,
        ) && 0 <= freq <= 0x800_0000,
    }
}

/// Whether an integer is odd, for either sign.
fn is_odd(b: i64) -> (r: bool)
    ensures
        r <==> band_odd(b as int),
{
    if b >= 0 {
        b % 2 == 1
    } else {
        let m: i64 = b % 2;
        proof {
            assert(((-(b as int)) % 2 == 1) <==> (b as int % 2 == 1)) by (nonlinear_arith)
                requires
                    b < 0,
            ;
        }
        m != 0
    }
}

impl Texture {
    /// The color of the texture at coordinates `(u, v)` and world point
    /// `p`.
    pub fn value(&self, u: i64, v: i64, p: Float3) -> (r: Color)
        requires
            texture_wf(*self),
            bounded(p, 0x8_0000_0000),
        ensures
            r == texture_value_s(*self, u as int, v as int, p),
    {
        match self {
            Texture::Constant { color } => *color,
            Texture::Checker { odd, even, freq } => {
                let bx: i64 = band_of(p.x, *freq);
                let by: i64 = band_of(p.y, *freq);
                let bz: i64 = band_of(p.z, *freq);
                let negative: bool = (is_odd(bx) ^ is_odd(by)) ^ is_odd(bz);
                if negative {
                    *odd
                } else {
                    *even
                }
            },
        }
    }
}

/// The sine band of one coordinate scaled by `freq`.
fn band_of(c: i64, freq: i64) -> (r: i64)
    requires
        -0x8_0000_0000 <= c <= 0x8_0000_0000,
        0 <= freq <= 0x800_0000,
    ensures
        r == band_s(c as int, freq as int),
{
    proof {
        lemma_abs_mul(c as int, freq as int, 0x8_0000_0000, 0x800_0000);
        lemma_tdiv_bound(c * freq, SCALE as int);
    }
    let scaled: i64 = mul_fx(c, freq);
    floor_div(scaled, PI_FX)
}

} // verus!
