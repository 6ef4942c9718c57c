use vstd::prelude::*;

verus! {

/// Number of raw units in one whole unit of the fixed-point scalar.
/// A raw value `x: i64` denotes the real number `x / SCALE`.
pub const SCALE: i64 = 65536;

/// One half turn in fixed-point radians.
pub const PI_FX: i64 = 205887;

/// The reciprocal of a half turn, in fixed point.
pub const FRAC_1_PI_FX: i64 = 20861;

/// Truncating (round-toward-zero) division, the rounding used by every
/// fixed-point operation of this crate; `d` is expected positive.
/// This matches what the machine division of the executable code computes.
pub open spec fn tdiv(a: int, d: int) -> int {
    if a >= 0 {
        a / d
    } else {
        -((-a) / d)
    }
}

/// The fixed-point product of two raw values: `(a * b) / SCALE`, truncated.
pub open spec fn fxmul(a: int, b: int) -> int {
    tdiv(a * b, SCALE as int)
}

/// The fixed-point quotient of two raw values: `(a * SCALE) / b`, truncated.
pub open spec fn fxdiv(a: int, b: int) -> int {
    tdiv(a * (SCALE as int), b)
}

/// Integer square root, defined by recursion; `isqrt_s(n)` is the greatest
/// `r >= 0` with `r * r <= n` (and `0` for negative `n`).
pub open spec fn isqrt_s(n: int) -> int
    decreases n,
{
    if n < 1 {
        0
    } else {
        if (isqrt_s(n - 1) + 1) * (isqrt_s(n - 1) + 1) <= n {
            isqrt_s(n - 1) + 1
        } else {
            isqrt_s(n - 1)
        }
    }
}

/// The fixed-point square root of a raw value `a >= 0`: the raw value of
/// `sqrt(a / SCALE)` rounded down, which is `isqrt(a * SCALE)`.
pub open spec fn fxsqrt(a: int) -> int {
    isqrt_s(a * (SCALE as int))
}

/// `isqrt_s` satisfies the defining bracketing of the integer square root.
pub proof fn lemma_isqrt(n: int)
    requires
        n >= 0,
    ensures
        isqrt_s(n) >= 0,
        isqrt_s(n) * isqrt_s(n) <= n,
        n < (isqrt_s(n) + 1) * (isqrt_s(n) + 1),
    decreases n,
{
    if n >= 1 {
        lemma_isqrt(n - 1);
        let s = isqrt_s(n - 1);
        if (s + 1) * (s + 1) <= n {
            assert((s + 1 + 1) * (s + 1 + 1) > (s + 1) * (s + 1) + 1) by (nonlinear_arith)
                requires
                    s >= 0,
            ;
        }
    }
}

/// The bracketing determines the integer square root uniquely.
pub proof fn lemma_isqrt_unique(n: int, r: int)
    requires
        n >= 0,
        r >= 0,
        r * r <= n,
        n < (r + 1) * (r + 1),
    ensures
        r == isqrt_s(n),
{
    lemma_isqrt(n);
    let s = isqrt_s(n);
    if r < s {
        assert((r + 1) * (r + 1) <= s * s) by (nonlinear_arith)
            requires
                0 <= r,
                r + 1 <= s,
        ;
    }
    if s < r {
        assert((s + 1) * (s + 1) <= r * r) by (nonlinear_arith)
            requires
                0 <= s,
                s + 1 <= r,
        ;
    }
}

/// Truncating division shrinks magnitudes: the quotient lies between 0 and
/// the dividend.
pub proof fn lemma_tdiv_bound(a: int, d: int)
    requires
        d >= 1,
    ensures
        a >= 0 ==> 0 <= tdiv(a, d) <= a,
        a <= 0 ==> a <= tdiv(a, d) <= 0,
{
    if a >= 0 {
        assert(0 <= a / d <= a) by (nonlinear_arith)
            requires
                a >= 0,
                d >= 1,
        ;
    } else {
        assert(0 <= (-a) / d <= -a) by (nonlinear_arith)
            requires
                -a >= 0,
                d >= 1,
        ;
    }
}

/// Dividing an exact multiple is exact.
pub proof fn lemma_tdiv_exact(a: int, d: int)
    requires
        d >= 1,
    ensures
        tdiv(a * d, d) == a,
{
    if a >= 0 {
        assert((a * d) / d == a) by (nonlinear_arith)
            requires
                a >= 0,
                d >= 1,
        ;
    } else {
        assert(((-a) * d) / d == -a) by (nonlinear_arith)
            requires
                -a >= 0,
                d >= 1,
        ;
        assert(-(a * d) == (-a) * d) by (nonlinear_arith);
    }
}

/// A product is bounded by the product of the factors' bounds.
pub proof fn lemma_abs_mul(a: int, b: int, bound_a: int, bound_b: int)
    requires
        -bound_a <= a <= bound_a,
        -bound_b <= b <= bound_b,
    ensures
        -(bound_a * bound_b) <= a * b <= bound_a * bound_b,
{
    assert(-(bound_a * bound_b) <= a * b <= bound_a * bound_b) by (nonlinear_arith)
        requires
            -bound_a <= a <= bound_a,
            -bound_b <= b <= bound_b,
    ;
}

/// Truncating division is monotone on non-negative dividends.
pub proof fn lemma_tdiv_mono(a: int, b: int, d: int)
    requires
        0 <= a <= b,
        d >= 1,
    ensures
        tdiv(a, d) <= tdiv(b, d),
{
    assert(a / d <= b / d) by (nonlinear_arith)
        requires
            0 <= a <= b,
            d >= 1,
    ;
}

/// A dividend below `c * d` in magnitude divides to a quotient below `c`.
pub proof fn lemma_tdiv_shrink(p: int, d: int, c: int)
    requires
        d >= 1,
        c >= 0,
        -(c * d) <= p <= c * d,
    ensures
        -c <= tdiv(p, d) <= c,
{
    lemma_tdiv_exact(c, d);
    if p >= 0 {
        lemma_tdiv_mono(p, c * d, d);
        lemma_tdiv_bound(p, d);
    } else {
        lemma_tdiv_mono(-p, c * d, d);
        lemma_tdiv_bound(p, d);
    }
}

/// Truncating division is monotone for dividends of any sign.
pub proof fn lemma_tdiv_mono_gen(a: int, b: int, d: int)
    requires
        a <= b,
        d >= 1,
    ensures
        tdiv(a, d) <= tdiv(b, d),
{
    if a >= 0 {
        lemma_tdiv_mono(a, b, d);
    } else if b >= 0 {
        lemma_tdiv_bound(a, d);
        lemma_tdiv_bound(b, d);
    } else {
        lemma_tdiv_mono(-b, -a, d);
    }
}

/// The fixed-point product is monotone in both factors on non-negative
/// values.
pub proof fn lemma_fxmul_mono_nonneg(a1: int, a2: int, b1: int, b2: int)
    requires
        0 <= a1 <= a2,
        0 <= b1 <= b2,
    ensures
        0 <= fxmul(a1, b1) <= fxmul(a2, b2),
{
    assert(0 <= a1 * b1 <= a2 * b2) by (nonlinear_arith)
        requires
            0 <= a1 <= a2,
            0 <= b1 <= b2,
    ;
    lemma_tdiv_mono(a1 * b1, a2 * b2, SCALE as int);
    lemma_tdiv_bound(a1 * b1, SCALE as int);
}

/// The fixed-point product of two raw values.
pub fn mul_fx(a: i64, b: i64) -> (r: i64)
    requires
        -0x4000_0000_0000_0000 <= a * b <= 0x4000_0000_0000_0000,
    ensures
        r == fxmul(a as int, b as int),
{
    let p: i128 = (a as i128) * (b as i128);
    proof {
        lemma_tdiv_bound(p as int, SCALE as int);
    }
    (p / (SCALE as i128)) as i64
}

/// The fixed-point quotient `a / b` of two raw values; `b` must be positive.
pub fn div_fx(a: i64, b: i64) -> (r: i64)
    requires
        b >= 1,
        -0x4000_0000_0000 <= a <= 0x4000_0000_0000,
    ensures
        r == fxdiv(a as int, b as int),
{
    let p: i128 = (a as i128) * (SCALE as i128);
    proof {
        assert(p == a * (SCALE as int) && -0x4000_0000_0000_0000 <= p <= 0x4000_0000_0000_0000)
            by (nonlinear_arith)
            requires
                p == (a as i128) * (SCALE as i128),
                -0x4000_0000_0000 <= a <= 0x4000_0000_0000,
                SCALE == 65536,
        ;
        lemma_tdiv_bound(p as int, b as int);
    }
    (p / (b as i128)) as i64
}

/// Integer square root of a 128-bit value below `2^124`.
pub fn isqrt_u128(n: u128) -> (r: u128)
    requires
        n < 0x1000_0000_0000_0000_0000_0000_0000_0000,
    ensures
        r * r <= n < (r + 1) * (r + 1),
{
    let mut lo: u128 = 0;
    let mut hi: u128 = 0x4000_0000_0000_0000;
    assert(hi * hi > n) by (nonlinear_arith)
        requires
            hi == 0x4000_0000_0000_0000,
            n < 0x1000_0000_0000_0000_0000_0000_0000_0000,
    ;
    while hi - lo > 1
        invariant
            lo < hi,
            lo * lo <= n,
            n < hi * hi,
            hi <= 0x4000_0000_0000_0000,
        decreases hi - lo,
    {
        let mid: u128 = lo + (hi - lo) / 2;
        assert(mid * mid <= 0x1000_0000_0000_0000_0000_0000_0000_0000) by (nonlinear_arith)
            requires
                mid <= 0x4000_0000_0000_0000,
        ;
        if mid * mid <= n {
            lo = mid;
        } else {
            hi = mid;
        }
    }
    lo
}

/// The fixed-point square root of a non-negative raw value.
pub fn sqrt_fx(a: i64) -> (r: i64)
    requires
        a >= 0,
    ensures
        r == fxsqrt(a as int),
        r >= 0,
        r * r <= a * SCALE < (r + 1) * (r + 1),
{
    proof {
        assert((a as u128) * (SCALE as u128) < 0x1_0000_0000_0000_0000_0000) by (nonlinear_arith)
            requires
                0 <= a < 0x8000_0000_0000_0000,
                SCALE == 65536,
        ;
    }
    let n: u128 = (a as u128) * (SCALE as u128);
    let r = isqrt_u128(n);
    proof {
        lemma_isqrt_unique(n as int, r as int);
        assert(r < 0x100_0000_0000) by (nonlinear_arith)
            requires
                r * r <= n < 0x1_0000_0000_0000_0000_0000,
        ;
    }
    r as i64
}

/// Flooring (round-toward-negative) division by a positive divisor,
/// which is what `/` means on mathematical integers in specifications.
pub fn floor_div(a: i64, d: i64) -> (r: i64)
    requires
        d >= 1,
        -0x4000_0000_0000_0000 <= a <= 0x4000_0000_0000_0000,
    ensures
        r == a as int / d as int,
{
    if a >= 0 {
        a / d
    } else {
        let m: i64 = -a;
        let q: i64 = m / d;
        let rem: i64 = m % d;
        proof {
            lemma_tdiv_bound(m as int, d as int);
            assert(m == q * d + rem && 0 <= rem < d) by (nonlinear_arith)
                requires
                    m >= 0,
                    d >= 1,
                    q == m as int / d as int,
                    rem == m as int % d as int,
            ;
            if rem == 0 {
                assert(a as int / d as int == -q) by (nonlinear_arith)
                    requires
                        a == -(q * d),
                        d >= 1,
                        q >= 0,
                ;
            } else {
                assert(a as int / d as int == -q - 1) by (nonlinear_arith)
                    requires
                        a == -(q * d + rem),
                        d >= 1,
                        q >= 0,
                        0 < rem < d,
                ;
            }
        }
        if rem == 0 {
            -q
        } else {
            -q - 1
        }
    }
}

/// The fifth power.
pub open spec fn pow5_s(r: int) -> int {
    ((r * r) * (r * r)) * r
}

/// The eleventh power.
pub open spec fn pow11_s(r: int) -> int {
    (((r * r) * (r * r)) * ((r * r) * (r * r))) * ((r * r) * r)
}

/// The fifth and eleventh powers are monotone on non-negative values.
pub proof fn lemma_pow_mono(a: int, b: int)
    requires
        0 <= a <= b,
    ensures
        0 <= pow5_s(a) <= pow5_s(b),
        0 <= pow11_s(a) <= pow11_s(b),
{
    let a2 = a * a;
    let b2 = b * b;
    assert(0 <= a2 <= b2) by (nonlinear_arith)
        requires
            0 <= a <= b,
            a2 == a * a,
            b2 == b * b,
    ;
    let a4 = a2 * a2;
    let b4 = b2 * b2;
    assert(0 <= a4 <= b4) by (nonlinear_arith)
        requires
            0 <= a2 <= b2,
            a4 == a2 * a2,
            b4 == b2 * b2,
    ;
    assert(0 <= a4 * a <= b4 * b) by (nonlinear_arith)
        requires
            0 <= a4 <= b4,
            0 <= a <= b,
    ;
    let a8 = a4 * a4;
    let b8 = b4 * b4;
    assert(0 <= a8 <= b8) by (nonlinear_arith)
        requires
            0 <= a4 <= b4,
            a8 == a4 * a4,
            b8 == b4 * b4,
    ;
    assert(0 <= a2 * a <= b2 * b) by (nonlinear_arith)
        requires
            0 <= a2 <= b2,
            0 <= a <= b,
    ;
    assert(0 <= a8 * (a2 * a) <= b8 * (b2 * b)) by (nonlinear_arith)
        requires
            0 <= a8 <= b8,
            0 <= a2 * a <= b2 * b,
    ;
}

/// The eleventh power grows strictly with its base.
pub proof fn lemma_pow11_strict(a: int, b: int)
    requires
        0 <= a < b,
    ensures
        pow11_s(a) < pow11_s(b),
{
    lemma_pow_mono(a, b);
    assert(pow11_s(a) < pow11_s(b)) by (nonlinear_arith)
        requires
            0 <= a < b,
            0 <= pow11_s(a) <= pow11_s(b),
            pow11_s(a) == (((a * a) * (a * a)) * ((a * a) * (a * a))) * ((a * a) * a),
            pow11_s(b) == (((b * b) * (b * b)) * ((b * b) * (b * b))) * ((b * b) * b),
    ;
}

/// The greatest value whose eleventh power does not exceed `n`.
pub open spec fn iroot11_s(n: int) -> int
    decreases n,
{
    if n < 1 {
        0
    } else {
        if pow11_s(iroot11_s(n - 1) + 1) <= n {
            iroot11_s(n - 1) + 1
        } else {
            iroot11_s(n - 1)
        }
    }
}

/// The greatest value whose fifth power does not exceed `n`.
pub open spec fn iroot5_s(n: int) -> int
    decreases n,
{
    if n < 1 {
        0
    } else {
        if pow5_s(iroot5_s(n - 1) + 1) <= n {
            iroot5_s(n - 1) + 1
        } else {
            iroot5_s(n - 1)
        }
    }
}

/// The fifth power grows strictly with its base.
pub proof fn lemma_pow5_strict(a: int, b: int)
    requires
        0 <= a < b,
    ensures
        pow5_s(a) < pow5_s(b),
{
    lemma_pow_mono(a, b);
    assert(pow5_s(a) < pow5_s(b)) by (nonlinear_arith)
        requires
            0 <= a < b,
            0 <= pow5_s(a) <= pow5_s(b),
            pow5_s(a) == ((a * a) * (a * a)) * a,
            pow5_s(b) == ((b * b) * (b * b)) * b,
    ;
}

/// `iroot11_s` satisfies the defining bracketing.
pub proof fn lemma_iroot11(n: int)
    requires
        n >= 0,
    ensures
        iroot11_s(n) >= 0,
        pow11_s(iroot11_s(n)) <= n,
        n < pow11_s(iroot11_s(n) + 1),
    decreases n,
{
    if n >= 1 {
        lemma_iroot11(n - 1);
        let s = iroot11_s(n - 1);
        if pow11_s(s + 1) <= n {
            lemma_pow11_strict(s + 1, s + 2);
        }
    }
}

/// The bracketing determines the integer eleventh root uniquely.
pub proof fn lemma_iroot11_unique(n: int, r: int)
    requires
        n >= 0,
        r >= 0,
        pow11_s(r) <= n,
        n < pow11_s(r + 1),
    ensures
        r == iroot11_s(n),
{
    lemma_iroot11(n);
    let s = iroot11_s(n);
    if r < s {
        lemma_pow_mono(r + 1, s);
    }
    if s < r {
        lemma_pow_mono(s + 1, r);
    }
}

/// `iroot5_s` satisfies the defining bracketing.
pub proof fn lemma_iroot5(n: int)
    requires
        n >= 0,
    ensures
        iroot5_s(n) >= 0,
        pow5_s(iroot5_s(n)) <= n,
        n < pow5_s(iroot5_s(n) + 1),
    decreases n,
{
    if n >= 1 {
        lemma_iroot5(n - 1);
        let s = iroot5_s(n - 1);
        if pow5_s(s + 1) <= n {
            lemma_pow5_strict(s + 1, s + 2);
        }
    }
}

/// The bracketing determines the integer fifth root uniquely.
pub proof fn lemma_iroot5_unique(n: int, r: int)
    requires
        n >= 0,
        r >= 0,
        pow5_s(r) <= n,
        n < pow5_s(r + 1),
    ensures
        r == iroot5_s(n),
{
    lemma_iroot5(n);
    let s = iroot5_s(n);
    if r < s {
        lemma_pow_mono(r + 1, s);
    }
    if s < r {
        lemma_pow_mono(s + 1, r);
    }
}

/// The eleventh power of a value up to 257, exactly.
fn pow11_u128(r: u128) -> (p: u128)
    requires
        r <= 257,
    ensures
        p == pow11_s(r as int),
{
    proof {
        assert(r * r <= 66049 && (r * r) * (r * r) <= 0x1_0421_1000_1881 && ((r * r) * (r * r))
            * ((r * r) * (r * r)) < 0x2_0000_0000_0000_0000_0000 && (r * r) * r
            < 0x2_0000_0000 && (((r * r) * (r * r)) * ((r * r) * (r * r))) * ((r * r) * r)
            < 0x1_0000_0000_0000_0000_0000_0000_0000_0000) by (nonlinear_arith)
            requires
                r <= 257,
        ;
    }
    let r2: u128 = r * r;
    let r4: u128 = r2 * r2;
    let r8: u128 = r4 * r4;
    r8 * (r2 * r)
}

/// The fifth power of a value up to 257, exactly.
fn pow5_u128(r: u128) -> (p: u128)
    requires
        r <= 257,
    ensures
        p == pow5_s(r as int),
{
    proof {
        assert(r * r <= 66049 && (r * r) * (r * r) <= 0x1_0421_1000_1881 && ((r * r) * (r * r))
            * r < 0x1_0000_0000_0000_0000) by (nonlinear_arith)
            requires
                r <= 257,
        ;
    }
    let r2: u128 = r * r;
    ((r2) * (r2)) * r
}

/// Gamma-encode one channel with the display exponent five elevenths
/// (one over 2.2): the eleventh root of the fifth power, evaluated at
/// byte-level precision so that every power fits a machine word.
pub fn gamma22_fx(x: i64) -> (r: i64)
    requires
        0 <= x <= SCALE,
    ensures
        r == 256 * iroot11_s(pow5_s(x as int / 256) * 0x1_0000_0000_0000),
        0 <= r <= SCALE,
{
    let x8: i64 = x / 256;
    let x8u: u128 = x8 as u128;
    proof {
        assert(x8u * x8u <= 65536 && (x8u * x8u) * (x8u * x8u) <= 0x1_0000_0000 && (((x8u * x8u)
            * (x8u * x8u)) * x8u) <= 0x100_0000_0000) by (nonlinear_arith)
            requires
                x8u <= 256,
        ;
    }
    let n: u128 = (((x8u * x8u) * (x8u * x8u)) * x8u) * 0x1_0000_0000_0000;
    let mut lo: u128 = 0;
    let mut hi: u128 = 257;
    proof {
        assert(pow11_s(0) == 0 && n < pow11_s(257)) by (nonlinear_arith)
            requires
                n <= 0x100_0000_0000 * 0x1_0000_0000_0000,
        ;
    }
    while hi - lo > 1
        invariant
            lo < hi <= 257,
            pow11_s(lo as int) <= n,
            n < pow11_s(hi as int),
        decreases hi - lo,
    {
        let mid: u128 = lo + (hi - lo) / 2;
        let p: u128 = pow11_u128(mid);
        if p <= n {
            lo = mid;
        } else {
            hi = mid;
        }
    }
    proof {
        lemma_iroot11_unique(n as int, lo as int);
    }
    (lo as i64) * 256
}

/// The inverse display transfer: one channel raised to the power 2.2
/// (eleven fifths), evaluated at byte-level precision.
pub fn degamma22_fx(x: i64) -> (r: i64)
    requires
        0 <= x <= SCALE,
    ensures
        r == 256 * iroot5_s(pow11_s(x as int / 256) / 0x1_0000_0000_0000),
        0 <= r <= SCALE,
{
    let x8: i64 = x / 256;
    let x8u: u128 = x8 as u128;
    proof {
        assert(x8u * x8u <= 65536 && (x8u * x8u) * (x8u * x8u) <= 0x1_0000_0000_0000_0000 && ((
        x8u * x8u) * (x8u * x8u)) * ((x8u * x8u) * (x8u * x8u))
            < 0x1_0000_0000_0000_0000_0000_0000_0000_0000 && (x8u * x8u) * x8u
            <= 0x100_0000 && (((x8u * x8u) * (x8u * x8u)) * ((x8u * x8u) * (x8u * x8u))) * ((x8u
            * x8u) * x8u) < 0x1_0000_0000_0000_0000_0000_0000_0000_0000) by (nonlinear_arith)
            requires
                x8u <= 256,
        ;
        assert((((x8u * x8u) * (x8u * x8u)) * ((x8u * x8u) * (x8u * x8u))) * ((x8u * x8u) * x8u)
            <= pow11_s(256)) by (nonlinear_arith)
            requires
                x8u <= 256,
        ;
    }
    let big: u128 = (((x8u * x8u) * (x8u * x8u)) * ((x8u * x8u) * (x8u * x8u))) * ((x8u * x8u)
        * x8u);
    let n: u128 = big / 0x1_0000_0000_0000;
    proof {
        lemma_tdiv_bound(big as int, 0x1_0000_0000_0000);
        assert(pow5_s(0) == 0 && n < pow5_s(257)) by (nonlinear_arith)
            requires
                n <= pow11_s(256) / 0x1_0000_0000_0000,
        ;
    }
    let mut lo: u128 = 0;
    let mut hi: u128 = 257;
    while hi - lo > 1
        invariant
            lo < hi <= 257,
            pow5_s(lo as int) <= n,
            n < pow5_s(hi as int),
        decreases hi - lo,
    {
        let mid: u128 = lo + (hi - lo) / 2;
        let p: u128 = pow5_u128(mid);
        if p <= n {
            lo = mid;
        } else {
            hi = mid;
        }
    }
    proof {
        lemma_iroot5_unique(n as int, lo as int);
    }
    (lo as i64) * 256
}

/// Clamp a raw value to the closed interval `[lo, hi]`.
pub fn clamp_fx(x: i64, lo: i64, hi: i64) -> (r: i64)
    requires
        lo <= hi,
    ensures
        r == clamp_s(x as int, lo as int, hi as int),
{
    if x < lo {
        lo
    } else if x > hi {
        hi
    } else {
        x
    }
}

/// The clamp of `x` to `[lo, hi]`.
pub open spec fn clamp_s(x: int, lo: int, hi: int) -> int {
    if x < lo {
        lo
    } else if x > hi {
        hi
    } else {
        x
    }
}

} // verus!
