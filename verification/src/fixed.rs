//! Fixed-point scalar arithmetic.
//!
//! A quantity is an `i64` counting units of `1 / SCALE`. Products and
//! quotients are truncated toward zero, as machine division rounds, and
//! every operation saturates to the `i64` range instead of overflowing.
//! Each executable operation is specified exactly by a spec function over
//! the mathematical integers.

use vstd::prelude::*;

verus! {

/// Fixed-point units per 1.0.
pub const SCALE: i64 = 1_000_000;

/// Clamp a mathematical integer into the range of `i64`.
pub open spec fn sat64(n: int) -> int {
    if n > i64::MAX {
        i64::MAX as int
    } else if n < i64::MIN {
        i64::MIN as int
    } else {
        n
    }
}

/// Absolute value of a mathematical integer.
pub open spec fn abs_i(n: int) -> int {
    if n < 0 {
        -n
    } else {
        n
    }
}

/// Division truncated toward zero, as machine division rounds.
pub open spec fn tdiv(a: int, b: int) -> int
    recommends
        b != 0,
{
    if (a < 0) == (b < 0) {
        abs_i(a) / abs_i(b)
    } else {
        -(abs_i(a) / abs_i(b))
    }
}

/// The fixed-point product `a * b / SCALE`, truncated toward zero and
/// saturated to the `i64` range.
pub open spec fn fx_mul_s(a: int, b: int) -> int {
    sat64(tdiv(a * b, SCALE as int))
}

/// The fixed-point quotient `a * SCALE / b`, truncated toward zero and
/// saturated. Division by zero is defined as zero, so that normalizing a
/// zero-length vector yields the zero vector instead of failing.
pub open spec fn fx_div_s(a: int, b: int) -> int {
    if b == 0 {
        0
    } else {
        sat64(tdiv(a * SCALE, b))
    }
}

/// `r` is the integer square root of `n`: the largest integer whose
/// square does not exceed `n`.
pub open spec fn is_isqrt(n: int, r: int) -> bool {
    0 <= r && r * r <= n && n < (r + 1) * (r + 1)
}

/// The integer square root (meaningful for `n >= 0`).
pub open spec fn sqrt_i(n: int) -> int {
    choose|r: int| is_isqrt(n, r)
}

/// The fixed-point square root of `n`: since `n` counts units of
/// `1 / SCALE`, the root of the represented value is `sqrt(n * SCALE)`
/// in the same units, rounded down.
pub open spec fn fx_sqrt_s(n: int) -> int
    recommends
        n >= 0,
{
    sqrt_i(n * SCALE)
}

/// The fixed-point power `x^e`, multiplying one factor at a time.
pub open spec fn fx_pow_s(x: int, e: nat) -> int
    decreases e,
{
    if e == 0 {
        SCALE as int
    } else {
        fx_mul_s(x, fx_pow_s(x, (e - 1) as nat))
    }
}

/// The product of magnitudes bounds the magnitude of a product.
pub proof fn lemma_abs_mul_le(a: int, b: int, ma: int, mb: int)
    requires
        abs_i(a) <= ma,
        abs_i(b) <= mb,
    ensures
        abs_i(a * b) <= ma * mb,
{
    assert(abs_i(a * b) <= ma * mb) by (nonlinear_arith)
        requires
            abs_i(a) <= ma,
            abs_i(b) <= mb,
    ;
}

/// Squaring is monotone on the non-negative integers.
pub proof fn lemma_square_lt(a: int, b: int)
    requires
        0 <= a,
        a < b,
    ensures
        a * a < b * b,
{
    assert(a * a < b * b) by (nonlinear_arith)
        requires
            0 <= a,
            a < b,
    ;
}

/// The integer square root is unique.
pub proof fn lemma_isqrt_unique(n: int, r1: int, r2: int)
    requires
        is_isqrt(n, r1),
        is_isqrt(n, r2),
    ensures
        r1 == r2,
{
    assert(!(r1 < r2)) by (nonlinear_arith)
        requires
            0 <= r1,
            0 <= r2,
            r1 * r1 <= n,
            n < (r1 + 1) * (r1 + 1),
            r2 * r2 <= n,
    ;
    assert(!(r2 < r1)) by (nonlinear_arith)
        requires
            0 <= r1,
            0 <= r2,
            r2 * r2 <= n,
            n < (r2 + 1) * (r2 + 1),
            r1 * r1 <= n,
    ;
}

/// A witness pins down `sqrt_i`.
pub proof fn lemma_sqrt_i_is(n: int, r: int)
    requires
        is_isqrt(n, r),
    ensures
        sqrt_i(n) == r,
{
    assert(is_isqrt(n, sqrt_i(n))) by {
        assert(exists|x: int| is_isqrt(n, x));
    }
    lemma_isqrt_unique(n, sqrt_i(n), r);
}

/// Truncating division cancels a factor of `SCALE`.
pub proof fn lemma_tdiv_cancel(x: int)
    ensures
        tdiv(x * SCALE as int, SCALE as int) == x,
{
    if x >= 0 {
        vstd::arithmetic::div_mod::lemma_div_multiples_vanish(x, SCALE as int);
        assert(SCALE as int * x == x * SCALE as int);
    } else {
        vstd::arithmetic::div_mod::lemma_div_multiples_vanish(-x, SCALE as int);
        assert(SCALE as int * -x == -(x * SCALE as int));
        assert(abs_i(x * SCALE as int) == -(x * SCALE as int));
    }
}

/// Multiplying by zero yields zero.
pub proof fn lemma_fx_mul_s_zero(a: int)
    ensures
        fx_mul_s(a, 0) == 0,
        fx_mul_s(0, a) == 0,
{
    assert(a * 0 == 0) by (nonlinear_arith);
    assert(0 * a == 0) by (nonlinear_arith);
    vstd::arithmetic::div_mod::lemma_div_of0(SCALE as int);
}

/// Multiplying by the fixed-point unit is the identity, up to saturation.
pub proof fn lemma_fx_mul_s_unit(a: int)
    ensures
        fx_mul_s(a, SCALE as int) == sat64(a),
        fx_mul_s(SCALE as int, a) == sat64(a),
{
    lemma_tdiv_cancel(a);
    assert(a * SCALE as int == SCALE as int * a) by (nonlinear_arith);
}

/// The fixed-point square of an integer is non-negative.
pub proof fn lemma_fx_mul_s_self_nonneg(x: int)
    ensures
        fx_mul_s(x, x) >= 0,
{
    assert(x * x >= 0) by (nonlinear_arith);
    if x * x > 0 {
        vstd::arithmetic::div_mod::lemma_div_pos_is_pos(x * x, SCALE as int);
    } else {
        vstd::arithmetic::div_mod::lemma_div_of0(SCALE as int);
    }
}

/// Saturating addition.
pub fn sat_add(a: i64, b: i64) -> (r: i64)
    ensures
        r as int == sat64(a + b),
{
    let s: i128 = a as i128 + b as i128;
    if s > i64::MAX as i128 {
        i64::MAX
    } else if s < i64::MIN as i128 {
        i64::MIN
    } else {
        s as i64
    }
}

/// Saturating subtraction.
pub fn sat_sub(a: i64, b: i64) -> (r: i64)
    ensures
        r as int == sat64(a - b),
{
    let s: i128 = a as i128 - b as i128;
    if s > i64::MAX as i128 {
        i64::MAX
    } else if s < i64::MIN as i128 {
        i64::MIN
    } else {
        s as i64
    }
}

/// Fixed-point multiplication: `a * b / SCALE`, truncated and saturated.
pub fn fx_mul(a: i64, b: i64) -> (r: i64)
    ensures
        r as int == fx_mul_s(a as int, b as int),
{
    proof {
        lemma_abs_mul_le(a as int, b as int, 0x8000_0000_0000_0000, 0x8000_0000_0000_0000);
    }
    let p: i128 = (a as i128) * (b as i128);
    let m: u128 = if p < 0 {
        (-p) as u128
    } else {
        p as u128
    };
    let q: u128 = m / (SCALE as u128);
    if p >= 0 {
        if q > i64::MAX as u128 {
            i64::MAX
        } else {
            q as i64
        }
    } else {
        if q >= 9_223_372_036_854_775_808u128 {
            i64::MIN
        } else {
            -(q as i64)
        }
    }
}

/// Fixed-point division: `a * SCALE / b`, truncated and saturated;
/// zero when `b` is zero.
pub fn fx_div(a: i64, b: i64) -> (r: i64)
    ensures
        r as int == fx_div_s(a as int, b as int),
{
    if b == 0 {
        return 0;
    }
    proof {
        lemma_abs_mul_le(a as int, SCALE as int, 0x8000_0000_0000_0000, SCALE as int);
    }
    let p: i128 = (a as i128) * (SCALE as i128);
    let m: u128 = if p < 0 {
        (-p) as u128
    } else {
        p as u128
    };
    let bm: u128 = if b < 0 {
        (-(b as i128)) as u128
    } else {
        b as u128
    };
    let q: u128 = m / bm;
    if (p < 0) == (b < 0) {
        if q > i64::MAX as u128 {
            i64::MAX
        } else {
            q as i64
        }
    } else {
        if q >= 9_223_372_036_854_775_808u128 {
            i64::MIN
        } else {
            -(q as i64)
        }
    }
}

/// Integer square root by bisection.
pub fn isqrt_u128(n: u128) -> (r: u128)
    requires
        n < 19_342_813_113_834_066_795_298_816u128,
    ensures
        is_isqrt(n as int, r as int),
{
    let mut lo: u128 = 0;
    let mut hi: u128 = 4_398_046_511_104u128;
    proof {
        assert(4_398_046_511_104 * 4_398_046_511_104 == 19_342_813_113_834_066_795_298_816int)
            by (nonlinear_arith);
    }
    while lo + 1 < hi
        invariant
            lo < hi,
            hi <= 4_398_046_511_104u128,
            (lo as int) * (lo as int) <= n as int,
            (n as int) < (hi as int) * (hi as int),
        decreases hi - lo,
    {
        let mid: u128 = lo + (hi - lo) / 2;
        proof {
            lemma_square_lt(mid as int, 4_398_046_511_104int);
        }
        if mid * mid <= n {
            lo = mid;
        } else {
            hi = mid;
        }
    }
    lo
}

/// Fixed-point square root.
pub fn fx_sqrt(n: i64) -> (r: i64)
    requires
        n >= 0,
    ensures
        r as int == fx_sqrt_s(n as int),
        is_isqrt(n as int * SCALE as int, r as int),
{
    proof {
        lemma_abs_mul_le(n as int, SCALE as int, 0x8000_0000_0000_0000, SCALE as int);
    }
    let m: u128 = (n as u128) * (SCALE as u128);
    let r = isqrt_u128(m);
    proof {
        assert(r as int * r as int <= m as int);
        if r as int > 4_398_046_511_104 {
            lemma_square_lt(4_398_046_511_104int, r as int);
            assert(4_398_046_511_104 * 4_398_046_511_104 == 19_342_813_113_834_066_795_298_816int)
                by (nonlinear_arith);
        }
        lemma_sqrt_i_is(m as int, r as int);
    }
    r as i64
}

/// Fixed-point power with a non-negative integer exponent.
pub fn fx_pow(x: i64, e: u32) -> (r: i64)
    ensures
        r as int == fx_pow_s(x as int, e as nat),
{
    let mut acc: i64 = SCALE;
    let mut i: u32 = 0;
    while i < e
        invariant
            i <= e,
            acc as int == fx_pow_s(x as int, i as nat),
        decreases e - i,
    {
        acc = fx_mul(x, acc);
        i = i + 1;
    }
    acc
}

} // verus!
