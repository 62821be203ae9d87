//! Fixed-point scalar arithmetic.
//!
//! A real number `r` is held as the raw `i64` value `r * SCALE`, rounded
//! toward zero. All rounding in this module is truncation (toward zero), as
//! hardware integer division performs it, so negation commutes with every
//! operation: `(-a) * b` rounds to the negation of `a * b`.

use vstd::prelude::*;
use vstd::arithmetic::div_mod::{
    lemma_div_is_ordered, lemma_div_multiples_vanish, lemma_div_pos_is_pos,
    lemma_div_nonincreasing, lemma_div_denominator,
};
use vstd::arithmetic::mul::{lemma_mul_unary_negation};

verus! {

/// Fixed-point scale: the raw value `SCALE` stands for the real number one.
pub const SCALE: i64 = 1048576;

/// Truncating division (round toward zero) for a positive divisor.
pub open spec fn div_tz(a: int, b: int) -> int {
    if a >= 0 {
        a / b
    } else {
        -((-a) / b)
    }
}

/// Absolute value.
pub open spec fn fxabs(a: int) -> int {
    if a >= 0 {
        a
    } else {
        -a
    }
}

/// Fixed-point product: `(a * b) / SCALE`, rounded toward zero.
pub open spec fn fx_mul_spec(a: int, b: int) -> int {
    div_tz(a * b, SCALE as int)
}

/// Fixed-point quotient for a positive divisor: `(a * SCALE) / b`,
/// rounded toward zero.
pub open spec fn fx_div_spec(a: int, b: int) -> int {
    div_tz(a * (SCALE as int), b)
}

/// The integer square root: the greatest `r` with `r * r <= n`.
pub open spec fn isqrt_spec(n: nat) -> nat
    decreases n,
{
    if n == 0 {
        0
    } else {
        let p = isqrt_spec((n - 1) as nat);
        if (p + 1) * (p + 1) <= n {
            p + 1
        } else {
            p
        }
    }
}

/// Fixed-point square root of a nonnegative value: `isqrt(x * SCALE)`,
/// which is the square root at the same scale, rounded down.
pub open spec fn sqrt_fx_spec(x: int) -> int {
    isqrt_spec((x * (SCALE as int)) as nat) as int
}

pub proof fn lemma_div_tz_bounded(a: int, b: int, bound: int)
    requires
        b > 0,
        0 <= bound,
        -bound <= a <= bound,
    ensures
        -(bound / b) <= div_tz(a, b) <= bound / b,
        a >= 0 ==> div_tz(a, b) >= 0,
        a <= 0 ==> div_tz(a, b) <= 0,
{
    if a >= 0 {
        lemma_div_pos_is_pos(a, b);
        lemma_div_is_ordered(a, bound, b);
    } else {
        lemma_div_pos_is_pos(-a, b);
        lemma_div_is_ordered(-a, bound, b);
    }
}

pub proof fn lemma_div_tz_shrinks(a: int, b: int)
    requires
        b > 0,
    ensures
        fxabs(div_tz(a, b)) <= fxabs(a),
{
    if a >= 0 {
        lemma_div_pos_is_pos(a, b);
        lemma_div_nonincreasing(a, b);
    } else {
        lemma_div_pos_is_pos(-a, b);
        lemma_div_nonincreasing(-a, b);
    }
}

/// `div_tz` commutes with negation of the dividend.
pub proof fn lemma_div_tz_neg(a: int, b: int)
    requires
        b > 0,
    ensures
        div_tz(-a, b) == -div_tz(a, b),
{
}

/// A product bounded on both sides divides to a bounded result.
pub proof fn lemma_fx_mul_bounded(a: int, b: int, aa: int, bb: int)
    requires
        0 <= aa,
        0 <= bb,
        -aa <= a <= aa,
        -bb <= b <= bb,
    ensures
        -((aa * bb) / (SCALE as int)) <= fx_mul_spec(a, b) <= (aa * bb) / (SCALE as int),
{
    assert(-(aa * bb) <= a * b <= aa * bb) by (nonlinear_arith)
        requires
            0 <= aa,
            0 <= bb,
            -aa <= a <= aa,
            -bb <= b <= bb,
    ;
    assert(aa * bb >= 0) by (nonlinear_arith)
        requires
            0 <= aa,
            0 <= bb,
    ;
    lemma_div_tz_bounded(a * b, SCALE as int, aa * bb);
}

/// Multiplying by the fixed-point one is exact.
pub proof fn lemma_fx_mul_one(a: int)
    ensures
        fx_mul_spec(a, SCALE as int) == a,
{
    if a >= 0 {
        lemma_div_multiples_vanish(a, SCALE as int);
    } else {
        lemma_div_multiples_vanish(-a, SCALE as int);
        assert(-(a * (SCALE as int)) == (-a) * (SCALE as int)) by (nonlinear_arith);
    }
}

/// Multiplying by zero gives exactly zero.
pub proof fn lemma_fx_mul_zero(a: int)
    ensures
        fx_mul_spec(a, 0) == 0,
        fx_mul_spec(0, a) == 0,
{
    assert(a * 0 == 0) by (nonlinear_arith);
    assert(0 * a == 0) by (nonlinear_arith);
}

/// Negating one factor negates the product exactly.
pub proof fn lemma_fx_mul_neg(a: int, b: int)
    ensures
        fx_mul_spec(-a, b) == -fx_mul_spec(a, b),
        fx_mul_spec(a, -b) == -fx_mul_spec(a, b),
{
    lemma_mul_unary_negation(a, b);
    assert(a * (-b) == -(a * b)) by (nonlinear_arith);
    lemma_div_tz_neg(a * b, SCALE as int);
}

/// A product of nonnegative values stays nonnegative.
pub proof fn lemma_fx_mul_nonneg(a: int, b: int)
    requires
        0 <= a,
        0 <= b,
    ensures
        0 <= fx_mul_spec(a, b),
{
    assert(0 <= a * b) by (nonlinear_arith)
        requires
            0 <= a,
            0 <= b,
    ;
    lemma_div_pos_is_pos(a * b, SCALE as int);
}

/// Truncating division of an `i128` by a positive divisor.
pub fn div_tz_i128(a: i128, b: i128) -> (r: i128)
    requires
        b > 0,
        a > i128::MIN,
    ensures
        r == div_tz(a as int, b as int),
{
    if a >= 0 {
        let q: u128 = (a as u128) / (b as u128);
        proof {
            lemma_div_tz_bounded(a as int, b as int, a as int);
        }
        q as i128
    } else {
        let q: u128 = ((-a) as u128) / (b as u128);
        proof {
            lemma_div_tz_bounded(a as int, b as int, -(a as int));
        }
        -(q as i128)
    }
}

/// Fixed-point product of two raw values.
pub fn fx_mul(a: i64, b: i64) -> (r: i64)
    requires
        i64::MIN as int <= fx_mul_spec(a as int, b as int) <= i64::MAX as int,
    ensures
        r == fx_mul_spec(a as int, b as int),
{
    let p: i128 = (a as i128) * (b as i128);
    let q: i128 = div_tz_i128(p, SCALE as i128);
    q as i64
}

/// Fixed-point quotient of two raw values, positive divisor.
pub fn fx_div(a: i64, b: i64) -> (r: i64)
    requires
        b > 0,
        i64::MIN as int <= fx_div_spec(a as int, b as int) <= i64::MAX as int,
    ensures
        r == fx_div_spec(a as int, b as int),
{
    let p: i128 = (a as i128) * (SCALE as i128);
    let q: i128 = div_tz_i128(p, b as i128);
    q as i64
}

/// Truncating division of a raw value by a positive integer count.
pub fn div_count(a: i64, b: i64) -> (r: i64)
    requires
        b > 0,
    ensures
        r == div_tz(a as int, b as int),
{
    proof {
        lemma_div_tz_shrinks(a as int, b as int);
    }
    let q: i128 = div_tz_i128(a as i128, b as i128);
    q as i64
}

/// The integer square root satisfies its defining inequalities.
pub proof fn lemma_isqrt_property(n: nat)
    ensures
        isqrt_spec(n) * isqrt_spec(n) <= n,
        n < (isqrt_spec(n) + 1) * (isqrt_spec(n) + 1),
    decreases n,
{
    if n == 0 {
        assert(isqrt_spec(n) == 0);
        assert(isqrt_spec(n) * isqrt_spec(n) <= n) by (nonlinear_arith)
            requires
                n == 0,
                isqrt_spec(n) == 0,
        ;
        assert(n < (isqrt_spec(n) + 1) * (isqrt_spec(n) + 1)) by (nonlinear_arith)
            requires
                n == 0,
                isqrt_spec(n) == 0,
        ;
    } else {
        lemma_isqrt_property((n - 1) as nat);
        let p = isqrt_spec((n - 1) as nat);
        let m = n - 1;
        assert(p * p <= m && m < (p + 1) * (p + 1));
        if (p + 1) * (p + 1) <= n {
            assert(isqrt_spec(n) == p + 1);
            assert(n < ((p + 1) + 1) * ((p + 1) + 1)) by (nonlinear_arith)
                requires
                    n >= 1,
                    p >= 0,
                    (n - 1) < (p + 1) * (p + 1),
                    (p + 1) * (p + 1) <= n,
            ;
        } else {
            assert(isqrt_spec(n) == p);
            assert(p * p <= n);
        }
        assert(isqrt_spec(n) * isqrt_spec(n) <= n);
        assert(n < (isqrt_spec(n) + 1) * (isqrt_spec(n) + 1));
    }
}

/// Any value satisfying the defining inequalities is the integer square root.
pub proof fn lemma_isqrt_unique(n: nat, r: nat)
    requires
        r * r <= n,
        n < (r + 1) * (r + 1),
    ensures
        r == isqrt_spec(n),
{
    lemma_isqrt_property(n);
    let s = isqrt_spec(n);
    if r < s {
        assert((r + 1) * (r + 1) <= s * s) by (nonlinear_arith)
            requires
                r + 1 <= s,
        ;
    }
    if s < r {
        assert((s + 1) * (s + 1) <= r * r) by (nonlinear_arith)
            requires
                s + 1 <= r,
        ;
    }
}

/// The integer square root is monotone.
pub proof fn lemma_isqrt_mono(a: nat, b: nat)
    requires
        a <= b,
    ensures
        isqrt_spec(a) <= isqrt_spec(b),
{
    lemma_isqrt_property(a);
    lemma_isqrt_property(b);
    let ra = isqrt_spec(a);
    let rb = isqrt_spec(b);
    if rb < ra {
        assert((rb + 1) * (rb + 1) <= ra * ra) by (nonlinear_arith)
            requires
                rb + 1 <= ra,
        ;
    }
}

/// The integer square root of a perfect square.
pub proof fn lemma_isqrt_exact(r: nat)
    ensures
        isqrt_spec(r * r) == r,
{
    assert(r * r < (r + 1) * (r + 1)) by (nonlinear_arith);
    lemma_isqrt_unique(r * r, r);
}

/// A dividend within `k` multiples of a positive divisor divides to within
/// `k` at the fixed-point scale.
pub proof fn lemma_fx_div_ratio_bound(a: int, b: int, k: int)
    requires
        b > 0,
        0 <= k,
        -(k * b) <= a <= k * b,
    ensures
        -(k * (SCALE as int)) <= fx_div_spec(a, b) <= k * (SCALE as int),
{
    let s = SCALE as int;
    assert(-(b * (k * s)) <= a * s <= b * (k * s)) by (nonlinear_arith)
        requires
            b > 0,
            0 <= k,
            -(k * b) <= a <= k * b,
            s == 1048576,
    ;
    assert(0 <= b * (k * s)) by (nonlinear_arith)
        requires
            b > 0,
            0 <= k,
            s == 1048576,
    ;
    lemma_div_tz_bounded(a * s, b, b * (k * s));
    lemma_div_multiples_vanish(k * s, b);
}

/// Division by a scalar of at least one shrinks the magnitude.
pub proof fn lemma_fx_div_shrinks(a: int, b: int)
    requires
        b >= SCALE as int,
    ensures
        fxabs(fx_div_spec(a, b)) <= fxabs(a),
{
    let s = SCALE as int;
    if a >= 0 {
        lemma_div_pos_is_pos(a * s, b);
        vstd::arithmetic::div_mod::lemma_div_is_ordered_by_denominator(a * s, s, b);
        lemma_div_multiples_vanish(a, s);
        assert(a * s == s * a) by (nonlinear_arith);
        assert(0 <= a * s) by (nonlinear_arith)
            requires
                a >= 0,
                s == 1048576,
        ;
    } else {
        lemma_div_pos_is_pos(-(a * s), b);
        assert(-(a * s) == (-a) * s) by (nonlinear_arith);
        assert(0 <= (-a) * s) by (nonlinear_arith)
            requires
                a < 0,
                s == 1048576,
        ;
        vstd::arithmetic::div_mod::lemma_div_is_ordered_by_denominator((-a) * s, s, b);
        lemma_div_multiples_vanish(-a, s);
        assert((-a) * s == s * (-a)) by (nonlinear_arith);
    }
}

/// A per-pixel delta, made by dividing a span by a pixel count, multiplies
/// back to no more than the span.
pub proof fn lemma_delta_span(a: int, wpx: int)
    requires
        wpx >= 1,
    ensures
        fxabs(fx_div_spec(a, wpx * (SCALE as int))) * wpx <= fxabs(a),
{
    let s = SCALE as int;
    let aa = fxabs(a);
    assert(0 <= aa * s) by (nonlinear_arith)
        requires
            aa >= 0,
            s == 1048576,
    ;
    lemma_div_denominator(aa * s, s, wpx);
    assert(s * wpx == wpx * s) by (nonlinear_arith);
    lemma_div_multiples_vanish(aa, s);
    assert(aa * s == s * aa) by (nonlinear_arith);
    vstd::arithmetic::div_mod::lemma_fundamental_div_mod(aa, wpx);
    assert((aa / wpx) * wpx <= aa) by (nonlinear_arith)
        requires
            wpx >= 1,
            aa == wpx * (aa / wpx) + aa % wpx,
            0 <= aa % wpx,
    ;
    if a >= 0 {
    } else {
        assert((-a) * s == -(a * s)) by (nonlinear_arith);
    }
}

/// A product of a delta against an argument within `w` whole units stays
/// within the delta's span.
pub proof fn lemma_span_term(d: int, t: int, w: int, cap: int)
    requires
        w >= 1,
        0 <= cap,
        fxabs(d) * w <= cap,
        -(w * (SCALE as int)) <= t <= w * (SCALE as int),
    ensures
        fxabs(fx_mul_spec(d, t)) <= cap,
{
    let s = SCALE as int;
    assert(-((fxabs(d) * w) * s) <= d * t <= (fxabs(d) * w) * s) by (nonlinear_arith)
        requires
            w >= 1,
            s == 1048576,
            -(w * s) <= t <= w * s,
    ;
    assert(0 <= (fxabs(d) * w) * s) by (nonlinear_arith)
        requires
            fxabs(d) >= 0,
            w >= 1,
            s == 1048576,
    ;
    lemma_div_tz_bounded(d * t, s, (fxabs(d) * w) * s);
    lemma_div_multiples_vanish(fxabs(d) * w, s);
    assert((fxabs(d) * w) * s == s * (fxabs(d) * w)) by (nonlinear_arith);
}

/// The fixed-point square root is monotone.
pub proof fn lemma_sqrt_fx_mono(a: int, b: int)
    requires
        0 <= a <= b,
    ensures
        0 <= sqrt_fx_spec(a) <= sqrt_fx_spec(b),
{
    lemma_isqrt_mono((a * (SCALE as int)) as nat, (b * (SCALE as int)) as nat);
}

/// The square root of a unit-interval value stays in the unit interval.
pub proof fn lemma_sqrt_fx_unit(x: int)
    requires
        0 <= x <= SCALE as int,
    ensures
        0 <= sqrt_fx_spec(x) <= SCALE as int,
{
    lemma_sqrt_fx_mono(x, SCALE as int);
    lemma_isqrt_exact(SCALE as nat);
    assert((SCALE as nat) * (SCALE as nat) == ((SCALE as int) * (SCALE as int)) as nat);
}

/// Integer square root by binary search.
pub fn isqrt_u128(x: u128) -> (r: u64)
    ensures
        r == isqrt_spec(x as nat),
{
    let mut lo: u128 = 0;
    let mut hi: u128 = 0x1_0000_0000_0000_0000;
    proof {
        assert((hi as int) * (hi as int) > x as int) by (nonlinear_arith)
            requires
                hi == 0x1_0000_0000_0000_0000,
                x <= u128::MAX,
        ;
    }
    while hi - lo > 1
        invariant
            0 <= lo < hi <= 0x1_0000_0000_0000_0000,
            (lo as int) * (lo as int) <= x as int,
            (x as int) < (hi as int) * (hi as int),
        decreases hi - lo,
    {
        let mid: u128 = lo + (hi - lo) / 2;
        proof {
            assert((mid as int) * (mid as int) < 0x1_0000_0000_0000_0000_0000_0000_0000_0000)
                by (nonlinear_arith)
                requires
                    mid < 0x1_0000_0000_0000_0000,
            ;
        }
        if mid * mid <= x {
            lo = mid;
        } else {
            hi = mid;
        }
    }
    proof {
        lemma_isqrt_unique(x as nat, lo as nat);
    }
    lo as u64
}

/// Fixed-point square root of a nonnegative raw value.
pub fn sqrt_fx(x: i64) -> (r: i64)
    requires
        x >= 0,
    ensures
        r == sqrt_fx_spec(x as int),
        r >= 0,
{
    proof {
        assert((x as int) * (SCALE as int) <= u128::MAX as int) by (nonlinear_arith)
            requires
                0 <= x <= i64::MAX as int,
        ;
    }
    let p: u128 = (x as u128) * (SCALE as u128);
    let r: u64 = isqrt_u128(p);
    proof {
        lemma_isqrt_property(p as nat);
        assert(p as int <= (i64::MAX as int) * (SCALE as int)) by (nonlinear_arith)
            requires
                p == (x as int) * (SCALE as int),
                0 <= x <= i64::MAX as int,
        ;
        assert((r as int) * (r as int) <= (i64::MAX as int) * (i64::MAX as int))
            by (nonlinear_arith)
            requires
                (r as int) * (r as int) <= p as int,
                p as int <= (i64::MAX as int) * (SCALE as int),
        ;
        assert(r as int <= i64::MAX as int) by (nonlinear_arith)
            requires
                (r as int) * (r as int) <= (i64::MAX as int) * (i64::MAX as int),
                r >= 0,
        ;
    }
    r as i64
}

} // verus!
