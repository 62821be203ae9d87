//! Fixed-point trigonometry for the camera's viewport: sine, cosine and
//! tangent on `[0, 1.05]` radians (half of the widest field of view), by
//! truncated Taylor series in Horner form.

use vstd::prelude::*;
use crate::fixed::{
    SCALE, fx_mul_spec, fx_div_spec, fx_mul, fx_div,
    lemma_fx_mul_bounded, lemma_fx_mul_nonneg, };
use vstd::arithmetic::div_mod::{
    lemma_div_is_ordered, lemma_div_is_ordered_by_denominator, lemma_div_multiples_vanish,
    lemma_div_pos_is_pos, lemma_div_denominator,
};

verus! {

/// The widest angle, in radians at the fixed scale, the series accept.
pub const TRIG_ARG_MAX: i64 = 1100000;

/// The circle constant at the fixed scale.
pub const PI_FX: i64 = 3294199;

/// Degrees to radians: `deg * pi / 180`.
pub open spec fn d2r_spec(deg: int) -> int {
    fx_div_spec(fx_mul_spec(deg, PI_FX as int), 180 * (SCALE as int))
}

/// The sine series `x (1 - y/6 + y^2/120 - y^3/5040 + y^4/362880)` with
/// `y = x^2`, each coefficient and product rounded at the fixed scale.
pub open spec fn sin_fx_spec(x: int) -> int {
    let y = fx_mul_spec(x, x);
    let p = SCALE - fx_mul_spec(
        y,
        174763 - fx_mul_spec(y, 8738 - fx_mul_spec(y, 208 - fx_mul_spec(y, 3))),
    );
    fx_mul_spec(x, p)
}

/// The cosine series `1 - y/2 + y^2/24 - y^3/720 + y^4/40320` with
/// `y = x^2`, each coefficient and product rounded at the fixed scale.
pub open spec fn cos_fx_spec(x: int) -> int {
    let y = fx_mul_spec(x, x);
    SCALE - fx_mul_spec(
        y,
        524288 - fx_mul_spec(y, 43691 - fx_mul_spec(y, 1456 - fx_mul_spec(y, 26))),
    )
}

/// The tangent as the quotient of the two series.
pub open spec fn tan_fx_spec(x: int) -> int {
    fx_div_spec(sin_fx_spec(x), cos_fx_spec(x))
}

/// Degrees to radians. For the angles the camera accepts the result stays
/// within the range the series take.
pub fn degrees_to_radians(deg: i64) -> (r: i64)
    requires
        0 <= deg <= 360 * (SCALE as int),
    ensures
        r == d2r_spec(deg as int),
        0 <= r,
        deg <= 120 * SCALE ==> r <= 2196133,
        deg <= 60 * SCALE ==> r <= 1098067,
{
    proof {
        let s = SCALE as int;
        lemma_fx_mul_bounded(deg as int, PI_FX as int, 360 * s, PI_FX as int);
        assert(0 <= (deg as int) * (PI_FX as int)) by (nonlinear_arith)
            requires
                deg >= 0,
        ;
        lemma_div_pos_is_pos((deg as int) * (PI_FX as int), s);
        assert(((360 * s) * (PI_FX as int)) / s == 360 * (PI_FX as int)) by (nonlinear_arith)
            requires
                s == 1048576,
        ;
    }
    let m = fx_mul(deg, PI_FX);
    proof {
        let s = SCALE as int;
        let mi = m as int;
        assert(0 <= mi * s) by (nonlinear_arith)
            requires
                mi >= 0,
                s == 1048576,
        ;
        lemma_div_pos_is_pos(mi * s, 180 * s);
        lemma_div_denominator(mi * s, s, 180);
        assert(s * 180 == 180 * s) by (nonlinear_arith);
        lemma_div_multiples_vanish(mi, s);
        assert(mi * s == s * mi) by (nonlinear_arith);
        // so the quotient is m / 180
        lemma_div_is_ordered(mi, 360 * (PI_FX as int), 180);
        if deg <= 120 * SCALE {
            lemma_fx_mul_bounded(deg as int, PI_FX as int, 120 * s, PI_FX as int);
            assert(((120 * s) * (PI_FX as int)) / s == 120 * (PI_FX as int)) by (nonlinear_arith)
                requires
                    s == 1048576,
            ;
            lemma_div_is_ordered(mi, 120 * (PI_FX as int), 180);
        }
        if deg <= 60 * SCALE {
            lemma_fx_mul_bounded(deg as int, PI_FX as int, 60 * s, PI_FX as int);
            assert(((60 * s) * (PI_FX as int)) / s == 60 * (PI_FX as int)) by (nonlinear_arith)
                requires
                    s == 1048576,
            ;
            lemma_div_is_ordered(mi, 60 * (PI_FX as int), 180);
        }
    }
    fx_div(m, 180 * SCALE)
}

/// The sine of an angle in `[0, TRIG_ARG_MAX]`: nonnegative and at most the
/// angle itself.
pub fn sin_fx(x: i64) -> (r: i64)
    requires
        0 <= x <= TRIG_ARG_MAX,
    ensures
        r == sin_fx_spec(x as int),
        0 <= r <= x,
{
    proof {
        let s = SCALE as int;
        lemma_fx_mul_nonneg(x as int, x as int);
        lemma_fx_mul_bounded(x as int, x as int, 1100000, 1100000);
        assert((1100000int * 1100000) / s == 1153945) by (nonlinear_arith)
            requires
                s == 1048576,
        ;
    }
    let y = fx_mul(x, x);
    proof {
        let s = SCALE as int;
        let yi = y as int;
        lemma_fx_mul_nonneg(yi, 3);
        lemma_fx_mul_bounded(yi, 3, 1154000, 3);
        assert((1154000int * 3) / s == 3) by (nonlinear_arith)
            requires
                s == 1048576,
        ;
        lemma_fx_mul_nonneg(yi, 208 - fx_mul_spec(yi, 3));
        lemma_fx_mul_bounded(yi, 208 - fx_mul_spec(yi, 3), 1154000, 208);
        assert((1154000int * 208) / s == 228) by (nonlinear_arith)
            requires
                s == 1048576,
        ;
        lemma_fx_mul_nonneg(yi, 8738 - fx_mul_spec(yi, 208 - fx_mul_spec(yi, 3)));
        lemma_fx_mul_bounded(yi, 8738 - fx_mul_spec(yi, 208 - fx_mul_spec(yi, 3)), 1154000, 8738);
        assert((1154000int * 8738) / s == 9616) by (nonlinear_arith)
            requires
                s == 1048576,
        ;
        let inner = 174763 - fx_mul_spec(
            yi,
            8738 - fx_mul_spec(yi, 208 - fx_mul_spec(yi, 3)),
        );
        lemma_fx_mul_nonneg(yi, inner);
        lemma_fx_mul_bounded(yi, inner, 1154000, 174763);
        assert((1154000int * 174763) / s == 192333) by (nonlinear_arith)
            requires
                s == 1048576,
        ;
    }
    let p = SCALE - fx_mul(y, 174763 - fx_mul(y, 8738 - fx_mul(y, 208 - fx_mul(y, 3))));
    proof {
        let s = SCALE as int;
        lemma_fx_mul_nonneg(x as int, p as int);
        lemma_fx_mul_bounded(x as int, p as int, x as int, s);
        assert(((x as int) * s) / s == x as int) by (nonlinear_arith)
            requires
                s == 1048576,
                0 <= x,
        ;
    }
    fx_mul(x, p)
}

/// The cosine of an angle in `[0, TRIG_ARG_MAX]`: within the unit interval
/// and no smaller than 0.44 or so, since the angle stays clear of a right
/// angle.
pub fn cos_fx(x: i64) -> (r: i64)
    requires
        0 <= x <= TRIG_ARG_MAX,
    ensures
        r == cos_fx_spec(x as int),
        471576 <= r <= SCALE,
{
    proof {
        let s = SCALE as int;
        lemma_fx_mul_nonneg(x as int, x as int);
        lemma_fx_mul_bounded(x as int, x as int, 1100000, 1100000);
        assert((1100000int * 1100000) / s == 1153945) by (nonlinear_arith)
            requires
                s == 1048576,
        ;
    }
    let y = fx_mul(x, x);
    proof {
        let s = SCALE as int;
        let yi = y as int;
        lemma_fx_mul_nonneg(yi, 26);
        lemma_fx_mul_bounded(yi, 26, 1154000, 26);
        assert((1154000int * 26) / s == 28) by (nonlinear_arith)
            requires
                s == 1048576,
        ;
        lemma_fx_mul_nonneg(yi, 1456 - fx_mul_spec(yi, 26));
        lemma_fx_mul_bounded(yi, 1456 - fx_mul_spec(yi, 26), 1154000, 1456);
        assert((1154000int * 1456) / s == 1602) by (nonlinear_arith)
            requires
                s == 1048576,
        ;
        lemma_fx_mul_nonneg(yi, 43691 - fx_mul_spec(yi, 1456 - fx_mul_spec(yi, 26)));
        lemma_fx_mul_bounded(yi, 43691 - fx_mul_spec(yi, 1456 - fx_mul_spec(yi, 26)), 1154000, 43691);
        assert((1154000int * 43691) / s == 48083) by (nonlinear_arith)
            requires
                s == 1048576,
        ;
        let inner = 524288 - fx_mul_spec(
            yi,
            43691 - fx_mul_spec(yi, 1456 - fx_mul_spec(yi, 26)),
        );
        lemma_fx_mul_nonneg(yi, inner);
        lemma_fx_mul_bounded(yi, inner, 1154000, 524288);
        assert((1154000int * 524288) / s == 577000) by (nonlinear_arith)
            requires
                s == 1048576,
        ;
    }
    SCALE - fx_mul(y, 524288 - fx_mul(y, 43691 - fx_mul(y, 1456 - fx_mul(y, 26))))
}

/// The tangent of an angle in `[0, TRIG_ARG_MAX]`: nonnegative and bounded,
/// since the cosine stays clear of zero there.
pub fn tan_fx(x: i64) -> (r: i64)
    requires
        0 <= x <= TRIG_ARG_MAX,
    ensures
        r == tan_fx_spec(x as int),
        0 <= r <= 2445912,
{
    let sx = sin_fx(x);
    let cx = cos_fx(x);
    proof {
        let s = SCALE as int;
        let si = sx as int;
        let ci = cx as int;
        assert(0 <= si * s) by (nonlinear_arith)
            requires
                si >= 0,
                s == 1048576,
        ;
        lemma_div_pos_is_pos(si * s, ci);
        assert(si * s <= 1100000 * s) by (nonlinear_arith)
            requires
                si <= 1100000,
                s == 1048576,
        ;
        lemma_div_is_ordered(si * s, 1100000 * s, ci);
        lemma_div_is_ordered_by_denominator(1100000 * s, 471576, ci);
        assert((1100000 * s) / 471576 == 2445912) by (nonlinear_arith)
            requires
                s == 1048576,
        ;
    }
    fx_div(sx, cx)
}

} // verus!
