//! Three-component fixed-point vectors, used interchangeably as points,
//! directions and colors.

use vstd::prelude::*;
use vstd::arithmetic::div_mod::{
    lemma_div_multiples_vanish, lemma_div_pos_is_pos,
    lemma_fundamental_div_mod,
};
use crate::fixed::{
    SCALE, fxabs, fx_mul_spec, fx_div_spec, sqrt_fx_spec, isqrt_spec,
    fx_mul, fx_div, sqrt_fx,
    lemma_div_tz_bounded, lemma_fx_mul_bounded, lemma_isqrt_property, lemma_isqrt_mono,
    lemma_isqrt_exact,
};
use crate::rng::{Rng, rng_next_spec, rng_unit_spec, rng_in_range_spec};

verus! {

/// How many rejection draws the unit-sphere sampler makes before falling
/// back to an axis vector; with fair draws the fall-back is unreachable in
/// practice, it only bounds the search.
pub const UNIT_DRAWS: u64 = 4096;

/// The widest raw value the dot product accepts in a component.
pub const VEC_MAX: i64 = 0x10000000000;

/// The mathematical value of a vector: its three raw components.
pub ghost struct Vec3S {
    pub x: int,
    pub y: int,
    pub z: int,
}

/// All three components lie within `b` in magnitude.
pub open spec fn vbounded(v: Vec3S, b: int) -> bool {
    &&& -b <= v.x <= b
    &&& -b <= v.y <= b
    &&& -b <= v.z <= b
}

pub open spec fn vadd(a: Vec3S, b: Vec3S) -> Vec3S {
    Vec3S { x: a.x + b.x, y: a.y + b.y, z: a.z + b.z }
}

pub open spec fn vsub(a: Vec3S, b: Vec3S) -> Vec3S {
    Vec3S { x: a.x - b.x, y: a.y - b.y, z: a.z - b.z }
}

pub open spec fn vneg(a: Vec3S) -> Vec3S {
    Vec3S { x: -a.x, y: -a.y, z: -a.z }
}

/// Componentwise fixed-point product.
pub open spec fn vmul(a: Vec3S, b: Vec3S) -> Vec3S {
    Vec3S {
        x: fx_mul_spec(a.x, b.x),
        y: fx_mul_spec(a.y, b.y),
        z: fx_mul_spec(a.z, b.z),
    }
}

/// Scaling by a fixed-point scalar.
pub open spec fn vscale(a: Vec3S, s: int) -> Vec3S {
    Vec3S {
        x: fx_mul_spec(a.x, s),
        y: fx_mul_spec(a.y, s),
        z: fx_mul_spec(a.z, s),
    }
}

/// Division by a positive fixed-point scalar.
pub open spec fn vdiv(a: Vec3S, s: int) -> Vec3S {
    Vec3S {
        x: fx_div_spec(a.x, s),
        y: fx_div_spec(a.y, s),
        z: fx_div_spec(a.z, s),
    }
}

/// The fixed-point dot product: the three componentwise products, each
/// rounded, then summed.
pub open spec fn vdot(a: Vec3S, b: Vec3S) -> int {
    fx_mul_spec(a.x, b.x) + fx_mul_spec(a.y, b.y) + fx_mul_spec(a.z, b.z)
}

pub open spec fn vcross(a: Vec3S, b: Vec3S) -> Vec3S {
    Vec3S {
        x: fx_mul_spec(a.y, b.z) - fx_mul_spec(a.z, b.y),
        y: fx_mul_spec(a.z, b.x) - fx_mul_spec(a.x, b.z),
        z: fx_mul_spec(a.x, b.y) - fx_mul_spec(a.y, b.x),
    }
}

/// The Euclidean length, rounded down at the fixed-point scale.
pub open spec fn vlen(a: Vec3S) -> int {
    sqrt_fx_spec(vdot(a, a))
}

/// The normalized vector; meaningful only when the squared length is positive.
pub open spec fn vunit(a: Vec3S) -> Vec3S {
    vdiv(a, vlen(a))
}

/// True when every component vanishes at this scale: a magnitude below
/// `1e-8`, as the near-zero test asks, is below one raw unit.
pub open spec fn vnear_zero(a: Vec3S) -> bool {
    a.x == 0 && a.y == 0 && a.z == 0
}

/// Mirror reflection about a normal: `d - 2 (d . n) n`.
pub open spec fn vreflect(d: Vec3S, n: Vec3S) -> Vec3S {
    vsub(d, vscale(vscale(n, vdot(d, n)), 2 * SCALE))
}

pub open spec fn vadd_fits(a: Vec3S, b: Vec3S) -> bool {
    &&& i64::MIN <= a.x + b.x <= i64::MAX
    &&& i64::MIN <= a.y + b.y <= i64::MAX
    &&& i64::MIN <= a.z + b.z <= i64::MAX
}

pub open spec fn vsub_fits(a: Vec3S, b: Vec3S) -> bool {
    &&& i64::MIN <= a.x - b.x <= i64::MAX
    &&& i64::MIN <= a.y - b.y <= i64::MAX
    &&& i64::MIN <= a.z - b.z <= i64::MAX
}

pub open spec fn vscale_fits(a: Vec3S, s: int) -> bool {
    &&& i64::MIN <= fx_mul_spec(a.x, s) <= i64::MAX
    &&& i64::MIN <= fx_mul_spec(a.y, s) <= i64::MAX
    &&& i64::MIN <= fx_mul_spec(a.z, s) <= i64::MAX
}

pub open spec fn vmul_fits(a: Vec3S, b: Vec3S) -> bool {
    &&& i64::MIN <= fx_mul_spec(a.x, b.x) <= i64::MAX
    &&& i64::MIN <= fx_mul_spec(a.y, b.y) <= i64::MAX
    &&& i64::MIN <= fx_mul_spec(a.z, b.z) <= i64::MAX
}

/// Each term of the dot product of vectors bounded by `VEC_MAX` stays small,
/// and the squared-length terms are nonnegative.
pub proof fn lemma_vdot_terms(a: Vec3S, b: Vec3S)
    requires
        vbounded(a, VEC_MAX as int),
        vbounded(b, VEC_MAX as int),
    ensures
        fxabs(vdot(a, b)) <= 0x3000000000000000,
        a == b ==> 0 <= fx_mul_spec(a.x, b.x) <= vdot(a, b),
        a == b ==> 0 <= fx_mul_spec(a.y, b.y) <= vdot(a, b),
        a == b ==> 0 <= fx_mul_spec(a.z, b.z) <= vdot(a, b),
        a == b ==> 0 <= vdot(a, b),
{
    let m = VEC_MAX as int;
    lemma_fx_mul_bounded(a.x, b.x, m, m);
    lemma_fx_mul_bounded(a.y, b.y, m, m);
    lemma_fx_mul_bounded(a.z, b.z, m, m);
    assert((m * m) / (SCALE as int) == 0x1000000000000000);
    if a == b {
        lemma_sq_term_nonneg(a.x);
        lemma_sq_term_nonneg(a.y);
        lemma_sq_term_nonneg(a.z);
    }
}

/// Negating one argument negates the dot product exactly.
pub proof fn lemma_vdot_neg(a: Vec3S, b: Vec3S)
    ensures
        vdot(a, vneg(b)) == -vdot(a, b),
{
    crate::fixed::lemma_fx_mul_neg(a.x, b.x);
    crate::fixed::lemma_fx_mul_neg(a.y, b.y);
    crate::fixed::lemma_fx_mul_neg(a.z, b.z);
}

/// The reflection of a unit-length vector about a unit-length normal stays
/// within fifty, at this scale.
pub proof fn lemma_vreflect_unit_bound(d: Vec3S, n: Vec3S)
    requires
        vbounded(d, 2 * (SCALE as int)),
        vbounded(n, 2 * (SCALE as int)),
    ensures
        vbounded(vreflect(d, n), 50 * (SCALE as int)),
{
    let s = SCALE as int;
    lemma_vdot_bounded(d, n, 2 * s, 2 * s);
    assert(3 * (((2 * s) * (2 * s)) / s) == 12 * s) by (nonlinear_arith)
        requires
            s == 1048576,
    ;
    lemma_fx_mul_bounded(n.x, vdot(d, n), 2 * s, 12 * s);
    lemma_fx_mul_bounded(n.y, vdot(d, n), 2 * s, 12 * s);
    lemma_fx_mul_bounded(n.z, vdot(d, n), 2 * s, 12 * s);
    assert(((2 * s) * (12 * s)) / s == 24 * s) by (nonlinear_arith)
        requires
            s == 1048576,
    ;
    let t = vscale(n, vdot(d, n));
    lemma_fx_mul_bounded(t.x, 2 * s, 24 * s, 2 * s);
    lemma_fx_mul_bounded(t.y, 2 * s, 24 * s, 2 * s);
    lemma_fx_mul_bounded(t.z, 2 * s, 24 * s, 2 * s);
    assert(((24 * s) * (2 * s)) / s == 48 * s) by (nonlinear_arith)
        requires
            s == 1048576,
    ;
}

/// A rounded square is nonnegative.
pub proof fn lemma_sq_term_nonneg(x: int)
    ensures
        0 <= fx_mul_spec(x, x),
{
    assert(0 <= x * x) by (nonlinear_arith);
    lemma_div_pos_is_pos(x * x, SCALE as int);
}

/// The dot product of vectors bounded by `aa` and `bb` is bounded by three
/// rounded products.
pub proof fn lemma_vdot_bounded(a: Vec3S, b: Vec3S, aa: int, bb: int)
    requires
        0 <= aa,
        0 <= bb,
        vbounded(a, aa),
        vbounded(b, bb),
    ensures
        fxabs(vdot(a, b)) <= 3 * ((aa * bb) / (SCALE as int)),
{
    lemma_fx_mul_bounded(a.x, b.x, aa, bb);
    lemma_fx_mul_bounded(a.y, b.y, aa, bb);
    lemma_fx_mul_bounded(a.z, b.z, aa, bb);
    assert(0 <= aa * bb) by (nonlinear_arith)
        requires
            0 <= aa,
            0 <= bb,
    ;
    lemma_div_pos_is_pos(aa * bb, SCALE as int);
}

/// A component of a normalized vector is at most two, at this scale.
proof fn lemma_unit_component_bound(vi: int, ls: int, len: int)
    requires
        ls >= 1,
        ls * (SCALE as int) <= 0x7fffffffffffffff * 0x100000,
        len == isqrt_spec((ls * (SCALE as int)) as nat),
        0 <= fx_mul_spec(vi, vi) <= ls,
    ensures
        1024 <= len,
        fxabs(fx_div_spec(vi, len)) <= 2 * (SCALE as int),
{
    let s = SCALE as int;
    lemma_isqrt_exact(1024nat);
    lemma_isqrt_mono((1048576) as nat, (ls * s) as nat);
    assert(ls * s >= 1048576) by (nonlinear_arith)
        requires
            ls >= 1,
            s == 1048576,
    ;
    lemma_isqrt_property((ls * s) as nat);
    // vi * vi <= (ls + 1) * s - 1, from the rounded square being at most ls
    lemma_fundamental_div_mod(vi * vi, s);
    assert(0 <= vi * vi) by (nonlinear_arith);
    assert(vi * vi <= ls * s + s - 1) by (nonlinear_arith)
        requires
            s > 0,
            vi * vi == s * ((vi * vi) / s) + (vi * vi) % s,
            0 <= (vi * vi) % s < s,
            (vi * vi) / s <= ls,
    ;
    // hence |vi| <= 2 * len
    assert(fxabs(vi) <= 2 * len) by (nonlinear_arith)
        requires
            len >= 1024,
            s == 1048576,
            vi * vi <= ls * s + s - 1,
            ls * s < (len + 1) * (len + 1),
    ;
    lemma_div_tz_bounded(vi * s, len, 2 * len * s);
    assert(vi * s <= (2 * len) * s && -((2 * len) * s) <= vi * s) by (nonlinear_arith)
        requires
            fxabs(vi) <= 2 * len,
            s > 0,
    ;
    lemma_div_multiples_vanish(2 * s, len);
    assert(2 * len * s == len * (2 * s)) by (nonlinear_arith);
}

/// A point with each component drawn uniform in `[0, SCALE)`, and the state
/// after the three draws.
pub open spec fn random_spec(s: u64) -> (Vec3S, u64) {
    let s1 = rng_next_spec(s);
    let s2 = rng_next_spec(s1);
    let s3 = rng_next_spec(s2);
    (
        Vec3S {
            x: rng_unit_spec(s) as int,
            y: rng_unit_spec(s1) as int,
            z: rng_unit_spec(s2) as int,
        },
        s3,
    )
}

/// A point with each component drawn in `[lo, hi]`, and the state after.
pub open spec fn random_point_in_range_spec(s: u64, lo: int, hi: int) -> (Vec3S, u64) {
    let s1 = rng_next_spec(s);
    let s2 = rng_next_spec(s1);
    let s3 = rng_next_spec(s2);
    (
        Vec3S {
            x: rng_in_range_spec(s, lo, hi),
            y: rng_in_range_spec(s1, lo, hi),
            z: rng_in_range_spec(s2, lo, hi),
        },
        s3,
    )
}

/// A point with x and y drawn in `[-1, 1]` and z zero. This samples the
/// enclosing square, not a true disk: the lens model inherits that shape.
pub open spec fn random_in_unit_disk_spec(s: u64) -> (Vec3S, u64) {
    let s1 = rng_next_spec(s);
    let s2 = rng_next_spec(s1);
    (
        Vec3S {
            x: rng_in_range_spec(s, -(SCALE as int), SCALE as int),
            y: rng_in_range_spec(s1, -(SCALE as int), SCALE as int),
            z: 0,
        },
        s2,
    )
}

/// The rejection search for a unit direction: draw a point in the cube
/// `[-1, 1]^3` until its squared length lies in `(0, 1]`, then normalize;
/// when the fuel runs out, fall back to the z axis.
pub open spec fn ruv_loop_spec(s: u64, fuel: nat) -> (Vec3S, u64)
    decreases fuel,
{
    if fuel == 0 {
        (Vec3S { x: 0, y: 0, z: SCALE as int }, s)
    } else {
        let pr = random_point_in_range_spec(s, -(SCALE as int), SCALE as int);
        let lensq = vdot(pr.0, pr.0);
        if 0 < lensq <= SCALE as int {
            (vdiv(pr.0, sqrt_fx_spec(lensq)), pr.1)
        } else {
            ruv_loop_spec(pr.1, (fuel - 1) as nat)
        }
    }
}

/// A direction drawn uniformly from the unit sphere, and the state after.
pub open spec fn random_unit_vector_spec(s: u64) -> (Vec3S, u64) {
    ruv_loop_spec(s, UNIT_DRAWS as nat)
}

/// A unit direction in the hemisphere around a normal, and the state after.
pub open spec fn random_on_hemisphere_spec(n: Vec3S, s: u64) -> (Vec3S, u64) {
    let ur = random_unit_vector_spec(s);
    if vdot(ur.0, n) > 0 {
        ur
    } else {
        (vneg(ur.0), ur.1)
    }
}

/// Vector refraction of a unit direction `uv` at a surface with unit normal
/// `n` and refraction ratio `eta`: the perpendicular part is
/// `eta * (uv + cos . n)`, the parallel part closes the length back to one.
/// The radicand is clamped at zero where rounding would push it negative.
pub open spec fn vrefract(uv: Vec3S, n: Vec3S, eta: int) -> Vec3S {
    let dn = vdot(uv, n);
    let cos_theta = if -dn < SCALE as int {
        -dn
    } else {
        SCALE as int
    };
    let perp = vscale(vadd(uv, vscale(n, cos_theta)), eta);
    let rad = SCALE - vdot(perp, perp);
    let rad0 = if rad > 0 {
        rad
    } else {
        0
    };
    vadd(perp, vscale(n, -sqrt_fx_spec(rad0)))
}

/// A point, direction or color: three fixed-point components.
#[derive(Clone, Copy, Debug, PartialEq, Eq, Structural)]
pub struct Point3D {
    x: i64,
    y: i64,
    z: i64,
}

impl View for Point3D {
    type V = Vec3S;

    closed spec fn view(&self) -> Vec3S {
        Vec3S { x: self.x as int, y: self.y as int, z: self.z as int }
    }
}

impl Point3D {
    pub fn new(x: i64, y: i64, z: i64) -> (r: Point3D)
        ensures
            r@ == (Vec3S { x: x as int, y: y as int, z: z as int }),
    {
        Point3D { x, y, z }
    }

    pub fn x(&self) -> (r: i64)
        ensures
            r == self@.x,
    {
        self.x
    }

    pub fn y(&self) -> (r: i64)
        ensures
            r == self@.y,
    {
        self.y
    }

    pub fn z(&self) -> (r: i64)
        ensures
            r == self@.z,
    {
        self.z
    }

    /// Componentwise sum.
    pub fn add(&self, other: &Point3D) -> (r: Point3D)
        requires
            vadd_fits(self@, other@),
        ensures
            r@ == vadd(self@, other@),
    {
        Point3D { x: self.x + other.x, y: self.y + other.y, z: self.z + other.z }
    }

    /// Componentwise difference.
    pub fn sub(&self, other: &Point3D) -> (r: Point3D)
        requires
            vsub_fits(self@, other@),
        ensures
            r@ == vsub(self@, other@),
    {
        Point3D { x: self.x - other.x, y: self.y - other.y, z: self.z - other.z }
    }

    /// Componentwise negation.
    pub fn neg(&self) -> (r: Point3D)
        requires
            self@.x > i64::MIN,
            self@.y > i64::MIN,
            self@.z > i64::MIN,
        ensures
            r@ == vneg(self@),
    {
        Point3D { x: -self.x, y: -self.y, z: -self.z }
    }

    /// Componentwise fixed-point product.
    pub fn mul(&self, other: &Point3D) -> (r: Point3D)
        requires
            vmul_fits(self@, other@),
        ensures
            r@ == vmul(self@, other@),
    {
        Point3D {
            x: fx_mul(self.x, other.x),
            y: fx_mul(self.y, other.y),
            z: fx_mul(self.z, other.z),
        }
    }

    /// Scaling by a fixed-point scalar.
    pub fn scale(&self, s: i64) -> (r: Point3D)
        requires
            vscale_fits(self@, s as int),
        ensures
            r@ == vscale(self@, s as int),
    {
        Point3D { x: fx_mul(self.x, s), y: fx_mul(self.y, s), z: fx_mul(self.z, s) }
    }

    /// Division by a positive fixed-point scalar.
    pub fn div(&self, s: i64) -> (r: Point3D)
        requires
            s > 0,
            i64::MIN <= fx_div_spec(self@.x, s as int) <= i64::MAX,
            i64::MIN <= fx_div_spec(self@.y, s as int) <= i64::MAX,
            i64::MIN <= fx_div_spec(self@.z, s as int) <= i64::MAX,
        ensures
            r@ == vdiv(self@, s as int),
    {
        Point3D { x: fx_div(self.x, s), y: fx_div(self.y, s), z: fx_div(self.z, s) }
    }

    /// The fixed-point dot product.
    pub fn dot(&self, other: &Point3D) -> (r: i64)
        requires
            vbounded(self@, VEC_MAX as int),
            vbounded(other@, VEC_MAX as int),
        ensures
            r == vdot(self@, other@),
    {
        proof {
            lemma_vdot_terms(self@, other@);
            lemma_fx_mul_bounded(self@.x, other@.x, VEC_MAX as int, VEC_MAX as int);
            lemma_fx_mul_bounded(self@.y, other@.y, VEC_MAX as int, VEC_MAX as int);
            lemma_fx_mul_bounded(self@.z, other@.z, VEC_MAX as int, VEC_MAX as int);
            assert(((VEC_MAX as int) * (VEC_MAX as int)) / (SCALE as int) == 0x1000000000000000);
        }
        fx_mul(self.x, other.x) + fx_mul(self.y, other.y) + fx_mul(self.z, other.z)
    }

    /// The fixed-point cross product.
    pub fn cross(&self, other: &Point3D) -> (r: Point3D)
        requires
            vbounded(self@, VEC_MAX as int),
            vbounded(other@, VEC_MAX as int),
        ensures
            r@ == vcross(self@, other@),
    {
        proof {
            let m = VEC_MAX as int;
            lemma_fx_mul_bounded(self@.x, other@.x, m, m);
            lemma_fx_mul_bounded(self@.x, other@.y, m, m);
            lemma_fx_mul_bounded(self@.x, other@.z, m, m);
            lemma_fx_mul_bounded(self@.y, other@.x, m, m);
            lemma_fx_mul_bounded(self@.y, other@.y, m, m);
            lemma_fx_mul_bounded(self@.y, other@.z, m, m);
            lemma_fx_mul_bounded(self@.z, other@.x, m, m);
            lemma_fx_mul_bounded(self@.z, other@.y, m, m);
            lemma_fx_mul_bounded(self@.z, other@.z, m, m);
            assert((m * m) / (SCALE as int) == 0x1000000000000000);
        }
        Point3D {
            x: fx_mul(self.y, other.z) - fx_mul(self.z, other.y),
            y: fx_mul(self.z, other.x) - fx_mul(self.x, other.z),
            z: fx_mul(self.x, other.y) - fx_mul(self.y, other.x),
        }
    }

    /// The squared Euclidean length.
    pub fn length_squared(&self) -> (r: i64)
        requires
            vbounded(self@, VEC_MAX as int),
        ensures
            r == vdot(self@, self@),
            r >= 0,
    {
        proof {
            lemma_vdot_terms(self@, self@);
        }
        self.dot(self)
    }

    /// The Euclidean length, rounded down at the fixed-point scale.
    pub fn length(&self) -> (r: i64)
        requires
            vbounded(self@, VEC_MAX as int),
        ensures
            r == vlen(self@),
            r >= 0,
    {
        let ls = self.length_squared();
        sqrt_fx(ls)
    }

    /// True when the vector is close to zero in every component: below
    /// `1e-8` in magnitude, which at this scale means a zero raw value.
    pub fn near_zero(&self) -> (r: bool)
        ensures
            r == vnear_zero(self@),
    {
        self.x == 0 && self.y == 0 && self.z == 0
    }

    /// The vector scaled to unit length. The result's components stay within
    /// twice the fixed-point one, whatever rounding does.
    pub fn unit_vector(&self) -> (r: Point3D)
        requires
            vbounded(self@, VEC_MAX as int),
            vdot(self@, self@) > 0,
        ensures
            r@ == vunit(self@),
            vbounded(r@, 2 * (SCALE as int)),
            vlen(self@) >= 1024,
    {
        let ls = self.length_squared();
        let len = sqrt_fx(ls);
        proof {
            lemma_vdot_terms(self@, self@);
            lemma_unit_component_bound(self@.x, ls as int, len as int);
            lemma_unit_component_bound(self@.y, ls as int, len as int);
            lemma_unit_component_bound(self@.z, ls as int, len as int);
        }
        Point3D { x: fx_div(self.x, len), y: fx_div(self.y, len), z: fx_div(self.z, len) }
    }

    /// Mirror reflection of `self` about `normal`: `d - 2 (d . n) n`.
    pub fn reflect(&self, normal: &Point3D) -> (r: Point3D)
        requires
            vbounded(self@, VEC_MAX as int),
            vbounded(normal@, 4 * (SCALE as int)),
        ensures
            r@ == vreflect(self@, normal@),
            vbounded(r@, 97 * (VEC_MAX as int)),
    {
        let d = self.dot(normal);
        proof {
            let s = SCALE as int;
            let m = VEC_MAX as int;
            lemma_vdot_bounded(self@, normal@, m, 4 * s);
            assert(3 * ((m * (4 * s)) / s) == 12 * m);
            lemma_fx_mul_bounded(normal@.x, vdot(self@, normal@), 4 * s, 12 * m);
            lemma_fx_mul_bounded(normal@.y, vdot(self@, normal@), 4 * s, 12 * m);
            lemma_fx_mul_bounded(normal@.z, vdot(self@, normal@), 4 * s, 12 * m);
            assert(((4 * s) * (12 * m)) / s == 48 * m);
            let t = vscale(normal@, vdot(self@, normal@));
            lemma_fx_mul_bounded(t.x, 2 * s, 48 * m, 2 * s);
            lemma_fx_mul_bounded(t.y, 2 * s, 48 * m, 2 * s);
            lemma_fx_mul_bounded(t.z, 2 * s, 48 * m, 2 * s);
            assert(((48 * m) * (2 * s)) / s == 96 * m);
        }
        let nd = normal.scale(d);
        let nd2 = nd.scale(2 * SCALE);
        self.sub(&nd2)
    }

    /// Refraction of the unit direction `self` about the unit normal, with
    /// the given ratio of refraction indices.
    pub fn refract(&self, normal: &Point3D, etai_over_etat: i64) -> (r: Point3D)
        requires
            vbounded(self@, 2 * (SCALE as int)),
            vbounded(normal@, 2 * (SCALE as int)),
            0 < etai_over_etat <= 100 * (SCALE as int),
        ensures
            r@ == vrefract(self@, normal@, etai_over_etat as int),
            vbounded(r@, 2602 * (SCALE as int)),
    {
        let s2 = 2 * SCALE;
        proof {
            let s = SCALE as int;
            lemma_vdot_bounded(self@, normal@, 2 * s, 2 * s);
            assert(3 * (((2 * s) * (2 * s)) / s) == 12 * s) by (nonlinear_arith)
                requires
                    s == 1048576,
            ;
        }
        let dn = self.dot(normal);
        let cos_theta = if -dn < SCALE {
            -dn
        } else {
            SCALE
        };
        proof {
            let s = SCALE as int;
            lemma_fx_mul_bounded(normal@.x, cos_theta as int, 2 * s, 12 * s);
            lemma_fx_mul_bounded(normal@.y, cos_theta as int, 2 * s, 12 * s);
            lemma_fx_mul_bounded(normal@.z, cos_theta as int, 2 * s, 12 * s);
            assert(((2 * s) * (12 * s)) / s == 24 * s) by (nonlinear_arith)
                requires
                    s == 1048576,
            ;
            let inner = vadd(self@, vscale(normal@, cos_theta as int));
            lemma_fx_mul_bounded(inner.x, etai_over_etat as int, 26 * s, 100 * s);
            lemma_fx_mul_bounded(inner.y, etai_over_etat as int, 26 * s, 100 * s);
            lemma_fx_mul_bounded(inner.z, etai_over_etat as int, 26 * s, 100 * s);
            assert(((26 * s) * (100 * s)) / s == 2600 * s) by (nonlinear_arith)
                requires
                    s == 1048576,
            ;
        }
        let perp = self.add(&normal.scale(cos_theta)).scale(etai_over_etat);
        proof {
            let s = SCALE as int;
            lemma_vdot_terms(perp@, perp@);
        }
        let perp_ls = perp.length_squared();
        let rad = if SCALE - perp_ls > 0 {
            SCALE - perp_ls
        } else {
            0
        };
        let sq = sqrt_fx(rad);
        proof {
            let s = SCALE as int;
            crate::fixed::lemma_sqrt_fx_unit(rad as int);
            lemma_fx_mul_bounded(normal@.x, -(sq as int), 2 * s, s);
            lemma_fx_mul_bounded(normal@.y, -(sq as int), 2 * s, s);
            lemma_fx_mul_bounded(normal@.z, -(sq as int), 2 * s, s);
            assert(((2 * s) * s) / s == 2 * s) by (nonlinear_arith)
                requires
                    s == 1048576,
            ;
        }
        let par = normal.scale(-sq);
        perp.add(&par)
    }

    /// A point with each component drawn uniform in `[0, 1)`.
    pub fn random(rng: &mut Rng) -> (r: Point3D)
        ensures
            r@ == random_spec(old(rng)@).0,
            final(rng)@ == random_spec(old(rng)@).1,
            vbounded(r@, SCALE as int),
    {
        let x = rng.next_unit();
        let y = rng.next_unit();
        let z = rng.next_unit();
        Point3D { x, y, z }
    }

    /// A point with each component drawn in `[lo, hi]`.
    pub fn random_point_in_range(lo: i64, hi: i64, rng: &mut Rng) -> (r: Point3D)
        requires
            lo <= hi,
            -0x10000000000 <= lo,
            hi <= 0x10000000000,
        ensures
            r@ == random_point_in_range_spec(old(rng)@, lo as int, hi as int).0,
            final(rng)@ == random_point_in_range_spec(old(rng)@, lo as int, hi as int).1,
            lo <= r@.x <= hi && lo <= r@.y <= hi && lo <= r@.z <= hi,
    {
        let x = rng.next_in_range(lo, hi);
        let y = rng.next_in_range(lo, hi);
        let z = rng.next_in_range(lo, hi);
        Point3D { x, y, z }
    }

    /// A lens sample: x and y drawn in `[-1, 1]`, z zero. This samples the
    /// square enclosing the unit disk, not the disk itself; the shape is
    /// kept as the lens model defines it.
    pub fn random_in_unit_disk(rng: &mut Rng) -> (r: Point3D)
        ensures
            r@ == random_in_unit_disk_spec(old(rng)@).0,
            final(rng)@ == random_in_unit_disk_spec(old(rng)@).1,
            vbounded(r@, SCALE as int),
            r@.z == 0,
    {
        let x = rng.next_in_range(-SCALE, SCALE);
        let y = rng.next_in_range(-SCALE, SCALE);
        Point3D { x, y, z: 0 }
    }

    /// A direction drawn uniformly from the unit sphere by rejection
    /// sampling over the enclosing cube.
    pub fn random_unit_vector(rng: &mut Rng) -> (r: Point3D)
        ensures
            r@ == random_unit_vector_spec(old(rng)@).0,
            final(rng)@ == random_unit_vector_spec(old(rng)@).1,
            vbounded(r@, 2 * (SCALE as int)),
    {
        ruv_go(rng, UNIT_DRAWS)
    }

    /// A unit direction lying in the hemisphere around the given normal.
    pub fn random_on_hemisphere(normal: &Point3D, rng: &mut Rng) -> (r: Point3D)
        requires
            vbounded(normal@, VEC_MAX as int),
        ensures
            r@ == random_on_hemisphere_spec(normal@, old(rng)@).0,
            final(rng)@ == random_on_hemisphere_spec(normal@, old(rng)@).1,
            vbounded(r@, 2 * (SCALE as int)),
    {
        let u = Point3D::random_unit_vector(rng);
        if u.dot(normal) > 0 {
            u
        } else {
            u.neg()
        }
    }
}

/// One step of the rejection search for a unit direction.
fn ruv_go(rng: &mut Rng, fuel: u64) -> (r: Point3D)
    ensures
        r@ == ruv_loop_spec(old(rng)@, fuel as nat).0,
        final(rng)@ == ruv_loop_spec(old(rng)@, fuel as nat).1,
        vbounded(r@, 2 * (SCALE as int)),
    decreases fuel,
{
    if fuel == 0 {
        return Point3D { x: 0, y: 0, z: SCALE };
    }
    let p = Point3D::random_point_in_range(-SCALE, SCALE, rng);
    let lensq = p.length_squared();
    if 0 < lensq && lensq <= SCALE {
        let len = sqrt_fx(lensq);
        proof {
            lemma_vdot_terms(p@, p@);
            lemma_unit_component_bound(p@.x, lensq as int, len as int);
            lemma_unit_component_bound(p@.y, lensq as int, len as int);
            lemma_unit_component_bound(p@.z, lensq as int, len as int);
        }
        p.div(len)
    } else {
        ruv_go(rng, fuel - 1)
    }
}

} // verus!
