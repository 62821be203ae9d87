//! Laws of the tracer: what holds of every input, proved once and for all.

use vstd::prelude::*;
use crate::fixed::{
    SCALE, div_tz, fx_mul_spec, fx_div_spec, sqrt_fx_spec, lemma_fx_mul_zero, lemma_fx_mul_one,
    lemma_fx_mul_neg, lemma_isqrt_exact,
};
use crate::point3d::{Vec3S, vadd, vneg, vscale, vdot, vunit, vnear_zero, vreflect};
use crate::ray::RayS;
use crate::hittable::{HitRecS, list_hit_spec, T_MAX};
use crate::material::{
    lambertian_scatter_spec, metal_scatter_spec, dielectric_scatter_spec,
};
use crate::point3d::{random_unit_vector_spec, vrefract};
use crate::material::reflectance_spec;
use crate::sphere::{SphereS, sphere_hit_spec, sphere_outward, sphere_disc, sphere_qa, sphere_qb};
use crate::render::{ray_color_spec, background_spec, T_MIN_HIT};
use crate::color::{channel_byte_spec, clamp_spec};

verus! {

/// With the bounce budget spent, a ray carries back exactly black, whatever
/// the scene holds, and draws nothing from the random source.
pub proof fn lemma_ray_color_depth_zero(ss: Seq<SphereS>, ray: RayS, s: u64)
    ensures
        ray_color_spec(ss, ray, 0, s).0 == (Vec3S { x: 0, y: 0, z: 0 }),
        ray_color_spec(ss, ray, 0, s).1 == s,
{
}

/// A ray that intersects nothing carries back exactly the background
/// gradient of its normalized direction, and draws nothing from the random
/// source.
pub proof fn lemma_ray_color_miss(ss: Seq<SphereS>, ray: RayS, depth: nat, s: u64)
    requires
        depth > 0,
        vdot(ray.dir, ray.dir) > 0,
        list_hit_spec(ss, ray, T_MIN_HIT as int, T_MAX as int) is None,
    ensures
        ray_color_spec(ss, ray, depth, s).0 == background_spec(vunit(ray.dir)),
        ray_color_spec(ss, ray, depth, s).1 == s,
{
}

/// The parabola `a t^2 - 2 b t + c` is symmetric about `b / a`: any two
/// parameters whose sum is `2 b / a` (stated without division as
/// `a (t1 + t2) == 2 b`) give it equal values. For a ray through a sphere's
/// exact center, `b == k a` with `k` the center's ray parameter, so the two
/// intersection parameters are symmetric about the center's.
pub proof fn lemma_quadratic_symmetry(a: int, b: int, c: int, t1: int, t2: int)
    requires
        a * (t1 + t2) == 2 * b,
    ensures
        a * (t1 * t1) - 2 * b * t1 + c == a * (t2 * t2) - 2 * b * t2 + c,
{
    assert(a * (t1 * t1) - 2 * b * t1 == a * (t2 * t2) - 2 * b * t2) by (nonlinear_arith)
        requires
            a * (t1 + t2) == 2 * b,
    ;
}

/// A ray through the exact center of a sphere: when the offset to the center
/// is `k` times the direction, the exact coefficient `b` is `k a`, and the
/// squared offset is `k^2 a` — the axis of symmetry sits at the center's
/// parameter `k = |oc| / |d|`.
pub proof fn lemma_center_ray_axis(dx: int, dy: int, dz: int, k: int)
    ensures
        dx * (k * dx) + dy * (k * dy) + dz * (k * dz) == k * (dx * dx + dy * dy + dz * dz),
        (k * dx) * (k * dx) + (k * dy) * (k * dy) + (k * dz) * (k * dz) == (k * k) * (dx * dx + dy
            * dy + dz * dz),
{
    assert(dx * (k * dx) + dy * (k * dy) + dz * (k * dz) == k * (dx * dx + dy * dy + dz * dz))
        by (nonlinear_arith);
    assert((k * dx) * (k * dx) + (k * dy) * (k * dy) + (k * dz) * (k * dz) == (k * k) * (dx * dx
        + dy * dy + dz * dz)) by (nonlinear_arith);
}

/// A tangent ray: when the squared distance from the center to the ray's
/// line equals the squared radius — `|oc|^2 |d|^2 - b^2 == r^2 |d|^2`, over
/// the same rounded coefficients the intersection uses — the discriminant of
/// the sphere's quadratic is exactly zero.
pub proof fn lemma_tangent_discriminant(sph: SphereS, r: RayS)
    requires
        vdot(vsub_oc(sph, r), vsub_oc(sph, r)) * sphere_qa(sph, r) - sphere_qb(sph, r)
            * sphere_qb(sph, r) == fx_mul_spec(sph.radius, sph.radius) * sphere_qa(sph, r),
    ensures
        sphere_disc(sph, r) == 0,
{
    let a = sphere_qa(sph, r);
    let b = sphere_qb(sph, r);
    let oc2 = vdot(vsub_oc(sph, r), vsub_oc(sph, r));
    let r2 = fx_mul_spec(sph.radius, sph.radius);
    assert(b * b - a * (oc2 - r2) == 0) by (nonlinear_arith)
        requires
            oc2 * a - b * b == r2 * a,
    ;
}

/// The offset from a ray's origin to a sphere's center.
pub open spec fn vsub_oc(sph: SphereS, r: RayS) -> Vec3S {
    crate::point3d::vsub(sph.center, r.orig)
}

/// Every sphere hit is front-facing exactly when the ray direction has
/// negative dot product with the raw outward normal, and the stored normal
/// always has non-positive dot product with the ray direction.
pub proof fn lemma_sphere_hit_orientation(sph: SphereS, r: RayS, tmin: int, tmax: int)
    ensures
        match sphere_hit_spec(sph, r, tmin, tmax) {
            Option::Some(h) => {
                &&& h.front_face == (vdot(r.dir, sphere_outward(sph, r, h.t)) < 0)
                &&& h.normal == if h.front_face {
                    sphere_outward(sph, r, h.t)
                } else {
                    vneg(sphere_outward(sph, r, h.t))
                }
                &&& vdot(r.dir, h.normal) <= 0
            },
            Option::None => true,
        },
{
    match sphere_hit_spec(sph, r, tmin, tmax) {
        Option::Some(h) => {
            crate::point3d::lemma_vdot_neg(r.dir, sphere_outward(sph, r, h.t));
        },
        Option::None => {},
    }
}

/// Diffuse scattering always succeeds: the attenuation is exactly the
/// albedo, the ray leaves from the hit point, and its direction is the
/// normal plus the drawn unit vector — the normal alone only when that sum
/// vanishes at this scale.
pub proof fn lemma_lambertian_always_scatters(albedo: Vec3S, rec: HitRecS, s: u64)
    ensures
        lambertian_scatter_spec(albedo, rec, s).out matches Some(pair) && pair.1 == albedo
            && pair.0.orig == rec.p && pair.0.dir == (if vnear_zero(
            vadd(rec.normal, random_unit_vector_spec(s).0),
        ) {
            rec.normal
        } else {
            vadd(rec.normal, random_unit_vector_spec(s).0)
        }),
{
}

/// Metal scattering with zero fuzz: whenever it succeeds, the outgoing
/// direction is exactly the normalized mirror reflection
/// `unit(d - 2 (d . n) n)` of the unit incoming direction, and the
/// attenuation is exactly the albedo.
pub proof fn lemma_metal_mirror(albedo: Vec3S, r_in: RayS, rec: HitRecS, s: u64)
    ensures
        metal_scatter_spec(albedo, 0, r_in, rec, s).out matches Some(pair) ==> pair.1 == albedo
            && pair.0.orig == rec.p && pair.0.dir == vunit(
            vreflect(vunit(r_in.dir), rec.normal),
        ),
{
    let u = random_unit_vector_spec(s).0;
    lemma_fx_mul_zero(u.x);
    lemma_fx_mul_zero(u.y);
    lemma_fx_mul_zero(u.z);
    assert(vscale(u, 0) == (Vec3S { x: 0, y: 0, z: 0 }));
    let refl = vreflect(vunit(r_in.dir), rec.normal);
    assert(vadd(vunit(refl), vscale(u, 0)) == vunit(refl));
}

/// Glass scattering always succeeds, leaves from the hit point, and carries
/// a pure white attenuation: glass absorbs no color.
pub proof fn lemma_dielectric_always_scatters(ri: int, r_in: RayS, rec: HitRecS, s: u64)
    ensures
        dielectric_scatter_spec(ri, r_in, rec, s).out matches Some(pair) && pair.1 == (Vec3S {
            x: SCALE as int,
            y: SCALE as int,
            z: SCALE as int,
        }) && pair.0.orig == rec.p,
{
}


/// The square of a difference, expanded.
proof fn lemma_square_of_difference(aa: int, bb: int)
    by (nonlinear_arith)
    ensures
        (aa - bb) * (aa - bb) == aa * aa - 2 * (aa * bb) + bb * bb,
{
}

/// One component of the perpendicular part, squared and expanded.
proof fn lemma_perp_component_square(w2: int, u: int, p: int, n: int)
    ensures
        (w2 * u - p * n) * (w2 * u - p * n) == (w2 * w2) * (u * u) - 2 * ((w2 * p) * (u * n)) + (p
            * p) * (n * n),
{
    lemma_square_of_difference(w2 * u, p * n);
    assert((w2 * u) * (w2 * u) == (w2 * w2) * (u * u)) by (nonlinear_arith);
    assert((w2 * u) * (p * n) == (w2 * p) * (u * n)) by (nonlinear_arith);
    assert((p * n) * (p * n) == (p * p) * (n * n)) by (nonlinear_arith);
}

/// Refraction at a ratio of one does not bend light, exactly. Over unscaled
/// integers: for `u` and `n` both of squared length `W^2`, with
/// `p = u . n <= 0`, the perpendicular part `P_i = W^2 u_i - p n_i`
/// satisfies `|P|^2 == W^6 - (W p)^2`; the closing root is exactly `-W p`;
/// and the refracted vector `W P_i - s n_i` is `W^3 u_i` — the incoming
/// direction scaled by a positive factor, so its direction is unchanged.
pub proof fn lemma_refract_identity(
    ux: int,
    uy: int,
    uz: int,
    nx: int,
    ny: int,
    nz: int,
    ww: int,
    p: int,
    sq: int,
)
    requires
        ww > 0,
        ux * ux + uy * uy + uz * uz == ww * ww,
        nx * nx + ny * ny + nz * nz == ww * ww,
        p == ux * nx + uy * ny + uz * nz,
        p <= 0,
        sq >= 0,
        sq * sq == ((ww * ww) * (ww * ww)) * (ww * ww) - ((ww * ww * ux - p * nx) * (ww * ww * ux
            - p * nx) + (ww * ww * uy - p * ny) * (ww * ww * uy - p * ny) + (ww * ww * uz - p
            * nz) * (ww * ww * uz - p * nz)),
    ensures
        sq == -p * ww,
        ww * (ww * ww * ux - p * nx) - sq * nx == ((ww * ww) * ww) * ux,
        ww * (ww * ww * uy - p * ny) - sq * ny == ((ww * ww) * ww) * uy,
        ww * (ww * ww * uz - p * nz) - sq * nz == ((ww * ww) * ww) * uz,
{
    let w2 = ww * ww;
    lemma_perp_component_square(w2, ux, p, nx);
    lemma_perp_component_square(w2, uy, p, ny);
    lemma_perp_component_square(w2, uz, p, nz);
    assert((w2 * w2) * (ux * ux) + (w2 * w2) * (uy * uy) + (w2 * w2) * (uz * uz) == (w2 * w2)
        * w2) by (nonlinear_arith)
        requires
            ux * ux + uy * uy + uz * uz == w2,
    ;
    assert((w2 * p) * (ux * nx) + (w2 * p) * (uy * ny) + (w2 * p) * (uz * nz) == (w2 * p) * p)
        by (nonlinear_arith)
        requires
            p == ux * nx + uy * ny + uz * nz,
    ;
    assert((p * p) * (nx * nx) + (p * p) * (ny * ny) + (p * p) * (nz * nz) == (p * p) * w2)
        by (nonlinear_arith)
        requires
            nx * nx + ny * ny + nz * nz == w2,
    ;
    assert((w2 * w2) * w2 - 2 * ((w2 * p) * p) + (p * p) * w2 == ((ww * ww) * (ww * ww)) * (ww
        * ww) - ((ww * p) * (ww * p))) by (nonlinear_arith)
        requires
            w2 == ww * ww,
    ;
    assert((ww * ww * ux - p * nx) * (ww * ww * ux - p * nx) + (ww * ww * uy - p * ny) * (ww * ww
        * uy - p * ny) + (ww * ww * uz - p * nz) * (ww * ww * uz - p * nz) == ((ww * ww) * (ww
        * ww)) * (ww * ww) - ((ww * p) * (ww * p)));
    assert(sq == -p * ww) by (nonlinear_arith)
        requires
            sq >= 0,
            p <= 0,
            ww > 0,
            sq * sq == (ww * p) * (ww * p),
    ;
    assert(ww * (ww * ww * ux - p * nx) - (-p * ww) * nx == ((ww * ww) * ww) * ux)
        by (nonlinear_arith);
    assert(ww * (ww * ww * uy - p * ny) - (-p * ww) * ny == ((ww * ww) * ww) * uy)
        by (nonlinear_arith);
    assert(ww * (ww * ww * uz - p * nz) - (-p * ww) * nz == ((ww * ww) * ww) * uz)
        by (nonlinear_arith);
}

/// A dielectric with refraction index one does not bend a head-on ray: when
/// the unit incoming direction is exactly opposite the unit normal, the
/// scatter refracts and the outgoing direction equals the incoming one, on a
/// front face and on a back face alike.
pub proof fn lemma_dielectric_unit_ratio_straight(r_in: RayS, rec: HitRecS, s: u64)
    requires
        vunit(r_in.dir) == vneg(rec.normal),
        vdot(rec.normal, rec.normal) == SCALE as int,
    ensures
        dielectric_scatter_spec(SCALE as int, r_in, rec, s).out matches Some(pair) && pair.0.dir
            == vunit(r_in.dir),
{
    let sc = SCALE as int;
    let n = rec.normal;
    let uv = vunit(r_in.dir);
    // the ratio is one on either face
    vstd::arithmetic::div_mod::lemma_div_multiples_vanish(sc, sc);
    assert(fx_div_spec(sc, sc) == sc);
    // head-on: the cosine is exactly one
    lemma_fx_mul_neg(n.x, n.x);
    lemma_fx_mul_neg(n.y, n.y);
    lemma_fx_mul_neg(n.z, n.z);
    assert(vdot(uv, n) == -sc);
    // so the sine vanishes and nothing reflects: the Schlick value is zero
    lemma_fx_mul_one(sc);
    assert(fx_mul_spec(sc, sc) == sc);
    assert(sqrt_fx_spec(0) == 0);
    lemma_fx_mul_zero(sc);
    assert(div_tz(0 * sc, 2 * sc) == 0);
    assert(fx_div_spec(0, 2 * sc) == 0);
    assert(reflectance_spec(sc, sc) == 0);
    crate::rng::lemma_rng_unit_range(s);
    // the refraction at ratio one: the perpendicular part vanishes and the
    // parallel part restores the incoming direction exactly
    lemma_fx_mul_one(n.x);
    lemma_fx_mul_one(n.y);
    lemma_fx_mul_one(n.z);
    assert(vscale(n, sc) == n);
    assert(vadd(uv, n) == (Vec3S { x: 0, y: 0, z: 0 }));
    lemma_fx_mul_zero(sc);
    assert(vscale(Vec3S { x: 0, y: 0, z: 0 }, sc) == (Vec3S { x: 0, y: 0, z: 0 }));
    assert(vdot(Vec3S { x: 0, y: 0, z: 0 }, Vec3S { x: 0, y: 0, z: 0 }) == 0);
    lemma_isqrt_exact(SCALE as nat);
    assert((SCALE as nat) * (SCALE as nat) == ((SCALE as int) * (SCALE as int)) as nat);
    assert(sqrt_fx_spec(sc) == sc);
    lemma_fx_mul_neg(n.x, sc);
    lemma_fx_mul_neg(n.y, sc);
    lemma_fx_mul_neg(n.z, sc);
    assert(vscale(n, -sc) == vneg(n));
    assert(vrefract(uv, n, sc) == uv);
}

/// Gamma correction of a black channel stays black, and a full channel
/// quantizes to the greatest byte under the clamp ceiling.
pub proof fn lemma_gamma_endpoints()
    ensures
        channel_byte_spec(0) == 0,
        channel_byte_spec(SCALE as int) == 255,
{
    lemma_isqrt_exact(SCALE as nat);
    assert((SCALE as nat) * (SCALE as nat) == ((SCALE as int) * (SCALE as int)) as nat);
    assert(sqrt_fx_spec(SCALE as int) == SCALE as int);
    assert(clamp_spec(SCALE as int, 0, 1047527) == 1047527);
    assert(div_tz(1047527int * 256, SCALE as int) == 255);
    assert(div_tz(0int * 256, SCALE as int) == 0);
}

} // verus!
