//! The sphere: the one concrete geometry, with analytic ray intersection.

use vstd::prelude::*;
use crate::fixed::{
    SCALE, div_tz, fxabs, fx_mul_spec, isqrt_spec,
    fx_mul,
    lemma_fx_mul_bounded, lemma_fx_div_ratio_bound,
    lemma_isqrt_property,
};
use crate::point3d::{
    Point3D, Vec3S, vsub, vneg, vdot, vdiv, vbounded,
    vsub_fits, VEC_MAX,
    lemma_vdot_bounded, lemma_vdot_neg,
};
use crate::ray::{Ray, RayS, ray_at_spec};
use crate::material::{Material, MatS, mat_wf};
use crate::hittable::{
    Hittable, HitRecord, HitRecS, rec_wf, ray_wf, COORD_MAX, RAY_MAX, T_MAX,
};

verus! {

/// The mathematical value of a sphere.
pub ghost struct SphereS {
    pub center: Vec3S,
    pub radius: int,
    pub material: MatS,
}

/// What a constructed sphere satisfies: center within the scene bound, a
/// nonnegative radius within it too, a well-formed material.
pub open spec fn sphere_wf(s: SphereS) -> bool {
    &&& vbounded(s.center, COORD_MAX as int)
    &&& 0 <= s.radius <= COORD_MAX as int
    &&& mat_wf(s.material)
}

/// The quadratic coefficient `a = d . d` of the intersection equation
/// `a t^2 - 2 b t + c = 0`.
pub open spec fn sphere_qa(sph: SphereS, r: RayS) -> int {
    vdot(r.dir, r.dir)
}

/// The half-coefficient `b = d . (center - origin)`.
pub open spec fn sphere_qb(sph: SphereS, r: RayS) -> int {
    vdot(r.dir, vsub(sph.center, r.orig))
}

/// The constant coefficient `c = |center - origin|^2 - radius^2`.
pub open spec fn sphere_qc(sph: SphereS, r: RayS) -> int {
    vdot(vsub(sph.center, r.orig), vsub(sph.center, r.orig)) - fx_mul_spec(
        sph.radius,
        sph.radius,
    )
}

/// The discriminant `b^2 - a c`, exact: products of the rounded
/// coefficients, not themselves rounded.
pub open spec fn sphere_disc(sph: SphereS, r: RayS) -> int {
    sphere_qb(sph, r) * sphere_qb(sph, r) - sphere_qa(sph, r) * sphere_qc(sph, r)
}

/// The nearer root `(b - sqrt(disc)) / a`.
pub open spec fn sphere_root_near(sph: SphereS, r: RayS) -> int {
    div_tz(
        (sphere_qb(sph, r) - isqrt_spec(sphere_disc(sph, r) as nat)) * (SCALE as int),
        sphere_qa(sph, r),
    )
}

/// The farther root `(b + sqrt(disc)) / a`.
pub open spec fn sphere_root_far(sph: SphereS, r: RayS) -> int {
    div_tz(
        (sphere_qb(sph, r) + isqrt_spec(sphere_disc(sph, r) as nat)) * (SCALE as int),
        sphere_qa(sph, r),
    )
}

/// The geometric outward normal at the point the ray reaches at `t`:
/// `(p - center) / radius`.
pub open spec fn sphere_outward(sph: SphereS, r: RayS, t: int) -> Vec3S {
    vdiv(vsub(ray_at_spec(r, t), sph.center), sph.radius)
}

/// A root is accepted when it lies strictly inside the open interval and the
/// point it names lies on the sphere as far as rounding can tell: each
/// component of `p - center` within twice the radius. A true intersection
/// point always satisfies that; the test only fences rounding.
pub open spec fn sphere_root_ok(sph: SphereS, r: RayS, t: int, tmin: int, tmax: int) -> bool {
    &&& tmin < t < tmax
    &&& vbounded(vsub(ray_at_spec(r, t), sph.center), 2 * sph.radius)
}

/// The record built for an accepted root: the stored normal is the outward
/// normal, flipped to oppose the ray when the hit is not front-facing.
pub open spec fn sphere_rec(sph: SphereS, r: RayS, t: int) -> HitRecS {
    let outward = sphere_outward(sph, r, t);
    let ff = vdot(r.dir, outward) < 0;
    HitRecS {
        p: ray_at_spec(r, t),
        normal: if ff {
            outward
        } else {
            vneg(outward)
        },
        t: t,
        front_face: ff,
        material: sph.material,
    }
}

/// The intersection answer: no hit for a degenerate direction or a
/// degenerate (radius zero) sphere or a negative discriminant; otherwise the
/// nearer root is tried first, then the farther, and the first accepted one
/// yields the record.
pub open spec fn sphere_hit_spec(sph: SphereS, r: RayS, tmin: int, tmax: int) -> Option<
    HitRecS,
> {
    if sphere_qa(sph, r) <= 0 || sph.radius <= 0 {
        Option::None
    } else if sphere_disc(sph, r) < 0 {
        Option::None
    } else if sphere_root_ok(sph, r, sphere_root_near(sph, r), tmin, tmax) {
        Option::Some(sphere_rec(sph, r, sphere_root_near(sph, r)))
    } else if sphere_root_ok(sph, r, sphere_root_far(sph, r), tmin, tmax) {
        Option::Some(sphere_rec(sph, r, sphere_root_far(sph, r)))
    } else {
        Option::None
    }
}

/// The quadratic's coefficients are small enough that the discriminant and
/// both root numerators fit comfortably in 128 bits.
proof fn lemma_disc_fits(a: int, b: int, c: int)
    requires
        fxabs(a) <= 0xC00000000000000,
        fxabs(b) <= 0x3000000000000000,
        fxabs(c) <= 0x3000010000000000,
    ensures
        -0x10000000000000000000000000000000 <= b * b <= 0x10000000000000000000000000000000,
        -0x10000000000000000000000000000000 <= a * c <= 0x10000000000000000000000000000000,
        -0x20000000000000000000000000000000 <= b * b - a * c
            <= 0x20000000000000000000000000000000,
{
    assert(b * b <= 0x10000000000000000000000000000000 && b * b >= 0) by (nonlinear_arith)
        requires
            fxabs(b) <= 0x3000000000000000,
    ;
    assert(-0x10000000000000000000000000000000 <= a * c <= 0x10000000000000000000000000000000)
        by (nonlinear_arith)
        requires
            fxabs(a) <= 0xC00000000000000,
            fxabs(c) <= 0x3000010000000000,
    ;
}

/// A sphere: center, radius and the material on its surface.
pub struct Sphere {
    center: Point3D,
    radius: i64,
    material: Material,
}

impl View for Sphere {
    type V = SphereS;

    closed spec fn view(&self) -> SphereS {
        SphereS { center: self.center@, radius: self.radius as int, material: self.material@ }
    }
}

impl Sphere {
    /// A sphere from its data; a negative radius is silently clamped to
    /// zero, making a degenerate sphere that nothing intersects.
    pub fn new(center: Point3D, radius: i64, material: Material) -> (r: Sphere)
        requires
            vbounded(center@, COORD_MAX as int),
            radius <= COORD_MAX,
            mat_wf(material@),
        ensures
            r@ == (SphereS {
                center: center@,
                radius: if radius < 0 {
                    0
                } else {
                    radius as int
                },
                material: material@,
            }),
            sphere_wf(r@),
    {
        let rad = if radius < 0 {
            0
        } else {
            radius
        };
        Sphere { center, radius: rad, material }
    }
}

impl Hittable for Sphere {
    open spec fn hit_model(&self, r: RayS, tmin: int, tmax: int) -> Option<HitRecS> {
        sphere_hit_spec(self@, r, tmin, tmax)
    }

    open spec fn geom_wf(&self) -> bool {
        sphere_wf(self@)
    }

    fn hit(&self, r: &Ray, ray_tmin: i64, ray_tmax: i64) -> (res: Option<HitRecord>) {
        let d = r.direction();
        let orig = r.origin();
        proof {
            assert(vsub_fits(self.center@, orig@));
        }
        let oc = self.center.sub(&orig);
        proof {
            lemma_vdot_bounded(d@, d@, RAY_MAX as int, RAY_MAX as int);
            lemma_vdot_bounded(d@, oc@, VEC_MAX as int, VEC_MAX as int);
            lemma_vdot_bounded(oc@, oc@, VEC_MAX as int, VEC_MAX as int);
            lemma_fx_mul_bounded(self@.radius, self@.radius, COORD_MAX as int, COORD_MAX as int);
        }
        let a = d.dot(&d);
        let b = d.dot(&oc);
        let c = oc.length_squared() - fx_mul(self.radius, self.radius);
        if a <= 0 || self.radius <= 0 {
            return None;
        }
        proof {
            assert(3 * (((RAY_MAX as int) * (RAY_MAX as int)) / (SCALE as int))
                == 0xC00000000000000) by (nonlinear_arith)
                requires
                    RAY_MAX == 0x8000000000,
                    SCALE == 1048576,
            ;
            assert(3 * (((VEC_MAX as int) * (VEC_MAX as int)) / (SCALE as int))
                == 0x3000000000000000) by (nonlinear_arith)
                requires
                    VEC_MAX == 0x10000000000,
                    SCALE == 1048576,
            ;
            assert(((COORD_MAX as int) * (COORD_MAX as int)) / (SCALE as int) == 0x10000000000)
                by (nonlinear_arith)
                requires
                    COORD_MAX == 0x40000000,
                    SCALE == 1048576,
            ;
            lemma_disc_fits(a as int, b as int, c as int);
        }
        let disc: i128 = (b as i128) * (b as i128) - (a as i128) * (c as i128);
        proof {
            assert(disc == sphere_disc(self@, r@));
        }
        if disc < 0 {
            return None;
        }
        let sq: i128 = crate::fixed::isqrt_u128(disc as u128) as i128;
        proof {
            lemma_isqrt_property(disc as nat);
            assert((sq as int) * (sq as int) <= disc as int);
            assert(0 <= sq as int <= 0x8000000000000000) by (nonlinear_arith)
                requires
                    (sq as int) * (sq as int) <= disc as int,
                    sq >= 0,
                    disc <= 0x20000000000000000000000000000000,
            ;
        }
        proof {
            assert(forall|x: int|
                -0xB000000000000000 <= x <= 0xB000000000000000 ==> -0xB00000000000000000000 <= (
                #[trigger] (x * 1048576)) <= 0xB00000000000000000000) by (nonlinear_arith);
            assert(-0xB000000000000000 <= (b as i128) - sq <= 0xB000000000000000);
        }
        let num_near: i128 = ((b as i128) - sq) * (SCALE as i128);
        let num_far: i128 = ((b as i128) + sq) * (SCALE as i128);
        let root_near: i128 = crate::fixed::div_tz_i128(num_near, a as i128);
        let root_far: i128 = crate::fixed::div_tz_i128(num_far, a as i128);
        proof {
            assert(root_near == sphere_root_near(self@, r@));
            assert(root_far == sphere_root_far(self@, r@));
        }
        let res_near = self.try_root(r, root_near, ray_tmin, ray_tmax);
        if let Some(h) = res_near {
            return Some(h);
        }
        let res_far = self.try_root(r, root_far, ray_tmin, ray_tmax);
        if let Some(h) = res_far {
            return Some(h);
        }
        None
    }
}

impl Sphere {
    /// Test one root of the quadratic; build the record when it is accepted.
    fn try_root(&self, r: &Ray, root: i128, ray_tmin: i64, ray_tmax: i64) -> (res: Option<
        HitRecord,
    >)
        requires
            sphere_wf(self@),
            ray_wf(r@),
            0 <= ray_tmin,
            ray_tmax <= T_MAX,
            self@.radius > 0,
            vdot(r@.dir, r@.dir) > 0,
        ensures
            match res {
                Option::Some(h) => {
                    &&& sphere_root_ok(self@, r@, root as int, ray_tmin as int, ray_tmax as int)
                    &&& h@ == sphere_rec(self@, r@, root as int)
                    &&& rec_wf(h@)
                    &&& ray_tmin < h@.t < ray_tmax
                    &&& vdot(r@.dir, h@.normal) <= 0
                },
                Option::None => !sphere_root_ok(
                    self@,
                    r@,
                    root as int,
                    ray_tmin as int,
                    ray_tmax as int,
                ),
            },
    {
        if !((ray_tmin as i128) < root && root < (ray_tmax as i128)) {
            return None;
        }
        let t = root as i64;
        let d = r.direction();
        proof {
            lemma_fx_mul_bounded(r@.dir.x, t as int, RAY_MAX as int, T_MAX as int);
            lemma_fx_mul_bounded(r@.dir.y, t as int, RAY_MAX as int, T_MAX as int);
            lemma_fx_mul_bounded(r@.dir.z, t as int, RAY_MAX as int, T_MAX as int);
            assert(((RAY_MAX as int) * (T_MAX as int)) / (SCALE as int) == 0x4000000000000000);
        }
        let p = r.at(t);
        proof {
            assert(vsub_fits(p@, self.center@));
        }
        let diff = p.sub(&self.center);
        let lim = 2 * self.radius;
        if !(-lim <= diff.x() && diff.x() <= lim && -lim <= diff.y() && diff.y() <= lim && -lim
            <= diff.z() && diff.z() <= lim) {
            return None;
        }
        proof {
            lemma_fx_div_ratio_bound(diff@.x, self@.radius, 2);
            lemma_fx_div_ratio_bound(diff@.y, self@.radius, 2);
            lemma_fx_div_ratio_bound(diff@.z, self@.radius, 2);
        }
        let outward = diff.div(self.radius);
        let fd = d.dot(&outward);
        let front_face = fd < 0;
        let normal = if front_face {
            outward
        } else {
            proof {
                lemma_vdot_neg(r@.dir, outward@);
            }
            outward.neg()
        };
        proof {
            assert(vbounded(sphere_rec(self@, r@, root as int).p, 3 * (COORD_MAX as int)));
        }
        Some(HitRecord::new(p, normal, t, front_face, self.material))
    }
}

} // verus!
