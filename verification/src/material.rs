//! The material model: a closed variant over three scattering behaviors.

use vstd::prelude::*;
use crate::fixed::{
    SCALE, fx_mul_spec, fx_div_spec, sqrt_fx_spec, fx_mul, fx_div, sqrt_fx,
    lemma_fx_mul_bounded, lemma_fx_div_ratio_bound, lemma_sqrt_fx_unit,
    lemma_div_tz_bounded,
};
use crate::point3d::{
    Point3D, Vec3S, vadd, vscale, vdot, vnear_zero, vreflect, vunit,
    vrefract, random_unit_vector_spec, lemma_vdot_bounded, lemma_sq_term_nonneg,
};
use crate::ray::{Ray, RayS};
use crate::rng::{Rng, rng_next_spec, rng_unit_spec};
use crate::hittable::{HitRecord, HitRecS, rec_wf, ray_wf};

verus! {

/// The least refraction index a dielectric accepts, one hundredth.
pub const RI_MIN: i64 = 10486;

/// The greatest refraction index a dielectric accepts, one hundred.
pub const RI_MAX: i64 = 104857600;

/// The mathematical value of a material.
pub ghost enum MatS {
    Lambertian { albedo: Vec3S },
    Metal { albedo: Vec3S, fuzz: int },
    Dielectric { refraction_index: int },
}

/// A color channel lies in the unit interval.
pub open spec fn unit_interval(x: int) -> bool {
    0 <= x <= SCALE as int
}

/// A color lies in the unit cube.
pub open spec fn color_wf(c: Vec3S) -> bool {
    unit_interval(c.x) && unit_interval(c.y) && unit_interval(c.z)
}

/// What every material's parameters satisfy: albedo channels in the unit
/// cube, fuzz within one in magnitude, refraction index within its range.
pub open spec fn mat_wf(m: MatS) -> bool {
    match m {
        MatS::Lambertian { albedo } => color_wf(albedo),
        MatS::Metal { albedo, fuzz } => color_wf(albedo) && -(SCALE as int) <= fuzz <= SCALE as int,
        MatS::Dielectric { refraction_index } => RI_MIN as int <= refraction_index <= RI_MAX as int,
    }
}

/// A diffuse material: scatters into the hemisphere around the normal.
#[derive(Clone, Copy, Debug, PartialEq, Eq, Structural)]
pub struct Lambertian {
    pub albedo: Point3D,
}

/// A reflective material with an optional fuzz perturbation.
#[derive(Clone, Copy, Debug, PartialEq, Eq, Structural)]
pub struct Metal {
    pub albedo: Point3D,
    pub fuzz: i64,
}

/// A clear material that reflects or refracts by angle and chance.
#[derive(Clone, Copy, Debug, PartialEq, Eq, Structural)]
pub struct Dielectric {
    /// Refractive index in vacuum or air, or the ratio of the material's
    /// refractive index over the refractive index of the enclosing media.
    pub refraction_index: i64,
}

/// A material: one of the three scattering behaviors, copied by value.
#[derive(Clone, Copy, Debug, PartialEq, Eq, Structural)]
pub enum Material {
    Lambertian(Lambertian),
    Metal(Metal),
    Dielectric(Dielectric),
}

impl View for Material {
    type V = MatS;

    open spec fn view(&self) -> MatS {
        match self {
            Material::Lambertian(l) => MatS::Lambertian { albedo: l.albedo@ },
            Material::Metal(m) => MatS::Metal { albedo: m.albedo@, fuzz: m.fuzz as int },
            Material::Dielectric(d) => MatS::Dielectric {
                refraction_index: d.refraction_index as int,
            },
        }
    }
}

impl Lambertian {
    pub fn new(albedo: Point3D) -> (r: Lambertian)
        requires
            color_wf(albedo@),
        ensures
            r.albedo == albedo,
            mat_wf(MatS::Lambertian { albedo: albedo@ }),
    {
        Lambertian { albedo }
    }
}

impl Metal {
    /// Fuzz above one is clamped down to one; below, it is kept as given.
    pub fn new(albedo: Point3D, fuzz: i64) -> (r: Metal)
        requires
            color_wf(albedo@),
            fuzz >= -SCALE,
        ensures
            r.albedo == albedo,
            r.fuzz == if fuzz < SCALE { fuzz as int } else { SCALE as int },
            mat_wf(MatS::Metal { albedo: r.albedo@, fuzz: r.fuzz as int }),
    {
        let f = if fuzz < SCALE {
            fuzz
        } else {
            SCALE
        };
        Metal { albedo, fuzz: f }
    }
}

impl Dielectric {
    pub fn new(refraction_index: i64) -> (r: Dielectric)
        requires
            RI_MIN <= refraction_index <= RI_MAX,
        ensures
            r.refraction_index == refraction_index,
            mat_wf(MatS::Dielectric { refraction_index: refraction_index as int }),
    {
        Dielectric { refraction_index }
    }
}

/// The outcome of a scatter: the optional scattered ray and attenuation
/// color, and the random state after the draws.
pub ghost struct ScatterS {
    pub out: Option<(RayS, Vec3S)>,
    pub state: u64,
}

/// Diffuse scattering: the outgoing direction is the normal plus a random
/// unit vector, with the normal alone substituted when that sum vanishes;
/// the attenuation is the albedo. Always scatters.
pub open spec fn lambertian_scatter_spec(albedo: Vec3S, rec: HitRecS, s: u64) -> ScatterS {
    let ur = random_unit_vector_spec(s);
    let dir0 = vadd(rec.normal, ur.0);
    let dir = if vnear_zero(dir0) {
        rec.normal
    } else {
        dir0
    };
    ScatterS { out: Option::Some((RayS { orig: rec.p, dir }, albedo)), state: ur.1 }
}

/// Metal scattering: the unit incoming direction is mirror-reflected about
/// the normal, normalized, and perturbed by `fuzz` times a random unit
/// vector; the ray is absorbed when the perturbed direction does not point
/// off the surface, or when the reflection vanishes at this scale.
pub open spec fn metal_scatter_spec(
    albedo: Vec3S,
    fuzz: int,
    r_in: RayS,
    rec: HitRecS,
    s: u64,
) -> ScatterS {
    let ur = random_unit_vector_spec(s);
    let refl = vreflect(vunit(r_in.dir), rec.normal);
    if vdot(refl, refl) <= 0 {
        ScatterS { out: Option::None, state: ur.1 }
    } else {
        let dir = vadd(vunit(refl), vscale(ur.0, fuzz));
        if vdot(dir, rec.normal) > 0 {
            ScatterS { out: Option::Some((RayS { orig: rec.p, dir }, albedo)), state: ur.1 }
        } else {
            ScatterS { out: Option::None, state: ur.1 }
        }
    }
}

/// The Schlick approximation of reflectance at a dielectric interface:
/// `r0^2 + (1 - r0^2) (1 - cos)^5` with `r0 = (1 - eta) / (1 + eta)`.
pub open spec fn reflectance_spec(cosine: int, ri_eff: int) -> int {
    let r0 = fx_div_spec(SCALE - ri_eff, SCALE + ri_eff);
    let r0sq = fx_mul_spec(r0, r0);
    let mc = SCALE - cosine;
    let p2 = fx_mul_spec(mc, mc);
    let p4 = fx_mul_spec(p2, p2);
    let p5 = fx_mul_spec(p4, mc);
    r0sq + fx_mul_spec(SCALE - r0sq, p5)
}

/// Glass scattering: the ratio is inverted for a front face; the ray
/// reflects on total internal reflection, or when a random draw falls below
/// the Schlick reflectance, and refracts otherwise. The attenuation is
/// always white, and the draw happens only when refraction is possible.
pub open spec fn dielectric_scatter_spec(ri: int, r_in: RayS, rec: HitRecS, s: u64) -> ScatterS {
    let white = Vec3S { x: SCALE as int, y: SCALE as int, z: SCALE as int };
    let eta = if rec.front_face {
        fx_div_spec(SCALE as int, ri)
    } else {
        ri
    };
    let uv = vunit(r_in.dir);
    let dn = vdot(uv, rec.normal);
    let cos_theta = if -dn < SCALE as int {
        -dn
    } else {
        SCALE as int
    };
    let c2 = fx_mul_spec(cos_theta, cos_theta);
    let rad = if SCALE - c2 > 0 {
        SCALE - c2
    } else {
        0
    };
    let sin_theta = sqrt_fx_spec(rad);
    if fx_mul_spec(eta, sin_theta) > SCALE as int {
        ScatterS {
            out: Option::Some((RayS { orig: rec.p, dir: vreflect(uv, rec.normal) }, white)),
            state: s,
        }
    } else {
        let u = rng_unit_spec(s);
        let dir = if reflectance_spec(cos_theta, eta) > u {
            vreflect(uv, rec.normal)
        } else {
            vrefract(uv, rec.normal, eta)
        };
        ScatterS {
            out: Option::Some((RayS { orig: rec.p, dir }, white)),
            state: rng_next_spec(s),
        }
    }
}

/// What a material does to an incoming ray at a hit.
pub open spec fn mat_scatter_spec(m: MatS, r_in: RayS, rec: HitRecS, s: u64) -> ScatterS {
    match m {
        MatS::Lambertian { albedo } => lambertian_scatter_spec(albedo, rec, s),
        MatS::Metal { albedo, fuzz } => metal_scatter_spec(albedo, fuzz, r_in, rec, s),
        MatS::Dielectric { refraction_index } => dielectric_scatter_spec(
            refraction_index,
            r_in,
            rec,
            s,
        ),
    }
}

/// A material's rule for producing an outgoing ray and attenuation from an
/// incoming ray and a hit record; `None` means the ray is absorbed. The
/// scattered ray always starts at the hit point, stays within the tracer's
/// bounds, and carries an attenuation in the unit cube.
pub trait Scatterable {
    /// What this scatterer's parameters satisfy.
    spec fn scatter_wf(&self) -> bool;

    /// The mathematical outcome for a ray, a record and a random state.
    spec fn scatter_model(&self, r_in: RayS, rec: HitRecS, s: u64) -> ScatterS;

    fn scatter(&self, r_in: &Ray, rec: &HitRecord, rng: &mut Rng) -> (res: Option<
        (Ray, Point3D),
    >)
        requires
            self.scatter_wf(),
            rec_wf(rec@),
            ray_wf(r_in@),
            vdot(r_in@.dir, r_in@.dir) > 0,
        ensures
            final(rng)@ == self.scatter_model(r_in@, rec@, old(rng)@).state,
            match res {
                Option::Some(p) => {
                    &&& self.scatter_model(r_in@, rec@, old(rng)@).out == Option::Some(
                        (p.0@, p.1@),
                    )
                    &&& ray_wf(p.0@)
                    &&& crate::material::color_wf(p.1@)
                    &&& p.0@.orig == rec@.p
                },
                Option::None => self.scatter_model(r_in@, rec@, old(rng)@).out is None,
            },
    ;
}

impl Scatterable for Material {
    open spec fn scatter_wf(&self) -> bool {
        mat_wf(self@)
    }

    open spec fn scatter_model(&self, r_in: RayS, rec: HitRecS, s: u64) -> ScatterS {
        mat_scatter_spec(self@, r_in, rec, s)
    }

    fn scatter(&self, r_in: &Ray, rec: &HitRecord, rng: &mut Rng) -> (res: Option<
        (Ray, Point3D),
    >) {
        match self {
            Material::Lambertian(l) => l.scatter(r_in, rec, rng),
            Material::Metal(m) => m.scatter(r_in, rec, rng),
            Material::Dielectric(d) => d.scatter(r_in, rec, rng),
        }
    }
}

impl Lambertian {
    /// Diffuse scatter; see `lambertian_scatter_spec`.
    fn scatter(&self, _r_in: &Ray, rec: &HitRecord, rng: &mut Rng) -> (res: Option<
        (Ray, Point3D),
    >)
        requires
            color_wf(self.albedo@),
            rec_wf(rec@),
        ensures
            final(rng)@ == lambertian_scatter_spec(self.albedo@, rec@, old(rng)@).state,
            match res {
                Option::Some(p) => {
                    &&& lambertian_scatter_spec(self.albedo@, rec@, old(rng)@).out
                        == Option::Some((p.0@, p.1@))
                    &&& ray_wf(p.0@)
                    &&& color_wf(p.1@)
                    &&& p.0@.orig == rec@.p
                },
                Option::None => lambertian_scatter_spec(
                    self.albedo@,
                    rec@,
                    old(rng)@,
                ).out is None,
            },
    {
        let ruv = Point3D::random_unit_vector(rng);
        let dir0 = rec.normal.add(&ruv);
        let scatter_direction = if dir0.near_zero() {
            rec.normal
        } else {
            dir0
        };
        let scattered = Ray::new(rec.p, scatter_direction);
        Some((scattered, self.albedo))
    }
}

impl Metal {
    /// Reflective scatter; see `metal_scatter_spec`.
    fn scatter(&self, r_in: &Ray, rec: &HitRecord, rng: &mut Rng) -> (res: Option<
        (Ray, Point3D),
    >)
        requires
            color_wf(self.albedo@),
            -(SCALE as int) <= self.fuzz as int <= SCALE as int,
            rec_wf(rec@),
            ray_wf(r_in@),
            vdot(r_in@.dir, r_in@.dir) > 0,
        ensures
            final(rng)@ == metal_scatter_spec(
                self.albedo@,
                self.fuzz as int,
                r_in@,
                rec@,
                old(rng)@,
            ).state,
            match res {
                Option::Some(p) => {
                    &&& metal_scatter_spec(
                        self.albedo@,
                        self.fuzz as int,
                        r_in@,
                        rec@,
                        old(rng)@,
                    ).out == Option::Some((p.0@, p.1@))
                    &&& ray_wf(p.0@)
                    &&& color_wf(p.1@)
                    &&& p.0@.orig == rec@.p
                },
                Option::None => metal_scatter_spec(
                    self.albedo@,
                    self.fuzz as int,
                    r_in@,
                    rec@,
                    old(rng)@,
                ).out is None,
            },
    {
        let ruv = Point3D::random_unit_vector(rng);
        let ud = r_in.direction().unit_vector();
        proof {
            crate::point3d::lemma_vreflect_unit_bound(ud@, rec@.normal);
        }
        let reflected = ud.reflect(&rec.normal);
        let rls = reflected.length_squared();
        if rls <= 0 {
            return None;
        }
        let unit_reflected = reflected.unit_vector();
        proof {
            lemma_fx_mul_bounded(ruv@.x, self.fuzz as int, 2 * (SCALE as int), SCALE as int);
            lemma_fx_mul_bounded(ruv@.y, self.fuzz as int, 2 * (SCALE as int), SCALE as int);
            lemma_fx_mul_bounded(ruv@.z, self.fuzz as int, 2 * (SCALE as int), SCALE as int);
            assert(((2 * (SCALE as int)) * (SCALE as int)) / (SCALE as int) == 2 * (SCALE as int))
                by (nonlinear_arith)
                requires
                    SCALE == 1048576,
            ;
        }
        let reflected_fuzz = unit_reflected.add(&ruv.scale(self.fuzz));
        if reflected_fuzz.dot(&rec.normal) > 0 {
            let scattered = Ray::new(rec.p, reflected_fuzz);
            Some((scattered, self.albedo))
        } else {
            None
        }
    }
}

impl Dielectric {
    /// The Schlick reflectance approximation; see `reflectance_spec`.
    fn reflectance(&self, cosine: i64, ri_eff: i64) -> (r: i64)
        requires
            -12 * (SCALE as int) <= cosine <= SCALE as int,
            0 < ri_eff <= 100 * (SCALE as int),
        ensures
            r == reflectance_spec(cosine as int, ri_eff as int),
            0 <= r <= 371294 * (SCALE as int),
    {
        proof {
            let s = SCALE as int;
            lemma_fx_div_ratio_bound(s - ri_eff, s + ri_eff, 1);
        }
        let r0 = fx_div(SCALE - ri_eff, SCALE + ri_eff);
        proof {
            let s = SCALE as int;
            crate::point3d::lemma_sq_term_nonneg(r0 as int);
            lemma_fx_mul_bounded(r0 as int, r0 as int, s, s);
            assert((s * s) / s == s) by (nonlinear_arith)
                requires
                    s == 1048576,
            ;
        }
        let r0_sqr = fx_mul(r0, r0);
        let mc = SCALE - cosine;
        proof {
            let s = SCALE as int;
            crate::point3d::lemma_sq_term_nonneg(mc as int);
            lemma_fx_mul_bounded(mc as int, mc as int, 13 * s, 13 * s);
            assert(((13 * s) * (13 * s)) / s == 169 * s) by (nonlinear_arith)
                requires
                    s == 1048576,
            ;
        }
        let p2 = fx_mul(mc, mc);
        proof {
            let s = SCALE as int;
            crate::point3d::lemma_sq_term_nonneg(p2 as int);
            lemma_fx_mul_bounded(p2 as int, p2 as int, 169 * s, 169 * s);
            assert(((169 * s) * (169 * s)) / s == 28561 * s) by (nonlinear_arith)
                requires
                    s == 1048576,
            ;
        }
        let p4 = fx_mul(p2, p2);
        proof {
            let s = SCALE as int;
            lemma_fx_mul_bounded(p4 as int, mc as int, 28561 * s, 13 * s);
            assert(((28561 * s) * (13 * s)) / s == 371293 * s) by (nonlinear_arith)
                requires
                    s == 1048576,
            ;
            assert(0 <= (p4 as int) * (mc as int)) by (nonlinear_arith)
                requires
                    p4 >= 0,
                    mc >= 0,
            ;
            vstd::arithmetic::div_mod::lemma_div_pos_is_pos((p4 as int) * (mc as int), s);
        }
        let p5 = fx_mul(p4, mc);
        proof {
            let s = SCALE as int;
            lemma_fx_mul_bounded(s - r0_sqr as int, p5 as int, s, 371293 * s);
            assert((s * (371293 * s)) / s == 371293 * s) by (nonlinear_arith)
                requires
                    s == 1048576,
            ;
            assert(0 <= (s - r0_sqr as int) * (p5 as int)) by (nonlinear_arith)
                requires
                    s == 1048576,
                    r0_sqr <= 1048576,
                    p5 >= 0,
            ;
            vstd::arithmetic::div_mod::lemma_div_pos_is_pos((s - r0_sqr as int) * (p5 as int), s);
        }
        r0_sqr + fx_mul(SCALE - r0_sqr, p5)
    }

    /// Glass scatter; see `dielectric_scatter_spec`.
    fn scatter(&self, r_in: &Ray, rec: &HitRecord, rng: &mut Rng) -> (res: Option<
        (Ray, Point3D),
    >)
        requires
            RI_MIN as int <= self.refraction_index as int <= RI_MAX as int,
            rec_wf(rec@),
            ray_wf(r_in@),
            vdot(r_in@.dir, r_in@.dir) > 0,
        ensures
            final(rng)@ == dielectric_scatter_spec(
                self.refraction_index as int,
                r_in@,
                rec@,
                old(rng)@,
            ).state,
            match res {
                Option::Some(p) => {
                    &&& dielectric_scatter_spec(
                        self.refraction_index as int,
                        r_in@,
                        rec@,
                        old(rng)@,
                    ).out == Option::Some((p.0@, p.1@))
                    &&& ray_wf(p.0@)
                    &&& color_wf(p.1@)
                    &&& p.0@.orig == rec@.p
                },
                Option::None => dielectric_scatter_spec(
                    self.refraction_index as int,
                    r_in@,
                    rec@,
                    old(rng)@,
                ).out is None,
            },
    {
        let attenuation = Point3D::new(SCALE, SCALE, SCALE);
        let ri_eff = if rec.front_face {
            proof {
                let s = SCALE as int;
                let ri = self.refraction_index as int;
                assert(s * s < ri * (100 * s + 1)) by (nonlinear_arith)
                    requires
                        s == 1048576,
                        ri >= 10486,
                ;
                vstd::arithmetic::div_mod::lemma_multiply_divide_lt(s * s, ri, 100 * s + 1);
                vstd::arithmetic::div_mod::lemma_div_non_zero(s * s, ri);
                lemma_div_tz_bounded(s * s, ri, s * s);
            }
            fx_div(SCALE, self.refraction_index)
        } else {
            self.refraction_index
        };
        let uv = r_in.direction().unit_vector();
        proof {
            let s = SCALE as int;
            crate::point3d::lemma_vdot_bounded(uv@, rec@.normal, 2 * s, 2 * s);
            assert(3 * (((2 * s) * (2 * s)) / s) == 12 * s) by (nonlinear_arith)
                requires
                    s == 1048576,
            ;
        }
        let dn = uv.dot(&rec.normal);
        let cos_theta = if -dn < SCALE {
            -dn
        } else {
            SCALE
        };
        proof {
            let s = SCALE as int;
            crate::point3d::lemma_sq_term_nonneg(cos_theta as int);
            lemma_fx_mul_bounded(cos_theta as int, cos_theta as int, 12 * s, 12 * s);
            assert(((12 * s) * (12 * s)) / s == 144 * s) by (nonlinear_arith)
                requires
                    s == 1048576,
            ;
        }
        let c2 = fx_mul(cos_theta, cos_theta);
        let rad = if SCALE - c2 > 0 {
            SCALE - c2
        } else {
            0
        };
        let sin_theta = sqrt_fx(rad);
        proof {
            let s = SCALE as int;
            lemma_sqrt_fx_unit(rad as int);
            lemma_fx_mul_bounded(ri_eff as int, sin_theta as int, 100 * s, s);
            assert(((100 * s) * s) / s == 100 * s) by (nonlinear_arith)
                requires
                    s == 1048576,
            ;
            crate::point3d::lemma_vreflect_unit_bound(uv@, rec@.normal);
        }
        let cannot_refract = fx_mul(ri_eff, sin_theta) > SCALE;
        let direction = if cannot_refract {
            uv.reflect(&rec.normal)
        } else {
            let u = rng.next_unit();
            if self.reflectance(cos_theta, ri_eff) > u {
                uv.reflect(&rec.normal)
            } else {
                uv.refract(&rec.normal, ri_eff)
            }
        };
        let scattered = Ray::new(rec.p, direction);
        Some((scattered, attenuation))
    }
}

} // verus!
