//! Scattering behavior of the three material kinds on exact values.

use raytrace::fixed::SCALE;
use raytrace::point3d::Point3D;
use raytrace::ray::Ray;
use raytrace::rng::Rng;
use raytrace::hittable::HitRecord;
use raytrace::material::{Dielectric, Lambertian, Material, Metal, Scatterable};

fn record_at_origin(normal: Point3D, front_face: bool, material: Material) -> HitRecord {
    HitRecord::new(Point3D::new(0, 0, 0), normal, SCALE, front_face, material)
}

#[test]
fn lambertian_always_scatters_with_albedo() {
    let albedo = Point3D::new(104858, 209715, 524288);
    let mat = Material::Lambertian(Lambertian::new(albedo));
    let rec = record_at_origin(Point3D::new(0, 0, SCALE), true, mat);
    let ray = Ray::new(Point3D::new(0, 0, SCALE), Point3D::new(0, 0, -SCALE));
    // the same seed drawn separately shows which unit vector the scatter used
    let mut probe = Rng::new(7);
    let ruv = Point3D::random_unit_vector(&mut probe);
    assert_eq!(ruv, Point3D::new(655933, -510499, 639260));
    let mut rng = Rng::new(7);
    let (scattered, attenuation) = mat.scatter(&ray, &rec, &mut rng).expect("diffuse scatters");
    assert_eq!(attenuation, albedo);
    assert_eq!(scattered.origin(), Point3D::new(0, 0, 0));
    assert_eq!(scattered.direction(), Point3D::new(0, 0, SCALE).add(&ruv));
    assert_eq!(scattered.direction(), Point3D::new(655933, -510499, 1687836));
}

#[test]
fn lambertian_scatters_for_many_seeds() {
    let albedo = Point3D::new(524288, 524288, 524288);
    let mat = Material::Lambertian(Lambertian::new(albedo));
    let rec = record_at_origin(Point3D::new(0, 0, SCALE), true, mat);
    let ray = Ray::new(Point3D::new(0, 0, SCALE), Point3D::new(0, 0, -SCALE));
    let mut seed: u64 = 1;
    while seed < 64 {
        let mut rng = Rng::new(seed);
        let out = mat.scatter(&ray, &rec, &mut rng);
        assert!(out.is_some());
        assert_eq!(out.unwrap().1, albedo);
        seed += 1;
    }
}

#[test]
fn metal_zero_fuzz_is_exact_mirror() {
    let albedo = Point3D::new(524288, 524288, 524288);
    let mat = Material::Metal(Metal::new(albedo, 0));
    let rec = record_at_origin(Point3D::new(0, 0, SCALE), true, mat);
    // head-on: the reflection of (0,0,-1) about (0,0,1) is (0,0,1), unchanged
    // by normalization, and the perturbation vanishes identically at fuzz 0
    let ray = Ray::new(Point3D::new(0, 0, SCALE), Point3D::new(0, 0, -SCALE));
    let mut rng = Rng::new(3);
    let (scattered, attenuation) = mat.scatter(&ray, &rec, &mut rng).expect("mirror scatters");
    assert_eq!(attenuation, albedo);
    assert_eq!(scattered.direction(), Point3D::new(0, 0, SCALE));
    assert_eq!(scattered.origin(), Point3D::new(0, 0, 0));
}

#[test]
fn metal_absorbs_when_reflection_points_inward() {
    let albedo = Point3D::new(524288, 524288, 524288);
    let mat = Material::Metal(Metal::new(albedo, 0));
    let rec = record_at_origin(Point3D::new(0, 0, SCALE), true, mat);
    // leaving along the normal reflects to the far side of the surface
    let ray = Ray::new(Point3D::new(0, 0, -SCALE), Point3D::new(0, 0, SCALE));
    let mut rng = Rng::new(3);
    assert!(mat.scatter(&ray, &rec, &mut rng).is_none());
}

#[test]
fn metal_fuzz_clamped_from_above() {
    let albedo = Point3D::new(524288, 524288, 524288);
    let m = Metal::new(albedo, 3 * SCALE);
    assert_eq!(m.fuzz, SCALE);
    let kept = Metal::new(albedo, SCALE / 4);
    assert_eq!(kept.fuzz, SCALE / 4);
}

#[test]
fn dielectric_unit_ratio_head_on_passes_straight() {
    // index one: entering and leaving the medium bends nothing head-on,
    // whichever way the face points
    let mat = Material::Dielectric(Dielectric::new(SCALE));
    let ray = Ray::new(Point3D::new(0, 0, SCALE), Point3D::new(0, 0, -SCALE));
    let front = record_at_origin(Point3D::new(0, 0, SCALE), true, mat);
    let mut rng_a = Rng::new(9);
    let (sa, aa) = mat.scatter(&ray, &front, &mut rng_a).expect("glass scatters");
    assert_eq!(sa.direction(), Point3D::new(0, 0, -SCALE));
    assert_eq!(aa, Point3D::new(SCALE, SCALE, SCALE));
    let back = record_at_origin(Point3D::new(0, 0, SCALE), false, mat);
    let mut rng_b = Rng::new(9);
    let (sb, ab) = mat.scatter(&ray, &back, &mut rng_b).expect("glass scatters");
    assert_eq!(sb.direction(), Point3D::new(0, 0, -SCALE));
    assert_eq!(ab, Point3D::new(SCALE, SCALE, SCALE));
}

#[test]
fn dielectric_total_internal_reflection() {
    // leaving glass (index 1.5) at a grazing angle: sin of the refracted
    // angle would exceed one, so the ray reflects, consuming no draw
    let mat = Material::Dielectric(Dielectric::new(1572864));
    let rec = record_at_origin(Point3D::new(0, 0, SCALE), false, mat);
    let ray = Ray::new(Point3D::new(0, 0, 0), Point3D::new(4 * SCALE, 0, -3 * SCALE));
    let mut rng = Rng::new(11);
    let before = {
        let mut probe = Rng::new(11);
        probe.next_u64()
    };
    let (scattered, attenuation) = mat.scatter(&ray, &rec, &mut rng).expect("glass scatters");
    assert_eq!(attenuation, Point3D::new(SCALE, SCALE, SCALE));
    // the mirror reflection of the unit direction (0.8, 0, -0.6)
    assert_eq!(scattered.direction(), Point3D::new(838860, 0, 629145));
    // the source was not advanced: the next draw is the same as a fresh one
    assert_eq!(rng.next_u64(), before);
}

#[test]
fn dielectric_always_scatters_white() {
    let mat = Material::Dielectric(Dielectric::new(1572864));
    let ray = Ray::new(Point3D::new(0, 0, SCALE), Point3D::new(0, 0, -SCALE));
    let rec = record_at_origin(Point3D::new(0, 0, SCALE), true, mat);
    let mut seed: u64 = 1;
    while seed < 32 {
        let mut rng = Rng::new(seed);
        let out = mat.scatter(&ray, &rec, &mut rng);
        assert!(out.is_some());
        assert_eq!(out.unwrap().1, Point3D::new(SCALE, SCALE, SCALE));
        seed += 1;
    }
}

#[test]
fn rng_draws_are_deterministic_and_in_range() {
    let mut a = Rng::new(42);
    let mut b = Rng::new(42);
    let mut k = 0;
    while k < 100 {
        let ua = a.next_unit();
        let ub = b.next_unit();
        assert_eq!(ua, ub);
        assert!(0 <= ua && ua < SCALE);
        k += 1;
    }
    let mut c = Rng::new(5);
    let mut k2 = 0;
    while k2 < 100 {
        let v = c.next_in_range(-SCALE, SCALE);
        assert!(-SCALE <= v && v <= SCALE);
        k2 += 1;
    }
}

#[test]
fn unit_sphere_sampler_yields_unit_lengths() {
    let mut rng = Rng::new(77);
    let mut k = 0;
    while k < 50 {
        let u = Point3D::random_unit_vector(&mut rng);
        let ls = u.length_squared();
        // unit up to the fixed-point rounding of the normalization
        assert!(ls > SCALE - 4096 && ls < SCALE + 4096);
        k += 1;
    }
}

#[test]
fn disk_sampler_stays_in_plane() {
    let mut rng = Rng::new(123);
    let mut k = 0;
    while k < 50 {
        let p = Point3D::random_in_unit_disk(&mut rng);
        assert_eq!(p.z(), 0);
        assert!(-SCALE <= p.x() && p.x() <= SCALE);
        assert!(-SCALE <= p.y() && p.y() <= SCALE);
        k += 1;
    }
}

#[test]
fn hemisphere_sampler_respects_normal() {
    let n = Point3D::new(0, 0, SCALE);
    let mut rng = Rng::new(31);
    let mut k = 0;
    while k < 50 {
        let u = Point3D::random_on_hemisphere(&n, &mut rng);
        assert!(u.dot(&n) >= 0);
        k += 1;
    }
}
