//! Vector arithmetic, trigonometry and sphere intersection on exact values.

use raytrace::fixed::SCALE;
use raytrace::point3d::Point3D;
use raytrace::ray::Ray;
use raytrace::sphere::Sphere;
use raytrace::hittable::{Hittable, HittableList, T_MAX};
use raytrace::material::{Lambertian, Material};
use raytrace::render::T_MIN_HIT;
use raytrace::trig::{degrees_to_radians, tan_fx};
use raytrace::camera::CameraStats;

fn gray() -> Material {
    Material::Lambertian(Lambertian::new(Point3D::new(SCALE / 2, SCALE / 2, SCALE / 2)))
}

#[test]
fn vector_ops_exact() {
    let a = Point3D::new(SCALE, 2 * SCALE, 3 * SCALE);
    let b = Point3D::new(4 * SCALE, 5 * SCALE, 6 * SCALE);
    assert_eq!(a.add(&b), Point3D::new(5 * SCALE, 7 * SCALE, 9 * SCALE));
    assert_eq!(b.sub(&a), Point3D::new(3 * SCALE, 3 * SCALE, 3 * SCALE));
    assert_eq!(a.neg(), Point3D::new(-SCALE, -2 * SCALE, -3 * SCALE));
    assert_eq!(a.dot(&b), 32 * SCALE);
    let x = Point3D::new(SCALE, 0, 0);
    let y = Point3D::new(0, SCALE, 0);
    assert_eq!(x.cross(&y), Point3D::new(0, 0, SCALE));
    assert_eq!(a.scale(2 * SCALE), Point3D::new(2 * SCALE, 4 * SCALE, 6 * SCALE));
    assert_eq!(a.div(2 * SCALE), Point3D::new(SCALE / 2, SCALE, 3 * SCALE / 2));
    assert_eq!(a.mul(&b), Point3D::new(4 * SCALE, 10 * SCALE, 18 * SCALE));
}

#[test]
fn length_and_unit_of_three_four_five() {
    let v = Point3D::new(3 * SCALE, 4 * SCALE, 0);
    assert_eq!(v.length_squared(), 25 * SCALE);
    assert_eq!(v.length(), 5 * SCALE);
    assert_eq!(v.unit_vector(), Point3D::new(629145, 838860, 0));
}

#[test]
fn near_zero_only_at_origin() {
    assert!(Point3D::new(0, 0, 0).near_zero());
    assert!(!Point3D::new(1, 0, 0).near_zero());
    assert!(!Point3D::new(0, 0, -1).near_zero());
}

#[test]
fn reflect_about_axis() {
    let d = Point3D::new(SCALE, -SCALE, 0);
    let n = Point3D::new(0, SCALE, 0);
    assert_eq!(d.reflect(&n), Point3D::new(SCALE, SCALE, 0));
}

#[test]
fn ray_at_parameter() {
    let r = Ray::new(Point3D::new(SCALE, 0, 0), Point3D::new(0, 0, -SCALE));
    assert_eq!(r.at(2 * SCALE), Point3D::new(SCALE, 0, -2 * SCALE));
    assert_eq!(r.origin(), Point3D::new(SCALE, 0, 0));
    assert_eq!(r.direction(), Point3D::new(0, 0, -SCALE));
}

#[test]
fn sphere_center_ray_roots_symmetric() {
    // A ray through the exact center: roots at t = 2 and t = 4, symmetric
    // about the center's parameter t = 3 = distance / |direction|.
    let sph = Sphere::new(Point3D::new(0, 0, -3 * SCALE), SCALE, gray());
    let ray = Ray::new(Point3D::new(0, 0, 0), Point3D::new(0, 0, -SCALE));
    let near = sph.hit(&ray, T_MIN_HIT, T_MAX).expect("near root");
    assert_eq!(near.t, 2 * SCALE);
    assert_eq!(near.p, Point3D::new(0, 0, -2 * SCALE));
    assert!(near.front_face);
    assert_eq!(near.normal, Point3D::new(0, 0, SCALE));
    let far = sph.hit(&ray, 5 * SCALE / 2, T_MAX).expect("far root");
    assert_eq!(far.t, 4 * SCALE);
    assert!(!far.front_face);
    // the outward normal points along -z there; stored flipped to oppose the ray
    assert_eq!(far.normal, Point3D::new(0, 0, SCALE));
    // symmetry about the center's parameter
    assert_eq!(near.t + far.t, 2 * (3 * SCALE));
}

#[test]
fn sphere_tangent_ray_single_root() {
    // Distance from center to the ray's line equals the radius exactly: the
    // discriminant vanishes and the one root is the center's parameter.
    let sph = Sphere::new(Point3D::new(0, 0, -3 * SCALE), SCALE, gray());
    let ray = Ray::new(Point3D::new(0, SCALE, 0), Point3D::new(0, 0, -SCALE));
    let h = sph.hit(&ray, T_MIN_HIT, T_MAX).expect("tangent hit");
    assert_eq!(h.t, 3 * SCALE);
    assert_eq!(h.p, Point3D::new(0, SCALE, -3 * SCALE));
    // grazing: the dot product is exactly zero, which counts as back-facing
    assert!(!h.front_face);
    assert_eq!(h.normal, Point3D::new(0, -SCALE, 0));
}

#[test]
fn sphere_front_face_signs() {
    let sph = Sphere::new(Point3D::new(0, 0, -3 * SCALE), SCALE, gray());
    let ray = Ray::new(Point3D::new(0, 0, 0), Point3D::new(0, 0, -SCALE));
    let h = sph.hit(&ray, T_MIN_HIT, T_MAX).unwrap();
    // front-facing iff the direction opposes the outward normal, and the
    // stored normal never points along the ray
    assert_eq!(h.front_face, ray.direction().dot(&h.normal) < 0);
    assert!(ray.direction().dot(&h.normal) <= 0);
    let inside_ray = Ray::new(Point3D::new(0, 0, -3 * SCALE), Point3D::new(0, 0, -SCALE));
    let h2 = sph.hit(&inside_ray, T_MIN_HIT, T_MAX).unwrap();
    assert!(!h2.front_face);
    assert!(inside_ray.direction().dot(&h2.normal) <= 0);
}

#[test]
fn sphere_negative_radius_degenerates() {
    let sph = Sphere::new(Point3D::new(0, 0, -3 * SCALE), -SCALE, gray());
    let ray = Ray::new(Point3D::new(0, 0, 0), Point3D::new(0, 0, -SCALE));
    assert!(sph.hit(&ray, T_MIN_HIT, T_MAX).is_none());
}

#[test]
fn list_hit_picks_closest_regardless_of_order() {
    let nearer = || Sphere::new(Point3D::new(0, 0, -2 * SCALE), SCALE / 2, gray());
    let farther = || Sphere::new(Point3D::new(0, 0, -6 * SCALE), SCALE / 2, gray());
    let ray = Ray::new(Point3D::new(0, 0, 0), Point3D::new(0, 0, -SCALE));
    let world_a = HittableList::new(vec![nearer(), farther()]);
    let world_b = HittableList::new(vec![farther(), nearer()]);
    let ha = world_a.hit(&ray, T_MIN_HIT, T_MAX).unwrap();
    let hb = world_b.hit(&ray, T_MIN_HIT, T_MAX).unwrap();
    assert_eq!(ha.t, hb.t);
    assert_eq!(ha.p, hb.p);
}

#[test]
fn trig_values() {
    assert_eq!(degrees_to_radians(45 * SCALE), 823549);
    assert_eq!(tan_fx(degrees_to_radians(45 * SCALE)), 1048573);
    assert_eq!(tan_fx(degrees_to_radians(10 * SCALE)), 184891);
    assert_eq!(tan_fx(0), 0);
}

#[test]
fn stats_height_from_aspect() {
    // 16:9 at the fixed scale
    let aspect: i64 = 1864135;
    let s400 = CameraStats::new(aspect, 400, 100, 50);
    assert_eq!(s400.height(), 225);
    assert_eq!(s400.width(), 400);
    assert_eq!(s400.samples_per_pixel(), 100);
    assert_eq!(s400.max_depth(), 50);
    let s16 = CameraStats::new(aspect, 16, 2, 4);
    assert_eq!(s16.height(), 9);
}
