//! The color pipeline and the full render: gradients, quantization, and
//! byte-identical images from a fixed seed.

use raytrace::fixed::SCALE;
use raytrace::point3d::Point3D;
use raytrace::ray::Ray;
use raytrace::rng::Rng;
use raytrace::sphere::Sphere;
use raytrace::hittable::HittableList;
use raytrace::material::{Dielectric, Lambertian, Material, Metal};
use raytrace::camera::{Camera, CameraFocus, CameraStats, CameraView};
use raytrace::color::{clamp, linear_to_gamma, write_color};

fn small_camera() -> Camera {
    // 16:9 at the fixed scale, a tiny frame with two samples per pixel
    let stats = CameraStats::new(1864135, 16, 2, 4);
    let view = CameraView::new(
        stats,
        90 * SCALE,
        Point3D::new(0, 0, 0),
        Point3D::new(0, 0, -2 * SCALE),
        Point3D::new(0, SCALE, 0),
        2 * SCALE,
    );
    let focus = CameraFocus::new(view, 0);
    Camera::new(stats, view, focus)
}

fn three_material_scene() -> HittableList {
    let ground = Material::Lambertian(Lambertian::new(Point3D::new(838861, 838861, 0)));
    let center = Material::Lambertian(Lambertian::new(Point3D::new(104858, 209715, 524288)));
    let left = Material::Dielectric(Dielectric::new(1572864));
    let right = Material::Metal(Metal::new(Point3D::new(838861, 629146, 209715), 0));
    HittableList::new(vec![
        Sphere::new(Point3D::new(0, -100 * SCALE - SCALE / 2, -2 * SCALE), 100 * SCALE, ground),
        Sphere::new(Point3D::new(0, 0, -2 * SCALE), SCALE / 2, center),
        Sphere::new(Point3D::new(-SCALE, 0, -2 * SCALE), SCALE / 2, left),
        Sphere::new(Point3D::new(SCALE, 0, -2 * SCALE), SCALE / 2, right),
    ])
}

#[test]
fn ray_color_miss_is_exact_gradient_midpoint() {
    // straight down the axis: the unit direction's height is zero, so the
    // gradient parameter is one half and each channel is the truncated
    // midpoint of the two endpoints
    let cam = small_camera();
    let empty = HittableList::new(vec![]);
    let ray = Ray::new(Point3D::new(0, 0, 0), Point3D::new(0, 0, -SCALE));
    let mut rng = Rng::new(1);
    let before = {
        let mut probe = Rng::new(1);
        probe.next_u64()
    };
    let c = cam.ray_color(&ray, 5, &empty, &mut rng);
    assert_eq!(c, Point3D::new(786432, 891289, 1048576));
    // a miss consumes no randomness
    assert_eq!(rng.next_u64(), before);
}

#[test]
fn ray_color_depth_zero_is_black() {
    let cam = small_camera();
    let world = three_material_scene();
    let ray = Ray::new(Point3D::new(0, 0, 0), Point3D::new(0, 0, -SCALE));
    let mut rng = Rng::new(1);
    let c = cam.ray_color(&ray, 0, &world, &mut rng);
    assert_eq!(c, Point3D::new(0, 0, 0));
}

#[test]
fn gamma_and_clamp_scalars() {
    assert_eq!(linear_to_gamma(0), 0);
    assert_eq!(linear_to_gamma(-5), 0);
    assert_eq!(linear_to_gamma(SCALE), SCALE);
    assert_eq!(linear_to_gamma(SCALE / 4), SCALE / 2);
    assert_eq!(clamp(7, 0, 5), 5);
    assert_eq!(clamp(-7, 0, 5), 0);
    assert_eq!(clamp(3, 0, 5), 3);
}

#[test]
fn pixel_lines_black_white_and_half() {
    let mut out: Vec<u8> = Vec::new();
    write_color(&mut out, &Point3D::new(0, 0, 0));
    assert_eq!(out, b"0 0 0\n".to_vec());
    let mut full: Vec<u8> = Vec::new();
    write_color(&mut full, &Point3D::new(SCALE, SCALE, SCALE));
    assert_eq!(full, b"255 255 255\n".to_vec());
    let mut quarter: Vec<u8> = Vec::new();
    write_color(&mut quarter, &Point3D::new(SCALE / 4, SCALE / 4, SCALE / 4));
    assert_eq!(quarter, b"128 128 128\n".to_vec());
}

#[test]
fn render_is_reproducible_byte_for_byte() {
    let cam = small_camera();
    let world = three_material_scene();
    let a = cam.render(&world, 42);
    let b = cam.render(&world, 42);
    assert_eq!(a, b);
    let other = cam.render(&world, 43);
    assert_ne!(a, other);
}

#[test]
fn render_output_shape_and_values() {
    let cam = small_camera();
    let world = three_material_scene();
    let img = cam.render(&world, 42);
    assert_eq!(img.len(), 1616);
    assert!(img.starts_with(b"P3\n16 9\n255\n"));
    // the first pixel is pure sky
    assert!(img[12..].starts_with(b"205 227 255\n"));
    let text = String::from_utf8(img.clone()).expect("ascii image");
    let lines: Vec<&str> = text.split('\n').collect();
    // header, then one line per pixel in row-major order, then the final break
    assert_eq!(lines.len(), 3 + 16 * 9 + 1);
    assert_eq!(lines[3 + 4 * 16 + 8], "65 101 181");
    // every channel of every pixel parses as a byte
    let mut li = 3;
    while li < 3 + 16 * 9 {
        let mut parts = 0;
        for w in lines[li].split(' ') {
            let v: i64 = w.parse().expect("decimal channel");
            assert!(0 <= v && v <= 255);
            parts += 1;
        }
        assert_eq!(parts, 3);
        li += 1;
    }
}

#[test]
fn render_is_rows_in_order() {
    // the frame is the header followed by each row's bytes: rows can be
    // computed independently (in any order) and assembled afterwards
    let cam = small_camera();
    let world = three_material_scene();
    let whole = cam.render(&world, 42);
    let mut assembled: Vec<u8> = b"P3\n16 9\n255\n".to_vec();
    let mut j = 0;
    while j < 9 {
        let mut row = cam.render_row(&world, 42, j);
        assembled.append(&mut row);
        j += 1;
    }
    assert_eq!(whole, assembled);
}

#[test]
fn render_empty_scene_is_pure_sky() {
    let cam = small_camera();
    let empty = HittableList::new(vec![]);
    let img = cam.render(&empty, 7);
    let text = String::from_utf8(img).expect("ascii image");
    // the sky gradient is white at the bottom and blue at the top: the blue
    // channel is full everywhere
    let mut li = 3;
    let lines: Vec<&str> = text.split('\n').collect();
    while li < 3 + 16 * 9 {
        let chans: Vec<i64> = lines[li].split(' ').map(|w| w.parse().unwrap()).collect();
        assert_eq!(chans[2], 255);
        assert!(chans[0] <= chans[1] && chans[1] <= chans[2]);
        li += 1;
    }
}
