use std::rc::Rc;

use raytracer::camera::Camera;
use raytracer::color::{linear_to_gamma, print_color, push_decimal, push_signed_decimal, to_byte};
use raytracer::fixed::Fixed;
use raytracer::hittable::{HitRecord, Hittable, HittableList};
use raytracer::interval::Interval;
use raytracer::material::{Lambertian, Material, Metal};
use raytracer::ray::Ray;
use raytracer::sampling::{random_fraction, random_range};
use raytracer::sphere::Sphere;
use raytracer::vec::{cross, dot, Vec3};

fn fx(v: f64) -> Fixed {
    Fixed::from_raw((v * 1e6).round() as i64)
}

fn v3(x: f64, y: f64, z: f64) -> Vec3 {
    Vec3::new(fx(x), fx(y), fx(z))
}

fn grey() -> Rc<Material> {
    Rc::new(Material::Lambertian(Lambertian::new(v3(0.5, 0.5, 0.5))))
}

fn forward() -> Interval {
    Interval::new(Fixed::zero(), Fixed::infinity())
}

#[test]
fn vector_sum_commutes_and_dot_expands() {
    let a = v3(1.5, -2.0, 3.25);
    let b = v3(-0.5, 4.0, 2.0);
    assert_eq!(a + b, b + a);
    assert_eq!(dot(a, b), fx(1.5 * -0.5 + -2.0 * 4.0 + 3.25 * 2.0));
    assert_eq!(dot(a, b), fx(-2.25));
}

#[test]
fn cross_is_orthogonal() {
    let a = v3(1.0, 2.0, 3.0);
    let b = v3(4.0, 5.0, 6.0);
    let c = cross(a, b);
    assert_eq!(c, v3(-3.0, 6.0, -3.0));
    assert_eq!(dot(c, a), Fixed::zero());
    assert_eq!(dot(c, b), Fixed::zero());
    let p = v3(0.3, -1.7, 2.9);
    let q = v3(-4.1, 0.6, 1.3);
    let r = cross(p, q);
    assert!(dot(r, p).raw.abs() <= 10);
    assert!(dot(r, q).raw.abs() <= 10);
}

#[test]
fn ray_at_zero_and_one() {
    let r = Ray::new(v3(1.0, -2.0, 0.5), v3(0.25, 3.0, -1.0));
    assert_eq!(r.at(Fixed::zero()), r.origin());
    assert_eq!(r.at(Fixed::one()), r.origin() + r.direction());
}

#[test]
fn interval_ends_and_clamp() {
    let i = Interval::new(fx(-1.5), fx(2.5));
    assert!(i.contains(i.min) && i.contains(i.max));
    assert!(!i.surrounds(i.min) && !i.surrounds(i.max));
    assert_eq!(i.clamp(fx(7.0)), fx(2.5));
    assert_eq!(i.clamp(fx(-7.0)), fx(-1.5));
    assert_eq!(i.clamp(fx(0.75)), fx(0.75));
    assert_eq!(i.size(), fx(4.0));
    assert!(!Interval::empty().contains(Fixed::zero()));
    assert!(Interval::universe().surrounds(fx(1e9)));
    assert_eq!(Interval::default(), Interval::empty());
}

#[test]
fn sphere_hit_in_front() {
    let s = Sphere::new(v3(0.0, 0.0, -1.0), fx(0.5), grey());
    let r = Ray::new(v3(0.0, 0.0, 0.0), v3(0.0, 0.0, -1.0));
    let mut rec = HitRecord::default();
    assert!(s.hit(&r, forward(), &mut rec));
    assert_eq!(rec.t, fx(0.5));
    assert_eq!(rec.p, v3(0.0, 0.0, -0.5));
    assert_eq!(rec.normal, v3(0.0, 0.0, 1.0));
    assert!(rec.front_facing);
}

#[test]
fn sphere_missed_when_aimed_away() {
    let s = Sphere::new(v3(0.0, 0.0, -1.0), fx(0.5), grey());
    let r = Ray::new(v3(0.0, 0.0, 0.0), v3(0.0, 0.0, 1.0));
    let mut rec = HitRecord::default();
    assert!(!s.hit(&r, forward(), &mut rec));
    assert_eq!(rec.t, Fixed::zero());
}

#[test]
fn sphere_tangent_ray() {
    let s = Sphere::new(v3(0.0, 0.0, -1.0), fx(0.5), grey());
    let r = Ray::new(v3(0.5, 0.0, 0.0), v3(0.0, 0.0, -1.0));
    assert_eq!(s.discriminant(&r), Fixed::zero());
    let mut rec = HitRecord::default();
    assert!(s.hit(&r, forward(), &mut rec));
    assert_eq!(rec.t, fx(1.0));
    assert_eq!(rec.p, v3(0.5, 0.0, -1.0));
}

#[test]
fn sphere_hit_from_inside_faces_back() {
    let s = Sphere::new(v3(0.0, 0.0, 0.0), fx(2.0), grey());
    let r = Ray::new(v3(0.0, 0.0, 0.0), v3(1.0, 0.0, 0.0));
    let mut rec = HitRecord::default();
    assert!(s.hit(&r, forward(), &mut rec));
    assert_eq!(rec.t, fx(2.0));
    assert!(!rec.front_facing);
    assert_eq!(rec.normal, v3(-1.0, 0.0, 0.0));
}

#[test]
fn sphere_radius_edge_cases() {
    let s = Sphere::new(v3(0.0, 0.0, -1.0), fx(-3.0), grey());
    assert_eq!(s.radius(), Fixed::zero());
    let r = Ray::new(v3(0.0, 0.0, 0.0), v3(0.0, 0.0, -1.0));
    let mut rec = HitRecord::default();
    assert!(!s.hit(&r, forward(), &mut rec));
}

#[test]
fn list_reports_nearest() {
    let near_mat = Rc::new(Material::Metal(Metal::new(v3(0.8, 0.8, 0.8))));
    let far_mat = Rc::new(Material::Lambertian(Lambertian::new(v3(0.1, 0.2, 0.5))));
    let mut world = HittableList::new();
    world.add(Sphere::new(v3(0.0, 0.0, -3.0), fx(1.0), far_mat));
    world.add(Sphere::new(v3(0.0, 0.0, -2.0), fx(1.0), near_mat.clone()));
    let r = Ray::new(v3(0.0, 0.0, 0.0), v3(0.0, 0.0, -1.0));
    let mut rec = HitRecord::default();
    assert!(world.hit(&r, forward(), &mut rec));
    assert_eq!(rec.t, fx(1.0));
    assert_eq!(*rec.mat, *near_mat);
    assert_eq!(world.len(), 2);
    world.clear();
    assert_eq!(world.len(), 0);
    let mut rec2 = HitRecord::default();
    assert!(!world.hit(&r, forward(), &mut rec2));
}

#[test]
fn metal_reflects() {
    let m = Metal::new(v3(0.8, 0.6, 0.2));
    let r_in = Ray::new(v3(-1.0, 1.0, 0.0), v3(1.0, -1.0, 0.0));
    let mut rec = HitRecord::default();
    rec.p = v3(0.0, 0.0, 0.0);
    rec.normal = v3(0.0, 1.0, 0.0);
    let mut att = Vec3::default();
    let mut out = Ray::default();
    assert!(m.scatter(&r_in, &rec, &mut att, &mut out));
    assert_eq!(out.direction(), v3(1.0, 1.0, 0.0));
    assert_eq!(out.origin(), v3(0.0, 0.0, 0.0));
    assert_eq!(att, v3(0.8, 0.6, 0.2));
    assert_eq!(Vec3::reflect(v3(1.0, -1.0, 0.0), v3(0.0, 1.0, 0.0)), v3(1.0, 1.0, 0.0));
}

#[test]
fn lambertian_scatters_along_normal_plus_sample() {
    let l = Lambertian::new(v3(0.5, 0.5, 0.5));
    let r_in = Ray::new(v3(0.0, 0.0, 0.0), v3(0.0, 0.0, -1.0));
    let mut rec = HitRecord::default();
    rec.p = v3(0.0, 0.0, -0.5);
    rec.normal = v3(0.0, 0.0, 1.0);
    let mut att = Vec3::default();
    let mut out = Ray::default();
    assert!(l.scatter_with(&r_in, &rec, v3(1.0, 0.0, 0.0), &mut att, &mut out));
    assert_eq!(out.direction(), v3(1.0, 0.0, 1.0));
    assert_eq!(att, v3(0.5, 0.5, 0.5));
    // a sample opposite to the normal falls back to the normal
    assert!(l.scatter_with(&r_in, &rec, v3(0.0, 0.0, -1.0), &mut att, &mut out));
    assert_eq!(out.direction(), v3(0.0, 0.0, 1.0));
    // a random sample leaves a direction within two units of the normal
    assert!(l.scatter(&r_in, &rec, &mut att, &mut out));
    let d = out.direction() - rec.normal;
    assert!((d.length() - Fixed::one()).raw.abs() <= 10);
}

#[test]
fn random_normal_is_unit() {
    for _ in 0..50 {
        let u = Vec3::random_normal();
        assert!((u.length() - Fixed::one()).raw.abs() <= 10);
    }
}

#[test]
fn random_draws_stay_in_range() {
    let mut seen_other = false;
    for _ in 0..200 {
        let u = random_fraction();
        assert!(u >= Fixed::zero() && u < Fixed::one());
        let r = random_range(fx(-2.0), fx(3.0));
        assert!(r >= fx(-2.0) && r < fx(3.0));
        if u != random_fraction() {
            seen_other = true;
        }
        let v = Vec3::random();
        assert!(v.x() >= Fixed::zero() && v.x() < Fixed::one());
    }
    assert!(seen_other);
}

#[test]
fn ray_color_without_depth_is_black() {
    let mut world = HittableList::new();
    world.add(Sphere::new(v3(0.0, 0.0, -1.0), fx(0.5), grey()));
    let cam = Camera::new();
    let r = Ray::new(v3(0.0, 0.0, 0.0), v3(0.0, 0.0, -1.0));
    assert_eq!(cam.ray_color(&r, 0, &world), Vec3::default());
    let away = Ray::new(v3(0.0, 0.0, 0.0), v3(0.0, 1.0, 0.0));
    assert_eq!(cam.ray_color(&away, 0, &world), Vec3::default());
    assert_eq!(cam.ray_color(&away, -3, &world), Vec3::default());
}

#[test]
fn ray_color_of_sky() {
    let mut world = HittableList::new();
    world.add(Sphere::new(v3(0.0, 0.0, -1.0), fx(0.5), grey()));
    let cam = Camera::new();
    let down = Ray::new(v3(0.0, 0.0, 0.0), v3(0.0, -1.0, 0.0));
    assert_eq!(cam.ray_color(&down, 5, &world), v3(1.0, 1.0, 1.0));
    let up = Ray::new(v3(0.0, 0.0, 0.0), v3(0.0, 3.0, 0.0));
    assert_eq!(cam.ray_color(&up, 5, &world), v3(0.5, 0.7, 1.0));
    let level = Ray::new(v3(0.0, 0.0, 0.0), v3(0.0, 0.0, 2.0));
    assert_eq!(cam.ray_color(&level, 5, &world), v3(0.75, 0.85, 1.0));
}

#[test]
fn ray_color_with_given_samples() {
    let mut world = HittableList::new();
    world.add(Sphere::new(v3(0.0, 0.0, -1.0), fx(0.5), grey()));
    let cam = Camera::new();
    let r = Ray::new(v3(0.0, 0.0, 0.0), v3(0.0, 0.0, -1.0));
    let units = vec![v3(0.0, 0.0, 1.0), v3(0.0, 1.0, 0.0)];
    // one bounce straight back along the normal, then the sky level with the horizon
    assert_eq!(cam.ray_color_with(&r, 2, &world, &units), v3(0.375, 0.425, 0.5));
    assert_eq!(cam.ray_color_with(&r, 1, &world, &units), Vec3::default());
}

#[test]
fn center_pixel_is_black_after_one_bounce() {
    let mut world = HittableList::new();
    world.add(Sphere::new(v3(0.0, 0.0, -1.0), fx(0.5), grey()));
    world.add(Sphere::new(v3(0.0, -100.5, -1.0), fx(100.0), grey()));
    let mut cam = Camera::new();
    cam.aspect_ratio = Fixed::ratio(16, 9);
    cam.image_width = 400;
    cam.samples_per_pixel = 1;
    cam.max_depth = 1;
    let out = cam.render(&world);
    assert_eq!(cam.image_height(), 225);
    let text = String::from_utf8(out).unwrap();
    let lines: Vec<&str> = text.lines().collect();
    assert_eq!(lines[0], "P3");
    assert_eq!(lines[1], "400 225");
    assert_eq!(lines[2], "255");
    assert_eq!(lines.len(), 3 + 400 * 225);
    let center = 3 + 112 * 400 + 200;
    assert_eq!(lines[center], "0 0 0");
    // the top left corner sees the sky
    assert_ne!(lines[3], "0 0 0");
}

#[test]
fn camera_defaults_and_height() {
    let mut cam = Camera::default();
    assert_eq!(cam.image_width, 100);
    assert_eq!(cam.samples_per_pixel, 10);
    assert_eq!(cam.max_depth, 10);
    assert_eq!(cam.aspect_ratio, Fixed::one());
    cam.initialize();
    assert_eq!(cam.image_height(), 100);
    cam.image_width = 1;
    cam.aspect_ratio = fx(4.0);
    cam.initialize();
    assert_eq!(cam.image_height(), 1);
    cam.image_width = 10;
    cam.aspect_ratio = fx(4.0);
    cam.initialize();
    // 2.5 rounds to 3
    assert_eq!(cam.image_height(), 3);
}

#[test]
fn get_ray_through_pixel_centre() {
    let mut cam = Camera::new();
    cam.image_width = 4;
    cam.initialize();
    let r = cam.get_ray_with(0, 0, Vec3::default());
    assert_eq!(r.origin(), Vec3::default());
    assert_eq!(r.direction(), v3(-0.75, 0.75, -1.0));
    let r2 = cam.get_ray_with(3, 3, v3(0.5, 0.5, 0.0));
    assert_eq!(r2.direction(), v3(1.0, -1.0, -1.0));
    let o = cam.sample_square();
    assert!(o.x() >= fx(-0.5) && o.x() < fx(0.5) && o.z() == Fixed::zero());
}

#[test]
fn gamma_and_bytes() {
    assert_eq!(linear_to_gamma(fx(0.25)), fx(0.5));
    assert_eq!(linear_to_gamma(fx(-0.25)), Fixed::zero());
    assert_eq!(to_byte(fx(1.0)), 255);
    assert_eq!(to_byte(fx(0.25)), 128);
    assert_eq!(to_byte(fx(-1.0)), 0);
    let mut out = Vec::new();
    print_color(&mut out, &v3(0.25, 0.0, 4.0));
    assert_eq!(out, b"128 0 255\n".to_vec());
    let mut digits = Vec::new();
    push_decimal(&mut digits, 1_234_567);
    push_signed_decimal(&mut digits, -42);
    assert_eq!(digits, b"1234567-42".to_vec());
}

#[test]
fn fixed_arithmetic() {
    assert_eq!(fx(1.5) * fx(-2.0), fx(-3.0));
    assert_eq!(fx(1.0) / fx(3.0), Fixed::from_raw(333_333));
    assert_eq!(fx(-1.0) / fx(3.0), Fixed::from_raw(-333_333));
    assert_eq!(fx(2.0) / Fixed::zero(), Fixed::infinity());
    assert_eq!(fx(-2.0) / Fixed::zero(), Fixed::neg_infinity());
    assert_eq!(Fixed::infinity() + fx(1.0), Fixed::infinity());
    assert_eq!(fx(4.0).sqrt(), fx(2.0));
    assert_eq!(fx(2.0).sqrt(), Fixed::from_raw(1_414_213));
    assert_eq!(fx(-4.0).sqrt(), Fixed::zero());
    assert_eq!(Fixed::ratio(1337, 100), fx(13.37));
    assert_eq!(Fixed::from_int(-7), fx(-7.0));
    assert_eq!(fx(-2.7).trunc(), -2);
    assert!(fx(1.0) < fx(1.000001));
    assert_eq!(-fx(2.5), fx(-2.5));
    assert_eq!(Fixed::from_raw(i64::MIN), Fixed::neg_infinity());
}

#[test]
fn vector_helpers() {
    let v = v3(3.0, 0.0, 4.0);
    assert_eq!(v.length(), fx(5.0));
    assert_eq!(v.to_normal(), v3(0.6, 0.0, 0.8));
    assert_eq!(Vec3::default().to_normal(), Vec3::default());
    assert_eq!(-v, v3(-3.0, 0.0, -4.0));
    assert_eq!(v * fx(2.0), v3(6.0, 0.0, 8.0));
    assert_eq!(fx(2.0) * v, v3(6.0, 0.0, 8.0));
    assert_eq!(v / fx(2.0), v3(1.5, 0.0, 2.0));
    assert_eq!(v.v(), [fx(3.0), fx(0.0), fx(4.0)]);
    assert!(v3(0.000005, -0.000009, 0.0).near_zero());
    assert!(!v3(0.00001, 0.0, 0.0).near_zero());
    assert_eq!(Vec3::unit_from_candidate(v3(0.6, 0.0, 0.8)), Some(v3(0.6, 0.0, 0.8)));
    assert_eq!(Vec3::unit_from_candidate(v3(0.9, 0.9, 0.0)), None);
    assert_eq!(Vec3::unit_from_candidate(Vec3::default()), None);
}

#[test]
fn vector_assign_ops() {
    let mut v = v3(1.0, 2.0, 3.0);
    v += v3(1.0, 1.0, 1.0);
    assert_eq!(v, v3(2.0, 3.0, 4.0));
    v -= v3(0.5, 0.5, 0.5);
    assert_eq!(v, v3(1.5, 2.5, 3.5));
    v *= v3(2.0, 2.0, 2.0);
    assert_eq!(v, v3(3.0, 5.0, 7.0));
    v /= v3(3.0, 5.0, 7.0);
    assert_eq!(v, v3(1.0, 1.0, 1.0));
    v *= fx(4.0);
    assert_eq!(v, v3(4.0, 4.0, 4.0));
    v /= fx(8.0);
    assert_eq!(v, v3(0.5, 0.5, 0.5));
}

#[test]
fn list_nearest_regardless_of_order() {
    let near_mat = Rc::new(Material::Metal(Metal::new(v3(0.8, 0.8, 0.8))));
    let mut world = HittableList::default();
    world.add(Sphere::new(v3(0.0, 0.0, -2.0), fx(1.0), near_mat.clone()));
    world.add(Sphere::new(v3(0.0, 0.0, -3.0), fx(1.0), grey()));
    world.add(Sphere::new(v3(0.0, 5.0, -3.0), fx(1.0), grey()));
    let r = Ray::new(v3(0.0, 0.0, 0.0), v3(0.0, 0.0, -1.0));
    let mut rec = HitRecord::default();
    assert!(world.hit(&r, forward(), &mut rec));
    assert_eq!(rec.t, fx(1.0));
    assert_eq!(*rec.mat, *near_mat);
    assert_eq!(rec.normal, v3(0.0, 0.0, 1.0));
    // an interval that ends before the nearer surface reaches the farther one
    let mut rec2 = HitRecord::default();
    assert!(world.hit(&r, Interval::new(fx(1.5), Fixed::infinity()), &mut rec2));
    assert_eq!(rec2.t, fx(2.0));
    assert_eq!(*rec2.mat, *grey());
}
