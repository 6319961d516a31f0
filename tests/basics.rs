use raytracer::fixed::Fixed;
use raytracer::interval::Interval;
use raytracer::ray::Ray;
use raytracer::vec::{Point3, Vec3};

fn fx(v: f64) -> Fixed {
    Fixed::from_raw((v * 1e6).round() as i64)
}

fn v3(x: f64, y: f64, z: f64) -> Vec3 {
    Vec3::new(fx(x), fx(y), fx(z))
}

#[test]
fn interval_contains() {
    let a = Interval::new(fx(0.0), fx(f64::INFINITY));
    assert!(a.contains(fx(10.0)));
    assert!(a.contains(fx(13.37)));
    assert!(!a.contains(fx(-23.0)));
    assert!(!a.contains(fx(-0.1)));
}

#[test]
fn interval_surrounds() {
    let a = Interval::new(fx(0.0), fx(99.99));

    assert!(a.surrounds(fx(10.0)));
    assert!(a.surrounds(fx(13.37)));
    assert!(!a.surrounds(fx(-23.0)));
    assert!(!a.surrounds(fx(110.1)));
}

#[test]
fn interval_clamp() {
    let a = Interval::new(fx(-10.0), fx(15.0));

    assert_eq!(a.clamp(fx(10.0)), fx(10.0));
    assert_eq!(a.clamp(fx(20.0)), fx(15.0));
    assert_eq!(a.clamp(fx(-23.0)), fx(-10.0));
    assert_eq!(a.clamp(fx(-5.2)), fx(-5.2));
}

#[test]
fn create_default_ray() {
    let a = Ray::default();
    assert_eq!(a, Ray::new(Point3::new(fx(0.0), fx(0.0), fx(0.0)), v3(0.0, 0.0, 0.0)))
}

#[test]
fn get_ray_at() {
    let a = Ray::new(v3(0.0, 0.0, 0.0), v3(10.0, 5.0, 2.0));
    assert_eq!(a.at(fx(0.5)), v3(5.0, 2.5, 1.0))
}

#[test]
fn create_default_vec3() {
    let a = Vec3::default();
    assert_eq!(a, v3(0.0, 0.0, 0.0))
}

#[test]
fn create_vec3_from() {
    let a = Vec3::from(fx(10.0));
    assert!(a.x() == a.y() && a.x() == a.z() && a.y() == a.z());
    assert_eq!(a.x(), fx(10.0))
}

#[test]
fn vec3_length() {
    let a = Vec3::from(fx(1.0));
    assert_eq!(a.length_squared(), fx(3.0));
    // the length is rounded down to a millionth
    assert_eq!(a.length(), Fixed::from_raw((3.0_f64.sqrt() * 1e6) as i64))
}

#[test]
fn vec3_add() {
    let a = v3(2.0, 0.0, -1.0);
    let b = v3(0.0, 1.0, 0.5);
    let c = a + b;
    assert_eq!(c, v3(2.0, 1.0, -0.5))
}

#[test]
fn vec3_sub() {
    let a = v3(2.0, 0.0, -1.0);
    let b = v3(0.0, 1.0, 0.5);
    let c = a - b;
    assert_eq!(c, v3(2.0, -1.0, -1.5))
}

#[test]
fn vec3_mul() {
    let a = v3(2.0, 0.0, -1.0);
    let b = v3(0.0, 1.0, 0.5);
    let c = a * b;
    assert_eq!(c, v3(0.0, 0.0, -0.5))
}

#[test]
fn vec3_div() {
    let a = v3(2.0, 2.0, 5.0);
    let b = v3(4.0, 1.0, 0.5);
    let c = a / b;
    assert_eq!(c, v3(0.5, 2.0, 10.0))
}
