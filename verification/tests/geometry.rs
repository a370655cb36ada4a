use raytracer::hittable::{HitRecord, Hittable};
use raytracer::hittable_list::HittableList;
use raytracer::material::{Lambertian, Surface};
use raytracer::ray::Ray;
use raytracer::scalar::Scalar;
use raytracer::sphere::Sphere;
use raytracer::vec3::Vec3;

fn s(x: f64) -> Scalar {
    Scalar::from_bits(x.to_bits())
}

fn f(x: Scalar) -> f64 {
    f64::from_bits(x.to_bits())
}

fn v(x: f64, y: f64, z: f64) -> Vec3 {
    Vec3 { x: s(x), y: s(y), z: s(z) }
}

fn a(p: Vec3) -> [f64; 3] {
    [f(p.x), f(p.y), f(p.z)]
}

fn grey() -> Surface {
    Surface::Lambertian(Lambertian::new(&v(0.5, 0.5, 0.5)))
}

fn sphere(x: f64, y: f64, z: f64, radius: f64) -> Sphere {
    Sphere { center: v(x, y, z), radius: s(radius), mat_ptr: grey() }
}

fn ray(o: [f64; 3], d: [f64; 3]) -> Ray {
    Ray { orig: v(o[0], o[1], o[2]), dir: v(d[0], d[1], d[2]) }
}

#[test]
fn ray_new_starts_at_the_origin_with_no_direction() {
    let r = Ray::new();
    assert_eq!(a(r.origin()), [0.0, 0.0, 0.0]);
    assert_eq!(a(r.direction()), [0.0, 0.0, 0.0]);
}

#[test]
fn ray_at_walks_along_the_direction() {
    let r = ray([1.0, 2.0, 3.0], [0.5, 0.0, -1.0]);
    assert_eq!(a(r.origin()), [1.0, 2.0, 3.0]);
    assert_eq!(a(r.direction()), [0.5, 0.0, -1.0]);
    assert_eq!(a(r.at(s(2.0))), [2.0, 2.0, 1.0]);
    assert_eq!(a(r.at(s(0.0))), [1.0, 2.0, 3.0]);
    assert_eq!(a(r.at(s(-1.0))), [0.5, 2.0, 4.0]);
}

#[test]
fn hit_record_new_is_blank() {
    let rec = HitRecord::new();
    assert_eq!(a(rec.p), [0.0, 0.0, 0.0]);
    assert_eq!(a(rec.normal), [0.0, 0.0, 0.0]);
    assert!(rec.mat_ptr.is_none());
    assert_eq!(f(rec.t), 0.0);
    assert!(!rec.front_face);
}

#[test]
fn set_face_normal_turns_the_normal_against_the_ray() {
    let r = ray([0.0, 0.0, 0.0], [0.0, 0.0, -1.0]);
    let mut rec = HitRecord::new();
    rec.t = s(7.0);
    rec.set_face_normal(&r, &v(0.0, 0.0, 1.0));
    assert!(rec.front_face);
    assert_eq!(a(rec.normal), [0.0, 0.0, 1.0]);
    assert_eq!(f(rec.t), 7.0);
    rec.set_face_normal(&r, &v(0.0, 0.0, -1.0));
    assert!(!rec.front_face);
    assert_eq!(a(rec.normal), [0.0, 0.0, 1.0]);
}

#[test]
fn sphere_hit_head_on_is_at_distance_minus_radius() {
    let ball = sphere(0.0, 0.0, -1.0, 0.5);
    let r = ray([0.0, 0.0, 0.0], [0.0, 0.0, -1.0]);
    let rec = ball.hit(&r, s(0.001), s(f64::INFINITY)).expect("the ray points at the center");
    assert_eq!(f(rec.t), 0.5);
    assert_eq!(a(rec.p), [0.0, 0.0, -0.5]);
    assert_eq!(a(rec.normal), [0.0, 0.0, 1.0]);
    assert!(rec.front_face);
    assert_eq!(rec.mat_ptr, Some(grey()));

    let far = sphere(3.0, 4.0, 12.0, 2.0);
    let aimed = ray([0.0, 0.0, 0.0], [3.0, 4.0, 12.0]);
    let rec = far.hit(&aimed, s(0.001), s(f64::INFINITY)).expect("the ray points at the center");
    let distance = f(rec.t) * 13.0;
    assert!((distance - (13.0 - 2.0)).abs() < 1.0e-12);
    let n = a(rec.normal);
    let d = [3.0 / 13.0, 4.0 / 13.0, 12.0 / 13.0];
    assert!((n[0] + d[0]).abs() < 1.0e-12);
    assert!((n[1] + d[1]).abs() < 1.0e-12);
    assert!((n[2] + d[2]).abs() < 1.0e-12);
}

#[test]
fn sphere_hit_misses_beside_the_sphere() {
    let ball = sphere(0.0, 0.0, -1.0, 0.5);
    let beside = ray([0.0, 0.6, 0.0], [0.0, 0.0, -1.0]);
    assert!(ball.hit(&beside, s(0.001), s(f64::INFINITY)).is_none());
    let away = ray([0.0, 0.0, 0.0], [0.0, 1.0, 0.0]);
    assert!(ball.hit(&away, s(0.001), s(f64::INFINITY)).is_none());
    let grazing = ray([0.0, 0.5, 0.0], [0.0, 0.0, -1.0]);
    assert!(ball.hit(&grazing, s(0.001), s(f64::INFINITY)).is_none());
}

#[test]
fn sphere_hit_respects_the_range() {
    let ball = sphere(0.0, 0.0, -1.0, 0.5);
    let r = ray([0.0, 0.0, 0.0], [0.0, 0.0, -1.0]);
    let back = ball.hit(&r, s(0.5), s(f64::INFINITY)).expect("the far side is in range");
    assert_eq!(f(back.t), 1.5);
    assert!(!back.front_face);
    assert_eq!(a(back.normal), [0.0, 0.0, 1.0]);
    assert!(ball.hit(&r, s(0.001), s(0.5)).is_none());
    assert!(ball.hit(&r, s(1.5), s(f64::INFINITY)).is_none());
    assert!(ball.hit(&r, s(0.6), s(1.4)).is_none());
    assert!(ball.hit(&r, s(0.001), s(f64::NAN)).is_none());
}

#[test]
fn sphere_with_negative_radius_faces_inward() {
    let shell = sphere(0.0, 0.0, -1.0, -0.4);
    let r = ray([0.0, 0.0, 0.0], [0.0, 0.0, -1.0]);
    let rec = shell.hit(&r, s(0.001), s(f64::INFINITY)).expect("the ray points at the center");
    assert!((f(rec.t) - 0.6).abs() < 1.0e-15);
    assert!(!rec.front_face);
    assert!((f(rec.normal.z) - 1.0).abs() < 1.0e-15);
}

#[test]
fn hittable_list_new_is_empty_and_add_appends() {
    let mut world = HittableList::new();
    assert_eq!(world.len(), 0);
    assert!(world.get(0).is_none());
    world.add(sphere(0.0, 0.0, -1.0, 0.5));
    world.add(sphere(0.0, -100.5, -1.0, 100.0));
    assert_eq!(world.len(), 2);
    assert_eq!(world.get(0), Some(sphere(0.0, 0.0, -1.0, 0.5)));
    assert_eq!(world.get(1), Some(sphere(0.0, -100.5, -1.0, 100.0)));
    assert!(world.get(2).is_none());
}

#[test]
fn hittable_list_hit_on_an_empty_list_is_none() {
    let world = HittableList::new();
    let r = ray([0.0, 0.0, 0.0], [0.0, 0.0, -1.0]);
    assert!(world.hit(&r, s(0.001), s(f64::INFINITY)).is_none());
}

#[test]
fn hittable_list_hit_returns_the_nearer_of_two_overlapping_spheres() {
    let near = sphere(0.0, 0.0, -1.0, 0.5);
    let far = sphere(0.0, 0.0, -1.25, 0.5);
    let r = ray([0.0, 0.0, 0.0], [0.0, 0.0, -1.0]);

    let mut one = HittableList::new();
    one.add(near);
    one.add(far);
    let mut other = HittableList::new();
    other.add(far);
    other.add(near);

    let first = one.hit(&r, s(0.001), s(f64::INFINITY)).expect("both spheres are hit");
    let second = other.hit(&r, s(0.001), s(f64::INFINITY)).expect("both spheres are hit");
    assert_eq!(f(first.t), 0.5);
    assert_eq!(f(second.t), 0.5);
    assert_eq!(first, second);
    assert_eq!(first, near.hit(&r, s(0.001), s(f64::INFINITY)).unwrap());
}

#[test]
fn hittable_list_hit_keeps_the_first_of_two_coincident_hits() {
    let brown = Surface::Lambertian(Lambertian::new(&v(0.4, 0.2, 0.1)));
    let first = sphere(0.0, 0.0, -1.0, 0.5);
    let second = Sphere { center: v(0.0, 0.0, -1.0), radius: s(0.5), mat_ptr: brown };
    let r = ray([0.0, 0.0, 0.0], [0.0, 0.0, -1.0]);
    let mut world = HittableList::new();
    world.add(first);
    world.add(second);
    let rec = world.hit(&r, s(0.001), s(f64::INFINITY)).expect("the spheres are hit");
    assert_eq!(rec.mat_ptr, Some(grey()));
}

#[test]
fn hittable_list_hit_misses_when_every_member_misses() {
    let mut world = HittableList::new();
    world.add(sphere(0.0, 0.0, -1.0, 0.5));
    world.add(sphere(2.0, 0.0, -1.0, 0.5));
    let r = ray([0.0, 5.0, 0.0], [0.0, 0.0, -1.0]);
    assert!(world.hit(&r, s(0.001), s(f64::INFINITY)).is_none());
    let ahead = ray([0.0, 0.0, 0.0], [0.0, 0.0, -1.0]);
    assert!(world.hit(&ahead, s(0.001), s(0.25)).is_none());
}
