use raytracer::hittable::HitRecord;
use raytracer::material::{schlick, Dielectric, Draws, Lambertian, Material, Metal, Surface};
use raytracer::ray::Ray;
use raytracer::scalar::Scalar;
use raytracer::vec3::{on_unit_sphere, Vec3};

fn s(x: f64) -> Scalar {
    Scalar::from_bits(x.to_bits())
}

fn f(x: Scalar) -> f64 {
    f64::from_bits(x.to_bits())
}

fn v(x: f64, y: f64, z: f64) -> Vec3 {
    Vec3 { x: s(x), y: s(y), z: s(z) }
}

fn a(p: Vec3) -> [f64; 3] {
    [f(p.x), f(p.y), f(p.z)]
}

fn dot(u: [f64; 3], w: [f64; 3]) -> f64 {
    (u[0] * w[0]) + (u[1] * w[1]) + (u[2] * w[2])
}

fn scale(t: f64, w: [f64; 3]) -> [f64; 3] {
    [t * w[0], t * w[1], t * w[2]]
}

fn plus(u: [f64; 3], w: [f64; 3]) -> [f64; 3] {
    [u[0] + w[0], u[1] + w[1], u[2] + w[2]]
}

fn minus(u: [f64; 3], w: [f64; 3]) -> [f64; 3] {
    [u[0] - w[0], u[1] - w[1], u[2] - w[2]]
}

fn unit(w: [f64; 3]) -> [f64; 3] {
    scale(1.0 / dot(w, w).sqrt(), w)
}

fn mirror(w: [f64; 3], n: [f64; 3]) -> [f64; 3] {
    minus(w, scale(2.0 * dot(w, n), n))
}

fn native_schlick(cosine: f64, ref_idx: f64) -> f64 {
    let mut r0 = (1.0 - ref_idx) / (1.0 + ref_idx);
    r0 = r0 * r0;
    let x = 1.0 - cosine;
    r0 + (1.0 - r0) * (x * ((x * x) * (x * x)))
}

fn floor_hit(front_face: bool) -> HitRecord {
    HitRecord {
        p: v(1.0, 0.0, 2.0),
        normal: v(0.0, 1.0, 0.0),
        mat_ptr: None,
        t: s(3.0),
        front_face,
    }
}

fn draws(turn: f64, height: f64, ball: [f64; 3], chance: f64) -> Draws {
    Draws { turn: s(turn), height: s(height), ball: v(ball[0], ball[1], ball[2]), chance: s(chance) }
}

#[test]
fn lambertian_new_keeps_the_albedo() {
    let m = Lambertian::new(&v(0.1, 0.2, 0.5));
    assert_eq!(a(m.albedo), [0.1, 0.2, 0.5]);
}

#[test]
fn lambertian_scatters_around_the_normal() {
    let m = Lambertian::new(&v(0.1, 0.2, 0.5));
    let r_in = Ray { orig: v(1.0, 3.0, 2.0), dir: v(0.0, -1.0, 0.0) };
    let d = draws(0.125, 0.75, [0.0, 0.0, 0.0], 0.0);
    let out = m.scatter_with(&r_in, &floor_hit(true), &d).expect("a diffuse surface always scatters");
    assert_eq!(a(out.attenuation), [0.1, 0.2, 0.5]);
    assert_eq!(a(out.scattered.orig), [1.0, 0.0, 2.0]);
    let around = a(on_unit_sphere(s(0.125), s(0.75)));
    assert_eq!(a(out.scattered.dir), plus([0.0, 1.0, 0.0], around));
    assert_eq!(around[2], 0.5);
}

#[test]
fn lambertian_scatter_never_absorbs() {
    let m = Lambertian::new(&v(0.8, 0.8, 0.0));
    let r_in = Ray { orig: v(1.0, 3.0, 2.0), dir: v(0.0, -1.0, 0.0) };
    for _ in 0..100 {
        let out = m.scatter(&r_in, &floor_hit(true)).expect("a diffuse surface always scatters");
        assert_eq!(a(out.attenuation), [0.8, 0.8, 0.0]);
        assert_eq!(a(out.scattered.orig), [1.0, 0.0, 2.0]);
        let offset = minus(a(out.scattered.dir), [0.0, 1.0, 0.0]);
        assert!((dot(offset, offset) - 1.0).abs() < 1.0e-12);
    }
}

#[test]
fn metal_new_caps_the_fuzz_at_one() {
    assert_eq!(f(Metal::new(&v(0.8, 0.6, 0.2), s(0.3)).fuzz), 0.3);
    assert_eq!(f(Metal::new(&v(0.8, 0.6, 0.2), s(1.0)).fuzz), 1.0);
    assert_eq!(f(Metal::new(&v(0.8, 0.6, 0.2), s(7.0)).fuzz), 1.0);
    assert_eq!(f(Metal::new(&v(0.8, 0.6, 0.2), s(f64::NAN)).fuzz), 1.0);
    assert_eq!(f(Metal::new(&v(0.8, 0.6, 0.2), s(0.0)).fuzz), 0.0);
    assert_eq!(f(Metal::new(&v(0.8, 0.6, 0.2), s(-0.5)).fuzz), 0.0);
    assert_eq!(f(Metal::new(&v(0.8, 0.6, 0.2), s(f64::NEG_INFINITY)).fuzz), 0.0);
    assert_eq!(f(Metal::new(&v(0.8, 0.6, 0.2), s(0.999)).fuzz), 0.999);
    assert_eq!(a(Metal::new(&v(0.8, 0.6, 0.2), s(0.0)).albedo), [0.8, 0.6, 0.2]);
}

#[test]
fn metal_without_fuzz_reflects_like_a_mirror() {
    let m = Metal::new(&v(0.8, 0.6, 0.2), s(0.0));
    let incoming = [3.0, -4.0, 0.0];
    let normal = [0.0, 1.0, 0.0];
    let r_in = Ray { orig: v(-2.0, 4.0, 2.0), dir: v(3.0, -4.0, 0.0) };
    let d = draws(0.0, 0.0, [0.3, -0.4, 0.5], 0.0);
    let out = m.scatter_with(&r_in, &floor_hit(true), &d).expect("the mirror direction leaves the surface");
    assert_eq!(a(out.attenuation), [0.8, 0.6, 0.2]);
    assert_eq!(a(out.scattered.orig), [1.0, 0.0, 2.0]);
    let reflected = mirror(unit(incoming), normal);
    assert_eq!(a(out.scattered.dir), plus(reflected, scale(0.0, [0.3, -0.4, 0.5])));
    assert_eq!(dot(a(out.scattered.dir), normal), -dot(unit(incoming), normal));
}

#[test]
fn metal_with_fuzz_adds_the_scaled_ball_point() {
    let m = Metal::new(&v(0.7, 0.6, 0.5), s(0.5));
    let r_in = Ray { orig: v(-2.0, 4.0, 2.0), dir: v(3.0, -4.0, 0.0) };
    let d = draws(0.0, 0.0, [0.2, 0.4, -0.6], 0.0);
    let out = m.scatter_with(&r_in, &floor_hit(true), &d).expect("the direction leaves the surface");
    let reflected = mirror(unit([3.0, -4.0, 0.0]), [0.0, 1.0, 0.0]);
    assert_eq!(a(out.scattered.dir), plus(reflected, scale(0.5, [0.2, 0.4, -0.6])));
}

#[test]
fn metal_absorbs_a_ray_scattered_into_the_surface() {
    let m = Metal::new(&v(0.7, 0.6, 0.5), s(1.0));
    let r_in = Ray { orig: v(-9.0, 0.1, 2.0), dir: v(1.0, -0.01, 0.0) };
    let d = draws(0.0, 0.0, [0.0, -0.9, 0.0], 0.0);
    assert!(m.scatter_with(&r_in, &floor_hit(true), &d).is_none());
    let from_below = Ray { orig: v(1.0, -3.0, 2.0), dir: v(0.0, 1.0, 0.0) };
    let still = Draws::new();
    assert!(m.scatter_with(&from_below, &floor_hit(true), &still).is_none());
}

#[test]
fn metal_scatter_draws_a_point_of_the_ball() {
    let m = Metal::new(&v(0.7, 0.6, 0.5), s(0.25));
    let r_in = Ray { orig: v(1.0, 3.0, 2.0), dir: v(0.0, -1.0, 0.0) };
    for _ in 0..100 {
        let out = m.scatter(&r_in, &floor_hit(true)).expect("a quarter of fuzz cannot turn the ray down");
        let offset = minus(a(out.scattered.dir), [0.0, 1.0, 0.0]);
        assert!(dot(offset, offset) < 0.0625 + 1.0e-12);
    }
}

#[test]
fn schlick_at_normal_incidence_is_the_base_reflectance() {
    for ratio in [1.5, 1.0 / 1.5, 1.0, 2.4, 0.25, 1.33] {
        let q: f64 = (1.0 - ratio) / (1.0 + ratio);
        assert_eq!(f(schlick(s(1.0), s(ratio))).to_bits(), (q * q).to_bits(), "ratio {}", ratio);
    }
    assert_eq!(f(schlick(s(1.0), s(1.5))), 0.04000000000000001);
    assert_eq!(schlick(s(1.0), s(1.0)).to_bits(), 0);
    assert!(f(schlick(s(1.0), s(-1.0))).is_nan());
}

#[test]
fn schlick_follows_the_formula() {
    for (cosine, ratio) in [(0.0, 1.5), (0.5, 1.5), (0.3, 1.0 / 1.5), (0.9, 2.4), (0.0, 1.0)] {
        assert_eq!(f(schlick(s(cosine), s(ratio))), native_schlick(cosine, ratio));
    }
    assert_eq!(f(schlick(s(0.0), s(1.0))), 1.0);
}

#[test]
fn dielectric_new_keeps_the_index() {
    assert_eq!(f(Dielectric::new(s(1.5)).ref_idx), 1.5);
}

#[test]
fn dielectric_reflects_when_the_chance_is_below_the_reflectance() {
    let m = Dielectric::new(s(1.5));
    let r_in = Ray { orig: v(1.0, 3.0, 2.0), dir: v(3.0, -4.0, 0.0) };
    let d = draws(0.0, 0.0, [0.0, 0.0, 0.0], 0.0);
    let out = m.scatter_with(&r_in, &floor_hit(true), &d).expect("glass always scatters");
    assert_eq!(a(out.attenuation), [1.0, 1.0, 1.0]);
    assert_eq!(a(out.scattered.orig), [1.0, 0.0, 2.0]);
    assert_eq!(a(out.scattered.dir), mirror(unit([3.0, -4.0, 0.0]), [0.0, 1.0, 0.0]));
}

#[test]
fn dielectric_refracts_when_the_chance_is_above_the_reflectance() {
    let m = Dielectric::new(s(1.5));
    let r_in = Ray { orig: v(1.0, 3.0, 2.0), dir: v(3.0, -4.0, 0.0) };
    let d = draws(0.0, 0.0, [0.0, 0.0, 0.0], 0.999);
    let out = m.scatter_with(&r_in, &floor_hit(true), &d).expect("glass always scatters");
    let uv = unit([3.0, -4.0, 0.0]);
    let n = [0.0, 1.0, 0.0];
    let ratio = 1.0 / 1.5;
    let cos_theta = dot([-uv[0], -uv[1], -uv[2]], n);
    let perp = scale(ratio, plus(uv, scale(cos_theta, n)));
    let parallel = scale(-((1.0 - dot(perp, perp)).abs().sqrt()), n);
    assert_eq!(a(out.attenuation), [1.0, 1.0, 1.0]);
    assert_eq!(a(out.scattered.dir), plus(perp, parallel));
    assert!(f(out.scattered.dir.y) < 0.0);
}

#[test]
fn dielectric_reflects_totally_from_inside_at_a_flat_angle() {
    let m = Dielectric::new(s(1.5));
    let r_in = Ray { orig: v(1.0, 3.0, 2.0), dir: v(4.0, -1.0, 0.0) };
    let d = draws(0.0, 0.0, [0.0, 0.0, 0.0], 0.999);
    let out = m.scatter_with(&r_in, &floor_hit(false), &d).expect("glass always scatters");
    assert_eq!(a(out.scattered.dir), mirror(unit([4.0, -1.0, 0.0]), [0.0, 1.0, 0.0]));
    assert!(f(out.scattered.dir.y) > 0.0);
}

#[test]
fn dielectric_scatter_reflects_or_refracts() {
    let m = Dielectric::new(s(1.5));
    let r_in = Ray { orig: v(1.0, 3.0, 2.0), dir: v(3.0, -4.0, 0.0) };
    let reflected = mirror(unit([3.0, -4.0, 0.0]), [0.0, 1.0, 0.0]);
    let mut refractions = 0;
    for _ in 0..200 {
        let out = m.scatter(&r_in, &floor_hit(true)).expect("glass always scatters");
        assert_eq!(a(out.attenuation), [1.0, 1.0, 1.0]);
        if a(out.scattered.dir) != reflected {
            assert!(f(out.scattered.dir.y) < 0.0);
            refractions += 1;
        }
    }
    assert!(refractions > 100);
}

#[test]
fn surface_scatters_as_the_material_inside() {
    let r_in = Ray { orig: v(1.0, 3.0, 2.0), dir: v(3.0, -4.0, 0.0) };
    let d = draws(0.3, 0.6, [0.1, 0.2, 0.3], 0.5);
    let rec = floor_hit(true);
    let matte = Lambertian::new(&v(0.1, 0.2, 0.5));
    let metal = Metal::new(&v(0.8, 0.6, 0.2), s(0.3));
    let glass = Dielectric::new(s(1.5));
    assert_eq!(Surface::Lambertian(matte).scatter_with(&r_in, &rec, &d), matte.scatter_with(&r_in, &rec, &d));
    assert_eq!(Surface::Metal(metal).scatter_with(&r_in, &rec, &d), metal.scatter_with(&r_in, &rec, &d));
    assert_eq!(Surface::Dielectric(glass).scatter_with(&r_in, &rec, &d), glass.scatter_with(&r_in, &rec, &d));
    assert!(Surface::Lambertian(matte).scatter(&r_in, &rec).is_some());
    assert!(Surface::Metal(metal).scatter(&r_in, &rec).is_some());
    assert!(Surface::Dielectric(glass).scatter(&r_in, &rec).is_some());
}

#[test]
fn draws_new_is_all_zero() {
    let still = Draws::new();
    assert_eq!(f(still.turn), 0.0);
    assert_eq!(f(still.height), 0.0);
    assert_eq!(f(still.chance), 0.0);
    assert_eq!(a(still.ball), [0.0, 0.0, 0.0]);
}

#[test]
fn metal_without_fuzz_ignores_the_ball_point() {
    let m = Metal::new(&v(0.8, 0.6, 0.2), s(0.0));
    let r_in = Ray { orig: v(-2.0, 4.0, 2.0), dir: v(3.0, -4.0, 1.0) };
    let reflected = mirror(unit([3.0, -4.0, 1.0]), [0.0, 1.0, 0.0]);
    let balls = [[0.0, 0.0, 0.0], [0.3, -0.4, 0.5], [-0.9, 0.1, -0.2], [0.0, -0.99, 0.0]];
    for ball in balls {
        let out = m
            .scatter_with(&r_in, &floor_hit(true), &draws(0.7, 0.2, ball, 0.4))
            .expect("the mirror direction leaves the surface");
        assert_eq!(a(out.scattered.dir), reflected);
        assert_eq!(out.scattered.dir.x.to_bits(), reflected[0].to_bits());
        assert_eq!(out.scattered.dir.y.to_bits(), reflected[1].to_bits());
        assert_eq!(out.scattered.dir.z.to_bits(), reflected[2].to_bits());
        assert_eq!(a(out.scattered.orig), [1.0, 0.0, 2.0]);
        assert_eq!(a(out.attenuation), [0.8, 0.6, 0.2]);
    }
    for _ in 0..50 {
        let out = m.scatter(&r_in, &floor_hit(true)).expect("the mirror direction leaves the surface");
        assert_eq!(a(out.scattered.dir), reflected);
    }
}
