use raytracer::camera::Camera;
use raytracer::scalar::Scalar;
use raytracer::vec3::Vec3;

fn s(x: f64) -> Scalar {
    Scalar::from_bits(x.to_bits())
}

fn f(x: Scalar) -> f64 {
    f64::from_bits(x.to_bits())
}

fn v(x: f64, y: f64, z: f64) -> Vec3 {
    Vec3 { x: s(x), y: s(y), z: s(z) }
}

fn a(p: Vec3) -> [f64; 3] {
    [f(p.x), f(p.y), f(p.z)]
}

fn close(got: [f64; 3], want: [f64; 3]) -> bool {
    (0..3).all(|i| (got[i] - want[i]).abs() < 1.0e-12)
}

fn straight() -> Camera {
    Camera::new(
        v(0.0, 0.0, 0.0),
        v(0.0, 0.0, -1.0),
        v(0.0, 1.0, 0.0),
        s(90.0),
        s(2.0),
        s(0.0),
        s(1.0),
    )
}

#[test]
fn camera_new_builds_an_orthonormal_basis() {
    let cam = straight();
    assert_eq!(a(cam.origin), [0.0, 0.0, 0.0]);
    assert_eq!(a(cam.w), [0.0, 0.0, 1.0]);
    assert_eq!(a(cam.u), [1.0, 0.0, 0.0]);
    assert_eq!(a(cam.v), [0.0, 1.0, 0.0]);
    assert_eq!(f(cam.lens_radius), 0.0);
    assert!(close(a(cam.horizontal), [4.0, 0.0, 0.0]));
    assert!(close(a(cam.vertical), [0.0, 2.0, 0.0]));
    assert!(close(a(cam.lower_left_corner), [-2.0, -1.0, -1.0]));
}

#[test]
fn camera_new_scales_the_image_plane_by_the_focus_distance() {
    let cam = Camera::new(
        v(13.0, 2.0, 3.0),
        v(0.0, 0.0, 0.0),
        v(0.0, 1.0, 0.0),
        s(20.0),
        s(1.5),
        s(0.1),
        s(10.0),
    );
    assert_eq!(a(cam.origin), [13.0, 2.0, 3.0]);
    assert_eq!(f(cam.lens_radius), 0.05);
    let height = 2.0 * (20.0f64.to_radians() / 2.0).tan();
    let h = f(cam.horizontal.length());
    let w = f(cam.vertical.length());
    assert!((h - 10.0 * 1.5 * height).abs() < 1.0e-12);
    assert!((w - 10.0 * height).abs() < 1.0e-12);
    assert!((f(cam.w.length()) - 1.0).abs() < 1.0e-15);
    assert!((f(cam.u.length()) - 1.0).abs() < 1.0e-15);
    assert!((f(cam.v.length()) - 1.0).abs() < 1.0e-15);
}

#[test]
fn camera_ray_through_the_center_looks_straight_ahead() {
    let cam = straight();
    let r = cam.get_ray_through(s(0.5), s(0.5), &v(0.0, 0.0, 0.0));
    assert_eq!(a(r.orig), [0.0, 0.0, 0.0]);
    assert!(close(a(r.dir), [0.0, 0.0, -1.0]));
    let corner = cam.get_ray_through(s(0.0), s(0.0), &v(0.0, 0.0, 0.0));
    assert!(close(a(corner.dir), [-2.0, -1.0, -1.0]));
    let top = cam.get_ray_through(s(1.0), s(1.0), &v(0.0, 0.0, 0.0));
    assert!(close(a(top.dir), [2.0, 1.0, -1.0]));
}

#[test]
fn camera_ray_from_the_lens_still_aims_at_the_focus_plane() {
    let cam = Camera::new(
        v(0.0, 0.0, 0.0),
        v(0.0, 0.0, -1.0),
        v(0.0, 1.0, 0.0),
        s(90.0),
        s(2.0),
        s(2.0),
        s(4.0),
    );
    let r = cam.get_ray_through(s(0.5), s(0.5), &v(0.5, -0.25, 0.0));
    assert_eq!(a(r.orig), [0.5, -0.25, 0.0]);
    let target = a(r.at(s(1.0)));
    assert!(close(target, [0.0, 0.0, -4.0]));
}

#[test]
fn camera_get_ray_starts_on_the_lens() {
    let cam = Camera::new(
        v(0.0, 0.0, 0.0),
        v(0.0, 0.0, -1.0),
        v(0.0, 1.0, 0.0),
        s(90.0),
        s(2.0),
        s(2.0),
        s(4.0),
    );
    for _ in 0..100 {
        let r = cam.get_ray(s(0.25), s(0.75));
        let o = a(r.orig);
        assert!(o[0] * o[0] + o[1] * o[1] < 1.0);
        assert_eq!(o[2], 0.0);
        assert!(close(a(r.at(s(1.0))), [-4.0, 2.0, -4.0]));
    }
    let pinhole = straight();
    let r = pinhole.get_ray(s(0.5), s(0.5));
    assert_eq!(a(r.orig), [0.0, 0.0, 0.0]);
}
