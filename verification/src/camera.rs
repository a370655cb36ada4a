//! The camera: it turns image coordinates into rays, with a thin lens for
//! depth of field.
use vstd::prelude::*;
use crate::ray::Ray;
use crate::rtweekend::{degrees_to_radians, spec_degrees_to_radians};
use crate::scalar::{Scalar, TWO_BITS};
use crate::vec3::{
    cross, random_in_unit_disk, spec_cross, spec_keeps, spec_unit_vector, unit_vector, Point3, Vec3,
};

verus! {

/// A camera, fixed for the length of a render.
#[derive(Clone, Copy, Debug, PartialEq, Eq, Structural)]
pub struct Camera {
    /// Where the camera stands.
    pub origin: Point3,
    /// The lower left corner of the image plane.
    pub lower_left_corner: Point3,
    /// The span of the image plane from left to right.
    pub horizontal: Vec3,
    /// The span of the image plane from bottom to top.
    pub vertical: Vec3,
    /// The unit vector to the right of the camera.
    pub u: Vec3,
    /// The unit vector upward of the camera.
    pub v: Vec3,
    /// The unit vector from the target back to the camera.
    pub w: Vec3,
    /// Half the aperture.
    pub lens_radius: Scalar,
}

impl Camera {
    /// The camera that stands at `lookfrom`, looks at `lookat` with `vup`
    /// upward, sees `vfov` degrees from bottom to top at the given aspect
    /// ratio, and is focused at the distance `focus_dist` through a lens of
    /// diameter `aperture`.
    ///
    /// With `h = tan(vfov / 2)` the image plane is `2h` high and
    /// `aspect_ratio * 2h` wide at unit distance. The basis is
    /// `w = unit(lookfrom - lookat)`, `u = unit(vup x w)`, `v = w x u`.
    pub open spec fn spec_new(
        lookfrom: Point3,
        lookat: Point3,
        vup: Vec3,
        vfov: Scalar,
        aspect_ratio: Scalar,
        aperture: Scalar,
        focus_dist: Scalar,
    ) -> Camera {
        let two = Scalar { bits: TWO_BITS };
        let theta = spec_degrees_to_radians(vfov);
        let h = theta.spec_div(two).spec_tan();
        let viewport_height = two.spec_mul(h);
        let viewport_width = aspect_ratio.spec_mul(viewport_height);
        let w = spec_unit_vector(lookfrom.spec_sub(lookat));
        let u = spec_unit_vector(spec_cross(vup, w));
        let v = spec_cross(w, u);
        let horizontal = u.spec_scale(focus_dist.spec_mul(viewport_width));
        let vertical = v.spec_scale(focus_dist.spec_mul(viewport_height));
        Camera {
            origin: lookfrom,
            lower_left_corner: lookfrom.spec_sub(horizontal.spec_div(two)).spec_sub(
                vertical.spec_div(two),
            ).spec_sub(w.spec_scale(focus_dist)),
            horizontal,
            vertical,
            u,
            v,
            w,
            lens_radius: aperture.spec_div(two),
        }
    }

    /// Builds a camera. `vfov` is the vertical field of view in degrees.
    pub fn new(
        lookfrom: Point3,
        lookat: Point3,
        vup: Vec3,
        vfov: Scalar,
        aspect_ratio: Scalar,
        aperture: Scalar,
        focus_dist: Scalar,
    ) -> (cam: Camera)
        ensures
            cam == Camera::spec_new(lookfrom, lookat, vup, vfov, aspect_ratio, aperture, focus_dist),
    {
        let two = Scalar { bits: TWO_BITS };
        let theta = degrees_to_radians(vfov);
        let h = theta.div(two).tan();
        let viewport_height = two.mul(h);
        let viewport_width = aspect_ratio.mul(viewport_height);

        let origin_calc = lookfrom;
        let w_calc = unit_vector(origin_calc.sub(lookat));
        let u_calc = unit_vector(cross(&vup, &w_calc));
        let v_calc = cross(&w_calc, &u_calc);
        let horizontal_calc = u_calc.scale(focus_dist.mul(viewport_width));
        let vertical_calc = v_calc.scale(focus_dist.mul(viewport_height));
        let lower_left_calc = origin_calc.sub(horizontal_calc.div(two)).sub(vertical_calc.div(two)).sub(
            w_calc.scale(focus_dist),
        );

        Camera {
            origin: origin_calc,
            lower_left_corner: lower_left_calc,
            horizontal: horizontal_calc,
            vertical: vertical_calc,
            u: u_calc,
            v: v_calc,
            w: w_calc,
            lens_radius: aperture.div(two),
        }
    }

    /// The ray through the image point `(s, t)` that starts at the point of
    /// the lens picked by `lens`, a point of the unit disk: with
    /// `rd = lens_radius * lens` and `offset = rd.x * u + rd.y * v` it runs
    /// from `origin + offset` toward
    /// `lower_left_corner + s * horizontal + t * vertical - origin - offset`.
    pub open spec fn spec_ray(self, s: Scalar, t: Scalar, lens: Vec3) -> Ray {
        let rd = lens.spec_scale(self.lens_radius);
        let offset = self.u.spec_scale(rd.x).spec_add(self.v.spec_scale(rd.y));
        Ray {
            orig: self.origin.spec_add(offset),
            dir: self.lower_left_corner.spec_add(self.horizontal.spec_scale(s)).spec_add(
                self.vertical.spec_scale(t),
            ).spec_sub(self.origin).spec_sub(offset),
        }
    }

    /// The ray through the image point `(s, t)` and the given lens point.
    pub fn get_ray_through(&self, s: Scalar, t: Scalar, lens: &Vec3) -> (r: Ray)
        ensures
            r == self.spec_ray(s, t, *lens),
    {
        let rd = lens.scale(self.lens_radius);
        let offset = self.u.scale(rd.x()).add(self.v.scale(rd.y()));
        Ray {
            orig: self.origin.add(offset),
            dir: self.lower_left_corner.add(self.horizontal.scale(s)).add(self.vertical.scale(t)).sub(
                self.origin,
            ).sub(offset),
        }
    }

    /// The ray through the image point `(s, t)`, both in the unit interval,
    /// from a random point of the lens.
    pub fn get_ray(&self, s: Scalar, t: Scalar) -> (r: Ray)
        ensures
            exists|lens: Vec3|
                (lens == Vec3::zero() || spec_keeps(lens)) && lens.z == (Scalar { bits: 0 }) && r
                    == #[trigger] self.spec_ray(s, t, lens),
    {
        let lens = random_in_unit_disk();
        let r = self.get_ray_through(s, t, &lens);
        assert(r == self.spec_ray(s, t, lens));
        r
    }
}

} // verus!
