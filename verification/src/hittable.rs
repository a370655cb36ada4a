//! What a ray can run into, and the record of where it did.
use vstd::prelude::*;
use crate::material::Surface;
use crate::ray::Ray;
use crate::scalar::Scalar;
use crate::vec3::{dot, spec_dot, Point3, Vec3};

verus! {

/// Where and how a ray met a surface.
#[derive(Clone, Copy, Debug, PartialEq, Eq, Structural)]
pub struct HitRecord {
    /// The point of the hit.
    pub p: Point3,
    /// The surface normal at the hit, turned against the incoming ray.
    pub normal: Vec3,
    /// The material of the surface, if any.
    pub mat_ptr: Option<Surface>,
    /// The parameter of the ray at the hit.
    pub t: Scalar,
    /// Whether the ray came from outside the surface.
    pub front_face: bool,
}

/// Whether a ray with direction `direction` meets a surface with outward
/// normal `outward_normal` from outside: their dot product is negative.
pub open spec fn spec_front_face(direction: Vec3, outward_normal: Vec3) -> bool {
    spec_dot(direction, outward_normal).spec_lt(Scalar { bits: 0 })
}

/// The outward normal turned against the ray: kept when the ray comes from
/// outside, negated when it comes from inside.
pub open spec fn spec_facing_normal(direction: Vec3, outward_normal: Vec3) -> Vec3 {
    if spec_front_face(direction, outward_normal) {
        outward_normal
    } else {
        outward_normal.spec_neg()
    }
}

impl HitRecord {
    /// The record before any hit: everything zero, no material.
    pub open spec fn blank() -> HitRecord {
        HitRecord {
            p: Vec3::zero(),
            normal: Vec3::zero(),
            mat_ptr: None,
            t: Scalar { bits: 0 },
            front_face: false,
        }
    }

    /// A blank record.
    pub fn new() -> (rec: HitRecord)
        ensures
            rec == HitRecord::blank(),
    {
        HitRecord {
            p: Vec3::new(),
            normal: Vec3::new(),
            mat_ptr: None,
            t: Scalar { bits: 0 },
            front_face: false,
        }
    }

    /// Sets `front_face` and `normal` from the ray and the outward normal of
    /// the surface, so that the stored normal opposes the ray; the other
    /// fields stay.
    pub fn set_face_normal(&mut self, r: &Ray, outward_normal: &Vec3)
        ensures
            final(self).front_face == spec_front_face(r.dir, *outward_normal),
            final(self).normal == spec_facing_normal(r.dir, *outward_normal),
            final(self).p == old(self).p,
            final(self).t == old(self).t,
            final(self).mat_ptr == old(self).mat_ptr,
    {
        self.front_face = dot(&r.direction(), outward_normal).lt(Scalar { bits: 0 });
        self.normal = if self.front_face {
            *outward_normal
        } else {
            outward_normal.neg()
        };
    }
}

/// A surface that rays can hit.
pub trait Hittable {
    /// The nearest hit of `r` on this object that the search accepts within
    /// the open parameter range from `t_min` to `t_max`, if there is one.
    spec fn spec_hit(&self, r: Ray, t_min: Scalar, t_max: Scalar) -> Option<HitRecord>;

    /// Intersects the ray with the object.
    fn hit(&self, r: &Ray, t_min: Scalar, t_max: Scalar) -> (res: Option<HitRecord>)
        ensures
            res == self.spec_hit(*r, t_min, t_max),
    ;

    /// A reported hit has its parameter strictly inside the range.
    proof fn lemma_hit_within(&self, r: Ray, t_min: Scalar, t_max: Scalar)
        ensures
            self.spec_hit(r, t_min, t_max) matches Some(rec) ==> t_min.spec_lt(rec.t)
                && rec.t.spec_lt(t_max),
    ;
}

} // verus!
