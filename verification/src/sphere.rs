//! The sphere: the one shape of the tracer.
use vstd::prelude::*;
use crate::hittable::{spec_facing_normal, spec_front_face, HitRecord, Hittable};
use crate::material::Surface;
use crate::ray::Ray;
use crate::scalar::Scalar;
use crate::vec3::{dot, spec_dot, Point3};

verus! {

/// A sphere with a material. A negative radius turns the surface inside
/// out: the outward normal then points to the center.
#[derive(Clone, Copy, Debug, PartialEq, Eq, Structural)]
pub struct Sphere {
    pub center: Point3,
    pub radius: Scalar,
    pub mat_ptr: Surface,
}

/// Whether `t` lies strictly between `t_min` and `t_max`.
pub open spec fn spec_within(t: Scalar, t_min: Scalar, t_max: Scalar) -> bool {
    t.spec_lt(t_max) && t.spec_gt(t_min)
}

impl Sphere {
    /// Half the linear coefficient of the quadratic `|O + tD - C|^2 = r^2`:
    /// `(O - C) . D`.
    pub open spec fn spec_half_b(self, r: Ray) -> Scalar {
        spec_dot(r.orig.spec_sub(self.center), r.dir)
    }

    /// A quarter of the discriminant of the quadratic:
    /// `half_b^2 - |D|^2 * (|O - C|^2 - r^2)`.
    pub open spec fn spec_discriminant(self, r: Ray) -> Scalar {
        let oc = r.orig.spec_sub(self.center);
        let a = r.dir.spec_length_squared();
        let half_b = self.spec_half_b(r);
        let c = oc.spec_length_squared().spec_sub(self.radius.spec_mul(self.radius));
        half_b.spec_mul(half_b).spec_sub(a.spec_mul(c))
    }

    /// The root of the quadratic that is tried first:
    /// `(-half_b - sqrt(discriminant)) / |D|^2`.
    pub open spec fn spec_near_root(self, r: Ray) -> Scalar {
        self.spec_half_b(r).spec_neg().spec_sub(self.spec_discriminant(r).spec_sqrt()).spec_div(
            r.dir.spec_length_squared(),
        )
    }

    /// The root of the quadratic that is tried second:
    /// `(-half_b + sqrt(discriminant)) / |D|^2`.
    pub open spec fn spec_far_root(self, r: Ray) -> Scalar {
        self.spec_half_b(r).spec_neg().spec_add(self.spec_discriminant(r).spec_sqrt()).spec_div(
            r.dir.spec_length_squared(),
        )
    }

    /// The record of a hit at parameter `t`: the point of the ray there, the
    /// outward normal `(p - C) / r` turned against the ray, and the sphere's
    /// material.
    pub open spec fn spec_record(self, r: Ray, t: Scalar) -> HitRecord {
        let p = r.spec_at(t);
        let outward_normal = p.spec_sub(self.center).spec_div(self.radius);
        HitRecord {
            p,
            normal: spec_facing_normal(r.dir, outward_normal),
            mat_ptr: Some(self.mat_ptr),
            t,
            front_face: spec_front_face(r.dir, outward_normal),
        }
    }

    /// Whether the two roots come out in order on this ray: the second is
    /// not below the first. In exact arithmetic this always holds.
    pub open spec fn roots_ordered(self, r: Ray) -> bool {
        !self.spec_far_root(r).spec_lt(self.spec_near_root(r))
    }

    /// Builds the record of a hit at parameter `t`.
    fn record(&self, r: &Ray, t: Scalar) -> (rec: HitRecord)
        ensures
            rec == self.spec_record(*r, t),
    {
        let mut rec = HitRecord::new();
        rec.t = t;
        rec.p = r.at(rec.t);
        let outward_normal = rec.p.sub(self.center).div(self.radius);
        rec.set_face_normal(r, &outward_normal);
        rec.mat_ptr = Some(self.mat_ptr);
        rec
    }
}

impl Hittable for Sphere {
    /// No hit unless the discriminant is positive. Then the first of the
    /// near and the far root that lies strictly inside the range gives the
    /// hit; if neither does, there is none.
    open spec fn spec_hit(&self, r: Ray, t_min: Scalar, t_max: Scalar) -> Option<HitRecord> {
        if self.spec_discriminant(r).spec_gt(Scalar { bits: 0 }) {
            if spec_within(self.spec_near_root(r), t_min, t_max) {
                Some(self.spec_record(r, self.spec_near_root(r)))
            } else if spec_within(self.spec_far_root(r), t_min, t_max) {
                Some(self.spec_record(r, self.spec_far_root(r)))
            } else {
                None
            }
        } else {
            None
        }
    }

    fn hit(&self, r: &Ray, t_min: Scalar, t_max: Scalar) -> (res: Option<HitRecord>) {
        let oc = r.origin().sub(self.center);
        let a = r.direction().length_squared();
        let half_b = dot(&oc, &r.direction());
        let c = oc.length_squared().sub(self.radius.mul(self.radius));
        let discriminant = half_b.mul(half_b).sub(a.mul(c));

        if discriminant.gt(Scalar { bits: 0 }) {
            let root = discriminant.sqrt();
            let mut temp = half_b.neg().sub(root).div(a);
            if temp.lt(t_max) && temp.gt(t_min) {
                return Some(self.record(r, temp));
            }
            temp = half_b.neg().add(root).div(a);
            if temp.lt(t_max) && temp.gt(t_min) {
                return Some(self.record(r, temp));
            }
        }
        None
    }

    proof fn lemma_hit_within(&self, r: Ray, t_min: Scalar, t_max: Scalar) {
    }
}

/// A ray on which the discriminant is not positive misses the sphere,
/// whatever the range.
pub proof fn lemma_miss_without_roots(s: Sphere, r: Ray, t_min: Scalar, t_max: Scalar)
    requires
        !s.spec_discriminant(r).spec_gt(Scalar { bits: 0 }),
    ensures
        s.spec_hit(r, t_min, t_max) is None,
{
}

/// Cutting the range above a hit keeps the hit: if the sphere is hit at a
/// parameter below `t_cut`, and `t_cut` is at most `t_max`, the search up to
/// `t_cut` finds the same hit.
pub proof fn lemma_hit_survives_cut(s: Sphere, r: Ray, t_min: Scalar, t_max: Scalar, t_cut: Scalar)
    requires
        s.spec_hit(r, t_min, t_max) matches Some(rec) && rec.t.spec_lt(t_cut),
        t_cut.spec_le(t_max),
    ensures
        s.spec_hit(r, t_min, t_cut) == s.spec_hit(r, t_min, t_max),
{
}

/// Where the roots come out in order, cutting the range never brings up a
/// new hit: the search up to `t_cut` finds the hit of the search up to
/// `t_max` if that lies below `t_cut`, and nothing otherwise.
pub proof fn lemma_cut_finds_nothing_new(
    s: Sphere,
    r: Ray,
    t_min: Scalar,
    t_max: Scalar,
    t_cut: Scalar,
)
    requires
        s.roots_ordered(r),
        t_cut.spec_le(t_max),
    ensures
        s.spec_hit(r, t_min, t_cut) == (match s.spec_hit(r, t_min, t_max) {
            Some(rec) => if rec.t.spec_lt(t_cut) {
                Some(rec)
            } else {
                None
            },
            None => None,
        }),
{
}

} // verus!
