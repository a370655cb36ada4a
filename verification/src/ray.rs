//! Rays: half-lines given by an origin and a direction.
use vstd::prelude::*;
use crate::scalar::Scalar;
use crate::vec3::{Point3, Vec3};

verus! {

/// The points `orig + t * dir`.
#[derive(Clone, Copy, Debug, PartialEq, Eq, Structural)]
pub struct Ray {
    pub orig: Point3,
    pub dir: Vec3,
}

impl Ray {
    /// The point of the ray at parameter `t`: `orig + t * dir`.
    pub open spec fn spec_at(self, t: Scalar) -> Point3 {
        self.orig.spec_add(self.dir.spec_scale(t))
    }

    /// The ray from the origin with the zero direction.
    pub fn new() -> (r: Ray)
        ensures
            r.orig == Vec3::zero(),
            r.dir == Vec3::zero(),
    {
        Ray { orig: Vec3::new(), dir: Vec3::new() }
    }

    /// Where the ray starts.
    pub fn origin(&self) -> (p: Point3)
        ensures
            p == self.orig,
    {
        self.orig
    }

    /// Where the ray points.
    pub fn direction(&self) -> (d: Vec3)
        ensures
            d == self.dir,
    {
        self.dir
    }

    /// The point of the ray at parameter `t`.
    pub fn at(&self, t: Scalar) -> (p: Point3)
        ensures
            p == self.spec_at(t),
    {
        self.orig.add(self.dir.scale(t))
    }
}

} // verus!
