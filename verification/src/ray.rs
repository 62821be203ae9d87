//! Rays: an origin and a direction, with a point-at-parameter evaluator.

use vstd::prelude::*;
use crate::point3d::{Point3D, Vec3S, vadd, vscale, vadd_fits, vscale_fits};

verus! {

/// The mathematical value of a ray.
pub ghost struct RayS {
    pub orig: Vec3S,
    pub dir: Vec3S,
}

/// The point at parameter `t`: `origin + t * direction`.
pub open spec fn ray_at_spec(r: RayS, t: int) -> Vec3S {
    vadd(r.orig, vscale(r.dir, t))
}

/// A ray: origin and direction. The direction need not have unit length.
#[derive(Clone, Copy, Debug, PartialEq, Eq, Structural)]
pub struct Ray {
    pub orig: Point3D,
    pub dir: Point3D,
}

impl View for Ray {
    type V = RayS;

    open spec fn view(&self) -> RayS {
        RayS { orig: self.orig@, dir: self.dir@ }
    }
}

impl Ray {
    pub fn new(orig: Point3D, dir: Point3D) -> (r: Ray)
        ensures
            r@ == (RayS { orig: orig@, dir: dir@ }),
    {
        Ray { orig, dir }
    }

    pub fn origin(&self) -> (r: Point3D)
        ensures
            r@ == self@.orig,
    {
        self.orig
    }

    pub fn direction(&self) -> (r: Point3D)
        ensures
            r@ == self@.dir,
    {
        self.dir
    }

    /// The point the ray reaches at parameter `t`.
    pub fn at(&self, t: i64) -> (r: Point3D)
        requires
            vscale_fits(self@.dir, t as int),
            vadd_fits(self@.orig, vscale(self@.dir, t as int)),
        ensures
            r@ == ray_at_spec(self@, t as int),
    {
        self.orig.add(&self.dir.scale(t))
    }
}

} // verus!
