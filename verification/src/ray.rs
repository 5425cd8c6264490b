//! Rays: an origin, a direction, and a time parameter for motion blur.

use crate::vec3::{add_v, scale_v, Point, Vec3, V3};
use vstd::prelude::*;

verus! {

/// The model of a ray.
pub ghost struct RayV {
    pub origin: V3,
    pub dir: V3,
    pub time: int,
}

pub open spec fn rayv(origin: V3, dir: V3, time: int) -> RayV {
    RayV { origin, dir, time }
}

/// The point a ray reaches at parameter `t`: `origin + t * dir`.
pub open spec fn ray_at(r: RayV, t: int) -> V3 {
    add_v(r.origin, scale_v(r.dir, t))
}

/// A ray, immutable once constructed.
#[derive(Clone, Copy, Debug, PartialEq, Eq, Structural)]
pub struct Ray {
    pub origin: Point,
    pub dir: Vec3,
    pub time: i64,
}

impl View for Ray {
    type V = RayV;

    open spec fn view(&self) -> RayV {
        rayv(self.origin@, self.dir@, self.time as int)
    }
}

impl Ray {
    /// A ray at time zero.
    pub fn new(origin: Point, dir: Vec3) -> (r: Ray)
        ensures
            r@ == rayv(origin@, dir@, 0),
    {
        Ray { origin, dir, time: 0 }
    }

    /// A ray carrying an explicit time parameter.
    pub fn at_time(origin: Point, dir: Vec3, time: i64) -> (r: Ray)
        ensures
            r@ == rayv(origin@, dir@, time as int),
    {
        Ray { origin, dir, time }
    }

    /// The point reached at parameter `t`.
    pub fn at(&self, t: i64) -> (p: Point)
        ensures
            p@ == ray_at(self@, t as int),
    {
        self.origin.vadd(&self.dir.scale(t))
    }
}

} // verus!
