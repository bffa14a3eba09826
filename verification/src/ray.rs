//! Rays: an origin with a direction.
//!
//! The direction is not required to be unit length; intersection
//! formulas divide by its squared length, so callers scale consistently.
use crate::fixed::Fixed;
use crate::vec::{v3_add, v3_muls, Point, Vec3, V3};
use vstd::prelude::*;

verus! {

/// The mathematical content of a [`Ray`].
pub ghost struct RayV {
    pub origin: V3,
    pub direction: V3,
}

/// A half-line swept by `origin + direction * t`.
#[derive(Clone, Copy, Debug)]
pub struct Ray {
    origin: Point,
    direction: Vec3,
}

impl View for Ray {
    type V = RayV;

    closed spec fn view(&self) -> RayV {
        RayV { origin: self.origin@, direction: self.direction@ }
    }
}

/// The point the ray reaches at parameter `t`.
pub open spec fn ray_at(r: RayV, t: int) -> V3 {
    v3_add(v3_muls(r.direction, t), r.origin)
}

impl Ray {
    /// A ray from its origin and direction.
    pub fn new(origin: Point, direction: Vec3) -> (r: Ray)
        ensures
            r@ == (RayV { origin: origin@, direction: direction@ }),
    {
        Ray { origin, direction }
    }

    /// Where the ray starts.
    pub fn origin(&self) -> (r: &Point)
        ensures
            r@ == self@.origin,
    {
        &self.origin
    }

    /// Where the ray points.
    pub fn direction(&self) -> (r: &Vec3)
        ensures
            r@ == self@.direction,
    {
        &self.direction
    }

    /// The point at parameter `t`.  Any `t` is legal; range filtering is
    /// the intersection routines' business.
    pub fn at(&self, t: Fixed) -> (r: Point)
        ensures
            r@ == ray_at(self@, t@),
    {
        self.direction.mul(t).add(self.origin)
    }
}

} // verus!
