//! Rays: an origin and a unit direction.

use vstd::prelude::*;
use crate::fx::{SCALE, lemma_fx_mul_bound};
use crate::vec3::{Vec3, Point3, v3, in_range, dir_ok, unit_or_default, unit_or_default_spec,
    add_spec, scale_spec, PMAX};

verus! {

/// Largest ray parameter magnitude the evaluator accepts.
pub const TMAX: i64 = 0x4000000000;

pub struct Ray3 {
    pub origin: Point3,
    pub direction: Vec3,
}

/// A well-formed ray: the origin is a world coordinate and the direction is
/// normalized into the unit window.
pub open spec fn wf_ray(r: Ray3) -> bool {
    &&& in_range(r.origin, PMAX as int)
    &&& dir_ok(r.direction)
}

/// The point the ray reaches at parameter `t`.
pub open spec fn at_spec(r: Ray3, t: int) -> Point3 {
    add_spec(r.origin, scale_spec(r.direction, t))
}

impl Ray3 {
    /// A ray from `origin` toward `direction`; the direction is normalized
    /// at construction, with the degenerate-input fallback of
    /// `unit_or_default`.
    pub fn new(origin: Point3, direction: Vec3) -> (r: Self)
        requires
            in_range(origin, PMAX as int),
        ensures
            r.origin == origin,
            r.direction == unit_or_default_spec(direction),
            wf_ray(r),
    {
        Self { origin, direction: unit_or_default(&direction) }
    }

    /// The placeholder ray: zero origin, the fallback direction.
    pub fn empty_new() -> (r: Self)
        ensures
            r.origin == v3(0, 0, 0),
            r.direction == v3(0, 0, SCALE as int),
            wf_ray(r),
    {
        Self::new(Vec3::new(0, 0, 0), Vec3::new(0, 0, 0))
    }

    pub fn at(&self, t: i64) -> (r: Point3)
        requires
            wf_ray(*self),
            -TMAX <= t <= TMAX,
        ensures
            r == at_spec(*self, t as int),
            in_range(r, 0x8040000000),
    {
        proof {
            lemma_fx_mul_bound(t as int, self.direction.x as int, 0x4000000000, 131072);
            lemma_fx_mul_bound(t as int, self.direction.y as int, 0x4000000000, 131072);
            lemma_fx_mul_bound(t as int, self.direction.z as int, 0x4000000000, 131072);
        }
        let step = self.direction.scale(t);
        self.origin.add(&step)
    }

    pub fn origin(&self) -> (r: Point3)
        ensures
            r == self.origin,
    {
        self.origin
    }

    pub fn direction(&self) -> (r: Vec3)
        ensures
            r == self.direction,
    {
        self.direction
    }
}

} // verus!
