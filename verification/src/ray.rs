//! Rays: an origin with a direction, queried at parameter values.

use crate::fixed::Fx;
use crate::vec3::{vadd, vscale, Point3, Vec3};
use vstd::prelude::*;

verus! {

/// A parametric ray `orig + t * dir`.  The direction need not be
/// normalized.
#[derive(Debug, Clone, Copy, PartialEq, Eq, Structural)]
pub struct Ray {
    pub orig: Point3,
    pub dir: Vec3,
}

/// The point a ray reaches at parameter `t` (a raw fixed-point value).
pub open spec fn ray_at(r: Ray, t: int) -> Vec3 {
    vadd(r.orig, vscale(r.dir, t))
}

impl Ray {
    /// The point this ray reaches at parameter `t`.
    pub fn at(&self, t: Fx) -> (p: Vec3)
        ensures
            p == ray_at(*self, t@),
    {
        self.orig + self.dir * t
    }
}

} // verus!
