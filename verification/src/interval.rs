//! Closed numeric ranges used to bound the intersection search.

use crate::fixed::{fx_max, Fx};
use vstd::prelude::*;

verus! {

/// A closed range `[min, max]` of scalars.
#[derive(Debug, Clone, Copy, PartialEq, Eq, Structural)]
pub struct Interval {
    pub min: Fx,
    pub max: Fx,
}

/// Whether `x` lies in the closed range, both ends included.
pub open spec fn scontains(i: Interval, x: int) -> bool {
    i.min@ <= x <= i.max@
}

/// Whether `x` lies strictly inside the range, both ends excluded.
pub open spec fn ssurrounds(i: Interval, x: int) -> bool {
    i.min@ < x < i.max@
}

/// `x` saturated into the range (meaningful when `min <= max`).
pub open spec fn sclamp(i: Interval, x: int) -> int {
    if x < i.min@ {
        i.min@
    } else if x > i.max@ {
        i.max@
    } else {
        x
    }
}

impl Interval {
    /// The range `[min, max]`.
    pub fn new(min: Fx, max: Fx) -> (r: Interval)
        ensures
            r.min == min,
            r.max == max,
    {
        Interval { min, max }
    }

    /// Whether `x` lies in the range, both ends included.
    pub fn contains(&self, x: Fx) -> (r: bool)
        ensures
            r == scontains(*self, x@),
    {
        self.min.raw <= x.raw && x.raw <= self.max.raw
    }

    /// Whether `x` lies strictly inside the range, both ends excluded.
    /// Intersection roots are screened with this test, so a root sitting
    /// exactly on a bound (such as the surface a ray just left) is
    /// rejected.
    pub fn surrounds(&self, x: Fx) -> (r: bool)
        ensures
            r == ssurrounds(*self, x@),
    {
        self.min.raw < x.raw && x.raw < self.max.raw
    }

    /// The range that contains nothing.
    pub fn empty() -> (r: Interval)
        ensures
            r.min@ == fx_max(),
            r.max@ == -fx_max(),
    {
        Interval { min: Fx::max_value(), max: Fx::min_value() }
    }

    /// The range that bounds nothing out: every representable value lies
    /// in it.
    pub fn universe() -> (r: Interval)
        ensures
            r.min@ == -fx_max(),
            r.max@ == fx_max(),
    {
        Interval { min: Fx::min_value(), max: Fx::max_value() }
    }

    /// `x` saturated into the range.  An inverted range cannot saturate
    /// anything and is excluded outright.
    pub fn clamp(&self, x: Fx) -> (r: Fx)
        requires
            self.min@ <= self.max@,
        ensures
            r@ == sclamp(*self, x@),
    {
        if x.raw < self.min.raw {
            self.min
        } else if x.raw > self.max.raw {
            self.max
        } else {
            x
        }
    }
}

impl Default for Interval {
    /// The unbounded range, as an intersection search starts from it.
    fn default() -> (r: Interval)
        ensures
            r.min@ == -fx_max(),
            r.max@ == fx_max(),
    {
        Interval { min: Fx::min_value(), max: Fx::max_value() }
    }
}

} // verus!
