//! Rays and the stretch of a ray in which a hit counts.
use crate::scalar::Scalar;
use crate::vector::Vec3;
use vstd::prelude::*;

verus! {

/// A half-line: the points `origin + t * direction`.
#[derive(Clone, Copy, Debug, PartialEq, Eq, Structural)]
pub struct Ray {
    pub origin: Vec3,
    pub direction: Vec3,
}

/// The ray parameters from `start`, included, up to `end`, excluded.
#[derive(Clone, Copy, Debug, PartialEq, Eq, Structural)]
pub struct Range {
    pub start: Scalar,
    pub end: Scalar,
}

impl Range {
    /// `start <= t < end`; no range holds a NaN.
    pub open spec fn contains_spec(self, t: Scalar) -> bool {
        self.start.le_spec(t) && t.lt_spec(self.end)
    }

    /// Whether `t` lies in the range.
    pub fn contains(&self, t: Scalar) -> (r: bool)
        ensures
            r == self.contains_spec(t),
    {
        self.start.le(t) && t.lt(self.end)
    }
}

} // verus!
