//! Three-component vectors of binary32 numbers.
use crate::scalar::Scalar;
use vstd::arithmetic::power2::pow2;
use vstd::prelude::*;

verus! {

/// A point or a direction in space.
#[derive(Clone, Copy, Debug, PartialEq, Eq, Structural)]
pub struct Vec3 {
    pub x: Scalar,
    pub y: Scalar,
    pub z: Scalar,
}

impl Vec3 {
    /// Whether some component is a NaN.
    pub open spec fn has_nan(self) -> bool {
        self.x.nan() || self.y.nan() || self.z.nan()
    }

    /// The zero vector: every component is zero, of either sign.
    pub open spec fn vanishes(self) -> bool {
        self.x.vanishes() && self.y.vanishes() && self.z.vanishes()
    }

    /// A vector that gives no direction: it has no length to divide by, or
    /// such a division has left a NaN in it.
    pub open spec fn degenerate(self) -> bool {
        self.has_nan() || self.vanishes()
    }

    /// The vector with every component's sign flipped.
    pub open spec fn neg_spec(self) -> Vec3 {
        Vec3 { x: self.x.neg_spec(), y: self.y.neg_spec(), z: self.z.neg_spec() }
    }

    /// The vector with the given components.
    pub fn new(x: Scalar, y: Scalar, z: Scalar) -> (r: Vec3)
        ensures
            r == (Vec3 { x, y, z }),
    {
        Vec3 { x, y, z }
    }

    /// The opposite vector. Flipping a sign rounds nothing, so this is exact.
    pub fn neg(self) -> (r: Vec3)
        ensures
            r == self.neg_spec(),
            r.has_nan() == self.has_nan(),
            r.degenerate() == self.degenerate(),
            r.x.value() == -self.x.value(),
            r.y.value() == -self.y.value(),
            r.z.value() == -self.z.value(),
    {
        Vec3 { x: self.x.neg(), y: self.y.neg(), z: self.z.neg() }
    }

    /// Whether the vector gives no direction: it is the zero vector, or some
    /// component is a NaN, as the quotient by a zero length is.
    pub fn is_degenerate(self) -> (r: bool)
        ensures
            r == self.degenerate(),
    {
        self.x.is_nan() || self.y.is_nan() || self.z.is_nan() || (self.x.is_zero()
            && self.y.is_zero() && self.z.is_zero())
    }
}

/// Whether a vector whose squared length is `length_squared` lies within the
/// unit ball, its surface left out. Random points of the ball and of the
/// unit disk are drawn from the cube around them until one passes this test.
pub fn in_unit_ball(length_squared: Scalar) -> (r: bool)
    ensures
        r == length_squared.lt_spec(Scalar::one_spec()),
        r <==> !length_squared.nan() && length_squared.value() < pow2(149),
{
    length_squared.lt(Scalar::one())
}

} // verus!
