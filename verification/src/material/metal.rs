use super::Scattered;
use crate::object::HitRecord;
use crate::ray::Ray;
use crate::rgb::Rgb;
use crate::scalar::Scalar;
use crate::vector::Vec3;
use vstd::prelude::*;

verus! {

/// A mirror, blurred by `fuzz`: 0 is a perfect mirror, 1 the roughest.
#[derive(Clone, Copy, Debug, PartialEq, Eq, Structural)]
pub struct Metal {
    pub albedo: Rgb,
    pub fuzz: Scalar,
}

impl Metal {
    /// Whether a reflected direction leaves the surface: its dot product with
    /// the normal, `facing`, is above zero, and it is a direction at all.
    pub open spec fn leaves(direction: Vec3, facing: Scalar) -> bool {
        !direction.degenerate() && facing.positive()
    }

    /// The reflected light, or `None` where the direction would enter the
    /// surface.
    pub open spec fn scatter_spec(self, hit_record: HitRecord, direction: Vec3, facing: Scalar)
        -> Option<Scattered> {
        if Self::leaves(direction, facing) {
            Some(
                Scattered {
                    attenuation: self.albedo,
                    ray: Ray { origin: hit_record.point, direction },
                },
            )
        } else {
            None
        }
    }

    /// Reflects along `direction`, the mirrored and fuzzed incoming direction,
    /// whose dot product with the hit normal is `facing`. Light that would go
    /// into the surface is absorbed.
    pub fn scatter(&self, hit_record: &HitRecord, direction: Vec3, facing: Scalar) -> (r: Option<
        Scattered,
    >)
        ensures
            r == self.scatter_spec(*hit_record, direction, facing),
            r is Some <==> !direction.degenerate() && facing.positive(),
    {
        let scattered = Ray { origin: hit_record.point, direction };
        if !direction.is_degenerate() && facing.is_positive() {
            Some(Scattered { attenuation: self.albedo, ray: scattered })
        } else {
            None
        }
    }
}

} // verus!
