use super::Scattered;
use crate::object::HitRecord;
use crate::ray::Ray;
use crate::rgb::Rgb;
use crate::vector::Vec3;
use vstd::prelude::*;

verus! {

/// A matte surface: light leaves about the normal, tinted by the albedo.
#[derive(Clone, Copy, Debug, PartialEq, Eq, Structural)]
pub struct Lambertian {
    pub albedo: Rgb,
}

impl Lambertian {
    /// The scattered light for the direction `normal + random unit vector`:
    /// it starts at the hit point and keeps the albedo's share. The zero
    /// vector and a vector with a NaN in it are no direction and carry no
    /// light.
    pub open spec fn scatter_spec(self, hit_record: HitRecord, direction: Vec3) -> Option<
        Scattered,
    > {
        if direction.degenerate() {
            None
        } else {
            Some(
                Scattered {
                    attenuation: self.albedo,
                    ray: Ray { origin: hit_record.point, direction },
                },
            )
        }
    }

    /// Scatters along `direction`, the hit normal plus a random unit vector.
    pub fn scatter(&self, hit_record: &HitRecord, direction: Vec3) -> (r: Option<Scattered>)
        ensures
            r == self.scatter_spec(*hit_record, direction),
            r is Some <==> !direction.degenerate(),
    {
        if direction.is_degenerate() {
            None
        } else {
            let scattered = Ray { origin: hit_record.point, direction };
            Some(Scattered { attenuation: self.albedo, ray: scattered })
        }
    }
}

} // verus!
