use super::Sample;
use super::Scattered;
use crate::object::HitRecord;
use crate::ray::Ray;
use crate::rgb::Rgb;
use crate::scalar::Scalar;
use crate::vector::Vec3;
use vstd::arithmetic::power2::pow2;
use vstd::prelude::*;

verus! {

/// A clear medium such as glass: light is reflected or bent, never tinted.
#[derive(Clone, Copy, Debug, PartialEq, Eq, Structural)]
pub struct Dielectric {
    pub refractive_idx: Scalar,
}

impl Dielectric {
    /// The ratio of the index on the side the ray comes from to the index on
    /// the side it goes to: the reciprocal of the medium's index for a ray
    /// that enters through the front face, the index itself for one that
    /// leaves.
    pub open spec fn ratio_spec(self, front_face: bool, reciprocal: Scalar) -> Scalar {
        if front_face {
            reciprocal
        } else {
            self.refractive_idx
        }
    }

    /// The cosine of the angle of incidence: the negated dot product of the
    /// unit incoming direction and the normal, capped at one.
    pub open spec fn cosine_spec(facing: Scalar) -> Scalar {
        facing.neg_spec().min_spec(Scalar::one_spec())
    }

    /// Whether the light is reflected: `sine`, the index ratio times the sine
    /// of the angle of incidence, is above one, so that no bent ray exists;
    /// or the draw fell under the reflectance.
    pub open spec fn reflects(sample: Sample) -> bool {
        Scalar::one_spec().lt_spec(sample.sine) || sample.draw.lt_spec(sample.reflectance)
    }

    /// The direction in which the light goes on.
    pub open spec fn direction_spec(sample: Sample) -> Vec3 {
        if Self::reflects(sample) {
            sample.reflected
        } else {
            sample.refracted
        }
    }

    /// The light that goes on, untinted, from the hit point; `None` where what
    /// was chosen is no direction: the zero vector, or one with a NaN in it.
    pub open spec fn scatter_spec(self, hit_record: HitRecord, sample: Sample) -> Option<
        Scattered,
    > {
        let direction = Self::direction_spec(sample);
        if direction.degenerate() {
            None
        } else {
            Some(
                Scattered {
                    attenuation: Rgb::white_spec(),
                    ray: Ray { origin: hit_record.point, direction },
                },
            )
        }
    }

    /// The index ratio for a hit, given the reciprocal of the medium's index.
    pub fn ratio(&self, hit_record: &HitRecord, reciprocal: Scalar) -> (r: Scalar)
        ensures
            r == self.ratio_spec(hit_record.front_face, reciprocal),
    {
        if hit_record.front_face {
            reciprocal
        } else {
            self.refractive_idx
        }
    }

    /// The cosine of the angle of incidence from `facing`, the dot product of
    /// the unit incoming direction and the hit normal.
    pub fn cosine(facing: Scalar) -> (r: Scalar)
        ensures
            r == Self::cosine_spec(facing),
            !facing.nan() ==> !r.nan() && r.value() <= pow2(149),
            !facing.nan() && -facing.value() <= pow2(149) ==> r.value() == -facing.value(),
    {
        let one = Scalar::one();
        facing.neg().min(one)
    }

    /// Reflects or refracts. Reflection is forced where `sample.sine` is above
    /// one, and otherwise chosen where `sample.draw` is below
    /// `sample.reflectance`. The light keeps all of its energy.
    pub fn scatter(&self, hit_record: &HitRecord, sample: &Sample) -> (r: Option<Scattered>)
        ensures
            r == self.scatter_spec(*hit_record, *sample),
            r is Some <==> !Self::direction_spec(*sample).degenerate(),
            r matches Some(scattered) ==> {
                &&& scattered.attenuation == Rgb::white_spec()
                &&& scattered.ray.origin == hit_record.point
                &&& Self::reflects(*sample) ==> scattered.ray.direction == sample.reflected
                &&& !Self::reflects(*sample) ==> scattered.ray.direction == sample.refracted
            },
    {
        let one = Scalar::one();
        let must_reflect = one.lt(sample.sine);
        let direction = if must_reflect || sample.draw.lt(sample.reflectance) {
            sample.reflected
        } else {
            sample.refracted
        };
        if direction.is_degenerate() {
            None
        } else {
            Some(
                Scattered {
                    attenuation: Rgb::white(),
                    ray: Ray { origin: hit_record.point, direction },
                },
            )
        }
    }
}

} // verus!
