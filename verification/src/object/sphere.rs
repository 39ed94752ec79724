use super::HitRecord;
use super::Intersection;
use crate::material::Material;
use crate::ray::Range;
use crate::scalar::Scalar;
use crate::vector::Vec3;
use vstd::prelude::*;

verus! {

/// A ball of one material.
#[derive(Clone, Copy, Debug, PartialEq, Eq, Structural)]
pub struct Sphere {
    pub center: Vec3,
    pub radius: Scalar,
    pub material: Material,
}

impl Sphere {
    /// A sphere has a radius above zero.
    pub open spec fn valid(self) -> bool {
        self.radius.positive()
    }

    /// The hit within a range: none unless the discriminant is above zero;
    /// else the nearer crossing if its parameter lies in the range; else the
    /// farther one if its parameter does; else none.
    pub open spec fn hit_spec(&self, found: Intersection, t_range: Range) -> Option<HitRecord<'_>> {
        if !found.discriminant.positive() {
            None
        } else if t_range.contains_spec(found.near.t) {
            Some(HitRecord::at(found.near, &self.material))
        } else if t_range.contains_spec(found.far.t) {
            Some(HitRecord::at(found.far, &self.material))
        } else {
            None
        }
    }

    /// The sphere with the given center, radius and material, or `None` for
    /// a radius that is not above zero.
    pub fn new(center: Vec3, radius: Scalar, material: Material) -> (r: Option<Sphere>)
        ensures
            r is Some <==> radius.positive(),
            r matches Some(sphere) ==> sphere == (Sphere { center, radius, material })
                && sphere.valid(),
    {
        if radius.is_positive() {
            Some(Sphere { center, radius, material })
        } else {
            None
        }
    }

    /// The nearest place within `t_range` where the ray meets the sphere,
    /// from the two roots that the arithmetic found. The smaller root is
    /// taken first, so that a ray that starts inside the sphere, with the
    /// smaller root behind it, still hits on its way out.
    pub fn hit(&self, found: &Intersection, t_range: Range) -> (r: Option<HitRecord<'_>>)
        ensures
            r == self.hit_spec(*found, t_range),
            !found.discriminant.positive() ==> r is None,
            r matches Some(record) ==> t_range.contains_spec(record.t) && record.material
                == &self.material && (record.t == found.near.t || record.t == found.far.t),
    {
        if found.discriminant.is_positive() {
            if t_range.contains(found.near.t) {
                return Some(
                    HitRecord::new(
                        found.near.facing,
                        found.near.point,
                        found.near.outward_normal,
                        found.near.t,
                        &self.material,
                    ),
                );
            }
            if t_range.contains(found.far.t) {
                return Some(
                    HitRecord::new(
                        found.far.facing,
                        found.far.point,
                        found.far.outward_normal,
                        found.far.t,
                        &self.material,
                    ),
                );
            }
        }
        None
    }
}

} // verus!
