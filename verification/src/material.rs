//! What a surface does with the light that reaches it.
use crate::object::HitRecord;
use crate::ray::Ray;
use crate::rgb::Rgb;
use crate::scalar::lemma_one;
use crate::scalar::Scalar;
use crate::vector::Vec3;
use vstd::prelude::*;

mod dielectric;
mod diffuse_light;
mod lambertian;
mod metal;

pub use dielectric::Dielectric;
pub use diffuse_light::DiffuseLight;
pub use lambertian::Lambertian;
pub use metal::Metal;

verus! {

/// The optical behaviour of a surface.
#[derive(Clone, Copy, Debug, PartialEq, Eq, Structural)]
pub enum Material {
    Lambertian(Lambertian),
    Metal(Metal),
    Dielectric(Dielectric),
    DiffuseLight(DiffuseLight),
}

/// Light that goes on: the ray it follows and what each channel keeps.
#[derive(Clone, Copy, Debug, PartialEq, Eq, Structural)]
pub struct Scattered {
    pub attenuation: Rgb,
    pub ray: Ray,
}

/// What became of a ray at a surface. `Scattered(None)` is absorption.
#[derive(Clone, Copy, Debug, PartialEq, Eq, Structural)]
pub enum HandleResult {
    Scattered(Option<Scattered>),
    Emitted { color: Rgb },
}

/// The numbers that the arithmetic of one bounce produced for a hit. Each
/// material reads the fields that concern it and no others.
#[derive(Clone, Copy, Debug, PartialEq, Eq, Structural)]
pub struct Sample {
    /// The hit normal plus a random unit vector.
    pub diffuse: Vec3,
    /// The unit incoming direction mirrored about the normal; for a metal,
    /// moved by its fuzz times a random point of the unit ball.
    pub reflected: Vec3,
    /// The dot product of `reflected` and the hit normal.
    pub facing: Scalar,
    /// The unit incoming direction bent into the other medium.
    pub refracted: Vec3,
    /// The index ratio times the sine of the angle of incidence.
    pub sine: Scalar,
    /// The share of light that a dielectric reflects at this angle.
    pub reflectance: Scalar,
    /// A uniform draw from zero, included, to one, excluded.
    pub draw: Scalar,
}

impl Material {
    /// What the material answers to a hit, given the bounce's numbers.
    pub open spec fn handle_ray_spec(self, hit_record: HitRecord, sample: Sample) -> HandleResult {
        match self {
            Material::Lambertian(lambertian) => HandleResult::Scattered(
                lambertian.scatter_spec(hit_record, sample.diffuse),
            ),
            Material::Metal(metal) => HandleResult::Scattered(
                metal.scatter_spec(hit_record, sample.reflected, sample.facing),
            ),
            Material::Dielectric(dielectric) => HandleResult::Scattered(
                dielectric.scatter_spec(hit_record, sample),
            ),
            Material::DiffuseLight(diffuse_light) => HandleResult::Emitted {
                color: diffuse_light.emission,
            },
        }
    }

    /// A material as it is meant: an albedo keeps a share of the light in
    /// each channel, a fuzz lies between zero and one, an index of
    /// refraction is above zero, and an emission is a colour of light.
    pub open spec fn valid(self) -> bool {
        match self {
            Material::Lambertian(lambertian) => lambertian.albedo.shares(),
            Material::Metal(metal) => metal.albedo.shares() && metal.fuzz.share(),
            Material::Dielectric(dielectric) => dielectric.refractive_idx.positive(),
            Material::DiffuseLight(diffuse_light) => diffuse_light.emission.light(),
        }
    }

    /// What each channel keeps of light that the material scatters: the
    /// albedo of a matte surface or a metal, all of it for a dielectric.
    /// A light scatters nothing.
    pub open spec fn attenuation_spec(self) -> Rgb {
        match self {
            Material::Lambertian(lambertian) => lambertian.albedo,
            Material::Metal(metal) => metal.albedo,
            Material::Dielectric(_) => Rgb::white_spec(),
            Material::DiffuseLight(_) => Rgb::black_spec(),
        }
    }

    /// The light that the material gives off, if it is a source.
    pub open spec fn emit_spec(self) -> Option<Rgb> {
        match self {
            Material::DiffuseLight(diffuse_light) => Some(diffuse_light.emission),
            _ => None,
        }
    }

    /// Answers a ray that hit a surface of this material. A source emits and
    /// never scatters; the others scatter or absorb as their own rules say.
    /// Light is never sent on along the zero vector or a vector with a NaN
    /// in it: it is absorbed instead.
    pub fn handle_ray(&self, hit_record: &HitRecord, sample: &Sample) -> (r: HandleResult)
        ensures
            r == self.handle_ray_spec(*hit_record, *sample),
            r is Emitted <==> *self is DiffuseLight,
            r matches HandleResult::Scattered(Some(scattered)) ==> {
                &&& scattered.attenuation == self.attenuation_spec()
                &&& scattered.ray.origin == hit_record.point
                &&& !scattered.ray.direction.degenerate()
            },
    {
        match self {
            Material::Lambertian(lambertian) => HandleResult::Scattered(
                lambertian.scatter(hit_record, sample.diffuse),
            ),
            Material::Metal(metal) => HandleResult::Scattered(
                metal.scatter(hit_record, sample.reflected, sample.facing),
            ),
            Material::Dielectric(dielectric) => HandleResult::Scattered(
                dielectric.scatter(hit_record, sample),
            ),
            Material::DiffuseLight(diffuse_light) => HandleResult::Emitted {
                color: diffuse_light.emission,
            },
        }
    }

    /// The light that the material gives off: `Some` for a source alone.
    pub fn emit(&self) -> (r: Option<Rgb>)
        ensures
            r == self.emit_spec(),
            r is Some <==> *self is DiffuseLight,
    {
        match self {
            Material::DiffuseLight(diffuse_light) => Some(diffuse_light.emission),
            _ => None,
        }
    }
}

/// No material adds light to what it scatters: each channel keeps a share,
/// from nothing to all of it.
pub proof fn lemma_attenuation_is_a_share(material: Material)
    requires
        material.valid(),
    ensures
        material.attenuation_spec().shares(),
{
    lemma_one(Scalar::one_spec());
}

} // verus!
