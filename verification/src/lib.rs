//! The deciding core of a Monte-Carlo path tracer.
//!
//! A picture is rendered by following light paths backwards from the eye.
//! Following a path takes arithmetic on single-precision numbers, which
//! rounds, and decisions drawn from the results: which root of a quadratic
//! is the hit, which of the hits is nearest, which side of a surface a ray
//! met, whether light is absorbed, reflected or refracted, when a path is
//! over, which byte a pixel gets and where in the picture it goes.
//!
//! The decisions are made here. Numbers come in as their bit patterns
//! ([`scalar::Scalar`]) and are compared by the values that the patterns
//! denote; the arithmetic is the caller's. One step of a path runs like
//! this:
//!
//! 1. [`render::search_range`] says whether the path may go on, which it
//!    may not without a bounce left or along a ray without a direction, and
//!    where along the ray a hit counts.
//! 2. The caller intersects the ray with every object and hands the roots
//!    to [`object::hit_iter`], which picks the nearest hit.
//! 3. The caller computes the directions in which the material that was hit
//!    may send the light on, a [`material::Sample`].
//! 4. [`render::ray_color`] says how the path ends, or along which ray and
//!    with which attenuation it goes on.
//!
//! When all samples of all pixels are summed up, [`render::raster`] turns the
//! sums into display bytes and [`image::encode_image`] turns the bytes into
//! a PNG stream.
pub mod image;
pub mod material;
pub mod object;
pub mod ray;
pub mod render;
pub mod rgb;
pub mod scalar;
pub mod vector;
