use crate::rgb::Rgb;
use vstd::prelude::*;

verus! {

/// A surface that shines and sends no ray on.
#[derive(Clone, Copy, Debug, PartialEq, Eq, Structural)]
pub struct DiffuseLight {
    pub emission: Rgb,
}

} // verus!
