use vstd::prelude::*;

use crate::color::{is_unit, Color};
use crate::tracer::Bounce;

verus! {

/// A diffuse surface: it scatters every ray that hits it, attenuated by its
/// albedo, the fraction of each channel that it keeps.
#[derive(Clone, Copy, Debug, PartialEq, Eq, Structural)]
pub struct Lambertian {
    pub albedo: Color,
}

impl Lambertian {
    /// What a diffuse surface does to a ray that hits it: it always scatters
    /// it, attenuated by the albedo.
    pub fn bounce(&self) -> (b: Bounce)
        ensures
            b == (Bounce::Scattered { attenuation: self.albedo }),
            is_unit(self.albedo) ==> crate::tracer::bounce_ok(b),
    {
        Bounce::Scattered { attenuation: self.albedo }
    }
}

} // verus!
