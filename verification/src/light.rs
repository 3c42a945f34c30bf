//! Lights, and what they report of the light that reaches a surface point.

use vstd::prelude::*;
use crate::math::{Ray, Vec3};
use crate::scalar::Scalar;
use crate::shading::{Pdf, SampledRadiance};

verus! {

/// A sample of the light that arrives at a surface point, and the distance
/// to where it comes from.
#[derive(Clone, Copy, Debug, PartialEq, Eq, Structural)]
pub struct SampledLightRadiance {
    pub radiance: SampledRadiance,
    pub t: Scalar,
}

impl SampledLightRadiance {
    pub fn new(radiance: SampledRadiance, t: Scalar) -> (r: SampledLightRadiance)
        ensures
            r == (SampledLightRadiance { radiance, t }),
    {
        SampledLightRadiance { radiance, t }
    }
}

/// What a light emits along a ray that runs into it, and how far along the
/// ray it lies.
#[derive(Clone, Copy, Debug, PartialEq, Eq, Structural)]
pub struct EmittedRadiance {
    pub color: Vec3,
    pub t: Scalar,
}

impl EmittedRadiance {
    pub fn new(color: Vec3, t: Scalar) -> (r: EmittedRadiance)
        ensures
            r == (EmittedRadiance { color, t }),
    {
        EmittedRadiance { color, t }
    }
}

/// A light without extent.
#[derive(Clone, Copy, Debug, PartialEq, Eq, Structural)]
pub struct PointLight {
    pub point: Vec3,
    pub color: Vec3,
}

impl PointLight {
    pub fn new(point: Vec3, color: Vec3) -> (r: PointLight)
        ensures
            r == (PointLight { point, color }),
    {
        PointLight { point, color }
    }

    /// The light's one sample at a surface point: from the only direction
    /// in which the light lies, so its density is a delta. `local_dir` is
    /// that direction in the local frame, `t` the distance to the light, and
    /// `arriving` the light's colour weakened by the square of the distance.
    pub fn sample_incident_at(&self, local_dir: Vec3, arriving: Vec3, t: Scalar) -> (r: Option<
        SampledLightRadiance,
    >)
        ensures
            r == Some(
                SampledLightRadiance {
                    radiance: SampledRadiance { dir: local_dir, color: arriving, pdf: Pdf::Delta },
                    t,
                },
            ),
    {
        Some(SampledLightRadiance::new(SampledRadiance::new_delta(local_dir, arriving), t))
    }

    /// No direction is sampled towards a point light with a density.
    pub fn pdf(&self, local_dir: Vec3) -> (r: Scalar)
        ensures
            r == (Scalar { key: 0 }),
    {
        Scalar::zero()
    }

    /// No ray runs into a point.
    pub fn emitted(&self, ray: &Ray) -> (r: Option<EmittedRadiance>)
        ensures
            r is None,
    {
        None
    }
}

} // verus!
