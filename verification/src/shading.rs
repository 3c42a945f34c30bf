//! The local shading frame, in which the surface normal is the third axis,
//! and samples with their densities.

use vstd::prelude::*;
use crate::geom::HitSide;
use crate::math::Vec3;
use crate::scalar::{Scalar, ONE_KEY};

verus! {

/// The cosine of the angle between a unit direction of the local frame and
/// the normal: the direction's third component.
pub fn cos_theta(dir: Vec3) -> (r: Scalar)
    ensures
        r == dir.z,
{
    dir.z
}

/// Whether two directions of the local frame lie on the same side of the
/// surface, from the product of their third components: they do where the
/// product is above zero.
pub fn same_hemisphere(z_product: Scalar) -> (r: bool)
    ensures
        r == (Scalar { key: 0 }).lt_spec(z_product),
{
    Scalar::zero().lt(z_product)
}

/// What a material is told of a hit: the face struck, and the direction
/// back along the ray, in the local frame.
#[derive(Clone, Copy, Debug, PartialEq, Eq, Structural)]
pub struct ShadingInfo {
    pub side: HitSide,
    pub outgoing: Vec3,
}

impl ShadingInfo {
    /// The cosine of the angle between the outgoing direction and the
    /// normal.
    pub fn cos_theta(&self) -> (r: Scalar)
        ensures
            r == self.outgoing.z,
    {
        cos_theta(self.outgoing)
    }
}

/// The density with which a direction was sampled: a real density, or the
/// mark of a direction that was the only one possible.
#[derive(Clone, Copy, Debug, PartialEq, Eq, Structural)]
pub enum Pdf {
    Real(Scalar),
    Delta,
}

impl Pdf {
    /// The factor by which a sample of this density is weighted: the
    /// inverse of a real density, as `reciprocal` computes it, and one for a
    /// delta, which takes no part in arithmetic on densities.
    pub fn factor<F: Fn(Scalar) -> Scalar>(&self, reciprocal: F) -> (r: Scalar)
        requires
            forall|density: Scalar| call_requires(reciprocal, (density,)),
        ensures
            match *self {
                Pdf::Real(density) => call_ensures(reciprocal, (density,), r),
                Pdf::Delta => r == (Scalar { key: ONE_KEY }),
            },
    {
        match self {
            Pdf::Real(density) => reciprocal(*density),
            Pdf::Delta => Scalar::one(),
        }
    }
}

/// A sampled direction of the local frame, the value that travels along it,
/// and the density of the sample.
#[derive(Clone, Copy, Debug, PartialEq, Eq, Structural)]
pub struct SampledRadiance {
    pub dir: Vec3,
    pub color: Vec3,
    pub pdf: Pdf,
}

impl SampledRadiance {
    pub fn new_real(dir: Vec3, color: Vec3, pdf: Scalar) -> (r: SampledRadiance)
        ensures
            r == (SampledRadiance { dir, color, pdf: Pdf::Real(pdf) }),
    {
        SampledRadiance { dir, color, pdf: Pdf::Real(pdf) }
    }

    pub fn new_delta(dir: Vec3, color: Vec3) -> (r: SampledRadiance)
        ensures
            r == (SampledRadiance { dir, color, pdf: Pdf::Delta }),
    {
        SampledRadiance { dir, color, pdf: Pdf::Delta }
    }
}

} // verus!
