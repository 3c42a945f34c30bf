//! Materials: what each is made of, which of them scatter into a single
//! direction only, and the choices that their sampling makes.

use vstd::prelude::*;
use crate::geom::HitSide;
use crate::math::Vec3;
use crate::scalar::{Scalar, ONE_KEY};
use crate::shading::ShadingInfo;

verus! {

/// The one direction into which a specular surface scatters, in the local
/// frame, and how much of the light it passes on.
#[derive(Clone, Copy, Debug, PartialEq, Eq, Structural)]
pub struct SpecularScatter {
    pub dir: Vec3,
    pub attenuation: Vec3,
}

impl SpecularScatter {
    pub fn new(dir: Vec3, attenuation: Vec3) -> (r: SpecularScatter)
        ensures
            r == (SpecularScatter { dir, attenuation }),
    {
        SpecularScatter { dir, attenuation }
    }
}

/// The mirror image of a direction of the local frame about the normal.
pub open spec fn reflect_z_spec(v: Vec3) -> Vec3 {
    Vec3 { x: v.x.neg_spec(), y: v.y.neg_spec(), z: v.z }
}

/// The mirror image of a direction of the local frame about the normal: the
/// first two components change sign, the third stays.
pub fn reflect_z(v: Vec3) -> (r: Vec3)
    ensures
        r == reflect_z_spec(v),
{
    Vec3 { x: v.x.neg(), y: v.y.neg(), z: v.z }
}

/// The vector of three zeros: what a surface that scatters into a single
/// direction reflects into any given other one.
pub open spec fn black() -> Vec3 {
    let zero = Scalar { key: 0 };
    Vec3 { x: zero, y: zero, z: zero }
}

/// A matte surface.
#[derive(Clone, Copy, Debug, PartialEq, Eq, Structural)]
pub struct Diffuse {
    pub albedo: Vec3,
}

impl Diffuse {
    pub fn new(albedo: Vec3) -> (r: Diffuse)
        ensures
            r == (Diffuse { albedo }),
    {
        Diffuse { albedo }
    }

    /// A matte surface scatters into every direction above it.
    pub fn is_always_specular(&self) -> (r: bool)
        ensures
            !r,
    {
        false
    }

    /// The density with which the matte surface samples `incoming`: the
    /// cosine-weighted density `cosine_density` where `incoming` lies on the
    /// side of the outgoing direction (`z_product`, the product of their
    /// third components, is above zero), else zero.
    pub fn pdf(&self, z_product: Scalar, cosine_density: Scalar) -> (r: Scalar)
        ensures
            r == if (Scalar { key: 0 }).lt_spec(z_product) {
                cosine_density
            } else {
                Scalar { key: 0 }
            },
    {
        if Scalar::zero().lt(z_product) {
            cosine_density
        } else {
            Scalar::zero()
        }
    }
}

/// A perfect mirror.
#[derive(Clone, Copy, Debug, PartialEq, Eq, Structural)]
pub struct Mirror {
    pub color: Vec3,
}

impl Mirror {
    pub fn new(color: Vec3) -> (r: Mirror)
        ensures
            r == (Mirror { color }),
    {
        Mirror { color }
    }

    /// A mirror always scatters: into the mirror image of the outgoing
    /// direction, tinted by its colour.
    pub fn sample_specular_scatter(&self, shading_info: &ShadingInfo) -> (r: Option<
        SpecularScatter,
    >)
        ensures
            r == Some(
                SpecularScatter {
                    dir: reflect_z_spec(shading_info.outgoing),
                    attenuation: self.color,
                },
            ),
    {
        Some(SpecularScatter::new(reflect_z(shading_info.outgoing), self.color))
    }

    /// Into any given direction a mirror reflects nothing.
    pub fn bsdf(&self, shading_info: &ShadingInfo, incoming: Vec3) -> (r: Vec3)
        ensures
            r == black(),
    {
        Vec3::from_element(Scalar::zero())
    }

    /// No given direction is sampled with a density.
    pub fn pdf(&self, shading_info: &ShadingInfo, incoming: Vec3) -> (r: Scalar)
        ensures
            r == (Scalar { key: 0 }),
    {
        Scalar::zero()
    }

    pub fn is_always_specular(&self) -> (r: bool)
        ensures
            r,
    {
        true
    }
}

/// Polished metal: a mirror whose reflection is blurred the more, the less
/// its gloss.
#[derive(Clone, Copy, Debug, PartialEq, Eq, Structural)]
pub struct Metal {
    pub albedo: Vec3,
    pub gloss: Scalar,
}

impl Metal {
    pub fn new(albedo: Vec3, gloss: Scalar) -> (r: Metal)
        ensures
            r == (Metal { albedo, gloss }),
    {
        Metal { albedo, gloss }
    }

    /// Where metal scatters a ray: `perturb` is given the mirror image of
    /// the outgoing direction and gives the blurred direction with what the
    /// metal passes on along it; nothing is scattered where that direction
    /// does not rise above the surface (its cosine is at most zero).
    pub fn sample_specular_scatter<P: FnOnce(Vec3) -> SpecularScatter>(
        &self,
        shading_info: &ShadingInfo,
        perturb: P,
    ) -> (r: Option<SpecularScatter>)
        requires
            forall|mirrored: Vec3| call_requires(perturb, (mirrored,)),
        ensures
            exists|scatter: SpecularScatter| #[trigger]
                call_ensures(perturb, (reflect_z_spec(shading_info.outgoing),), scatter) && r == if scatter.dir.z.le_spec(
                    Scalar { key: 0 },
                ) {
                    None
                } else {
                    Some(scatter)
                },
    {
        let scatter = perturb(reflect_z(shading_info.outgoing));
        if scatter.dir.z.le(Scalar::zero()) {
            None
        } else {
            Some(scatter)
        }
    }

    /// Into any given direction metal reflects nothing.
    pub fn bsdf(&self, shading_info: &ShadingInfo, incoming: Vec3) -> (r: Vec3)
        ensures
            r == black(),
    {
        Vec3::from_element(Scalar::zero())
    }

    /// No given direction is sampled with a density.
    pub fn pdf(&self, shading_info: &ShadingInfo, incoming: Vec3) -> (r: Scalar)
        ensures
            r == (Scalar { key: 0 }),
    {
        Scalar::zero()
    }

    pub fn is_always_specular(&self) -> (r: bool)
        ensures
            r,
    {
        true
    }
}

/// Glass, by its refractive index against the medium around it.
#[derive(Clone, Copy, Debug, PartialEq, Eq, Structural)]
pub struct Dielectric {
    pub refractive_index: Scalar,
}

impl Dielectric {
    pub fn new(refractive_index: Scalar) -> (r: Dielectric)
        ensures
            r == (Dielectric { refractive_index }),
    {
        Dielectric { refractive_index }
    }

    /// The ratio of the refractive index on the side of the ray to that on
    /// the far side: the index itself for a ray that leaves the glass, its
    /// inverse, as `reciprocal` computes it, for one that enters.
    pub fn refractive_ratio<F: Fn(Scalar) -> Scalar>(&self, side: HitSide, reciprocal: F) -> (r:
        Scalar)
        requires
            forall|index: Scalar| call_requires(reciprocal, (index,)),
        ensures
            match side {
                HitSide::Inside => r == self.refractive_index,
                HitSide::Outside => call_ensures(reciprocal, (self.refractive_index,), r),
            },
    {
        match side {
            HitSide::Inside => self.refractive_index,
            HitSide::Outside => reciprocal(self.refractive_index),
        }
    }

    /// Whether the ray is reflected: always where the refractive ratio times
    /// the sine of the angle of incidence, `ratio_sin_theta`, is above one;
    /// else where a number drawn by `draw` is below the surface's
    /// reflectance.
    pub fn reflects<D: FnOnce() -> Scalar>(
        ratio_sin_theta: Scalar,
        reflectance: Scalar,
        draw: D,
    ) -> (r: bool)
        requires
            call_requires(draw, ()),
        ensures
            (Scalar { key: ONE_KEY }).lt_spec(ratio_sin_theta) ==> r,
            !(Scalar { key: ONE_KEY }).lt_spec(ratio_sin_theta) ==> exists|u: Scalar| #[trigger]
                call_ensures(draw, (), u) && r == u.lt_spec(reflectance),
    {
        if Scalar::one().lt(ratio_sin_theta) {
            true
        } else {
            let u = draw();
            u.lt(reflectance)
        }
    }

    /// Where glass scatters a ray: into the mirror image of the outgoing
    /// direction, undimmed, if the ray is reflected; else into what
    /// `refract` gives.
    pub fn sample_specular_scatter<R: FnOnce() -> SpecularScatter>(
        shading_info: &ShadingInfo,
        reflected: bool,
        refract: R,
    ) -> (r: Option<SpecularScatter>)
        requires
            call_requires(refract, ()),
        ensures
            reflected ==> r == Some(
                SpecularScatter {
                    dir: reflect_z_spec(shading_info.outgoing),
                    attenuation: Vec3 {
                        x: Scalar { key: ONE_KEY },
                        y: Scalar { key: ONE_KEY },
                        z: Scalar { key: ONE_KEY },
                    },
                },
            ),
            !reflected ==> (r matches Some(scatter) && call_ensures(refract, (), scatter)),
    {
        if reflected {
            Some(
                SpecularScatter::new(
                    reflect_z(shading_info.outgoing),
                    Vec3::from_element(Scalar::one()),
                ),
            )
        } else {
            Some(refract())
        }
    }

    /// Into any given direction glass reflects nothing.
    pub fn bsdf(&self, shading_info: &ShadingInfo, incoming: Vec3) -> (r: Vec3)
        ensures
            r == black(),
    {
        Vec3::from_element(Scalar::zero())
    }

    /// No given direction is sampled with a density.
    pub fn pdf(&self, shading_info: &ShadingInfo, incoming: Vec3) -> (r: Scalar)
        ensures
            r == (Scalar { key: 0 }),
    {
        Scalar::zero()
    }

    pub fn is_always_specular(&self) -> (r: bool)
        ensures
            r,
    {
        true
    }
}

} // verus!
