//! Hits of a ray on a surface: which parameter counts, and which face was
//! struck.

use vstd::prelude::*;
use crate::math::{OrthoNormalBasis, Ray, Vec3};
use crate::scalar::{Scalar, EPSILON_KEY};

verus! {

/// Where a ray meets a primitive: the ray parameter and the surface's
/// outward normal there.
#[derive(Clone, Copy, Debug, PartialEq, Eq, Structural)]
pub struct RawHitInfo {
    pub t: Scalar,
    pub outward_normal: Vec3,
}

/// The face of a surface that a ray strikes.
#[derive(Clone, Copy, Debug, PartialEq, Eq, Structural)]
pub enum HitSide {
    Inside,
    Outside,
}

/// A hit with what shading needs: the point, the frame whose third axis is
/// the normal on the side of the ray, and the face struck.
#[derive(Clone, Copy, Debug, PartialEq, Eq, Structural)]
pub struct HitInfo {
    pub point: Vec3,
    pub basis: OrthoNormalBasis,
    pub side: HitSide,
}

/// A parameter counts as a hit short of `t_max` if it is at least the
/// smallest parameter that counts and comes before `t_max`.
pub open spec fn in_reach(t: Scalar, t_max: Scalar) -> bool {
    (Scalar { key: EPSILON_KEY }).le_spec(t) && t.lt_spec(t_max)
}

impl HitSide {
    /// The face that a ray strikes, from the dot product of its direction
    /// with the outward normal: the inside where the two point the same way.
    pub open spec fn of_spec(facing: Scalar) -> HitSide {
        if (Scalar { key: 0 }).lt_spec(facing) {
            HitSide::Inside
        } else {
            HitSide::Outside
        }
    }

    /// The face that a ray strikes, from the dot product of its direction
    /// with the outward normal. A product that is a number gives the outside
    /// exactly if it is at most zero.
    pub fn of(facing: Scalar) -> (r: HitSide)
        ensures
            r == Self::of_spec(facing),
            !facing.nan() ==> (r == HitSide::Outside <==> facing.le_spec(Scalar { key: 0 })),
    {
        if Scalar::zero().lt(facing) {
            HitSide::Inside
        } else {
            HitSide::Outside
        }
    }
}

impl HitInfo {
    /// The normal on the side of the ray: the outward normal for a hit from
    /// outside, its opposite for a hit from inside.
    pub open spec fn normal_spec(side: HitSide, outward_normal: Vec3) -> Vec3 {
        match side {
            HitSide::Inside => outward_normal.neg_spec(),
            HitSide::Outside => outward_normal,
        }
    }

    /// The shading record of a raw hit. `point` is the ray at the hit's
    /// parameter, `facing` the dot product of the ray's direction with the
    /// outward normal, and `basis_from_w` builds a frame around a normal.
    pub fn from_raw<F: Fn(Vec3) -> OrthoNormalBasis>(
        point: Vec3,
        facing: Scalar,
        raw: &RawHitInfo,
        basis_from_w: F,
    ) -> (r: HitInfo)
        requires
            forall|w: Vec3| call_requires(basis_from_w, (w,)),
        ensures
            r.point == point,
            r.side == HitSide::of_spec(facing),
            !facing.nan() ==> (r.side == HitSide::Outside <==> facing.le_spec(Scalar { key: 0 })),
            call_ensures(basis_from_w, (Self::normal_spec(r.side, raw.outward_normal),), r.basis),
    {
        let side = HitSide::of(facing);
        let normal = match side {
            HitSide::Inside => raw.outward_normal.neg(),
            HitSide::Outside => raw.outward_normal,
        };
        let basis = basis_from_w(normal);
        HitInfo { point, basis, side }
    }

    /// The ray that leaves the hit point in the direction `world_dir`.
    pub fn spawn_ray(&self, world_dir: Vec3) -> (r: Ray)
        ensures
            r == (Ray { origin: self.point, dir: world_dir }),
    {
        Ray { origin: self.point, dir: world_dir }
    }
}

/// A sphere, by centre and radius.
#[derive(Clone, Copy, Debug, PartialEq, Eq, Structural)]
pub struct Sphere {
    pub center: Vec3,
    pub radius: Scalar,
}

impl Sphere {
    pub fn new(center: Vec3, radius: Scalar) -> (r: Sphere)
        ensures
            r == (Sphere { center, radius }),
    {
        Sphere { center, radius }
    }

    /// The parameter at which a ray is taken to hit the sphere: none where
    /// the discriminant is negative; else the nearer root if it is in reach,
    /// else the farther root if that is in reach.
    pub open spec fn hit_spec(
        discriminant: Scalar,
        near: Scalar,
        far: Scalar,
        t_max: Scalar,
    ) -> Option<Scalar> {
        if discriminant.lt_spec(Scalar { key: 0 }) {
            None
        } else if in_reach(near, t_max) {
            Some(near)
        } else if in_reach(far, t_max) {
            Some(far)
        } else {
            None
        }
    }

    /// The parameter at which a ray hits the sphere short of `t_max`, from
    /// the discriminant of the ray's quadratic and its two roots. Whatever
    /// is returned is one of the roots and in reach; a ray that meets the
    /// sphere from outside, its nearer root in reach, is given that root.
    pub fn hit(discriminant: Scalar, near: Scalar, far: Scalar, t_max: Scalar) -> (r: Option<
        Scalar,
    >)
        ensures
            r == Self::hit_spec(discriminant, near, far, t_max),
            r matches Some(t) ==> in_reach(t, t_max) && (t == near || t == far),
            !discriminant.lt_spec(Scalar { key: 0 }) && in_reach(near, t_max) ==> r == Some(near),
    {
        if discriminant.lt(Scalar::zero()) {
            return None;
        }
        let eps = Scalar::epsilon();
        if eps.le(near) && near.lt(t_max) {
            Some(near)
        } else if eps.le(far) && far.lt(t_max) {
            Some(far)
        } else {
            None
        }
    }
}

} // verus!
