//! The scene: its primitives under a bounding-volume hierarchy, and its
//! lights. A scene is put together by a builder and does not change after.

use vstd::prelude::*;
use crate::bvh::{build, ceil_log2, hull, tag_all, valid_entries, BvhNode, Entry, Found};
use crate::geom::{HitInfo, RawHitInfo};
use crate::math::{Aabb, Axis, Vec3};
use crate::scalar::Scalar;
use crate::shading::ShadingInfo;

verus! {

/// A shape together with the material it is made of.
pub struct Primitive<G, M> {
    pub geom: G,
    pub material: M,
}

impl<G, M> Primitive<G, M> {
    pub fn new(geom: G, material: M) -> (r: Self)
        ensures
            r.geom == geom,
            r.material == material,
    {
        Primitive { geom, material }
    }
}

/// A hit on a primitive, with the primitive's material.
pub struct PrimitiveHit<'a, M> {
    pub geom_hit: HitInfo,
    pub material: &'a M,
}

impl<'a, M> PrimitiveHit<'a, M> {
    pub fn new(geom_hit: HitInfo, material: &'a M) -> (r: Self)
        ensures
            r.geom_hit == geom_hit,
            r.material == material,
    {
        PrimitiveHit { geom_hit, material }
    }

    /// What the material is told of the hit: the face struck, and the
    /// direction back along the ray. `incoming` is the ray's direction in
    /// the hit's local frame.
    pub fn shading_info(&self, incoming: Vec3) -> (r: ShadingInfo)
        ensures
            r == (ShadingInfo { side: self.geom_hit.side, outgoing: incoming.neg_spec() }),
    {
        ShadingInfo { side: self.geom_hit.side, outgoing: incoming.neg() }
    }
}

/// Gathers primitives and lights for a scene.
pub struct SceneBuilder<P, L> {
    primitives: Vec<P>,
    entries: Vec<Entry>,
    lights: Vec<L>,
}

impl<P, L> SceneBuilder<P, L> {
    /// The primitives gathered so far, in the order in which they came.
    pub closed spec fn primitives(self) -> Seq<P> {
        self.primitives@
    }

    /// The box and centroid of each primitive gathered so far.
    pub closed spec fn entries(self) -> Seq<Entry> {
        self.entries@
    }

    /// The lights gathered so far, in the order in which they came.
    pub closed spec fn lights(self) -> Seq<L> {
        self.lights@
    }

    /// The builder's invariant: it holds a well-formed box and a centroid
    /// made of numbers for each of its primitives.
    pub open spec fn wf(self) -> bool {
        self.primitives().len() == self.entries().len() && valid_entries(self.entries())
    }

    /// A builder that holds nothing yet.
    pub fn new() -> (r: Self)
        ensures
            r.wf(),
            r.primitives().len() == 0,
            r.entries().len() == 0,
            r.lights().len() == 0,
    {
        SceneBuilder { primitives: Vec::new(), entries: Vec::new(), lights: Vec::new() }
    }

    /// Adds a primitive, with its bounding box and the centroid of the box.
    pub fn add_primitive(&mut self, primitive: P, bounds: Aabb, centroid: Vec3)
        requires
            old(self).wf(),
            bounds.wf(),
            centroid.no_nan(),
        ensures
            final(self).wf(),
            final(self).primitives() == old(self).primitives().push(primitive),
            final(self).entries() == old(self).entries().push(Entry { bounds, centroid }),
            final(self).lights() == old(self).lights(),
    {
        self.primitives.push(primitive);
        self.entries.push(Entry { bounds, centroid });
    }

    /// Adds a light.
    pub fn add_light(&mut self, light: L)
        ensures
            old(self).wf() ==> final(self).wf(),
            final(self).primitives() == old(self).primitives(),
            final(self).entries() == old(self).entries(),
            final(self).lights() == old(self).lights().push(light),
    {
        self.lights.push(light);
    }

    /// The scene of all that was gathered, with the hierarchy built over
    /// the primitives by median splits along the longest axis of each
    /// box of centroids, whose extent `extent_of` gives.
    pub fn build<F: Fn(Aabb) -> Vec3>(self, extent_of: F) -> (r: Scene<P, L>)
        requires
            self.wf(),
            forall|b: Aabb| b.wf() ==> call_requires(extent_of, (b,)),
        ensures
            r.primitives() == self.primitives(),
            r.all_lights() == self.lights(),
            r.root() is None <==> self.primitives().len() == 0,
            r.root() matches Some(root) ==> {
                &&& root.median_split(self.entries(), extent_of)
                &&& root.prims().len() == self.primitives().len()
                &&& root.prims().no_duplicates()
                &&& forall|p: usize| root.prims().contains(p) <==> p < self.primitives().len()
                &&& root.depth() == ceil_log2(self.primitives().len()) + 1
                &&& root.bounds == hull(tag_all(self.entries()))
            },
    {
        let bvh = build(&self.entries, extent_of);
        Scene { primitives: self.primitives, bvh, lights: self.lights }
    }
}

/// Primitives under a hierarchy, and lights.
pub struct Scene<P, L> {
    primitives: Vec<P>,
    bvh: Option<Box<BvhNode>>,
    lights: Vec<L>,
}

impl<P, L> Scene<P, L> {
    /// The scene's primitives.
    pub closed spec fn primitives(self) -> Seq<P> {
        self.primitives@
    }

    /// The scene's lights.
    pub closed spec fn all_lights(self) -> Seq<L> {
        self.lights@
    }

    /// The root of the hierarchy, if the scene has any primitive.
    pub closed spec fn root(self) -> Option<BvhNode> {
        match self.bvh {
            Some(root) => Some(*root),
            None => None,
        }
    }

    #[verifier::type_invariant]
    spec fn inv(self) -> bool {
        match self.bvh {
            Some(root) => forall|p: usize|
                root.prims().contains(p) <==> p < self.primitives@.len(),
            None => self.primitives@.len() == 0,
        }
    }

    /// The nearest hit of a ray on the scene short of `t_max`: the position
    /// of the primitive among the scene's primitives, and where the ray
    /// meets it. `passes` tells whether the ray passes a box between two
    /// parameters, `meets` where it meets the primitive at a position short
    /// of a parameter.
    pub fn hit<B: Fn(Aabb, Scalar, Scalar) -> bool, H: Fn(usize, Scalar) -> Option<RawHitInfo>>(
        &self,
        t_max: Scalar,
        passes: &B,
        meets: &H,
    ) -> (found: Found)
        requires
            forall|b: Aabb, lo: Scalar, hi: Scalar| call_requires(*passes, (b, lo, hi)),
            forall|p: usize, t: Scalar| p < self.primitives().len() ==> call_requires(*meets, (p, t)),
        ensures
            match self.root() {
                Some(root) => root.search(t_max, *passes, *meets, found),
                None => found is None,
            },
            found matches Some((prim, _)) ==> prim < self.primitives().len(),
    {
        proof {
            use_type_invariant(self);
        }
        match &self.bvh {
            Some(root) => root.hit(t_max, passes, meets),
            None => None,
        }
    }

    /// The primitive at a position, if there is one.
    pub fn primitive(&self, index: usize) -> (r: Option<&P>)
        ensures
            r is Some <==> index < self.primitives().len(),
            r matches Some(p) ==> *p == self.primitives()[index as int],
    {
        if index < self.primitives.len() {
            Some(&self.primitives[index])
        } else {
            None
        }
    }

    /// The scene's lights.
    pub fn lights(&self) -> (r: &Vec<L>)
        ensures
            r@ == self.all_lights(),
    {
        &self.lights
    }
}

} // verus!
