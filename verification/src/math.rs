//! Vectors of scalars and axis-aligned boxes.
//!
//! What is exact on keys is done here: picking and negating components,
//! componentwise minimum and maximum, and everything about boxes that only
//! compares. Sums and products are the caller's.

use vstd::prelude::*;
use crate::scalar::Scalar;

verus! {

/// Key of the binary64 number nearest to 0.9999.
pub const NEARLY_ONE_KEY: i64 = 0x3FEF_FF2E_48E8_A71E;

/// One of the three coordinate axes.
#[derive(Clone, Copy, Debug, PartialEq, Eq, Structural)]
pub enum Axis {
    X,
    Y,
    Z,
}

/// The axis along which `extent` is greatest: the third where its third
/// component is above the greater of the first two, else the second where
/// the second component is above the first, else the first. Of several
/// greatest components the first counts.
pub open spec fn longest_axis_spec(extent: Vec3) -> Axis {
    let greater = if extent.x.lt_spec(extent.y) {
        extent.y
    } else {
        extent.x
    };
    if greater.lt_spec(extent.z) {
        Axis::Z
    } else if extent.x.lt_spec(extent.y) {
        Axis::Y
    } else {
        Axis::X
    }
}

/// The axis along which `extent` is greatest, the first of them where there
/// are several.
pub fn longest_axis(extent: Vec3) -> (r: Axis)
    ensures
        r == longest_axis_spec(extent),
{
    let second = extent.x.lt(extent.y);
    let greater = if second {
        extent.y
    } else {
        extent.x
    };
    if greater.lt(extent.z) {
        Axis::Z
    } else if second {
        Axis::Y
    } else {
        Axis::X
    }
}

/// Three scalars.
#[derive(Clone, Copy, Debug, PartialEq, Eq, Structural)]
pub struct Vec3 {
    pub x: Scalar,
    pub y: Scalar,
    pub z: Scalar,
}

impl Vec3 {
    /// The component along `axis`.
    pub open spec fn at(self, axis: Axis) -> Scalar {
        match axis {
            Axis::X => self.x,
            Axis::Y => self.y,
            Axis::Z => self.z,
        }
    }

    /// No component is not a number.
    pub open spec fn no_nan(self) -> bool {
        !self.x.nan() && !self.y.nan() && !self.z.nan()
    }

    /// Every component is a number other than an infinity.
    pub open spec fn finite(self) -> bool {
        self.x.finite() && self.y.finite() && self.z.finite()
    }

    /// Componentwise minimum.
    pub open spec fn inf_spec(self, other: Vec3) -> Vec3 {
        Vec3 {
            x: self.x.min_spec(other.x),
            y: self.y.min_spec(other.y),
            z: self.z.min_spec(other.z),
        }
    }

    /// Componentwise maximum.
    pub open spec fn sup_spec(self, other: Vec3) -> Vec3 {
        Vec3 {
            x: self.x.max_spec(other.x),
            y: self.y.max_spec(other.y),
            z: self.z.max_spec(other.z),
        }
    }

    /// The greatest component.
    pub open spec fn max_spec(self) -> Scalar {
        self.x.max_spec(self.y).max_spec(self.z)
    }

    /// The vector with every sign flipped.
    pub open spec fn neg_spec(self) -> Vec3 {
        Vec3 { x: self.x.neg_spec(), y: self.y.neg_spec(), z: self.z.neg_spec() }
    }

    pub fn new(x: Scalar, y: Scalar, z: Scalar) -> (r: Vec3)
        ensures
            r == (Vec3 { x, y, z }),
    {
        Vec3 { x, y, z }
    }

    /// The vector whose three components are `value`.
    pub fn from_element(value: Scalar) -> (r: Vec3)
        ensures
            r == (Vec3 { x: value, y: value, z: value }),
    {
        Vec3 { x: value, y: value, z: value }
    }

    /// The component along `axis`.
    pub fn get(&self, axis: Axis) -> (r: Scalar)
        ensures
            r == self.at(axis),
    {
        match axis {
            Axis::X => self.x,
            Axis::Y => self.y,
            Axis::Z => self.z,
        }
    }

    /// Whether every component is a number.
    pub fn all_numbers(&self) -> (r: bool)
        ensures
            r == self.no_nan(),
    {
        !self.x.is_nan() && !self.y.is_nan() && !self.z.is_nan()
    }

    /// Whether every component is a number other than an infinity.
    pub fn is_finite(&self) -> (r: bool)
        ensures
            r == self.finite(),
    {
        self.x.is_finite() && self.y.is_finite() && self.z.is_finite()
    }

    /// Componentwise minimum.
    pub fn inf(&self, other: &Vec3) -> (r: Vec3)
        ensures
            r == self.inf_spec(*other),
    {
        Vec3 { x: self.x.min(other.x), y: self.y.min(other.y), z: self.z.min(other.z) }
    }

    /// Componentwise maximum.
    pub fn sup(&self, other: &Vec3) -> (r: Vec3)
        ensures
            r == self.sup_spec(*other),
    {
        Vec3 { x: self.x.max(other.x), y: self.y.max(other.y), z: self.z.max(other.z) }
    }

    /// The greatest component.
    pub fn max(&self) -> (r: Scalar)
        ensures
            r == self.max_spec(),
    {
        self.x.max(self.y).max(self.z)
    }

    /// The vector with every sign flipped.
    pub fn neg(&self) -> (r: Vec3)
        ensures
            r == self.neg_spec(),
    {
        Vec3 { x: self.x.neg(), y: self.y.neg(), z: self.z.neg() }
    }
}

/// An axis-aligned box, by its two corners.
#[derive(Clone, Copy, Debug, PartialEq, Eq, Structural)]
pub struct Aabb {
    pub min_point: Vec3,
    pub max_point: Vec3,
}

impl Aabb {
    /// The box's invariant: both corners are numbers, and on every axis the
    /// minimum is not above the maximum. The two zeros are one number.
    pub open spec fn wf(self) -> bool {
        &&& self.min_point.no_nan()
        &&& self.max_point.no_nan()
        &&& self.min_point.x.rank() <= self.max_point.x.rank()
        &&& self.min_point.y.rank() <= self.max_point.y.rank()
        &&& self.min_point.z.rank() <= self.max_point.z.rank()
    }

    /// The point lies in the box, its faces included.
    pub open spec fn contains(self, p: Vec3) -> bool {
        &&& self.min_point.x.rank() <= p.x.rank() <= self.max_point.x.rank()
        &&& self.min_point.y.rank() <= p.y.rank() <= self.max_point.y.rank()
        &&& self.min_point.z.rank() <= p.z.rank() <= self.max_point.z.rank()
    }

    /// The other box lies in this one.
    pub open spec fn encloses(self, other: Aabb) -> bool {
        &&& self.contains(other.min_point)
        &&& self.contains(other.max_point)
    }

    /// The smallest box that holds both.
    pub open spec fn union_spec(self, other: Aabb) -> Aabb {
        Aabb {
            min_point: self.min_point.inf_spec(other.min_point),
            max_point: self.max_point.sup_spec(other.max_point),
        }
    }

    /// The smallest box that holds this one and the point.
    pub open spec fn extend_spec(self, point: Vec3) -> Aabb {
        Aabb {
            min_point: self.min_point.inf_spec(point),
            max_point: self.max_point.sup_spec(point),
        }
    }

    /// Whether the box keeps its invariant.
    pub fn is_wf(&self) -> (r: bool)
        ensures
            r == self.wf(),
    {
        self.min_point.all_numbers() && self.max_point.all_numbers()
            && self.min_point.x.signed_magnitude() <= self.max_point.x.signed_magnitude()
            && self.min_point.y.signed_magnitude() <= self.max_point.y.signed_magnitude()
            && self.min_point.z.signed_magnitude() <= self.max_point.z.signed_magnitude()
    }

    /// The box that holds one point.
    pub fn at_point(point: Vec3) -> (r: Aabb)
        ensures
            r == (Aabb { min_point: point, max_point: point }),
            point.no_nan() ==> r.wf() && r.contains(point),
    {
        Aabb { min_point: point, max_point: point }
    }

    /// The box spanned by two points, in whatever order they come.
    pub fn new(a: Vec3, b: Vec3) -> (r: Aabb)
        ensures
            r == (Aabb { min_point: a.inf_spec(b), max_point: a.sup_spec(b) }),
            a.no_nan() && b.no_nan() ==> r.wf() && r.contains(a) && r.contains(b),
    {
        Aabb { min_point: a.inf(&b), max_point: a.sup(&b) }
    }

    /// The smallest box that holds this one and the point.
    pub fn extend(&self, point: Vec3) -> (r: Aabb)
        ensures
            r == self.extend_spec(point),
            self.wf() && point.no_nan() ==> r.wf() && r.encloses(*self) && r.contains(point),
    {
        Aabb { min_point: self.min_point.inf(&point), max_point: self.max_point.sup(&point) }
    }

    /// The smallest box that holds both.
    pub fn union(&self, other: &Aabb) -> (r: Aabb)
        ensures
            r == self.union_spec(*other),
            self.wf() && other.wf() ==> r.wf() && r.encloses(*self) && r.encloses(*other),
    {
        Aabb {
            min_point: self.min_point.inf(&other.min_point),
            max_point: self.max_point.sup(&other.max_point),
        }
    }
}

/// The union of two boxes is the least box that encloses both: it encloses
/// each, any box that encloses both encloses it, and it does not depend on
/// the order of the two.
pub proof fn lemma_union_is_least(a: Aabb, b: Aabb, c: Aabb)
    requires
        a.wf(),
        b.wf(),
    ensures
        a.union_spec(b).wf(),
        a.union_spec(b).encloses(a),
        a.union_spec(b).encloses(b),
        c.encloses(a) && c.encloses(b) ==> c.encloses(a.union_spec(b)),
        a.union_spec(b) == b.union_spec(a),
{
}

/// What the slab test needs of one axis: the ray parameters at which the ray
/// crosses the box's lower and upper plane on that axis, and the inverse of
/// the ray direction's component on it.
#[derive(Clone, Copy, Debug, PartialEq, Eq, Structural)]
pub struct Slab {
    pub at_min: Scalar,
    pub at_max: Scalar,
    pub inv_dir: Scalar,
}

/// A stretch of ray parameters, from `.0` to `.1`.
pub type Span = (Scalar, Scalar);

impl Slab {
    /// Where the ray enters the slab: at the upper plane when it runs
    /// downwards (`inv_dir` is negative), else at the lower plane.
    pub open spec fn enter(self) -> Scalar {
        if self.inv_dir.lt_spec(Scalar { key: 0 }) {
            self.at_max
        } else {
            self.at_min
        }
    }

    /// Where the ray leaves the slab.
    pub open spec fn leave(self) -> Scalar {
        if self.inv_dir.lt_spec(Scalar { key: 0 }) {
            self.at_min
        } else {
            self.at_max
        }
    }

    /// The part of `span` that lies in the slab.
    pub open spec fn clip_spec(self, span: Span) -> Span {
        (span.0.max_spec(self.enter()), span.1.min_spec(self.leave()))
    }

    /// The part of `span` that lies in the slab.
    pub fn clip(&self, span: Span) -> (r: Span)
        ensures
            r == self.clip_spec(span),
    {
        if self.inv_dir.lt(Scalar::zero()) {
            (span.0.max(self.at_max), span.1.min(self.at_min))
        } else {
            (span.0.max(self.at_min), span.1.min(self.at_max))
        }
    }
}

/// The span holds no parameter: its end is not beyond its start.
pub open spec fn spent(span: Span) -> bool {
    span.1.le_spec(span.0)
}

impl Aabb {
    /// The slab test: the span from `t_min` to `t_max` is clipped by the
    /// three slabs in turn, and the ray passes the box if the span is never
    /// spent.
    pub open spec fn hit_spec(x: Slab, y: Slab, z: Slab, t_min: Scalar, t_max: Scalar) -> bool {
        let a = x.clip_spec((t_min, t_max));
        let b = y.clip_spec(a);
        let c = z.clip_spec(b);
        !spent(a) && !spent(b) && !spent(c)
    }

    /// Whether a ray passes the box between `t_min` and `t_max`, from the
    /// ray's crossings of the box's three pairs of planes.
    ///
    /// Where every value is a number, the ray passes exactly if the latest
    /// entry, `t_min` included, comes before the earliest exit, `t_max`
    /// included.
    pub fn hit(x: &Slab, y: &Slab, z: &Slab, t_min: Scalar, t_max: Scalar) -> (r: bool)
        ensures
            r == Self::hit_spec(*x, *y, *z, t_min, t_max),
            !t_min.nan() && !t_max.nan() && !x.enter().nan() && !x.leave().nan() && !y.enter().nan()
                && !y.leave().nan() && !z.enter().nan() && !z.leave().nan() ==> (r
                <==> t_min.max_spec(x.enter()).max_spec(y.enter()).max_spec(z.enter()).lt_spec(
                t_max.min_spec(x.leave()).min_spec(y.leave()).min_spec(z.leave()),
            )),
    {
        let a = x.clip((t_min, t_max));
        if a.1.le(a.0) {
            return false;
        }
        let b = y.clip(a);
        if b.1.le(b.0) {
            return false;
        }
        let c = z.clip(b);
        !c.1.le(c.0)
    }
}

/// A ray: where it starts, and the unit vector along which it runs.
#[derive(Clone, Copy, Debug, PartialEq, Eq, Structural)]
pub struct Ray {
    pub origin: Vec3,
    pub dir: Vec3,
}

/// Three unit vectors, each at right angles to the other two.
#[derive(Clone, Copy, Debug, PartialEq, Eq, Structural)]
pub struct OrthoNormalBasis {
    u: Vec3,
    v: Vec3,
    w: Vec3,
}

impl OrthoNormalBasis {
    /// The three axes of the basis.
    pub closed spec fn axes(self) -> (Vec3, Vec3, Vec3) {
        (self.u, self.v, self.w)
    }

    /// The basis with the given axes. That they are of unit length and at
    /// right angles is the caller's matter.
    pub fn from_axes(u: Vec3, v: Vec3, w: Vec3) -> (r: OrthoNormalBasis)
        ensures
            r.axes() == (u, v, w),
    {
        OrthoNormalBasis { u, v, w }
    }

    /// The axis that is crossed with `w` to start a basis around `w` alone,
    /// one that does not run along `w`: the second where `w` runs along the
    /// first, forwards or backwards (their dot product, `w_x`, is above
    /// 0.9999 or below -0.9999), else the first.
    pub open spec fn helper_axis_spec(w_x: Scalar) -> Axis {
        if (Scalar { key: NEARLY_ONE_KEY }).lt_spec(w_x) || w_x.lt_spec(
            (Scalar { key: NEARLY_ONE_KEY }).neg_spec(),
        ) {
            Axis::Y
        } else {
            Axis::X
        }
    }

    /// The axis that is crossed with `w` to start a basis around `w` alone,
    /// from the dot product of `w` with the first axis.
    pub fn helper_axis(w_x: Scalar) -> (r: Axis)
        ensures
            r == Self::helper_axis_spec(w_x),
    {
        let nearly_one = Scalar { key: NEARLY_ONE_KEY };
        if nearly_one.lt(w_x) || w_x.lt(nearly_one.neg()) {
            Axis::Y
        } else {
            Axis::X
        }
    }

    pub fn u(&self) -> (r: Vec3)
        ensures
            r == self.axes().0,
    {
        self.u
    }

    pub fn v(&self) -> (r: Vec3)
        ensures
            r == self.axes().1,
    {
        self.v
    }

    pub fn w(&self) -> (r: Vec3)
        ensures
            r == self.axes().2,
    {
        self.w
    }
}

} // verus!
