//! The bounding-volume hierarchy: a binary tree of boxes over the scene's
//! primitives, built by median splits, and searched for the nearest hit.
//!
//! The tree knows a primitive by its position in the list it was built from.
//! Whatever needs arithmetic on coordinates is asked of the caller: how far
//! a box of centroids extends, whether a ray passes a box, where a ray meets
//! a primitive.

use vstd::prelude::*;
use vstd::seq_lib::*;
use vstd::set_lib::lemma_len_subset;
use crate::geom::{RawHitInfo, in_reach};
use crate::math::{longest_axis, longest_axis_spec, Aabb, Axis, Vec3};
use crate::scalar::{Scalar, lemma_min_max_lattice, EPSILON_KEY};

verus! {

/// What the builder is told of one primitive: its bounding box and the
/// centroid of that box.
#[derive(Clone, Copy, Debug, PartialEq, Eq, Structural)]
pub struct Entry {
    pub bounds: Aabb,
    pub centroid: Vec3,
}

/// A primitive's entry together with its position in the builder's input.
#[derive(Clone, Copy, Debug, PartialEq, Eq, Structural)]
pub struct TaggedPrimitive {
    pub prim: usize,
    pub bounds: Aabb,
    pub centroid: Vec3,
}

/// A leaf with one primitive, or an interior node with two children.
pub enum BvhNodeData {
    Leaf { prim: usize },
    Interior { left: Box<BvhNode>, right: Box<BvhNode> },
}

/// A node of the hierarchy, with the box of all that lies below it.
pub struct BvhNode {
    pub bounds: Aabb,
    pub data: BvhNodeData,
}

/// The entry at position `prim`, tagged with that position.
pub open spec fn tag(entries: Seq<Entry>, prim: usize) -> TaggedPrimitive {
    TaggedPrimitive {
        prim,
        bounds: entries[prim as int].bounds,
        centroid: entries[prim as int].centroid,
    }
}

/// All entries, each tagged with its position.
pub open spec fn tag_all(entries: Seq<Entry>) -> Seq<TaggedPrimitive> {
    Seq::new(entries.len(), |i: int| tag(entries, i as usize))
}

/// Every entry has a well-formed box and a centroid made of numbers.
pub open spec fn valid_entries(entries: Seq<Entry>) -> bool {
    forall|i: int|
        0 <= i < entries.len() ==> (#[trigger] entries[i]).bounds.wf() && entries[i].centroid.no_nan()
}

/// The box that unions leave unchanged: no corner of it is a number.
pub open spec fn no_box() -> Aabb {
    let none = Scalar { key: 0x7FF8_0000_0000_0000 };
    let corner = Vec3 { x: none, y: none, z: none };
    Aabb { min_point: corner, max_point: corner }
}

/// The union of the boxes of `items`.
pub open spec fn hull(items: Seq<TaggedPrimitive>) -> Aabb {
    items.fold_left(no_box(), |b: Aabb, t: TaggedPrimitive| b.union_spec(t.bounds))
}

/// The smallest box that holds the centroids of `items`.
pub open spec fn centroid_hull(items: Seq<TaggedPrimitive>) -> Aabb {
    items.fold_left(no_box(), |b: Aabb, t: TaggedPrimitive| b.extend_spec(t.centroid))
}

/// Where `a` stands relative to `b` when primitives are split along `axis`:
/// by centroid, and between equal centroids by position in the input.
pub open spec fn split_before(a: TaggedPrimitive, b: TaggedPrimitive, axis: Axis) -> bool {
    let ka = a.centroid.at(axis).rank();
    let kb = b.centroid.at(axis).rank();
    ka < kb || (ka == kb && a.prim < b.prim)
}

/// `a` is `b` or stands before it.
pub open spec fn split_not_after(a: TaggedPrimitive, b: TaggedPrimitive, axis: Axis) -> bool {
    let ka = a.centroid.at(axis).rank();
    let kb = b.centroid.at(axis).rank();
    ka < kb || (ka == kb && a.prim <= b.prim)
}

/// The number of halvings that bring `n` down to one: the least `k` with
/// `n <= 2^k`.
pub open spec fn ceil_log2(n: nat) -> nat
    decreases n,
{
    if n <= 1 {
        0
    } else {
        1 + ceil_log2((n + 1) / 2)
    }
}

impl BvhNode {
    /// The primitives below the node, from left to right.
    pub open spec fn prims(self) -> Seq<usize>
        decreases self,
    {
        match self.data {
            BvhNodeData::Leaf { prim } => seq![prim],
            BvhNodeData::Interior { left, right } => left.prims() + right.prims(),
        }
    }

    /// The tagged entries of the primitives below the node, from left to
    /// right.
    pub open spec fn leaves(self, entries: Seq<Entry>) -> Seq<TaggedPrimitive>
        decreases self,
    {
        match self.data {
            BvhNodeData::Leaf { prim } => seq![tag(entries, prim)],
            BvhNodeData::Interior { left, right } => left.leaves(entries) + right.leaves(entries),
        }
    }

    /// The number of nodes on the longest way from the node down to a leaf.
    pub open spec fn depth(self) -> nat
        decreases self,
    {
        match self.data {
            BvhNodeData::Leaf { .. } => 1,
            BvhNodeData::Interior { left, right } => 1 + if left.depth() >= right.depth() {
                left.depth()
            } else {
                right.depth()
            },
        }
    }

    /// The node and all below it are what median splitting makes of their
    /// primitives: a leaf carries its primitive's box; an interior node
    /// carries the union of the boxes below it, has the lower half of its
    /// primitives (rounded down) on the left, and parts them along the
    /// longest axis of the box of their centroids, whose extent `extent_of`
    /// gave, so that every primitive on the left stands before every one on
    /// the right.
    pub open spec fn median_split<F: Fn(Aabb) -> Vec3>(
        self,
        entries: Seq<Entry>,
        extent_of: F,
    ) -> bool
        decreases self,
    {
        match self.data {
            BvhNodeData::Leaf { prim } => {
                &&& prim < entries.len()
                &&& self.bounds == entries[prim as int].bounds
            },
            BvhNodeData::Interior { left, right } => {
                &&& left.median_split(entries, extent_of)
                &&& right.median_split(entries, extent_of)
                &&& self.bounds == hull(self.leaves(entries))
                &&& left.prims().len() == self.prims().len() / 2
                &&& exists|extent: Vec3|
                    {
                        &&& call_ensures(
                            extent_of,
                            (centroid_hull(self.leaves(entries)),),
                            extent,
                        )
                        &&& forall|i: int, j: int|
                            0 <= i < left.leaves(entries).len() && 0 <= j < right.leaves(
                                entries,
                            ).len() ==> split_before(
                                #[trigger] left.leaves(entries)[i],
                                #[trigger] right.leaves(entries)[j],
                                longest_axis_spec(extent),
                            )
                    }
            },
        }
    }
}

/// The key by which primitives are ordered along `axis`.
fn split_key(item: &TaggedPrimitive, axis: Axis) -> (k: (i64, usize))
    ensures
        k.0 == item.centroid.at(axis).rank(),
        k.1 == item.prim,
{
    (item.centroid.get(axis).signed_magnitude(), item.prim)
}

/// `slice::select_nth_unstable_by_key` of std, with [`split_key`] as the key:
/// it reorders the items so that the one at `mid` is where sorting by key
/// would put it, none before it has a greater key, and none after it a
/// smaller one. Pairs are ordered as std orders tuples: by the first
/// component, then by the second.
#[verifier::external_body]
fn select_median(items: &mut Vec<TaggedPrimitive>, mid: usize, axis: Axis)
    requires
        mid < old(items).len(),
    ensures
        final(items)@.to_multiset() == old(items)@.to_multiset(),
        final(items).len() == old(items).len(),
        forall|i: int|
            0 <= i < mid ==> split_not_after(
                #[trigger] final(items)@[i],
                final(items)@[mid as int],
                axis,
            ),
        forall|i: int|
            mid < i < final(items).len() ==> split_not_after(
                final(items)@[mid as int],
                #[trigger] final(items)@[i],
                axis,
            ),
{
    items.select_nth_unstable_by_key(mid, |item| split_key(item, axis));
}

/// Unions may be folded in any order.
proof fn lemma_hull_fold_commutes()
    ensures
        commutative_foldl(|b: Aabb, t: TaggedPrimitive| b.union_spec(t.bounds)),
        commutative_foldl(|b: Aabb, t: TaggedPrimitive| b.extend_spec(t.centroid)),
{
    let f = |b: Aabb, t: TaggedPrimitive| b.union_spec(t.bounds);
    assert forall|x: TaggedPrimitive, y: TaggedPrimitive, v: Aabb| #[trigger]
        f(f(v, x), y) == f(f(v, y), x) by {
        lemma_box_fold(v, x.bounds.min_point, x.bounds.max_point, y.bounds.min_point, y.bounds.max_point);
    }
    let g = |b: Aabb, t: TaggedPrimitive| b.extend_spec(t.centroid);
    assert forall|x: TaggedPrimitive, y: TaggedPrimitive, v: Aabb| #[trigger]
        g(g(v, x), y) == g(g(v, y), x) by {
        lemma_box_fold(v, x.centroid, x.centroid, y.centroid, y.centroid);
    }
}

proof fn lemma_box_fold(v: Aabb, xlo: Vec3, xhi: Vec3, ylo: Vec3, yhi: Vec3)
    ensures
        v.min_point.inf_spec(xlo).inf_spec(ylo) == v.min_point.inf_spec(ylo).inf_spec(xlo),
        v.max_point.sup_spec(xhi).sup_spec(yhi) == v.max_point.sup_spec(yhi).sup_spec(xhi),
{
    lemma_swap(v.min_point.x, xlo.x, ylo.x);
    lemma_swap(v.min_point.y, xlo.y, ylo.y);
    lemma_swap(v.min_point.z, xlo.z, ylo.z);
    lemma_swap(v.max_point.x, xhi.x, yhi.x);
    lemma_swap(v.max_point.y, xhi.y, yhi.y);
    lemma_swap(v.max_point.z, xhi.z, yhi.z);
}

proof fn lemma_swap(v: Scalar, x: Scalar, y: Scalar)
    ensures
        v.min_spec(x).min_spec(y) == v.min_spec(y).min_spec(x),
        v.max_spec(x).max_spec(y) == v.max_spec(y).max_spec(x),
{
    lemma_min_max_lattice(v, x, y);
    lemma_min_max_lattice(v, y, x);
    lemma_min_max_lattice(x, y, v);
}

/// Folding one more item into a hull.
proof fn lemma_hull_push(items: Seq<TaggedPrimitive>, i: int)
    requires
        0 <= i < items.len(),
    ensures
        hull(items.subrange(0, i + 1)) == hull(items.subrange(0, i)).union_spec(items[i].bounds),
        centroid_hull(items.subrange(0, i + 1)) == centroid_hull(items.subrange(0, i)).extend_spec(
            items[i].centroid,
        ),
        hull(items.subrange(0, 0)) == no_box(),
        centroid_hull(items.subrange(0, 0)) == no_box(),
{
    assert(items.subrange(0, i + 1).drop_last() =~= items.subrange(0, i));
    assert(items.subrange(0, i + 1).last() == items[i]);
}

/// The leaves of a node are the tagged entries of its primitives.
pub proof fn lemma_leaves_of_prims(node: BvhNode, entries: Seq<Entry>)
    ensures
        node.leaves(entries).len() == node.prims().len(),
        node.prims().len() >= 1,
        forall|i: int|
            0 <= i < node.prims().len() ==> #[trigger] node.leaves(entries)[i] == tag(
                entries,
                node.prims()[i],
            ),
    decreases node,
{
    match node.data {
        BvhNodeData::Leaf { prim } => {},
        BvhNodeData::Interior { left, right } => {
            lemma_leaves_of_prims(*left, entries);
            lemma_leaves_of_prims(*right, entries);
        },
    }
}

/// Halving more does not take fewer steps.
pub proof fn lemma_ceil_log2_monotone(a: nat, b: nat)
    requires
        a <= b,
    ensures
        ceil_log2(a) <= ceil_log2(b),
    decreases b,
{
    if b > 1 && a > 1 {
        lemma_ceil_log2_monotone((a + 1) / 2, (b + 1) / 2);
    }
}

/// What the builder asks of the items it works on: each is the tagged entry
/// of its primitive, and no primitive comes twice.
pub open spec fn tagged(items: Seq<TaggedPrimitive>, entries: Seq<Entry>) -> bool {
    &&& items.no_duplicates()
    &&& forall|i: int|
        0 <= i < items.len() ==> (#[trigger] items[i]).prim < entries.len() && items[i] == tag(
            entries,
            items[i].prim,
        )
}

/// A reordering of tagged items is tagged, and has the same hulls.
proof fn lemma_reordered(
    before: Seq<TaggedPrimitive>,
    after: Seq<TaggedPrimitive>,
    entries: Seq<Entry>,
)
    requires
        tagged(before, entries),
        before.to_multiset() == after.to_multiset(),
    ensures
        tagged(after, entries),
        hull(after) == hull(before),
        centroid_hull(after) == centroid_hull(before),
{
    broadcast use to_multiset_contains;

    before.lemma_multiset_has_no_duplicates();
    after.lemma_multiset_has_no_duplicates_conv();
    assert forall|i: int| 0 <= i < after.len() implies (#[trigger] after[i]).prim < entries.len()
        && after[i] == tag(entries, after[i].prim) by {
        assert(after.contains(after[i]));
        assert(after.to_multiset().count(after[i]) > 0);
        assert(before.contains(after[i]));
    }
    lemma_hull_fold_commutes();
    lemma_fold_left_permutation(
        before,
        after,
        |b: Aabb, t: TaggedPrimitive| b.union_spec(t.bounds),
        no_box(),
    );
    lemma_fold_left_permutation(
        before,
        after,
        |b: Aabb, t: TaggedPrimitive| b.extend_spec(t.centroid),
        no_box(),
    );
}

/// Builds the hierarchy over `items` by median splits.
fn do_build<F: Fn(Aabb) -> Vec3>(
    items: Vec<TaggedPrimitive>,
    Ghost(entries): Ghost<Seq<Entry>>,
    extent_of: &F,
) -> (r: Option<Box<BvhNode>>)
    requires
        valid_entries(entries),
        tagged(items@, entries),
        forall|b: Aabb| b.wf() ==> call_requires(*extent_of, (b,)),
    ensures
        r is None <==> items.len() == 0,
        r matches Some(node) ==> {
            &&& node.median_split(entries, *extent_of)
            &&& node.leaves(entries).to_multiset() == items@.to_multiset()
            &&& node.leaves(entries).len() == items.len()
            &&& node.depth() == ceil_log2(items.len() as nat) + 1
            &&& node.bounds == hull(node.leaves(entries))
            &&& node.bounds.wf()
        },
    decreases items.len(),
{
    let mut items = items;
    let n = items.len();
    if n == 0 {
        return None;
    }
    let ghost before = items@;
    let first = items[0];
    proof {
        lemma_hull_push(before, 0);
        assert(before.subrange(0, 1) =~= seq![first]);
    }
    if n == 1 {
        let node = BvhNode { bounds: first.bounds, data: BvhNodeData::Leaf { prim: first.prim } };
        proof {
            assert(before =~= seq![first]);
            assert(node.leaves(entries) =~= before);
        }
        return Some(Box::new(node));
    }
    let mut bounds = first.bounds;
    let mut centroid_bounds = Aabb::at_point(first.centroid);
    let mut i: usize = 1;
    while i < n
        invariant
            1 <= i <= n,
            n == items.len(),
            items@ == before,
            valid_entries(entries),
            tagged(before, entries),
            bounds == hull(before.subrange(0, i as int)),
            centroid_bounds == centroid_hull(before.subrange(0, i as int)),
            bounds.wf(),
            centroid_bounds.wf(),
        decreases n - i,
    {
        proof {
            lemma_hull_push(before, i as int);
        }
        bounds = bounds.union(&items[i].bounds);
        centroid_bounds = centroid_bounds.extend(items[i].centroid);
        i += 1;
    }
    assert(before.subrange(0, n as int) =~= before);
    let extent = extent_of(centroid_bounds);
    let axis = longest_axis(extent);
    let mid = n / 2;
    select_median(&mut items, mid, axis);
    let ghost after = items@;
    proof {
        lemma_reordered(before, after, entries);
    }
    let right_items = items.split_off(mid);
    let ghost lower = items@;
    let ghost upper = right_items@;
    assert(lower + upper =~= after);
    let left = do_build(items, Ghost(entries), extent_of).unwrap();
    let right = do_build(right_items, Ghost(entries), extent_of).unwrap();
    let node = BvhNode { bounds, data: BvhNodeData::Interior { left, right } };
    proof {
        let ll = left.leaves(entries);
        let rl = right.leaves(entries);
        lemma_multiset_commutative(ll, rl);
        lemma_multiset_commutative(lower, upper);
        assert(node.leaves(entries) == ll + rl);
        lemma_reordered(after, node.leaves(entries), entries);
        lemma_leaves_of_prims(*left, entries);
        lemma_leaves_of_prims(*right, entries);
        lemma_leaves_of_prims(node, entries);
        lemma_ceil_log2_monotone(mid as nat, (n - mid) as nat);
        assert forall|a: int, b: int| 0 <= a < ll.len() && 0 <= b < rl.len() implies split_before(
            #[trigger] ll[a],
            #[trigger] rl[b],
            axis,
        ) by {
            broadcast use to_multiset_contains;

            assert(ll.contains(ll[a]));
            assert(lower.to_multiset().count(ll[a]) > 0);
            assert(lower.contains(ll[a]));
            let k = choose|k: int| 0 <= k < lower.len() && lower[k] == ll[a];
            assert(rl.contains(rl[b]));
            assert(upper.to_multiset().count(rl[b]) > 0);
            assert(upper.contains(rl[b]));
            let m = choose|m: int| 0 <= m < upper.len() && upper[m] == rl[b];
            assert(after[k] == ll[a]);
            assert(after[mid + m] == rl[b]);
            assert(split_not_after(after[k], after[mid as int], axis));
            if m > 0 {
                assert(split_not_after(after[mid as int], after[mid + m], axis));
            }
            assert(after[k] != after[mid + m]);
        }
    }
    Some(Box::new(node))
}

/// Builds the hierarchy over the primitives whose boxes and centroids are
/// `entries`, by median splits: each node with more than one primitive parts
/// them along the longest axis of the box of their centroids, the lower half
/// (rounded down) to the left, and between equal centroids the primitive
/// that came first in `entries` counts as lower. `extent_of` gives the
/// extent of a box, the difference of its corners.
///
/// No tree is built for no entries. The tree holds every primitive in
/// exactly one leaf, and is as shallow as halving allows.
pub fn build<F: Fn(Aabb) -> Vec3>(entries: &Vec<Entry>, extent_of: F) -> (r: Option<
    Box<BvhNode>,
>)
    requires
        valid_entries(entries@),
        forall|b: Aabb| b.wf() ==> call_requires(extent_of, (b,)),
    ensures
        r is None <==> entries.len() == 0,
        r matches Some(root) ==> {
            &&& root.median_split(entries@, extent_of)
            &&& root.leaves(entries@).to_multiset() == tag_all(entries@).to_multiset()
            &&& root.prims().len() == entries.len()
            &&& root.prims().no_duplicates()
            &&& forall|p: usize| root.prims().contains(p) <==> p < entries.len()
            &&& root.depth() == ceil_log2(entries.len() as nat) + 1
            &&& root.bounds == hull(tag_all(entries@))
            &&& root.bounds.wf()
        },
{
    let mut items: Vec<TaggedPrimitive> = Vec::new();
    let n = entries.len();
    let mut i: usize = 0;
    while i < n
        invariant
            i <= n,
            n == entries.len(),
            items@ == tag_all(entries@).subrange(0, i as int),
        decreases n - i,
    {
        let entry = entries[i];
        items.push(TaggedPrimitive { prim: i, bounds: entry.bounds, centroid: entry.centroid });
        assert(items@ =~= tag_all(entries@).subrange(0, i + 1));
        i += 1;
    }
    assert(items@ =~= tag_all(entries@));
    let r = do_build(items, Ghost(entries@), &extent_of);
    proof {
        if r is Some {
            let root = *r->0;
            lemma_holds_each_once(root, entries@);
            lemma_reordered(tag_all(entries@), root.leaves(entries@), entries@);
        }
    }
    r
}

/// A tree whose leaves are a reordering of all tagged entries holds every
/// primitive exactly once.
proof fn lemma_holds_each_once(root: BvhNode, entries: Seq<Entry>)
    requires
        entries.len() <= usize::MAX,
        root.leaves(entries).to_multiset() == tag_all(entries).to_multiset(),
        root.leaves(entries).len() == entries.len(),
    ensures
        root.prims().len() == entries.len(),
        root.prims().no_duplicates(),
        forall|p: usize| root.prims().contains(p) <==> p < entries.len(),
{
    broadcast use to_multiset_contains;

    let all = tag_all(entries);
    let leaves = root.leaves(entries);
    let prims = root.prims();
    lemma_leaves_of_prims(root, entries);
    assert(all.no_duplicates());
    all.lemma_multiset_has_no_duplicates();
    leaves.lemma_multiset_has_no_duplicates_conv();
    assert forall|i: int, j: int| 0 <= i < prims.len() && 0 <= j < prims.len() && i != j implies prims[i]
        != prims[j] by {
        assert(leaves[i] == tag(entries, prims[i]));
        assert(leaves[j] == tag(entries, prims[j]));
    }
    assert forall|p: usize| prims.contains(p) <==> p < entries.len() by {
        if prims.contains(p) {
            let i = choose|i: int| 0 <= i < prims.len() && prims[i] == p;
            assert(leaves[i] == tag(entries, p));
            assert(leaves.contains(leaves[i]));
            assert(all.to_multiset().count(leaves[i]) > 0);
            assert(all.contains(leaves[i]));
            let k = choose|k: int| 0 <= k < all.len() && all[k] == leaves[i];
            assert(all[k].prim == k);
        }
        if p < entries.len() {
            assert(all[p as int] == tag(entries, p));
            assert(all.contains(all[p as int]));
            assert(leaves.to_multiset().count(all[p as int]) > 0);
            assert(leaves.contains(all[p as int]));
            let i = choose|i: int| 0 <= i < leaves.len() && leaves[i] == all[p as int];
            assert(leaves[i] == tag(entries, prims[i]));
            assert(prims[i] == p);
        }
    }
}

/// A primitive together with the place where the ray meets it.
pub type Found = Option<(usize, RawHitInfo)>;

/// How far the right child is searched once the left child has answered: up
/// to the left child's hit if it has one, else as far as before.
pub open spec fn limit_spec(left: Found, t_max: Scalar) -> Scalar {
    match left {
        Some((_, info)) => info.t,
        None => t_max,
    }
}

/// The nearer of what the two children found: the right one where only it
/// found something or where its hit is strictly nearer, else the left one.
pub open spec fn nearer_spec(left: Found, right: Found) -> Found {
    match (left, right) {
        (None, Some(hit)) => Some(hit),
        (Some((_, il)), Some((pr, ir))) => if ir.t.lt_spec(il.t) {
            right
        } else {
            left
        },
        _ => left,
    }
}

/// How far the right child is searched once the left child has answered.
pub fn limit(left: &Found, t_max: Scalar) -> (r: Scalar)
    ensures
        r == limit_spec(*left, t_max),
{
    match left {
        Some((_, info)) => info.t,
        None => t_max,
    }
}

/// The nearer of what the two children found.
pub fn nearer(left: Found, right: Found) -> (r: Found)
    ensures
        r == nearer_spec(left, right),
{
    match (left, right) {
        (None, Some(hit)) => Some(hit),
        (Some((pl, il)), Some((pr, ir))) => if ir.t.lt(il.t) {
            Some((pr, ir))
        } else {
            Some((pl, il))
        },
        (l, _) => l,
    }
}

impl BvhNode {
    /// `found` is what the search below this node gives for some answers of
    /// the two tests: nothing where the node's box fails `passes` between
    /// the smallest parameter that counts and `t_max`; at a leaf, what
    /// `meets` says of its primitive below `t_max`; at an interior node, the
    /// nearer of what the left child gives below `t_max` and what the right
    /// child gives below the left child's hit.
    pub open spec fn search<B: Fn(Aabb, Scalar, Scalar) -> bool, H: Fn(usize, Scalar) -> Option<
        RawHitInfo,
    >>(self, t_max: Scalar, passes: B, meets: H, found: Found) -> bool
        decreases self,
    {
        exists|pass: bool| #[trigger]
            call_ensures(passes, (self.bounds, Scalar { key: EPSILON_KEY }, t_max), pass) && if !pass {
                found is None
            } else {
                match self.data {
                    BvhNodeData::Leaf { prim } => exists|met: Option<RawHitInfo>| #[trigger]
                        call_ensures(meets, (prim, t_max), met) && found == match met {
                            Some(info) => Some((prim, info)),
                            None => None,
                        },
                    BvhNodeData::Interior { left, right } => exists|lf: Found, rf: Found|
                        {
                            &&& left.search(t_max, passes, meets, lf)
                            &&& right.search(limit_spec(lf, t_max), passes, meets, rf)
                            &&& found == #[trigger] nearer_spec(lf, rf)
                        },
                }
            }
    }

    /// The nearest hit of a ray on the primitives below this node, short of
    /// `t_max`. `passes` tells whether the ray passes a box between two
    /// parameters, `meets` where it meets a primitive short of a parameter.
    pub fn hit<B: Fn(Aabb, Scalar, Scalar) -> bool, H: Fn(usize, Scalar) -> Option<RawHitInfo>>(
        &self,
        t_max: Scalar,
        passes: &B,
        meets: &H,
    ) -> (found: Found)
        requires
            forall|b: Aabb, lo: Scalar, hi: Scalar| call_requires(*passes, (b, lo, hi)),
            forall|p: usize, t: Scalar| self.prims().contains(p) ==> call_requires(*meets, (p, t)),
        ensures
            self.search(t_max, *passes, *meets, found),
            found matches Some((prim, _)) ==> self.prims().contains(prim),
        decreases self,
    {
        let pass = passes(self.bounds, Scalar::epsilon(), t_max);
        if !pass {
            return None;
        }
        match &self.data {
            BvhNodeData::Leaf { prim } => {
                assert(self.prims()[0] == *prim);
                let met = meets(*prim, t_max);
                let found = match met {
                    Some(info) => Some((*prim, info)),
                    None => None,
                };
                assert(call_ensures(*meets, (*prim, t_max), met));
                assert(call_ensures(*passes, (self.bounds, Scalar { key: EPSILON_KEY }, t_max), pass));
                found
            },
            BvhNodeData::Interior { left, right } => {
                proof {
                    let lp = left.prims();
                    let rp = right.prims();
                    assert forall|p: usize| lp.contains(p) || rp.contains(p) implies self.prims().contains(
                        p,
                    ) by {
                        if lp.contains(p) {
                            let k = choose|k: int| 0 <= k < lp.len() && lp[k] == p;
                            assert(self.prims()[k] == p);
                        } else {
                            let k = choose|k: int| 0 <= k < rp.len() && rp[k] == p;
                            assert(self.prims()[lp.len() + k] == p);
                        }
                    }
                }
                let lf = left.hit(t_max, passes, meets);
                let rf = right.hit(limit(&lf, t_max), passes, meets);
                let found = nearer(lf, rf);
                assert(left.search(t_max, *passes, *meets, lf));
                assert(right.search(limit_spec(lf, t_max), *passes, *meets, rf));
                assert(call_ensures(*passes, (self.bounds, Scalar { key: EPSILON_KEY }, t_max), pass));
                assert(found == nearer_spec(lf, rf));
                found
            },
        }
    }
}

/// What is reported of a primitive short of `t_max`, when the ray first
/// meets it at `first`: that hit if it comes before `t_max`, else nothing.
pub open spec fn short_of(first: Option<RawHitInfo>, t_max: Scalar) -> Option<RawHitInfo> {
    match first {
        Some(info) => if info.t.lt_spec(t_max) {
            first
        } else {
            None
        },
        None => None,
    }
}

impl BvhNode {
    /// The ray meets no primitive below the node short of `t_max`, where
    /// `first` tells the ray's first hit on each primitive.
    pub open spec fn none_short_of(
        self,
        first: spec_fn(usize) -> Option<RawHitInfo>,
        t_max: Scalar,
    ) -> bool {
        forall|i: int|
            0 <= i < self.prims().len() ==> short_of(first(#[trigger] self.prims()[i]), t_max) is None
    }

    /// At this node and at every node below it, the box test turns a ray
    /// away only where the ray meets no primitive of the node in time.
    pub open spec fn boxes_hold<B: Fn(Aabb, Scalar, Scalar) -> bool>(
        self,
        passes: B,
        first: spec_fn(usize) -> Option<RawHitInfo>,
    ) -> bool
        decreases self,
    {
        &&& forall|t_max: Scalar| #[trigger]
            call_ensures(passes, (self.bounds, Scalar { key: EPSILON_KEY }, t_max), false)
                ==> self.none_short_of(first, t_max)
        &&& match self.data {
            BvhNodeData::Leaf { .. } => true,
            BvhNodeData::Interior { left, right } => left.boxes_hold(passes, first)
                && right.boxes_hold(passes, first),
        }
    }
}

/// The search returns the primitive that the ray meets first.
///
/// Let the primitive test report of each primitive its one first hit,
/// whenever that comes before the limit it is given, and let the box test
/// turn a ray away from a node only where the ray meets nothing below it in
/// time. Then whatever the search below `node` gives short of `t_max` is a
/// primitive of the node with its first hit, that hit comes before `t_max`,
/// and no primitive of the node is met earlier; and where the search gives
/// nothing, the ray meets no primitive of the node short of `t_max`.
pub proof fn lemma_search_finds_nearest<
    B: Fn(Aabb, Scalar, Scalar) -> bool,
    H: Fn(usize, Scalar) -> Option<RawHitInfo>,
>(
    node: BvhNode,
    t_max: Scalar,
    passes: B,
    meets: H,
    first: spec_fn(usize) -> Option<RawHitInfo>,
    found: Found,
)
    requires
        node.search(t_max, passes, meets, found),
        !t_max.nan(),
        forall|p: usize| (#[trigger] first(p)) matches Some(info) ==> !info.t.nan(),
        forall|p: usize, limit: Scalar, met: Option<RawHitInfo>| #[trigger]
            call_ensures(meets, (p, limit), met) ==> met == short_of(first(p), limit),
        node.boxes_hold(passes, first),
    ensures
        match found {
            None => node.none_short_of(first, t_max),
            Some((p, info)) => {
                &&& node.prims().contains(p)
                &&& first(p) == Some(info)
                &&& info.t.lt_spec(t_max)
                &&& forall|i: int|
                    0 <= i < node.prims().len() ==> (first(#[trigger] node.prims()[i]) matches Some(
                        other,
                    ) ==> info.t.le_spec(other.t))
            },
        },
    decreases node,
{
    let eps = Scalar { key: EPSILON_KEY };
    let pass = choose|pass: bool| #[trigger]
        call_ensures(passes, (node.bounds, eps, t_max), pass) && if !pass {
            found is None
        } else {
            match node.data {
                BvhNodeData::Leaf { prim } => exists|met: Option<RawHitInfo>| #[trigger]
                    call_ensures(meets, (prim, t_max), met) && found == match met {
                        Some(info) => Some((prim, info)),
                        None => None,
                    },
                BvhNodeData::Interior { left, right } => exists|lf: Found, rf: Found|
                    {
                        &&& left.search(t_max, passes, meets, lf)
                        &&& right.search(limit_spec(lf, t_max), passes, meets, rf)
                        &&& found == #[trigger] nearer_spec(lf, rf)
                    },
            }
        };
    if pass {
        match node.data {
            BvhNodeData::Leaf { prim } => {
                let met = choose|met: Option<RawHitInfo>| #[trigger]
                    call_ensures(meets, (prim, t_max), met) && found == match met {
                        Some(info) => Some((prim, info)),
                        None => None,
                    };
                assert(met == short_of(first(prim), t_max));
                assert(node.prims()[0] == prim);
            },
            BvhNodeData::Interior { left, right } => {
                let (lf, rf) = choose|lf: Found, rf: Found|
                    {
                        &&& left.search(t_max, passes, meets, lf)
                        &&& right.search(limit_spec(lf, t_max), passes, meets, rf)
                        &&& found == #[trigger] nearer_spec(lf, rf)
                    };
                let lp = left.prims();
                let rp = right.prims();
                lemma_search_finds_nearest(*left, t_max, passes, meets, first, lf);
                let limit = limit_spec(lf, t_max);
                lemma_search_finds_nearest(*right, limit, passes, meets, first, rf);
                assert(forall|i: int| 0 <= i < lp.len() ==> node.prims()[i] == lp[i]);
                assert(forall|i: int|
                    0 <= i < rp.len() ==> node.prims()[lp.len() + i] == rp[i]);
                match found {
                    None => {
                        assert forall|i: int| 0 <= i < node.prims().len() implies short_of(
                            first(#[trigger] node.prims()[i]),
                            t_max,
                        ) is None by {
                            if i < lp.len() {
                                assert(node.prims()[i] == lp[i]);
                            } else {
                                assert(node.prims()[i] == rp[i - lp.len()]);
                            }
                        }
                    },
                    Some((p, info)) => {
                        if found == lf {
                            let k = choose|k: int| 0 <= k < lp.len() && lp[k] == p;
                            assert(node.prims()[k] == p);
                        } else {
                            let k = choose|k: int| 0 <= k < rp.len() && rp[k] == p;
                            assert(node.prims()[lp.len() + k] == p);
                        }
                        assert forall|i: int| 0 <= i < node.prims().len() implies (first(
                            #[trigger] node.prims()[i],
                        ) matches Some(other) ==> info.t.le_spec(other.t)) by {
                            if i < lp.len() {
                                assert(node.prims()[i] == lp[i]);
                            } else {
                                assert(node.prims()[i] == rp[i - lp.len()]);
                            }
                        }
                    },
                }
            },
        }
    }
}

/// Every hit that the search returns is in reach.
///
/// Let the primitive test report only hits that come no earlier than the
/// smallest parameter that counts and before the limit it is given. Then
/// whatever the search below `node` gives short of `t_max` does so too.
pub proof fn lemma_search_in_reach<
    B: Fn(Aabb, Scalar, Scalar) -> bool,
    H: Fn(usize, Scalar) -> Option<RawHitInfo>,
>(node: BvhNode, t_max: Scalar, passes: B, meets: H, found: Found)
    requires
        node.search(t_max, passes, meets, found),
        forall|p: usize, limit: Scalar, info: RawHitInfo| #[trigger]
            call_ensures(meets, (p, limit), Some(info)) ==> in_reach(info.t, limit),
    ensures
        found matches Some((_, info)) ==> in_reach(info.t, t_max),
    decreases node,
{
    let eps = Scalar { key: EPSILON_KEY };
    let pass = choose|pass: bool| #[trigger]
        call_ensures(passes, (node.bounds, eps, t_max), pass) && if !pass {
            found is None
        } else {
            match node.data {
                BvhNodeData::Leaf { prim } => exists|met: Option<RawHitInfo>| #[trigger]
                    call_ensures(meets, (prim, t_max), met) && found == match met {
                        Some(info) => Some((prim, info)),
                        None => None,
                    },
                BvhNodeData::Interior { left, right } => exists|lf: Found, rf: Found|
                    {
                        &&& left.search(t_max, passes, meets, lf)
                        &&& right.search(limit_spec(lf, t_max), passes, meets, rf)
                        &&& found == #[trigger] nearer_spec(lf, rf)
                    },
            }
        };
    if pass {
        match node.data {
            BvhNodeData::Leaf { prim } => {},
            BvhNodeData::Interior { left, right } => {
                let (lf, rf) = choose|lf: Found, rf: Found|
                    {
                        &&& left.search(t_max, passes, meets, lf)
                        &&& right.search(limit_spec(lf, t_max), passes, meets, rf)
                        &&& found == #[trigger] nearer_spec(lf, rf)
                    };
                lemma_search_in_reach(*left, t_max, passes, meets, lf);
                lemma_search_in_reach(*right, limit_spec(lf, t_max), passes, meets, rf);
            },
        }
    }
}

/// Two to the power `k`.
pub open spec fn two_to(k: nat) -> nat
    decreases k,
{
    if k == 0 {
        1
    } else {
        2 * two_to((k - 1) as nat)
    }
}

/// `ceil_log2(n)` is the logarithm of `n` to base two, rounded up: the
/// least `k` with `n <= 2^k`.
pub proof fn lemma_ceil_log2_is_least(n: nat)
    requires
        n >= 1,
    ensures
        n <= two_to(ceil_log2(n)),
        n >= 2 ==> two_to((ceil_log2(n) - 1) as nat) < n,
    decreases n,
{
    if n >= 2 {
        lemma_ceil_log2_is_least((n + 1) / 2);
    }
}

/// The hull of well-formed boxes is a well-formed box that encloses each of
/// them.
pub proof fn lemma_hull_encloses(items: Seq<TaggedPrimitive>, i: int)
    requires
        0 <= i < items.len(),
        forall|k: int| 0 <= k < items.len() ==> (#[trigger] items[k]).bounds.wf(),
    ensures
        hull(items).wf(),
        hull(items).encloses(items[i].bounds),
    decreases items.len(),
{
    let rest = items.drop_last();
    if rest.len() > 0 {
        if i < rest.len() {
            lemma_hull_encloses(rest, i);
        } else {
            lemma_hull_encloses(rest, 0);
        }
    }
}

/// A box test that is right about single boxes is right about the tree.
///
/// Let the box test turn a ray away from a box only where the ray meets, in
/// time, no primitive whose own box lies in that box. Then on a tree built by
/// median splits it turns a ray away from a node only where the ray meets
/// no primitive of the node in time, which is what
/// [`lemma_search_finds_nearest`] asks for.
pub proof fn lemma_boxes_hold_on_built_tree<
    F: Fn(Aabb) -> Vec3,
    B: Fn(Aabb, Scalar, Scalar) -> bool,
>(
    node: BvhNode,
    entries: Seq<Entry>,
    extent_of: F,
    passes: B,
    first: spec_fn(usize) -> Option<RawHitInfo>,
)
    requires
        valid_entries(entries),
        node.median_split(entries, extent_of),
        forall|b: Aabb, t_max: Scalar, p: usize| #[trigger]
            call_ensures(passes, (b, Scalar { key: EPSILON_KEY }, t_max), false) && p
                < entries.len() && b.encloses(#[trigger] entries[p as int].bounds) ==> short_of(
                first(p),
                t_max,
            ) is None,
    ensures
        node.boxes_hold(passes, first),
        forall|i: int| 0 <= i < node.prims().len() ==> (#[trigger] node.prims()[i]) < entries.len(),
    decreases node,
{
    lemma_leaves_of_prims(node, entries);
    match node.data {
        BvhNodeData::Leaf { prim } => {
            assert(node.prims()[0] == prim);
            assert(entries[prim as int].bounds.wf());
        },
        BvhNodeData::Interior { left, right } => {
            lemma_boxes_hold_on_built_tree(*left, entries, extent_of, passes, first);
            lemma_boxes_hold_on_built_tree(*right, entries, extent_of, passes, first);
            let lp = left.prims();
            let rp = right.prims();
            assert forall|i: int| 0 <= i < node.prims().len() implies (#[trigger] node.prims()[i])
                < entries.len() by {
                if i < lp.len() {
                    assert(node.prims()[i] == lp[i]);
                } else {
                    assert(node.prims()[i] == rp[i - lp.len()]);
                }
            }
            let leaves = node.leaves(entries);
            assert forall|k: int| 0 <= k < leaves.len() implies (#[trigger] leaves[k]).bounds.wf() by {
                assert(leaves[k] == tag(entries, node.prims()[k]));
                assert(entries[node.prims()[k] as int].bounds.wf());
            }
            assert forall|t_max: Scalar| #[trigger]
                call_ensures(
                    passes,
                    (node.bounds, Scalar { key: EPSILON_KEY }, t_max),
                    false,
                ) implies node.none_short_of(first, t_max) by {
                assert forall|i: int| 0 <= i < node.prims().len() implies short_of(
                    first(#[trigger] node.prims()[i]),
                    t_max,
                ) is None by {
                    lemma_hull_encloses(leaves, i);
                    assert(leaves[i] == tag(entries, node.prims()[i]));
                    let p = node.prims()[i];
                    assert(node.bounds.encloses(entries[p as int].bounds));
                }
            }
        },
    }
}

/// On a tree built by median splits, the search returns the primitive that
/// the ray meets first.
///
/// Let the tree be built over `entries`. Let the primitive test report of
/// each primitive its one first hit, whenever that comes before the limit it
/// is given; and let the box test turn a ray away from a box only where the
/// ray meets, in time, no primitive whose own box lies in that box. Then
/// whatever the search gives short of `t_max` is a primitive with its first
/// hit, that hit comes before `t_max`, and no primitive is met earlier; and
/// where the search gives nothing, the ray meets no primitive short of
/// `t_max`.
pub proof fn lemma_built_tree_finds_nearest<
    F: Fn(Aabb) -> Vec3,
    B: Fn(Aabb, Scalar, Scalar) -> bool,
    H: Fn(usize, Scalar) -> Option<RawHitInfo>,
>(
    root: BvhNode,
    entries: Seq<Entry>,
    extent_of: F,
    t_max: Scalar,
    passes: B,
    meets: H,
    first: spec_fn(usize) -> Option<RawHitInfo>,
    found: Found,
)
    requires
        valid_entries(entries),
        root.median_split(entries, extent_of),
        root.search(t_max, passes, meets, found),
        !t_max.nan(),
        forall|p: usize| (#[trigger] first(p)) matches Some(info) ==> !info.t.nan(),
        forall|p: usize, limit: Scalar, met: Option<RawHitInfo>| #[trigger]
            call_ensures(meets, (p, limit), met) ==> met == short_of(first(p), limit),
        forall|b: Aabb, limit: Scalar, p: usize| #[trigger]
            call_ensures(passes, (b, Scalar { key: EPSILON_KEY }, limit), false) && p
                < entries.len() && b.encloses(#[trigger] entries[p as int].bounds) ==> short_of(
                first(p),
                limit,
            ) is None,
    ensures
        match found {
            None => root.none_short_of(first, t_max),
            Some((p, info)) => {
                &&& root.prims().contains(p)
                &&& first(p) == Some(info)
                &&& info.t.lt_spec(t_max)
                &&& forall|i: int|
                    0 <= i < root.prims().len() ==> (first(#[trigger] root.prims()[i]) matches Some(
                        other,
                    ) ==> info.t.le_spec(other.t))
            },
        },
{
    lemma_boxes_hold_on_built_tree(root, entries, extent_of, passes, first);
    lemma_search_finds_nearest(root, t_max, passes, meets, first, found);
}

/// Two lists without repetition that hold the same items are reorderings
/// of each other.
proof fn lemma_same_items<A>(s: Seq<A>, t: Seq<A>)
    requires
        s.no_duplicates(),
        t.no_duplicates(),
        forall|x: A| s.contains(x) <==> t.contains(x),
    ensures
        s.to_multiset() == t.to_multiset(),
{
    broadcast use to_multiset_contains;

    s.lemma_multiset_has_no_duplicates();
    t.lemma_multiset_has_no_duplicates();
    assert forall|x: A| s.to_multiset().count(x) == t.to_multiset().count(x) by {
        if s.contains(x) {
            assert(s.to_multiset().contains(x));
            assert(t.to_multiset().contains(x));
        }
    }
    assert(s.to_multiset() =~= t.to_multiset());
}

/// Of two lists without repetition and of one length, where one holds an
/// item that the other lacks, the other holds one that the first lacks.
proof fn lemma_exchange<A>(s: Seq<A>, t: Seq<A>, x: A) -> (y: A)
    requires
        s.no_duplicates(),
        t.no_duplicates(),
        s.len() == t.len(),
        s.contains(x),
        !t.contains(x),
    ensures
        t.contains(y),
        !s.contains(y),
{
    broadcast use seq_to_set_is_finite;

    s.unique_seq_to_set();
    t.unique_seq_to_set();
    if forall|y: A| t.contains(y) ==> s.contains(y) {
        let rest = s.to_set().remove(x);
        assert(t.to_set().subset_of(rest)) by {
            assert forall|y: A| t.to_set().contains(y) implies rest.contains(y) by {
                assert(t.contains(y));
            }
        }
        assert(s.to_set().contains(x));
        lemma_len_subset(t.to_set(), rest);
        assert(false);
    }
    choose|y: A| t.contains(y) && !s.contains(y)
}

/// The two parts of a list without repetition are without repetition, and
/// share no item.
proof fn lemma_parts<A>(s: Seq<A>, t: Seq<A>)
    requires
        (s + t).no_duplicates(),
    ensures
        s.no_duplicates(),
        t.no_duplicates(),
        forall|x: A| s.contains(x) ==> !t.contains(x),
        forall|x: A| (s + t).contains(x) <==> s.contains(x) || t.contains(x),
{
    let all = s + t;
    assert forall|i: int, j: int| 0 <= i < s.len() && 0 <= j < s.len() && i != j implies s[i]
        != s[j] by {
        assert(all[i] == s[i] && all[j] == s[j]);
    }
    assert forall|i: int, j: int| 0 <= i < t.len() && 0 <= j < t.len() && i != j implies t[i]
        != t[j] by {
        assert(all[s.len() + i] == t[i] && all[s.len() + j] == t[j]);
    }
    assert forall|x: A| s.contains(x) implies !t.contains(x) by {
        if t.contains(x) {
            let i = choose|i: int| 0 <= i < s.len() && s[i] == x;
            let j = choose|j: int| 0 <= j < t.len() && t[j] == x;
            assert(all[i] == x && all[s.len() + j] == x);
        }
    }
    assert forall|x: A| all.contains(x) <==> s.contains(x) || t.contains(x) by {
        if s.contains(x) {
            let i = choose|i: int| 0 <= i < s.len() && s[i] == x;
            assert(all[i] == x);
        }
        if t.contains(x) {
            let j = choose|j: int| 0 <= j < t.len() && t[j] == x;
            assert(all[s.len() + j] == x);
        }
        if all.contains(x) {
            let k = choose|k: int| 0 <= k < all.len() && all[k] == x;
            if k < s.len() {
                assert(s[k] == x);
            } else {
                assert(t[k - s.len()] == x);
            }
        }
    }
}

/// Median splitting leaves no choice: two trees that it makes of the same
/// primitives, where one box has one extent, are the same tree.
pub proof fn lemma_median_split_is_unique<F: Fn(Aabb) -> Vec3>(
    a: BvhNode,
    b: BvhNode,
    entries: Seq<Entry>,
    extent_of: F,
)
    requires
        a.median_split(entries, extent_of),
        b.median_split(entries, extent_of),
        a.leaves(entries).no_duplicates(),
        a.leaves(entries).to_multiset() == b.leaves(entries).to_multiset(),
        forall|hull: Aabb, x: Vec3, y: Vec3|
            call_ensures(extent_of, (hull,), x) && call_ensures(extent_of, (hull,), y) ==> x
                == y,
    ensures
        a == b,
    decreases a,
{
    broadcast use to_multiset_contains;

    let la = a.leaves(entries);
    let lb = b.leaves(entries);
    lemma_leaves_of_prims(a, entries);
    lemma_leaves_of_prims(b, entries);
    la.to_multiset_ensures();
    lb.to_multiset_ensures();
    assert(la.len() == lb.len());
    la.lemma_multiset_has_no_duplicates();
    lb.lemma_multiset_has_no_duplicates_conv();
    assert forall|x: TaggedPrimitive| la.contains(x) <==> lb.contains(x) by {
        assert(la.contains(x) <==> la.to_multiset().count(x) > 0);
        assert(lb.contains(x) <==> lb.to_multiset().count(x) > 0);
    }
    lemma_hull_fold_commutes();
    lemma_fold_left_permutation(
        la,
        lb,
        |h: Aabb, t: TaggedPrimitive| h.union_spec(t.bounds),
        no_box(),
    );
    lemma_fold_left_permutation(
        la,
        lb,
        |h: Aabb, t: TaggedPrimitive| h.extend_spec(t.centroid),
        no_box(),
    );
    match (a.data, b.data) {
        (BvhNodeData::Leaf { prim: pa }, BvhNodeData::Leaf { prim: pb }) => {
            assert(la[0] == tag(entries, pa));
            assert(lb[0] == tag(entries, pb));
            assert(lb.contains(la[0]));
        },
        (BvhNodeData::Leaf { .. }, BvhNodeData::Interior { left, right }) => {
            lemma_leaves_of_prims(*left, entries);
            lemma_leaves_of_prims(*right, entries);
            assert(false);
        },
        (BvhNodeData::Interior { left, right }, BvhNodeData::Leaf { .. }) => {
            lemma_leaves_of_prims(*left, entries);
            lemma_leaves_of_prims(*right, entries);
            assert(false);
        },
        (
            BvhNodeData::Interior { left: al, right: ar },
            BvhNodeData::Interior { left: bl, right: br },
        ) => {
            let all = al.leaves(entries);
            let arl = ar.leaves(entries);
            let bll = bl.leaves(entries);
            let brl = br.leaves(entries);
            lemma_leaves_of_prims(*al, entries);
            lemma_leaves_of_prims(*ar, entries);
            lemma_leaves_of_prims(*bl, entries);
            lemma_leaves_of_prims(*br, entries);
            lemma_parts(all, arl);
            lemma_parts(bll, brl);
            let extent_a = choose|extent: Vec3|
                {
                    &&& call_ensures(extent_of, (centroid_hull(la),), extent)
                    &&& forall|i: int, j: int|
                        0 <= i < all.len() && 0 <= j < arl.len() ==> split_before(
                            #[trigger] all[i],
                            #[trigger] arl[j],
                            longest_axis_spec(extent),
                        )
                };
            let extent_b = choose|extent: Vec3|
                {
                    &&& call_ensures(extent_of, (centroid_hull(lb),), extent)
                    &&& forall|i: int, j: int|
                        0 <= i < bll.len() && 0 <= j < brl.len() ==> split_before(
                            #[trigger] bll[i],
                            #[trigger] brl[j],
                            longest_axis_spec(extent),
                        )
                };
            let axis_a = longest_axis_spec(extent_a);
            let axis_b = longest_axis_spec(extent_b);
            assert(axis_a == axis_b);
            assert(all.len() == bll.len());
            assert forall|x: TaggedPrimitive| all.contains(x) <==> bll.contains(x) by {
                if all.contains(x) && !bll.contains(x) {
                    let y = lemma_exchange(all, bll, x);
                    assert(lb.contains(y));
                    assert(arl.contains(y));
                    assert(lb.contains(x));
                    assert(brl.contains(x));
                    let i = choose|i: int| 0 <= i < all.len() && all[i] == x;
                    let j = choose|j: int| 0 <= j < arl.len() && arl[j] == y;
                    assert(split_before(all[i], arl[j], axis_a));
                    let k = choose|k: int| 0 <= k < bll.len() && bll[k] == y;
                    let m = choose|m: int| 0 <= m < brl.len() && brl[m] == x;
                    assert(split_before(bll[k], brl[m], axis_b));
                }
                if bll.contains(x) && !all.contains(x) {
                    let y = lemma_exchange(bll, all, x);
                    assert(la.contains(y));
                    assert(brl.contains(y));
                    assert(la.contains(x));
                    assert(arl.contains(x));
                    let i = choose|i: int| 0 <= i < all.len() && all[i] == y;
                    let j = choose|j: int| 0 <= j < arl.len() && arl[j] == x;
                    assert(split_before(all[i], arl[j], axis_a));
                    let k = choose|k: int| 0 <= k < bll.len() && bll[k] == x;
                    let m = choose|m: int| 0 <= m < brl.len() && brl[m] == y;
                    assert(split_before(bll[k], brl[m], axis_b));
                }
            }
            assert forall|x: TaggedPrimitive| arl.contains(x) <==> brl.contains(x) by {
                if arl.contains(x) {
                    assert(la.contains(x));
                    assert(lb.contains(x));
                }
                if brl.contains(x) {
                    assert(lb.contains(x));
                    assert(la.contains(x));
                }
            }
            lemma_same_items(all, bll);
            lemma_same_items(arl, brl);
            lemma_median_split_is_unique(*al, *bl, entries, extent_of);
            lemma_median_split_is_unique(*ar, *br, entries, extent_of);
            assert(a.bounds == b.bounds);
            assert(al == bl);
            assert(ar == br);
        },
    }
}

} // verus!
