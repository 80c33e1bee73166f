//! The bounding volume hierarchy: a binary tree over primitives, built once
//! by sorted median splits and queried for nearest hits.

use vstd::prelude::*;

verus! {

use crate::fx::{Fx, FX_HUGE, FX_POINT_LIMIT, tdiv, half_fx};
use crate::vec::{Vec3i, vec_in};
use crate::ray::{
    Ray, ray_wf, Interval, IvlI, ivl_wf, ivl_contains, HitRecord, HitI, hiti_wf, opt_hit_view,
    WorldObject,
};
use crate::aabb::{
    AABB, Aabb3i, aabb_wf, aabb_in, aabb_sized, aabb_axis, aabb_from_view, aabb_empty_spec,
    aabb_union_ok, from_boxes_spec, slab_spec, longest_axis_spec, FX_BOX_LIMIT,
};
use crate::sphere::{Sphere, sphere_wf, sphere_hit_spec};
use crate::quad::{Quad, quad_wf, quad_hit_spec};
use crate::mesh::Mesh;

#[derive(Debug, PartialEq, Eq)]
pub enum BVHNode {
    Leaf { object: Box<WorldObject>, bounding_box: AABB },
    Branch { left: Box<WorldObject>, right: Box<WorldObject>, bounding_box: AABB },
}

/// The box stored at the root of a node.
pub open spec fn bvh_bbox(n: BVHNode) -> AABB {
    match n {
        BVHNode::Leaf { bounding_box, .. } => bounding_box,
        BVHNode::Branch { bounding_box, .. } => bounding_box,
    }
}

/// The box of any primitive: the one it stores.
pub open spec fn wo_bbox_spec(o: WorldObject) -> AABB {
    match o {
        WorldObject::BVHNode(n) => bvh_bbox(n),
        WorldObject::Sphere(s) => s.bounding_box,
        WorldObject::Quad(q) => q.bounding_box,
        WorldObject::Mesh(m) => m.bounding_box,
    }
}

/// Well-formedness of a primitive, recursively through sub-hierarchies.
pub open spec fn wo_wf(o: WorldObject) -> bool
    decreases o,
{
    match o {
        WorldObject::BVHNode(n) => bvh_wf(n),
        WorldObject::Sphere(s) => sphere_wf(s),
        WorldObject::Quad(q) => quad_wf(q),
        WorldObject::Mesh(m) => mesh_wf(m),
    }
}

/// Well-formedness of a node: children are well formed and the stored box
/// is a genuine, bounded box; a leaf stores its object's own box.
pub open spec fn bvh_wf(n: BVHNode) -> bool
    decreases n,
{
    match n {
        BVHNode::Leaf { object, bounding_box } => wo_wf(*object) && bounding_box == wo_bbox_spec(
            *object,
        ) && aabb_wf(bounding_box@) && aabb_in(bounding_box@, FX_BOX_LIMIT as int) && aabb_sized(
            bounding_box@,
        ),
        BVHNode::Branch { left, right, bounding_box } => wo_wf(*left) && wo_wf(*right) && aabb_wf(
            bounding_box@,
        ) && aabb_in(bounding_box@, FX_BOX_LIMIT as int) && aabb_sized(bounding_box@),
    }
}

/// Well-formedness of a mesh: its hierarchy is well formed and the stored
/// box is the hierarchy's root box.
pub open spec fn mesh_wf(m: Mesh) -> bool
    decreases m,
{
    bvh_wf(m.node) && m.bounding_box == bvh_bbox(m.node)
}

/// The flat sequence of elementary primitives below a primitive.
pub open spec fn wo_prims(o: WorldObject) -> Seq<WorldObject>
    decreases o,
{
    match o {
        WorldObject::BVHNode(n) => bvh_prims(n),
        WorldObject::Mesh(m) => bvh_prims(m.node),
        _ => seq![o],
    }
}

/// The flat sequence of elementary primitives below a node.
pub open spec fn bvh_prims(n: BVHNode) -> Seq<WorldObject>
    decreases n,
{
    match n {
        BVHNode::Leaf { object, .. } => wo_prims(*object),
        BVHNode::Branch { left, right, .. } => wo_prims(*left) + wo_prims(*right),
    }
}

/// Traversal of a primitive: dispatch to the variant's own intersection
/// rule; a mesh queries its private hierarchy.
pub open spec fn wo_hit_spec(o: WorldObject, r: Ray, itv: IvlI) -> Option<HitI>
    decreases o,
{
    match o {
        WorldObject::BVHNode(n) => bvh_hit_spec(n, r, itv),
        WorldObject::Sphere(s) => sphere_hit_spec(s, r, itv),
        WorldObject::Quad(q) => quad_hit_spec(q, r, itv),
        WorldObject::Mesh(m) => bvh_hit_spec(m.node, r, itv),
    }
}

/// Traversal of a node: the slab test prunes or narrows the range, the left
/// child is queried over the surviving range, the right child over a range
/// tightened to the left hit, and the right result is preferred; by
/// construction it is never farther than the left one.
pub open spec fn bvh_hit_spec(n: BVHNode, r: Ray, itv: IvlI) -> Option<HitI>
    decreases n,
{
    match slab_spec(bvh_bbox(n)@, r, itv) {
        None => None,
        Some(bi) => match n {
            BVHNode::Leaf { object, .. } => wo_hit_spec(*object, r, bi),
            BVHNode::Branch { left, right, .. } => {
                let left_hit = wo_hit_spec(*left, r, bi);
                let right_itv = match left_hit {
                    Some(lh) => IvlI { min: bi.min, max: lh.t },
                    None => bi,
                };
                let right_hit = wo_hit_spec(*right, r, right_itv);
                if right_hit is Some {
                    right_hit
                } else {
                    left_hit
                }
            },
        },
    }
}

/// The center coordinate of a primitive's box along an axis.
pub open spec fn center_key(o: WorldObject, axis: int) -> int {
    let i = aabb_axis(wo_bbox_spec(o)@, axis);
    tdiv(i.min + i.max, 2)
}

/// Nondecreasing box centers along the axis.
pub open spec fn sorted_by_center(s: Seq<WorldObject>, axis: int) -> bool {
    forall|i: int, j: int|
        0 <= i < j < s.len() ==> center_key(s[i], axis) <= center_key(s[j], axis)
}

/// Stable insertion into a center-sorted sequence: the new element lands
/// after every element whose key does not exceed its own.
pub open spec fn insert_sorted(s: Seq<WorldObject>, x: WorldObject, axis: int) -> Seq<WorldObject>
    decreases s.len(),
{
    if s.len() == 0 {
        seq![x]
    } else if center_key(x, axis) < center_key(s.last(), axis) {
        insert_sorted(s.drop_last(), x, axis).push(s.last())
    } else {
        s.push(x)
    }
}

/// Stable insertion sort by box center along the axis.
pub open spec fn sort_by_center(s: Seq<WorldObject>, axis: int) -> Seq<WorldObject>
    decreases s.len(),
{
    if s.len() == 0 {
        Seq::empty()
    } else {
        insert_sorted(sort_by_center(s.drop_last(), axis), s.last(), axis)
    }
}

/// The running union of the primitives' boxes, folded in list order from
/// the empty box.
pub open spec fn fold_boxes(s: Seq<WorldObject>) -> Aabb3i
    decreases s.len(),
{
    if s.len() == 0 {
        aabb_empty_spec()
    } else {
        from_boxes_spec(fold_boxes(s.drop_last()), wo_bbox_spec(s.last())@)
    }
}

/// Stable insertion grows the length by one.
pub proof fn lemma_insert_sorted_len(s: Seq<WorldObject>, x: WorldObject, axis: int)
    ensures
        insert_sorted(s, x, axis).len() == s.len() + 1,
    decreases s.len(),
{
    if s.len() > 0 && center_key(x, axis) < center_key(s.last(), axis) {
        lemma_insert_sorted_len(s.drop_last(), x, axis);
    }
}

/// Sorting keeps the length.
pub proof fn lemma_sort_len(s: Seq<WorldObject>, axis: int)
    ensures
        sort_by_center(s, axis).len() == s.len(),
    decreases s.len(),
{
    if s.len() > 0 {
        lemma_sort_len(s.drop_last(), axis);
        lemma_insert_sorted_len(sort_by_center(s.drop_last(), axis), s.last(), axis);
    }
}

/// Inserting at the position found by scanning from the right realizes the
/// stable insertion, and keeps the sequence sorted.
#[verifier::rlimit(100)]
pub proof fn lemma_insert_position(p: Seq<WorldObject>, x: WorldObject, axis: int, j: int)
    requires
        sorted_by_center(p, axis),
        0 <= j <= p.len(),
        j > 0 ==> center_key(p[j - 1], axis) <= center_key(x, axis),
        forall|k: int| j <= k < p.len() ==> center_key(#[trigger] p[k], axis) > center_key(x, axis),
    ensures
        insert_sorted(p, x, axis) == p.insert(j, x),
        sorted_by_center(p.insert(j, x), axis),
    decreases p.len(),
{
    lemma_insert_sorted_len(p, x, axis);
    if p.len() == 0 {
        assert(insert_sorted(p, x, axis) =~= p.insert(j, x));
    } else if center_key(x, axis) < center_key(p.last(), axis) {
        assert(j < p.len());
        let q = p.drop_last();
        assert(sorted_by_center(q, axis)) by {
            assert(forall|a: int, b: int|
                0 <= a < b < q.len() ==> center_key(#[trigger] q[a], axis) <= center_key(
                    #[trigger] q[b],
                    axis,
                )) by {
                assert(forall|a: int| 0 <= a < q.len() ==> #[trigger] q[a] == p[a]);
            }
        }
        lemma_insert_position(q, x, axis, j);
        lemma_insert_sorted_len(q, x, axis);
        assert(insert_sorted(p, x, axis) =~= p.insert(j, x)) by {
            assert(insert_sorted(p, x, axis) == insert_sorted(q, x, axis).push(p.last()));
            assert(insert_sorted(q, x, axis) == q.insert(j, x));
        }
        assert(sorted_by_center(p.insert(j, x), axis)) by {
            let s = p.insert(j, x);
            assert forall|a: int, b: int| 0 <= a < b < s.len() implies center_key(
                #[trigger] s[a],
                axis,
            ) <= center_key(#[trigger] s[b], axis) by {
                assert(forall|k: int| 0 <= k < j ==> #[trigger] s[k] == p[k]);
                assert(s[j] == x);
                assert(forall|k: int| j < k < s.len() ==> #[trigger] s[k] == p[k - 1]);
            }
        }
    } else {
        assert(j == p.len()) by {
            if j < p.len() {
                assert(center_key(p[p.len() - 1], axis) > center_key(x, axis));
            }
        }
        assert(insert_sorted(p, x, axis) =~= p.insert(j, x));
        assert(sorted_by_center(p.insert(j, x), axis)) by {
            let s = p.insert(j, x);
            assert forall|a: int, b: int| 0 <= a < b < s.len() implies center_key(
                #[trigger] s[a],
                axis,
            ) <= center_key(#[trigger] s[b], axis) by {
                assert(forall|k: int| 0 <= k < j ==> #[trigger] s[k] == p[k]);
                assert(s[j] == x);
                assert(center_key(p[p.len() - 1], axis) <= center_key(x, axis));
            }
        }
    }
}

/// Stable insertion keeps every element well formed.
pub proof fn lemma_insert_sorted_wf(s: Seq<WorldObject>, x: WorldObject, axis: int)
    requires
        forall|k: int| 0 <= k < s.len() ==> wo_wf(#[trigger] s[k]),
        wo_wf(x),
    ensures
        forall|k: int|
            0 <= k < insert_sorted(s, x, axis).len() ==> wo_wf(#[trigger] insert_sorted(s, x, axis)[k]),
    decreases s.len(),
{
    lemma_insert_sorted_len(s, x, axis);
    if s.len() == 0 {
    } else if center_key(x, axis) < center_key(s.last(), axis) {
        let q = s.drop_last();
        assert(forall|k: int| 0 <= k < q.len() ==> #[trigger] q[k] == s[k]);
        lemma_insert_sorted_wf(q, x, axis);
        lemma_insert_sorted_len(q, x, axis);
        assert(forall|k: int|
            0 <= k < insert_sorted(s, x, axis).len() ==> insert_sorted(s, x, axis)[k]
                == if k < insert_sorted(q, x, axis).len() {
                insert_sorted(q, x, axis)[k]
            } else {
                s.last()
            });
    } else {
    }
}

/// Sorting keeps every element well formed.
pub proof fn lemma_sort_wf(s: Seq<WorldObject>, axis: int)
    requires
        forall|k: int| 0 <= k < s.len() ==> wo_wf(#[trigger] s[k]),
    ensures
        forall|k: int|
            0 <= k < sort_by_center(s, axis).len() ==> wo_wf(#[trigger] sort_by_center(s, axis)[k]),
    decreases s.len(),
{
    if s.len() > 0 {
        let q = s.drop_last();
        assert(forall|k: int| 0 <= k < q.len() ==> #[trigger] q[k] == s[k]);
        lemma_sort_wf(q, axis);
        lemma_insert_sorted_wf(sort_by_center(q, axis), s.last(), axis);
    }
}

/// The whole deterministic build: one object becomes a leaf, two become a
/// pair, more are sorted along the widest axis of their united box and
/// split at the median.
pub open spec fn build_spec(objs: Seq<WorldObject>) -> BVHNode
    decreases objs.len(),
    via build_spec_dec
{
    if objs.len() <= 1 {
        BVHNode::Leaf { object: Box::new(objs[0]), bounding_box: wo_bbox_spec(objs[0]) }
    } else if objs.len() == 2 {
        BVHNode::Branch {
            left: Box::new(objs[0]),
            right: Box::new(objs[1]),
            bounding_box: aabb_from_view(
                from_boxes_spec(wo_bbox_spec(objs[0])@, wo_bbox_spec(objs[1])@),
            ),
        }
    } else {
        let bbox = fold_boxes(objs);
        let axis = longest_axis_spec(bbox);
        let sorted = sort_by_center(objs, axis);
        let mid = objs.len() as int / 2;
        BVHNode::Branch {
            left: Box::new(WorldObject::BVHNode(build_spec(sorted.take(mid)))),
            right: Box::new(WorldObject::BVHNode(build_spec(sorted.skip(mid)))),
            bounding_box: aabb_from_view(bbox),
        }
    }
}

#[via_fn]
proof fn build_spec_dec(objs: Seq<WorldObject>) {
    if objs.len() > 2 {
        lemma_sort_len(objs, longest_axis_spec(fold_boxes(objs)));
    }
}

/// The center coordinate of a primitive's box along an axis.
fn wo_center(o: &WorldObject, axis: i32) -> (r: Fx)
    requires
        wo_wf(*o),
        0 <= axis <= 2,
    ensures
        r == center_key(*o, axis as int),
{
    proof {
        lemma_wo_bbox_ok(*o);
    }
    let interval = o.bounding_box().axis_interval(axis);
    half_fx(interval.min + interval.max)
}

/// In-place stable insertion sort by box center along the given axis.
#[verifier::loop_isolation(false)]
fn sort_objects(objects: &mut Vec<WorldObject>, axis: i32)
    requires
        0 <= axis <= 2,
        forall|k: int| 0 <= k < old(objects)@.len() ==> wo_wf(#[trigger] old(objects)@[k]),
    ensures
        final(objects)@ == sort_by_center(old(objects)@, axis as int),
{
    let ghost orig = objects@;
    let mut i: usize = 0;
    while i < objects.len()
        invariant
            i <= orig.len(),
            objects@.len() == orig.len(),
            objects@ == sort_by_center(orig.take(i as int), axis as int) + orig.skip(i as int),
            sorted_by_center(objects@.take(i as int), axis as int),
            forall|k: int| 0 <= k < objects@.len() ==> wo_wf(#[trigger] objects@[k]),
        decreases orig.len() - i,
    {
        proof {
            lemma_sort_len(orig.take(i as int), axis as int);
        }
        let ghost pre = objects@;
        let ghost prefix = objects@.take(i as int);
        let x = objects.remove(i);
        proof {
            assert(x == orig[i as int]) by {
                assert(pre[i as int] == orig.skip(i as int)[0]);
            }
            assert(objects@ =~= prefix + orig.skip(i as int + 1));
            assert(forall|k: int| 0 <= k < objects@.len() ==> wo_wf(#[trigger] objects@[k])) by {
                assert(forall|k: int|
                    0 <= k < objects@.len() ==> objects@[k] == if k < i as int {
                        pre[k]
                    } else {
                        pre[k + 1]
                    });
            }
        }
        let key_x = wo_center(&x, axis);
        let mut j: usize = i;
        while j > 0 && wo_center(&objects[j - 1], axis) > key_x
            invariant
                j <= i,
                forall|k: int|
                    j <= k < i ==> center_key(#[trigger] objects@[k], axis as int) > center_key(
                        x,
                        axis as int,
                    ),
            decreases j,
        {
            j -= 1;
        }
        proof {
            assert(prefix.len() == i as int);
            assert(forall|k: int| 0 <= k < i as int ==> prefix[k] == objects@[k]);
            assert(prefix =~= sort_by_center(orig.take(i as int), axis as int));
            assert(forall|k: int|
                j as int <= k < prefix.len() ==> center_key(
                    #[trigger] prefix[k],
                    axis as int,
                ) > center_key(x, axis as int));
        }
        objects.insert(j, x);
        proof {
            lemma_insert_position(prefix, x, axis as int, j as int);
            assert(objects@ =~= insert_sorted(prefix, x, axis as int) + orig.skip(i as int + 1));
            lemma_insert_sorted_len(prefix, x, axis as int);
            assert(orig.take(i as int + 1).drop_last() =~= orig.take(i as int));
            assert(orig.take(i as int + 1).last() == x);
            assert(sort_by_center(orig.take(i as int + 1), axis as int) == insert_sorted(
                prefix,
                x,
                axis as int,
            ));
            assert(objects@.take(i as int + 1) =~= insert_sorted(prefix, x, axis as int));
            lemma_insert_sorted_wf(prefix, x, axis as int);
            assert(forall|k: int| 0 <= k < objects@.len() ==> wo_wf(#[trigger] objects@[k])) by {
                assert(forall|k: int|
                    0 <= k < objects@.len() ==> objects@[k] == if k <= i as int {
                        insert_sorted(prefix, x, axis as int)[k]
                    } else {
                        orig.skip(i as int + 1)[k - i - 1]
                    });
                assert(forall|k: int|
                    i as int + 1 <= k < orig.len() ==> orig.skip(i as int + 1)[k - i - 1] == orig[k]);
            }
        }
        i += 1;
    }
    proof {
        assert(orig.take(orig.len() as int) =~= orig);
        assert(objects@ =~= sort_by_center(orig, axis as int));
    }
}

impl WorldObject {
    /// The stored bounding box of any primitive.
    pub fn bounding_box(&self) -> (r: AABB)
        ensures
            r == wo_bbox_spec(*self),
    {
        match self {
            WorldObject::BVHNode(node) => node.bounding_box(),
            WorldObject::Sphere(sphere) => sphere.bounding_box(),
            WorldObject::Quad(quad) => quad.bounding_box(),
            WorldObject::Mesh(mesh) => mesh.bounding_box(),
        }
    }

    /// Nearest intersection of the ray with this primitive within the
    /// validity interval.
    pub fn hit(&self, ray: &Ray, t: &Interval) -> (r: Option<HitRecord>)
        requires
            wo_wf(*self),
            ray_wf(*ray),
            ivl_wf(t@),
        ensures
            opt_hit_view(r) == wo_hit_spec(*self, *ray, t@),
            r is Some ==> hiti_wf(r->Some_0@) && ivl_contains(t@, r->Some_0@.t),
        decreases *self,
    {
        match self {
            WorldObject::BVHNode(node) => node.hit(ray, t),
            WorldObject::Sphere(sphere) => {
                let h = sphere.hit(ray, t);
                proof {
                    if h is Some {
                        assert(crate::ray::ivl_surrounds(t@, h->Some_0@.t));
                    }
                }
                h
            },
            WorldObject::Quad(quad) => quad.hit(ray, t),
            WorldObject::Mesh(mesh) => mesh.node.hit(ray, t),
        }
    }
}

impl BVHNode {
    pub fn bounding_box(&self) -> (r: AABB)
        ensures
            r == bvh_bbox(*self),
    {
        match self {
            BVHNode::Leaf { bounding_box, .. } => *bounding_box,
            BVHNode::Branch { bounding_box, .. } => *bounding_box,
        }
    }

    /// Nearest intersection across the subtree: the node's box prunes, the
    /// right child is searched only up to the left child's hit, and the
    /// nearest surviving record is returned.
    pub fn hit(&self, ray: &Ray, t: &Interval) -> (r: Option<HitRecord>)
        requires
            bvh_wf(*self),
            ray_wf(*ray),
            ivl_wf(t@),
        ensures
            opt_hit_view(r) == bvh_hit_spec(*self, *ray, t@),
            r is Some ==> hiti_wf(r->Some_0@) && ivl_contains(t@, r->Some_0@.t),
        decreases *self,
    {
        proof {
            lemma_bvh_bbox_ok(*self);
        }
        let bbox_hit = self.bounding_box().hit(ray, t);
        match bbox_hit {
            None => None,
            Some(bbox_interval) => match self {
                BVHNode::Leaf { object, .. } => object.hit(ray, &bbox_interval),
                BVHNode::Branch { left, right, .. } => {
                    let left_hit = left.hit(ray, &bbox_interval);
                    let right_interval = match &left_hit {
                        Some(lh) => Interval::new(bbox_interval.min, lh.t),
                        None => bbox_interval,
                    };
                    let right_hit = right.hit(ray, &right_interval);
                    if right_hit.is_some() {
                        right_hit
                    } else {
                        left_hit
                    }
                },
            },
        }
    }

    /// A degenerate one-element node: a leaf around a single primitive.
    pub fn new_single_leaf(object: WorldObject) -> (r: BVHNode)
        requires
            wo_wf(object),
        ensures
            r == (BVHNode::Leaf {
                object: Box::new(object),
                bounding_box: wo_bbox_spec(object),
            }),
            bvh_wf(r),
    {
        let bounding_box = object.bounding_box();
        proof {
            lemma_wo_bbox_ok(object);
        }
        BVHNode::Leaf { object: Box::new(object), bounding_box }
    }

    /// A leaf pairing exactly two primitives under their united box.
    pub fn new_leaf(left: WorldObject, right: WorldObject) -> (r: BVHNode)
        requires
            wo_wf(left),
            wo_wf(right),
        ensures
            r == (BVHNode::Branch {
                left: Box::new(left),
                right: Box::new(right),
                bounding_box: aabb_from_view(
                    from_boxes_spec(wo_bbox_spec(left)@, wo_bbox_spec(right)@),
                ),
            }),
            bvh_wf(r),
    {
        proof {
            lemma_wo_bbox_ok(left);
            lemma_wo_bbox_ok(right);
        }
        let bounding_box = AABB::from_bounding_boxes(left.bounding_box(), right.bounding_box());
        BVHNode::Branch { left: Box::new(left), right: Box::new(right), bounding_box }
    }
}

impl BVHNode {
    /// Builds the whole hierarchy from a primitive list. The list becomes
    /// the build's own working copy: it is sorted along the widest axis of
    /// the united box and split at the median, recursively.
    #[verifier::loop_isolation(false)]
    #[verifier::rlimit(100)]
    pub fn new(objects: Vec<WorldObject>) -> (r: BVHNode)
        requires
            objects@.len() >= 1,
            forall|k: int| 0 <= k < objects@.len() ==> wo_wf(#[trigger] objects@[k]),
        ensures
            r == build_spec(objects@),
            bvh_wf(r),
        decreases objects@.len(),
    {
        let ghost objs = objects@;
        let mut objects = objects;
        if objects.len() == 1 {
            let object = objects.pop().unwrap();
            BVHNode::new_single_leaf(object)
        } else if objects.len() == 2 {
            let right = objects.pop().unwrap();
            let left = objects.pop().unwrap();
            BVHNode::new_leaf(left, right)
        } else {
            let mut bounding_box = AABB::empty();
            let mut i: usize = 0;
            while i < objects.len()
                invariant
                    i <= objs.len(),
                    objects@ == objs,
                    bounding_box@ == fold_boxes(objs.take(i as int)),
                    aabb_wf(bounding_box@),
                    i > 0 ==> aabb_in(bounding_box@, FX_BOX_LIMIT as int) && aabb_sized(
                        bounding_box@,
                    ),
                    i == 0 ==> bounding_box@ == aabb_empty_spec(),
                decreases objs.len() - i,
            {
                proof {
                    lemma_wo_bbox_ok(objs[i as int]);
                }
                let obj_box = objects[i].bounding_box();
                bounding_box = AABB::from_bounding_boxes(bounding_box, obj_box);
                proof {
                    assert(objs.take(i as int + 1).drop_last() =~= objs.take(i as int));
                    assert(objs.take(i as int + 1).last() == objs[i as int]);
                }
                i += 1;
            }
            proof {
                assert(objs.take(objs.len() as int) =~= objs);
            }
            let sort_axis = bounding_box.longest_axis();
            let mut copied_objects = objects;
            sort_objects(&mut copied_objects, sort_axis);
            let ghost sorted = sort_by_center(objs, sort_axis as int);
            proof {
                lemma_sort_len(objs, sort_axis as int);
                lemma_sort_wf(objs, sort_axis as int);
            }
            let middle = copied_objects.len() / 2;
            let right_half = copied_objects.split_off(middle);
            proof {
                assert(right_half@ =~= sorted.skip(middle as int));
                assert(copied_objects@ =~= sorted.take(middle as int));
                assert(forall|k: int|
                    0 <= k < right_half@.len() ==> wo_wf(#[trigger] right_half@[k])) by {
                    assert(forall|k: int|
                        0 <= k < right_half@.len() ==> right_half@[k] == sorted[k + middle]);
                }
                assert(forall|k: int|
                    0 <= k < copied_objects@.len() ==> wo_wf(#[trigger] copied_objects@[k])) by {
                    assert(forall|k: int|
                        0 <= k < copied_objects@.len() ==> copied_objects@[k] == sorted[k]);
                }
            }
            let right = Box::new(WorldObject::BVHNode(BVHNode::new(right_half)));
            let left = Box::new(WorldObject::BVHNode(BVHNode::new(copied_objects)));
            proof {
                assert(bounding_box == aabb_from_view(fold_boxes(objs)));
            }
            BVHNode::Branch { left, right, bounding_box }
        }
    }
}

/// Any hit a primitive's traversal reports lies within the closed query
/// range.
pub proof fn lemma_wo_hit_props(o: WorldObject, r: Ray, itv: IvlI)
    ensures
        match wo_hit_spec(o, r, itv) {
            Some(h) => itv.min <= h.t <= itv.max,
            None => true,
        },
    decreases o,
{
    match o {
        WorldObject::BVHNode(n) => {
            lemma_bvh_hit_props(n, r, itv);
        },
        WorldObject::Sphere(s) => {},
        WorldObject::Quad(q) => {},
        WorldObject::Mesh(m) => {
            lemma_bvh_hit_props(m.node, r, itv);
        },
    }
}

/// Any hit a node's traversal reports lies within the closed query range.
pub proof fn lemma_bvh_hit_props(n: BVHNode, r: Ray, itv: IvlI)
    ensures
        match bvh_hit_spec(n, r, itv) {
            Some(h) => itv.min <= h.t <= itv.max,
            None => true,
        },
    decreases n,
{
    crate::aabb::lemma_slab_within(bvh_bbox(n)@, r, itv);
    match slab_spec(bvh_bbox(n)@, r, itv) {
        None => {},
        Some(bi) => match n {
            BVHNode::Leaf { object, .. } => {
                lemma_wo_hit_props(*object, r, bi);
            },
            BVHNode::Branch { left, right, .. } => {
                lemma_wo_hit_props(*left, r, bi);
                let left_hit = wo_hit_spec(*left, r, bi);
                let right_itv = match left_hit {
                    Some(lh) => IvlI { min: bi.min, max: lh.t },
                    None => bi,
                };
                lemma_wo_hit_props(*right, r, right_itv);
            },
        },
    }
}

/// Soundness of a primitive's traversal: every reported hit is the hit
/// some elementary primitive below it reports over a sub-range of the
/// query. The converse (no hit is missed) rests on the slab test being
/// conservative over the rounded arithmetic and is not stated here.
pub proof fn lemma_wo_hit_sound(o: WorldObject, r: Ray, itv: IvlI)
    ensures
        match wo_hit_spec(o, r, itv) {
            Some(h) => exists|i: int, sub: IvlI|
                0 <= i < wo_prims(o).len() && itv.min <= sub.min && sub.max <= itv.max
                    && #[trigger] wo_hit_spec(wo_prims(o)[i], r, sub) == Some(h),
            None => true,
        },
    decreases o,
{
    match o {
        WorldObject::BVHNode(n) => {
            lemma_bvh_hit_sound(n, r, itv);
        },
        WorldObject::Mesh(m) => {
            lemma_bvh_hit_sound(m.node, r, itv);
        },
        _ => {
            if wo_hit_spec(o, r, itv) is Some {
                assert(wo_prims(o)[0] == o);
                assert(wo_hit_spec(wo_prims(o)[0], r, itv) == wo_hit_spec(o, r, itv));
            }
        },
    }
}

/// Soundness of a node's traversal: every reported hit is the hit some
/// elementary primitive of the subtree reports over a sub-range of the
/// query.
pub proof fn lemma_bvh_hit_sound(n: BVHNode, r: Ray, itv: IvlI)
    ensures
        match bvh_hit_spec(n, r, itv) {
            Some(h) => exists|i: int, sub: IvlI|
                0 <= i < bvh_prims(n).len() && itv.min <= sub.min && sub.max <= itv.max
                    && #[trigger] wo_hit_spec(bvh_prims(n)[i], r, sub) == Some(h),
            None => true,
        },
    decreases n,
{
    crate::aabb::lemma_slab_within(bvh_bbox(n)@, r, itv);
    match slab_spec(bvh_bbox(n)@, r, itv) {
        None => {},
        Some(bi) => match n {
            BVHNode::Leaf { object, .. } => {
                lemma_wo_hit_sound(*object, r, bi);
                if wo_hit_spec(*object, r, bi) is Some {
                    let h = wo_hit_spec(*object, r, bi)->Some_0;
                    let (i, sub) = choose|i: int, sub: IvlI|
                        0 <= i < wo_prims(*object).len() && bi.min <= sub.min && sub.max <= bi.max
                            && #[trigger] wo_hit_spec(wo_prims(*object)[i], r, sub) == Some(h);
                    assert(bvh_prims(n)[i] == wo_prims(*object)[i]);
                    assert(wo_hit_spec(bvh_prims(n)[i], r, sub) == Some(h));
                }
            },
            BVHNode::Branch { left, right, .. } => {
                lemma_wo_hit_sound(*left, r, bi);
                lemma_wo_hit_props(*left, r, bi);
                let left_hit = wo_hit_spec(*left, r, bi);
                let right_itv = match left_hit {
                    Some(lh) => IvlI { min: bi.min, max: lh.t },
                    None => bi,
                };
                lemma_wo_hit_sound(*right, r, right_itv);
                let right_hit = wo_hit_spec(*right, r, right_itv);
                let ln = wo_prims(*left).len() as int;
                if right_hit is Some {
                    let h = right_hit->Some_0;
                    let (i, sub) = choose|i: int, sub: IvlI|
                        0 <= i < wo_prims(*right).len() && right_itv.min <= sub.min && sub.max
                            <= right_itv.max && #[trigger] wo_hit_spec(wo_prims(*right)[i], r, sub)
                            == Some(h);
                    assert(bvh_prims(n)[ln + i] == wo_prims(*right)[i]);
                    assert(wo_hit_spec(bvh_prims(n)[ln + i], r, sub) == Some(h));
                } else if left_hit is Some {
                    let h = left_hit->Some_0;
                    let (i, sub) = choose|i: int, sub: IvlI|
                        0 <= i < wo_prims(*left).len() && bi.min <= sub.min && sub.max <= bi.max
                            && #[trigger] wo_hit_spec(wo_prims(*left)[i], r, sub) == Some(h);
                    assert(bvh_prims(n)[i] == wo_prims(*left)[i]);
                    assert(wo_hit_spec(bvh_prims(n)[i], r, sub) == Some(h));
                }
            },
        },
    }
}

/// A well-formed primitive stores a genuine, bounded, sized box.
pub proof fn lemma_wo_bbox_ok(o: WorldObject)
    requires
        wo_wf(o),
    ensures
        aabb_wf(wo_bbox_spec(o)@),
        aabb_in(wo_bbox_spec(o)@, FX_BOX_LIMIT as int),
        aabb_sized(wo_bbox_spec(o)@),
{
    match o {
        WorldObject::BVHNode(n) => {
            assert(bvh_wf(n));
            lemma_bvh_bbox_ok(n);
        },
        WorldObject::Sphere(s) => {},
        WorldObject::Quad(q) => {},
        WorldObject::Mesh(m) => {
            assert(mesh_wf(m));
            assert(bvh_wf(m.node));
            lemma_bvh_bbox_ok(m.node);
        },
    }
}

/// A well-formed node stores a genuine, bounded, sized box.
pub proof fn lemma_bvh_bbox_ok(n: BVHNode)
    requires
        bvh_wf(n),
    ensures
        aabb_wf(bvh_bbox(n)@),
        aabb_in(bvh_bbox(n)@, FX_BOX_LIMIT as int),
        aabb_sized(bvh_bbox(n)@),
{
    match n {
        BVHNode::Leaf { object, bounding_box } => {},
        BVHNode::Branch { left, right, bounding_box } => {},
    }
}

} // verus!
