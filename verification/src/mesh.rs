//! Triangle meshes: a flat triangle list wrapped in its own private
//! hierarchy, exposing the same hit contract as any other primitive.

use vstd::prelude::*;

verus! {

use crate::fx::FX_COORD_LIMIT;
use crate::vec::{Vector3, vec_in, vec_of, vsub, dot_spec, cross_spec};
use crate::ray::{Ray, ray_wf, Interval, ivl_wf, HitRecord, opt_hit_view, WorldObject};
use crate::material::{Material, material_wf};
use crate::aabb::AABB;
use crate::bvh::{BVHNode, bvh_hit_spec, bvh_wf, bvh_bbox, mesh_wf, wo_wf, build_spec};
use crate::quad::{quad_spec, QuadType};

#[derive(Debug, PartialEq, Eq)]
pub struct Mesh {
    pub node: BVHNode,
    pub bounding_box: AABB,
}

/// The quad value a triangle's corners determine.
pub open spec fn triangle_quad(t: (Vector3, Vector3, Vector3), material: Material) -> WorldObject {
    WorldObject::Quad(
        quad_spec(
            t.0,
            vec_of(vsub(t.1@, t.0@)),
            vec_of(vsub(t.2@, t.0@)),
            material,
            QuadType::Triangle,
        ),
    )
}

/// The primitive list a triangle list determines, in order.
pub open spec fn triangles_to_quads(
    ts: Seq<(Vector3, Vector3, Vector3)>,
    material: Material,
) -> Seq<WorldObject> {
    ts.map_values(|t: (Vector3, Vector3, Vector3)| triangle_quad(t, material))
}

/// A triangle given by its three corner positions.
pub open spec fn triangle_ok(a: Vector3, b: Vector3, c: Vector3) -> bool {
    &&& vec_in(a@, FX_COORD_LIMIT as int / 2)
    &&& vec_in(b@, FX_COORD_LIMIT as int / 2)
    &&& vec_in(c@, FX_COORD_LIMIT as int / 2)
    &&& dot_spec(cross_spec(vsub(b@, a@), vsub(c@, a@)), cross_spec(vsub(b@, a@), vsub(c@, a@)))
        >= 1
}

impl Mesh {
    /// Builds a mesh from a flat list of triangle corner triples, wrapping
    /// the triangles in a private hierarchy.
    pub fn from_triangles(triangles: &Vec<(Vector3, Vector3, Vector3)>, material: Material) -> (r:
        Mesh)
        requires
            triangles.len() >= 1,
            forall|i: int|
                0 <= i < triangles@.len() ==> #[trigger] triangle_ok(
                    triangles@[i].0,
                    triangles@[i].1,
                    triangles@[i].2,
                ),
            material_wf(material),
        ensures
            mesh_wf(r),
            r.node == build_spec(triangles_to_quads(triangles@, material)),
            r.bounding_box == bvh_bbox(r.node),
    {
        let mut objects: Vec<WorldObject> = Vec::new();
        let mut i: usize = 0;
        while i < triangles.len()
            invariant
                i <= triangles@.len(),
                objects@.len() == i,
                objects@ == triangles_to_quads(triangles@.take(i as int), material),
                forall|j: int| 0 <= j < i ==> wo_wf(#[trigger] objects@[j]),
                forall|j: int|
                    0 <= j < triangles@.len() ==> #[trigger] triangle_ok(
                        triangles@[j].0,
                        triangles@[j].1,
                        triangles@[j].2,
                    ),
                material_wf(material),
            decreases triangles@.len() - i,
        {
            let ghost prev = objects@;
            let (a, b, c) = triangles[i];
            proof {
                assert(triangle_ok(
                    triangles@[i as int].0,
                    triangles@[i as int].1,
                    triangles@[i as int].2,
                ));
            }
            objects.push(WorldObject::Quad(crate::quad::Quad::new_triangle(a, b, c, material)));
            proof {
                let ts = triangles@;
                assert(objects@ =~= triangles_to_quads(ts.take(i as int + 1), material)) by {
                    assert(forall|k: int|
                        0 <= k <= i as int ==> ts.take(i as int + 1)[k] == ts[k]);
                    assert(objects@.last() == triangle_quad(ts[i as int], material));
                    assert(forall|k: int| 0 <= k < i as int ==> objects@[k] == prev[k]);
                }
            }
            i += 1;
        }
        proof {
            assert(triangles@.take(triangles@.len() as int) =~= triangles@);
        }
        let node = BVHNode::new(objects);
        let bounding_box = node.bounding_box();
        Mesh { node, bounding_box }
    }

    pub fn bounding_box(&self) -> (r: AABB)
        ensures
            r == self.bounding_box,
    {
        self.bounding_box
    }

    /// Delegates to the private hierarchy over the mesh's triangles.
    pub fn hit(&self, ray: &Ray, ray_t: &Interval) -> (r: Option<HitRecord>)
        requires
            mesh_wf(*self),
            ray_wf(*ray),
            ivl_wf(ray_t@),
        ensures
            opt_hit_view(r) == bvh_hit_spec(self.node, *ray, ray_t@),
    {
        self.node.hit(ray, ray_t)
    }
}

} // verus!
