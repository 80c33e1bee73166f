//! Planar parallelograms and triangles: ray/plane intersection followed by
//! planar coordinate tests.

use vstd::prelude::*;

verus! {

use crate::fx::{
    Fx, FX_ONE, FX_HUGE, FX_COORD_LIMIT, FX_POINT_LIMIT, FX_ARG_LIMIT, fx_div, div_fx, abs_i,
    lemma_tdiv_any_bound,
};
use crate::vec::{
    Vector3, Vec3i, vec_in, vec_of, vadd, vsub, vneg, vdivs, dot_spec, cross_spec, unit_or_spec,
    FX_DIR_LIMIT, FX_UNIT_LIMIT, dot_product, cross_product, lemma_dot_bound, lemma_cross_bound,
    lemma_vdivs_bound,
};
use crate::ray::{
    Ray, ray_wf, ray_at_spec, Interval, IvlI, ivl_wf, ivl_contains, HitRecord, HitI, hiti_wf,
    opt_hit_view,
};
use crate::material::{Material, material_wf};
use crate::aabb::{AABB, Aabb3i, from_points_spec, from_boxes_spec, aabb_wf, aabb_sized};

/// Below this magnitude the plane denominator counts as parallel (the
/// smallest representable fixed-point step).
pub const FX_PARALLEL_EPS: i128 = 1;

/// Magnitude guard on the stored planar basis vector (2^48).
pub const FX_W_LIMIT: i128 = 281474976710656;

#[derive(Clone, Copy, Debug, PartialEq, Eq, Structural)]
pub enum QuadType {
    Quad,
    Triangle,
}

#[derive(Clone, Copy, Debug, PartialEq, Eq, Structural)]
pub struct Quad {
    pub q: Vector3,
    pub u: Vector3,
    pub v: Vector3,
    pub w: Vector3,
    pub normal: Vector3,
    pub d: Fx,
    pub quad_type: QuadType,
    pub material: Material,
    pub bounding_box: AABB,
}

/// The stored planar basis: the plane cross vector divided by its own
/// squared length, zeroed if the division leaves the working range.
pub open spec fn quad_w_spec(n: Vec3i) -> Vec3i {
    let cand = vdivs(n, dot_spec(n, n));
    if vec_in(cand, FX_W_LIMIT as int) {
        cand
    } else {
        Vec3i { x: 0, y: 0, z: 0 }
    }
}

/// The fallback direction handed to the normal guard.
pub open spec fn quad_fallback_spec() -> Vec3i {
    Vec3i { x: 0, y: 0, z: FX_ONE as int }
}

pub open spec fn quad_bbox_spec(q: Vec3i, u: Vec3i, v: Vec3i) -> Aabb3i {
    from_boxes_spec(
        from_points_spec(q, vadd(vadd(q, u), v)),
        from_points_spec(vadd(q, u), vadd(q, v)),
    )
}

pub open spec fn quad_wf(qd: Quad) -> bool {
    let n = cross_spec(qd.u@, qd.v@);
    &&& vec_in(qd.q@, FX_COORD_LIMIT as int)
    &&& vec_in(qd.u@, FX_COORD_LIMIT as int)
    &&& vec_in(qd.v@, FX_COORD_LIMIT as int)
    &&& dot_spec(n, n) >= 1
    &&& qd.normal@ == unit_or_spec(n, quad_fallback_spec())
    &&& vec_in(qd.normal@, FX_UNIT_LIMIT as int)
    &&& qd.w@ == quad_w_spec(n)
    &&& vec_in(qd.w@, FX_W_LIMIT as int)
    &&& qd.d == dot_spec(qd.normal@, qd.q@)
    &&& material_wf(qd.material)
    &&& qd.bounding_box@ == quad_bbox_spec(qd.q@, qd.u@, qd.v@)
    &&& aabb_wf(qd.bounding_box@)
    &&& aabb_sized(qd.bounding_box@)
    &&& crate::aabb::aabb_in(qd.bounding_box@, crate::aabb::FX_BOX_LIMIT as int)
}

/// The whole quad value determined by its corner, edges, material and
/// shape: every derived field is a function of those.
pub open spec fn quad_spec(
    q: Vector3,
    u: Vector3,
    v: Vector3,
    material: Material,
    quad_type: QuadType,
) -> Quad {
    let n = cross_spec(u@, v@);
    let normal = unit_or_spec(n, quad_fallback_spec());
    Quad {
        q,
        u,
        v,
        w: vec_of(quad_w_spec(n)),
        normal: vec_of(normal),
        d: dot_spec(normal, q@) as i128,
        quad_type,
        material,
        bounding_box: crate::aabb::aabb_from_view(quad_bbox_spec(q@, u@, v@)),
    }
}

/// The planar coordinate acceptance rule: closed unit square for a
/// parallelogram, strict open triangle for a triangle.
pub open spec fn quad_accepts(qt: QuadType, alpha: int, beta: int) -> bool {
    match qt {
        QuadType::Quad => 0 <= alpha <= FX_ONE as int && 0 <= beta <= FX_ONE as int,
        QuadType::Triangle => alpha > 0 && beta > 0 && alpha + beta < FX_ONE as int,
    }
}

/// The full intersection rule: plane hit, interval test, range guard, then
/// the planar coordinate test.
pub open spec fn quad_hit_spec(qd: Quad, r: Ray, itv: IvlI) -> Option<HitI> {
    let denominator = dot_spec(qd.normal@, r.direction@);
    if abs_i(denominator) < FX_PARALLEL_EPS as int {
        None
    } else {
        let t = fx_div(qd.d - dot_spec(qd.normal@, r.origin@), denominator);
        if !ivl_contains(itv, t) {
            None
        } else {
            let intersection = ray_at_spec(r, t);
            if !vec_in(intersection, FX_POINT_LIMIT as int) {
                None
            } else {
                let planar = vsub(intersection, qd.q@);
                let alpha = dot_spec(qd.w@, cross_spec(planar, qd.v@));
                let beta = dot_spec(qd.w@, cross_spec(qd.u@, planar));
                if !quad_accepts(qd.quad_type, alpha, beta) {
                    None
                } else {
                    let front_face = denominator < 0;
                    Some(
                        HitI {
                            point: intersection,
                            normal: if front_face {
                                qd.normal@
                            } else {
                                vneg(qd.normal@)
                            },
                            material: qd.material,
                            t,
                            front_face,
                        },
                    )
                }
            }
        }
    }
}

impl Quad {
    /// A parallelogram with origin corner `q` and edge vectors `u`, `v`.
    pub fn new_quad(q: Vector3, u: Vector3, v: Vector3, material: Material) -> (r: Quad)
        requires
            vec_in(q@, FX_COORD_LIMIT as int),
            vec_in(u@, FX_COORD_LIMIT as int),
            vec_in(v@, FX_COORD_LIMIT as int),
            dot_spec(cross_spec(u@, v@), cross_spec(u@, v@)) >= 1,
            material_wf(material),
        ensures
            quad_wf(r),
            r == quad_spec(q, u, v, material, QuadType::Quad),
            r.q == q && r.u == u && r.v == v,
            r.material == material,
            r.quad_type == QuadType::Quad,
    {
        Self::new(q, u, v, material, QuadType::Quad)
    }

    /// A triangle with corners `a`, `b`, `c`.
    pub fn new_triangle(a: Vector3, b: Vector3, c: Vector3, material: Material) -> (r: Quad)
        requires
            vec_in(a@, FX_COORD_LIMIT as int / 2),
            vec_in(b@, FX_COORD_LIMIT as int / 2),
            vec_in(c@, FX_COORD_LIMIT as int / 2),
            dot_spec(
                cross_spec(vsub(b@, a@), vsub(c@, a@)),
                cross_spec(vsub(b@, a@), vsub(c@, a@)),
            ) >= 1,
            material_wf(material),
        ensures
            quad_wf(r),
            r == quad_spec(
                a,
                vec_of(vsub(b@, a@)),
                vec_of(vsub(c@, a@)),
                material,
                QuadType::Triangle,
            ),
            r.q == a && r.u@ == vsub(b@, a@) && r.v@ == vsub(c@, a@),
            r.material == material,
            r.quad_type == QuadType::Triangle,
    {
        Self::new(a, b.sub(a), c.sub(a), material, QuadType::Triangle)
    }

    #[verifier::rlimit(100)]
    fn new(q: Vector3, u: Vector3, v: Vector3, material: Material, quad_type: QuadType) -> (r:
        Quad)
        requires
            vec_in(q@, FX_COORD_LIMIT as int),
            vec_in(u@, FX_COORD_LIMIT as int),
            vec_in(v@, FX_COORD_LIMIT as int),
            dot_spec(cross_spec(u@, v@), cross_spec(u@, v@)) >= 1,
            material_wf(material),
        ensures
            quad_wf(r),
            r == quad_spec(q, u, v, material, quad_type),
            r.q == q && r.u == u && r.v == v,
            r.material == material,
            r.quad_type == quad_type,
    {
        let n = cross_product(u, v);
        proof {
            lemma_cross_bound(u@, v@, FX_COORD_LIMIT as int, FX_COORD_LIMIT as int);
            lemma_dot_bound(
                cross_spec(u@, v@),
                cross_spec(u@, v@),
                562949953421312,
                562949953421312,
            );
        }
        let normal = Vector3::unit_or(n, Vector3::new(0, 0, FX_ONE));
        let d = dot_product(normal, q);
        let nn = dot_product(n, n);
        let w_candidate = n.div_s(nn);
        let w = if w_candidate.within(FX_W_LIMIT) {
            w_candidate
        } else {
            Vector3::zero()
        };

        let corner_sum = q.add(u).add(v);
        let bounding_box_diagonal_1 = AABB::from_points(q, corner_sum);
        let bounding_box_diagonal_2 = AABB::from_points(q.add(u), q.add(v));
        let bounding_box = AABB::from_bounding_boxes(
            bounding_box_diagonal_1,
            bounding_box_diagonal_2,
        );

        Quad { q, u, v, w, normal, d, quad_type, material, bounding_box }
    }

    pub fn material(&self) -> (r: Material)
        ensures
            r == self.material,
    {
        self.material
    }

    pub fn bounding_box(&self) -> (r: AABB)
        ensures
            r == self.bounding_box,
    {
        self.bounding_box
    }

    /// Intersects the ray with the plane, rejects near-parallel rays and
    /// parameters outside the validity interval, and accepts the point if
    /// its planar coordinates pass the shape test.
    pub fn hit(&self, ray: &Ray, ray_t: &Interval) -> (r: Option<HitRecord>)
        requires
            quad_wf(*self),
            ray_wf(*ray),
            ivl_wf(ray_t@),
        ensures
            opt_hit_view(r) == quad_hit_spec(*self, *ray, ray_t@),
            r is Some ==> hiti_wf(r->Some_0@) && ivl_contains(ray_t@, r->Some_0@.t)
                && r->Some_0@.material == self.material,
    {
        let denominator = dot_product(self.normal, ray.direction);
        proof {
            lemma_dot_bound(self.normal@, ray.direction@, FX_UNIT_LIMIT as int, FX_DIR_LIMIT as int);
            lemma_dot_bound(self.normal@, ray.origin@, FX_UNIT_LIMIT as int, FX_DIR_LIMIT as int);
            lemma_dot_bound(self.normal@, self.q@, FX_UNIT_LIMIT as int, FX_COORD_LIMIT as int);
        }

        let abs_denominator = if denominator >= 0 {
            denominator
        } else {
            -denominator
        };
        if abs_denominator < FX_PARALLEL_EPS {
            return None;
        }

        let t = div_fx(self.d - dot_product(self.normal, ray.origin), denominator);
        if !ray_t.contains(t) {
            return None;
        }

        let intersection = ray.at(t);
        if !intersection.within(FX_POINT_LIMIT) {
            return None;
        }

        let planar_intersection = intersection.sub(self.q);
        proof {
            lemma_cross_bound(
                vsub(intersection@, self.q@),
                self.v@,
                2 * (FX_POINT_LIMIT as int),
                FX_COORD_LIMIT as int,
            );
            lemma_cross_bound(
                self.u@,
                vsub(intersection@, self.q@),
                FX_COORD_LIMIT as int,
                2 * (FX_POINT_LIMIT as int),
            );
        }
        let alpha = dot_product(self.w, cross_product(planar_intersection, self.v));
        let beta = dot_product(self.w, cross_product(self.u, planar_intersection));

        let accepted = match self.quad_type {
            QuadType::Quad => {
                let unit_range = Interval::new(0, FX_ONE);
                unit_range.contains(alpha) && unit_range.contains(beta)
            },
            QuadType::Triangle => alpha > 0 && beta > 0 && alpha + beta < FX_ONE,
        };
        if !accepted {
            return None;
        }

        let front_face = denominator < 0;
        let normal: Vector3 = if front_face {
            self.normal
        } else {
            self.normal.neg()
        };

        Some(HitRecord::new(intersection, normal, self.material, t, front_face))
    }
}

} // verus!
