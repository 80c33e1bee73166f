//! Spheres: closed-form ray intersection through the half-angle quadratic.

use vstd::prelude::*;

verus! {

use crate::fx::{
    Fx, FX_ONE, FX_HUGE, FX_COORD_LIMIT, FX_POINT_LIMIT, FX_ARG_LIMIT, fx_mul, fx_div, fx_sqrt,
    mul_fx, div_fx, sqrt_fx, abs_i, lemma_abs_mul, lemma_tdiv_bound, lemma_tdiv_any_bound,
    lemma_fx_square_nonneg,
};
use crate::vec::{
    Vector3, Vec3i, vec_in, vsub, vdivs, dot_spec, FX_DIR_LIMIT, FX_UNIT_LIMIT, dot_product,
    lemma_dot_bound, lemma_vdivs_bound,
};
use crate::ray::{
    Ray, ray_wf, ray_at_spec, Interval, IvlI, ivl_wf, ivl_surrounds, HitRecord, HitI, hiti_wf,
    opt_hit_view, face_normal_spec, derive_face_normal,
};
use crate::material::{Material, material_wf};
use crate::aabb::{AABB, Aabb3i, from_points_spec, aabb_wf, aabb_sized};

#[derive(Clone, Copy, Debug, PartialEq, Eq, Structural)]
pub struct Sphere {
    pub center: Vector3,
    pub radius: Fx,
    pub radius_squared: Fx,
    pub material: Material,
    pub bounding_box: AABB,
}

/// The box spanned by the two corners center - r and center + r.
pub open spec fn sphere_bbox_spec(center: Vec3i, radius: int) -> Aabb3i {
    from_points_spec(
        Vec3i { x: center.x - radius, y: center.y - radius, z: center.z - radius },
        Vec3i { x: center.x + radius, y: center.y + radius, z: center.z + radius },
    )
}

pub open spec fn sphere_wf(s: Sphere) -> bool {
    &&& vec_in(s.center@, FX_COORD_LIMIT as int)
    &&& 0 < s.radius <= FX_COORD_LIMIT
    &&& s.radius_squared == fx_mul(s.radius as int, s.radius as int)
    &&& 0 <= s.radius_squared <= 281474976710656
    &&& material_wf(s.material)
    &&& s.bounding_box@ == sphere_bbox_spec(s.center@, s.radius as int)
    &&& aabb_wf(s.bounding_box@)
    &&& aabb_sized(s.bounding_box@)
    &&& crate::aabb::aabb_in(s.bounding_box@, crate::aabb::FX_BOX_LIMIT as int)
}

/// The record reported for a root `t`, with defensive range guards on the
/// computed point and outward normal; a genuine intersection passes both.
pub open spec fn sphere_record_spec(s: Sphere, r: Ray, t: int) -> Option<HitI> {
    let point = ray_at_spec(r, t);
    if !vec_in(point, FX_POINT_LIMIT as int) {
        None
    } else {
        let outward = vdivs(vsub(point, s.center@), s.radius as int);
        if !vec_in(outward, FX_UNIT_LIMIT as int) {
            None
        } else {
            let fr = face_normal_spec(r, outward);
            Some(
                HitI {
                    point,
                    normal: fr.1,
                    material: s.material,
                    t,
                    front_face: fr.0,
                },
            )
        }
    }
}

/// The full intersection rule: the half-angle quadratic, then the nearer
/// root strictly inside the interval, then the farther one.
pub open spec fn sphere_hit_spec(s: Sphere, r: Ray, itv: IvlI) -> Option<HitI> {
    let oc = vsub(s.center@, r.origin@);
    let a = dot_spec(r.direction@, r.direction@);
    let h = dot_spec(r.direction@, oc);
    let c = dot_spec(oc, oc) - s.radius_squared;
    let disc = fx_mul(h, h) - fx_mul(a, c);
    if a <= 0 || disc < 0 {
        None
    } else {
        let sq = fx_sqrt(disc);
        let root1 = fx_div(h - sq, a);
        let root2 = fx_div(h + sq, a);
        if ivl_surrounds(itv, root1) {
            sphere_record_spec(s, r, root1)
        } else if ivl_surrounds(itv, root2) {
            sphere_record_spec(s, r, root2)
        } else {
            None
        }
    }
}

/// A ray fired from outside directly at a sphere's center yields a strictly
/// positive discriminant — two algebraic roots — and the traversal tests
/// the nearer root first: the first root never exceeds the second.
pub proof fn lemma_sphere_aimed_two_roots(s: Sphere, r: Ray)
    requires
        sphere_wf(s),
        ray_wf(r),
        r.direction@ == vsub(s.center@, r.origin@),
        dot_spec(vsub(s.center@, r.origin@), vsub(s.center@, r.origin@)) >= 2 * (FX_ONE as int),
        dot_spec(vsub(s.center@, r.origin@), vsub(s.center@, r.origin@)) - s.radius_squared >= 0,
        s.radius >= FX_ONE,
    ensures
        ({
            let oc = vsub(s.center@, r.origin@);
            let a = dot_spec(r.direction@, r.direction@);
            let h = dot_spec(r.direction@, oc);
            let c = dot_spec(oc, oc) - s.radius_squared;
            let disc = fx_mul(h, h) - fx_mul(a, c);
            a > 0 && disc > 0 && fx_div(h - fx_sqrt(disc), a) <= fx_div(h + fx_sqrt(disc), a)
        }),
{
    let oc = vsub(s.center@, r.origin@);
    let a = dot_spec(oc, oc);
    let c = a - s.radius_squared;
    let rsq = s.radius_squared as int;

    assert(rsq >= FX_ONE as int) by {
        assert(s.radius as int * s.radius as int >= 65536int * 65536) by (nonlinear_arith)
            requires
                s.radius >= 65536,
        ;
        crate::fx::lemma_tdiv_ordered(65536int * 65536, s.radius as int * s.radius as int, 65536);
        crate::fx::lemma_tdiv_exact(65536, 65536);
    }
    assert(a * rsq >= 2 * (65536int * 65536)) by (nonlinear_arith)
        requires
            a >= 2 * 65536,
            rsq >= 65536,
    ;
    assert(a * c >= 0) by (nonlinear_arith)
        requires
            a >= 0,
            c >= 0,
    ;
    assert(a * a == a * c + a * rsq) by (nonlinear_arith)
        requires
            c == a - rsq,
    ;
    let p = a * a;
    let q = a * c;
    vstd::arithmetic::div_mod::lemma_fundamental_div_mod(p, 65536);
    vstd::arithmetic::div_mod::lemma_fundamental_div_mod(q, 65536);
    vstd::arithmetic::div_mod::lemma_mod_pos_bound(p, 65536);
    vstd::arithmetic::div_mod::lemma_mod_pos_bound(q, 65536);
    assert(a * a >= 0) by (nonlinear_arith)
        requires
            a >= 0,
    ;
    assert(fx_mul(a, a) - fx_mul(a, c) > 0);
    let disc = fx_mul(a, a) - fx_mul(a, c);
    crate::fx::lemma_sqrt_floor_props(disc * 65536);
    let sq = fx_sqrt(disc);
    crate::fx::lemma_tdiv_ordered((a - sq) * 65536, (a + sq) * 65536, a);
}

impl Sphere {
    pub fn new(center: Vector3, radius: Fx, material: Material) -> (r: Sphere)
        requires
            vec_in(center@, FX_COORD_LIMIT as int),
            0 < radius <= FX_COORD_LIMIT,
            material_wf(material),
        ensures
            r.center == center,
            r.radius == radius,
            r.material == material,
            sphere_wf(r),
    {
        let radius_vector = Vector3::new(radius, radius, radius);
        let bounding_box = AABB::from_points(center.sub(radius_vector), center.add(radius_vector));
        proof {
            lemma_abs_mul(radius as int, radius as int, FX_COORD_LIMIT as int, FX_COORD_LIMIT as int);
            lemma_tdiv_bound(
                radius as int * radius as int,
                65536,
                (FX_COORD_LIMIT as int) * (FX_COORD_LIMIT as int),
            );
            lemma_fx_square_nonneg(radius as int);
        }
        Sphere {
            center,
            radius,
            radius_squared: mul_fx(radius, radius),
            material,
            bounding_box,
        }
    }

    pub fn center(&self) -> (r: Vector3)
        ensures
            r == self.center,
    {
        self.center
    }

    pub fn radius(&self) -> (r: Fx)
        ensures
            r == self.radius,
    {
        self.radius
    }

    pub fn material(&self) -> (r: Material)
        ensures
            r == self.material,
    {
        self.material
    }

    pub fn bounding_box(&self) -> (r: AABB)
        ensures
            r == self.bounding_box,
    {
        self.bounding_box
    }

    /// Reports the record of the given root when it lies strictly inside the
    /// validity interval and passes the range guards.
    fn record_for_root(&self, ray: &Ray, root: Fx) -> (r: Option<HitRecord>)
        requires
            sphere_wf(*self),
            ray_wf(*ray),
            -FX_HUGE <= root <= FX_HUGE,
        ensures
            opt_hit_view(r) == sphere_record_spec(*self, *ray, root as int),
            r is Some ==> hiti_wf(r->Some_0@) && r->Some_0@.t == root as int
                && r->Some_0@.material == self.material,
    {
        let point = ray.at(root);
        if !point.within(FX_POINT_LIMIT) {
            return None;
        }
        let outward_normal = (point.sub(self.center)).div_s(self.radius);
        if !outward_normal.within(crate::vec::FX_UNIT_LIMIT) {
            return None;
        }
        let (front_face, normal) = derive_face_normal(ray, outward_normal);
        Some(HitRecord::new(point, normal, self.material, root, front_face))
    }

    /// Solves the half-angle quadratic and reports the nearest root strictly
    /// inside the validity interval, or a miss.
    pub fn hit(&self, ray: &Ray, t: &Interval) -> (r: Option<HitRecord>)
        requires
            sphere_wf(*self),
            ray_wf(*ray),
            ivl_wf(t@),
        ensures
            opt_hit_view(r) == sphere_hit_spec(*self, *ray, t@),
            r is Some ==> hiti_wf(r->Some_0@) && ivl_surrounds(t@, r->Some_0@.t)
                && r->Some_0@.material == self.material,
    {
        let oc = self.center.sub(ray.origin);
        let a = dot_product(ray.direction, ray.direction);
        let h = dot_product(ray.direction, oc);
        proof {
            lemma_fx_square_nonneg(ray.direction@.x);
            lemma_fx_square_nonneg(ray.direction@.y);
            lemma_fx_square_nonneg(ray.direction@.z);
            lemma_dot_bound(ray.direction@, ray.direction@, FX_DIR_LIMIT as int, FX_DIR_LIMIT as int);
            lemma_dot_bound(ray.direction@, vsub(self.center@, ray.origin@), FX_DIR_LIMIT as int, 2 * (FX_DIR_LIMIT as int));
            lemma_dot_bound(vsub(self.center@, ray.origin@), vsub(self.center@, ray.origin@), 2 * (FX_DIR_LIMIT as int), 2 * (FX_DIR_LIMIT as int));
        }
        let c = dot_product(oc, oc) - self.radius_squared;
        proof {
            lemma_abs_mul(h as int, h as int, 2305843009213693952, 2305843009213693952);
            lemma_abs_mul(a as int, c as int, 2305843009213693952, 4611686018427387904);
            lemma_tdiv_bound(h as int * h as int, 65536, 2305843009213693952int * 2305843009213693952int);
            lemma_tdiv_bound(a as int * c as int, 65536, 2305843009213693952int * 4611686018427387904int);
        }
        if a <= 0 {
            return None;
        }
        let discriminant = mul_fx(h, h) - mul_fx(a, c);
        if discriminant < 0 {
            return None;
        }
        let sqrtd = sqrt_fx(discriminant);
        let root1 = div_fx(h - sqrtd, a);
        let root2 = div_fx(h + sqrtd, a);
        if t.surrounds(root1) {
            self.record_for_root(ray, root1)
        } else if t.surrounds(root2) {
            self.record_for_root(ray, root2)
        } else {
            None
        }
    }
}

} // verus!
