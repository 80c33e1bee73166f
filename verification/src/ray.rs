//! Rays, parameter intervals, and hit records.

use vstd::prelude::*;

verus! {

use crate::fx::{Fx, FX_ONE, FX_HUGE, FX_POINT_LIMIT, tdiv, half_fx};
use crate::vec::{
    Vector3, Vec3i, vec_in, vadd, vscale, vneg, dot_spec, FX_DIR_LIMIT, FX_UNIT_LIMIT,
    lemma_vscale_bound,
};
use crate::material::{Material, material_wf};

#[derive(Clone, Copy, Debug, PartialEq, Eq, Structural)]
pub struct Ray {
    pub origin: Vector3,
    pub direction: Vector3,
}

/// A ray whose origin and direction fit the tracer's working range.
pub open spec fn ray_wf(r: Ray) -> bool {
    vec_in(r.origin@, FX_DIR_LIMIT as int) && vec_in(r.direction@, FX_DIR_LIMIT as int)
}

/// The point reached after parameter `t`: origin + t * direction.
pub open spec fn ray_at_spec(r: Ray, t: int) -> Vec3i {
    vadd(r.origin@, vscale(r.direction@, t))
}

impl Ray {
    pub fn new(origin: Vector3, direction: Vector3) -> (r: Ray)
        ensures
            r.origin == origin,
            r.direction == direction,
    {
        Ray { origin, direction }
    }

    pub fn at(&self, t: Fx) -> (r: Vector3)
        requires
            ray_wf(*self),
            -FX_HUGE <= t <= FX_HUGE,
        ensures
            r@ == ray_at_spec(*self, t as int),
    {
        proof {
            lemma_vscale_bound(self.direction@, t as int, FX_DIR_LIMIT as int, FX_HUGE as int);
        }
        self.origin.add(self.direction.mul_s(t))
    }

    pub fn origin(&self) -> (r: Vector3)
        ensures
            r == self.origin,
    {
        self.origin
    }

    pub fn direction(&self) -> (r: Vector3)
        ensures
            r == self.direction,
    {
        self.direction
    }
}

#[derive(Clone, Copy, Debug, PartialEq, Eq, Structural)]
pub struct HitRecord {
    pub point: Vector3,
    pub normal: Vector3,
    pub material: Material,
    pub t: Fx,
    pub front_face: bool,
}

/// The mathematical value of a hit record.
pub ghost struct HitI {
    pub point: Vec3i,
    pub normal: Vec3i,
    pub material: Material,
    pub t: int,
    pub front_face: bool,
}

impl View for HitRecord {
    type V = HitI;

    open spec fn view(&self) -> HitI {
        HitI {
            point: self.point@,
            normal: self.normal@,
            material: self.material,
            t: self.t as int,
            front_face: self.front_face,
        }
    }
}

/// The value of an optional hit.
pub open spec fn opt_hit_view(o: Option<HitRecord>) -> Option<HitI> {
    match o {
        Some(h) => Some(h@),
        None => None,
    }
}

/// A hit value whose point, normal and material fit the working range.
pub open spec fn hiti_wf(h: HitI) -> bool {
    &&& vec_in(h.point, FX_POINT_LIMIT as int)
    &&& vec_in(h.normal, FX_UNIT_LIMIT as int)
    &&& material_wf(h.material)
    &&& -(FX_HUGE as int) <= h.t <= FX_HUGE as int
}

/// A hit record whose point, normal and material fit the working range.
pub open spec fn hit_wf(h: HitRecord) -> bool {
    &&& vec_in(h.point@, FX_POINT_LIMIT as int)
    &&& vec_in(h.normal@, FX_UNIT_LIMIT as int)
    &&& material_wf(h.material)
    &&& -FX_HUGE <= h.t <= FX_HUGE
}

impl HitRecord {
    pub fn new(point: Vector3, normal: Vector3, material: Material, t: Fx, front_face: bool) -> (r:
        HitRecord)
        ensures
            r.point == point,
            r.normal == normal,
            r.material == material,
            r.t == t,
            r.front_face == front_face,
    {
        HitRecord { point, normal, material, t, front_face }
    }

    pub fn point(&self) -> (r: Vector3)
        ensures
            r == self.point,
    {
        self.point
    }

    pub fn normal(&self) -> (r: Vector3)
        ensures
            r == self.normal,
    {
        self.normal
    }

    pub fn material(&self) -> (r: Material)
        ensures
            r == self.material,
    {
        self.material
    }

    pub fn t(&self) -> (r: Fx)
        ensures
            r == self.t,
    {
        self.t
    }

    pub fn front_face(&self) -> (r: bool)
        ensures
            r == self.front_face,
    {
        self.front_face
    }
}

/// Whether the outward normal already faces the ray, and the normal oriented
/// against the ray.
pub open spec fn face_normal_spec(r: Ray, outward: Vec3i) -> (bool, Vec3i) {
    let front = dot_spec(r.direction@, outward) < 0;
    (front, if front {
        outward
    } else {
        vneg(outward)
    })
}

/// Orients an outward normal against the incoming ray.
pub fn derive_face_normal(ray: &Ray, outward_normal: Vector3) -> (r: (bool, Vector3))
    requires
        ray_wf(*ray),
        vec_in(outward_normal@, FX_UNIT_LIMIT as int),
    ensures
        r.0 == face_normal_spec(*ray, outward_normal@).0,
        r.1@ == face_normal_spec(*ray, outward_normal@).1,
{
    let front_face = crate::vec::dot_product(ray.direction, outward_normal) < 0;
    let normal = if front_face {
        outward_normal
    } else {
        outward_normal.neg()
    };
    (front_face, normal)
}

/// A scene primitive: the closed set of shapes a ray can hit, including
/// whole sub-hierarchies and meshes.
#[derive(Debug, PartialEq, Eq)]
pub enum WorldObject {
    BVHNode(crate::bvh::BVHNode),
    Sphere(crate::sphere::Sphere),
    Quad(crate::quad::Quad),
    Mesh(crate::mesh::Mesh),
}

#[derive(Clone, Copy, Debug, PartialEq, Eq, Structural)]
pub struct Interval {
    pub min: Fx,
    pub max: Fx,
}

/// The mathematical value of an interval: its endpoints as integers.
pub ghost struct IvlI {
    pub min: int,
    pub max: int,
}

impl View for Interval {
    type V = IvlI;

    open spec fn view(&self) -> IvlI {
        IvlI { min: self.min as int, max: self.max as int }
    }
}

/// Endpoints within the sentinel range; an empty interval (min > max) is
/// legal and represents "no valid range".
pub open spec fn ivl_wf(i: IvlI) -> bool {
    &&& -(FX_HUGE as int) <= i.min <= FX_HUGE as int
    &&& -(FX_HUGE as int) <= i.max <= FX_HUGE as int
}

pub open spec fn ivl_contains(i: IvlI, value: int) -> bool {
    i.min <= value <= i.max
}

pub open spec fn ivl_surrounds(i: IvlI, value: int) -> bool {
    i.min < value < i.max
}

pub open spec fn ivl_union(a: IvlI, b: IvlI) -> IvlI {
    IvlI {
        min: if a.min <= b.min {
            a.min
        } else {
            b.min
        },
        max: if a.max >= b.max {
            a.max
        } else {
            b.max
        },
    }
}

pub open spec fn ivl_clamp(i: IvlI, value: int) -> int {
    if value < i.min {
        i.min
    } else if value > i.max {
        i.max
    } else {
        value
    }
}

/// Symmetric expansion by half the padding on each side.
pub open spec fn ivl_expand(i: IvlI, delta: int) -> IvlI {
    IvlI { min: i.min - tdiv(delta, 2), max: i.max + tdiv(delta, 2) }
}

impl Interval {
    pub fn new(min: Fx, max: Fx) -> (r: Interval)
        requires
            -FX_HUGE <= min <= FX_HUGE,
            -FX_HUGE <= max <= FX_HUGE,
        ensures
            r@ == (IvlI { min: min as int, max: max as int }),
            ivl_wf(r@),
    {
        Interval { min, max }
    }

    /// The union of two intervals.
    pub fn from_intervals(a: Interval, b: Interval) -> (r: Interval)
        requires
            ivl_wf(a@),
            ivl_wf(b@),
        ensures
            r@ == ivl_union(a@, b@),
            ivl_wf(r@),
    {
        let min = if a.min <= b.min {
            a.min
        } else {
            b.min
        };
        let max = if a.max >= b.max {
            a.max
        } else {
            b.max
        };
        Interval { min, max }
    }

    pub fn min(&self) -> (r: Fx)
        ensures
            r == self@.min,
    {
        self.min
    }

    pub fn max(&self) -> (r: Fx)
        ensures
            r == self@.max,
    {
        self.max
    }

    pub fn size(&self) -> (r: Fx)
        requires
            ivl_wf(self@),
        ensures
            r == self@.max - self@.min,
    {
        self.max - self.min
    }

    pub fn contains(&self, value: Fx) -> (r: bool)
        ensures
            r == ivl_contains(self@, value as int),
    {
        value >= self.min && value <= self.max
    }

    pub fn surrounds(&self, value: Fx) -> (r: bool)
        ensures
            r == ivl_surrounds(self@, value as int),
    {
        value > self.min && value < self.max
    }

    pub fn clamp(&self, value: Fx) -> (r: Fx)
        ensures
            r == ivl_clamp(self@, value as int),
    {
        if value < self.min {
            self.min
        } else if value > self.max {
            self.max
        } else {
            value
        }
    }

    /// Expands by half the padding on each side.
    pub fn expand(&self, delta: Fx) -> (r: Interval)
        requires
            0 <= delta <= FX_HUGE,
            -FX_HUGE + tdiv(delta as int, 2) <= self@.min <= FX_HUGE - tdiv(delta as int, 2),
            -FX_HUGE + tdiv(delta as int, 2) <= self@.max <= FX_HUGE - tdiv(delta as int, 2),
        ensures
            r@ == ivl_expand(self@, delta as int),
            ivl_wf(r@),
    {
        proof {
            crate::fx::lemma_tdiv_bound(delta as int, 2, FX_HUGE as int);
        }
        let padding = half_fx(delta);
        Interval { min: self.min - padding, max: self.max + padding }
    }
}

} // verus!
