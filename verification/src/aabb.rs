//! Axis-aligned bounding boxes: one interval per axis, interval union, and
//! the ray/slab intersection test.

use vstd::prelude::*;

verus! {

use crate::fx::{
    Fx, FX_ONE, FX_HUGE, FX_ARG_LIMIT, fx_div, div_fx, lemma_tdiv_any_bound, abs_i, tdiv,
    lemma_tdiv_exact, lemma_tdiv_ordered,
};
use crate::ray::{Interval, IvlI, Ray, ray_wf, ivl_wf, ivl_union, ivl_expand};
use crate::vec::{Vec3i, vaxis};

/// Minimum thickness of a constructed box along each axis (about 1.2e-4).
pub const FX_BOX_EPS: i128 = 8;

/// Magnitude bound on the endpoints of every constructed, nonempty box.
pub const FX_BOX_LIMIT: i128 = 68719476744;

#[derive(Clone, Copy, Debug, PartialEq, Eq, Structural)]
pub struct AABB {
    pub x: Interval,
    pub y: Interval,
    pub z: Interval,
}

/// The mathematical value of a box: its three axis intervals.
pub ghost struct Aabb3i {
    pub x: IvlI,
    pub y: IvlI,
    pub z: IvlI,
}

impl View for AABB {
    type V = Aabb3i;

    open spec fn view(&self) -> Aabb3i {
        Aabb3i { x: self.x@, y: self.y@, z: self.z@ }
    }
}

pub open spec fn aabb_axis(b: Aabb3i, axis: int) -> IvlI {
    if axis == 0 {
        b.x
    } else if axis == 1 {
        b.y
    } else {
        b.z
    }
}

/// Endpoints of all three axis intervals lie in the sentinel range.
pub open spec fn aabb_wf(b: Aabb3i) -> bool {
    ivl_wf(b.x) && ivl_wf(b.y) && ivl_wf(b.z)
}

/// Endpoints of all three axis intervals lie within `[-bound, bound]`.
pub open spec fn aabb_in(b: Aabb3i, bound: int) -> bool {
    &&& -bound <= b.x.min <= bound && -bound <= b.x.max <= bound
    &&& -bound <= b.y.min <= bound && -bound <= b.y.max <= bound
    &&& -bound <= b.z.min <= bound && -bound <= b.z.max <= bound
}

/// The box value with the given mathematical endpoints.
pub open spec fn aabb_from_view(b: Aabb3i) -> AABB {
    AABB {
        x: Interval { min: b.x.min as i128, max: b.x.max as i128 },
        y: Interval { min: b.y.min as i128, max: b.y.max as i128 },
        z: Interval { min: b.z.min as i128, max: b.z.max as i128 },
    }
}

/// Every axis is at least the epsilon threshold thick.
pub open spec fn aabb_sized(b: Aabb3i) -> bool {
    &&& b.x.max - b.x.min >= FX_BOX_EPS as int
    &&& b.y.max - b.y.min >= FX_BOX_EPS as int
    &&& b.z.max - b.z.min >= FX_BOX_EPS as int
}

/// An axis thinner than the epsilon threshold is symmetrically expanded.
pub open spec fn ivl_pad(i: IvlI) -> IvlI {
    if i.max - i.min < FX_BOX_EPS as int {
        ivl_expand(i, FX_BOX_EPS as int)
    } else {
        i
    }
}

pub open spec fn aabb_new_spec(x: IvlI, y: IvlI, z: IvlI) -> Aabb3i {
    Aabb3i { x: ivl_pad(x), y: ivl_pad(y), z: ivl_pad(z) }
}

pub open spec fn minmax_ivl(a: int, b: int) -> IvlI {
    if a <= b {
        IvlI { min: a, max: b }
    } else {
        IvlI { min: b, max: a }
    }
}

/// The minimal padded box containing two corner points.
pub open spec fn from_points_spec(a: Vec3i, b: Vec3i) -> Aabb3i {
    aabb_new_spec(minmax_ivl(a.x, b.x), minmax_ivl(a.y, b.y), minmax_ivl(a.z, b.z))
}

/// The padded per-axis union of two boxes.
pub open spec fn from_boxes_spec(a: Aabb3i, b: Aabb3i) -> Aabb3i {
    aabb_new_spec(ivl_union(a.x, b.x), ivl_union(a.y, b.y), ivl_union(a.z, b.z))
}

/// The per-axis unions of two boxes stay clear of the sentinel range and are
/// nonempty, so padding is well defined.
pub open spec fn aabb_union_ok(a: Aabb3i, b: Aabb3i) -> bool {
    &&& ivl_in_pad_range(ivl_union(a.x, b.x))
    &&& ivl_in_pad_range(ivl_union(a.y, b.y))
    &&& ivl_in_pad_range(ivl_union(a.z, b.z))
    &&& ivl_union(a.x, b.x).max - ivl_union(a.x, b.x).min >= 0
    &&& ivl_union(a.y, b.y).max - ivl_union(a.y, b.y).min >= 0
    &&& ivl_union(a.z, b.z).max - ivl_union(a.z, b.z).min >= 0
}

pub open spec fn ivl_in_pad_range(i: IvlI) -> bool {
    &&& -(FX_HUGE as int) + FX_ONE as int <= i.min <= FX_HUGE as int - FX_ONE as int
    &&& -(FX_HUGE as int) + FX_ONE as int <= i.max <= FX_HUGE as int - FX_ONE as int
}

/// One axis of the slab test: narrows the running parameter range by the
/// entry and exit parameters of this slab, or reports a miss. A zero
/// direction component passes if and only if the origin lies within the
/// closed slab.
pub open spec fn slab_narrow(i: IvlI, o: int, d: int, tmin: int, tmax: int) -> Option<(int, int)> {
    if d == 0 {
        if o < i.min || i.max < o || tmin >= tmax {
            None
        } else {
            Some((tmin, tmax))
        }
    } else {
        let t0 = fx_div(i.min - o, d);
        let t1 = fx_div(i.max - o, d);
        let lo = if t0 <= t1 {
            t0
        } else {
            t1
        };
        let hi = if t0 >= t1 {
            t0
        } else {
            t1
        };
        let nmin = if lo > tmin {
            lo
        } else {
            tmin
        };
        let nmax = if hi < tmax {
            hi
        } else {
            tmax
        };
        if nmin >= nmax {
            None
        } else {
            Some((nmin, nmax))
        }
    }
}

/// The slab test over all three axes, in axis order.
pub open spec fn slab_spec(b: Aabb3i, r: Ray, itv: IvlI) -> Option<IvlI> {
    match slab_narrow(b.x, r.origin@.x, r.direction@.x, itv.min, itv.max) {
        None => None,
        Some((m0, x0)) => match slab_narrow(b.y, r.origin@.y, r.direction@.y, m0, x0) {
            None => None,
            Some((m1, x1)) => match slab_narrow(b.z, r.origin@.z, r.direction@.z, m1, x1) {
                None => None,
                Some((m2, x2)) => Some(IvlI { min: m2, max: x2 }),
            },
        },
    }
}

/// Which axis the box is widest along, with the fixed tie-break: x wins over
/// y only strictly, and z wins every remaining tie.
pub open spec fn longest_axis_spec(b: Aabb3i) -> int {
    if b.x.max - b.x.min > b.y.max - b.y.min {
        if b.x.max - b.x.min > b.z.max - b.z.min {
            0
        } else {
            2
        }
    } else {
        if b.y.max - b.y.min > b.z.max - b.z.min {
            1
        } else {
            2
        }
    }
}

/// One exec axis-narrowing step of the slab test.
fn narrow_axis(i: Interval, o: Fx, d: Fx, tmin: Fx, tmax: Fx) -> (r: Option<(Fx, Fx)>)
    requires
        ivl_wf(i@),
        -crate::vec::FX_DIR_LIMIT <= o <= crate::vec::FX_DIR_LIMIT,
        -crate::vec::FX_DIR_LIMIT <= d <= crate::vec::FX_DIR_LIMIT,
        -4 * FX_ARG_LIMIT <= tmin <= 4 * FX_ARG_LIMIT,
        -4 * FX_ARG_LIMIT <= tmax <= 4 * FX_ARG_LIMIT,
    ensures
        match r {
            Some(p) => Some((p.0 as int, p.1 as int)) == slab_narrow(
                i@,
                o as int,
                d as int,
                tmin as int,
                tmax as int,
            ) && -4 * FX_ARG_LIMIT <= p.0 <= 4 * FX_ARG_LIMIT && -4 * FX_ARG_LIMIT <= p.1 <= 4
                * FX_ARG_LIMIT,
            None => slab_narrow(i@, o as int, d as int, tmin as int, tmax as int) is None,
        },
{
    if d == 0 {
        if o < i.min || i.max < o || tmin >= tmax {
            None
        } else {
            Some((tmin, tmax))
        }
    } else {
        let t0 = div_fx(i.min - o, d);
        let t1 = div_fx(i.max - o, d);
        proof {
            lemma_tdiv_any_bound(
                (i@.min - o) * 65536,
                d as int,
                (FX_HUGE as int + crate::vec::FX_DIR_LIMIT as int) * 65536,
            );
            lemma_tdiv_any_bound(
                (i@.max - o) * 65536,
                d as int,
                (FX_HUGE as int + crate::vec::FX_DIR_LIMIT as int) * 65536,
            );
        }
        let lo = if t0 <= t1 {
            t0
        } else {
            t1
        };
        let hi = if t0 >= t1 {
            t0
        } else {
            t1
        };
        let nmin = if lo > tmin {
            lo
        } else {
            tmin
        };
        let nmax = if hi < tmax {
            hi
        } else {
            tmax
        };
        if nmin >= nmax {
            None
        } else {
            Some((nmin, nmax))
        }
    }
}

/// The empty box's value: every axis is the reversed sentinel interval.
pub open spec fn aabb_empty_spec() -> Aabb3i {
    Aabb3i {
        x: IvlI { min: FX_HUGE as int, max: -(FX_HUGE as int) },
        y: IvlI { min: FX_HUGE as int, max: -(FX_HUGE as int) },
        z: IvlI { min: FX_HUGE as int, max: -(FX_HUGE as int) },
    }
}

impl AABB {
    /// The empty box: every axis is the reversed sentinel interval, the
    /// identity of interval union.
    pub fn empty() -> (r: AABB)
        ensures
            r@ == aabb_empty_spec(),
            aabb_wf(r@),
    {
        let empty = Interval::new(FX_HUGE, -FX_HUGE);
        AABB { x: empty, y: empty, z: empty }
    }

    /// Applies the thin-axis padding invariant.
    fn new(x: Interval, y: Interval, z: Interval) -> (r: AABB)
        requires
            ivl_in_pad_range(x@),
            ivl_in_pad_range(y@),
            ivl_in_pad_range(z@),
        ensures
            r@ == aabb_new_spec(x@, y@, z@),
            aabb_wf(r@),
            x@.max - x@.min >= 0 && y@.max - y@.min >= 0 && z@.max - z@.min >= 0 ==> aabb_sized(
                r@,
            ),
    {
        proof {
            if x@.max - x@.min >= 0 {
                lemma_pad_sized(x@);
            }
            if y@.max - y@.min >= 0 {
                lemma_pad_sized(y@);
            }
            if z@.max - z@.min >= 0 {
                lemma_pad_sized(z@);
            }
        }
        let delta = FX_BOX_EPS;
        AABB {
            x: if x.size() < delta {
                x.expand(delta)
            } else {
                x
            },
            y: if y.size() < delta {
                y.expand(delta)
            } else {
                y
            },
            z: if z.size() < delta {
                z.expand(delta)
            } else {
                z
            },
        }
    }

    /// The padded per-axis union of two boxes.
    pub fn from_bounding_boxes(a: AABB, b: AABB) -> (r: AABB)
        requires
            aabb_wf(a@),
            aabb_wf(b@),
            aabb_union_ok(a@, b@),
        ensures
            r@ == from_boxes_spec(a@, b@),
            aabb_wf(r@),
            aabb_sized(r@),
            aabb_in(a@, FX_BOX_LIMIT as int) && aabb_in(b@, FX_BOX_LIMIT as int) && aabb_sized(a@)
                && aabb_sized(b@) ==> aabb_in(r@, FX_BOX_LIMIT as int),
            aabb_in(b@, FX_BOX_LIMIT as int) && aabb_sized(b@) && a@ == aabb_empty_spec()
                ==> aabb_in(r@, FX_BOX_LIMIT as int),
    {
        let x = Interval::from_intervals(a.x, b.x);
        let y = Interval::from_intervals(a.y, b.y);
        let z = Interval::from_intervals(a.z, b.z);
        Self::new(x, y, z)
    }

    /// The minimal padded box containing two corner points.
    pub fn from_points(a: crate::vec::Vector3, b: crate::vec::Vector3) -> (r: AABB)
        requires
            crate::vec::vec_in(a@, crate::fx::FX_POINT_LIMIT as int),
            crate::vec::vec_in(b@, crate::fx::FX_POINT_LIMIT as int),
        ensures
            r@ == from_points_spec(a@, b@),
            aabb_wf(r@),
            aabb_sized(r@),
            aabb_in(r@, FX_BOX_LIMIT as int),
    {
        let x = if a.x() <= b.x() {
            Interval::new(a.x(), b.x())
        } else {
            Interval::new(b.x(), a.x())
        };
        let y = if a.y() <= b.y() {
            Interval::new(a.y(), b.y())
        } else {
            Interval::new(b.y(), a.y())
        };
        let z = if a.z() <= b.z() {
            Interval::new(a.z(), b.z())
        } else {
            Interval::new(b.z(), a.z())
        };
        Self::new(x, y, z)
    }

    pub fn axis_interval(&self, axis: i32) -> (r: Interval)
        requires
            0 <= axis <= 2,
        ensures
            r@ == aabb_axis(self@, axis as int),
    {
        if axis == 0 {
            self.x
        } else if axis == 1 {
            self.y
        } else {
            self.z
        }
    }

    /// The slab test: narrows the queried parameter range axis by axis and
    /// reports the surviving range, or a miss.
    pub fn hit(&self, ray: &Ray, ray_t: &Interval) -> (r: Option<Interval>)
        requires
            aabb_wf(self@),
            ray_wf(*ray),
            ivl_wf(ray_t@),
        ensures
            match r {
                Some(i) => Some(i@) == slab_spec(self@, *ray, ray_t@) && ivl_wf(i@)
                    && ray_t@.min <= i@.min && i@.max <= ray_t@.max && i@.min < i@.max,
                None => slab_spec(self@, *ray, ray_t@) is None,
            },
    {
        let step_x = narrow_axis(self.x, ray.origin.x, ray.direction.x, ray_t.min, ray_t.max);
        match step_x {
            None => None,
            Some((m0, x0)) => {
                let step_y = narrow_axis(self.y, ray.origin.y, ray.direction.y, m0, x0);
                match step_y {
                    None => None,
                    Some((m1, x1)) => {
                        let step_z = narrow_axis(self.z, ray.origin.z, ray.direction.z, m1, x1);
                        match step_z {
                            None => None,
                            Some((m2, x2)) => {
                                proof {
                                    lemma_slab_result_wf(self@, *ray, ray_t@);
                                }
                                Some(Interval { min: m2, max: x2 })
                            },
                        }
                    },
                }
            },
        }
    }

    /// The widest axis, with the deterministic tie-break.
    pub fn longest_axis(&self) -> (r: i32)
        requires
            aabb_wf(self@),
        ensures
            r == longest_axis_spec(self@),
            0 <= r <= 2,
    {
        if self.x.size() > self.y.size() {
            if self.x.size() > self.z.size() {
                0
            } else {
                2
            }
        } else {
            if self.y.size() > self.z.size() {
                1
            } else {
                2
            }
        }
    }
}

/// Padding a nonempty interval leaves it at least the threshold thick.
proof fn lemma_pad_sized(i: IvlI)
    requires
        i.max - i.min >= 0,
    ensures
        ivl_pad(i).max - ivl_pad(i).min >= FX_BOX_EPS as int,
{
    assert(FX_BOX_EPS as int == 8);
    assert(abs_i(8) == 8);
    assert(abs_i(2) == 2);
    assert(8int / 2int == 4);
    assert(tdiv(8, 2) == 4);
}

/// A surviving slab range lies within the queried range, hence within the
/// sentinel bounds.
proof fn lemma_slab_result_wf(b: Aabb3i, r: Ray, itv: IvlI)
    requires
        ivl_wf(itv),
    ensures
        match slab_spec(b, r, itv) {
            Some(i) => ivl_wf(i) && itv.min <= i.min && i.max <= itv.max && i.min < i.max,
            None => true,
        },
{
}

/// A surviving slab range is a nonempty sub-range of the queried range.
pub proof fn lemma_slab_within(b: Aabb3i, r: Ray, itv: IvlI)
    ensures
        match slab_spec(b, r, itv) {
            Some(i) => itv.min <= i.min && i.max <= itv.max && i.min < i.max,
            None => true,
        },
{
}

/// The truncated midpoint of a sufficiently thick interval lies inside it.
proof fn lemma_center_inside(lo: int, hi: int)
    requires
        lo + 2 <= hi,
    ensures
        lo <= tdiv(lo + hi, 2) <= hi,
{
    lemma_tdiv_exact(lo, 2);
    lemma_tdiv_exact(hi, 2);
    lemma_tdiv_ordered(lo * 2, lo + hi, 2);
    lemma_tdiv_ordered(lo + hi, hi * 2, 2);
}

/// A ray fired along one axis through the exact center of a sized box,
/// from outside below the slab, passes the slab test with a nonempty
/// surviving range.
pub proof fn lemma_slab_center_hit(b: Aabb3i, r: Ray, itv: IvlI, axis: int)
    requires
        aabb_sized(b),
        aabb_in(b, FX_BOX_LIMIT as int),
        0 <= axis <= 2,
        vaxis(r.direction@, axis) == FX_ONE as int,
        axis != 0 ==> vaxis(r.direction@, 0) == 0 && vaxis(r.origin@, 0) == tdiv(
            b.x.min + b.x.max,
            2,
        ),
        axis != 1 ==> vaxis(r.direction@, 1) == 0 && vaxis(r.origin@, 1) == tdiv(
            b.y.min + b.y.max,
            2,
        ),
        axis != 2 ==> vaxis(r.direction@, 2) == 0 && vaxis(r.origin@, 2) == tdiv(
            b.z.min + b.z.max,
            2,
        ),
        -(FX_BOX_LIMIT as int) <= vaxis(r.origin@, axis) < aabb_axis(b, axis).min,
        itv.min == 0,
        itv.max == FX_HUGE as int,
    ensures
        slab_spec(b, r, itv) is Some,
        slab_spec(b, r, itv)->Some_0.min < slab_spec(b, r, itv)->Some_0.max,
{
    let i = aabb_axis(b, axis);
    let o = vaxis(r.origin@, axis);
    lemma_tdiv_exact(i.min - o, FX_ONE as int);
    lemma_tdiv_exact(i.max - o, FX_ONE as int);
    assert(fx_div(i.min - o, FX_ONE as int) == i.min - o);
    assert(fx_div(i.max - o, FX_ONE as int) == i.max - o);
    if axis != 0 {
        lemma_center_inside(b.x.min, b.x.max);
    }
    if axis != 1 {
        lemma_center_inside(b.y.min, b.y.max);
    }
    if axis != 2 {
        lemma_center_inside(b.z.min, b.z.max);
    }
    lemma_slab_within(b, r, itv);
}

/// A ray whose direction vanishes along some axis and whose origin lies
/// outside that closed slab misses the box entirely.
pub proof fn lemma_slab_parallel_miss(b: Aabb3i, r: Ray, itv: IvlI, axis: int)
    requires
        0 <= axis <= 2,
        vaxis(r.direction@, axis) == 0,
        vaxis(r.origin@, axis) < aabb_axis(b, axis).min || aabb_axis(b, axis).max < vaxis(
            r.origin@,
            axis,
        ),
    ensures
        slab_spec(b, r, itv) is None,
{
}

/// Exchanging the two corner points gives the same box.
pub proof fn lemma_from_points_symmetric(a: Vec3i, b: Vec3i)
    ensures
        from_points_spec(a, b) == from_points_spec(b, a),
{
}

/// The union of a sized box with itself is itself.
pub proof fn lemma_union_self(b: Aabb3i)
    requires
        aabb_sized(b),
    ensures
        from_boxes_spec(b, b) == b,
{
}

} // verus!
