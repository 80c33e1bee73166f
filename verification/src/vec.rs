//! Three-component vectors over fixed-point scalars.
//!
//! One value type serves for points, directions, colors and normals. The
//! ghost view `Vec3i` carries the components as unbounded integers, and every
//! operation's contract states the exact resulting components.

use vstd::prelude::*;

verus! {

use crate::fx::{
    Fx, FX_ONE, FX_HALF, FX_PRODUCT_LIMIT, FX_ARG_LIMIT, fx_mul, fx_div, fx_sqrt, tdiv, abs_i,
    mul_fx, div_fx, sqrt_fx, lemma_abs_mul, lemma_tdiv_bound, lemma_tdiv_any_bound,
    lemma_fx_square_nonneg, lemma_sqrt_floor_at_least, lemma_sqrt_floor_props,
};

/// Magnitude bound on the factors fed to component products (2^62).
pub const FX_FACTOR_LIMIT: i128 = 4611686018427387904;

/// Magnitude bound on the components of a guarded unit vector: 4.0.
pub const FX_UNIT_LIMIT: i128 = 262144;

/// Below this magnitude a component counts as zero (the smallest
/// representable fixed-point step).
pub const FX_NEAR_EPS: i128 = 1;

#[derive(Clone, Copy, Debug, PartialEq, Eq, Structural)]
pub struct Vector3 {
    pub x: Fx,
    pub y: Fx,
    pub z: Fx,
}

/// The mathematical value of a vector: its raw components as integers.
pub ghost struct Vec3i {
    pub x: int,
    pub y: int,
    pub z: int,
}

impl View for Vector3 {
    type V = Vec3i;

    open spec fn view(&self) -> Vec3i {
        Vec3i { x: self.x as int, y: self.y as int, z: self.z as int }
    }
}

/// The vector value with the given mathematical components.
pub open spec fn vec_of(v: Vec3i) -> Vector3 {
    Vector3 { x: v.x as i128, y: v.y as i128, z: v.z as i128 }
}

/// All three components lie within `[-b, b]`.
pub open spec fn vec_in(v: Vec3i, b: int) -> bool {
    &&& -b <= v.x <= b
    &&& -b <= v.y <= b
    &&& -b <= v.z <= b
}

pub open spec fn vadd(u: Vec3i, v: Vec3i) -> Vec3i {
    Vec3i { x: u.x + v.x, y: u.y + v.y, z: u.z + v.z }
}

pub open spec fn vsub(u: Vec3i, v: Vec3i) -> Vec3i {
    Vec3i { x: u.x - v.x, y: u.y - v.y, z: u.z - v.z }
}

pub open spec fn vneg(v: Vec3i) -> Vec3i {
    Vec3i { x: -v.x, y: -v.y, z: -v.z }
}

/// Component-wise fixed-point product.
pub open spec fn vmulv(u: Vec3i, v: Vec3i) -> Vec3i {
    Vec3i { x: fx_mul(u.x, v.x), y: fx_mul(u.y, v.y), z: fx_mul(u.z, v.z) }
}

/// Scaling by a fixed-point scalar.
pub open spec fn vscale(v: Vec3i, t: int) -> Vec3i {
    Vec3i { x: fx_mul(v.x, t), y: fx_mul(v.y, t), z: fx_mul(v.z, t) }
}

/// Component-wise fixed-point division by a scalar.
pub open spec fn vdivs(v: Vec3i, t: int) -> Vec3i {
    Vec3i { x: fx_div(v.x, t), y: fx_div(v.y, t), z: fx_div(v.z, t) }
}

pub open spec fn dot_spec(u: Vec3i, v: Vec3i) -> int {
    fx_mul(u.x, v.x) + fx_mul(u.y, v.y) + fx_mul(u.z, v.z)
}

pub open spec fn cross_spec(u: Vec3i, v: Vec3i) -> Vec3i {
    Vec3i {
        x: fx_mul(u.y, v.z) - fx_mul(u.z, v.y),
        y: fx_mul(u.z, v.x) - fx_mul(u.x, v.z),
        z: fx_mul(u.x, v.y) - fx_mul(u.y, v.x),
    }
}

/// The fixed-point length of a vector.
pub open spec fn vlen_spec(v: Vec3i) -> int {
    fx_sqrt(dot_spec(v, v))
}

/// The normalized vector, as component divisions by the length.
pub open spec fn vunit_spec(v: Vec3i) -> Vec3i {
    vdivs(v, vlen_spec(v))
}

/// All components smaller in magnitude than the near-zero threshold.
pub open spec fn near_zero_spec(v: Vec3i) -> bool {
    abs_i(v.x) < FX_NEAR_EPS && abs_i(v.y) < FX_NEAR_EPS && abs_i(v.z) < FX_NEAR_EPS
}

/// Component selection by axis index: 0 is x, 1 is y, 2 is z.
pub open spec fn vaxis(v: Vec3i, axis: int) -> int {
    if axis == 0 {
        v.x
    } else if axis == 1 {
        v.y
    } else {
        v.z
    }
}

/// The component products of two factor-bounded vectors stay in range and
/// their fixed-point products are bounded by the rescaled factor bound.
proof fn lemma_pairwise_products(u: Vec3i, v: Vec3i)
    requires
        vec_in(u, FX_FACTOR_LIMIT as int),
        vec_in(v, FX_FACTOR_LIMIT as int),
    ensures
        forall|a: int, b: int|
            -(FX_FACTOR_LIMIT as int) <= a <= FX_FACTOR_LIMIT as int && -(FX_FACTOR_LIMIT as int)
                <= b <= FX_FACTOR_LIMIT as int ==> #[trigger] (a * b) <= FX_PRODUCT_LIMIT as int
                && -(FX_PRODUCT_LIMIT as int) <= a * b && -(FX_ARG_LIMIT as int / 4) <= fx_mul(
                a,
                b,
            ) <= FX_ARG_LIMIT as int / 4,
{
    assert forall|a: int, b: int|
        -(FX_FACTOR_LIMIT as int) <= a <= FX_FACTOR_LIMIT as int && -(FX_FACTOR_LIMIT as int) <= b
            <= FX_FACTOR_LIMIT as int implies #[trigger] (a * b) <= FX_PRODUCT_LIMIT as int && -(
    FX_PRODUCT_LIMIT as int) <= a * b && -(FX_ARG_LIMIT as int / 4) <= fx_mul(a, b)
        <= FX_ARG_LIMIT as int / 4 by {
        lemma_abs_mul(a, b, FX_FACTOR_LIMIT as int, FX_FACTOR_LIMIT as int);
        lemma_tdiv_bound(a * b, 65536, (FX_FACTOR_LIMIT as int) * (FX_FACTOR_LIMIT as int));
    }
}

/// Bound propagation through scaling: each component of `vscale(v, t)` is
/// bounded by the rescaled product of the input bounds.
pub proof fn lemma_vscale_bound(v: Vec3i, t: int, bv: int, bt: int)
    requires
        0 <= bv,
        0 <= bt,
        vec_in(v, bv),
        -bt <= t <= bt,
    ensures
        vec_in(vscale(v, t), bv * bt / 65536),
{
    lemma_abs_mul(v.x, t, bv, bt);
    lemma_abs_mul(v.y, t, bv, bt);
    lemma_abs_mul(v.z, t, bv, bt);
    lemma_tdiv_bound(v.x * t, 65536, bv * bt);
    lemma_tdiv_bound(v.y * t, 65536, bv * bt);
    lemma_tdiv_bound(v.z * t, 65536, bv * bt);
}

/// Bound propagation through component division by a nonzero scalar.
pub proof fn lemma_vdivs_bound(v: Vec3i, t: int, bv: int)
    requires
        0 <= bv,
        t != 0,
        vec_in(v, bv),
    ensures
        vec_in(vdivs(v, t), bv * 65536),
{
    lemma_tdiv_any_bound(v.x * 65536, t, bv * 65536);
    lemma_tdiv_any_bound(v.y * 65536, t, bv * 65536);
    lemma_tdiv_any_bound(v.z * 65536, t, bv * 65536);
}

/// Bound propagation through component division, sharpened by a lower
/// bound on the divisor.
pub proof fn lemma_vdivs_denom_bound(v: Vec3i, t: int, bv: int, tmin: int)
    requires
        0 <= bv,
        1 <= tmin <= t,
        vec_in(v, bv),
    ensures
        vec_in(vdivs(v, t), bv * 65536 / tmin),
{
    lemma_vdivs_denom_component(v.x, t, bv, tmin);
    lemma_vdivs_denom_component(v.y, t, bv, tmin);
    lemma_vdivs_denom_component(v.z, t, bv, tmin);
}

proof fn lemma_vdivs_denom_component(c: int, t: int, bv: int, tmin: int)
    requires
        0 <= bv,
        1 <= tmin <= t,
        -bv <= c <= bv,
    ensures
        -(bv * 65536 / tmin) <= fx_div(c, t) <= bv * 65536 / tmin,
{
    crate::fx::lemma_tdiv_cancel(c * 65536, t);
    vstd::arithmetic::div_mod::lemma_div_is_ordered_by_denominator(abs_i(c * 65536), tmin, t);
    vstd::arithmetic::div_mod::lemma_div_is_ordered(abs_i(c * 65536), bv * 65536, tmin);
    vstd::arithmetic::div_mod::lemma_div_pos_is_pos(abs_i(c * 65536), t);
}

/// Bound propagation through the dot product.
pub proof fn lemma_dot_bound(u: Vec3i, v: Vec3i, bu: int, bv: int)
    requires
        0 <= bu,
        0 <= bv,
        vec_in(u, bu),
        vec_in(v, bv),
    ensures
        -(3 * (bu * bv / 65536)) <= dot_spec(u, v) <= 3 * (bu * bv / 65536),
{
    lemma_abs_mul(u.x, v.x, bu, bv);
    lemma_abs_mul(u.y, v.y, bu, bv);
    lemma_abs_mul(u.z, v.z, bu, bv);
    lemma_tdiv_bound(u.x * v.x, 65536, bu * bv);
    lemma_tdiv_bound(u.y * v.y, 65536, bu * bv);
    lemma_tdiv_bound(u.z * v.z, 65536, bu * bv);
}

/// Bound propagation through the cross product.
pub proof fn lemma_cross_bound(u: Vec3i, v: Vec3i, bu: int, bv: int)
    requires
        0 <= bu,
        0 <= bv,
        vec_in(u, bu),
        vec_in(v, bv),
    ensures
        vec_in(cross_spec(u, v), 2 * (bu * bv / 65536)),
{
    lemma_abs_mul(u.y, v.z, bu, bv);
    lemma_abs_mul(u.z, v.y, bu, bv);
    lemma_abs_mul(u.z, v.x, bu, bv);
    lemma_abs_mul(u.x, v.z, bu, bv);
    lemma_abs_mul(u.x, v.y, bu, bv);
    lemma_abs_mul(u.y, v.x, bu, bv);
    lemma_tdiv_bound(u.y * v.z, 65536, bu * bv);
    lemma_tdiv_bound(u.z * v.y, 65536, bu * bv);
    lemma_tdiv_bound(u.z * v.x, 65536, bu * bv);
    lemma_tdiv_bound(u.x * v.z, 65536, bu * bv);
    lemma_tdiv_bound(u.x * v.y, 65536, bu * bv);
    lemma_tdiv_bound(u.y * v.x, 65536, bu * bv);
}

impl Vector3 {
    /// The zero vector.
    pub fn zero() -> (r: Vector3)
        ensures
            r@ == (Vec3i { x: 0, y: 0, z: 0 }),
    {
        Vector3 { x: 0, y: 0, z: 0 }
    }

    pub fn new(x: Fx, y: Fx, z: Fx) -> (r: Vector3)
        ensures
            r@ == (Vec3i { x: x as int, y: y as int, z: z as int }),
    {
        Vector3 { x, y, z }
    }

    pub fn x(&self) -> (r: Fx)
        ensures
            r == self@.x,
    {
        self.x
    }

    pub fn y(&self) -> (r: Fx)
        ensures
            r == self@.y,
    {
        self.y
    }

    pub fn z(&self) -> (r: Fx)
        ensures
            r == self@.z,
    {
        self.z
    }

    /// The component along an axis index.
    pub fn axis(&self, axis: i32) -> (r: Fx)
        requires
            0 <= axis <= 2,
        ensures
            r == vaxis(self@, axis as int),
    {
        if axis == 0 {
            self.x
        } else if axis == 1 {
            self.y
        } else {
            self.z
        }
    }

    pub fn add(self, rhs: Vector3) -> (r: Vector3)
        requires
            vec_in(self@, FX_ARG_LIMIT as int),
            vec_in(rhs@, FX_ARG_LIMIT as int),
        ensures
            r@ == vadd(self@, rhs@),
    {
        Vector3 { x: self.x + rhs.x, y: self.y + rhs.y, z: self.z + rhs.z }
    }

    pub fn sub(self, rhs: Vector3) -> (r: Vector3)
        requires
            vec_in(self@, FX_ARG_LIMIT as int),
            vec_in(rhs@, FX_ARG_LIMIT as int),
        ensures
            r@ == vsub(self@, rhs@),
    {
        Vector3 { x: self.x - rhs.x, y: self.y - rhs.y, z: self.z - rhs.z }
    }

    pub fn neg(self) -> (r: Vector3)
        requires
            vec_in(self@, FX_PRODUCT_LIMIT as int),
        ensures
            r@ == vneg(self@),
    {
        Vector3 { x: -self.x, y: -self.y, z: -self.z }
    }

    /// Component-wise product.
    pub fn mul_v(self, rhs: Vector3) -> (r: Vector3)
        requires
            vec_in(self@, FX_FACTOR_LIMIT as int),
            vec_in(rhs@, FX_FACTOR_LIMIT as int),
        ensures
            r@ == vmulv(self@, rhs@),
    {
        proof {
            lemma_pairwise_products(self@, rhs@);
        }
        Vector3 { x: mul_fx(self.x, rhs.x), y: mul_fx(self.y, rhs.y), z: mul_fx(self.z, rhs.z) }
    }

    /// Scaling by a fixed-point scalar.
    pub fn mul_s(self, t: Fx) -> (r: Vector3)
        requires
            vec_in(self@, FX_FACTOR_LIMIT as int),
            -FX_FACTOR_LIMIT <= t <= FX_FACTOR_LIMIT,
        ensures
            r@ == vscale(self@, t as int),
    {
        proof {
            lemma_pairwise_products(self@, Vec3i { x: t as int, y: t as int, z: t as int });
        }
        Vector3 { x: mul_fx(self.x, t), y: mul_fx(self.y, t), z: mul_fx(self.z, t) }
    }

    /// Component-wise division by a fixed-point scalar.
    pub fn div_s(self, t: Fx) -> (r: Vector3)
        requires
            vec_in(self@, FX_ARG_LIMIT as int),
            t != 0,
            -FX_ARG_LIMIT <= t <= FX_ARG_LIMIT,
        ensures
            r@ == vdivs(self@, t as int),
    {
        Vector3 { x: div_fx(self.x, t), y: div_fx(self.y, t), z: div_fx(self.z, t) }
    }

    pub fn length_squared(self) -> (r: Fx)
        requires
            vec_in(self@, FX_FACTOR_LIMIT as int),
        ensures
            r == dot_spec(self@, self@),
            0 <= r <= 3 * (FX_ARG_LIMIT as int / 4),
    {
        proof {
            lemma_fx_square_nonneg(self@.x);
            lemma_fx_square_nonneg(self@.y);
            lemma_fx_square_nonneg(self@.z);
        }
        dot_product(self, self)
    }

    pub fn length(self) -> (r: Fx)
        requires
            vec_in(self@, FX_FACTOR_LIMIT as int),
        ensures
            r == vlen_spec(self@),
            0 <= r <= 9223372036854775808,
    {
        let ls = self.length_squared();
        proof {
            lemma_pairwise_products(self@, self@);
        }
        sqrt_fx(ls)
    }

    /// Range check: whether every component lies within `[-bound, bound]`.
    pub fn within(&self, bound: Fx) -> (r: bool)
        requires
            0 <= bound,
        ensures
            r == vec_in(self@, bound as int),
    {
        -bound <= self.x && self.x <= bound && -bound <= self.y && self.y <= bound && -bound
            <= self.z && self.z <= bound
    }

    /// Whether every component is below the near-zero threshold.
    pub fn near_zero(self) -> (r: bool)
        requires
            vec_in(self@, FX_PRODUCT_LIMIT as int),
        ensures
            r == near_zero_spec(self@),
    {
        let s = FX_NEAR_EPS;
        let ax = if self.x >= 0 { self.x } else { -self.x };
        let ay = if self.y >= 0 { self.y } else { -self.y };
        let az = if self.z >= 0 { self.z } else { -self.z };
        ax < s && ay < s && az < s
    }
}

pub fn dot_product(u: Vector3, v: Vector3) -> (r: Fx)
    requires
        vec_in(u@, FX_FACTOR_LIMIT as int),
        vec_in(v@, FX_FACTOR_LIMIT as int),
    ensures
        r == dot_spec(u@, v@),
        -3 * (FX_ARG_LIMIT as int / 4) <= r <= 3 * (FX_ARG_LIMIT as int / 4),
{
    proof {
        lemma_pairwise_products(u@, v@);
    }
    mul_fx(u.x, v.x) + mul_fx(u.y, v.y) + mul_fx(u.z, v.z)
}

pub fn cross_product(u: Vector3, v: Vector3) -> (r: Vector3)
    requires
        vec_in(u@, FX_FACTOR_LIMIT as int),
        vec_in(v@, FX_FACTOR_LIMIT as int),
    ensures
        r@ == cross_spec(u@, v@),
{
    proof {
        lemma_pairwise_products(u@, v@);
        lemma_pairwise_products(v@, u@);
    }
    Vector3 {
        x: mul_fx(u.y, v.z) - mul_fx(u.z, v.y),
        y: mul_fx(u.z, v.x) - mul_fx(u.x, v.z),
        z: mul_fx(u.x, v.y) - mul_fx(u.y, v.x),
    }
}

/// Normalization by component division; defined for vectors whose squared
/// length is at least one fixed-point step.
pub fn unit_vector(v: Vector3) -> (r: Vector3)
    requires
        vec_in(v@, FX_FACTOR_LIMIT as int),
        dot_spec(v@, v@) >= 1,
    ensures
        r@ == vunit_spec(v@),
        abs_i(r@.x) <= abs_i(v@.x) * 65536,
        abs_i(r@.y) <= abs_i(v@.y) * 65536,
        abs_i(r@.z) <= abs_i(v@.z) * 65536,
{
    let len = v.length();
    proof {
        lemma_sqrt_floor_at_least(dot_spec(v@, v@) * 65536, 1);
        lemma_tdiv_any_bound(v@.x * 65536, len as int, abs_i(v@.x) * 65536);
        lemma_tdiv_any_bound(v@.y * 65536, len as int, abs_i(v@.y) * 65536);
        lemma_tdiv_any_bound(v@.z * 65536, len as int, abs_i(v@.z) * 65536);
    }
    v.div_s(len)
}

/// Magnitude bound on ray origins and directions (2^37).
pub const FX_DIR_LIMIT: i128 = 137438953472;

/// Mirror reflection about a normal.
pub open spec fn reflect_spec(v: Vec3i, n: Vec3i) -> Vec3i {
    vsub(v, vscale(vscale(n, 2 * (FX_ONE as int)), dot_spec(v, n)))
}

/// Refraction by the perpendicular/parallel decomposition, with the incidence
/// cosine clamped to one.
pub open spec fn refract_spec(uv: Vec3i, n: Vec3i, etai: int) -> Vec3i {
    let d = dot_spec(vneg(uv), n);
    let cos_theta = if d > FX_ONE as int {
        FX_ONE as int
    } else {
        d
    };
    let r_perp = vscale(vadd(uv, vscale(n, cos_theta)), etai);
    let s = fx_sqrt(abs_i((FX_ONE as int) - dot_spec(r_perp, r_perp)));
    vadd(r_perp, vscale(n, -s))
}

/// Normalization with a defensive range guard: the normalized vector where
/// its components pass the unit guard, the fallback otherwise.
pub open spec fn unit_or_spec(v: Vec3i, f: Vec3i) -> Vec3i {
    if vec_in(vunit_spec(v), FX_UNIT_LIMIT as int) {
        vunit_spec(v)
    } else {
        f
    }
}

/// What a drawn unit direction can be: the normalization of some nonzero
/// point strictly inside the unit sphere, with components in range.
pub open spec fn unit_draw_ok(u: Vec3i) -> bool {
    &&& vec_in(u, 4294967296)
    &&& exists|v: Vec3i|
        (1 <= dot_spec(v, v) < FX_ONE as int && vec_in(v, FX_ONE as int)) && u == #[trigger] vunit_spec(
            v,
        )
}

/// Guarded normalization of a possibly degenerate vector: the fallback when
/// the squared length vanishes, the guarded normalization otherwise.
pub open spec fn unit_dir_spec(v: Vec3i, f: Vec3i) -> Vec3i {
    if dot_spec(v, v) < 1 {
        f
    } else {
        unit_or_spec(v, f)
    }
}

/// Normalizes a direction, falling back when it is degenerate.
pub fn unit_dir(v: Vector3, fallback: Vector3) -> (r: Vector3)
    requires
        vec_in(v@, FX_FACTOR_LIMIT as int),
        vec_in(fallback@, FX_UNIT_LIMIT as int),
    ensures
        r@ == unit_dir_spec(v@, fallback@),
        vec_in(r@, FX_UNIT_LIMIT as int),
{
    let ls = v.length_squared();
    if ls < 1 {
        fallback
    } else {
        Vector3::unit_or(v, fallback)
    }
}

impl Vector3 {
    /// Reflects a vector about a (guarded unit) normal.
    pub fn reflect(vector: Vector3, normal: Vector3) -> (r: Vector3)
        requires
            vec_in(vector@, FX_DIR_LIMIT as int),
            vec_in(normal@, FX_UNIT_LIMIT as int),
        ensures
            r@ == reflect_spec(vector@, normal@),
            vec_in(r@, 35184372088832),
    {
        let d = dot_product(vector, normal);
        proof {
            lemma_dot_bound(vector@, normal@, FX_DIR_LIMIT as int, FX_UNIT_LIMIT as int);
        }
        let n2 = normal.mul_s(2 * FX_ONE);
        proof {
            lemma_vscale_bound(normal@, 2 * (FX_ONE as int), FX_UNIT_LIMIT as int, 131072);
            lemma_vscale_bound(
                vscale(normal@, 2 * (FX_ONE as int)),
                d as int,
                524288,
                3 * ((FX_DIR_LIMIT as int) * (FX_UNIT_LIMIT as int) / 65536),
            );
        }
        vector.sub(n2.mul_s(d))
    }

    /// Refracts a (guarded unit) direction through a surface with the given
    /// relative refraction index.
    pub fn refract(uv: Vector3, normal: Vector3, etai_over_etat: Fx) -> (r: Vector3)
        requires
            vec_in(uv@, FX_UNIT_LIMIT as int),
            vec_in(normal@, FX_UNIT_LIMIT as int),
            0 < etai_over_etat <= 16777216,
        ensures
            r@ == refract_spec(uv@, normal@, etai_over_etat as int),
            vec_in(r@, FX_DIR_LIMIT as int),
    {
        let d = dot_product(uv.neg(), normal);
        proof {
            lemma_dot_bound(vneg(uv@), normal@, FX_UNIT_LIMIT as int, FX_UNIT_LIMIT as int);
        }
        let cos_theta = if d > FX_ONE {
            FX_ONE
        } else {
            d
        };
        let scaled_n = normal.mul_s(cos_theta);
        proof {
            lemma_vscale_bound(normal@, cos_theta as int, FX_UNIT_LIMIT as int, 3145728);
        }
        let r_perpendicular = (uv.add(scaled_n)).mul_s(etai_over_etat);
        proof {
            lemma_vscale_bound(
                vadd(uv@, vscale(normal@, cos_theta as int)),
                etai_over_etat as int,
                12845056,
                16777216,
            );
        }
        let ls = r_perpendicular.length_squared();
        proof {
            lemma_dot_bound(r_perpendicular@, r_perpendicular@, 3288334336, 3288334336);
        }
        let gap = FX_ONE - ls;
        let a = if gap >= 0 {
            gap
        } else {
            -gap
        };
        let s = sqrt_fx(a);
        proof {
            crate::fx::lemma_sqrt_floor_below((a as int) * 65536, 8589934592);
        }
        let r_parallel = normal.mul_s(-s);
        proof {
            lemma_vscale_bound(normal@, -(s as int), FX_UNIT_LIMIT as int, 8589934592);
        }
        r_perpendicular.add(r_parallel)
    }

    /// Normalization guarded against pathological rounding: returns the
    /// normalized vector when its components pass the unit guard, the given
    /// fallback otherwise.
    pub fn unit_or(v: Vector3, fallback: Vector3) -> (r: Vector3)
        requires
            vec_in(v@, FX_FACTOR_LIMIT as int),
            dot_spec(v@, v@) >= 1,
            vec_in(fallback@, FX_UNIT_LIMIT as int),
        ensures
            r@ == unit_or_spec(v@, fallback@),
            vec_in(r@, FX_UNIT_LIMIT as int),
    {
        let u = unit_vector(v);
        let b = FX_UNIT_LIMIT;
        if -b <= u.x && u.x <= b && -b <= u.y && u.y <= b && -b <= u.z && u.z <= b {
            u
        } else {
            fallback
        }
    }
}

impl Vector3 {
    /// A vector with each component drawn from [0, 1).
    pub fn random_unit() -> (r: Vector3)
        ensures
            0 <= r@.x < FX_ONE as int,
            0 <= r@.y < FX_ONE as int,
            0 <= r@.z < FX_ONE as int,
    {
        Vector3::new(
            crate::util::random_unit_float(),
            crate::util::random_unit_float(),
            crate::util::random_unit_float(),
        )
    }

    /// A vector with each component drawn from [min, max).
    pub fn random(min: Fx, max: Fx) -> (r: Vector3)
        requires
            -crate::fx::FX_HUGE <= min < max <= crate::fx::FX_HUGE,
        ensures
            min <= r@.x < max,
            min <= r@.y < max,
            min <= r@.z < max,
    {
        Vector3::new(
            crate::util::random_float(min, max),
            crate::util::random_float(min, max),
            crate::util::random_float(min, max),
        )
    }

    /// A nonzero point strictly inside the unit sphere, by bounded
    /// rejection sampling with a fixed fallback direction.
    pub fn random_in_unit_sphere() -> (r: Vector3)
        ensures
            1 <= dot_spec(r@, r@) < FX_ONE as int,
            vec_in(r@, FX_ONE as int),
    {
        let mut attempts: usize = 0;
        while attempts < 64
            invariant
                true,
            decreases 64 - attempts,
        {
            let point = Self::random(-FX_ONE, FX_ONE);
            let ls = point.length_squared();
            if 1 <= ls && ls < FX_ONE {
                return point;
            }
            attempts += 1;
        }
        let fallback = Vector3::new(FX_HALF, 0, 0);
        proof {
            assert(fx_mul(FX_HALF as int, FX_HALF as int) == 16384) by {
                assert(FX_HALF as int * FX_HALF as int == 1073741824int);
                assert(abs_i(1073741824) == 1073741824);
                assert(1073741824int / 65536int == 16384);
            }
            assert(fx_mul(0, 0) == 0) by {
                assert(abs_i(0) == 0);
            }
        }
        fallback
    }

    /// A unit-length direction sampled by normalizing a random point of the
    /// unit sphere.
    pub fn random_unit_vector() -> (r: Vector3)
        ensures
            unit_draw_ok(r@),
    {
        let p = Self::random_in_unit_sphere();
        let r = unit_vector(p);
        proof {
            assert(r@ == vunit_spec(p@));
        }
        r
    }

    /// A random unit direction, flipped onto the hemisphere around the
    /// normal when the draw points against it.
    pub fn random_on_hemisphere(normal: Vector3) -> (r: Vector3)
        requires
            vec_in(normal@, FX_UNIT_LIMIT as int),
        ensures
            vec_in(r@, 4294967296),
    {
        let on_unit_sphere = Self::random_unit_vector();
        if dot_product(on_unit_sphere, normal) > 0 {
            on_unit_sphere
        } else {
            on_unit_sphere.neg()
        }
    }
}

/// A point inside the unit disk in the xy plane, by bounded rejection
/// sampling with the origin-adjacent fallback.
pub fn random_in_unit_disk() -> (r: Vector3)
    ensures
        dot_spec(r@, r@) < FX_ONE as int,
        r@.z == 0,
        vec_in(r@, FX_ONE as int),
{
    let mut attempts: usize = 0;
    while attempts < 64
        invariant
            true,
        decreases 64 - attempts,
    {
        let point = Vector3::new(
            crate::util::random_float(-FX_ONE, FX_ONE),
            crate::util::random_float(-FX_ONE, FX_ONE),
            0,
        );
        let ls = point.length_squared();
        if ls < FX_ONE {
            proof {
                assert(fx_mul(0, 0) == 0) by {
                    assert(abs_i(0) == 0);
                }
            }
            return point;
        }
        attempts += 1;
    }
    let fallback = Vector3::new(FX_HALF, 0, 0);
    proof {
        assert(fx_mul(FX_HALF as int, FX_HALF as int) == 16384) by {
            assert(FX_HALF as int * FX_HALF as int == 1073741824int);
            assert(abs_i(1073741824) == 1073741824);
            assert(1073741824int / 65536int == 16384);
        }
        assert(fx_mul(0, 0) == 0) by {
            assert(abs_i(0) == 0);
        }
    }
    fallback
}

} // verus!
