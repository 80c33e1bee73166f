//! Fixed-point scalar arithmetic.
//!
//! The tracer works over the reals; here a real number `r` is represented by
//! the integer `r * 65536` rounded toward zero, held in an `i128` (Q.16 binary
//! fixed point). Every operation is exact in the sense that its contract pins
//! the result as an integer function of the operands, so everything built on
//! top of these scalars is deterministic and fully specified.

use vstd::prelude::*;

verus! {

use vstd::arithmetic::div_mod::lemma_div_pos_is_pos;
use vstd::arithmetic::div_mod::lemma_div_is_ordered;
use vstd::arithmetic::div_mod::lemma_div_nonincreasing;

/// A fixed-point scalar: the represented real value is `self / 65536`.
pub type Fx = i128;

/// The fixed-point representation of 1.0.
pub const FX_ONE: i128 = 65536;

/// The fixed-point representation of 0.5.
pub const FX_HALF: i128 = 32768;

/// Magnitude bound for the raw product accepted by `mul_fx` (2^126).
pub const FX_PRODUCT_LIMIT: i128 = 85070591730234615865843651857942052864;

/// Magnitude bound on arguments accepted by `div_fx` and `sqrt_fx` (2^110).
pub const FX_ARG_LIMIT: i128 = 1298074214633706907132624082305024;

/// A magnitude beyond every ray parameter the tracer can produce (2^60);
/// plays the role of an infinite interval endpoint.
pub const FX_HUGE: i128 = 1152921504606846976;

/// Magnitude bound on scene coordinates (2^32, about 65536 in real units).
pub const FX_COORD_LIMIT: i128 = 4294967296;

/// Magnitude bound on intersection points handed out in hit records (2^36).
pub const FX_POINT_LIMIT: i128 = 68719476736;

/// Magnitude of an integer.
pub open spec fn abs_i(a: int) -> int {
    if a < 0 {
        -a
    } else {
        a
    }
}

/// Division with the quotient rounded toward zero, as the machine rounds.
pub open spec fn tdiv(a: int, b: int) -> int {
    if (a < 0) == (b < 0) {
        abs_i(a) / abs_i(b)
    } else {
        -(abs_i(a) / abs_i(b))
    }
}

/// The value of a fixed-point product.
pub open spec fn fx_mul(a: int, b: int) -> int {
    tdiv(a * b, FX_ONE as int)
}

/// The value of a fixed-point quotient.
pub open spec fn fx_div(a: int, b: int) -> int {
    tdiv(a * (FX_ONE as int), b)
}

/// Floor of the square root of a nonnegative integer.
pub open spec fn sqrt_floor(n: int) -> int
    decreases n,
{
    if n <= 0 {
        0
    } else {
        let p = sqrt_floor(n - 1);
        if (p + 1) * (p + 1) <= n {
            p + 1
        } else {
            p
        }
    }
}

/// The value of a fixed-point square root.
pub open spec fn fx_sqrt(a: int) -> int {
    sqrt_floor(a * (FX_ONE as int))
}

/// A product of magnitude-bounded factors is magnitude-bounded.
pub proof fn lemma_abs_mul(a: int, b: int, ba: int, bb: int)
    by (nonlinear_arith)
    requires
        -ba <= a <= ba,
        -bb <= b <= bb,
    ensures
        -(ba * bb) <= a * b <= ba * bb,
{
}

/// Rounding toward zero never increases the magnitude, and dividing a
/// magnitude-bounded value by `d >= 1` keeps it within the divided bound.
pub proof fn lemma_tdiv_bound(x: int, d: int, bx: int)
    requires
        d >= 1,
        0 <= bx,
        -bx <= x <= bx,
    ensures
        -(bx / d) <= tdiv(x, d) <= bx / d,
        -bx <= tdiv(x, d) <= bx,
{
    lemma_div_pos_is_pos(abs_i(x), d);
    lemma_div_is_ordered(abs_i(x), bx, d);
    lemma_div_nonincreasing(abs_i(x), d);
    lemma_div_nonincreasing(bx, d);
    lemma_div_pos_is_pos(bx, d);
}

/// Exact division: `(b * d) / d == b` survives the rounding toward zero.
pub proof fn lemma_tdiv_exact(b: int, d: int)
    requires
        d >= 1,
    ensures
        tdiv(b * d, d) == b,
{
    if b >= 0 {
        assert(b * d >= 0) by (nonlinear_arith)
            requires
                b >= 0,
                d >= 1,
        ;
        vstd::arithmetic::div_mod::lemma_div_by_multiple(b, d);
    } else {
        assert(b * d < 0 && -(b * d) == (-b) * d) by (nonlinear_arith)
            requires
                b < 0,
                d >= 1,
        ;
        vstd::arithmetic::div_mod::lemma_div_by_multiple(-b, d);
    }
}

/// Rounding toward zero is monotone for a positive divisor, up to sign: for
/// numerators of either sign, a larger numerator never gives a smaller
/// truncated quotient.
pub proof fn lemma_tdiv_ordered(x: int, y: int, d: int)
    requires
        d >= 1,
        x <= y,
    ensures
        tdiv(x, d) <= tdiv(y, d),
{
    if x >= 0 {
        lemma_div_is_ordered(x, y, d);
    } else if y < 0 {
        lemma_div_is_ordered(-y, -x, d);
    } else {
        lemma_div_pos_is_pos(-x, d);
        lemma_div_pos_is_pos(y, d);
    }
}

/// Rounding toward zero never increases the magnitude, for any nonzero
/// divisor.
pub proof fn lemma_tdiv_any_bound(x: int, b: int, bx: int)
    requires
        b != 0,
        0 <= bx,
        -bx <= x <= bx,
    ensures
        -bx <= tdiv(x, b) <= bx,
{
    lemma_div_pos_is_pos(abs_i(x), abs_i(b));
    lemma_div_nonincreasing(abs_i(x), abs_i(b));
}

/// Multiplying a truncated quotient back by the divisor stays below the
/// dividend in magnitude.
pub proof fn lemma_tdiv_cancel(x: int, d: int)
    requires
        d >= 1,
    ensures
        abs_i(tdiv(x, d)) * d <= abs_i(x),
        abs_i(tdiv(x, d)) == abs_i(x) / d,
{
    lemma_div_pos_is_pos(abs_i(x), d);
    vstd::arithmetic::div_mod::lemma_fundamental_div_mod(abs_i(x), d);
    assert((abs_i(x) / d) * d <= abs_i(x)) by (nonlinear_arith)
        requires
            d >= 1,
            abs_i(x) == d * (abs_i(x) / d) + abs_i(x) % d,
            abs_i(x) % d >= 0,
    ;
}

/// A square is nonnegative, before and after rescaling.
pub proof fn lemma_fx_square_nonneg(x: int)
    ensures
        x * x >= 0,
        fx_mul(x, x) >= 0,
{
    assert(x * x >= 0) by (nonlinear_arith);
    lemma_div_pos_is_pos(x * x, 65536);
}

/// The floor square root dominates every integer whose square fits under `n`.
pub proof fn lemma_sqrt_floor_at_least(n: int, r: int)
    requires
        n >= 0,
        r >= 0,
        r * r <= n,
    ensures
        sqrt_floor(n) >= r,
{
    lemma_sqrt_floor_props(n);
    let s = sqrt_floor(n);
    if s < r {
        assert(false) by (nonlinear_arith)
            requires
                s >= 0,
                s < r,
                r * r <= n,
                n < (s + 1) * (s + 1),
        ;
    }
}

/// The floor square root stays below any integer whose square exceeds `n`.
pub proof fn lemma_sqrt_floor_below(n: int, r: int)
    requires
        n >= 0,
        r >= 1,
        n < r * r,
    ensures
        sqrt_floor(n) < r,
{
    lemma_sqrt_floor_props(n);
    let s = sqrt_floor(n);
    if s >= r {
        assert(false) by (nonlinear_arith)
            requires
                s >= r,
                r >= 1,
                s * s <= n,
                n < r * r,
        ;
    }
}

/// Fixed-point multiplication, rounded toward zero.
pub fn mul_fx(a: i128, b: i128) -> (r: i128)
    requires
        -FX_PRODUCT_LIMIT <= a * b <= FX_PRODUCT_LIMIT,
    ensures
        r == fx_mul(a as int, b as int),
{
    let p: i128 = a * b;
    if p >= 0 {
        let q: u128 = (p as u128) / 65536;
        proof {
            lemma_div_nonincreasing(p as int, 65536);
            lemma_div_pos_is_pos(p as int, 65536);
        }
        q as i128
    } else {
        let q: u128 = ((-p) as u128) / 65536;
        proof {
            lemma_div_nonincreasing(-(p as int), 65536);
            lemma_div_pos_is_pos(-(p as int), 65536);
        }
        -(q as i128)
    }
}

/// Fixed-point division, rounded toward zero.
pub fn div_fx(a: i128, b: i128) -> (r: i128)
    requires
        b != 0,
        -FX_ARG_LIMIT <= a <= FX_ARG_LIMIT,
        -FX_ARG_LIMIT <= b <= FX_ARG_LIMIT,
    ensures
        r == fx_div(a as int, b as int),
{
    let n: i128 = a * 65536;
    let na: u128 = if n >= 0 {
        n as u128
    } else {
        (-n) as u128
    };
    let nb: u128 = if b >= 0 {
        b as u128
    } else {
        (-b) as u128
    };
    let q: u128 = na / nb;
    proof {
        lemma_div_nonincreasing(na as int, nb as int);
        lemma_div_pos_is_pos(na as int, nb as int);
    }
    let qi: i128 = q as i128;
    if (n >= 0) == (b >= 0) {
        qi
    } else {
        -qi
    }
}

/// Halving, rounded toward zero.
pub fn half_fx(a: i128) -> (r: i128)
    requires
        -FX_PRODUCT_LIMIT <= a <= FX_PRODUCT_LIMIT,
    ensures
        r == tdiv(a as int, 2),
{
    if a >= 0 {
        let q: u128 = (a as u128) / 2;
        proof {
            lemma_div_nonincreasing(a as int, 2);
            lemma_div_pos_is_pos(a as int, 2);
        }
        q as i128
    } else {
        let q: u128 = ((-a) as u128) / 2;
        proof {
            lemma_div_nonincreasing(-(a as int), 2);
            lemma_div_pos_is_pos(-(a as int), 2);
        }
        -(q as i128)
    }
}

/// The floor square root satisfies the defining bracketing.
pub proof fn lemma_sqrt_floor_props(n: int)
    requires
        n >= 0,
    ensures
        sqrt_floor(n) >= 0,
        sqrt_floor(n) * sqrt_floor(n) <= n,
        n < (sqrt_floor(n) + 1) * (sqrt_floor(n) + 1),
    decreases n,
{
    if n == 0 {
    } else {
        lemma_sqrt_floor_props(n - 1);
        let p = sqrt_floor(n - 1);
        if (p + 1) * (p + 1) <= n {
            assert((p + 1 + 1) * (p + 1 + 1) > n) by (nonlinear_arith)
                requires
                    p >= 0,
                    n - 1 < (p + 1) * (p + 1),
                    (p + 1) * (p + 1) <= n,
            ;
        }
    }
}

/// The bracketing determines the floor square root uniquely.
pub proof fn lemma_sqrt_floor_unique(n: int, r: int)
    requires
        n >= 0,
        r >= 0,
        r * r <= n,
        n < (r + 1) * (r + 1),
    ensures
        r == sqrt_floor(n),
{
    lemma_sqrt_floor_props(n);
    let s = sqrt_floor(n);
    if r < s {
        assert(false) by (nonlinear_arith)
            requires
                r >= 0,
                s >= 0,
                r < s,
                s * s <= n,
                n < (r + 1) * (r + 1),
        ;
    }
    if s < r {
        assert(false) by (nonlinear_arith)
            requires
                r >= 0,
                s >= 0,
                s < r,
                r * r <= n,
                n < (s + 1) * (s + 1),
        ;
    }
}

/// Floor square root of an unsigned integer, by bisection.
fn isqrt_u128(n: u128) -> (r: u128)
    requires
        n <= FX_PRODUCT_LIMIT as u128,
    ensures
        r * r <= n,
        n < (r + 1) * (r + 1),
        r <= 9223372036854775808,
{
    let mut lo: u128 = 0;
    let mut hi: u128 = 9223372036854775809;
    proof {
        assert(9223372036854775809int * 9223372036854775809int
            > 85070591730234615865843651857942052864int) by (nonlinear_arith);
    }
    while lo + 1 < hi
        invariant
            lo < hi,
            hi <= 9223372036854775809,
            n <= FX_PRODUCT_LIMIT as u128,
            lo * lo <= n,
            n < hi * hi,
        decreases hi - lo,
    {
        let mid: u128 = lo + (hi - lo) / 2;
        proof {
            lemma_abs_mul(mid as int, mid as int, 9223372036854775809, 9223372036854775809);
            assert(9223372036854775809int * 9223372036854775809int
                < 0x100000000000000000000000000000000int) by (nonlinear_arith);
        }
        if mid * mid <= n {
            lo = mid;
        } else {
            hi = mid;
        }
    }
    lo
}

/// Fixed-point square root of a nonnegative scalar.
pub fn sqrt_fx(a: i128) -> (r: i128)
    requires
        0 <= a <= FX_ARG_LIMIT,
    ensures
        r == fx_sqrt(a as int),
        0 <= r <= 9223372036854775808,
{
    let n: u128 = (a as u128) * 65536;
    let s: u128 = isqrt_u128(n);
    proof {
        lemma_sqrt_floor_unique(n as int, s as int);
    }
    s as i128
}

} // verus!
