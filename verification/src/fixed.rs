//! Fixed-point scalar arithmetic.
//!
//! Every geometric quantity in this crate is a fixed-point number: an `i64`
//! that stands for the rational value `x / FX_ONE`. All operations saturate
//! at `FX_SAT` (about 2^31 in represented units), so they are total: no
//! overflow can occur, and a sample whose arithmetic runs out of range
//! degrades to a clamped value instead of aborting a render.

use vstd::prelude::*;

verus! {

/// The denominator of the fixed-point representation: 2^16.
pub const FX_ONE: i64 = 65536;

/// Saturation bound for every arithmetic result: 2^47.
pub const FX_SAT: i64 = 140737488355328;

/// Truncating (toward zero) division of `p` by a positive `d`.
pub open spec fn tdiv(p: int, d: int) -> int {
    if p >= 0 {
        p / d
    } else {
        -((-p) / d)
    }
}

/// Truncating division for any nonzero divisor.
pub open spec fn tdiv_any(p: int, d: int) -> int {
    if d > 0 {
        tdiv(p, d)
    } else {
        -tdiv(p, -d)
    }
}

/// Clamp a mathematical integer into the saturation range.
pub open spec fn sat64(x: int) -> i64 {
    if x > FX_SAT {
        FX_SAT
    } else if x < -FX_SAT {
        (-FX_SAT) as i64
    } else {
        x as i64
    }
}

/// Saturating fixed-point addition.
pub open spec fn fadd_s(a: i64, b: i64) -> i64 {
    sat64(a + b)
}

/// Saturating fixed-point subtraction.
pub open spec fn fsub_s(a: i64, b: i64) -> i64 {
    sat64(a - b)
}

/// Saturating fixed-point negation.
pub open spec fn fneg_s(a: i64) -> i64 {
    sat64(-a)
}

/// Saturating fixed-point multiplication: `a * b / FX_ONE`, truncated.
pub open spec fn fmul_s(a: i64, b: i64) -> i64 {
    sat64(tdiv(a * b, FX_ONE as int))
}

/// Saturating fixed-point division: `a * FX_ONE / b`, truncated.
pub open spec fn fdiv_s(a: i64, b: i64) -> i64 {
    sat64(tdiv_any(a * FX_ONE, b as int))
}

/// `r` is the integer square root of `y`.
pub open spec fn is_sqrt_floor(y: int, r: int) -> bool {
    &&& 0 <= r
    &&& r * r <= y
    &&& y < (r + 1) * (r + 1)
}

/// The integer square root of a nonnegative `y`.
pub open spec fn sqrt_floor(y: int) -> int {
    choose|r: int| is_sqrt_floor(y, r)
}

/// Fixed-point square root: 0 on nonpositive input.
pub open spec fn fsqrt_s(a: i64) -> i64 {
    if a <= 0 {
        0
    } else {
        sat64(sqrt_floor(a * FX_ONE))
    }
}

/// Absolute value, saturated (so `fabs_s(i64::MIN)` stays in range).
pub open spec fn fabs_s(a: i64) -> i64 {
    if a >= 0 {
        sat64(a as int)
    } else {
        sat64(-a)
    }
}

/// The saturation clamp leaves in-range values unchanged.
pub proof fn lemma_sat64_id(x: int)
    requires
        -FX_SAT <= x <= FX_SAT,
    ensures
        sat64(x) == x,
{
}

/// The integer square root is unique.
pub proof fn lemma_sqrt_floor_unique(y: int, r1: int, r2: int)
    by (nonlinear_arith)
    requires
        is_sqrt_floor(y, r1),
        is_sqrt_floor(y, r2),
    ensures
        r1 == r2,
{
}

/// Squaring is monotonic on nonnegative integers.
pub proof fn lemma_sq_mono(x: int, y: int)
    by (nonlinear_arith)
    requires
        0 <= x <= y,
    ensures
        x * x <= y * y,
{
}

/// Bound on a product from bounds on its factors.
pub proof fn lemma_mul_bound(a: int, b: int, m: int, n: int)
    by (nonlinear_arith)
    requires
        -m <= a <= m,
        -n <= b <= n,
        0 <= m,
        0 <= n,
    ensures
        -(m * n) <= a * b <= m * n,
{
}

/// Truncating division by a positive divisor shrinks magnitude.
pub proof fn lemma_tdiv_bound(p: int, d: int, m: int)
    requires
        d >= 1,
        -m <= p <= m,
        0 <= m,
    ensures
        -m <= tdiv(p, d) <= m,
{
    if p >= 0 {
        vstd::arithmetic::div_mod::lemma_div_basics_5(p, d);
    } else {
        vstd::arithmetic::div_mod::lemma_div_basics_5(-p, d);
    }
}

/// A nonnegative integer has an integer square root.
pub proof fn lemma_sqrt_exists(y: int)
    requires
        0 <= y,
    ensures
        is_sqrt_floor(y, sqrt_floor(y)),
    decreases y,
{
    if y == 0 {
        assert(is_sqrt_floor(0, 0));
    } else {
        lemma_sqrt_exists(y - 1);
        let r = sqrt_floor(y - 1);
        if (r + 1) * (r + 1) == y {
            assert((r + 2) * (r + 2) > y) by (nonlinear_arith)
                requires
                    (r + 1) * (r + 1) == y,
                    r >= 0,
            ;
            assert(is_sqrt_floor(y, r + 1));
        } else {
            assert(is_sqrt_floor(y, r));
        }
    }
}

/// `fsqrt_s` is never negative.
pub proof fn lemma_fsqrt_nonneg(a: i64)
    ensures
        0 <= fsqrt_s(a),
{
    if a > 0 {
        lemma_sqrt_exists(a * FX_ONE);
    }
}

/// Truncating division preserves order for a positive divisor.
pub proof fn lemma_tdiv_mono(p1: int, p2: int, d: int)
    requires
        p1 <= p2,
        0 < d,
    ensures
        tdiv(p1, d) <= tdiv(p2, d),
{
    if p1 >= 0 {
        vstd::arithmetic::div_mod::lemma_div_is_ordered(p1, p2, d);
    } else if p2 >= 0 {
        vstd::arithmetic::div_mod::lemma_div_basics_5(-p1, d);
        vstd::arithmetic::div_mod::lemma_div_basics_5(p2, d);
    } else {
        vstd::arithmetic::div_mod::lemma_div_is_ordered(-p2, -p1, d);
    }
}

/// Truncating division loses strictly less than one divisor's worth.
pub proof fn lemma_tdiv_err(x: int, d: int)
    requires
        0 < d,
    ensures
        x - d < d * tdiv(x, d),
        d * tdiv(x, d) < x + d,
{
    if x >= 0 {
        vstd::arithmetic::div_mod::lemma_fundamental_div_mod(x, d);
        vstd::arithmetic::div_mod::lemma_mod_bound(x, d);
        vstd::arithmetic::mul::lemma_mul_is_commutative(x / d, d);
    } else {
        let m: int = -x;
        vstd::arithmetic::div_mod::lemma_fundamental_div_mod(m, d);
        vstd::arithmetic::div_mod::lemma_mod_bound(m, d);
        vstd::arithmetic::mul::lemma_mul_is_commutative(m / d, d);
        vstd::arithmetic::mul::lemma_mul_unary_negation(d, m / d);
    }
}

/// Where the product stays in range, the fixed product is its exact
/// truncating quotient, within one unit of the rational value.
pub proof fn lemma_fmul_exact(a: i64, b: i64)
    requires
        -(FX_SAT * FX_ONE) <= a * b <= FX_SAT * FX_ONE,
    ensures
        fmul_s(a, b) == tdiv(a * b, FX_ONE as int),
        a * b - FX_ONE < FX_ONE * fmul_s(a, b),
        FX_ONE * fmul_s(a, b) < a * b + FX_ONE,
        -FX_SAT <= fmul_s(a, b) <= FX_SAT,
{
    lemma_tdiv_err(a * b, FX_ONE as int);
    let q = tdiv(a * b, FX_ONE as int);
    assert(FX_ONE * q < FX_SAT * FX_ONE + FX_ONE);
    assert(q <= FX_SAT) by (nonlinear_arith)
        requires
            65536 * q < FX_SAT * 65536 + 65536,
    ;
    assert(-FX_SAT <= q) by (nonlinear_arith)
        requires
            -(FX_SAT * 65536) - 65536 < 65536 * q,
    ;
    lemma_sat64_id(q);
}

/// The saturation clamp preserves order.
pub proof fn lemma_sat64_mono(x1: int, x2: int)
    requires
        x1 <= x2,
    ensures
        sat64(x1) <= sat64(x2),
{
}

/// Fixed-point division preserves numerator order for a positive divisor.
pub proof fn lemma_fdiv_mono(a1: i64, a2: i64, b: i64)
    requires
        a1 <= a2,
        0 < b,
    ensures
        fdiv_s(a1, b) <= fdiv_s(a2, b),
{
    lemma_tdiv_mono(a1 * FX_ONE, a2 * FX_ONE, b as int);
    lemma_sat64_mono(tdiv(a1 * FX_ONE, b as int), tdiv(a2 * FX_ONE, b as int));
}

/// Clamp an `i128` intermediate into the saturation range.
fn sat_i128(q: i128) -> (r: i64)
    ensures
        r == sat64(q as int),
{
    if q > FX_SAT as i128 {
        FX_SAT
    } else if q < -(FX_SAT as i128) {
        -FX_SAT
    } else {
        q as i64
    }
}

/// Truncating division of an `i128` by a positive divisor.
pub(crate) fn tdiv_i128(p: i128, d: i128) -> (q: i128)
    requires
        0 < d,
        -0x4000_0000_0000_0000_0000_0000_0000_0000 <= p
            <= 0x4000_0000_0000_0000_0000_0000_0000_0000,
    ensures
        q == tdiv(p as int, d as int),
{
    if p >= 0 {
        (p as u128 / d as u128) as i128
    } else {
        let m: u128 = (-p) as u128 / d as u128;
        proof {
            vstd::arithmetic::div_mod::lemma_div_basics_5((-p) as int, d as int);
        }
        -(m as i128)
    }
}

/// Saturating fixed-point addition.
pub fn fadd(a: i64, b: i64) -> (r: i64)
    ensures
        r == fadd_s(a, b),
{
    sat_i128(a as i128 + b as i128)
}

/// Saturating fixed-point subtraction.
pub fn fsub(a: i64, b: i64) -> (r: i64)
    ensures
        r == fsub_s(a, b),
{
    sat_i128(a as i128 - b as i128)
}

/// Saturating fixed-point negation.
pub fn fneg(a: i64) -> (r: i64)
    ensures
        r == fneg_s(a),
{
    sat_i128(-(a as i128))
}

/// Saturating absolute value.
pub fn fabs(a: i64) -> (r: i64)
    ensures
        r == fabs_s(a),
{
    if a >= 0 {
        sat_i128(a as i128)
    } else {
        sat_i128(-(a as i128))
    }
}

/// Saturating fixed-point multiplication.
pub fn fmul(a: i64, b: i64) -> (r: i64)
    ensures
        r == fmul_s(a, b),
{
    proof {
        lemma_mul_bound(a as int, b as int, 0x8000_0000_0000_0000, 0x8000_0000_0000_0000);
    }
    let p: i128 = a as i128 * b as i128;
    let q: i128 = tdiv_i128(p, FX_ONE as i128);
    proof {
        lemma_tdiv_bound(p as int, FX_ONE as int, 0x4000_0000_0000_0000_0000_0000_0000_0000);
    }
    sat_i128(q)
}

/// Saturating fixed-point division; the divisor must be nonzero.
pub fn fdiv(a: i64, b: i64) -> (r: i64)
    requires
        b != 0,
    ensures
        r == fdiv_s(a, b),
{
    proof {
        lemma_mul_bound(a as int, FX_ONE as int, 0x8000_0000_0000_0000, 65536);
    }
    let p: i128 = a as i128 * FX_ONE as i128;
    let q: i128 = if b > 0 {
        tdiv_i128(p, b as i128)
    } else {
        let q0: i128 = tdiv_i128(p, -(b as i128));
        proof {
            lemma_tdiv_bound(p as int, -(b as int), 0x8000_0000_0000_0000_0000);
        }
        -q0
    };
    sat_i128(q)
}

/// Euclidean (floor) division by a positive divisor.
pub fn floor_div(a: i64, d: i64) -> (q: i64)
    requires
        0 < d,
    ensures
        q == (a as int) / (d as int),
{
    let qt: i128 = tdiv_i128(a as i128, d as i128);
    proof {
        lemma_mul_bound(qt as int, d as int, 0x8000_0000_0000_0000, 0x8000_0000_0000_0000);
    }
    let r0: i128 = a as i128 - qt * (d as i128);
    proof {
        vstd::arithmetic::mul::lemma_mul_is_commutative(qt as int, d as int);
        if a >= 0 {
            vstd::arithmetic::div_mod::lemma_fundamental_div_mod(a as int, d as int);
            vstd::arithmetic::div_mod::lemma_mod_bound(a as int, d as int);
        } else {
            let m: int = -(a as int);
            vstd::arithmetic::div_mod::lemma_fundamental_div_mod(m, d as int);
            vstd::arithmetic::div_mod::lemma_mod_bound(m, d as int);
            vstd::arithmetic::mul::lemma_mul_is_commutative(m / (d as int), d as int);
            vstd::arithmetic::mul::lemma_mul_unary_negation(m / (d as int), d as int);
            assert(qt as int == -(m / (d as int)));
            assert((qt as int) * (d as int) == -((m / (d as int)) * (d as int)));
            assert(r0 as int == -(m % (d as int)));
            if r0 == 0 {
                vstd::arithmetic::div_mod::lemma_fundamental_div_mod_converse(
                    a as int,
                    d as int,
                    qt as int,
                    0,
                );
            } else {
                assert((qt as int - 1) * (d as int) == (qt as int) * (d as int) - (d as int))
                    by (nonlinear_arith);
                vstd::arithmetic::div_mod::lemma_fundamental_div_mod_converse(
                    a as int,
                    d as int,
                    qt as int - 1,
                    r0 as int + d as int,
                );
                assert(d >= 2) by {
                    if d == 1 {
                        vstd::arithmetic::div_mod::lemma_div_basics(m);
                    }
                }
                vstd::arithmetic::div_mod::lemma_div_is_ordered_by_denominator(m, 2, d as int);
                assert(qt as int >= -0x4000_0000_0000_0000);
            }
        }
    }
    if r0 < 0 {
        (qt - 1) as i64
    } else {
        qt as i64
    }
}

/// The fixed-point value of a small integer: `n * FX_ONE`, saturated.
pub open spec fn fx_of_int_s(n: int) -> i64 {
    sat64(n * FX_ONE)
}

/// The fixed-point value of an integer count.
pub fn fx_of_usize(n: usize) -> (r: i64)
    ensures
        r == fx_of_int_s(n as int),
{
    proof {
        lemma_mul_bound(n as int, FX_ONE as int, 0xFFFF_FFFF_FFFF_FFFF, 65536);
    }
    sat_i128(n as i128 * FX_ONE as i128)
}

/// Fixed-point square root: `fsqrt(a) / FX_ONE` approximates `sqrt(a / FX_ONE)`.
pub fn fsqrt(a: i64) -> (r: i64)
    ensures
        r == fsqrt_s(a),
{
    if a <= 0 {
        return 0;
    }
    proof {
        lemma_mul_bound(a as int, FX_ONE as int, 0x8000_0000_0000_0000, 65536);
    }
    let y: u128 = a as u128 * FX_ONE as u128;
    let mut lo: u128 = 0;
    let mut hi: u128 = 0x100_0000_0000;
    proof {
        assert((0x100_0000_0000 as int) * (0x100_0000_0000 as int) > y as int);
    }
    while hi - lo > 1
        invariant
            lo < hi,
            hi <= 0x100_0000_0000,
            lo * lo <= y,
            y < hi * hi,
        decreases hi - lo,
    {
        let mid: u128 = lo + (hi - lo) / 2;
        proof {
            lemma_sq_mono(mid as int, 0x100_0000_0000);
        }
        if mid * mid <= y {
            lo = mid;
        } else {
            hi = mid;
        }
    }
    proof {
        assert(is_sqrt_floor(y as int, lo as int));
        assert(is_sqrt_floor(y as int, sqrt_floor(y as int))) by {
            assert(exists|r: int| is_sqrt_floor(y as int, r));
        }
        lemma_sqrt_floor_unique(y as int, lo as int, sqrt_floor(y as int));
        lemma_sat64_id(lo as int);
    }
    lo as i64
}

} // verus!
