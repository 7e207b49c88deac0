//! Fixed-point trigonometric approximations.
//!
//! Each function's contract states exactly the polynomial it computes;
//! the doc comments say which real function that polynomial approximates.

use vstd::prelude::*;

use crate::fixed::{
    fabs, fabs_s, fadd, fadd_s, fdiv, fdiv_s, fmul, fmul_s, fneg, fneg_s, fsqrt, fsqrt_s, fsub,
    fsub_s, lemma_mul_bound, FX_ONE, FX_SAT,
};

verus! {

/// Pi in fixed point.
pub const PI_FX: i64 = 205887;

/// Two pi in fixed point: exactly twice `PI_FX`, so a half turn maps
/// onto exactly half the full-turn range.
pub const TWO_PI_FX: i64 = 2 * PI_FX;

/// Half pi in fixed point.
pub const HALF_PI_FX: i64 = 102944;

/// Three halves of pi in fixed point.
pub const THREE_HALF_PI_FX: i64 = 308831;

/// Quarter pi in fixed point.
pub const QUARTER_PI_FX: i64 = 51472;

/// 180 degrees in fixed point.
pub const DEG180_FX: i64 = 11796480;

/// Euclidean remainder: always in `[0, d)`.
pub open spec fn modp_s(x: i64, d: i64) -> i64 {
    ((x as int) % (d as int)) as i64
}

/// The degree-7 Taylor polynomial of sine around 0.
pub open spec fn sin_poly_s(u: i64) -> i64 {
    let u2 = fmul_s(u, u);
    let u3 = fmul_s(u2, u);
    let u5 = fmul_s(u3, u2);
    let u7 = fmul_s(u5, u2);
    fsub_s(fadd_s(fsub_s(u, fdiv_s(u3, 393216)), fdiv_s(u5, 7864320)), fdiv_s(u7, 330301440))
}

/// Sine of a fixed-point radian value: the argument reduced into
/// `[0, 2 pi)` and folded onto `[-pi/2, pi/2]`, then the Taylor
/// polynomial, clamped into `[-1, 1]` as a sine must be.
pub open spec fn sin_s(x: i64) -> i64 {
    let r = modp_s(x, TWO_PI_FX);
    let u = if r < HALF_PI_FX {
        r
    } else if r < THREE_HALF_PI_FX {
        fsub_s(PI_FX, r)
    } else {
        fsub_s(r, TWO_PI_FX)
    };
    let p = sin_poly_s(u);
    if p > FX_ONE {
        FX_ONE
    } else if p < -FX_ONE {
        (-FX_ONE) as i64
    } else {
        p
    }
}

/// Cosine as the sine of the argument shifted by half pi.
pub open spec fn cos_s(x: i64) -> i64 {
    sin_s(fadd_s(x, HALF_PI_FX))
}

/// Tangent as sine over cosine; saturates where the cosine truncates to zero.
pub open spec fn tan_s(x: i64) -> i64 {
    let c = cos_s(x);
    if c == 0 {
        FX_SAT
    } else {
        fdiv_s(sin_s(x), c)
    }
}

/// Degrees to radians: `d * pi / 180`.
pub open spec fn deg_to_rad_s(d: i64) -> i64 {
    fdiv_s(fmul_s(d, PI_FX), DEG180_FX)
}

/// A cubic approximation of arctangent on `[0, 1]`.
pub open spec fn atan_unit_s(z: i64) -> i64 {
    fadd_s(fmul_s(z, QUARTER_PI_FX), fmul_s(fmul_s(z, fsub_s(FX_ONE, z)), fadd_s(
        16037,
        fmul_s(4345, z),
    )))
}

/// Quadrant-corrected arctangent of `y / x`, in `(-pi, pi]`.
pub open spec fn atan2_s(y: i64, x: i64) -> i64 {
    let ax = fabs_s(x);
    let ay = fabs_s(y);
    if ax == 0 && ay == 0 {
        0
    } else {
        let base = if ax >= ay {
            atan_unit_s(fdiv_s(ay, ax))
        } else {
            fsub_s(HALF_PI_FX, atan_unit_s(fdiv_s(ax, ay)))
        };
        let angle = if x >= 0 {
            base
        } else {
            fsub_s(PI_FX, base)
        };
        if y >= 0 {
            angle
        } else {
            fneg_s(angle)
        }
    }
}

/// Sine and cosine never leave `[-1, 1]`.
pub proof fn lemma_sin_cos_bounded(x: i64)
    ensures
        -FX_ONE <= sin_s(x) <= FX_ONE,
        -FX_ONE <= cos_s(x) <= FX_ONE,
{
}

/// Arccosine of a value clamped into `[-1, 1]`, in `[0, pi]`.
pub open spec fn acos_s(x: i64) -> i64 {
    let cx = if x > FX_ONE {
        FX_ONE
    } else if x < -FX_ONE {
        (-FX_ONE) as i64
    } else {
        x
    };
    atan2_s(fsqrt_s(fsub_s(FX_ONE, fmul_s(cx, cx))), cx)
}

/// The Euclidean remainder of `x` by a positive `d`.
pub fn modp(x: i64, d: i64) -> (r: i64)
    requires
        0 < d,
    ensures
        r == modp_s(x, d),
        0 <= r < d,
{
    let q: i128 = crate::fixed::tdiv_i128(x as i128, d as i128);
    proof {
        lemma_mul_bound(q as int, d as int, 0x8000_0000_0000_0000, 0x8000_0000_0000_0000);
    }
    let r0: i128 = x as i128 - q * (d as i128);
    proof {
        vstd::arithmetic::mul::lemma_mul_is_commutative(q as int, d as int);
        if x >= 0 {
            vstd::arithmetic::div_mod::lemma_fundamental_div_mod(x as int, d as int);
            vstd::arithmetic::div_mod::lemma_mod_bound(x as int, d as int);
        } else {
            let m: int = -(x as int);
            vstd::arithmetic::div_mod::lemma_fundamental_div_mod(m, d as int);
            vstd::arithmetic::div_mod::lemma_mod_bound(m, d as int);
            vstd::arithmetic::mul::lemma_mul_is_commutative(m / (d as int), d as int);
            vstd::arithmetic::mul::lemma_mul_unary_negation(m / (d as int), d as int);
            assert(q as int == -(m / (d as int)));
            assert((q as int) * (d as int) == -((m / (d as int)) * (d as int)));
            assert(r0 as int == -(m % (d as int)));
            if r0 == 0 {
                vstd::arithmetic::div_mod::lemma_fundamental_div_mod_converse(
                    x as int,
                    d as int,
                    q as int,
                    0,
                );
            } else {
                assert((q as int - 1) * (d as int) == (q as int) * (d as int) - (d as int))
                    by (nonlinear_arith);
                vstd::arithmetic::div_mod::lemma_fundamental_div_mod_converse(
                    x as int,
                    d as int,
                    q as int - 1,
                    r0 as int + d as int,
                );
            }
        }
    }
    if r0 < 0 {
        (r0 + d as i128) as i64
    } else {
        r0 as i64
    }
}

/// Sine of a fixed-point radian value.
pub fn sin_fx(x: i64) -> (r: i64)
    ensures
        r == sin_s(x),
{
    let red: i64 = modp(x, TWO_PI_FX);
    let u: i64 = if red < HALF_PI_FX {
        red
    } else if red < THREE_HALF_PI_FX {
        fsub(PI_FX, red)
    } else {
        fsub(red, TWO_PI_FX)
    };
    let u2: i64 = fmul(u, u);
    let u3: i64 = fmul(u2, u);
    let u5: i64 = fmul(u3, u2);
    let u7: i64 = fmul(u5, u2);
    let p: i64 = fsub(fadd(fsub(u, fdiv(u3, 393216)), fdiv(u5, 7864320)), fdiv(u7, 330301440));
    if p > FX_ONE {
        FX_ONE
    } else if p < -FX_ONE {
        -FX_ONE
    } else {
        p
    }
}

/// Cosine of a fixed-point radian value.
pub fn cos_fx(x: i64) -> (r: i64)
    ensures
        r == cos_s(x),
{
    sin_fx(fadd(x, HALF_PI_FX))
}

/// Tangent of a fixed-point radian value.
pub fn tan_fx(x: i64) -> (r: i64)
    ensures
        r == tan_s(x),
{
    let c: i64 = cos_fx(x);
    if c == 0 {
        FX_SAT
    } else {
        fdiv(sin_fx(x), c)
    }
}

/// Degrees to radians.
pub fn deg_to_rad(d: i64) -> (r: i64)
    ensures
        r == deg_to_rad_s(d),
{
    fdiv(fmul(d, PI_FX), DEG180_FX)
}

/// The arctangent approximation on `[0, 1]`.
fn atan_unit(z: i64) -> (r: i64)
    ensures
        r == atan_unit_s(z),
{
    fadd(fmul(z, QUARTER_PI_FX), fmul(fmul(z, fsub(FX_ONE, z)), fadd(16037, fmul(4345, z))))
}

/// Quadrant-corrected arctangent of `y / x`.
pub fn atan2_fx(y: i64, x: i64) -> (r: i64)
    ensures
        r == atan2_s(y, x),
{
    let ax: i64 = fabs(x);
    let ay: i64 = fabs(y);
    if ax == 0 && ay == 0 {
        return 0;
    }
    let base: i64 = if ax >= ay {
        atan_unit(fdiv(ay, ax))
    } else {
        fsub(HALF_PI_FX, atan_unit(fdiv(ax, ay)))
    };
    let angle: i64 = if x >= 0 {
        base
    } else {
        fsub(PI_FX, base)
    };
    if y >= 0 {
        angle
    } else {
        fneg(angle)
    }
}

/// Arccosine of a value clamped into `[-1, 1]`.
pub fn acos_fx(x: i64) -> (r: i64)
    ensures
        r == acos_s(x),
{
    let cx: i64 = if x > FX_ONE {
        FX_ONE
    } else if x < -FX_ONE {
        -FX_ONE
    } else {
        x
    };
    atan2_fx(fsqrt(fsub(FX_ONE, fmul(cx, cx))), cx)
}

} // verus!
