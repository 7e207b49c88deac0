use raytracing::fixed::{fabs, fadd, fdiv, floor_div, fmul, fneg, fsqrt, fsub, FX_ONE, FX_SAT};
use raytracing::rng::Rng;
use raytracing::trig::{cos_fx, deg_to_rad, sin_fx, tan_fx};

const ONE: i64 = 65536;

#[test]
fn fixed_products_are_exact() {
    // 2.0 * 1.5 == 3.0
    assert_eq!(fmul(2 * ONE, ONE + ONE / 2), 3 * ONE);
    // truncation goes toward zero on both sides
    assert_eq!(fmul(3, 3), 0);
    assert_eq!(fmul(-3, 3), 0);
    assert_eq!(fmul(-ONE / 2, 45875), -22937);
}

#[test]
fn fixed_sums_saturate() {
    assert_eq!(fadd(FX_SAT, FX_SAT), FX_SAT);
    assert_eq!(fsub(-FX_SAT, FX_SAT), -FX_SAT);
    assert_eq!(fadd(ONE, ONE), 2 * ONE);
    assert_eq!(fneg(7 * ONE), -7 * ONE);
    assert_eq!(fabs(-7 * ONE), 7 * ONE);
}

#[test]
fn fixed_division_truncates() {
    assert_eq!(fdiv(3 * ONE, 2 * ONE), ONE + ONE / 2);
    assert_eq!(fdiv(ONE, 3 * ONE), 21845);
    assert_eq!(fdiv(-ONE, 3 * ONE), -21845);
}

#[test]
fn fixed_sqrt_matches_integer_root() {
    assert_eq!(fsqrt(4 * ONE), 2 * ONE);
    assert_eq!(fsqrt(ONE), ONE);
    assert_eq!(fsqrt(0), 0);
    assert_eq!(fsqrt(-5), 0);
    // sqrt(2) in fixed point: floor(sqrt(2) * 65536) == 92681
    assert_eq!(fsqrt(2 * ONE), 92681);
}

#[test]
fn floor_division_rounds_down() {
    assert_eq!(floor_div(-ONE / 2, ONE), -1);
    assert_eq!(floor_div(ONE / 2, ONE), 0);
    assert_eq!(floor_div(3 * ONE / 2, ONE), 1);
    assert_eq!(floor_div(-3 * ONE / 2, ONE), -2);
}

#[test]
fn trig_approximations_stay_near_the_real_values() {
    assert_eq!(sin_fx(0), 0);
    let c0 = cos_fx(0);
    assert!((65400..=65536).contains(&c0), "cos(0) = {c0}");
    let quarter = deg_to_rad(90 * ONE);
    let s90 = sin_fx(quarter);
    assert!((65400..=65536).contains(&s90), "sin(90 deg) = {s90}");
    let c90 = cos_fx(quarter);
    assert!(c90.abs() < 200, "cos(90 deg) = {c90}");
    let t45 = tan_fx(deg_to_rad(45 * ONE));
    assert!((t45 - ONE).abs() < 400, "tan(45 deg) = {t45}");
    // sine is periodic under the fixed-point reduction
    assert_eq!(sin_fx(100), sin_fx(100 + 411774));
}

#[test]
fn rng_is_deterministic_per_seed() {
    let mut a = Rng::from_seed(42);
    let mut b = Rng::from_seed(42);
    for _ in 0..100 {
        assert_eq!(a.next_u64(), b.next_u64());
    }
    let mut c = Rng::from_seed(43);
    let first_a = Rng::from_seed(42).next_u64();
    assert_ne!(first_a, c.next_u64());
}

#[test]
fn rng_draws_stay_in_range() {
    let mut r = Rng::from_seed(7);
    for _ in 0..1000 {
        let u = r.next_unit();
        assert!((0..FX_ONE).contains(&u));
        let s = r.next_symmetric();
        assert!((-FX_ONE..FX_ONE).contains(&s));
    }
}
