use smorust::fixed::{Fx, FX_ONE};
use smorust::poly2;

fn fx(x: f64) -> Fx {
    Fx { v: (x * FX_ONE as f64).round() as i64 }
}

fn to_f(x: Fx) -> f64 {
    x.v as f64 / FX_ONE as f64
}

#[test]
fn add_and_sub_are_exact_in_range() {
    let a = fx(1.5);
    let b = fx(2.25);
    assert_eq!(a.add(b).v, fx(3.75).v);
    assert_eq!(a.sub(b).v, fx(-0.75).v);
}

#[test]
fn add_saturates_at_the_ends() {
    let top = Fx { v: i64::MAX };
    assert_eq!(top.add(Fx { v: 1 }).v, i64::MAX);
    let bottom = Fx { v: i64::MIN };
    assert_eq!(bottom.sub(Fx { v: 1 }).v, i64::MIN);
}

#[test]
fn mul_truncates_towards_zero() {
    // 1.5 * 2.5 = 3.75 exactly representable
    assert_eq!(fx(1.5).mul(fx(2.5)).v, fx(3.75).v);
    // products truncate toward zero in raw units
    let a = Fx { v: 3 };
    let b = Fx { v: FX_ONE / 2 };
    assert_eq!(a.mul(b).v, 1);
    let an = Fx { v: -3 };
    assert_eq!(an.mul(b).v, -1);
}

#[test]
fn div_matches_expected_values() {
    assert_eq!(fx(1.0).div(fx(4.0)).v, fx(0.25).v);
    assert_eq!(fx(-1.0).div(fx(4.0)).v, fx(-0.25).v);
    let third = fx(1.0).div(fx(3.0));
    assert!((to_f(third) - 1.0 / 3.0).abs() < 1e-8);
}

#[test]
fn neg_abs_min_max() {
    assert_eq!(fx(2.0).neg().v, fx(-2.0).v);
    assert_eq!(fx(-2.0).abs().v, fx(2.0).v);
    assert_eq!(Fx { v: i64::MIN }.neg().v, i64::MAX);
    assert_eq!(fx(1.0).min_of(fx(2.0)).v, fx(1.0).v);
    assert_eq!(fx(1.0).max_of(fx(2.0)).v, fx(2.0).v);
}

#[test]
fn from_int_scales() {
    assert_eq!(Fx::from_int(3).v, 3 * FX_ONE);
    assert_eq!(Fx::from_int(-2).v, -2 * FX_ONE);
    assert_eq!(Fx::zero().v, 0);
    assert_eq!(Fx::one().v, FX_ONE);
}

#[test]
fn smoothed_max_is_plain_positive_part_without_smoothing() {
    let s = Fx { v: 0 };
    assert_eq!(poly2::max(fx(2.0), s).v, fx(2.0).v);
    assert_eq!(poly2::max(fx(-2.0), s).v, 0);
    assert_eq!(poly2::d_max(fx(2.0), s).v, FX_ONE);
    assert_eq!(poly2::d_max(fx(-2.0), s).v, 0);
    assert_eq!(poly2::d2_max(fx(2.0), s).v, 0);
}

#[test]
fn smoothed_max_bridges_quadratically() {
    let s = fx(1.0);
    // at t = 0 the bridge value is (0+1)^2 / 4 = 0.25
    let v = poly2::max(fx(0.0), s);
    assert!((to_f(v) - 0.25).abs() < 1e-8);
    // derivative at t = 0 is 0.5
    let d = poly2::d_max(fx(0.0), s);
    assert!((to_f(d) - 0.5).abs() < 1e-8);
    // second derivative inside the bridge is 1 / (2 s)
    let d2 = poly2::d2_max(fx(0.0), s);
    assert!((to_f(d2) - 0.5).abs() < 1e-8);
    // outside the bridge the plain parts hold
    assert_eq!(poly2::max(fx(2.0), s).v, fx(2.0).v);
    assert_eq!(poly2::max(fx(-2.0), s).v, 0);
}

#[test]
fn dual_max_values() {
    let s = fx(1.0);
    // s * a * (a - 1) at a = 0.5 is -0.25
    let v = poly2::dual_max(fx(0.5), s);
    assert!((to_f(v) + 0.25).abs() < 1e-8);
    // derivative s * (2 a - 1) at a = 0.5 is 0
    assert_eq!(poly2::d_dual_max(fx(0.5), s).v, 0);
    // second derivative is 2 s
    assert_eq!(poly2::d2_dual_max(fx(0.5), s).v, fx(2.0).v);
}
