use smorust::fixed::{Fx, FX_ONE};
use smorust::problem::Params as ProblemParams;
use smorust::{smo, Status, StatusCode};

fn fx(x: f64) -> Fx {
    Fx { v: (x * FX_ONE as f64).round() as i64 }
}

#[test]
fn new_status_is_zeroed() {
    let s = Status::new(3);
    assert_eq!(s.a.len(), 3);
    assert_eq!(s.ka.len(), 3);
    assert_eq!(s.g.len(), 3);
    assert!(s.a.iter().all(|x| x.v == 0));
    assert_eq!(s.b.v, 0);
    assert_eq!(s.c.v, 0);
    assert_eq!(s.asum.v, 0);
    assert_eq!(s.value.v, 0);
    assert_eq!(s.violation.v, i64::MAX);
    assert!(matches!(s.code, StatusCode::Initialized));
    assert_eq!(s.steps, 0);
    assert_eq!(s.time, 0);
}

#[test]
fn find_support_keeps_nonzero_positions() {
    let mut s = Status::new(4);
    s.a[1] = fx(0.5);
    s.a[3] = fx(-0.25);
    s.ka[1] = fx(1.0);
    s.ka[3] = fx(2.0);
    s.g[1] = fx(3.0);
    s.g[3] = fx(4.0);
    s.b = fx(0.125);
    s.c = fx(-0.5);
    let data = vec![10u32, 11, 12, 13];
    let (reduced, kept) = s.find_support(&data);
    assert_eq!(kept, vec![11u32, 13]);
    assert_eq!(reduced.a.len(), 2);
    assert_eq!(reduced.a[0].v, fx(0.5).v);
    assert_eq!(reduced.a[1].v, fx(-0.25).v);
    assert_eq!(reduced.ka[0].v, fx(1.0).v);
    assert_eq!(reduced.ka[1].v, fx(2.0).v);
    assert_eq!(reduced.g[0].v, fx(3.0).v);
    assert_eq!(reduced.g[1].v, fx(4.0).v);
    assert_eq!(reduced.b.v, fx(0.125).v);
    assert_eq!(reduced.c.v, fx(-0.5).v);
}

#[test]
fn find_support_of_all_zero_is_empty() {
    let s = Status::new(3);
    let data = vec![1u8, 2, 3];
    let (reduced, kept) = s.find_support(&data);
    assert_eq!(kept.len(), 0);
    assert_eq!(reduced.a.len(), 0);
}

#[test]
fn problem_params_builders_chain() {
    let p = ProblemParams::new()
        .with_lambda(fx(2.0))
        .with_smoothing(fx(0.5))
        .with_max_asum(fx(3.0))
        .with_regularization(fx(1e-6));
    assert_eq!(p.lambda.v, fx(2.0).v);
    assert_eq!(p.smoothing.v, fx(0.5).v);
    assert_eq!(p.max_asum.v, fx(3.0).v);
    assert_eq!(p.regularization.v, fx(1e-6).v);
    let d = ProblemParams::new();
    assert_eq!(d.lambda.v, FX_ONE);
    assert_eq!(d.smoothing.v, 0);
    assert_eq!(d.max_asum.v, i64::MAX);
    assert_eq!(d.regularization.v, 1);
}

#[test]
fn smo_params_builders_chain() {
    let p = smo::Params::new()
        .with_tol(fx(0.25))
        .with_max_steps(9)
        .with_verbose(2)
        .with_time_limit(77)
        .with_shrinking_period(5);
    assert_eq!(p.tol.v, fx(0.25).v);
    assert_eq!(p.max_steps, 9);
    assert_eq!(p.verbose, 2);
    assert_eq!(p.time_limit, 77);
    assert_eq!(p.shrinking_period, 5);
    let d = smo::Params::new();
    assert_eq!(d.max_steps, usize::MAX);
    assert!(d.second_order);
    assert_eq!(d.shrinking_period, 0);
    assert_eq!(d.shrinking_threshold.v, FX_ONE);
}
