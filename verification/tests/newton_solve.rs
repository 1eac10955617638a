use smorust::fixed::{Fx, FX_ONE};
use smorust::kernel::PrecomputedKernel;
use smorust::problem::{Classification, Params as ProblemParams, Regression};
use smorust::{newton, smo, smonewt, NoCallback, StatusCode};

fn fx(x: f64) -> Fx {
    Fx { v: (x * FX_ONE as f64).round() as i64 }
}

fn to_f(x: Fx) -> f64 {
    x.v as f64 / FX_ONE as f64
}

fn rbf_matrix_1d(xs: &[f64], gamma: f64) -> Vec<Vec<Fx>> {
    let n = xs.len();
    let mut m = vec![vec![Fx { v: 0 }; n]; n];
    for i in 0..n {
        for j in 0..n {
            let d2 = (xs[i] - xs[j]).powi(2);
            m[i][j] = fx((-gamma * d2).exp());
        }
    }
    m
}

#[test]
fn newton_solves_the_separable_classification() {
    let xs = [-2.0, -1.0, 1.0, 2.0];
    let y = vec![fx(-1.0), fx(-1.0), fx(1.0), fx(1.0)];
    let problem = Classification::new(
        y,
        ProblemParams::new().with_lambda(fx(1e-3)).with_smoothing(fx(0.1)),
    );
    let mut kernel = PrecomputedKernel::from_matrix(rbf_matrix_1d(&xs, 1.0));
    let params = newton::Params::new().with_tol(fx(1e-5)).with_max_steps(500);
    let mut cb = NoCallback;
    let status = newton::solve(&problem, &mut kernel, &params, &mut cb);
    assert!(
        matches!(status.code, StatusCode::Optimal),
        "code {:?} violation {} value {} steps {} a {:?}",
        status.code,
        to_f(status.violation),
        to_f(status.value),
        status.steps,
        status.a.iter().map(|x| to_f(*x)).collect::<Vec<f64>>()
    );
    for i in 0..4 {
        let f_i = to_f(status.ka[i]) + to_f(status.b);
        let y_i = if i < 2 { -1.0 } else { 1.0 };
        assert!(f_i * y_i > 0.0, "sample {i} misclassified: {f_i}");
    }
}

#[test]
fn handoff_refines_the_smo_result() {
    let xs = [-2.0, -1.0, 1.0, 2.0];
    let y = vec![fx(-1.0), fx(-1.0), fx(1.0), fx(1.0)];
    let problem = Classification::new(
        y,
        ProblemParams::new().with_lambda(fx(1e-3)).with_smoothing(fx(0.1)),
    );
    let mut kernel = PrecomputedKernel::from_matrix(rbf_matrix_1d(&xs, 1.0));
    let params = smonewt::Params {
        smo: smo::Params::new().with_tol(fx(1e-3)).with_max_steps(100000),
        newton: newton::Params::new().with_tol(fx(1e-5)).with_max_steps(500),
    };
    let mut cb1 = NoCallback;
    let mut cb2 = NoCallback;
    let status = smonewt::solve(&problem, &mut kernel, &params, &mut cb1, &mut cb2);
    assert!(matches!(status.code, StatusCode::Optimal), "code {:?}", status.code);
    // the final scaled violation is below the refinement tolerance
    assert!(to_f(status.violation) * 1e-3 < 1e-5 + 1e-9);
    assert_eq!(status.a.len(), 4);
}

#[test]
fn regression_tracks_the_labels() {
    let xs = [0.0, 1.0, 2.0, 3.0, 4.0];
    let y: Vec<Fx> = xs.iter().map(|&v| fx(v)).collect();
    let problem = Regression::new(y, ProblemParams::new().with_lambda(fx(1e-2)))
        .with_epsilon(fx(0.01));
    // the regression problem doubles the variables: the kernel must too
    let base = rbf_matrix_1d(&xs, 0.1);
    let n = xs.len();
    let mut m = vec![vec![Fx { v: 0 }; 2 * n]; 2 * n];
    for i in 0..2 * n {
        for j in 0..2 * n {
            m[i][j] = base[i % n][j % n];
        }
    }
    let mut kernel = PrecomputedKernel::from_matrix(m);
    let mut params = smo::Params::new().with_tol(fx(5e-6)).with_max_steps(200000);
    params.second_order = false;
    let mut cb = NoCallback;
    let status = smo::solve(&problem, &mut kernel, &params, &mut cb);
    assert!(
        matches!(status.code, StatusCode::Optimal),
        "code {:?} violation {} value {}",
        status.code,
        to_f(status.violation),
        to_f(status.value)
    );
    // at the optimum the fit stays within the insensitivity band
    for i in 0..n {
        let f_i = to_f(status.ka[i]) + to_f(status.b);
        let err = (f_i - xs[i]).abs();
        assert!(err <= 0.01 + 5e-3, "sample {i} error {err}");
    }
}

#[test]
fn newton_params_builders_chain() {
    let p = newton::Params::new()
        .with_tol(fx(0.5))
        .with_max_steps(7)
        .with_verbose(3)
        .with_time_limit(123);
    assert_eq!(p.tol.v, fx(0.5).v);
    assert_eq!(p.max_steps, 7);
    assert_eq!(p.verbose, 3);
    assert_eq!(p.time_limit, 123);
    assert_eq!(p.max_back_steps, 8);
}

#[test]
fn newton_respects_the_step_limit() {
    let xs = [-2.0, -1.0, 1.0, 2.0];
    let y = vec![fx(-1.0), fx(-1.0), fx(1.0), fx(1.0)];
    let problem = Classification::new(
        y,
        ProblemParams::new().with_lambda(fx(1e-3)).with_smoothing(fx(0.1)),
    );
    let mut kernel = PrecomputedKernel::from_matrix(rbf_matrix_1d(&xs, 1.0));
    let params = newton::Params::new().with_tol(Fx { v: 1 }).with_max_steps(1);
    let mut cb = NoCallback;
    let status = newton::solve(&problem, &mut kernel, &params, &mut cb);
    assert!(
        matches!(status.code, StatusCode::MaxSteps | StatusCode::NoStepPossible),
        "code {:?}",
        status.code
    );
}
