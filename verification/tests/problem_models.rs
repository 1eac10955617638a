use smorust::fixed::{Fx, FX_ONE};
use smorust::kernel::PrecomputedKernel;
use smorust::problem::base::recompute_kernel_product;
use smorust::problem::{
    dual_objective, primal_objective, Classification, Params as ProblemParams, LSSVM,
};
use smorust::{newton, smo, NoCallback, Status, StatusCode};

fn fx(x: f64) -> Fx {
    Fx { v: (x * FX_ONE as f64).round() as i64 }
}

fn to_f(x: Fx) -> f64 {
    x.v as f64 / FX_ONE as f64
}

fn rbf_matrix_1d(xs: &[f64], gamma: f64) -> Vec<Vec<Fx>> {
    let n = xs.len();
    let mut m = vec![vec![Fx { v: 0 }; n]; n];
    for i in 0..n {
        for j in 0..n {
            let d2 = (xs[i] - xs[j]).powi(2);
            m[i][j] = fx((-gamma * d2).exp());
        }
    }
    m
}

#[test]
fn recompute_kernel_product_matches_a_direct_product() {
    // ka must equal (1 / lambda) * K * a on the active columns
    let xs = [0.0, 0.7, 1.9, 3.1];
    let n = xs.len();
    let lambda = 0.25;
    let y = vec![fx(1.0), fx(-1.0), fx(1.0), fx(-1.0)];
    let problem = Classification::new(y, ProblemParams::new().with_lambda(fx(lambda)));
    let matrix = rbf_matrix_1d(&xs, 0.5);
    let mut kernel = PrecomputedKernel::from_matrix(matrix.clone());
    let mut status = Status::new(n);
    status.a[0] = fx(0.5);
    status.a[2] = fx(-0.75);
    let active: Vec<usize> = (0..n).collect();
    recompute_kernel_product(&problem, &mut kernel, &mut status, &active);
    for k in 0..n {
        let expect = (to_f(status.a[0]) / lambda) * to_f(matrix[0][k])
            + (to_f(status.a[2]) / lambda) * to_f(matrix[2][k]);
        assert!((to_f(status.ka[k]) - expect).abs() < 1e-7, "column {k}");
    }
}

#[test]
fn objectives_of_the_zero_point() {
    let y = vec![fx(1.0), fx(-1.0)];
    let problem = Classification::new(y, ProblemParams::new());
    let status = Status::new(2);
    // at zero the dual objective vanishes and the primal objective is the
    // sum of the losses at decision value zero: 2 * max(1 - 0, 0) = 2
    assert_eq!(dual_objective(&problem, &status).v, 0);
    assert_eq!(primal_objective(&problem, &status).v, fx(2.0).v);
}

#[test]
fn least_squares_problem_is_solved_by_newton() {
    let xs = [0.0, 1.0, 2.0];
    let y = vec![fx(0.5), fx(-0.25), fx(1.0)];
    let problem = LSSVM::new(y.clone(), ProblemParams::new().with_lambda(fx(0.5)));
    let mut kernel = PrecomputedKernel::from_matrix(rbf_matrix_1d(&xs, 0.3));
    let params = newton::Params::new().with_tol(fx(1e-6)).with_max_steps(200);
    let mut cb = NoCallback;
    let status = newton::solve(&problem, &mut kernel, &params, &mut cb);
    assert!(
        matches!(status.code, StatusCode::Optimal),
        "code {:?} violation {}",
        status.code,
        to_f(status.violation)
    );
    // stationarity of the squared loss: a_i = y_i - f(x_i)
    for i in 0..3 {
        let f_i = to_f(status.ka[i]) + to_f(status.b);
        let residual = to_f(y[i]) - f_i;
        assert!(
            (to_f(status.a[i]) - residual).abs() < 1e-3,
            "sample {i}: a = {}, residual = {residual}",
            to_f(status.a[i])
        );
    }
}

#[test]
fn least_squares_problem_is_solved_by_smo() {
    let xs = [0.0, 1.0, 2.0];
    let y = vec![fx(0.5), fx(-0.25), fx(1.0)];
    let problem = LSSVM::new(y, ProblemParams::new().with_lambda(fx(0.5)));
    let mut kernel = PrecomputedKernel::from_matrix(rbf_matrix_1d(&xs, 0.3));
    let params = smo::Params::new().with_tol(fx(1e-6)).with_max_steps(100000);
    let mut cb = NoCallback;
    let status = smo::solve(&problem, &mut kernel, &params, &mut cb);
    assert!(
        matches!(status.code, StatusCode::Optimal),
        "code {:?} violation {}",
        status.code,
        to_f(status.violation)
    );
}

#[test]
fn an_impossible_line_search_reports_no_step() {
    let xs = [-2.0, -1.0, 1.0, 2.0];
    let y = vec![fx(-1.0), fx(-1.0), fx(1.0), fx(1.0)];
    let problem = Classification::new(
        y,
        ProblemParams::new().with_lambda(fx(1e-3)).with_smoothing(fx(0.1)),
    );
    let mut kernel = PrecomputedKernel::from_matrix(rbf_matrix_1d(&xs, 1.0));
    // an absurd acceptance factor rejects every candidate step
    let mut params = newton::Params::new().with_tol(Fx { v: 1 }).with_max_steps(50);
    params.sigma = Fx { v: i64::MAX };
    let mut cb = NoCallback;
    let status = newton::solve(&problem, &mut kernel, &params, &mut cb);
    assert!(
        matches!(status.code, StatusCode::NoStepPossible),
        "code {:?}",
        status.code
    );
}

#[test]
fn classification_with_shift_changes_the_losses() {
    let y = vec![fx(1.0)];
    let problem = Classification::new(y, ProblemParams::new()).with_shift(fx(2.0));
    let status = Status::new(1);
    // the primal loss at zero is now max(2 - 0, 0) = 2
    assert_eq!(primal_objective(&problem, &status).v, fx(2.0).v);
}
