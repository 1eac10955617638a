use smorust::fixed::{Fx, FX_ONE};
use smorust::kernel::{Kernel, PrecomputedKernel};
use smorust::problem::{Classification, Params as ProblemParams};
use smorust::{smo, Callback, NoCallback, Status, StatusCode};

fn fx(x: f64) -> Fx {
    Fx { v: (x * FX_ONE as f64).round() as i64 }
}

fn to_f(x: Fx) -> f64 {
    x.v as f64 / FX_ONE as f64
}

fn rbf_matrix(xs: &[(f64, f64)], gamma: f64) -> Vec<Vec<Fx>> {
    let n = xs.len();
    let mut m = vec![vec![Fx { v: 0 }; n]; n];
    for i in 0..n {
        for j in 0..n {
            let d2 = (xs[i].0 - xs[j].0).powi(2) + (xs[i].1 - xs[j].1).powi(2);
            m[i][j] = fx((-gamma * d2).exp());
        }
    }
    m
}

fn separable_problem(max_asum: Option<f64>) -> (Classification, PrecomputedKernel) {
    let xs = [(-2.0, 0.0), (-1.0, 0.0), (1.0, 0.0), (2.0, 0.0)];
    let y = vec![fx(-1.0), fx(-1.0), fx(1.0), fx(1.0)];
    let mut params = ProblemParams::new().with_lambda(fx(1e-3));
    if let Some(a) = max_asum {
        params = params.with_max_asum(fx(a));
    }
    let problem = Classification::new(y, params);
    let kernel = PrecomputedKernel::from_matrix(rbf_matrix(&xs, 1.0));
    (problem, kernel)
}

fn smo_params() -> smo::Params {
    smo::Params::new().with_tol(fx(1e-6)).with_max_steps(100000)
}

#[test]
fn separable_classification_reaches_optimality() {
    let (problem, mut kernel) = separable_problem(None);
    let mut cb = NoCallback;
    let status = smo::solve(&problem, &mut kernel, &smo_params(), &mut cb);
    assert!(matches!(status.code, StatusCode::Optimal));
    // lambda * violation < tol, so violation < 1e-3
    assert!(to_f(status.violation) < 1.2e-3);
    // symmetric samples get (nearly) equal coefficients
    assert!((to_f(status.a[0]).abs() - to_f(status.a[3]).abs()).abs() < 1e-4);
    assert!((to_f(status.a[1]).abs() - to_f(status.a[2]).abs()).abs() < 1e-4);
    // the bias vanishes by symmetry
    assert!(to_f(status.b).abs() < 1e-3);
    // every training point is classified correctly
    for i in 0..4 {
        let f_i = to_f(status.ka[i]) + to_f(status.b);
        let y_i = if i < 2 { -1.0 } else { 1.0 };
        assert!(f_i * y_i > 0.0, "sample {i} misclassified: {f_i}");
    }
}

#[test]
fn one_norm_budget_is_respected_and_saturated() {
    // the unconstrained optimum of this problem has a signed coefficient
    // sum of about 0.0029, so a budget of 0.002 binds
    let budget = 0.002;
    let (problem, mut kernel) = separable_problem(Some(budget));
    let mut cb = NoCallback;
    let status = smo::solve(&problem, &mut kernel, &smo_params(), &mut cb);
    assert!(matches!(status.code, StatusCode::Optimal), "code {:?}", status.code);
    // the signed coefficient sum saturates the budget
    let asum: f64 = (0..4)
        .map(|i| {
            let s = if i < 2 { -1.0 } else { 1.0 };
            s * to_f(status.a[i])
        })
        .sum();
    assert!((asum - budget).abs() < 1e-6, "asum = {asum}");
    assert!((to_f(status.asum) - budget).abs() < 1e-6);
    // the shift engages
    assert!(to_f(status.c).abs() > 1e-9);
}

#[test]
fn a_loose_one_norm_budget_does_not_bind() {
    let (problem, mut kernel) = separable_problem(Some(1.0));
    let mut cb = NoCallback;
    let status = smo::solve(&problem, &mut kernel, &smo_params(), &mut cb);
    assert!(matches!(status.code, StatusCode::Optimal));
    let asum: f64 = (0..4)
        .map(|i| {
            let s = if i < 2 { -1.0 } else { 1.0 };
            s * to_f(status.a[i])
        })
        .sum();
    assert!(asum < 1.0);
    assert_eq!(status.c.v, 0);
}

#[test]
fn zero_step_budget_returns_the_result_unchanged() {
    let (problem, mut kernel) = separable_problem(None);
    let mut cb = NoCallback;
    let status = smo::solve(&problem, &mut kernel, &smo_params(), &mut cb);
    assert!(matches!(status.code, StatusCode::Optimal));
    let frozen = smo::Params::new().with_tol(fx(1e-6)).with_max_steps(0);
    let replay = smo::solve_with_status(
        status.clone(),
        &problem,
        &mut kernel,
        &frozen,
        &mut cb,
    );
    for i in 0..4 {
        assert_eq!(replay.a[i].v, status.a[i].v);
        assert_eq!(replay.ka[i].v, status.ka[i].v);
        assert_eq!(replay.g[i].v, status.g[i].v);
    }
    assert_eq!(replay.b.v, status.b.v);
    assert_eq!(replay.c.v, status.c.v);
    assert_eq!(replay.violation.v, status.violation.v);
    assert_eq!(replay.value.v, status.value.v);
    assert_eq!(replay.asum.v, status.asum.v);
    assert!(matches!(replay.code, StatusCode::Optimal));
}

/// Records every objective value the solver reports to its callback.
struct ValueRecorder {
    values: Vec<i64>,
}

impl Callback for ValueRecorder {
    fn stop(&mut self, status: &Status) -> bool {
        self.values.push(status.value.v);
        false
    }
}

#[test]
fn smo_never_increases_the_objective_value() {
    let (problem, mut kernel) = separable_problem(None);
    let mut cb = ValueRecorder { values: Vec::new() };
    let status = smo::solve(&problem, &mut kernel, &smo_params(), &mut cb);
    assert!(matches!(status.code, StatusCode::Optimal));
    for w in cb.values.windows(2) {
        assert!(w[1] <= w[0], "objective value increased: {} -> {}", w[0], w[1]);
    }
    assert!(status.value.v <= cb.values[0]);
}

#[test]
fn shrinking_keeps_the_result_optimal() {
    let (problem, mut kernel) = separable_problem(None);
    let mut cb = NoCallback;
    let params = smo_params().with_shrinking_period(2);
    let status = smo::solve(&problem, &mut kernel, &params, &mut cb);
    assert!(matches!(status.code, StatusCode::Optimal));
    assert!(to_f(status.violation) < 1.2e-3);
}

#[test]
fn time_limit_cancels_a_large_problem() {
    // a pathologically sized problem with a one-millisecond budget
    let n = 2000usize;
    let y: Vec<Fx> = (0..n).map(|i| if i % 2 == 0 { fx(1.0) } else { fx(-1.0) }).collect();
    let mut m = vec![vec![Fx { v: 0 }; n]; n];
    for i in 0..n {
        for j in 0..n {
            let d = (i as f64 - j as f64) / n as f64;
            m[i][j] = fx((-d * d).exp());
        }
    }
    let problem = Classification::new(y, ProblemParams::new().with_lambda(fx(1e-3)));
    let mut kernel = PrecomputedKernel::from_matrix(m);
    let params = smo::Params::new().with_tol(fx(1e-9)).with_time_limit(1000);
    let mut cb = NoCallback;
    let status = smo::solve(&problem, &mut kernel, &params, &mut cb);
    assert!(matches!(status.code, StatusCode::TimeLimit));
    assert_eq!(status.a.len(), n);
    assert_eq!(status.ka.len(), n);
    assert_eq!(status.g.len(), n);
}

#[test]
fn callback_stops_the_solver() {
    struct StopAtOnce;
    impl Callback for StopAtOnce {
        fn stop(&mut self, _status: &Status) -> bool {
            true
        }
    }
    let (problem, mut kernel) = separable_problem(None);
    let mut cb = StopAtOnce;
    let status = smo::solve(&problem, &mut kernel, &smo_params(), &mut cb);
    assert!(matches!(status.code, StatusCode::Callback));
}

#[test]
fn max_steps_limits_the_solver() {
    let (problem, mut kernel) = separable_problem(None);
    let mut cb = NoCallback;
    let params = smo::Params::new().with_tol(Fx { v: 1 }).with_max_steps(1);
    let status = smo::solve(&problem, &mut kernel, &params, &mut cb);
    assert!(matches!(status.code, StatusCode::MaxSteps));
}

#[test]
fn one_dimensional_newton_finds_the_minimum() {
    // minimize (x - 2)^2 on [0, 10]: value, derivative and curvature
    let f = |x: Fx| -> (Fx, Fx, Fx) {
        let d = x.sub(fx(2.0));
        (d.mul(d), d.add(d), fx(2.0))
    };
    let (x, v) = smo::newton(&f, Fx { v: 0 }, fx(10.0));
    assert!((to_f(x) - 2.0).abs() < 1e-5, "x = {}", to_f(x));
    assert!(to_f(v).abs() < 1e-5);
}

#[test]
fn compute_step_takes_the_closed_form_step() {
    // a single-variable pair on a quadratic problem: the step is the
    // unconstrained minimizer p / q clamped into the feasible interval
    let y = vec![fx(1.0), fx(-1.0)];
    let problem = Classification::new(y, ProblemParams::new());
    let mut status = Status::new(2);
    status.a[0] = fx(0.5);
    status.ka[0] = fx(3.0);
    status.ka[1] = fx(-1.0);
    let sprob = smo::Subproblem {
        ij: (0, 1),
        max_t: fx(0.25),
        q0: fx(2.0),
        p0: fx(4.0),
    };
    let step = smo::compute_step(&problem, sprob, &status);
    // p = p0 + d_dloss(0, 0.5) - d_dloss(1, 0) = 4 - 1 - 1 = 2 (labels
    // contribute -y * shift), q = q0 = 2, so the raw step 1 exceeds the
    // bound 0.25
    assert_eq!(step.t.v, fx(0.25).v);
    assert!(step.dvalue.v <= 0);
}
