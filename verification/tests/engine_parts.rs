use smorust::fixed::{Fx, FX_ONE};
use smorust::kernel::PrecomputedKernel;
use smorust::newton::{gradient, solve_lin, ActiveSet, Direction, Sums};
use smorust::newton::StatusExtended;
use smorust::problem::{Classification, Params as ProblemParams};
use smorust::smo::find_mvp;
use smorust::Status;

fn fx(x: f64) -> Fx {
    Fx { v: (x * FX_ONE as f64).round() as i64 }
}

fn to_f(x: Fx) -> f64 {
    x.v as f64 / FX_ONE as f64
}

#[test]
fn find_mvp_selects_the_most_violating_pair() {
    let y = vec![fx(1.0), fx(-1.0)];
    let problem = Classification::new(y, ProblemParams::new());
    let mut status = Status::new(2);
    status.ka[0] = fx(0.5);
    status.ka[1] = fx(-0.5);
    let active: Vec<usize> = vec![0, 1];
    let (idx_i, idx_j) = find_mvp(&problem, &mut status, &active);
    // gradients are ka[i] - y[i]: -0.5 for the first sample, 0.5 for the
    // second; only the second may move up, only the first may move down
    assert_eq!(status.g[0].v, fx(-0.5).v);
    assert_eq!(status.g[1].v, fx(0.5).v);
    assert_eq!(idx_i, 1);
    assert_eq!(idx_j, 0);
    assert_eq!(status.violation.v, fx(1.0).v);
    // b = -(gmax + gmin) / 2 = 0
    assert_eq!(status.b.v, 0);
}

#[test]
fn solve_lin_solves_a_diagonal_system() {
    let mat = vec![
        vec![fx(2.0), fx(0.0)],
        vec![fx(0.0), fx(4.0)],
    ];
    let rhs = vec![vec![fx(2.0), fx(8.0)]];
    let sols = solve_lin(&mat, &rhs).expect("regular system");
    assert!((to_f(sols[0][0]) - 1.0).abs() < 1e-8);
    assert!((to_f(sols[0][1]) - 2.0).abs() < 1e-8);
}

#[test]
fn solve_lin_solves_a_full_system_with_pivoting() {
    // [[0, 2], [3, 1]] x = [4, 5]  =>  x = [1, 2]
    let mat = vec![
        vec![fx(0.0), fx(2.0)],
        vec![fx(3.0), fx(1.0)],
    ];
    let rhs = vec![vec![fx(4.0), fx(5.0)]];
    let sols = solve_lin(&mat, &rhs).expect("regular system");
    assert!((to_f(sols[0][0]) - 1.0).abs() < 1e-7);
    assert!((to_f(sols[0][1]) - 2.0).abs() < 1e-7);
}

#[test]
fn solve_lin_rejects_a_singular_system() {
    let mat = vec![
        vec![fx(1.0), fx(2.0)],
        vec![fx(2.0), fx(4.0)],
    ];
    let rhs = vec![vec![fx(1.0), fx(2.0)]];
    assert!(solve_lin(&mat, &rhs).is_none());
}

#[test]
fn gradient_direction_is_coefficient_plus_derivative() {
    let y = vec![fx(1.0), fx(-1.0)];
    let lambda = 0.5;
    let problem = Classification::new(y, ProblemParams::new().with_lambda(fx(lambda)));
    let mut kernel = PrecomputedKernel::from_matrix(vec![
        vec![fx(1.0), fx(0.0)],
        vec![fx(0.0), fx(1.0)],
    ]);
    let mut status = Status::new(2);
    status.a[0] = fx(0.25);
    status.g[0] = fx(-1.0);
    status.g[1] = fx(1.0);
    let mut sums = Sums::new();
    sums.g = fx(0.5);
    let mut ext = StatusExtended {
        status,
        dir: Direction::new(2),
        active: ActiveSet::new(2),
        sums,
        h: vec![Fx { v: 0 }; 2],
        ki: vec![Fx { v: 0 }; 2],
    };
    gradient(&problem, &mut kernel, &mut ext);
    assert_eq!(ext.dir.a[0].v, fx(-0.75).v);
    assert_eq!(ext.dir.a[1].v, fx(1.0).v);
    assert!((to_f(ext.dir.b) - 0.5 / lambda).abs() < 1e-8);
}

#[test]
fn active_set_partitions_and_merges() {
    let mut act = ActiveSet::new(6);
    act.positive = vec![1, 4];
    act.zeros = vec![2, 5];
    act.merge();
    assert_eq!(act.size_positive, 2);
    assert_eq!(act.all(), vec![1, 4, 2, 5]);
    assert_eq!(act.positives(), vec![1, 4]);
    assert_eq!(act.zeros(), vec![2, 5]);
    act.make_full();
    assert_eq!(act.all(), vec![0, 1, 2, 3, 4, 5]);
}
