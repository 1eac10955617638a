//! Combination of SMO and Newton's method.
use vstd::prelude::*;

use crate::fixed::fx_prod;
use crate::kernel::{active_all, full_seq, Kernel};
use crate::newton;
use crate::problem::base::recompute_kernel_product;
use crate::problem::Problem;
use crate::smo;
use crate::status::{Status, StatusCode};
use crate::Callback;

verus! {

/// Parameters of the combined method.
#[derive(Clone, Copy, Debug)]
pub struct Params {
    /// Parameters of the SMO phase.
    pub smo: smo::Params,
    /// Parameters of the Newton phase.
    pub newton: newton::Params,
}

impl Params {
    /// Creates a new [`Params`] struct with default parameter values for
    /// both phases.
    pub fn new() -> (r: Params)
        ensures
            r.smo.tol.v == 107374,
            r.smo.max_steps == usize::MAX,
            r.smo.shrinking_period == 0,
            r.newton.tol.v == 11,
            r.newton.max_steps == usize::MAX,
            r.newton.sigma.v == 1073742,
            r.newton.eta.v == 107374182,
            r.newton.max_back_steps == 8,
    {
        Params { smo: smo::Params::new(), newton: newton::Params::new() }
    }
}

/// Uses a combination of SMO and Newton's method to solve the given
/// training problem starting from the default initial point: the SMO
/// phase runs to its own termination, the kernel product is recomputed on
/// the full index range, and the Newton phase refines the result.
pub fn solve<P: Problem, K: Kernel, C1: Callback, C2: Callback>(
    problem: &P,
    kernel: &mut K,
    params: &Params,
    callback_smo: &mut C1,
    callback_newton: &mut C2,
) -> (r: Status)
    requires
        problem.wf(),
        problem.spec_size() >= 1,
        old(kernel).wf(),
        old(kernel).spec_size() == problem.spec_size(),
        old(kernel).active_ok(full_seq(problem.spec_size())),
        old(kernel).spec_max_rows() >= 2,
        params.newton.sigma.v >= 0,
    ensures
        r.sized(problem.spec_size()),
        r.code == StatusCode::Optimal || r.code == StatusCode::MaxSteps || r.code
            == StatusCode::TimeLimit || r.code == StatusCode::Callback || r.code
            == StatusCode::NoStepPossible,
        r.code == StatusCode::Optimal ==> fx_prod(
            problem.spec_params().lambda.v as int,
            r.violation.v as int,
        ) < params.newton.tol.v as int,
        r.code == StatusCode::Optimal ==> (newton::dec_consistent(problem, r) && newton::ka_fresh(
            problem,
            old(kernel),
            r,
        )),
        r.code == StatusCode::NoStepPossible ==> (fx_prod(
            problem.spec_params().lambda.v as int,
            r.violation.v as int,
        ) >= params.newton.tol.v as int && newton::dec_consistent(problem, r)),
        r.code == StatusCode::MaxSteps ==> r.steps == params.newton.max_steps,
        r.code == StatusCode::TimeLimit ==> (params.newton.time_limit > 0 && r.time
            >= params.newton.time_limit),
{
    let n = problem.size();
    let mut status = smo::solve(problem, kernel, &params.smo, callback_smo);
    let full = active_all(n);
    let empty: Vec<usize> = Vec::new();
    kernel.set_active(&empty, &full);
    recompute_kernel_product(problem, kernel, &mut status, &full);
    let ghost k_mid = *kernel;
    proof {
        assert(full@ =~= full_seq(problem.spec_size()));
    }
    let r = newton::solve_with_status(status, problem, kernel, &params.newton, callback_newton);
    proof {
        if r.code == StatusCode::Optimal {
            assert forall|j: int| 0 <= j < problem.spec_size() implies (#[trigger] r.ka@[j]).v
                == crate::problem::base::ka_col_sum(
                old(kernel),
                r.a@,
                problem.spec_params().lambda,
                j,
                problem.spec_size(),
            ) by {
                crate::problem::base::lemma_ka_col_sum_congruent(
                    &k_mid,
                    old(kernel),
                    r.a@,
                    problem.spec_params().lambda,
                    j,
                    problem.spec_size(),
                );
            }
        }
    }
    r
}

} // verus!
