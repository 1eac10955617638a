//! The SMO outer loop.
use vstd::prelude::*;

use crate::fixed::{fx_prod, Fx};
use crate::kernel::{active_all, full_seq, lemma_full_active_is_identity, lemma_valid_active_len,
    valid_active, Kernel};
use crate::problem::{dual_loss_sum, in_box, shrink, unshrink, DualProblem};
use crate::smo::update::update;
use crate::smo::ws::{find_mvp, find_ws2, grad_value, mvp_outcome};
use crate::smo::Params;
use crate::status::{Status, StatusCode};
use crate::Callback;

verus! {

/// The gradients, bias, shift and violation stored in a status are
/// exactly what [`find_mvp`] would recompute from its coefficients and
/// kernel product on the given active set.
pub open spec fn mvp_consistent<P: DualProblem>(problem: &P, st: Status, act: Seq<usize>) -> bool {
    let o = mvp_outcome(problem, st, act);
    st.b.v == o.0 && st.c.v == o.1 && st.violation.v == o.2 && forall|p: int|
        0 <= p < act.len() ==> (#[trigger] st.g@[act[p] as int]).v == grad_value(
            problem,
            st,
            act[p] as int,
        )
}

/// Uses the SMO method to solve the given training problem starting from
/// a particular [`Status`].
///
/// The objective value never grows across the solve; the returned code
/// says why the solve ended, and `Optimal` means that the final scaled
/// violation is below the tolerance.  With a zero step budget, no
/// shrinking, and a status whose derived quantities are already
/// consistent, the solve returns its input unchanged up to the
/// diagnostic counters, and keeps the code `Optimal` where the scaled
/// violation is already under the tolerance.  The problem must have at
/// least one variable: the most-violating-pair scan is not defined on an
/// empty set, so a caller with no samples keeps its initial point.
#[verifier::rlimit(100)]
pub fn solve_with_status<P: DualProblem, K: Kernel, C: Callback>(
    status: Status,
    problem: &P,
    kernel: &mut K,
    params: &Params,
    callback: &mut C,
) -> (r: Status)
    requires
        problem.wf(),
        problem.spec_size() >= 1,
        old(kernel).wf(),
        old(kernel).spec_size() == problem.spec_size(),
        old(kernel).active_ok(full_seq(problem.spec_size())),
        old(kernel).spec_max_rows() >= 2,
        status.sized(problem.spec_size()),
        forall|i: int| 0 <= i < problem.spec_size() ==> in_box(problem, status.a@, i),
    ensures
        r.sized(problem.spec_size()),
        forall|i: int| 0 <= i < problem.spec_size() ==> in_box(problem, r.a@, i),
        r.value.v <= status.value.v,
        r.code == StatusCode::Optimal || r.code == StatusCode::MaxSteps || r.code
            == StatusCode::TimeLimit || r.code == StatusCode::Callback,
        r.code == StatusCode::Optimal ==> fx_prod(
            problem.spec_params().lambda.v as int,
            r.violation.v as int,
        ) < params.tol.v as int,
        r.code == StatusCode::Optimal ==> mvp_consistent(
            problem,
            r,
            full_seq(problem.spec_size()),
        ),
        r.code == StatusCode::MaxSteps ==> r.steps == params.max_steps,
        r.code == StatusCode::TimeLimit ==> (params.time_limit > 0 && r.time
            >= params.time_limit),
        status.asum.v <= problem.spec_params().max_asum.v ==> r.asum.v
            <= problem.spec_params().max_asum.v,
        (params.max_steps == 0 && params.shrinking_period == 0 && mvp_consistent(
            problem,
            status,
            full_seq(problem.spec_size()),
        )) ==> (r.a@ == status.a@ && r.ka@ == status.ka@ && r.b == status.b && r.c == status.c
            && r.g@ == status.g@ && r.violation == status.violation && r.value == status.value
            && r.asum == status.asum),
        (params.max_steps == 0 && params.shrinking_period == 0 && mvp_consistent(
            problem,
            status,
            full_seq(problem.spec_size()),
        ) && fx_prod(problem.spec_params().lambda.v as int, status.violation.v as int)
            < params.tol.v as int) ==> r.code == StatusCode::Optimal,
        final(kernel).wf(),
        final(kernel).spec_size() == old(kernel).spec_size(),
        forall|i: int, j: int| final(kernel).entry(i, j) == old(kernel).entry(i, j),
        final(kernel).spec_max_rows() == old(kernel).spec_max_rows(),
{
    let ghost init = status;
    let mut status = status;
    let start = crate::time::now();
    let n = problem.size();
    let mut active_set = active_all(n);
    proof {
        assert(active_set@ =~= full_seq(n as int));
    }
    let mut step: usize = 0;
    let mut stop = false;
    let mut last_i: usize = 0;
    let mut last_j: usize = 0;
    let mut just_unshrunk = false;
    loop
        invariant_except_break
            !stop,
        invariant
            problem.wf(),
            n as int == problem.spec_size(),
            n >= 1,
            kernel.wf(),
            kernel.spec_size() == problem.spec_size(),
            forall|p: int, q: int| kernel.entry(p, q) == old(kernel).entry(p, q),
            kernel.active_ok(active_set@),
            kernel.spec_max_rows() == old(kernel).spec_max_rows(),
            kernel.spec_max_rows() >= 2,
            valid_active(active_set@, problem.spec_size()),
            active_set@.len() >= 1,
            status.sized(problem.spec_size()),
            forall|i: int| 0 <= i < problem.spec_size() ==> in_box(problem, status.a@, i),
            status.value.v <= init.value.v,
            init.asum.v <= problem.spec_params().max_asum.v ==> status.asum.v
                <= problem.spec_params().max_asum.v,
            step <= params.max_steps,
            just_unshrunk ==> active_set@.len() == n,
            (params.max_steps == 0 && params.shrinking_period == 0 && mvp_consistent(
                problem,
                init,
                full_seq(problem.spec_size()),
            )) ==> (step == 0 && !just_unshrunk && active_set@ == full_seq(problem.spec_size())
                && status.a@ == init.a@ && status.ka@ == init.ka@ && status.b == init.b
                && status.c == init.c && status.g@ == init.g@ && status.violation
                == init.violation && status.value == init.value && status.asum == init.asum),
        ensures
            status.sized(problem.spec_size()),
            forall|i: int| 0 <= i < problem.spec_size() ==> in_box(problem, status.a@, i),
            status.value.v <= init.value.v,
            status.code == StatusCode::Optimal || status.code == StatusCode::MaxSteps
                || status.code == StatusCode::TimeLimit || status.code == StatusCode::Callback,
            status.code == StatusCode::Optimal ==> fx_prod(
                problem.spec_params().lambda.v as int,
                status.violation.v as int,
            ) < params.tol.v as int,
            status.code == StatusCode::Optimal ==> mvp_consistent(
                problem,
                status,
                full_seq(problem.spec_size()),
            ),
            status.code == StatusCode::MaxSteps ==> status.steps == params.max_steps,
            status.code == StatusCode::TimeLimit ==> (params.time_limit > 0 && status.time
                >= params.time_limit),
            init.asum.v <= problem.spec_params().max_asum.v ==> status.asum.v
                <= problem.spec_params().max_asum.v,
            (params.max_steps == 0 && params.shrinking_period == 0 && mvp_consistent(
                problem,
                init,
                full_seq(problem.spec_size()),
            )) ==> (status.a@ == init.a@ && status.ka@ == init.ka@ && status.b == init.b
                && status.c == init.c && status.g@ == init.g@ && status.violation
                == init.violation && status.value == init.value && status.asum == init.asum),
            (params.max_steps == 0 && params.shrinking_period == 0 && mvp_consistent(
                problem,
                init,
                full_seq(problem.spec_size()),
            ) && fx_prod(problem.spec_params().lambda.v as int, init.violation.v as int)
                < params.tol.v as int) ==> status.code == StatusCode::Optimal,
        decreases (params.max_steps - step), (if just_unshrunk {
            0int
        } else {
            1int
        }),
    {
        // update steps and time
        status.steps = step;
        let elapsed = crate::time::until_now(&start);
        status.time = elapsed;

        // handle step limit
        if step >= params.max_steps {
            status.code = StatusCode::MaxSteps;
            stop = true;
        }
        // handle time limit
        if params.time_limit > 0 && elapsed >= params.time_limit {
            status.code = StatusCode::TimeLimit;
            stop = true;
        }
        // handle callback
        if callback.stop(&status) {
            status.code = StatusCode::Callback;
            stop = true;
        }

        // handle shrinking
        if params.shrinking_period > 0 && !just_unshrunk && step % params.shrinking_period
            == 0 {
            shrink(problem, kernel, &status, &mut active_set, params.shrinking_threshold);
            if active_set.len() == 0 {
                // every variable looked converged: restore the full set
                unshrink(problem, kernel, &mut status, &mut active_set);
            }
        }

        // check for optimality
        let ghost st_pre_mvp = status;
        let pair = find_mvp(problem, &mut status, &active_set);
        let idx_i0 = pair.0;
        let idx_j1 = pair.1;
        let optimal = problem.is_optimal(&status, params.tol);
        if optimal {
            status.code = StatusCode::Optimal;
            stop = true;
        }

        // unshrink if necessary
        if optimal && problem.is_shrunk(&status, &active_set) {
            unshrink(problem, kernel, &mut status, &mut active_set);
            stop = false;
            just_unshrunk = true;
            continue ;
        }

        // terminate
        if stop {
            proof {
                if status.code == StatusCode::Optimal {
                    let act = active_set@;
                    let m = act.len() as int;
                    lemma_valid_active_len(act, n as int);
                    lemma_full_active_is_identity(act, n as int);
                    crate::smo::ws::lemma_mvp_scan_same(
                        problem,
                        status,
                        st_pre_mvp,
                        act,
                        Fx { v: crate::fixed::FX_ONE },
                        m,
                    );
                    crate::smo::ws::lemma_mvp_scan_same(
                        problem,
                        status,
                        st_pre_mvp,
                        act,
                        Fx { v: (-crate::fixed::FX_ONE) as i64 },
                        m,
                    );
                    crate::smo::ws::lemma_mvp_scan_same(
                        problem,
                        status,
                        st_pre_mvp,
                        act,
                        Fx { v: 0 },
                        m,
                    );
                    assert(mvp_outcome(problem, status, act) == mvp_outcome(
                        problem,
                        st_pre_mvp,
                        act,
                    ));
                    assert forall|p: int|
                        0 <= p < act.len() implies (#[trigger] status.g@[act[p] as int]).v
                        == grad_value(problem, status, act[p] as int) by {
                        assert(status.g@[act[p] as int].v == grad_value(
                            problem,
                            st_pre_mvp,
                            act[p] as int,
                        ));
                    }
                    assert(mvp_consistent(problem, status, act));
                }
                if params.max_steps == 0 && params.shrinking_period == 0 && mvp_consistent(
                    problem,
                    init,
                    full_seq(problem.spec_size()),
                ) {
                    let act = active_set@;
                    let m = act.len() as int;
                    crate::smo::ws::lemma_mvp_scan_same(
                        problem,
                        st_pre_mvp,
                        init,
                        act,
                        Fx { v: crate::fixed::FX_ONE },
                        m,
                    );
                    crate::smo::ws::lemma_mvp_scan_same(
                        problem,
                        st_pre_mvp,
                        init,
                        act,
                        Fx { v: (-crate::fixed::FX_ONE) as i64 },
                        m,
                    );
                    crate::smo::ws::lemma_mvp_scan_same(
                        problem,
                        st_pre_mvp,
                        init,
                        act,
                        Fx { v: 0 },
                        m,
                    );
                    assert(mvp_outcome(problem, st_pre_mvp, act) == mvp_outcome(
                        problem,
                        init,
                        act,
                    ));
                    assert forall|jq: int| 0 <= jq < n implies status.g@[jq] == init.g@[jq] by {
                        assert(act[jq] == jq as usize);
                        assert(status.g@[act[jq] as int].v == grad_value(
                            problem,
                            st_pre_mvp,
                            act[jq] as int,
                        ));
                        assert(init.g@[act[jq] as int].v == grad_value(
                            problem,
                            init,
                            act[jq] as int,
                        ));
                    }
                    assert(status.g@ =~= init.g@);
                    // with the recomputed violation under the tolerance, the
                    // optimality test held and set the code accordingly
                    if fx_prod(
                        problem.spec_params().lambda.v as int,
                        init.violation.v as int,
                    ) < params.tol.v as int {
                        assert(status.violation == init.violation);
                        assert(status.code == StatusCode::Optimal);
                    }
                }
            }
            break ;
        }

        // determine the working set
        let mut idx_i = idx_i0;
        let mut idx_j = idx_j1;
        if params.second_order {
            let sgn = if problem.has_max_asum() && status.asum.v == problem.max_asum().v {
                problem.sign(active_set[idx_i0])
            } else {
                Fx { v: 0 }
            };
            let w2 = find_ws2(problem, kernel, idx_i0, idx_j1, &status, &active_set, sgn);
            if w2.0 != last_i || w2.1 != last_j {
                idx_i = w2.0;
                idx_j = w2.1;
            }
        }
        last_i = idx_i;
        last_j = idx_j;

        // update the selected variables
        let ghost st_pre_update = status;
        update(problem, kernel, idx_i, idx_j, &mut status, &active_set);
        proof {
            assert forall|q: int| 0 <= q < problem.spec_size() implies in_box(
                problem,
                status.a@,
                q,
            ) by {
                if exists|p: int|
                    0 <= p < active_set@.len() && (#[trigger] active_set@[p] as int) == q {
                    let p = choose|p: int|
                        0 <= p < active_set@.len() && (#[trigger] active_set@[p] as int) == q;
                    assert(in_box(problem, status.a@, active_set@[p] as int));
                } else {
                    assert(status.a@[q] == st_pre_update.a@[q]);
                    assert(in_box(problem, st_pre_update.a@, q));
                }
            }
        }
        just_unshrunk = false;
        step = step + 1;
    }
    status
}

/// Uses the SMO method to solve the given training problem starting from
/// the default initial point, whose value is the dual objective at zero.
pub fn solve<P: DualProblem, K: Kernel, C: Callback>(
    problem: &P,
    kernel: &mut K,
    params: &Params,
    callback: &mut C,
) -> (r: Status)
    requires
        problem.wf(),
        problem.spec_size() >= 1,
        old(kernel).wf(),
        old(kernel).spec_size() == problem.spec_size(),
        old(kernel).active_ok(full_seq(problem.spec_size())),
        old(kernel).spec_max_rows() >= 2,
    ensures
        r.sized(problem.spec_size()),
        forall|i: int| 0 <= i < problem.spec_size() ==> in_box(problem, r.a@, i),
        r.value.v <= dual_loss_sum(
            problem,
            Seq::new(problem.spec_size() as nat, |i: int| Fx { v: 0 }),
            problem.spec_size(),
        ),
        r.code == StatusCode::Optimal || r.code == StatusCode::MaxSteps || r.code
            == StatusCode::TimeLimit || r.code == StatusCode::Callback,
        r.code == StatusCode::Optimal ==> fx_prod(
            problem.spec_params().lambda.v as int,
            r.violation.v as int,
        ) < params.tol.v as int,
        r.code == StatusCode::MaxSteps ==> r.steps == params.max_steps,
        r.code == StatusCode::TimeLimit ==> (params.time_limit > 0 && r.time
            >= params.time_limit),
        r.asum.v <= problem.spec_params().max_asum.v,
        final(kernel).wf(),
        final(kernel).spec_size() == old(kernel).spec_size(),
        forall|i: int, j: int| final(kernel).entry(i, j) == old(kernel).entry(i, j),
        final(kernel).spec_max_rows() == old(kernel).spec_max_rows(),
{
    proof {
        problem.wf_facts();
    }
    let n = problem.size();
    let mut status = Status::new(n);
    let ghost zeros = Seq::new(problem.spec_size() as nat, |i: int| Fx { v: 0 });
    proof {
        assert(status.a@ =~= zeros);
    }
    let mut k: usize = 0;
    while k < n
        invariant
            k <= n,
            n as int == problem.spec_size(),
            problem.wf(),
            status.a@ == zeros,
            status.sized(problem.spec_size()),
            zeros == Seq::new(problem.spec_size() as nat, |i: int| Fx { v: 0 }),
            status.value.v == dual_loss_sum(problem, zeros, k as int),
            status.b.v == 0 && status.c.v == 0 && status.asum.v == 0,
        decreases n - k,
    {
        status.value = status.value.add(problem.dloss(k, Fx { v: 0 }));
        proof {
            assert(zeros[k as int] == Fx { v: 0 });
        }
        k = k + 1;
    }
    proof {
        assert forall|i: int| 0 <= i < problem.spec_size() implies in_box(
            problem,
            status.a@,
            i,
        ) by {
            problem.bounds_facts(i);
            assert(status.a@[i] == Fx { v: 0 });
        }
    }
    solve_with_status(status, problem, kernel, params, callback)
}

} // verus!
