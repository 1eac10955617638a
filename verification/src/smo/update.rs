//! The update of one SMO step.
use vstd::prelude::*;

use crate::fixed::{clip, lemma_fx_half_double, lemma_fx_prod_sign, Fx, FX_HALF, fx_prod, fx_quot};
use crate::kernel::{valid_active, Kernel};
use crate::problem::{in_box, DualProblem};
use crate::smo::subproblem::{compute_step, spec_quad_step, Subproblem};
use crate::status::Status;

verus! {

/// The 1-norm tracker after one pair step of length `t` on sample indices
/// `(i, j)`: with a finite budget and unequal signs, a step that hits the
/// remaining half-budget saturates the tracker at the budget, any other
/// step moves it by `-2 * sign(i) * t`; with equal signs or no budget it
/// is unchanged.
pub open spec fn asum_after<P: DualProblem>(problem: &P, old_st: Status, i: int, j: int, t: Fx) -> int {
    let params = problem.spec_params();
    let upd = params.max_asum.v < i64::MAX && problem.spec_sign(i) != problem.spec_sign(j);
    let cap = fx_prod(FX_HALF as int, clip(params.max_asum.v - old_st.asum.v));
    if !upd {
        old_st.asum.v as int
    } else if t.v as int == cap {
        params.max_asum.v as int
    } else {
        clip(
            old_st.asum.v - fx_prod(
                clip(t.v + t.v),
                problem.spec_sign(i) * (crate::fixed::FX_ONE as int),
            ),
        )
    }
}

/// The state after one accepted pair step of length `t` on the pair of
/// sample indices `(i, j)`: `a[i]` decreases by `t`, `a[j]` increases by
/// `t`, the kernel product moves by `(t / lambda) * (K[j,:] - K[i,:])` on
/// the active columns, the 1-norm tracker follows [`asum_after`], and the
/// objective value does not grow.
pub open spec fn update_post<P: DualProblem, K: Kernel>(
    problem: &P,
    kernel: &K,
    old_st: Status,
    act: Seq<usize>,
    i: int,
    j: int,
    t: Fx,
    st: Status,
) -> bool {
    let a_mid = old_st.a@.update(i, Fx { v: clip(old_st.a@[i].v - t.v) as i64 });
    let a_new = a_mid.update(j, Fx { v: clip(a_mid[j].v + t.v) as i64 });
    let lambda = problem.spec_params().lambda;
    &&& 0 <= t.v
    &&& st.a@ == a_new
    &&& st.ka@.len() == old_st.ka@.len()
    &&& forall|p: int|
        0 <= p < act.len() ==> (#[trigger] st.ka@[act[p] as int]).v == clip(
            old_st.ka@[act[p] as int].v + fx_prod(
                fx_quot(t.v as int, lambda.v as int),
                clip(kernel.entry(j, act[p] as int).v - kernel.entry(i, act[p] as int).v),
            ),
        )
    &&& forall|q: int|
        #![trigger st.ka@[q]]
        0 <= q < old_st.ka@.len() && (forall|p: int|
            0 <= p < act.len() ==> (#[trigger] act[p] as int) != q) ==> st.ka@[q]
            == old_st.ka@[q]
    &&& st.value.v <= old_st.value.v
    &&& st.asum.v as int == asum_after(problem, old_st, i, j, t)
}

/// The exact step length that [`update`] takes on a quadratic problem:
/// the feasible step bound of the pair (capped by the 1-norm budget where
/// it applies), and the closed-form subproblem step within it.
pub open spec fn spec_update_step<P: DualProblem, K: Kernel>(
    problem: &P,
    kernel: &K,
    old_st: Status,
    i: int,
    j: int,
) -> int {
    let params = problem.spec_params();
    let up = clip(old_st.a@[i].v - problem.spec_lb(i).v);
    let dn = clip(problem.spec_ub(j).v - old_st.a@[j].v);
    let box_t: int = if up <= dn {
        up
    } else {
        dn
    };
    let budget_cap = fx_prod(FX_HALF as int, clip(params.max_asum.v - old_st.asum.v));
    let capped: int = if params.max_asum.v < i64::MAX && problem.spec_sign(i)
        != problem.spec_sign(j) && box_t > budget_cap {
        budget_cap
    } else {
        box_t
    };
    let max_t: int = if capped < 0 {
        0
    } else {
        capped
    };
    let q0 = fx_quot(
        clip(
            clip(kernel.entry(i, i).v + kernel.entry(j, j).v) - clip(
                kernel.entry(i, j).v + kernel.entry(i, j).v,
            ),
        ),
        params.lambda.v as int,
    );
    let p0 = clip(old_st.ka@[i].v - old_st.ka@[j].v);
    spec_quad_step(
        problem,
        i,
        j,
        old_st.a@[i],
        old_st.a@[j],
        Fx { v: max_t as i64 },
        Fx { v: q0 as i64 },
        Fx { v: p0 as i64 },
    ).0
}

/// Conducts the update of the selected variable pair: computes the step
/// of the two-variable subproblem and applies it to the coefficients, the
/// 1-norm tracker, the objective value and the kernel product.  The
/// objective value never grows and every coefficient stays in its box.
pub fn update<P: DualProblem, K: Kernel>(
    problem: &P,
    kernel: &mut K,
    idx_i: usize,
    idx_j: usize,
    status: &mut Status,
    active_set: &Vec<usize>,
)
    requires
        problem.wf(),
        old(kernel).wf(),
        old(kernel).spec_size() == problem.spec_size(),
        old(kernel).active_ok(active_set@),
        old(kernel).spec_max_rows() >= 2,
        valid_active(active_set@, problem.spec_size()),
        (idx_i as int) < active_set@.len(),
        (idx_j as int) < active_set@.len(),
        old(status).a@.len() == problem.spec_size(),
        old(status).ka@.len() == problem.spec_size(),
        old(status).g@.len() == problem.spec_size(),
        forall|p: int|
            0 <= p < active_set@.len() ==> in_box(
                problem,
                old(status).a@,
                #[trigger] active_set@[p] as int,
            ),
    ensures
        final(kernel).wf(),
        final(kernel).spec_size() == old(kernel).spec_size(),
        forall|i: int, j: int| final(kernel).entry(i, j) == old(kernel).entry(i, j),
        final(kernel).active_ok(active_set@),
        final(kernel).spec_max_rows() == old(kernel).spec_max_rows(),
        final(status).b == old(status).b,
        final(status).c == old(status).c,
        final(status).g == old(status).g,
        final(status).violation == old(status).violation,
        final(status).code == old(status).code,
        final(status).steps == old(status).steps,
        final(status).time == old(status).time,
        final(status).a@.len() == old(status).a@.len(),
        final(status).ka@.len() == old(status).ka@.len(),
        final(status).value.v <= old(status).value.v,
        old(status).asum.v <= problem.spec_params().max_asum.v ==> final(status).asum.v
            <= problem.spec_params().max_asum.v,
        forall|q: int|
            #![trigger final(status).a@[q]]
            0 <= q < old(status).a@.len() && q != active_set@[idx_i as int] && q
                != active_set@[idx_j as int] ==> final(status).a@[q] == old(status).a@[q],
        forall|p: int|
            0 <= p < active_set@.len() ==> in_box(
                problem,
                final(status).a@,
                #[trigger] active_set@[p] as int,
            ),
        exists|t: Fx|
            update_post(
                problem,
                old(kernel),
                *old(status),
                active_set@,
                active_set@[idx_i as int] as int,
                active_set@[idx_j as int] as int,
                t,
                *final(status),
            ) && (problem.spec_is_quad() ==> t.v == spec_update_step(
                problem,
                old(kernel),
                *old(status),
                active_set@[idx_i as int] as int,
                active_set@[idx_j as int] as int,
            )),
{
    let i = active_set[idx_i];
    let j = active_set[idx_j];
    let mut idxs: Vec<usize> = Vec::new();
    idxs.push(i);
    idxs.push(j);
    let mut rows: Vec<Vec<Fx>> = Vec::new();
    kernel.use_rows(&idxs, active_set, &mut rows);
    let lambda = problem.lambda();

    let mut max_tij = status.a[i].sub(problem.lb(i)).min_of(problem.ub(j).sub(status.a[j]));

    let max_t_asum = Fx { v: FX_HALF }.mul(problem.max_asum().sub(status.asum));
    let mut update_asum = false;
    if problem.has_max_asum() {
        if problem.sign(i).v != problem.sign(j).v {
            if max_tij.v > max_t_asum.v {
                max_tij = max_t_asum;
            }
            update_asum = true;
        }
    }
    if max_tij.v < 0 {
        max_tij = Fx { v: 0 };
    }
    let step = compute_step(
        problem,
        Subproblem {
            ij: (i, j),
            max_t: max_tij,
            q0: rows[0][idx_i].add(rows[1][idx_j]).sub(
                rows[0][idx_j].add(rows[0][idx_j]),
            ).div(lambda),
            p0: status.ka[i].sub(status.ka[j]),
        },
        status,
    );

    proof {
        if problem.spec_is_quad() {
            assert(step.t.v == spec_update_step(
                problem,
                old(kernel),
                *old(status),
                i as int,
                j as int,
            ));
        }
    }
    let t = step.t;
    proof {
        problem.wf_facts();
    }
    if update_asum {
        if t.v == max_t_asum.v {
            status.asum = problem.max_asum();
        } else {
            status.asum = status.asum.sub(t.add(t).mul(problem.sign(i)));
        }
    }
    proof {
        let m_val = problem.spec_params().max_asum.v as int;
        let a0 = old(status).asum.v as int;
        let si = problem.spec_sign(i as int);
        let cap = fx_prod(FX_HALF as int, clip(m_val - a0));
        let x2 = clip(t.v + t.v);
        lemma_fx_prod_sign(x2);
        assert(status.asum.v as int == asum_after(problem, *old(status), i as int, j as int, t));
        if a0 <= m_val && update_asum && t.v != max_t_asum.v {
            lemma_fx_half_double(clip(m_val - a0));
            if si == -1 {
                assert(status.asum.v <= m_val);
            }
        }
        assert(a0 <= m_val ==> status.asum.v <= m_val);
    }
    let ghost pre = *status;
    let ai = status.a[i];
    status.a[i] = ai.sub(t);
    let aj = status.a[j];
    status.a[j] = aj.add(t);
    status.value = status.value.add(step.dvalue);
    let ghost a_mid = pre.a@.update(i as int, Fx { v: clip(pre.a@[i as int].v - t.v) as i64 });
    let ghost a_new = a_mid.update(j as int, Fx { v: clip(a_mid[j as int].v + t.v) as i64 });
    proof {
        assert(status.a@ =~= a_new);
    }
    let w = t.div(lambda);
    let ghost pre_loop = *status;
    let m = active_set.len();
    let mut idx: usize = 0;
    while idx < m
        invariant
            idx <= m,
            m == active_set@.len(),
            problem.wf(),
            kernel.wf(),
            kernel.spec_size() == problem.spec_size(),
            forall|p: int, q: int| kernel.entry(p, q) == old(kernel).entry(p, q),
            kernel.active_ok(active_set@),
            kernel.spec_max_rows() == old(kernel).spec_max_rows(),
            valid_active(active_set@, problem.spec_size()),
            (i as int) == active_set@[idx_i as int],
            (j as int) == active_set@[idx_j as int],
            (i as int) < problem.spec_size(),
            (j as int) < problem.spec_size(),
            lambda == problem.spec_params().lambda,
            lambda.v >= 1,
            w.v == fx_quot(t.v as int, lambda.v as int),
            rows@.len() == 2,
            rows@[0]@.len() == m,
            rows@[1]@.len() == m,
            forall|q: int|
                0 <= q < m ==> rows@[0]@[q] == old(kernel).entry(i as int, active_set@[q] as int),
            forall|q: int|
                0 <= q < m ==> rows@[1]@[q] == old(kernel).entry(j as int, active_set@[q] as int),
            status.a == pre_loop.a,
            status.b == pre_loop.b,
            status.c == pre_loop.c,
            status.asum == pre_loop.asum,
            status.violation == pre_loop.violation,
            status.value == pre_loop.value,
            status.g == pre_loop.g,
            status.code == pre_loop.code,
            status.steps == pre_loop.steps,
            status.time == pre_loop.time,
            status.ka@.len() == pre_loop.ka@.len(),
            pre_loop.ka == pre.ka,
            pre.ka@.len() == problem.spec_size(),
            forall|q: int|
                0 <= q < idx ==> (#[trigger] status.ka@[active_set@[q] as int]).v == clip(
                    pre.ka@[active_set@[q] as int].v + fx_prod(
                        w.v as int,
                        clip(rows@[1]@[q].v - rows@[0]@[q].v),
                    ),
                ),
            forall|q: int|
                #![trigger status.ka@[q]]
                0 <= q < pre.ka@.len() && (forall|p: int|
                    0 <= p < idx ==> (#[trigger] active_set@[p] as int) != q) ==> status.ka@[q]
                    == pre.ka@[q],
        decreases m - idx,
    {
        let k = active_set[idx];
        let cur = status.ka[k];
        status.ka[k] = cur.add(w.mul(rows[1][idx].sub(rows[0][idx])));
        idx = idx + 1;
    }
    proof {
        assert(update_post(
            problem,
            old(kernel),
            *old(status),
            active_set@,
            i as int,
            j as int,
            t,
            *status,
        ));
        assert forall|p: int|
            0 <= p < active_set@.len() implies in_box(
            problem,
            status.a@,
            #[trigger] active_set@[p] as int,
        ) by {
            let pos = active_set@[p] as int;
            assert(in_box(problem, old(status).a@, pos));
            assert(in_box(problem, old(status).a@, i as int));
            assert(in_box(problem, old(status).a@, j as int));
        }
    }
}

} // verus!
