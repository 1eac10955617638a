//! Working-set selection for the SMO method.
use vstd::prelude::*;

use crate::fixed::{clip, Fx, FX_HALF, FX_ONE, fx_prod, FX_QUARTER};
use crate::kernel::{valid_active, Kernel};
use crate::problem::{in_box, DualProblem};
use crate::smo::subproblem::{compute_step, spec_quad_step, Subproblem};
use crate::status::Status;

verus! {

/// Raw value of the SMO gradient of variable `i`:
/// `ka[i] + d_dloss(i, a[i])`.
pub open spec fn grad_value<P: DualProblem>(problem: &P, st: Status, i: int) -> int {
    clip(st.ka@[i].v + problem.spec_d_dloss(i, st.a@[i]).v)
}

/// State of the most-violating-pair scan over the first `upto` active
/// positions: the largest and smallest admissible gradient (raw values)
/// and the positions at which they stand.  A variable is admissible for
/// the "up" direction when it is above its lower bound, for the "down"
/// direction when it is below its upper bound, and in either case only
/// when its sign passes the filter `sign(i) * sgn >= 0`.
pub open spec fn mvp_scan<P: DualProblem>(
    problem: &P,
    st: Status,
    act: Seq<usize>,
    sgn: Fx,
    upto: int,
) -> (int, int, int, int)
    decreases upto,
{
    if upto <= 0 {
        (i64::MIN as int, i64::MAX as int, 0, 0)
    } else {
        let prev = mvp_scan(problem, st, act, sgn, upto - 1);
        let i = act[upto - 1] as int;
        let gi = grad_value(problem, st, i);
        let pass = fx_prod(problem.spec_sign(i) * (FX_ONE as int), sgn.v as int) >= 0;
        let up = pass && st.a@[i].v > problem.spec_lb(i).v && gi > prev.0;
        let dn = pass && st.a@[i].v < problem.spec_ub(i).v && gi < prev.1;
        (
            if up {
                gi
            } else {
                prev.0
            },
            if dn {
                gi
            } else {
                prev.1
            },
            if up {
                upto - 1
            } else {
                prev.2
            },
            if dn {
                upto - 1
            } else {
                prev.3
            },
        )
    }
}

/// The scan depends only on the coefficients and the kernel product.
pub proof fn lemma_mvp_scan_same<P: DualProblem>(
    problem: &P,
    st1: Status,
    st2: Status,
    act: Seq<usize>,
    sgn: Fx,
    upto: int,
)
    requires
        st1.a@ == st2.a@,
        st1.ka@ == st2.ka@,
    ensures
        mvp_scan(problem, st1, act, sgn, upto) == mvp_scan(problem, st2, act, sgn, upto),
    decreases upto,
{
    if upto > 0 {
        lemma_mvp_scan_same(problem, st1, st2, act, sgn, upto - 1);
    }
}

/// One most-violating-pair scan with a sign filter.  Stores the gradient
/// of every scanned variable into `status.g` and returns
/// `(gmax - gmin, gmax + gmin, idx_up, idx_down)`.
pub fn find_mvp_signed<P: DualProblem>(
    problem: &P,
    status: &mut Status,
    active_set: &Vec<usize>,
    sgn: Fx,
) -> (r: (Fx, Fx, usize, usize))
    requires
        problem.wf(),
        valid_active(active_set@, problem.spec_size()),
        active_set@.len() >= 1,
        old(status).a@.len() == problem.spec_size(),
        old(status).ka@.len() == problem.spec_size(),
        old(status).g@.len() == problem.spec_size(),
    ensures
        final(status).a == old(status).a,
        final(status).b == old(status).b,
        final(status).c == old(status).c,
        final(status).asum == old(status).asum,
        final(status).violation == old(status).violation,
        final(status).value == old(status).value,
        final(status).ka == old(status).ka,
        final(status).code == old(status).code,
        final(status).steps == old(status).steps,
        final(status).time == old(status).time,
        final(status).g@.len() == old(status).g@.len(),
        forall|p: int|
            0 <= p < active_set@.len() ==> (#[trigger] final(status).g@[active_set@[p] as int]).v
                == grad_value(problem, *old(status), active_set@[p] as int),
        forall|j: int|
            #![trigger final(status).g@[j]]
            0 <= j < old(status).g@.len() && (forall|p: int|
                0 <= p < active_set@.len() ==> (#[trigger] active_set@[p] as int) != j)
                ==> (final(status)).g@[j] == old(status).g@[j],
        ({
            let scan = mvp_scan(problem, *old(status), active_set@, sgn, active_set@.len() as int);
            r.0.v == clip(scan.0 - scan.1) && r.1.v == clip(scan.0 + scan.1) && r.2 == scan.2
                && r.3 == scan.3 && (r.2 as int) < active_set@.len() && (r.3 as int)
                < active_set@.len()
        }),
{
    let m = active_set.len();
    let mut g_max = Fx { v: i64::MIN };
    let mut g_min = Fx { v: i64::MAX };
    let mut idx_i: usize = 0;
    let mut idx_j: usize = 0;
    let mut idx: usize = 0;
    while idx < m
        invariant
            idx <= m,
            m == active_set@.len(),
            m >= 1,
            problem.wf(),
            valid_active(active_set@, problem.spec_size()),
            status.a == old(status).a,
            status.b == old(status).b,
            status.c == old(status).c,
            status.asum == old(status).asum,
            status.violation == old(status).violation,
            status.value == old(status).value,
            status.ka == old(status).ka,
            status.code == old(status).code,
            status.steps == old(status).steps,
            status.time == old(status).time,
            status.a@.len() == problem.spec_size(),
            status.ka@.len() == problem.spec_size(),
            status.g@.len() == old(status).g@.len(),
            old(status).g@.len() == problem.spec_size(),
            forall|p: int|
                0 <= p < idx ==> (#[trigger] status.g@[active_set@[p] as int]).v == grad_value(
                    problem,
                    *old(status),
                    active_set@[p] as int,
                ),
            forall|j: int|
                #![trigger status.g@[j]]
                0 <= j < old(status).g@.len() && (forall|p: int|
                    0 <= p < idx ==> (#[trigger] active_set@[p] as int) != j) ==> status.g@[j]
                    == old(status).g@[j],
            ({
                let scan = mvp_scan(problem, *old(status), active_set@, sgn, idx as int);
                g_max.v == scan.0 && g_min.v == scan.1 && idx_i == scan.2 && idx_j == scan.3
                    && (idx == 0 || ((idx_i as int) < idx && (idx_j as int) < idx))
            }),
        decreases m - idx,
    {
        let i = active_set[idx];
        let g_i = status.ka[i].add(problem.d_dloss(i, status.a[i]));
        status.g[i] = g_i;
        if problem.sign(i).mul(sgn).v >= 0 {
            if status.a[i].v > problem.lb(i).v && g_i.v > g_max.v {
                idx_i = idx;
                g_max = g_i;
            }
            if status.a[i].v < problem.ub(i).v && g_i.v < g_min.v {
                idx_j = idx;
                g_min = g_i;
            }
        }
        idx = idx + 1;
    }
    (g_max.sub(g_min), g_max.add(g_min), idx_i, idx_j)
}

/// The full outcome of the working-set selection on a status: raw values
/// of the new bias, shift and violation, and the selected pair of active
/// positions.  With a saturated 1-norm budget the scan runs once per
/// sign, and the bias and shift combine both scans; otherwise one
/// unfiltered scan decides.
pub open spec fn mvp_outcome<P: DualProblem>(problem: &P, st: Status, act: Seq<usize>) -> (
    int,
    int,
    int,
    int,
    int,
) {
    let m = act.len() as int;
    if st.asum.v == problem.spec_params().max_asum.v {
        let sp = mvp_scan(problem, st, act, Fx { v: FX_ONE }, m);
        let sn = mvp_scan(problem, st, act, Fx { v: (-FX_ONE) as i64 }, m);
        let dij_p = clip(sp.0 - sp.1);
        let sij_p = clip(sp.0 + sp.1);
        let dij_n = clip(sn.0 - sn.1);
        let sij_n = clip(sn.0 + sn.1);
        let b = fx_prod((-FX_QUARTER) as int, clip(sij_p + sij_n));
        let c = fx_prod(FX_QUARTER as int, clip(sij_n - sij_p));
        if dij_p >= dij_n {
            (b, c, dij_p, sp.2, sp.3)
        } else {
            (b, c, dij_n, sn.2, sn.3)
        }
    } else {
        let s0 = mvp_scan(problem, st, act, Fx { v: 0 }, m);
        let dij = clip(s0.0 - s0.1);
        let sij = clip(s0.0 + s0.1);
        (fx_prod((-FX_HALF) as int, sij), st.c.v as int, dij, s0.2, s0.3)
    }
}

/// Finds the most violating pair, updating the gradients, the bias, the
/// shift and the violation measure of the status.
pub fn find_mvp<P: DualProblem>(
    problem: &P,
    status: &mut Status,
    active_set: &Vec<usize>,
) -> (r: (usize, usize))
    requires
        problem.wf(),
        valid_active(active_set@, problem.spec_size()),
        active_set@.len() >= 1,
        old(status).a@.len() == problem.spec_size(),
        old(status).ka@.len() == problem.spec_size(),
        old(status).g@.len() == problem.spec_size(),
    ensures
        final(status).a == old(status).a,
        final(status).asum == old(status).asum,
        final(status).value == old(status).value,
        final(status).ka == old(status).ka,
        final(status).code == old(status).code,
        final(status).steps == old(status).steps,
        final(status).time == old(status).time,
        final(status).g@.len() == old(status).g@.len(),
        forall|p: int|
            0 <= p < active_set@.len() ==> (#[trigger] final(status).g@[active_set@[p] as int]).v
                == grad_value(problem, *old(status), active_set@[p] as int),
        forall|j: int|
            #![trigger final(status).g@[j]]
            0 <= j < old(status).g@.len() && (forall|p: int|
                0 <= p < active_set@.len() ==> (#[trigger] active_set@[p] as int) != j)
                ==> (final(status)).g@[j] == old(status).g@[j],
        ({
            let o = mvp_outcome(problem, *old(status), active_set@);
            final(status).b.v == o.0 && final(status).c.v == o.1 && final(status).violation.v
                == o.2 && r.0 == o.3 && r.1 == o.4 && (r.0 as int) < active_set@.len() && (
            r.1 as int) < active_set@.len()
        }),
{
    let has_budget = status.asum.v == problem.max_asum().v;
    if has_budget {
        let ghost st0 = *status;
        let (dij_p, sij_p, idx_i_p, idx_j_p) = find_mvp_signed(
            problem,
            status,
            active_set,
            Fx { v: FX_ONE },
        );
        let ghost st1 = *status;
        let (dij_n, sij_n, idx_i_n, idx_j_n) = find_mvp_signed(
            problem,
            status,
            active_set,
            Fx { v: (-FX_ONE) as i64 },
        );
        proof {
            lemma_mvp_scan_same(
                problem,
                st1,
                st0,
                active_set@,
                Fx { v: (-FX_ONE) as i64 },
                active_set@.len() as int,
            );
            assert forall|p: int|
                0 <= p < active_set@.len() implies (
            #[trigger] status.g@[active_set@[p] as int]).v == grad_value(
                problem,
                st0,
                active_set@[p] as int,
            ) by {}
        }
        status.b = Fx { v: (-FX_QUARTER) as i64 }.mul(sij_p.add(sij_n));
        status.c = Fx { v: FX_QUARTER }.mul(sij_n.sub(sij_p));
        if dij_p.v >= dij_n.v {
            status.violation = dij_p;
            (idx_i_p, idx_j_p)
        } else {
            status.violation = dij_n;
            (idx_i_n, idx_j_n)
        }
    } else {
        let (dij, sij, idx_i, idx_j) = find_mvp_signed(problem, status, active_set, Fx { v: 0 });
        status.b = Fx { v: (-FX_HALF) as i64 }.mul(sij);
        status.violation = dij;
        (idx_i, idx_j)
    }
}

/// State of the second-order scan over the first `upto` active
/// positions, starting from the most violating pair `(idx_i0, idx_j1)`:
/// the largest estimated descents found for the two candidate families
/// (partners of the "up" end `i0` and partners of the "down" end `j1`)
/// and the positions at which they stand.  A candidate `r` passes the
/// sign filter when `sgn * sign(r) >= 0`; as a partner of `i0` it needs
/// room above and a positive gradient gap, as a partner of `j1` room
/// below and a positive gap; its estimate is the negated closed-form
/// descent [`spec_quad_step`] of the pair subproblem, and it replaces
/// the stored partner exactly when its estimate is strictly larger.
/// The estimated objective change of pairing the "up" end `act[idx_i0]`
/// with the candidate at position `q`: the closed-form step
/// [`spec_quad_step`] on that pair, with the feasible bound and kernel
/// coefficients of the pair subproblem.
pub open spec fn ws2_up_step<P: DualProblem, K: Kernel>(
    problem: &P,
    kernel: &K,
    st: Status,
    act: Seq<usize>,
    idx_i0: int,
    q: int,
) -> int {
    let i0 = act[idx_i0] as int;
    let r_i = act[q] as int;
    let max_ti0 = clip(st.a@[i0].v - problem.spec_lb(i0).v);
    let d_upr = clip(problem.spec_ub(r_i).v - st.a@[r_i].v);
    spec_quad_step(
        problem,
        i0,
        r_i,
        st.a@[i0],
        st.a@[r_i],
        Fx {
            v: (if max_ti0 <= d_upr {
                max_ti0
            } else {
                d_upr
            }) as i64,
        },
        Fx {
            v: clip(
                clip(kernel.entry(i0, i0).v + kernel.entry(r_i, r_i).v) - clip(
                    kernel.entry(i0, r_i).v + kernel.entry(i0, r_i).v,
                ),
            ) as i64,
        },
        Fx { v: clip(st.ka@[i0].v - st.ka@[r_i].v) as i64 },
    ).1
}

/// The estimated objective change of pairing the candidate at position
/// `q` with the "down" end `act[idx_j1]`, as [`ws2_up_step`] with the
/// roles reversed.
pub open spec fn ws2_dn_step<P: DualProblem, K: Kernel>(
    problem: &P,
    kernel: &K,
    st: Status,
    act: Seq<usize>,
    idx_j1: int,
    q: int,
) -> int {
    let j1 = act[idx_j1] as int;
    let r_i = act[q] as int;
    let max_tj1 = clip(problem.spec_ub(j1).v - st.a@[j1].v);
    let d_dnr = clip(st.a@[r_i].v - problem.spec_lb(r_i).v);
    spec_quad_step(
        problem,
        r_i,
        j1,
        st.a@[r_i],
        st.a@[j1],
        Fx {
            v: (if max_tj1 <= d_dnr {
                max_tj1
            } else {
                d_dnr
            }) as i64,
        },
        Fx {
            v: clip(
                clip(kernel.entry(j1, j1).v + kernel.entry(r_i, r_i).v) - clip(
                    kernel.entry(j1, r_i).v + kernel.entry(j1, r_i).v,
                ),
            ) as i64,
        },
        Fx { v: clip(st.ka@[r_i].v - st.ka@[j1].v) as i64 },
    ).1
}

pub open spec fn ws2_scan<P: DualProblem, K: Kernel>(
    problem: &P,
    kernel: &K,
    st: Status,
    act: Seq<usize>,
    sgn: Fx,
    idx_i0: int,
    idx_j1: int,
    upto: int,
) -> (int, int, int, int)
    decreases upto,
{
    if upto <= 0 {
        (0, idx_j1, 0, idx_i0)
    } else {
        let prev = ws2_scan(problem, kernel, st, act, sgn, idx_i0, idx_j1, upto - 1);
        let i0 = act[idx_i0] as int;
        let j1 = act[idx_j1] as int;
        let r_i = act[upto - 1] as int;
        let pass = fx_prod(sgn.v as int, problem.spec_sign(r_i) * (FX_ONE as int)) >= 0;
        let pi0r = clip(st.g@[i0].v - st.g@[r_i].v);
        let d_upr = clip(problem.spec_ub(r_i).v - st.a@[r_i].v);
        let dv0 = ws2_up_step(problem, kernel, st, act, idx_i0, upto - 1);
        let up = pass && d_upr > 0 && pi0r > 0 && clip(-dv0) > prev.0;
        let prj1 = clip(st.g@[r_i].v - st.g@[j1].v);
        let d_dnr = clip(st.a@[r_i].v - problem.spec_lb(r_i).v);
        let dv1 = ws2_dn_step(problem, kernel, st, act, idx_j1, upto - 1);
        let dn = pass && d_dnr > 0 && prj1 > 0 && clip(-dv1) > prev.2;
        (
            if up {
                clip(-dv0)
            } else {
                prev.0
            },
            if up {
                upto - 1
            } else {
                prev.1
            },
            if dn {
                clip(-dv1)
            } else {
                prev.2
            },
            if dn {
                upto - 1
            } else {
                prev.3
            },
        )
    }
}

/// Second-order refinement of the working set: starting from the most
/// violating pair, searches along the two fetched kernel rows for a
/// partner with a larger estimated descent of the pair subproblem, so
/// the refined pair keeps one end of the most violating pair.  On a
/// quadratic problem the result is exactly the outcome of [`ws2_scan`]:
/// the family with the larger estimate wins, and the most violating
/// pair stands where no candidate improved on it.  Every step the
/// refinement proposes goes through [`crate::smo::update`], whose own
/// contract bounds the effect.
pub fn find_ws2<P: DualProblem, K: Kernel>(
    problem: &P,
    kernel: &mut K,
    idx_i0: usize,
    idx_j1: usize,
    status: &Status,
    active_set: &Vec<usize>,
    sgn: Fx,
) -> (r: (usize, usize))
    requires
        problem.wf(),
        old(kernel).wf(),
        old(kernel).spec_size() == problem.spec_size(),
        old(kernel).active_ok(active_set@),
        old(kernel).spec_max_rows() >= 2,
        valid_active(active_set@, problem.spec_size()),
        (idx_i0 as int) < active_set@.len(),
        (idx_j1 as int) < active_set@.len(),
        status.a@.len() == problem.spec_size(),
        status.ka@.len() == problem.spec_size(),
        status.g@.len() == problem.spec_size(),
        forall|p: int|
            0 <= p < active_set@.len() ==> in_box(problem, status.a@, #[trigger] active_set@[p] as int),
    ensures
        final(kernel).wf(),
        final(kernel).spec_size() == old(kernel).spec_size(),
        forall|i: int, j: int| final(kernel).entry(i, j) == old(kernel).entry(i, j),
        final(kernel).active_ok(active_set@),
        final(kernel).spec_max_rows() == old(kernel).spec_max_rows(),
        (r.0 as int) < active_set@.len(),
        (r.1 as int) < active_set@.len(),
        r.0 == idx_i0 || r.1 == idx_j1,
        problem.spec_is_quad() ==> ({
            let s = ws2_scan(
                problem,
                old(kernel),
                *status,
                active_set@,
                sgn,
                idx_i0 as int,
                idx_j1 as int,
                active_set@.len() as int,
            );
            if s.0 > s.2 {
                r.0 == idx_i0 && r.1 as int == s.1
            } else {
                r.0 as int == s.3 && r.1 == idx_j1
            }
        }),
{
    let m = active_set.len();
    let i0 = active_set[idx_i0];
    let j1 = active_set[idx_j1];
    let gi0 = status.g[i0];
    let gj1 = status.g[j1];
    let mut max_d0 = Fx { v: 0 };
    let mut max_d1 = Fx { v: 0 };
    let mut idx_j0 = idx_j1;
    let mut idx_i1 = idx_i0;

    let mut diags: Vec<Fx> = Vec::new();
    let mut p: usize = 0;
    while p < m
        invariant
            p <= m,
            m == active_set@.len(),
            problem.wf(),
            kernel.wf(),
            kernel.spec_size() == problem.spec_size(),
            valid_active(active_set@, problem.spec_size()),
            diags@.len() == p,
            forall|q: int|
                0 <= q < p ==> diags@[q] == kernel.entry(
                    active_set@[q] as int,
                    active_set@[q] as int,
                ),
        decreases m - p,
    {
        diags.push(kernel.diag(active_set[p]));
        p = p + 1;
    }
    let mut idxs: Vec<usize> = Vec::new();
    idxs.push(i0);
    idxs.push(j1);
    let mut rows: Vec<Vec<Fx>> = Vec::new();
    kernel.use_rows(&idxs, active_set, &mut rows);
    let ki0i0 = rows[0][idx_i0];
    let kj1j1 = rows[1][idx_j1];
    let max_ti0 = status.a[i0].sub(problem.lb(i0));
    let max_tj1 = problem.ub(j1).sub(status.a[j1]);

    let mut idx_r: usize = 0;
    while idx_r < m
        invariant
            idx_r <= m,
            m == active_set@.len(),
            problem.wf(),
            valid_active(active_set@, problem.spec_size()),
            status.a@.len() == problem.spec_size(),
            status.ka@.len() == problem.spec_size(),
            status.g@.len() == problem.spec_size(),
            forall|p2: int|
                0 <= p2 < active_set@.len() ==> in_box(
                    problem,
                    status.a@,
                    #[trigger] active_set@[p2] as int,
                ),
            (i0 as int) < problem.spec_size(),
            (j1 as int) < problem.spec_size(),
            (idx_i0 as int) < m,
            (idx_j1 as int) < m,
            i0 == active_set@[idx_i0 as int],
            j1 == active_set@[idx_j1 as int],
            gi0 == status.g@[i0 as int],
            gj1 == status.g@[j1 as int],
            max_ti0.v >= 0,
            max_tj1.v >= 0,
            max_ti0.v as int == clip(status.a@[i0 as int].v - problem.spec_lb(i0 as int).v),
            max_tj1.v as int == clip(problem.spec_ub(j1 as int).v - status.a@[j1 as int].v),
            diags@.len() == m,
            forall|q: int|
                0 <= q < m ==> diags@[q] == old(kernel).entry(
                    active_set@[q] as int,
                    active_set@[q] as int,
                ),
            rows@.len() == 2,
            rows@[0]@.len() == m,
            rows@[1]@.len() == m,
            forall|q: int|
                0 <= q < m ==> rows@[0]@[q] == old(kernel).entry(
                    i0 as int,
                    active_set@[q] as int,
                ),
            forall|q: int|
                0 <= q < m ==> rows@[1]@[q] == old(kernel).entry(
                    j1 as int,
                    active_set@[q] as int,
                ),
            ki0i0 == old(kernel).entry(i0 as int, i0 as int),
            kj1j1 == old(kernel).entry(j1 as int, j1 as int),
            (idx_j0 as int) < m,
            (idx_i1 as int) < m,
            problem.spec_is_quad() ==> ({
                let s = ws2_scan(
                    problem,
                    old(kernel),
                    *status,
                    active_set@,
                    sgn,
                    idx_i0 as int,
                    idx_j1 as int,
                    idx_r as int,
                );
                max_d0.v as int == s.0 && idx_j0 as int == s.1 && max_d1.v as int == s.2
                    && idx_i1 as int == s.3
            }),
        decreases m - idx_r,
    {
        let r_i = active_set[idx_r];
        let pass = sgn.mul(problem.sign(r_i)).v >= 0;
        if pass {
            let gr = status.g[r_i];
            let krr = diags[idx_r];

            let pi0r = gi0.sub(gr);
            let d_upr = problem.ub(r_i).sub(status.a[r_i]);
            if d_upr.v > 0 && pi0r.v > 0 {
                let step = compute_step(
                    problem,
                    Subproblem {
                        ij: (i0, r_i),
                        max_t: max_ti0.min_of(d_upr),
                        q0: ki0i0.add(krr).sub(rows[0][idx_r].add(rows[0][idx_r])),
                        p0: status.ka[i0].sub(status.ka[r_i]),
                    },
                    status,
                );
                proof {
                    if problem.spec_is_quad() {
                        assert(rows@[0]@[idx_i0 as int] == old(kernel).entry(
                            i0 as int,
                            active_set@[idx_i0 as int] as int,
                        ));
                        assert(rows@[0]@[idx_r as int] == old(kernel).entry(
                            i0 as int,
                            active_set@[idx_r as int] as int,
                        ));
                        assert(diags@[idx_r as int] == old(kernel).entry(
                            active_set@[idx_r as int] as int,
                            active_set@[idx_r as int] as int,
                        ));
                        assert(step.dvalue.v as int == ws2_up_step(
                            problem,
                            old(kernel),
                            *status,
                            active_set@,
                            idx_i0 as int,
                            idx_r as int,
                        ));
                    }
                }
                if step.dvalue.neg().v > max_d0.v {
                    idx_j0 = idx_r;
                    max_d0 = step.dvalue.neg();
                }
            }

            let prj1 = gr.sub(gj1);
            let d_dnr = status.a[r_i].sub(problem.lb(r_i));
            if d_dnr.v > 0 && prj1.v > 0 {
                let step = compute_step(
                    problem,
                    Subproblem {
                        ij: (r_i, j1),
                        max_t: max_tj1.min_of(d_dnr),
                        q0: kj1j1.add(krr).sub(rows[1][idx_r].add(rows[1][idx_r])),
                        p0: status.ka[r_i].sub(status.ka[j1]),
                    },
                    status,
                );
                proof {
                    if problem.spec_is_quad() {
                        assert(rows@[1]@[idx_j1 as int] == old(kernel).entry(
                            j1 as int,
                            active_set@[idx_j1 as int] as int,
                        ));
                        assert(rows@[1]@[idx_r as int] == old(kernel).entry(
                            j1 as int,
                            active_set@[idx_r as int] as int,
                        ));
                        assert(diags@[idx_r as int] == old(kernel).entry(
                            active_set@[idx_r as int] as int,
                            active_set@[idx_r as int] as int,
                        ));
                        assert(step.dvalue.v as int == ws2_dn_step(
                            problem,
                            old(kernel),
                            *status,
                            active_set@,
                            idx_j1 as int,
                            idx_r as int,
                        ));
                    }
                }
                if step.dvalue.neg().v > max_d1.v {
                    idx_i1 = idx_r;
                    max_d1 = step.dvalue.neg();
                }
            }
        }
        idx_r = idx_r + 1;
    }
    if max_d0.v > max_d1.v {
        (idx_i0, idx_j0)
    } else {
        (idx_i1, idx_j1)
    }
}

} // verus!
