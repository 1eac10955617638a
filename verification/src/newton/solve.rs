//! The Newton outer loop.
use vstd::prelude::*;

use crate::fixed::{clip, fx_prod, fx_quot, iabs, Fx, FX_ONE};
use crate::kernel::{active_all, full_seq, valid_active, Kernel};
use crate::newton::direction::newton_with_fallback;
use crate::newton::status_extended::{ActiveSet, Direction, StatusExtended, Sums};
use crate::newton::Params;
use crate::problem::base::recompute_kernel_product;
use crate::problem::{decision_value, primal_objective, spec_primal_objective, Problem,
    PrimalProblem};
use crate::status::{fx_zeros, Status, StatusCode};
use crate::Callback;

verus! {

/// Raw value of the first loss derivative of variable `i` at the current
/// decision value.
pub open spec fn dec_g<P: PrimalProblem>(problem: &P, st: Status, i: int) -> int {
    problem.spec_d_loss(i, Fx { v: decision_value(problem, st, i) as i64 }).v as int
}

/// Raw value of the second loss derivative of variable `i` at the current
/// decision value.
pub open spec fn dec_h<P: PrimalProblem>(problem: &P, st: Status, i: int) -> int {
    problem.spec_d2_loss(i, Fx { v: decision_value(problem, st, i) as i64 }).v as int
}

/// Raw value of the fixed update `a[i] + g[i]` of variable `i`.
pub open spec fn dec_da<P: PrimalProblem>(problem: &P, st: Status, i: int) -> int {
    clip(st.a@[i].v + dec_g(problem, st, i))
}

/// The variables among the first `upto` with a nonzero second derivative.
pub open spec fn dec_positive<P: PrimalProblem>(problem: &P, st: Status, upto: int) -> Seq<usize>
    decreases upto,
{
    if upto <= 0 {
        Seq::empty()
    } else {
        let pre = dec_positive(problem, st, upto - 1);
        if dec_h(problem, st, upto - 1) != 0 {
            pre.push((upto - 1) as usize)
        } else {
            pre
        }
    }
}

/// The variables among the first `upto` with a zero second derivative and
/// a nonzero fixed update.
pub open spec fn dec_zeros<P: PrimalProblem>(problem: &P, st: Status, upto: int) -> Seq<usize>
    decreases upto,
{
    if upto <= 0 {
        Seq::empty()
    } else {
        let pre = dec_zeros(problem, st, upto - 1);
        if dec_h(problem, st, upto - 1) == 0 && dec_da(problem, st, upto - 1) != 0 {
            pre.push((upto - 1) as usize)
        } else {
            pre
        }
    }
}

/// The six running sums of the decision pass over the first `upto`
/// variables (raw values): coefficients, gradients, their signed
/// versions, and the fixed updates of the zero partition.
pub open spec fn dec_sums<P: PrimalProblem>(problem: &P, st: Status, upto: int) -> (
    int,
    int,
    int,
    int,
    int,
    int,
)
    decreases upto,
{
    if upto <= 0 {
        (0, 0, 0, 0, 0, 0)
    } else {
        let prev = dec_sums(problem, st, upto - 1);
        let i = upto - 1;
        let ai = st.a@[i].v as int;
        let gi = dec_g(problem, st, i);
        let si = problem.spec_sign(i) * (FX_ONE as int);
        let a2 = clip(prev.0 + ai);
        let g2 = clip(prev.1 + gi);
        let sa2 = clip(prev.2 + fx_prod(si, ai));
        let sg2 = clip(prev.3 + fx_prod(si, gi));
        if dec_h(problem, st, i) == 0 {
            let dai = dec_da(problem, st, i);
            (a2, g2, sa2, sg2, clip(prev.4 + dai), clip(prev.5 + fx_prod(si, dai)))
        } else {
            (a2, g2, sa2, sg2, prev.4, prev.5)
        }
    }
}

/// The violation sum over the first `upto` variables: `sum |a_i + g_i|`.
pub open spec fn dec_viol_sum<P: PrimalProblem>(problem: &P, st: Status, upto: int) -> int
    decreases upto,
{
    if upto <= 0 {
        0
    } else {
        clip(
            dec_viol_sum(problem, st, upto - 1) + clip(iabs(dec_da(problem, st, upto - 1))),
        )
    }
}

/// The violation measure after a decision pass: the violation sum plus
/// the magnitude of the coefficient sum, plus the distance of the signed
/// sum from a finite 1-norm budget.
pub open spec fn dec_violation<P: PrimalProblem>(problem: &P, st: Status) -> int {
    let n = problem.spec_size();
    let s = dec_sums(problem, st, n);
    let v1 = clip(dec_viol_sum(problem, st, n) + clip(iabs(s.0)));
    if problem.spec_params().max_asum.v < i64::MAX {
        clip(v1 + clip(iabs(clip(s.2 - problem.spec_params().max_asum.v))))
    } else {
        v1
    }
}

/// The decision pass depends only on the point `(a, b, c, ka)` of a
/// status, never on its derived fields.
pub proof fn lemma_dec_same<P: PrimalProblem>(problem: &P, st1: Status, st2: Status, upto: int)
    requires
        st1.a@ == st2.a@,
        st1.ka@ == st2.ka@,
        st1.b == st2.b,
        st1.c == st2.c,
    ensures
        forall|i: int| (#[trigger] dec_g(problem, st1, i)) == dec_g(problem, st2, i),
        forall|i: int| (#[trigger] dec_h(problem, st1, i)) == dec_h(problem, st2, i),
        forall|i: int| (#[trigger] dec_da(problem, st1, i)) == dec_da(problem, st2, i),
        dec_sums(problem, st1, upto) == dec_sums(problem, st2, upto),
        dec_viol_sum(problem, st1, upto) == dec_viol_sum(problem, st2, upto),
        dec_violation(problem, st1) == dec_violation(problem, st2),
{
    assert forall|i: int| (#[trigger] dec_g(problem, st1, i)) == dec_g(problem, st2, i) by {
        assert(decision_value(problem, st1, i) == decision_value(problem, st2, i));
    }
    assert forall|i: int| (#[trigger] dec_h(problem, st1, i)) == dec_h(problem, st2, i) by {
        assert(decision_value(problem, st1, i) == decision_value(problem, st2, i));
    }
    lemma_dec_same_sums(problem, st1, st2, upto);
    lemma_dec_same_sums(problem, st1, st2, problem.spec_size());
}

/// Helper of [`lemma_dec_same`]: the running sums alone.
proof fn lemma_dec_same_sums<P: PrimalProblem>(problem: &P, st1: Status, st2: Status, upto: int)
    requires
        st1.a@ == st2.a@,
        st1.ka@ == st2.ka@,
        st1.b == st2.b,
        st1.c == st2.c,
    ensures
        dec_sums(problem, st1, upto) == dec_sums(problem, st2, upto),
        dec_viol_sum(problem, st1, upto) == dec_viol_sum(problem, st2, upto),
    decreases upto,
{
    assert forall|i: int| (#[trigger] dec_g(problem, st1, i)) == dec_g(problem, st2, i) by {
        assert(decision_value(problem, st1, i) == decision_value(problem, st2, i));
    }
    assert forall|i: int| (#[trigger] dec_h(problem, st1, i)) == dec_h(problem, st2, i) by {
        assert(decision_value(problem, st1, i) == decision_value(problem, st2, i));
    }
    if upto > 0 {
        lemma_dec_same_sums(problem, st1, st2, upto - 1);
    }
}

/// The derived fields of a status agree with one decision pass over its
/// own point: the gradients, the 1-norm tracker and the violation are
/// exactly what [`compute_decisions`] would recompute from `(a, b, c,
/// ka)`.
pub open spec fn dec_consistent<P: PrimalProblem>(problem: &P, st: Status) -> bool {
    let n = problem.spec_size();
    &&& st.violation.v == dec_violation(problem, st)
    &&& st.asum.v == dec_sums(problem, st, n).2
    &&& forall|i: int| 0 <= i < n ==> (#[trigger] st.g@[i]).v == dec_g(problem, st, i)
}

/// Every entry of the stored kernel product is the exact scaled
/// kernel-column sum of the coefficient vector (no drift from incremental
/// updates).
pub open spec fn ka_fresh<P: PrimalProblem, K: Kernel>(problem: &P, kernel: &K, st: Status) -> bool {
    forall|j: int|
        0 <= j < problem.spec_size() ==> (#[trigger] st.ka@[j]).v == crate::problem::base::ka_col_sum(
            kernel,
            st.a@,
            problem.spec_params().lambda,
            j,
            problem.spec_size(),
        )
}

/// The Armijo acceptance test: a candidate is accepted when the achieved
/// decrease exceeds `sigma` times the predicted decrease, where the
/// caller folds the stepsize into `sigma`.  The predicted decrease is
/// clamped at zero, so an accepted step always decreases the objective
/// strictly.
pub fn accepts(obj0: Fx, obj1: Fx, sigma: Fx, pred: Fx) -> (r: bool)
    requires
        sigma.v >= 0,
    ensures
        r == (clip(obj0.v - obj1.v) > fx_prod(
            sigma.v as int,
            if pred.v >= 0 {
                pred.v as int
            } else {
                0
            },
        )),
        r ==> obj1.v < obj0.v,
{
    let pred_pos = pred.max_of(Fx { v: 0 });
    let desc = obj0.sub(obj1);
    proof {
        assert(sigma.v as int * pred_pos.v as int >= 0) by (nonlinear_arith)
            requires
                sigma.v >= 0,
                pred_pos.v >= 0,
        ;
        crate::fixed::lemma_tdiv_bound(sigma.v as int * pred_pos.v as int, FX_ONE as int);
    }
    desc.v > sigma.mul(pred_pos).v
}

/// One pass of the decision computation: gradients, second derivatives,
/// partition, sums, 1-norm and violation, written into the extended
/// state.  The underlying point `(a, b, c, ka)` is untouched.
pub fn compute_decisions<P: PrimalProblem>(problem: &P, status_ext: &mut StatusExtended)
    requires
        problem.wf(),
        old(status_ext).status.a@.len() == problem.spec_size(),
        old(status_ext).status.ka@.len() == problem.spec_size(),
        old(status_ext).status.g@.len() == problem.spec_size(),
        old(status_ext).dir.a@.len() == problem.spec_size(),
        old(status_ext).h@.len() == problem.spec_size(),
    ensures
        final(status_ext).status.a == old(status_ext).status.a,
        final(status_ext).status.b == old(status_ext).status.b,
        final(status_ext).status.c == old(status_ext).status.c,
        final(status_ext).status.ka == old(status_ext).status.ka,
        final(status_ext).status.value == old(status_ext).status.value,
        final(status_ext).status.code == old(status_ext).status.code,
        final(status_ext).status.steps == old(status_ext).status.steps,
        final(status_ext).status.time == old(status_ext).status.time,
        final(status_ext).status.g@.len() == problem.spec_size(),
        final(status_ext).h@.len() == problem.spec_size(),
        final(status_ext).dir.a@.len() == problem.spec_size(),
        final(status_ext).ki == old(status_ext).ki,
        final(status_ext).dir.b == old(status_ext).dir.b,
        final(status_ext).dir.c == old(status_ext).dir.c,
        forall|i: int|
            0 <= i < problem.spec_size() ==> (#[trigger] final(status_ext).status.g@[i]).v
                == dec_g(problem, old(status_ext).status, i),
        forall|i: int|
            0 <= i < problem.spec_size() ==> (#[trigger] final(status_ext).h@[i]).v == dec_h(
                problem,
                old(status_ext).status,
                i,
            ),
        final(status_ext).active.size == problem.spec_size(),
        final(status_ext).active.size_positive == 0,
        final(status_ext).active.positive@.len() + final(status_ext).active.zeros@.len()
            <= problem.spec_size(),
        final(status_ext).active.positive@ == dec_positive(
            problem,
            old(status_ext).status,
            problem.spec_size(),
        ),
        final(status_ext).active.zeros@ == dec_zeros(
            problem,
            old(status_ext).status,
            problem.spec_size(),
        ),
        forall|p: int|
            0 <= p < final(status_ext).active.positive@.len() ==> (#[trigger] final(status_ext).active.positive@[p] as int) < problem.spec_size(),
        forall|p: int|
            0 <= p < final(status_ext).active.zeros@.len() ==> (#[trigger] final(status_ext).active.zeros@[p] as int) < problem.spec_size(),
        forall|p: int|
            0 <= p < final(status_ext).active.positive@.len() ==> (#[trigger] final(status_ext).h@[final(status_ext).active.positive@[p] as int]).v != 0,
        ({
            let s = dec_sums(problem, old(status_ext).status, problem.spec_size());
            final(status_ext).sums.a.v == s.0 && final(status_ext).sums.g.v == s.1 && final(status_ext).sums.sa.v == s.2 && final(status_ext).sums.sg.v == s.3 && final(status_ext).sums.da_zeros.v == s.4 && final(status_ext).sums.sda_zeros.v == s.5 && final(status_ext).status.asum.v == s.2
        }),
        final(status_ext).status.violation.v == dec_violation(
            problem,
            old(status_ext).status,
        ),
        forall|i: int|
            #![trigger final(status_ext).dir.a@[i]]
            0 <= i < problem.spec_size() && dec_h(problem, old(status_ext).status, i) == 0
                ==> final(status_ext).dir.a@[i].v == dec_da(
                problem,
                old(status_ext).status,
                i,
            ),
        forall|i: int|
            #![trigger final(status_ext).dir.a@[i]]
            0 <= i < problem.spec_size() && dec_h(problem, old(status_ext).status, i) != 0
                ==> final(status_ext).dir.a@[i] == old(status_ext).dir.a@[i],
{
    proof {
        problem.wf_facts();
    }
    let n = problem.size();
    let mut active = ActiveSet::new(n);
    let mut sums = Sums::new();
    let mut violation = Fx { v: 0 };
    let has_budget = problem.has_max_asum();
    let ghost st0 = status_ext.status;
    let mut i: usize = 0;
    while i < n
        invariant
            i <= n,
            n as int == problem.spec_size(),
            problem.wf(),
            status_ext.status.a == st0.a,
            status_ext.status.b == st0.b,
            status_ext.status.c == st0.c,
            status_ext.status.ka == st0.ka,
            status_ext.status.value == st0.value,
            status_ext.status.asum == st0.asum,
            status_ext.status.violation == st0.violation,
            status_ext.status.code == st0.code,
            status_ext.status.steps == st0.steps,
            status_ext.status.time == st0.time,
            st0 == old(status_ext).status,
            status_ext.status.a@.len() == n,
            status_ext.status.ka@.len() == n,
            status_ext.status.g@.len() == n,
            status_ext.h@.len() == n,
            status_ext.dir.a@.len() == n,
            status_ext.ki == old(status_ext).ki,
            status_ext.dir.b == old(status_ext).dir.b,
            status_ext.dir.c == old(status_ext).dir.c,
            forall|q: int|
                0 <= q < i ==> (#[trigger] status_ext.status.g@[q]).v == dec_g(problem, st0, q),
            forall|q: int|
                i <= q < n ==> (#[trigger] status_ext.status.g@[q]) == st0.g@[q],
            forall|q: int|
                0 <= q < i ==> (#[trigger] status_ext.h@[q]).v == dec_h(problem, st0, q),
            active.size == n,
            active.size_positive == 0,
            active.positive@ == dec_positive(problem, st0, i as int),
            active.zeros@ == dec_zeros(problem, st0, i as int),
            active.positive@.len() + active.zeros@.len() <= i,
            forall|p: int|
                0 <= p < active.positive@.len() ==> (#[trigger] active.positive@[p] as int) < i,
            forall|p: int|
                0 <= p < active.zeros@.len() ==> (#[trigger] active.zeros@[p] as int) < i,
            forall|p: int|
                0 <= p < active.positive@.len() ==> (#[trigger] status_ext.h@[
                    active.positive@[p] as int]).v != 0,
            ({
                let s = dec_sums(problem, st0, i as int);
                sums.a.v == s.0 && sums.g.v == s.1 && sums.sa.v == s.2 && sums.sg.v == s.3
                    && sums.da_zeros.v == s.4 && sums.sda_zeros.v == s.5
            }),
            violation.v == dec_viol_sum(problem, st0, i as int),
            forall|q: int|
                #![trigger status_ext.dir.a@[q]]
                0 <= q < i && dec_h(problem, st0, q) == 0 ==> status_ext.dir.a@[q].v == dec_da(
                    problem,
                    st0,
                    q,
                ),
            forall|q: int|
                #![trigger status_ext.dir.a@[q]]
                (0 <= q < i && dec_h(problem, st0, q) != 0) || (i <= q < n)
                    ==> status_ext.dir.a@[q] == old(status_ext).dir.a@[q],
        decreases n - i,
    {
        let ai = status_ext.status.a[i];
        sums.a = sums.a.add(ai);
        let si = problem.sign(i);
        sums.sa = sums.sa.add(si.mul(ai));
        let ti = status_ext.status.ka[i].add(status_ext.status.b).add(
            si.mul(status_ext.status.c),
        );
        proof {
            assert(ti.v == decision_value(problem, st0, i as int));
        }
        let gi = problem.d_loss(i, ti);
        status_ext.status.g[i] = gi;
        sums.g = sums.g.add(gi);
        sums.sg = sums.sg.add(si.mul(gi));
        let dai = ai.add(gi);
        violation = violation.add(dai.abs());
        let hi = problem.d2_loss(i, ti);
        status_ext.h[i] = hi;
        if hi.v == 0 {
            status_ext.dir.a[i] = dai;
            if dai.v != 0 {
                active.zeros.push(i);
            }
            sums.da_zeros = sums.da_zeros.add(dai);
            sums.sda_zeros = sums.sda_zeros.add(si.mul(dai));
        } else {
            active.positive.push(i);
        }
        i = i + 1;
    }
    let mut v = violation.add(sums.a.abs());
    if has_budget {
        v = v.add(sums.sa.sub(problem.max_asum()).abs());
    }
    status_ext.status.violation = v;
    status_ext.status.asum = sums.sa;
    status_ext.active = active;
    status_ext.sums = sums;
}

/// A copy of a status (all scalar fields and fresh copies of the
/// vectors).
fn status_copy(src: &Status) -> (r: Status)
    ensures
        r.a@ == src.a@,
        r.b == src.b,
        r.c == src.c,
        r.asum == src.asum,
        r.violation == src.violation,
        r.value == src.value,
        r.ka@ == src.ka@,
        r.g@ == src.g@,
        r.code == src.code,
        r.steps == src.steps,
        r.time == src.time,
{
    Status {
        a: copy_fx(&src.a),
        b: src.b,
        c: src.c,
        asum: src.asum,
        violation: src.violation,
        value: src.value,
        ka: copy_fx(&src.ka),
        g: copy_fx(&src.g),
        code: src.code,
        steps: src.steps,
        time: src.time,
    }
}

fn copy_fx(src: &Vec<Fx>) -> (r: Vec<Fx>)
    ensures
        r@ == src@,
{
    let mut r: Vec<Fx> = Vec::new();
    let n = src.len();
    let mut q: usize = 0;
    while q < n
        invariant
            q <= n,
            n == src@.len(),
            r@.len() == q,
            forall|p: int| 0 <= p < q ==> r@[p] == src@[p],
        decreases n - q,
    {
        r.push(src[q]);
        q = q + 1;
    }
    proof {
        assert(r@ =~= src@);
    }
    r
}

/// The coefficient vector after one Armijo trial at `stepsize`: walking
/// the first `upto` members of `pos`, every variable with a nonzero
/// direction entry moves by `-stepsize * dir_a[i]`.
pub open spec fn trial_a(
    a0: Seq<Fx>,
    dir_a: Seq<Fx>,
    pos: Seq<usize>,
    stepsize: Fx,
    upto: int,
) -> Seq<Fx>
    decreases upto,
{
    if upto <= 0 {
        a0
    } else {
        let prev = trial_a(a0, dir_a, pos, stepsize, upto - 1);
        let i = pos[upto - 1] as int;
        if dir_a[i].v != 0 {
            prev.update(
                i,
                Fx { v: clip(prev[i].v - fx_prod(stepsize.v as int, dir_a[i].v as int)) as i64 },
            )
        } else {
            prev
        }
    }
}

/// The kernel product after one Armijo trial at `stepsize`: for every
/// variable moved by the walk over `pos`, every column `j` moves by
/// `-K[i, j] * stepsize * dir_a[i] / lambda`, in the walk's order.
pub open spec fn trial_ka<K: Kernel>(
    kernel: &K,
    ka0: Seq<Fx>,
    dir_a: Seq<Fx>,
    pos: Seq<usize>,
    stepsize: Fx,
    lambda: Fx,
    upto: int,
) -> Seq<Fx>
    decreases upto,
{
    if upto <= 0 {
        ka0
    } else {
        let prev = trial_ka(kernel, ka0, dir_a, pos, stepsize, lambda, upto - 1);
        let i = pos[upto - 1] as int;
        if dir_a[i].v != 0 {
            Seq::new(
                prev.len(),
                |j: int|
                    Fx {
                        v: clip(
                            prev[j].v - fx_quot(
                                fx_prod(
                                    fx_prod(kernel.entry(i, j).v as int, stepsize.v as int),
                                    dir_a[i].v as int,
                                ),
                                lambda.v as int,
                            ),
                        ) as i64,
                    },
            )
        } else {
            prev
        }
    }
}

/// Builds the candidate point for one Armijo trial: moves `(a, b, c)` by
/// `stepsize` along the direction, keeps the kernel product in sync row
/// by row, and accumulates the predicted decrease.  The candidate's
/// coefficients and kernel product follow [`trial_a`] and [`trial_ka`]
/// over the stored active walk, and its value is its exact primal
/// objective.
fn update_status<P: PrimalProblem, K: Kernel>(
    problem: &P,
    kernel: &mut K,
    status_ext: &mut StatusExtended,
    stepsize: Fx,
) -> (r: (Fx, Status))
    requires
        problem.wf(),
        old(kernel).wf(),
        old(kernel).spec_size() == problem.spec_size(),
        old(status_ext).status.a@.len() == problem.spec_size(),
        old(status_ext).status.ka@.len() == problem.spec_size(),
        old(status_ext).status.g@.len() == problem.spec_size(),
        old(status_ext).dir.a@.len() == problem.spec_size(),
        old(status_ext).active.size_positive <= old(status_ext).active.positive@.len(),
        forall|p: int|
            0 <= p < old(status_ext).active.positive@.len() ==> (#[trigger] old(status_ext).active.positive@[p] as int) < problem.spec_size(),
    ensures
        final(kernel).wf(),
        final(kernel).spec_size() == old(kernel).spec_size(),
        forall|i: int, j: int| final(kernel).entry(i, j) == old(kernel).entry(i, j),
        forall|act: Seq<usize>| old(kernel).active_ok(act) ==> final(kernel).active_ok(act),
        final(kernel).spec_max_rows() == old(kernel).spec_max_rows(),
        final(status_ext).status == old(status_ext).status,
        final(status_ext).dir == old(status_ext).dir,
        final(status_ext).active == old(status_ext).active,
        final(status_ext).sums == old(status_ext).sums,
        final(status_ext).h == old(status_ext).h,
        r.1.a@.len() == problem.spec_size(),
        r.1.ka@.len() == problem.spec_size(),
        r.1.g@ == old(status_ext).status.g@,
        r.1.code == old(status_ext).status.code,
        r.1.steps == old(status_ext).status.steps,
        r.1.time == old(status_ext).status.time,
        r.1.b.v == clip(
            old(status_ext).status.b.v - fx_prod(stepsize.v as int, old(status_ext).dir.b.v as int),
        ),
        r.1.c.v == clip(
            old(status_ext).status.c.v - fx_prod(stepsize.v as int, old(status_ext).dir.c.v as int),
        ),
        r.1.a@ == trial_a(
            old(status_ext).status.a@,
            old(status_ext).dir.a@,
            old(status_ext).active.positive@,
            stepsize,
            old(status_ext).active.positive@.len() as int,
        ),
        r.1.ka@ == trial_ka(
            old(kernel),
            old(status_ext).status.ka@,
            old(status_ext).dir.a@,
            old(status_ext).active.positive@,
            stepsize,
            problem.spec_params().lambda,
            old(status_ext).active.positive@.len() as int,
        ),
        r.1.value.v == spec_primal_objective(problem, r.1),
{
    proof {
        problem.wf_facts();
    }
    let n = problem.size();
    let lambda = problem.lambda();
    let full = active_all(n);
    let mut status_next = status_copy(&status_ext.status);
    let mut pred_desc = status_ext.sums.g.mul(status_ext.dir.b);
    if problem.has_max_asum() {
        pred_desc = pred_desc.add(
            status_ext.dir.c.mul(status_ext.sums.sg.add(problem.max_asum())),
        );
    }
    status_next.b = status_next.b.sub(stepsize.mul(status_ext.dir.b));
    status_next.c = status_next.c.sub(stepsize.mul(status_ext.dir.c));
    let n_all = status_ext.active.positive.len();
    let mut p: usize = 0;
    while p < n_all
        invariant
            p <= n_all,
            n_all == status_ext.active.positive@.len(),
            n as int == problem.spec_size(),
            problem.wf(),
            lambda.v >= 1,
            kernel.wf(),
            kernel.spec_size() == problem.spec_size(),
            forall|i2: int, j2: int| kernel.entry(i2, j2) == old(kernel).entry(i2, j2),
            forall|act: Seq<usize>| old(kernel).active_ok(act) ==> kernel.active_ok(act),
            kernel.spec_max_rows() == old(kernel).spec_max_rows(),
            status_ext.status == old(status_ext).status,
            status_ext.dir == old(status_ext).dir,
            status_ext.active == old(status_ext).active,
            status_ext.sums == old(status_ext).sums,
            status_ext.h == old(status_ext).h,
            status_ext.status.a@.len() == n,
            status_ext.status.g@.len() == n,
            status_ext.dir.a@.len() == n,
            forall|q: int|
                0 <= q < n_all ==> (#[trigger] status_ext.active.positive@[q] as int) < n,
            full@.len() == n,
            valid_active(full@, n as int),
            forall|q: int| 0 <= q < n ==> full@[q] == q,
            lambda == problem.spec_params().lambda,
            status_next.a@ == trial_a(
                old(status_ext).status.a@,
                old(status_ext).dir.a@,
                old(status_ext).active.positive@,
                stepsize,
                p as int,
            ),
            status_next.ka@ == trial_ka(
                old(kernel),
                old(status_ext).status.ka@,
                old(status_ext).dir.a@,
                old(status_ext).active.positive@,
                stepsize,
                problem.spec_params().lambda,
                p as int,
            ),
            status_next.a@.len() == n,
            status_next.ka@.len() == n,
            status_next.g@ == old(status_ext).status.g@,
            status_next.code == old(status_ext).status.code,
            status_next.steps == old(status_ext).status.steps,
            status_next.time == old(status_ext).status.time,
            status_next.b.v == clip(
                old(status_ext).status.b.v - fx_prod(
                    stepsize.v as int,
                    old(status_ext).dir.b.v as int,
                ),
            ),
            status_next.c.v == clip(
                old(status_ext).status.c.v - fx_prod(
                    stepsize.v as int,
                    old(status_ext).dir.c.v as int,
                ),
            ),
        decreases n_all - p,
    {
        let i = status_ext.active.positive[p];
        let ghost a_pre = status_next.a@;
        let ghost ka_pre = status_next.ka@;
        if status_ext.dir.a[i].v != 0 {
            let dai = status_ext.dir.a[i];
            status_next.a[i] = status_next.a[i].sub(stepsize.mul(dai));
            proof {
                assert(status_next.a@ =~= trial_a(
                    old(status_ext).status.a@,
                    old(status_ext).dir.a@,
                    old(status_ext).active.positive@,
                    stepsize,
                    p as int + 1,
                ));
            }
            let mut ki: Vec<Fx> = Vec::new();
            kernel.compute_row(i, &mut ki, &full);
            let mut j: usize = 0;
            while j < n
                invariant
                    j <= n,
                    n as int == problem.spec_size(),
                    problem.wf(),
                    lambda.v >= 1,
                    lambda == problem.spec_params().lambda,
                    ki@.len() == n,
                    p < n_all,
                    n_all == status_ext.active.positive@.len(),
                    i == status_ext.active.positive@[p as int],
                    (i as int) < n,
                    dai == status_ext.dir.a@[i as int],
                    dai.v != 0,
                    forall|q: int| 0 <= q < n ==> full@[q] == q,
                    forall|q: int|
                        0 <= q < n ==> #[trigger] ki@[q] == old(kernel).entry(i as int, q),
                    forall|i2: int, j2: int| kernel.entry(i2, j2) == old(kernel).entry(i2, j2),
                    status_ext.status == old(status_ext).status,
                    status_ext.dir == old(status_ext).dir,
                    status_ext.active == old(status_ext).active,
                    status_ext.status.a@.len() == n,
                    status_ext.status.g@.len() == n,
                    status_next.a@.len() == n,
                    status_next.ka@.len() == n,
                    ka_pre == trial_ka(
                        old(kernel),
                        old(status_ext).status.ka@,
                        old(status_ext).dir.a@,
                        old(status_ext).active.positive@,
                        stepsize,
                        problem.spec_params().lambda,
                        p as int,
                    ),
                    ka_pre.len() == n,
                    status_next.a@ == trial_a(
                        old(status_ext).status.a@,
                        old(status_ext).dir.a@,
                        old(status_ext).active.positive@,
                        stepsize,
                        p as int + 1,
                    ),
                    forall|jj: int|
                        0 <= jj < j ==> (#[trigger] status_next.ka@[jj]).v == clip(
                            ka_pre[jj].v - fx_quot(
                                fx_prod(
                                    fx_prod(
                                        old(kernel).entry(i as int, jj).v as int,
                                        stepsize.v as int,
                                    ),
                                    old(status_ext).dir.a@[i as int].v as int,
                                ),
                                problem.spec_params().lambda.v as int,
                            ),
                        ),
                    forall|jj: int| j <= jj < n ==> status_next.ka@[jj] == ka_pre[jj],
                    status_next.g@ == old(status_ext).status.g@,
                    status_next.code == old(status_ext).status.code,
                    status_next.steps == old(status_ext).status.steps,
                    status_next.time == old(status_ext).status.time,
                    status_next.b.v == clip(
                        old(status_ext).status.b.v - fx_prod(
                            stepsize.v as int,
                            old(status_ext).dir.b.v as int,
                        ),
                    ),
                    status_next.c.v == clip(
                        old(status_ext).status.c.v - fx_prod(
                            stepsize.v as int,
                            old(status_ext).dir.c.v as int,
                        ),
                    ),
                decreases n - j,
            {
                let kij = ki[j];
                status_next.ka[j] = status_next.ka[j].sub(
                    kij.mul(stepsize).mul(dai).div(lambda),
                );
                let rj = status_ext.status.a[j].add(status_ext.status.g[j]);
                if rj.v != 0 {
                    pred_desc = pred_desc.add(kij.mul(dai).mul(rj).div(lambda));
                }
                j = j + 1;
            }
            proof {
                assert(status_next.ka@ =~= trial_ka(
                    old(kernel),
                    old(status_ext).status.ka@,
                    old(status_ext).dir.a@,
                    old(status_ext).active.positive@,
                    stepsize,
                    problem.spec_params().lambda,
                    p as int + 1,
                ));
            }
        }
        p = p + 1;
    }
    let obj1 = primal_objective(problem, &status_next);
    let ghost pre_val = status_next;
    status_next.value = obj1;
    proof {
        crate::problem::lemma_primal_loss_sum_same(
            problem,
            pre_val,
            status_next,
            problem.spec_size(),
        );
    }
    (pred_desc, status_next)
}

/// Uses a version of Newton's method to solve the given training problem
/// starting from a particular [`Status`].  The returned code says why the
/// solve ended; `Optimal` means that the final scaled violation is below
/// the tolerance, measured on a freshly recomputed kernel product, with
/// the stored gradients, tracker and violation consistent with the
/// returned point; `NoStepPossible` means two line searches in a row
/// failed while the final decision pass still had its scaled violation
/// at or above the tolerance.  Every accepted line-search step strictly
/// decreased the primal objective (see [`accepts`]).  The problem must
/// have at least one variable.
pub fn solve_with_status<P: Problem, K: Kernel, C: Callback>(
    status: Status,
    problem: &P,
    kernel: &mut K,
    params: &Params,
    callback: &mut C,
) -> (r: Status)
    requires
        problem.wf(),
        problem.spec_size() >= 1,
        old(kernel).wf(),
        old(kernel).spec_size() == problem.spec_size(),
        old(kernel).active_ok(full_seq(problem.spec_size())),
        old(kernel).spec_max_rows() >= 1,
        status.sized(problem.spec_size()),
        params.sigma.v >= 0,
    ensures
        r.sized(problem.spec_size()),
        r.code == StatusCode::Optimal || r.code == StatusCode::MaxSteps || r.code
            == StatusCode::TimeLimit || r.code == StatusCode::Callback || r.code
            == StatusCode::NoStepPossible,
        r.code == StatusCode::Optimal ==> fx_prod(
            problem.spec_params().lambda.v as int,
            r.violation.v as int,
        ) < params.tol.v as int,
        r.code == StatusCode::Optimal ==> (dec_consistent(problem, r) && ka_fresh(
            problem,
            old(kernel),
            r,
        )),
        r.code == StatusCode::NoStepPossible ==> (fx_prod(
            problem.spec_params().lambda.v as int,
            r.violation.v as int,
        ) >= params.tol.v as int && dec_consistent(problem, r)),
        r.code == StatusCode::MaxSteps ==> r.steps == params.max_steps,
        r.code == StatusCode::TimeLimit ==> (params.time_limit > 0 && r.time
            >= params.time_limit),
        final(kernel).wf(),
        final(kernel).spec_size() == old(kernel).spec_size(),
        forall|i: int, j: int| final(kernel).entry(i, j) == old(kernel).entry(i, j),
        final(kernel).spec_max_rows() == old(kernel).spec_max_rows(),
{
    proof {
        problem.wf_facts();
    }
    let n = problem.size();
    let start = crate::time::now();
    let full = active_all(n);
    proof {
        assert(full@ =~= full_seq(n as int));
    }
    let mut step: usize = 0;
    let mut stop = false;
    let mut fresh_ka = false;
    let mut recompute_ka = false;
    let mut last_fail = false;

    let mut status_ext = StatusExtended {
        status,
        dir: Direction::new(n),
        active: ActiveSet::new(n),
        sums: Sums::new(),
        h: fx_zeros(n),
        ki: fx_zeros(n),
    };
    let obj_primal = primal_objective(problem, &status_ext.status);
    status_ext.status.value = obj_primal;
    loop
        invariant_except_break
            !stop,
        invariant
            problem.wf(),
            n as int == problem.spec_size(),
            n >= 1,
            kernel.wf(),
            kernel.spec_size() == problem.spec_size(),
            forall|p: int, q: int| kernel.entry(p, q) == old(kernel).entry(p, q),
            kernel.active_ok(full@),
            kernel.spec_max_rows() == old(kernel).spec_max_rows(),
            kernel.spec_max_rows() >= 1,
            full@.len() == n,
            forall|i: int| 0 <= i < n ==> full@[i] == i,
            valid_active(full@, n as int),
            status_ext.status.a@.len() == n,
            status_ext.status.ka@.len() == n,
            status_ext.status.g@.len() == n,
            status_ext.dir.a@.len() == n,
            status_ext.h@.len() == n,
            step <= params.max_steps,
            params.sigma.v >= 0,
            fresh_ka ==> ka_fresh(problem, old(kernel), status_ext.status),
        ensures
            status_ext.status.sized(problem.spec_size()),
            status_ext.status.code == StatusCode::Optimal || status_ext.status.code
                == StatusCode::MaxSteps || status_ext.status.code == StatusCode::TimeLimit
                || status_ext.status.code == StatusCode::Callback || status_ext.status.code
                == StatusCode::NoStepPossible,
            status_ext.status.code == StatusCode::Optimal ==> fx_prod(
                problem.spec_params().lambda.v as int,
                status_ext.status.violation.v as int,
            ) < params.tol.v as int,
            status_ext.status.code == StatusCode::Optimal ==> (dec_consistent(
                problem,
                status_ext.status,
            ) && ka_fresh(problem, old(kernel), status_ext.status)),
            status_ext.status.code == StatusCode::NoStepPossible ==> (fx_prod(
                problem.spec_params().lambda.v as int,
                status_ext.status.violation.v as int,
            ) >= params.tol.v as int && dec_consistent(problem, status_ext.status)),
            status_ext.status.code == StatusCode::MaxSteps ==> status_ext.status.steps
                == params.max_steps,
            status_ext.status.code == StatusCode::TimeLimit ==> (params.time_limit > 0
                && status_ext.status.time >= params.time_limit),
            kernel.wf(),
            kernel.spec_size() == problem.spec_size(),
            forall|p: int, q: int| kernel.entry(p, q) == old(kernel).entry(p, q),
            kernel.spec_max_rows() == old(kernel).spec_max_rows(),
        decreases (params.max_steps - step), (if recompute_ka {
            0int
        } else {
            1int
        }),
    {
        // update steps and time
        status_ext.status.steps = step;
        let elapsed = crate::time::until_now(&start);
        status_ext.status.time = elapsed;

        // handle step limit
        if step >= params.max_steps {
            status_ext.status.code = StatusCode::MaxSteps;
            stop = true;
        }
        // handle time limit
        if params.time_limit > 0 && elapsed >= params.time_limit {
            status_ext.status.code = StatusCode::TimeLimit;
            stop = true;
        }
        // handle callback
        if callback.stop(&status_ext.status) {
            status_ext.status.code = StatusCode::Callback;
            stop = true;
        }

        // recompute the kernel product if requested
        if recompute_ka {
            recompute_ka = false;
            fresh_ka = true;
            let ghost k_pre = *kernel;
            recompute_kernel_product(problem, kernel, &mut status_ext.status, &full);
            proof {
                assert forall|j: int| 0 <= j < n implies (
                #[trigger] status_ext.status.ka@[j]).v
                    == crate::problem::base::ka_col_sum(
                    old(kernel),
                    status_ext.status.a@,
                    problem.spec_params().lambda,
                    j,
                    problem.spec_size(),
                ) by {
                    assert(full@[j] == j as usize);
                    assert(status_ext.status.ka@[full@[j] as int].v
                        == crate::problem::base::ka_col_sum(
                        &k_pre,
                        status_ext.status.a@,
                        problem.spec_params().lambda,
                        full@[j] as int,
                        problem.spec_size(),
                    ));
                    crate::problem::base::lemma_ka_col_sum_congruent(
                        &k_pre,
                        old(kernel),
                        status_ext.status.a@,
                        problem.spec_params().lambda,
                        j,
                        problem.spec_size(),
                    );
                }
                assert(ka_fresh(problem, old(kernel), status_ext.status));
            }
        }

        // compute decisions
        let ghost st_dec = status_ext.status;
        compute_decisions(problem, &mut status_ext);
        proof {
            lemma_dec_same(problem, st_dec, status_ext.status, problem.spec_size());
            assert(dec_consistent(problem, status_ext.status));
        }
        let ghost st_after_dec = status_ext.status;

        // check for optimality
        let optimal = problem.is_optimal(&status_ext.status, params.tol);
        if optimal {
            if fresh_ka {
                status_ext.status.code = StatusCode::Optimal;
                stop = true;
            } else if !stop {
                // the kernel product may be stale: refresh it first
                recompute_ka = true;
                continue ;
            }
        }

        // terminate
        if stop {
            proof {
                if status_ext.status.code == StatusCode::Optimal {
                    lemma_dec_same(problem, st_after_dec, status_ext.status, problem.spec_size());
                    assert(dec_consistent(problem, status_ext.status));
                }
            }
            break ;
        }

        // compute a direction
        let n_positive = status_ext.active.positive.len();
        if n_positive == 0 {
            status_ext.active.merge();
            status_ext.active.make_full();
            crate::newton::direction::gradient(problem, kernel, &mut status_ext);
        } else {
            newton_with_fallback(problem, kernel, &mut status_ext);
        }

        // Armijo line search
        let mut stepsize = Fx { v: FX_ONE };
        let obj0 = primal_objective(problem, &status_ext.status);
        let mut backstep: usize = 0;
        let mut accepted = false;
        loop
            invariant_except_break
                backstep < params.max_back_steps || (params.max_back_steps == 0 && backstep
                    == 0),
            invariant
                problem.wf(),
                n as int == problem.spec_size(),
                kernel.wf(),
                kernel.spec_size() == problem.spec_size(),
                forall|p: int, q: int| kernel.entry(p, q) == old(kernel).entry(p, q),
                kernel.active_ok(full@),
                kernel.spec_max_rows() == old(kernel).spec_max_rows(),
                status_ext.status.a@.len() == n,
                status_ext.status.ka@.len() == n,
                status_ext.status.g@.len() == n,
                status_ext.dir.a@.len() == n,
                status_ext.h@.len() == n,
                status_ext.active.size_positive <= status_ext.active.positive@.len(),
                forall|p: int|
                    0 <= p < status_ext.active.positive@.len() ==> (
                    #[trigger] status_ext.active.positive@[p] as int) < n,
                params.sigma.v >= 0,
                !accepted ==> status_ext.status == st_after_dec,
            decreases params.max_back_steps - backstep,
        {
            let trial = update_status(problem, kernel, &mut status_ext, stepsize);
            let pred_desc = trial.0;
            let status_next = trial.1;
            let sig_alpha = params.sigma.mul(stepsize).max_of(Fx { v: 0 });
            if accepts(obj0, status_next.value, sig_alpha, pred_desc) {
                status_ext.status = status_next;
                accepted = true;
                break ;
            }
            stepsize = stepsize.mul(params.eta);
            backstep = backstep + 1;
            if backstep >= params.max_back_steps {
                break ;
            }
        }

        if accepted {
            fresh_ka = false;
            last_fail = false;
        } else {
            if last_fail {
                status_ext.status.code = StatusCode::NoStepPossible;
                stop = true;
                proof {
                    lemma_dec_same(problem, st_after_dec, status_ext.status, problem.spec_size());
                    assert(dec_consistent(problem, status_ext.status));
                }
                break ;
            }
            last_fail = true;
            recompute_ka = true;
        }
        step = step + 1;
    }
    status_ext.status
}

/// Uses a version of Newton's method to solve the given training problem
/// starting from the default initial point.
pub fn solve<P: Problem, K: Kernel, C: Callback>(
    problem: &P,
    kernel: &mut K,
    params: &Params,
    callback: &mut C,
) -> (r: Status)
    requires
        problem.wf(),
        problem.spec_size() >= 1,
        old(kernel).wf(),
        old(kernel).spec_size() == problem.spec_size(),
        old(kernel).active_ok(full_seq(problem.spec_size())),
        old(kernel).spec_max_rows() >= 1,
        params.sigma.v >= 0,
    ensures
        r.sized(problem.spec_size()),
        r.code == StatusCode::Optimal || r.code == StatusCode::MaxSteps || r.code
            == StatusCode::TimeLimit || r.code == StatusCode::Callback || r.code
            == StatusCode::NoStepPossible,
        r.code == StatusCode::Optimal ==> fx_prod(
            problem.spec_params().lambda.v as int,
            r.violation.v as int,
        ) < params.tol.v as int,
        r.code == StatusCode::Optimal ==> (dec_consistent(problem, r) && ka_fresh(
            problem,
            old(kernel),
            r,
        )),
        r.code == StatusCode::NoStepPossible ==> (fx_prod(
            problem.spec_params().lambda.v as int,
            r.violation.v as int,
        ) >= params.tol.v as int && dec_consistent(problem, r)),
        r.code == StatusCode::MaxSteps ==> r.steps == params.max_steps,
        r.code == StatusCode::TimeLimit ==> (params.time_limit > 0 && r.time
            >= params.time_limit),
{
    proof {
        problem.wf_facts();
    }
    let n = problem.size();
    let status = Status::new(n);
    solve_with_status(status, problem, kernel, params, callback)
}

} // verus!
