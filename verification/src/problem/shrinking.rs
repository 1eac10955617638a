//! Shrinking of the active set.
use vstd::prelude::*;

use crate::fixed::{clip, fx_prod, Fx, FX_ONE};
use crate::kernel::{active_all, subset_of, valid_active, Kernel};
use crate::problem::base::{ka_col_sum, recompute_kernel_product, ProblemBase};
use crate::status::Status;

verus! {

/// Training problem with box constraints, the base of shrinking.
pub trait ShrinkingBase: ProblemBase {
    /// Lower bound of the ith variable.
    spec fn spec_lb(&self, i: int) -> Fx;

    /// Upper bound of the ith variable.
    spec fn spec_ub(&self, i: int) -> Fx;

    /// The box of every variable contains zero.
    proof fn bounds_facts(&self, i: int)
        requires
            self.wf(),
            0 <= i < self.spec_size(),
        ensures
            self.spec_lb(i).v <= 0 <= self.spec_ub(i).v,
    ;

    /// Returns the lower bound of the ith variable.
    fn lb(&self, i: usize) -> (r: Fx)
        requires
            self.wf(),
            (i as int) < self.spec_size(),
        ensures
            r == self.spec_lb(i as int),
            r.v <= 0,
    ;

    /// Returns the upper bound of the ith variable.
    fn ub(&self, i: usize) -> (r: Fx)
        requires
            self.wf(),
            (i as int) < self.spec_size(),
        ensures
            r == self.spec_ub(i as int),
            r.v >= 0,
    ;

    /// Checks whether the problem is shrunk.
    fn is_shrunk(&self, status: &Status, active_set: &Vec<usize>) -> (r: bool)
        ensures
            r == (active_set@.len() < status.a@.len()),
    {
        active_set.len() < status.a.len()
    }
}

/// Coefficient `i` lies in its box `[lb(i), ub(i)]`.
pub open spec fn in_box<P: ShrinkingBase>(problem: &P, a: Seq<Fx>, i: int) -> bool {
    problem.spec_lb(i).v <= a[i].v <= problem.spec_ub(i).v
}

/// The gradient-with-bias value `g[k] + b + c * sign(k)` that decides the
/// shrinking of variable `k` (raw value).
pub open spec fn shrink_gkb<P: ShrinkingBase>(problem: &P, status: Status, k: int) -> int {
    clip(
        clip(status.g@[k].v + status.b.v) + fx_prod(
            status.c.v as int,
            problem.spec_sign(k) * (FX_ONE as int),
        ),
    )
}

/// Variable `k` stays active: either its violation measure is still large
/// relative to the overall violation, or it is not pinned at a bound in a
/// direction that cannot improve the objective.
pub open spec fn shrink_keeps<P: ShrinkingBase>(
    problem: &P,
    status: Status,
    threshold: Fx,
    k: int,
) -> bool {
    let gkb = shrink_gkb(problem, status, k);
    fx_prod(gkb, gkb) <= fx_prod(threshold.v as int, status.violation.v as int) || !((status.a@[k]
        == problem.spec_ub(k) && gkb < 0) || (status.a@[k] == problem.spec_lb(k) && gkb > 0))
}

/// The subsequence of `act` whose members [`shrink_keeps`] retains.
pub open spec fn kept_active<P: ShrinkingBase>(
    problem: &P,
    status: Status,
    threshold: Fx,
    act: Seq<usize>,
) -> Seq<usize>
    decreases act.len(),
{
    if act.len() == 0 {
        Seq::empty()
    } else {
        let pre = kept_active(problem, status, threshold, act.drop_last());
        if shrink_keeps(problem, status, threshold, act.last() as int) {
            pre.push(act.last())
        } else {
            pre
        }
    }
}

/// [`kept_active`] is a valid active set and a subset of its input.
proof fn lemma_kept_props<P: ShrinkingBase>(
    problem: &P,
    status: Status,
    threshold: Fx,
    act: Seq<usize>,
    n: int,
)
    requires
        valid_active(act, n),
    ensures
        valid_active(kept_active(problem, status, threshold, act), n),
        subset_of(kept_active(problem, status, threshold, act), act),
        forall|p: int|
            0 <= p < kept_active(problem, status, threshold, act).len()
                ==> #[trigger] kept_active(problem, status, threshold, act)[p] <= act.last(),
    decreases act.len(),
{
    let kept = kept_active(problem, status, threshold, act);
    if act.len() > 0 {
        let pre_act = act.drop_last();
        assert(valid_active(pre_act, n));
        lemma_kept_props(problem, status, threshold, pre_act, n);
        let pre = kept_active(problem, status, threshold, pre_act);
        assert forall|p: int| 0 <= p < pre.len() implies #[trigger] pre[p] < act.last() by {
            if pre_act.len() > 0 {
                assert(pre[p] <= pre_act.last());
                assert(pre_act.last() == act[act.len() - 2]);
                assert(act[act.len() - 2] < act[act.len() - 1]);
            }
        }
        assert forall|p: int| 0 <= p < kept.len() implies act.contains(#[trigger] kept[p]) by {
            if p < pre.len() {
                assert(pre_act.contains(pre[p]));
                let q = choose|q: int| 0 <= q < pre_act.len() && pre_act[q] == pre[p];
                assert(act[q] == pre[p]);
            } else {
                assert(kept[p] == act[act.len() - 1]);
            }
        }
        assert forall|p: int, q: int| 0 <= p < q < kept.len() implies #[trigger] kept[p]
            < #[trigger] kept[q] by {}
        assert forall|p: int| 0 <= p < kept.len() implies (#[trigger] kept[p] as int) < n by {
            assert(act.contains(kept[p]));
            let q = choose|q: int| 0 <= q < act.len() && act[q] == kept[p];
        }
    }
}

/// Conducts the shrinking procedure: drops from the active set every
/// variable that [`shrink_keeps`] rejects and restricts the kernel's
/// cached rows accordingly.
pub fn shrink<P: ShrinkingBase, K: Kernel>(
    problem: &P,
    kernel: &mut K,
    status: &Status,
    active_set: &mut Vec<usize>,
    threshold: Fx,
)
    requires
        problem.wf(),
        old(kernel).wf(),
        old(kernel).spec_size() == problem.spec_size(),
        old(kernel).active_ok(old(active_set)@),
        valid_active(old(active_set)@, problem.spec_size()),
        status.a@.len() == problem.spec_size(),
        status.g@.len() == problem.spec_size(),
    ensures
        final(active_set)@ == kept_active(problem, *status, threshold, old(active_set)@),
        valid_active(final(active_set)@, problem.spec_size()),
        subset_of(final(active_set)@, old(active_set)@),
        final(kernel).wf(),
        final(kernel).spec_size() == old(kernel).spec_size(),
        forall|i: int, j: int| final(kernel).entry(i, j) == old(kernel).entry(i, j),
        final(kernel).active_ok(final(active_set)@),
        final(kernel).spec_max_rows() == old(kernel).spec_max_rows(),
{
    let m = active_set.len();
    let mut new_set: Vec<usize> = Vec::new();
    let mut idx: usize = 0;
    while idx < m
        invariant
            idx <= m,
            m == old(active_set)@.len(),
            active_set@ == old(active_set)@,
            problem.wf(),
            valid_active(old(active_set)@, problem.spec_size()),
            status.a@.len() == problem.spec_size(),
            status.g@.len() == problem.spec_size(),
            new_set@ == kept_active(
                problem,
                *status,
                threshold,
                old(active_set)@.take(idx as int),
            ),
        decreases m - idx,
    {
        proof {
            assert(old(active_set)@.take(idx as int + 1).drop_last() =~= old(active_set)@.take(
                idx as int,
            ));
        }
        let k = active_set[idx];
        let gkb = status.g[k].add(status.b).add(status.c.mul(problem.sign(k)));
        let sq = gkb.mul(gkb);
        let keep = sq.v <= threshold.mul(status.violation).v || !((status.a[k].v == problem.ub(
            k,
        ).v && gkb.v < 0) || (status.a[k].v == problem.lb(k).v && gkb.v > 0));
        if keep {
            new_set.push(k);
        }
        idx = idx + 1;
    }
    proof {
        assert(old(active_set)@.take(m as int) =~= old(active_set)@);
        lemma_kept_props(problem, *status, threshold, old(active_set)@, problem.spec_size());
    }
    kernel.restrict_active(active_set, &new_set);
    *active_set = new_set;
}

/// Revokes the shrinking procedure: restores the full active set,
/// invalidates the kernel cache and recomputes the kernel product.
pub fn unshrink<P: ShrinkingBase, K: Kernel>(
    problem: &P,
    kernel: &mut K,
    status: &mut Status,
    active_set: &mut Vec<usize>,
)
    requires
        problem.wf(),
        old(kernel).wf(),
        old(kernel).spec_size() == problem.spec_size(),
        old(kernel).active_ok(old(active_set)@),
        old(kernel).spec_max_rows() >= 1,
        valid_active(old(active_set)@, problem.spec_size()),
        old(status).a@.len() == problem.spec_size(),
        old(status).ka@.len() == problem.spec_size(),
    ensures
        final(status).a == old(status).a,
        final(status).b == old(status).b,
        final(status).c == old(status).c,
        final(status).asum == old(status).asum,
        final(status).violation == old(status).violation,
        final(status).value == old(status).value,
        final(status).g == old(status).g,
        final(status).code == old(status).code,
        final(status).steps == old(status).steps,
        final(status).time == old(status).time,
        final(status).ka@.len() == old(status).ka@.len(),
        final(kernel).wf(),
        final(kernel).spec_size() == old(kernel).spec_size(),
        forall|i: int, j: int| final(kernel).entry(i, j) == old(kernel).entry(i, j),
        final(kernel).active_ok(final(active_set)@),
        final(kernel).spec_max_rows() == old(kernel).spec_max_rows(),
        valid_active(final(active_set)@, problem.spec_size()),
        old(active_set)@.len() >= old(status).a@.len() ==> (*final(active_set) == *old(active_set)
            && *final(status) == *old(status) && *final(kernel) == *old(kernel)),
        old(active_set)@.len() < old(status).a@.len() ==> (final(active_set)@.len()
            == problem.spec_size() && (forall|i: int|
            0 <= i < problem.spec_size() ==> final(active_set)@[i] == i) && (forall|k: int|
            0 <= k < final(active_set)@.len()
                ==> (#[trigger] final(status).ka@[final(active_set)@[k] as int]).v == ka_col_sum(
                old(kernel),
                old(status).a@,
                problem.spec_params().lambda,
                final(active_set)@[k] as int,
                problem.spec_size(),
            ))),
{
    if !problem.is_shrunk(status, active_set) {
        return ;
    }
    let n = problem.size();
    let new_active_set = active_all(n);
    kernel.set_active(active_set, &new_active_set);
    *active_set = new_active_set;
    let ghost k_mid = *kernel;
    recompute_kernel_product(problem, kernel, status, active_set);
    proof {
        assert forall|k: int|
            0 <= k < active_set@.len() implies (#[trigger] status.ka@[active_set@[k] as int]).v
            == crate::problem::base::ka_col_sum(
            old(kernel),
            old(status).a@,
            problem.spec_params().lambda,
            active_set@[k] as int,
            problem.spec_size(),
        ) by {
            crate::problem::base::lemma_ka_col_sum_congruent(
                &k_mid,
                old(kernel),
                old(status).a@,
                problem.spec_params().lambda,
                active_set@[k] as int,
                problem.spec_size(),
            );
        }
    }
}

} // verus!
