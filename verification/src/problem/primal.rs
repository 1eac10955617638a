//! Primal training problem.
use vstd::prelude::*;

use crate::fixed::{clip, Fx, FX_HALF, FX_ONE, fx_prod};
use crate::problem::base::{LabelProblem, ProblemBase};
use crate::status::Status;

verus! {

/// Base for the definition of a primal training problem.
pub trait PrimalProblem: ProblemBase {
    /// The ith primal loss at decision value `ti`.
    spec fn spec_loss(&self, i: int, ti: Fx) -> Fx;

    /// First derivative of the ith primal loss.
    spec fn spec_d_loss(&self, i: int, ti: Fx) -> Fx;

    /// Second derivative of the ith primal loss.
    spec fn spec_d2_loss(&self, i: int, ti: Fx) -> Fx;

    /// Computes the ith loss function.
    fn loss(&self, i: usize, ti: Fx) -> (r: Fx)
        requires
            self.wf(),
            (i as int) < self.spec_size(),
        ensures
            r == self.spec_loss(i as int, ti),
    ;

    /// Computes the first derivative of the ith loss function.
    fn d_loss(&self, i: usize, ti: Fx) -> (r: Fx)
        requires
            self.wf(),
            (i as int) < self.spec_size(),
        ensures
            r == self.spec_d_loss(i as int, ti),
    ;

    /// Computes the second derivative of the ith loss function; it is
    /// never negative.
    fn d2_loss(&self, i: usize, ti: Fx) -> (r: Fx)
        requires
            self.wf(),
            (i as int) < self.spec_size(),
        ensures
            r == self.spec_d2_loss(i as int, ti),
            r.v >= 0,
    ;
}

/// The decision value of sample `i`: `ka[i] + b + sign(i) * c` (raw).
pub open spec fn decision_value<P: ProblemBase>(problem: &P, status: Status, i: int) -> int {
    clip(
        clip(status.ka@[i].v + status.b.v) + fx_prod(
            problem.spec_sign(i) * (FX_ONE as int),
            status.c.v as int,
        ),
    )
}

/// Raw value of the primal loss part of the objective, summed with
/// saturation over the first `upto` samples.
pub open spec fn primal_loss_sum<P: PrimalProblem>(problem: &P, status: Status, upto: int) -> int
    decreases upto,
{
    if upto <= 0 {
        0
    } else {
        clip(
            primal_loss_sum(problem, status, upto - 1) + problem.spec_loss(
                upto - 1,
                Fx { v: decision_value(problem, status, upto - 1) as i64 },
            ).v,
        )
    }
}

/// Raw value of the primal objective
/// `0.5 * (a . ka) + sum loss(i, t_i) + max_asum * c` (the last term only
/// with a finite 1-norm budget).
pub open spec fn spec_primal_objective<P: PrimalProblem>(problem: &P, status: Status) -> int {
    let reg = crate::problem::dual::reg_sum(status.a@, status.ka@, problem.spec_size());
    let asum_term: int = if problem.spec_params().max_asum.v < i64::MAX {
        fx_prod(problem.spec_params().max_asum.v as int, status.c.v as int)
    } else {
        0
    };
    clip(
        clip(fx_prod(FX_HALF as int, reg) + primal_loss_sum(problem, status, problem.spec_size()))
            + asum_term,
    )
}

/// The primal loss sum depends only on the point `(a, ka, b, c)`.
pub proof fn lemma_primal_loss_sum_same<P: PrimalProblem>(
    problem: &P,
    st1: Status,
    st2: Status,
    upto: int,
)
    requires
        st1.a@ == st2.a@,
        st1.ka@ == st2.ka@,
        st1.b == st2.b,
        st1.c == st2.c,
    ensures
        primal_loss_sum(problem, st1, upto) == primal_loss_sum(problem, st2, upto),
    decreases upto,
{
    if upto > 0 {
        lemma_primal_loss_sum_same(problem, st1, st2, upto - 1);
    }
}

/// Computes the primal objective function value.
pub fn primal_objective<P: PrimalProblem>(problem: &P, status: &Status) -> (r: Fx)
    requires
        problem.wf(),
        status.a@.len() == problem.spec_size(),
        status.ka@.len() == problem.spec_size(),
    ensures
        r.v == spec_primal_objective(problem, *status),
{
    proof {
        problem.wf_facts();
    }
    let n = problem.size();
    let mut reg = Fx { v: 0 };
    let mut loss_primal = Fx { v: 0 };
    let mut i: usize = 0;
    while i < n
        invariant
            i <= n,
            n as int == problem.spec_size(),
            problem.wf(),
            status.a@.len() == n,
            status.ka@.len() == n,
            reg.v == crate::problem::dual::reg_sum(status.a@, status.ka@, i as int),
            loss_primal.v == primal_loss_sum(problem, *status, i as int),
        decreases n - i,
    {
        reg = reg.add(status.ka[i].mul(status.a[i]));
        let ti = status.ka[i].add(status.b).add(problem.sign(i).mul(status.c));
        loss_primal = loss_primal.add(problem.loss(i, ti));
        i = i + 1;
    }
    let asum_term = if problem.max_asum().v < i64::MAX {
        problem.max_asum().mul(status.c)
    } else {
        Fx { v: 0 }
    };
    Fx { v: FX_HALF }.mul(reg).add(loss_primal).add(asum_term)
}

/// Base for the definition of a primal training problem in terms of
/// labels.
pub trait PrimalLabelProblem: LabelProblem {
    /// The primal loss with label `yi`.
    spec fn spec_label_loss(&self, i: int, ti: Fx, yi: Self::T) -> Fx;

    /// First derivative of the primal loss with label `yi`.
    spec fn spec_d_label_loss(&self, i: int, ti: Fx, yi: Self::T) -> Fx;

    /// Second derivative of the primal loss with label `yi`.
    spec fn spec_d2_label_loss(&self, i: int, ti: Fx, yi: Self::T) -> Fx;

    /// The second derivative of the primal loss is never negative.
    proof fn d2_label_loss_nonneg(&self, i: int, ti: Fx)
        requires
            self.wf(),
            0 <= i < self.spec_size(),
        ensures
            self.spec_d2_label_loss(i, ti, self.spec_label(i)).v >= 0,
    ;

    /// Computes the loss function with label `yi`.
    fn label_loss(&self, i: usize, ti: Fx, yi: Self::T) -> (r: Fx)
        requires
            self.wf(),
            (i as int) < self.spec_size(),
        ensures
            r == self.spec_label_loss(i as int, ti, yi),
    ;

    /// Computes the first derivative of the loss function with label `yi`.
    fn d_label_loss(&self, i: usize, ti: Fx, yi: Self::T) -> (r: Fx)
        requires
            self.wf(),
            (i as int) < self.spec_size(),
        ensures
            r == self.spec_d_label_loss(i as int, ti, yi),
    ;

    /// Computes the second derivative of the loss function with label
    /// `yi`.
    fn d2_label_loss(&self, i: usize, ti: Fx, yi: Self::T) -> (r: Fx)
        requires
            self.wf(),
            (i as int) < self.spec_size(),
        ensures
            r == self.spec_d2_label_loss(i as int, ti, yi),
    ;
}

impl<P: PrimalLabelProblem> PrimalProblem for P {
    open spec fn spec_loss(&self, i: int, ti: Fx) -> Fx {
        self.spec_label_loss(i, ti, self.spec_label(i))
    }

    open spec fn spec_d_loss(&self, i: int, ti: Fx) -> Fx {
        self.spec_d_label_loss(i, ti, self.spec_label(i))
    }

    open spec fn spec_d2_loss(&self, i: int, ti: Fx) -> Fx {
        self.spec_d2_label_loss(i, ti, self.spec_label(i))
    }

    fn loss(&self, i: usize, ti: Fx) -> (r: Fx) {
        let yi = self.label(i);
        self.label_loss(i, ti, yi)
    }

    fn d_loss(&self, i: usize, ti: Fx) -> (r: Fx) {
        let yi = self.label(i);
        self.d_label_loss(i, ti, yi)
    }

    fn d2_loss(&self, i: usize, ti: Fx) -> (r: Fx) {
        proof {
            self.d2_label_loss_nonneg(i as int, ti);
        }
        let yi = self.label(i);
        self.d2_label_loss(i, ti, yi)
    }
}

} // verus!
