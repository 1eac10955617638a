//! Dual training problem.
use vstd::prelude::*;

use crate::fixed::{clip, Fx, FX_HALF, fx_prod};
use crate::problem::base::{LabelProblem, ProblemBase};
use crate::problem::shrinking::ShrinkingBase;
use crate::status::Status;

verus! {

/// Base for the definition of a dual training problem.
pub trait DualProblem: ProblemBase + ShrinkingBase {
    /// The ith dual loss at coefficient `ai`.
    spec fn spec_dloss(&self, i: int, ai: Fx) -> Fx;

    /// First derivative of the ith dual loss.
    spec fn spec_d_dloss(&self, i: int, ai: Fx) -> Fx;

    /// Second derivative of the ith dual loss.
    spec fn spec_d2_dloss(&self, i: int, ai: Fx) -> Fx;

    /// Whether the dual subproblems are exactly quadratic.
    spec fn spec_is_quad(&self) -> bool;

    /// Computes the ith dual loss function.
    fn dloss(&self, i: usize, ai: Fx) -> (r: Fx)
        requires
            self.wf(),
            (i as int) < self.spec_size(),
        ensures
            r == self.spec_dloss(i as int, ai),
    ;

    /// Computes the first derivative of the ith dual loss function.
    fn d_dloss(&self, i: usize, ai: Fx) -> (r: Fx)
        requires
            self.wf(),
            (i as int) < self.spec_size(),
        ensures
            r == self.spec_d_dloss(i as int, ai),
    ;

    /// Computes the second derivative of the ith dual loss function; it is
    /// never negative.
    fn d2_dloss(&self, i: usize, ai: Fx) -> (r: Fx)
        requires
            self.wf(),
            (i as int) < self.spec_size(),
        ensures
            r == self.spec_d2_dloss(i as int, ai),
            r.v >= 0,
    ;

    /// Determines whether the problem is quadratic.
    fn is_quad(&self) -> (r: bool)
        requires
            self.wf(),
        ensures
            r == self.spec_is_quad(),
    ;
}

/// Raw value of the regularization part of the objective, summed with
/// saturation over the first `upto` samples: `ka[i] * a[i]`.
pub open spec fn reg_sum(a: Seq<Fx>, ka: Seq<Fx>, upto: int) -> int
    decreases upto,
{
    if upto <= 0 {
        0
    } else {
        clip(reg_sum(a, ka, upto - 1) + fx_prod(ka[upto - 1].v as int, a[upto - 1].v as int))
    }
}

/// Raw value of the dual loss part of the objective, summed with
/// saturation over the first `upto` samples.
pub open spec fn dual_loss_sum<P: DualProblem>(problem: &P, a: Seq<Fx>, upto: int) -> int
    decreases upto,
{
    if upto <= 0 {
        0
    } else {
        clip(
            dual_loss_sum(problem, a, upto - 1) + problem.spec_dloss(upto - 1, a[upto - 1]).v,
        )
    }
}

/// Raw value of the dual objective `0.5 * (a . ka) + sum dloss(i, a[i])`.
pub open spec fn spec_dual_objective<P: DualProblem>(problem: &P, status: Status) -> int {
    clip(
        fx_prod(FX_HALF as int, reg_sum(status.a@, status.ka@, problem.spec_size())) + dual_loss_sum(
            problem,
            status.a@,
            problem.spec_size(),
        ),
    )
}

/// Computes the dual objective function value.
pub fn dual_objective<P: DualProblem>(problem: &P, status: &Status) -> (r: Fx)
    requires
        problem.wf(),
        status.a@.len() == problem.spec_size(),
        status.ka@.len() == problem.spec_size(),
    ensures
        r.v == spec_dual_objective(problem, *status),
{
    proof {
        problem.wf_facts();
    }
    let n = problem.size();
    let mut reg = Fx { v: 0 };
    let mut loss_dual = Fx { v: 0 };
    let mut i: usize = 0;
    while i < n
        invariant
            i <= n,
            n as int == problem.spec_size(),
            problem.wf(),
            status.a@.len() == n,
            status.ka@.len() == n,
            reg.v == reg_sum(status.a@, status.ka@, i as int),
            loss_dual.v == dual_loss_sum(problem, status.a@, i as int),
        decreases n - i,
    {
        reg = reg.add(status.ka[i].mul(status.a[i]));
        loss_dual = loss_dual.add(problem.dloss(i, status.a[i]));
        i = i + 1;
    }
    Fx { v: FX_HALF }.mul(reg).add(loss_dual)
}

/// Base for the definition of a dual training problem in terms of labels.
pub trait DualLabelProblem: LabelProblem {
    /// The dual loss with label `yi`.
    spec fn spec_label_dloss(&self, i: int, ai: Fx, yi: Self::T) -> Fx;

    /// First derivative of the dual loss with label `yi`.
    spec fn spec_d_label_dloss(&self, i: int, ai: Fx, yi: Self::T) -> Fx;

    /// Second derivative of the dual loss with label `yi`.
    spec fn spec_d2_label_dloss(&self, i: int, ai: Fx, yi: Self::T) -> Fx;

    /// Whether the dual subproblems are exactly quadratic.
    spec fn spec_label_is_quad(&self) -> bool;

    /// The second derivative of the dual loss is never negative.
    proof fn d2_label_dloss_nonneg(&self, i: int, ai: Fx)
        requires
            self.wf(),
            0 <= i < self.spec_size(),
        ensures
            self.spec_d2_label_dloss(i, ai, self.spec_label(i)).v >= 0,
    ;

    /// Computes the dual loss function with label `yi`.
    fn label_dloss(&self, i: usize, ai: Fx, yi: Self::T) -> (r: Fx)
        requires
            self.wf(),
            (i as int) < self.spec_size(),
        ensures
            r == self.spec_label_dloss(i as int, ai, yi),
    ;

    /// Computes the first derivative of the dual loss with label `yi`.
    fn d_label_dloss(&self, i: usize, ai: Fx, yi: Self::T) -> (r: Fx)
        requires
            self.wf(),
            (i as int) < self.spec_size(),
        ensures
            r == self.spec_d_label_dloss(i as int, ai, yi),
    ;

    /// Computes the second derivative of the dual loss with label `yi`.
    fn d2_label_dloss(&self, i: usize, ai: Fx, yi: Self::T) -> (r: Fx)
        requires
            self.wf(),
            (i as int) < self.spec_size(),
        ensures
            r == self.spec_d2_label_dloss(i as int, ai, yi),
    ;

    /// Determines whether the dual loss function is quadratic.
    fn label_is_quad(&self) -> (r: bool)
        requires
            self.wf(),
        ensures
            r == self.spec_label_is_quad(),
    ;
}

impl<P: DualLabelProblem + ShrinkingBase> DualProblem for P {
    open spec fn spec_dloss(&self, i: int, ai: Fx) -> Fx {
        self.spec_label_dloss(i, ai, self.spec_label(i))
    }

    open spec fn spec_d_dloss(&self, i: int, ai: Fx) -> Fx {
        self.spec_d_label_dloss(i, ai, self.spec_label(i))
    }

    open spec fn spec_d2_dloss(&self, i: int, ai: Fx) -> Fx {
        self.spec_d2_label_dloss(i, ai, self.spec_label(i))
    }

    open spec fn spec_is_quad(&self) -> bool {
        self.spec_label_is_quad()
    }

    fn dloss(&self, i: usize, ai: Fx) -> (r: Fx) {
        let yi = self.label(i);
        self.label_dloss(i, ai, yi)
    }

    fn d_dloss(&self, i: usize, ai: Fx) -> (r: Fx) {
        let yi = self.label(i);
        self.d_label_dloss(i, ai, yi)
    }

    fn d2_dloss(&self, i: usize, ai: Fx) -> (r: Fx) {
        proof {
            self.d2_label_dloss_nonneg(i as int, ai);
        }
        let yi = self.label(i);
        self.d2_label_dloss(i, ai, yi)
    }

    fn is_quad(&self) -> (r: bool) {
        self.label_is_quad()
    }
}

} // verus!
