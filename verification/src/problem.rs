//! Training problems.
use vstd::prelude::*;

pub mod base;
mod shrinking;

mod params;
pub use params::Params;

mod dual;
pub use dual::{dual_loss_sum, dual_objective, reg_sum, spec_dual_objective, DualLabelProblem,
    DualProblem};
mod primal;
pub use primal::{decision_value, lemma_primal_loss_sum_same, primal_loss_sum, primal_objective,
    spec_primal_objective, PrimalLabelProblem, PrimalProblem};

mod classification;
pub use classification::Classification;
mod regression;
pub use regression::Regression;
mod lssvm;
pub use lssvm::LSSVM;

pub use shrinking::{in_box, kept_active, shrink, shrink_gkb, shrink_keeps, unshrink,
    ShrinkingBase};

verus! {

/// Combination of primal and dual training problem.
pub trait Problem: PrimalProblem + DualProblem {

}

impl<P: PrimalProblem + DualProblem> Problem for P {

}

} // verus!
