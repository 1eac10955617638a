//! Common parameters of a training problem.
use vstd::prelude::*;

use crate::fixed::{Fx, FX_ONE};

verus! {

/// Common parameters of a training problem.
#[derive(Clone, Copy, Debug, PartialEq, Eq, Structural)]
pub struct Params {
    /// Extent of smoothing of the used max function.
    pub smoothing: Fx,
    /// Regularization parameter lambda of the training problem.
    pub lambda: Fx,
    /// Maximum 1-norm of the coefficient vector (the largest scalar means
    /// that no bound is set).
    pub max_asum: Fx,
    /// Numerical floor used in descent estimations, to avoid divisions by
    /// zero.
    pub regularization: Fx,
}

impl Params {
    /// The parameter values that the solvers rely on: positive lambda and
    /// regularization floor, nonnegative smoothing, positive 1-norm bound.
    pub open spec fn wf(self) -> bool {
        self.lambda.v >= 1 && self.smoothing.v >= 0 && self.max_asum.v >= 1
            && self.regularization.v >= 1
    }

    /// Creates a new [`Params`] struct with default parameter values.
    pub fn new() -> (r: Self)
        ensures
            r.smoothing.v == 0,
            r.lambda.v == FX_ONE,
            r.max_asum.v == i64::MAX,
            r.regularization.v == 1,
            r.wf(),
    {
        Params {
            smoothing: Fx { v: 0 },
            lambda: Fx { v: FX_ONE },
            max_asum: Fx { v: i64::MAX },
            regularization: Fx { v: 1 },
        }
    }

    /// Sets the regularization parameter lambda.
    pub fn with_lambda(self, lambda: Fx) -> (r: Self)
        requires
            lambda.v >= 1,
        ensures
            r == (Params { lambda, ..self }),
    {
        Params { lambda, ..self }
    }

    /// Sets the smoothing parameter of the max function.
    pub fn with_smoothing(self, smoothing: Fx) -> (r: Self)
        requires
            smoothing.v >= 0,
        ensures
            r == (Params { smoothing, ..self }),
    {
        Params { smoothing, ..self }
    }

    /// Sets the maximum 1-norm.
    pub fn with_max_asum(self, max_asum: Fx) -> (r: Self)
        requires
            max_asum.v >= 1,
        ensures
            r == (Params { max_asum, ..self }),
    {
        Params { max_asum, ..self }
    }

    /// Sets the regularization floor.
    pub fn with_regularization(self, regularization: Fx) -> (r: Self)
        requires
            regularization.v >= 1,
        ensures
            r == (Params { regularization, ..self }),
    {
        Params { regularization, ..self }
    }
}

} // verus!
