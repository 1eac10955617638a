//! Parameters of the SMO method.
use vstd::prelude::*;

use crate::fixed::{Fx, FX_ONE};

verus! {

/// Parameters of the SMO method.
#[derive(Clone, Copy, Debug)]
pub struct Params {
    /// Termination tolerance.
    pub tol: Fx,
    /// Maximum number of steps.
    pub max_steps: usize,
    /// Frequency of progress reporting; the engine itself emits nothing,
    /// an embedder may poll through its callback instead.
    pub verbose: usize,
    /// Whether progress reporting includes objective values.
    pub log_objective: bool,
    /// Whether second-order working-set selection is used.
    pub second_order: bool,
    /// Number of steps between shrinking passes, or zero for no shrinking.
    pub shrinking_period: usize,
    /// Threshold of the shrinking decision; larger values shrink more.
    pub shrinking_threshold: Fx,
    /// Time limit in microseconds.
    pub time_limit: u64,
}

impl Params {
    /// Creates a new [`Params`] struct with default parameter values: a
    /// tolerance of about `1e-4`, no step or time limit, second-order
    /// selection on and shrinking off.
    pub fn new() -> (r: Self)
        ensures
            r.tol.v == 107374,
            r.max_steps == usize::MAX,
            r.verbose == 0,
            r.log_objective == false,
            r.second_order == true,
            r.shrinking_period == 0,
            r.shrinking_threshold.v == FX_ONE,
            r.time_limit == u64::MAX,
    {
        Params {
            tol: Fx { v: 107374 },
            max_steps: usize::MAX,
            verbose: 0,
            log_objective: false,
            second_order: true,
            shrinking_period: 0,
            shrinking_threshold: Fx { v: FX_ONE },
            time_limit: u64::MAX,
        }
    }

    /// Updates the verbosity level.
    pub fn with_verbose(self, verbose: usize) -> (r: Self)
        ensures
            r == (Params { verbose, ..self }),
    {
        Params { verbose, ..self }
    }

    /// Updates the termination tolerance.
    pub fn with_tol(self, tol: Fx) -> (r: Self)
        ensures
            r == (Params { tol, ..self }),
    {
        Params { tol, ..self }
    }

    /// Updates the time limit (in microseconds).
    pub fn with_time_limit(self, time_limit: u64) -> (r: Self)
        ensures
            r == (Params { time_limit, ..self }),
    {
        Params { time_limit, ..self }
    }

    /// Updates the maximum number of steps.
    pub fn with_max_steps(self, max_steps: usize) -> (r: Self)
        ensures
            r == (Params { max_steps, ..self }),
    {
        Params { max_steps, ..self }
    }

    /// Updates the shrinking frequency.
    pub fn with_shrinking_period(self, shrinking_period: usize) -> (r: Self)
        ensures
            r == (Params { shrinking_period, ..self }),
    {
        Params { shrinking_period, ..self }
    }
}

} // verus!
