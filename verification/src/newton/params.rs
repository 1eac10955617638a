//! Parameters of Newton's method.
use vstd::prelude::*;

use crate::fixed::Fx;

verus! {

/// Parameters of Newton's method.
#[derive(Clone, Copy, Debug)]
pub struct Params {
    /// Termination tolerance.
    pub tol: Fx,
    /// Maximum number of steps.
    pub max_steps: usize,
    /// Frequency of progress reporting; the engine itself emits nothing,
    /// an embedder may poll through its callback instead.
    pub verbose: usize,
    /// Time limit in microseconds.
    pub time_limit: u64,
    /// Parameter sigma of the Armijo stepsize selection.
    pub sigma: Fx,
    /// Parameter eta of the Armijo stepsize selection.
    pub eta: Fx,
    /// Maximum number of backtracks of the Armijo stepsize selection.
    pub max_back_steps: usize,
}

impl Params {
    /// Creates a new [`Params`] struct with default parameter values: a
    /// tolerance of about `1e-8`, no step or time limit, and the Armijo
    /// parameters `sigma` about `1e-3`, `eta` one tenth, eight
    /// backtracks.
    pub fn new() -> (r: Self)
        ensures
            r.tol.v == 11,
            r.max_steps == usize::MAX,
            r.verbose == 0,
            r.time_limit == u64::MAX,
            r.sigma.v == 1073742,
            r.eta.v == 107374182,
            r.max_back_steps == 8,
    {
        Params {
            tol: Fx { v: 11 },
            max_steps: usize::MAX,
            verbose: 0,
            time_limit: u64::MAX,
            sigma: Fx { v: 1073742 },
            eta: Fx { v: 107374182 },
            max_back_steps: 8,
        }
    }

    /// Updates the verbosity level.
    pub fn with_verbose(self, verbose: usize) -> (r: Self)
        ensures
            r == (Params { verbose, ..self }),
    {
        Params { verbose, ..self }
    }

    /// Updates the termination tolerance.
    pub fn with_tol(self, tol: Fx) -> (r: Self)
        ensures
            r == (Params { tol, ..self }),
    {
        Params { tol, ..self }
    }

    /// Updates the time limit (in microseconds).
    pub fn with_time_limit(self, time_limit: u64) -> (r: Self)
        ensures
            r == (Params { time_limit, ..self }),
    {
        Params { time_limit, ..self }
    }

    /// Updates the maximum number of steps.
    pub fn with_max_steps(self, max_steps: usize) -> (r: Self)
        ensures
            r == (Params { max_steps, ..self }),
    {
        Params { max_steps, ..self }
    }
}

} // verus!
