//! Solve SVM training problems.
//!
//! The optimization engines (an SMO dual solver, a semismooth Newton primal
//! solver, and their combination) work on a saturating fixed-point scalar
//! type, so that every step of the solvers carries an exact contract.
use vstd::prelude::*;

pub mod fixed;
pub mod kernel;
pub mod newton;
pub mod poly2;
pub mod problem;
pub mod smo;
pub mod smonewt;
mod status;
pub mod time;

pub use crate::status::{fx_zeros, support, Status, StatusCode};

verus! {

/// Cooperative cancellation: an engine calls `stop` once per iteration
/// and terminates with [`StatusCode::Callback`] when it returns true.
pub trait Callback {
    /// Whether the solver should stop now.
    fn stop(&mut self, status: &Status) -> bool;
}

/// A callback that never stops the solver.
pub struct NoCallback;

impl Callback for NoCallback {
    fn stop(&mut self, status: &Status) -> bool {
        false
    }
}

} // verus!
