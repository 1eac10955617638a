//! Semismooth Newton method on the primal problem.
use vstd::prelude::*;

mod direction;
mod params;
mod solve;
mod status_extended;

pub use direction::{gradient, newton_with_fallback, solve_lin, DirectionType};
pub use params::Params;
pub use solve::{accepts, dec_consistent, ka_fresh, solve, solve_with_status};
pub use status_extended::{ActiveSet, Direction, StatusExtended, Sums};

verus! {

} // verus!
