//! Sequential Minimal Optimization.
use vstd::prelude::*;

mod params;
mod subproblem;
mod update;
mod ws;

pub use self::params::Params;
pub use self::subproblem::{compute_step, newton, spec_quad_step, Step, Subproblem};
pub use self::update::{update, update_post};
pub use self::ws::{find_mvp, find_mvp_signed, find_ws2, grad_value, mvp_outcome, mvp_scan};

mod solve;
pub use solve::{mvp_consistent, solve, solve_with_status};

verus! {

} // verus!
