//! Least-squares SVM problem.
use vstd::prelude::*;

use crate::fixed::{clip, Fx, FX_HALF, FX_ONE, fx_prod};
use crate::problem::base::{LabelProblem, ProblemBase};
use crate::problem::dual::DualLabelProblem;
use crate::problem::primal::PrimalLabelProblem;
use crate::problem::shrinking::ShrinkingBase;
use crate::problem::Params;

verus! {

/// Least-squares SVM problem: squared loss, unconstrained coefficients.
pub struct LSSVM {
    y: Vec<Fx>,
    /// Parameters of the training problem.
    pub params: Params,
}

impl LSSVM {
    /// Creates an [`LSSVM`] problem from real-valued labels.
    pub fn new(y: Vec<Fx>, params: Params) -> (r: LSSVM)
        requires
            params.wf(),
        ensures
            r.wf(),
            r.spec_size() == y@.len(),
            r.spec_params() == params,
            forall|i: int| 0 <= i < y@.len() ==> r.spec_label(i) == y@[i],
    {
        LSSVM { y, params }
    }
}

impl ProblemBase for LSSVM {
    closed spec fn spec_size(&self) -> int {
        self.y@.len() as int
    }

    closed spec fn spec_params(&self) -> Params {
        self.params
    }

    closed spec fn spec_sign(&self, i: int) -> int {
        0
    }

    closed spec fn wf(&self) -> bool {
        self.params.wf()
    }

    proof fn wf_facts(&self) {
        assert(self.spec_size() == self.y@.len() as int);
        assert forall|i: int|
            0 <= i < self.spec_size() implies -1 <= #[trigger] self.spec_sign(i) <= 1 by {
            assert(self.spec_sign(i) == 0);
        }
    }

    fn size(&self) -> (n: usize) {
        self.y.len()
    }

    fn sign(&self, i: usize) -> (s: Fx) {
        Fx { v: 0 }
    }

    fn params(&self) -> (p: Params) {
        self.params
    }
}

impl ShrinkingBase for LSSVM {
    closed spec fn spec_lb(&self, i: int) -> Fx {
        Fx { v: i64::MIN }
    }

    closed spec fn spec_ub(&self, i: int) -> Fx {
        Fx { v: i64::MAX }
    }

    proof fn bounds_facts(&self, i: int) {
    }

    fn lb(&self, i: usize) -> (r: Fx) {
        Fx { v: i64::MIN }
    }

    fn ub(&self, i: usize) -> (r: Fx) {
        Fx { v: i64::MAX }
    }
}

impl LabelProblem for LSSVM {
    type T = Fx;

    closed spec fn spec_label(&self, i: int) -> Fx {
        self.y@[i]
    }

    fn label(&self, i: usize) -> (y: Fx) {
        self.y[i]
    }
}

impl PrimalLabelProblem for LSSVM {
    closed spec fn spec_label_loss(&self, i: int, ti: Fx, yi: Fx) -> Fx {
        let di = clip(ti.v - yi.v);
        Fx { v: fx_prod(fx_prod(FX_HALF as int, di), di) as i64 }
    }

    closed spec fn spec_d_label_loss(&self, i: int, ti: Fx, yi: Fx) -> Fx {
        Fx { v: clip(ti.v - yi.v) as i64 }
    }

    closed spec fn spec_d2_label_loss(&self, i: int, ti: Fx, yi: Fx) -> Fx {
        Fx { v: FX_ONE }
    }

    proof fn d2_label_loss_nonneg(&self, i: int, ti: Fx) {
    }

    fn label_loss(&self, i: usize, ti: Fx, yi: Fx) -> (r: Fx) {
        let di = ti.sub(yi);
        Fx { v: FX_HALF }.mul(di).mul(di)
    }

    fn d_label_loss(&self, i: usize, ti: Fx, yi: Fx) -> (r: Fx) {
        ti.sub(yi)
    }

    fn d2_label_loss(&self, i: usize, ti: Fx, yi: Fx) -> (r: Fx) {
        Fx { v: FX_ONE }
    }
}

impl DualLabelProblem for LSSVM {
    closed spec fn spec_label_dloss(&self, i: int, ai: Fx, yi: Fx) -> Fx {
        Fx {
            v: fx_prod(
                ai.v as int,
                clip(fx_prod(FX_HALF as int, ai.v as int) - yi.v),
            ) as i64,
        }
    }

    closed spec fn spec_d_label_dloss(&self, i: int, ai: Fx, yi: Fx) -> Fx {
        Fx { v: clip(ai.v - yi.v) as i64 }
    }

    closed spec fn spec_d2_label_dloss(&self, i: int, ai: Fx, yi: Fx) -> Fx {
        Fx { v: FX_ONE }
    }

    closed spec fn spec_label_is_quad(&self) -> bool {
        true
    }

    proof fn d2_label_dloss_nonneg(&self, i: int, ai: Fx) {
    }

    fn label_dloss(&self, i: usize, ai: Fx, yi: Fx) -> (r: Fx) {
        ai.mul(Fx { v: FX_HALF }.mul(ai).sub(yi))
    }

    fn d_label_dloss(&self, i: usize, ai: Fx, yi: Fx) -> (r: Fx) {
        ai.sub(yi)
    }

    fn d2_label_dloss(&self, i: usize, ai: Fx, yi: Fx) -> (r: Fx) {
        Fx { v: FX_ONE }
    }

    fn label_is_quad(&self) -> (r: bool) {
        true
    }
}

} // verus!
