//! Basic SVM (hinge loss) classification problem.
use vstd::prelude::*;

use crate::fixed::{clip, fx_prod, Fx, FX_ONE};
use crate::poly2;
use crate::problem::base::{LabelProblem, ProblemBase};
use crate::problem::dual::{DualLabelProblem, DualProblem};
use crate::problem::primal::PrimalLabelProblem;
use crate::problem::shrinking::ShrinkingBase;
use crate::problem::Params;

verus! {

/// Basic SVM (hinge loss) classification problem.
pub struct Classification {
    y: Vec<Fx>,
    /// Parameters of the training problem.
    pub params: Params,
    /// Shift in the loss function; the typical value is one.
    pub shift: Fx,
}

impl Classification {
    /// The shift used in the loss function.
    pub closed spec fn spec_shift(&self) -> Fx {
        self.shift
    }

    /// Creates a [`Classification`] problem from labels with values
    /// plus or minus one.
    pub fn new(y: Vec<Fx>, params: Params) -> (r: Classification)
        requires
            forall|i: int| 0 <= i < y@.len() ==> (#[trigger] y@[i]).v == FX_ONE || y@[i].v
                == -FX_ONE,
            params.wf(),
        ensures
            r.wf(),
            r.spec_size() == y@.len(),
            r.spec_params() == params,
            r.spec_shift().v == FX_ONE,
            forall|i: int| 0 <= i < y@.len() ==> r.spec_label(i) == y@[i],
    {
        Classification { y, params, shift: Fx { v: FX_ONE } }
    }

    /// The box and sign of every variable, as the labels determine them:
    /// a positive label gives the box `[0, 1]` and sign `+1`, a negative
    /// label the box `[-1, 0]` and sign `-1`; the dual losses are exactly
    /// quadratic.
    pub proof fn label_box_facts(&self, i: int)
        requires
            self.wf(),
            0 <= i < self.spec_size(),
        ensures
            self.spec_label(i).v == FX_ONE || self.spec_label(i).v == -FX_ONE,
            self.spec_label(i).v == FX_ONE ==> (self.spec_sign(i) == 1 && self.spec_lb(i).v == 0
                && self.spec_ub(i).v == FX_ONE),
            self.spec_label(i).v == -FX_ONE ==> (self.spec_sign(i) == -1 && self.spec_lb(i).v
                == -FX_ONE && self.spec_ub(i).v == 0),
            self.spec_is_quad(),
    {
    }

    /// Sets the value of the shift in the loss function.
    pub fn with_shift(self, shift: Fx) -> (r: Self)
        requires
            self.wf(),
        ensures
            r.wf(),
            r.spec_size() == self.spec_size(),
            r.spec_params() == self.spec_params(),
            r.spec_shift() == shift,
            forall|i: int| 0 <= i < r.spec_size() ==> r.spec_label(i) == self.spec_label(i),
    {
        Classification { shift, ..self }
    }
}

impl ProblemBase for Classification {
    closed spec fn spec_size(&self) -> int {
        self.y@.len() as int
    }

    closed spec fn spec_params(&self) -> Params {
        self.params
    }

    closed spec fn spec_sign(&self, i: int) -> int {
        if self.y@[i].v == FX_ONE {
            1
        } else {
            -1
        }
    }

    closed spec fn wf(&self) -> bool {
        self.params.wf() && forall|i: int|
            0 <= i < self.y@.len() ==> (#[trigger] self.y@[i]).v == FX_ONE || self.y@[i].v
                == -FX_ONE
    }

    proof fn wf_facts(&self) {
        assert(self.spec_size() == self.y@.len() as int);
        assert forall|i: int|
            0 <= i < self.spec_size() implies -1 <= #[trigger] self.spec_sign(i) <= 1 by {
            assert(self.spec_sign(i) == if self.y@[i].v == FX_ONE { 1int } else { -1int });
        }
    }

    fn size(&self) -> (n: usize) {
        self.y.len()
    }

    fn sign(&self, i: usize) -> (s: Fx) {
        self.y[i]
    }

    fn params(&self) -> (p: Params) {
        self.params
    }
}

impl ShrinkingBase for Classification {
    closed spec fn spec_lb(&self, i: int) -> Fx {
        if self.y@[i].v > 0 {
            Fx { v: 0 }
        } else {
            Fx { v: (-FX_ONE) as i64 }
        }
    }

    closed spec fn spec_ub(&self, i: int) -> Fx {
        if self.y@[i].v > 0 {
            Fx { v: FX_ONE }
        } else {
            Fx { v: 0 }
        }
    }

    proof fn bounds_facts(&self, i: int) {
    }

    fn lb(&self, i: usize) -> (r: Fx) {
        if self.y[i].v > 0 {
            Fx { v: 0 }
        } else {
            Fx { v: (-FX_ONE) as i64 }
        }
    }

    fn ub(&self, i: usize) -> (r: Fx) {
        if self.y[i].v > 0 {
            Fx { v: FX_ONE }
        } else {
            Fx { v: 0 }
        }
    }
}

impl LabelProblem for Classification {
    type T = Fx;

    closed spec fn spec_label(&self, i: int) -> Fx {
        self.y@[i]
    }

    fn label(&self, i: usize) -> (y: Fx) {
        self.y[i]
    }
}

impl PrimalLabelProblem for Classification {
    closed spec fn spec_label_loss(&self, i: int, ti: Fx, yi: Fx) -> Fx {
        poly2::spec_max(
            Fx { v: clip(self.shift.v - fx_prod(yi.v as int, ti.v as int)) as i64 },
            self.spec_params().smoothing,
        )
    }

    closed spec fn spec_d_label_loss(&self, i: int, ti: Fx, yi: Fx) -> Fx {
        Fx {
            v: fx_prod(
                clip(-(yi.v as int)),
                poly2::spec_d_max(
                    Fx { v: clip(self.shift.v - fx_prod(yi.v as int, ti.v as int)) as i64 },
                    self.spec_params().smoothing,
                ).v as int,
            ) as i64,
        }
    }

    closed spec fn spec_d2_label_loss(&self, i: int, ti: Fx, yi: Fx) -> Fx {
        poly2::spec_d2_max(
            Fx { v: clip(self.shift.v - fx_prod(yi.v as int, ti.v as int)) as i64 },
            self.spec_params().smoothing,
        )
    }

    proof fn d2_label_loss_nonneg(&self, i: int, ti: Fx) {
        let s = self.spec_params().smoothing;
        let t = Fx {
            v: clip(self.shift.v - fx_prod(self.spec_label(i).v as int, ti.v as int)) as i64,
        };
        if !(t.v >= s.v) && !(t.v <= clip(-(s.v as int))) {
            crate::fixed::lemma_tdiv_bound(FX_ONE as int * FX_ONE as int, clip(2 * s.v));
        }
    }

    fn label_loss(&self, i: usize, ti: Fx, yi: Fx) -> (r: Fx) {
        poly2::max(self.shift.sub(yi.mul(ti)), self.params.smoothing)
    }

    fn d_label_loss(&self, i: usize, ti: Fx, yi: Fx) -> (r: Fx) {
        yi.neg().mul(poly2::d_max(self.shift.sub(yi.mul(ti)), self.params.smoothing))
    }

    fn d2_label_loss(&self, i: usize, ti: Fx, yi: Fx) -> (r: Fx) {
        poly2::d2_max(self.shift.sub(yi.mul(ti)), self.params.smoothing)
    }
}

impl DualLabelProblem for Classification {
    closed spec fn spec_label_dloss(&self, i: int, ai: Fx, yi: Fx) -> Fx {
        let ya = Fx { v: fx_prod(yi.v as int, ai.v as int) as i64 };
        Fx {
            v: clip(
                poly2::spec_dual_max(ya, self.spec_params().smoothing).v - fx_prod(
                    self.shift.v as int,
                    ya.v as int,
                ),
            ) as i64,
        }
    }

    closed spec fn spec_d_label_dloss(&self, i: int, ai: Fx, yi: Fx) -> Fx {
        let ya = Fx { v: fx_prod(yi.v as int, ai.v as int) as i64 };
        Fx {
            v: fx_prod(
                yi.v as int,
                clip(
                    poly2::spec_d_dual_max(ya, self.spec_params().smoothing).v - self.shift.v,
                ),
            ) as i64,
        }
    }

    closed spec fn spec_d2_label_dloss(&self, i: int, ai: Fx, yi: Fx) -> Fx {
        poly2::spec_d2_dual_max(self.spec_params().smoothing)
    }

    closed spec fn spec_label_is_quad(&self) -> bool {
        true
    }

    proof fn d2_label_dloss_nonneg(&self, i: int, ai: Fx) {
    }

    fn label_dloss(&self, i: usize, ai: Fx, yi: Fx) -> (r: Fx) {
        let ya = yi.mul(ai);
        poly2::dual_max(ya, self.params.smoothing).sub(self.shift.mul(ya))
    }

    fn d_label_dloss(&self, i: usize, ai: Fx, yi: Fx) -> (r: Fx) {
        yi.mul(poly2::d_dual_max(yi.mul(ai), self.params.smoothing).sub(self.shift))
    }

    fn d2_label_dloss(&self, i: usize, ai: Fx, yi: Fx) -> (r: Fx) {
        poly2::d2_dual_max(yi.mul(ai), self.params.smoothing)
    }

    fn label_is_quad(&self) -> (r: bool) {
        true
    }
}

} // verus!
