//! Basic SVM (epsilon-insensitive) regression problem.
use vstd::prelude::*;

use crate::fixed::{clip, fx_prod, Fx, FX_ONE};
use crate::poly2;
use crate::problem::base::{LabelProblem, ProblemBase};
use crate::problem::dual::DualLabelProblem;
use crate::problem::primal::PrimalLabelProblem;
use crate::problem::shrinking::ShrinkingBase;
use crate::problem::Params;

verus! {

/// Basic SVM (epsilon-insensitive) regression problem: each sample
/// contributes one nonnegative and one nonpositive coefficient.
pub struct Regression {
    y: Vec<Fx>,
    /// Parameters of the training problem.
    pub params: Params,
    /// Insensitivity width of the loss function.
    pub epsilon: Fx,
}

impl Regression {
    /// The insensitivity width of the loss function.
    pub closed spec fn spec_epsilon(&self) -> Fx {
        self.epsilon
    }

    /// Creates a [`Regression`] problem from real-valued labels.
    pub fn new(y: Vec<Fx>, params: Params) -> (r: Regression)
        requires
            params.wf(),
            y@.len() <= 0x7fff_ffff,
        ensures
            r.wf(),
            r.spec_size() == 2 * y@.len(),
            r.spec_params() == params,
            r.spec_epsilon().v == 1074,
            forall|i: int| 0 <= i < y@.len() ==> r.spec_label(i) == y@[i],
    {
        // about 1e-6, to prevent degeneration
        Regression { y, params, epsilon: Fx { v: 1074 } }
    }

    /// Sets the insensitivity parameter of the loss function.
    pub fn with_epsilon(self, epsilon: Fx) -> (r: Self)
        requires
            self.wf(),
            epsilon.v >= 0,
        ensures
            r.wf(),
            r.spec_size() == self.spec_size(),
            r.spec_params() == self.spec_params(),
            r.spec_epsilon() == epsilon,
            forall|i: int|
                0 <= i < self.spec_size() ==> r.spec_label(i) == self.spec_label(i),
    {
        Regression { epsilon, ..self }
    }

    /// The scaled sign of variable `i` as a scalar.
    closed spec fn sign_fx(&self, i: int) -> Fx {
        if i < self.y@.len() {
            Fx { v: FX_ONE }
        } else {
            Fx { v: (-FX_ONE) as i64 }
        }
    }
}

impl ProblemBase for Regression {
    closed spec fn spec_size(&self) -> int {
        2 * (self.y@.len() as int)
    }

    closed spec fn spec_params(&self) -> Params {
        self.params
    }

    closed spec fn spec_sign(&self, i: int) -> int {
        if i < self.y@.len() {
            1
        } else {
            -1
        }
    }

    closed spec fn wf(&self) -> bool {
        self.params.wf() && self.y@.len() <= 0x7fff_ffff && self.epsilon.v >= 0
    }

    proof fn wf_facts(&self) {
        assert(self.spec_size() == 2 * (self.y@.len() as int));
        assert forall|i: int|
            0 <= i < self.spec_size() implies -1 <= #[trigger] self.spec_sign(i) <= 1 by {
            assert(self.spec_sign(i) == if i < self.y@.len() { 1int } else { -1int });
        }
    }

    fn size(&self) -> (n: usize) {
        2 * self.y.len()
    }

    fn sign(&self, i: usize) -> (s: Fx) {
        if i < self.y.len() {
            Fx { v: FX_ONE }
        } else {
            Fx { v: (-FX_ONE) as i64 }
        }
    }

    fn params(&self) -> (p: Params) {
        self.params
    }
}

impl ShrinkingBase for Regression {
    closed spec fn spec_lb(&self, i: int) -> Fx {
        if i < self.y@.len() {
            Fx { v: 0 }
        } else {
            Fx { v: (-FX_ONE) as i64 }
        }
    }

    closed spec fn spec_ub(&self, i: int) -> Fx {
        if i < self.y@.len() {
            Fx { v: FX_ONE }
        } else {
            Fx { v: 0 }
        }
    }

    proof fn bounds_facts(&self, i: int) {
    }

    fn lb(&self, i: usize) -> (r: Fx) {
        if i < self.y.len() {
            Fx { v: 0 }
        } else {
            Fx { v: (-FX_ONE) as i64 }
        }
    }

    fn ub(&self, i: usize) -> (r: Fx) {
        if i < self.y.len() {
            Fx { v: FX_ONE }
        } else {
            Fx { v: 0 }
        }
    }
}

impl LabelProblem for Regression {
    type T = Fx;

    closed spec fn spec_label(&self, i: int) -> Fx {
        if i < self.y@.len() {
            self.y@[i]
        } else {
            self.y@[i - self.y@.len()]
        }
    }

    fn label(&self, i: usize) -> (y: Fx) {
        if i < self.y.len() {
            self.y[i]
        } else {
            self.y[i - self.y.len()]
        }
    }
}

impl PrimalLabelProblem for Regression {
    closed spec fn spec_label_loss(&self, i: int, ti: Fx, yi: Fx) -> Fx {
        let si = self.sign_fx(i);
        poly2::spec_max(
            Fx {
                v: clip(
                    fx_prod(si.v as int, clip(yi.v - ti.v)) - self.epsilon.v,
                ) as i64,
            },
            self.spec_params().smoothing,
        )
    }

    closed spec fn spec_d_label_loss(&self, i: int, ti: Fx, yi: Fx) -> Fx {
        let si = self.sign_fx(i);
        Fx {
            v: fx_prod(
                clip(-(si.v as int)),
                poly2::spec_d_max(
                    Fx {
                        v: clip(
                            fx_prod(si.v as int, clip(yi.v - ti.v)) - self.epsilon.v,
                        ) as i64,
                    },
                    self.spec_params().smoothing,
                ).v as int,
            ) as i64,
        }
    }

    closed spec fn spec_d2_label_loss(&self, i: int, ti: Fx, yi: Fx) -> Fx {
        let si = self.sign_fx(i);
        poly2::spec_d2_max(
            Fx {
                v: clip(
                    fx_prod(si.v as int, clip(yi.v - ti.v)) - self.epsilon.v,
                ) as i64,
            },
            self.spec_params().smoothing,
        )
    }

    proof fn d2_label_loss_nonneg(&self, i: int, ti: Fx) {
        let s = self.spec_params().smoothing;
        let si = self.sign_fx(i);
        let t = Fx {
            v: clip(
                fx_prod(si.v as int, clip(self.spec_label(i).v - ti.v)) - self.epsilon.v,
            ) as i64,
        };
        if !(t.v >= s.v) && !(t.v <= clip(-(s.v as int))) {
            crate::fixed::lemma_tdiv_bound(FX_ONE as int * FX_ONE as int, clip(2 * s.v));
        }
    }

    fn label_loss(&self, i: usize, ti: Fx, yi: Fx) -> (r: Fx) {
        let si = self.sign(i);
        poly2::max(si.mul(yi.sub(ti)).sub(self.epsilon), self.params.smoothing)
    }

    fn d_label_loss(&self, i: usize, ti: Fx, yi: Fx) -> (r: Fx) {
        let si = self.sign(i);
        si.neg().mul(poly2::d_max(si.mul(yi.sub(ti)).sub(self.epsilon), self.params.smoothing))
    }

    fn d2_label_loss(&self, i: usize, ti: Fx, yi: Fx) -> (r: Fx) {
        let si = self.sign(i);
        poly2::d2_max(si.mul(yi.sub(ti)).sub(self.epsilon), self.params.smoothing)
    }
}

impl DualLabelProblem for Regression {
    closed spec fn spec_label_dloss(&self, i: int, ai: Fx, yi: Fx) -> Fx {
        let si = self.sign_fx(i);
        let asi = Fx { v: fx_prod(ai.v as int, si.v as int) as i64 };
        Fx {
            v: clip(
                clip(
                    poly2::spec_dual_max(asi, self.spec_params().smoothing).v - fx_prod(
                        yi.v as int,
                        ai.v as int,
                    ),
                ) + fx_prod(fx_prod(self.epsilon.v as int, si.v as int), ai.v as int),
            ) as i64,
        }
    }

    closed spec fn spec_d_label_dloss(&self, i: int, ai: Fx, yi: Fx) -> Fx {
        let si = self.sign_fx(i);
        let asi = Fx { v: fx_prod(ai.v as int, si.v as int) as i64 };
        Fx {
            v: clip(
                clip(
                    fx_prod(
                        si.v as int,
                        poly2::spec_d_dual_max(asi, self.spec_params().smoothing).v as int,
                    ) - yi.v,
                ) + fx_prod(self.epsilon.v as int, si.v as int),
            ) as i64,
        }
    }

    closed spec fn spec_d2_label_dloss(&self, i: int, ai: Fx, yi: Fx) -> Fx {
        poly2::spec_d2_dual_max(self.spec_params().smoothing)
    }

    closed spec fn spec_label_is_quad(&self) -> bool {
        false
    }

    proof fn d2_label_dloss_nonneg(&self, i: int, ai: Fx) {
    }

    fn label_dloss(&self, i: usize, ai: Fx, yi: Fx) -> (r: Fx) {
        let si = self.sign(i);
        poly2::dual_max(ai.mul(si), self.params.smoothing).sub(yi.mul(ai)).add(
            self.epsilon.mul(si).mul(ai),
        )
    }

    fn d_label_dloss(&self, i: usize, ai: Fx, yi: Fx) -> (r: Fx) {
        let si = self.sign(i);
        si.mul(poly2::d_dual_max(ai.mul(si), self.params.smoothing)).sub(yi).add(
            self.epsilon.mul(si),
        )
    }

    fn d2_label_dloss(&self, i: usize, ai: Fx, yi: Fx) -> (r: Fx) {
        poly2::d2_dual_max(ai.mul(self.sign(i)), self.params.smoothing)
    }

    fn label_is_quad(&self) -> (r: bool) {
        false
    }
}

} // verus!
