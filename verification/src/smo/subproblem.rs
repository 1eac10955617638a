//! The two-variable subproblem of one SMO step.
use vstd::prelude::*;

use crate::fixed::{clip, iabs, lemma_fx_prod_unit, lemma_tdiv_bound, Fx, FX_HALF, FX_ONE, fx_prod,
    fx_quot};
use crate::problem::DualProblem;
use crate::status::Status;

verus! {

/// A one-dimensional damped Newton descent on `(-infinity, xmax]` for
/// non-quadratic dual losses: up to five Newton steps, each with a
/// geometric backtracking line search.  `f` returns value, first and
/// second derivative at a point.  The result never exceeds `xmax`, the
/// returned value is a value of `f` at the returned point, and a starting
/// derivative of magnitude below about `1e-6` returns the start
/// unchanged.  A backtracking trial is accepted when its value does not
/// grow or stays under the model's predicted change, so the result is a
/// heuristic minimizer and carries no descent promise of its own — the
/// caller guards every use of it.
pub fn newton<F: Fn(Fx) -> (Fx, Fx, Fx)>(f: &F, x0: Fx, xmax: Fx) -> (r: (Fx, Fx))
    requires
        forall|x: Fx| #[trigger] f.requires((x,)),
        x0.v <= xmax.v,
    ensures
        r.0.v <= xmax.v,
        exists|out: (Fx, Fx, Fx)| #[trigger] f.ensures((r.0,), out) && out.0 == r.1,
        exists|out0: (Fx, Fx, Fx)|
            #[trigger] f.ensures((x0,), out0) && (iabs(out0.1.v as int) < 1074 ==> r.0 == x0
                && r.1 == out0.0),
{
    let mut x = x0;
    let tup = f(x);
    let mut v = tup.0;
    let mut dv = tup.1;
    let mut ddv = tup.2;
    let ghost out0 = tup;
    let ghost mut out_cur = tup;
    let mut step: usize = 0;
    while step < 5
        invariant
            forall|x2: Fx| #[trigger] f.requires((x2,)),
            x.v <= xmax.v,
            f.ensures((x,), out_cur),
            out_cur.0 == v,
            f.ensures((x0,), out0),
            iabs(out0.1.v as int) < 1074 ==> (x == x0 && v == out0.0 && dv == out0.1),
        decreases 5 - step,
    {
        let dx_unc = if ddv.v != 0 {
            dv.neg().div(ddv)
        } else {
            xmax.sub(x)
        };
        let dx = dx_unc.min_of(xmax.sub(x));
        // stop on a nearly vanished derivative (about 1e-6) or at a
        // boundary-limited step in the descent direction
        if dv.abs().v < 1074 || (dx.v != dx_unc.v && dv.v < 0) {
            break ;
        }
        proof {
            assert(iabs(out0.1.v as int) >= 1074);
        }
        let mut alpha = Fx { v: FX_ONE };
        let mut backstep: usize = 0;
        let mut gave_up = false;
        loop
            invariant_except_break
                backstep <= 20,
                0 <= alpha.v <= FX_ONE,
                dx.v as int <= clip(xmax.v - x.v),
            invariant
                forall|x2: Fx| #[trigger] f.requires((x2,)),
                x.v <= xmax.v,
                f.ensures((x,), out_cur),
                out_cur.0 == v,
                iabs(out0.1.v as int) >= 1074,
            decreases 21 - backstep,
        {
            let x_n = x.add(alpha.mul(dx));
            proof {
                let p = fx_prod(alpha.v as int, dx.v as int);
                if dx.v > 0 {
                    lemma_fx_prod_unit(dx.v as int, alpha.v as int);
                    assert(alpha.v as int * dx.v as int == dx.v as int * alpha.v as int);
                } else {
                    assert(alpha.v as int * dx.v as int <= 0) by (nonlinear_arith)
                        requires
                            alpha.v >= 0,
                            dx.v <= 0,
                    ;
                    lemma_tdiv_bound(alpha.v as int * dx.v as int, FX_ONE as int);
                }
                assert(x_n.v <= xmax.v);
            }
            let tup_n = f(x_n);
            let dec = tup_n.0.sub(v);
            let dec_ref = alpha.mul(dv).mul(dx);
            if dec.v <= dec_ref.v || dec.v <= 0 {
                x = x_n;
                v = tup_n.0;
                dv = tup_n.1;
                ddv = tup_n.2;
                proof {
                    out_cur = tup_n;
                }
                break ;
            }
            // backtrack geometrically with factor one tenth
            proof {
                lemma_fx_prod_unit(alpha.v as int, 107374182);
            }
            alpha = alpha.mul(Fx { v: 107374182 });
            backstep = backstep + 1;
            if backstep > 20 {
                gave_up = true;
                break ;
            }
        }
        if gave_up {
            break ;
        }
        step = step + 1;
    }
    (x, v)
}

/// One accepted SMO step: the step length and the change of the dual
/// objective it brings (never positive).
#[derive(Clone, Copy, Debug)]
pub struct Step {
    /// Step length.
    pub t: Fx,
    /// Change of the dual objective value.
    pub dvalue: Fx,
}

/// The data of a two-variable subproblem: the pair of sample indices, the
/// largest feasible step, the quadratic coefficient `q0` and the linear
/// coefficient `p0` contributed by the kernel.
#[derive(Clone, Copy, Debug)]
pub struct Subproblem {
    /// Pair of sample indices (not active-set positions).
    pub ij: (usize, usize),
    /// Largest feasible step length.
    pub max_t: Fx,
    /// Quadratic coefficient from the kernel.
    pub q0: Fx,
    /// Linear coefficient from the kernel product.
    pub p0: Fx,
}

/// Raw values of the closed-form step `(t, dvalue)` for a quadratic dual
/// subproblem: `t` is the unconstrained minimizer `p / max(q, reg)`
/// clamped into `[0, max_t]`, and `dvalue = t * (q * t / 2 - p)`, forced
/// to zero where it would not be a descent.
pub open spec fn spec_quad_step<P: DualProblem>(
    problem: &P,
    i: int,
    j: int,
    ai: Fx,
    aj: Fx,
    max_t: Fx,
    q0: Fx,
    p0: Fx,
) -> (int, int) {
    let reg = problem.spec_params().regularization;
    let p = clip(
        clip(p0.v + problem.spec_d_dloss(i, ai).v) - problem.spec_d_dloss(j, aj).v,
    );
    let q = clip(
        clip(q0.v + problem.spec_d2_dloss(i, ai).v) + problem.spec_d2_dloss(j, aj).v,
    );
    let qr = if q >= reg.v { q } else { reg.v as int };
    let d = fx_quot(p, qr);
    let t1 = if d <= max_t.v { d } else { max_t.v as int };
    let t = if t1 < 0 { 0 } else { t1 };
    let dv = fx_prod(t, clip(fx_prod(fx_prod(FX_HALF as int, q), t) - p));
    if dv > 0 {
        (0, 0)
    } else {
        (t, dv)
    }
}

/// The one-dimensional pair objective of a subproblem at step `t`,
/// relative to the unmoved point: the quadratic kernel part
/// `t * (q0 * t / 2 - p0)` plus the two moved dual losses, minus the
/// unmoved losses, in fixed point.
pub open spec fn spec_pair_value<P: DualProblem>(
    problem: &P,
    i: int,
    j: int,
    ai: Fx,
    aj: Fx,
    q0: Fx,
    p0: Fx,
    t: Fx,
) -> int {
    let loss0 = clip(problem.spec_dloss(i, ai).v + problem.spec_dloss(j, aj).v);
    let quad = fx_prod(
        t.v as int,
        clip(fx_prod(fx_prod(FX_HALF as int, q0.v as int), t.v as int) - p0.v as int),
    );
    clip(
        clip(
            clip(quad - loss0) + problem.spec_dloss(i, Fx { v: clip(ai.v - t.v) as i64 }).v,
        ) + problem.spec_dloss(j, Fx { v: clip(aj.v + t.v) as i64 }).v,
    )
}

/// The pair objective at `t`, clamped at zero from above: a descent
/// value that a step is allowed to report.
pub open spec fn spec_descent_value<P: DualProblem>(
    problem: &P,
    i: int,
    j: int,
    ai: Fx,
    aj: Fx,
    q0: Fx,
    p0: Fx,
    t: Fx,
) -> int {
    let pv = spec_pair_value(problem, i, j, ai, aj, q0, p0, t);
    if pv <= 0 {
        pv
    } else {
        0
    }
}

/// Computes the step of the two-variable subproblem: the closed quadratic
/// form when the dual losses are quadratic, a guarded one-dimensional
/// Newton descent otherwise.  In both cases the step stays in
/// `[0, max_t]` and the objective change is never positive; in the
/// descent case the change is the clamped pair objective at the point
/// the descent stopped at.
pub fn compute_step<P: DualProblem>(problem: &P, sprob: Subproblem, status: &Status) -> (r: Step)
    requires
        problem.wf(),
        (sprob.ij.0 as int) < problem.spec_size(),
        (sprob.ij.1 as int) < problem.spec_size(),
        (sprob.ij.0 as int) < status.a@.len(),
        (sprob.ij.1 as int) < status.a@.len(),
        sprob.max_t.v >= 0,
    ensures
        0 <= r.t.v <= sprob.max_t.v,
        r.dvalue.v <= 0,
        problem.spec_is_quad() ==> (r.t.v as int, r.dvalue.v as int) == spec_quad_step(
            problem,
            sprob.ij.0 as int,
            sprob.ij.1 as int,
            status.a@[sprob.ij.0 as int],
            status.a@[sprob.ij.1 as int],
            sprob.max_t,
            sprob.q0,
            sprob.p0,
        ),
        !problem.spec_is_quad() ==> (exists|x: Fx|
            r.dvalue.v as int == #[trigger] spec_descent_value(
                problem,
                sprob.ij.0 as int,
                sprob.ij.1 as int,
                status.a@[sprob.ij.0 as int],
                status.a@[sprob.ij.1 as int],
                sprob.q0,
                sprob.p0,
                x,
            )),
{
    let (i, j) = sprob.ij;
    let ai = status.a[i];
    let aj = status.a[j];
    if problem.is_quad() {
        let p = sprob.p0.add(problem.d_dloss(i, ai)).sub(problem.d_dloss(j, aj));
        let q = sprob.q0.add(problem.d2_dloss(i, ai)).add(problem.d2_dloss(j, aj));
        let t1 = p.div(q.max_of(problem.regularization())).min_of(sprob.max_t);
        let t = t1.max_of(Fx { v: 0 });
        let dvalue = t.mul(Fx { v: FX_HALF }.mul(q).mul(t).sub(p));
        if dvalue.v > 0 {
            Step { t: Fx { v: 0 }, dvalue: Fx { v: 0 } }
        } else {
            Step { t, dvalue }
        }
    } else {
        let loss = problem.dloss(i, ai).add(problem.dloss(j, aj));
        let q0 = sprob.q0;
        let p0 = sprob.p0;
        let fun = |t: Fx| -> (out: (Fx, Fx, Fx))
            requires
                problem.wf(),
                (i as int) < problem.spec_size(),
                (j as int) < problem.spec_size(),
            ensures
                out.0.v as int == spec_pair_value(problem, i as int, j as int, ai, aj, q0, p0, t),
            {
                let v = t.mul(Fx { v: FX_HALF }.mul(q0).mul(t).sub(p0)).sub(loss).add(
                    problem.dloss(i, ai.sub(t)),
                ).add(problem.dloss(j, aj.add(t)));
                let dv = q0.mul(t).sub(p0).sub(problem.d_dloss(i, ai.sub(t))).add(
                    problem.d_dloss(j, aj.add(t)),
                );
                let ddv = q0.add(problem.d2_dloss(i, ai.sub(t))).add(
                    problem.d2_dloss(j, aj.add(t)),
                );
                // clamp the gradient at about -1e3 and cap the curvature
                // at about 1e6 to damp the descent
                (v, dv.max_of(Fx { v: -1073741824000i64 }), ddv.min_of(
                    Fx { v: 1073741824000000i64 },
                ))
            };
        let (t_raw, v_raw) = newton(&fun, Fx { v: 0 }, sprob.max_t);
        proof {
            let out = choose|out: (Fx, Fx, Fx)| fun.ensures((t_raw,), out) && out.0 == v_raw;
            assert(v_raw.v as int == spec_pair_value(
                problem,
                i as int,
                j as int,
                ai,
                aj,
                q0,
                p0,
                t_raw,
            ));
        }
        let t = t_raw.max_of(Fx { v: 0 }).min_of(sprob.max_t);
        let dvalue = v_raw.min_of(Fx { v: 0 });
        proof {
            assert(dvalue.v as int == spec_descent_value(
                problem,
                i as int,
                j as int,
                ai,
                aj,
                q0,
                p0,
                t_raw,
            ));
        }
        Step { t, dvalue }
    }
}

} // verus!
