//! Polynomially smoothed maximum and its derivatives.
//!
//! `max(t, s)` is the plain positive part for `s = 0` and a piecewise
//! quadratic bridge of width `2 s` otherwise; `dual_max` is the matching
//! convex-conjugate term of the dual losses.
use vstd::prelude::*;

use crate::fixed::{clip, fx_prod, fx_quot, Fx, FX_ONE};

verus! {

/// The smoothed positive part of `t` with smoothing width `s`.
pub open spec fn spec_max(t: Fx, s: Fx) -> Fx {
    if t.v >= s.v {
        t
    } else if t.v <= clip(-(s.v as int)) {
        Fx { v: 0 }
    } else {
        let u = clip(t.v + s.v);
        let q = fx_prod(u, u);
        Fx { v: fx_quot(q, clip(4 * s.v)) as i64 }
    }
}

/// First derivative of [`spec_max`] in `t`.
pub open spec fn spec_d_max(t: Fx, s: Fx) -> Fx {
    if t.v >= s.v {
        Fx { v: FX_ONE }
    } else if t.v <= clip(-(s.v as int)) {
        Fx { v: 0 }
    } else {
        let u = clip(t.v + s.v);
        Fx { v: fx_quot(u, clip(2 * s.v)) as i64 }
    }
}

/// Second derivative of [`spec_max`] in `t`.
pub open spec fn spec_d2_max(t: Fx, s: Fx) -> Fx {
    if t.v >= s.v {
        Fx { v: 0 }
    } else if t.v <= clip(-(s.v as int)) {
        Fx { v: 0 }
    } else {
        Fx { v: fx_quot(FX_ONE as int, clip(2 * s.v)) as i64 }
    }
}

/// Dual counterpart of [`spec_max`]: `s * a * (a - 1)`.
pub open spec fn spec_dual_max(a: Fx, s: Fx) -> Fx {
    Fx { v: fx_prod(fx_prod(s.v as int, a.v as int), clip(a.v - FX_ONE)) as i64 }
}

/// First derivative of [`spec_dual_max`] in `a`: `s * (2 a - 1)`.
pub open spec fn spec_d_dual_max(a: Fx, s: Fx) -> Fx {
    Fx { v: fx_prod(s.v as int, clip(clip(2 * a.v) - FX_ONE)) as i64 }
}

/// Second derivative of [`spec_dual_max`] in `a`: `2 s`.
pub open spec fn spec_d2_dual_max(s: Fx) -> Fx {
    Fx { v: clip(2 * s.v) as i64 }
}

/// Smoothed positive part.
pub fn max(t: Fx, s: Fx) -> (r: Fx)
    requires
        s.v >= 0,
    ensures
        r == spec_max(t, s),
        r.v >= 0,
    {
    if t.v >= s.v {
        t
    } else if t.v <= s.neg().v {
        Fx { v: 0 }
    } else {
        let u = t.add(s);
        let q = u.mul(u);
        let den = s.add(s).add(s.add(s));
        proof {
            assert(u.v as int * u.v as int >= 0) by (nonlinear_arith);
            crate::fixed::lemma_tdiv_bound(u.v as int * u.v as int, FX_ONE as int);
            assert(q.v as int * FX_ONE as int >= 0) by (nonlinear_arith)
                requires
                    q.v >= 0,
            ;
            crate::fixed::lemma_tdiv_bound(q.v as int * FX_ONE as int, den.v as int);
        }
        q.div(den)
    }
}

/// First derivative of the smoothed positive part.
pub fn d_max(t: Fx, s: Fx) -> (r: Fx)
    requires
        s.v >= 0,
    ensures
        r == spec_d_max(t, s),
{
    if t.v >= s.v {
        Fx { v: FX_ONE }
    } else if t.v <= s.neg().v {
        Fx { v: 0 }
    } else {
        let u = t.add(s);
        u.div(s.add(s))
    }
}

/// Second derivative of the smoothed positive part.
pub fn d2_max(t: Fx, s: Fx) -> (r: Fx)
    requires
        s.v >= 0,
    ensures
        r == spec_d2_max(t, s),
        r.v >= 0,
{
    if t.v >= s.v {
        Fx { v: 0 }
    } else if t.v <= s.neg().v {
        Fx { v: 0 }
    } else {
        let den = s.add(s);
        proof {
            crate::fixed::lemma_tdiv_bound(FX_ONE as int * FX_ONE as int, den.v as int);
        }
        Fx { v: FX_ONE }.div(den)
    }
}

/// Dual counterpart of the smoothed positive part.
pub fn dual_max(a: Fx, s: Fx) -> (r: Fx)
    ensures
        r == spec_dual_max(a, s),
{
    s.mul(a).mul(a.sub(Fx { v: FX_ONE }))
}

/// First derivative of the dual counterpart.
pub fn d_dual_max(a: Fx, s: Fx) -> (r: Fx)
    ensures
        r == spec_d_dual_max(a, s),
{
    s.mul(a.add(a).sub(Fx { v: FX_ONE }))
}

/// Second derivative of the dual counterpart.
pub fn d2_dual_max(a: Fx, s: Fx) -> (r: Fx)
    requires
        s.v >= 0,
    ensures
        r == spec_d2_dual_max(s),
        r.v >= 0,
{
    s.add(s)
}

} // verus!
