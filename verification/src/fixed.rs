//! Saturating fixed-point scalars.
//!
//! Every quantity of the optimization engines (coefficients, gradients,
//! kernel entries, tolerances) is an [`Fx`]: a signed 64-bit integer `v`
//! standing for the real number `v / FX_ONE`.  All operations saturate at
//! the `i64` range and truncate towards zero, and each operation's result
//! is pinned exactly by its contract over mathematical integers.
use vstd::prelude::*;
use vstd::arithmetic::div_mod::{lemma_div_nonincreasing, lemma_div_pos_is_pos};

verus! {

/// The fixed-point unit: `Fx { v }` stands for `v / FX_ONE` (2^30 steps).
pub const FX_ONE: i64 = 1073741824;

/// The scalar one half in raw fixed-point units.
pub const FX_HALF: i64 = 536870912;

/// The scalar one quarter in raw fixed-point units.
pub const FX_QUARTER: i64 = 268435456;

/// Saturation of a mathematical integer into the `i64` range.
pub open spec fn clip(x: int) -> int {
    if x > i64::MAX as int {
        i64::MAX as int
    } else if x < i64::MIN as int {
        i64::MIN as int
    } else {
        x
    }
}

/// Absolute value.
pub open spec fn iabs(x: int) -> int {
    if x >= 0 {
        x
    } else {
        -x
    }
}

/// Division truncated towards zero (the machine convention for signed
/// integers).  Total for convenience; callers keep `d != 0`.
pub open spec fn tdiv(x: int, d: int) -> int {
    if x == 0 {
        0
    } else if x > 0 && d > 0 {
        x / d
    } else if x < 0 && d < 0 {
        (x * -1) / (d * -1)
    } else if x < 0 {
        ((x * -1) / d) * -1
    } else {
        (x / (d * -1)) * -1
    }
}

/// Value of the saturating fixed-point product of raw values `a` and `b`.
pub open spec fn fx_prod(a: int, b: int) -> int {
    clip(tdiv(a * b, FX_ONE as int))
}

/// Value of the saturating fixed-point quotient of raw values `a` and `b`.
pub open spec fn fx_quot(a: int, b: int) -> int {
    clip(tdiv(a * (FX_ONE as int), b))
}

/// Truncated division never grows the magnitude (for `|d| >= 1`).
pub proof fn lemma_tdiv_bound(x: int, d: int)
    requires
        d != 0,
    ensures
        iabs(tdiv(x, d)) <= iabs(x),
        x >= 0 && d > 0 ==> 0 <= tdiv(x, d) <= x,
        x <= 0 && d > 0 ==> x <= tdiv(x, d) <= 0,
{
    let ax = iabs(x);
    let ad = iabs(d);
    lemma_div_pos_is_pos(ax, ad);
    lemma_div_nonincreasing(ax, ad);
    assert(0 <= ax / ad <= ax);
}

/// A product with a factor between zero and one keeps a nonnegative
/// other factor nonnegative and never grows it.
pub proof fn lemma_fx_prod_unit(a: int, c: int)
    requires
        a >= 0,
        0 <= c <= FX_ONE as int,
    ensures
        0 <= fx_prod(a, c) <= a,
{
    assert(0 <= a * c <= a * (FX_ONE as int)) by (nonlinear_arith)
        requires
            a >= 0,
            0 <= c <= FX_ONE as int,
    ;
    if a * c > 0 {
        vstd::arithmetic::div_mod::lemma_div_is_ordered(a * c, a * (FX_ONE as int), FX_ONE as int);
        vstd::arithmetic::div_mod::lemma_div_multiples_vanish(a, FX_ONE as int);
        lemma_tdiv_bound(a * c, FX_ONE as int);
    }
}

/// Multiplying by plus or minus one, or by zero, in fixed point is exact
/// (up to saturation).
pub proof fn lemma_fx_prod_sign(x: int)
    ensures
        fx_prod(x, FX_ONE as int) == clip(x),
        fx_prod(x, -(FX_ONE as int)) == clip(-x),
        fx_prod(x, 0) == 0,
{
    if x > 0 {
        vstd::arithmetic::div_mod::lemma_div_multiples_vanish(x, FX_ONE as int);
    } else if x < 0 {
        vstd::arithmetic::div_mod::lemma_div_multiples_vanish(-x, FX_ONE as int);
    }
}

/// The fixed-point half of a nonnegative raw value, doubled, never
/// exceeds the value.
pub proof fn lemma_fx_half_double(d: int)
    requires
        d >= 0,
    ensures
        0 <= fx_prod(FX_HALF as int, d),
        2 * fx_prod(FX_HALF as int, d) <= d,
{
    let y = (FX_HALF as int) * d;
    lemma_div_pos_is_pos(y, FX_ONE as int);
    let q = y / (FX_ONE as int);
    vstd::arithmetic::div_mod::lemma_fundamental_div_mod(y, FX_ONE as int);
    vstd::arithmetic::div_mod::lemma_mod_bound(y, FX_ONE as int);
    assert((FX_ONE as int) * (d - 2 * q) == 2 * (y % (FX_ONE as int)));
    assert(d - 2 * q >= 0);
}

/// A saturating fixed-point scalar: `v / FX_ONE` as a real number.
#[derive(Clone, Copy, PartialEq, Eq, Structural, Debug)]
pub struct Fx {
    /// Raw value, in units of `1 / FX_ONE`.
    pub v: i64,
}

fn clip64(x: i128) -> (r: i64)
    ensures
        r as int == clip(x as int),
{
    if x > i64::MAX as i128 {
        i64::MAX
    } else if x < i64::MIN as i128 {
        i64::MIN
    } else {
        x as i64
    }
}

impl Fx {
    /// The scalar 0.
    pub fn zero() -> (r: Fx)
        ensures
            r.v == 0,
    {
        Fx { v: 0 }
    }

    /// The scalar 1.
    pub fn one() -> (r: Fx)
        ensures
            r.v == FX_ONE,
    {
        Fx { v: FX_ONE }
    }

    /// The largest scalar; it plays the role of `+infinity`.
    pub fn top() -> (r: Fx)
        ensures
            r.v == i64::MAX,
    {
        Fx { v: i64::MAX }
    }

    /// The smallest scalar; it plays the role of `-infinity`.
    pub fn bottom() -> (r: Fx)
        ensures
            r.v == i64::MIN,
    {
        Fx { v: i64::MIN }
    }

    /// The scalar holding the integer `n`.
    pub fn from_int(n: i32) -> (r: Fx)
        ensures
            r.v == clip(n as int * FX_ONE as int),
    {
        let a: i128 = n as i128;
        proof {
            assert(a * (FX_ONE as i128) <= 0x4000_0000_0000_0000_0000i128
                && a * (FX_ONE as i128) >= -0x4000_0000_0000_0000_0000i128) by (nonlinear_arith)
                requires
                    -0x8000_0000 <= a <= 0x7fff_ffff,
            ;
        }
        let p: i128 = a * (FX_ONE as i128);
        Fx { v: clip64(p) }
    }

    /// Saturating addition.
    pub fn add(self, o: Fx) -> (r: Fx)
        ensures
            r.v == clip(self.v as int + o.v as int),
    {
        let s: i128 = (self.v as i128) + (o.v as i128);
        Fx { v: clip64(s) }
    }

    /// Saturating subtraction.
    pub fn sub(self, o: Fx) -> (r: Fx)
        ensures
            r.v == clip(self.v as int - o.v as int),
    {
        let s: i128 = (self.v as i128) - (o.v as i128);
        Fx { v: clip64(s) }
    }

    /// Saturating negation.
    pub fn neg(self) -> (r: Fx)
        ensures
            r.v == clip(-(self.v as int)),
    {
        let s: i128 = -(self.v as i128);
        Fx { v: clip64(s) }
    }

    /// Saturating absolute value.
    pub fn abs(self) -> (r: Fx)
        ensures
            r.v == clip(iabs(self.v as int)),
    {
        if self.v >= 0 {
            self
        } else {
            self.neg()
        }
    }

    /// Saturating product, truncated towards zero.
    pub fn mul(self, o: Fx) -> (r: Fx)
        ensures
            r.v == fx_prod(self.v as int, o.v as int),
    {
        let a: i128 = self.v as i128;
        let b: i128 = o.v as i128;
        proof {
            assert(a * b <= i128::MAX && a * b >= i128::MIN) by (nonlinear_arith)
                requires
                    -0x8000_0000_0000_0000 <= a <= 0x7fff_ffff_ffff_ffff,
                    -0x8000_0000_0000_0000 <= b <= 0x7fff_ffff_ffff_ffff,
            ;
        }
        let p: i128 = a * b;
        proof {
            lemma_tdiv_bound(p as int, FX_ONE as int);
        }
        let q: i128 = p.checked_div(FX_ONE as i128).unwrap();
        Fx { v: clip64(q) }
    }

    /// Saturating quotient, truncated towards zero.
    pub fn div(self, o: Fx) -> (r: Fx)
        requires
            o.v != 0,
        ensures
            r.v == fx_quot(self.v as int, o.v as int),
    {
        let a: i128 = self.v as i128;
        proof {
            assert(a * (FX_ONE as i128) <= 0x8000_0000_0000_0000_0000_0000i128
                && a * (FX_ONE as i128) >= -0x8000_0000_0000_0000_0000_0000i128)
                by (nonlinear_arith)
                requires
                    -0x8000_0000_0000_0000 <= a <= 0x7fff_ffff_ffff_ffff,
            ;
        }
        let num: i128 = a * (FX_ONE as i128);
        proof {
            lemma_tdiv_bound(num as int, o.v as int);
        }
        let q: i128 = num.checked_div(o.v as i128).unwrap();
        Fx { v: clip64(q) }
    }

    /// The smaller of two scalars.
    pub fn min_of(self, o: Fx) -> (r: Fx)
        ensures
            r.v == if self.v <= o.v { self.v } else { o.v },
    {
        if self.v <= o.v {
            self
        } else {
            o
        }
    }

    /// The larger of two scalars.
    pub fn max_of(self, o: Fx) -> (r: Fx)
        ensures
            r.v == if self.v >= o.v { self.v } else { o.v },
    {
        if self.v >= o.v {
            self
        } else {
            o
        }
    }
}

} // verus!
