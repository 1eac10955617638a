//! Extended state of the Newton engine.
use vstd::prelude::*;

use crate::fixed::Fx;
use crate::status::{fx_zeros, Status};

verus! {

/// The Newton engine's active set, kept as one vector: first the
/// variables with a nonzero second loss derivative, then (after
/// [`ActiveSet::merge`]) the "zeros" whose update is already fixed.
pub struct ActiveSet {
    /// Number of variables of the problem.
    pub size: usize,
    /// Length of the leading "positive" part of `positive`.
    pub size_positive: usize,
    /// The active variables: positives first, then merged zeros.
    pub positive: Vec<usize>,
    /// The variables with zero second derivative and a pending update,
    /// until they are merged.
    pub zeros: Vec<usize>,
}

impl ActiveSet {
    /// An empty active set over `size` variables.
    pub fn new(size: usize) -> (r: Self)
        ensures
            r.size == size,
            r.size_positive == 0,
            r.positive@.len() == 0,
            r.zeros@.len() == 0,
    {
        Self { size, size_positive: 0, positive: Vec::new(), zeros: Vec::new() }
    }

    /// All currently active variables.
    pub fn all(&self) -> (r: Vec<usize>)
        ensures
            r@ == self.positive@,
    {
        let mut r: Vec<usize> = Vec::new();
        let n = self.positive.len();
        let mut k: usize = 0;
        while k < n
            invariant
                k <= n,
                n == self.positive@.len(),
                r@.len() == k,
                forall|p: int| 0 <= p < k ==> r@[p] == self.positive@[p],
            decreases n - k,
        {
            r.push(self.positive[k]);
            k = k + 1;
        }
        proof {
            assert(r@ =~= self.positive@);
        }
        r
    }

    /// The variables with a nonzero second derivative.
    pub fn positives(&self) -> (r: Vec<usize>)
        requires
            self.size_positive <= self.positive@.len(),
        ensures
            r@ == self.positive@.take(self.size_positive as int),
    {
        let mut r: Vec<usize> = Vec::new();
        let n = self.size_positive;
        let mut k: usize = 0;
        while k < n
            invariant
                k <= n,
                n <= self.positive@.len(),
                r@.len() == k,
                forall|p: int| 0 <= p < k ==> r@[p] == self.positive@[p],
            decreases n - k,
        {
            r.push(self.positive[k]);
            k = k + 1;
        }
        proof {
            assert(r@ =~= self.positive@.take(self.size_positive as int));
        }
        r
    }

    /// The merged variables with a zero second derivative.
    pub fn zeros(&self) -> (r: Vec<usize>)
        requires
            self.size_positive <= self.positive@.len(),
        ensures
            r@ == self.positive@.skip(self.size_positive as int),
    {
        let mut r: Vec<usize> = Vec::new();
        let n = self.positive.len();
        let mut k: usize = self.size_positive;
        while k < n
            invariant
                self.size_positive <= k <= n,
                n == self.positive@.len(),
                r@.len() == k - self.size_positive,
                forall|p: int|
                    0 <= p < r@.len() ==> r@[p] == self.positive@[p + self.size_positive],
            decreases n - k,
        {
            r.push(self.positive[k]);
            k = k + 1;
        }
        proof {
            assert(r@ =~= self.positive@.skip(self.size_positive as int));
        }
        r
    }

    /// Replaces the active set by the full range of variables.
    pub fn make_full(&mut self)
        ensures
            final(self).size == old(self).size,
            final(self).size_positive == old(self).size_positive,
            final(self).zeros == old(self).zeros,
            final(self).positive@.len() == old(self).size,
            forall|p: int| 0 <= p < old(self).size ==> final(self).positive@[p] == p,
    {
        self.positive = crate::kernel::active_all(self.size);
    }

    /// Appends the zeros to the positives, recording the split point.
    pub fn merge(&mut self)
        ensures
            final(self).size == old(self).size,
            final(self).size_positive == old(self).positive@.len(),
            final(self).positive@ == old(self).positive@ + old(self).zeros@,
            final(self).zeros@.len() == 0,
    {
        self.size_positive = self.positive.len();
        let nz = self.zeros.len();
        let mut k: usize = 0;
        while k < nz
            invariant
                k <= nz,
                nz == self.zeros@.len(),
                self.size == old(self).size,
                self.size_positive == old(self).positive@.len(),
                self.zeros == old(self).zeros,
                self.positive@ == old(self).positive@ + self.zeros@.take(k as int),
            decreases nz - k,
        {
            proof {
                assert(self.zeros@.take(k as int + 1) =~= self.zeros@.take(k as int).push(
                    self.zeros@[k as int],
                ));
            }
            self.positive.push(self.zeros[k]);
            k = k + 1;
        }
        proof {
            assert(self.zeros@.take(nz as int) =~= self.zeros@);
        }
        self.zeros = Vec::new();
    }
}

/// A search direction `(a, b, c)` of the Newton engine.
pub struct Direction {
    /// Coefficient part of the direction.
    pub a: Vec<Fx>,
    /// Bias part of the direction.
    pub b: Fx,
    /// Shift part of the direction.
    pub c: Fx,
}

impl Direction {
    /// The zero direction over `size` variables.
    pub fn new(size: usize) -> (r: Self)
        ensures
            r.a@.len() == size,
            forall|i: int| 0 <= i < size ==> r.a@[i].v == 0,
            r.b.v == 0,
            r.c.v == 0,
    {
        Self { a: fx_zeros(size), b: Fx { v: 0 }, c: Fx { v: 0 } }
    }
}

/// Sums that the Newton direction computation needs.
pub struct Sums {
    /// Sum of the coefficients.
    pub a: Fx,
    /// Sum of the first loss derivatives.
    pub g: Fx,
    /// Signed sum of the coefficients.
    pub sa: Fx,
    /// Signed sum of the first loss derivatives.
    pub sg: Fx,
    /// Sum of the fixed updates over the zero partition.
    pub da_zeros: Fx,
    /// Signed sum of the fixed updates over the zero partition.
    pub sda_zeros: Fx,
}

impl Sums {
    /// All sums zero.
    pub fn new() -> (r: Self)
        ensures
            r.a.v == 0 && r.g.v == 0 && r.sa.v == 0 && r.sg.v == 0 && r.da_zeros.v == 0
                && r.sda_zeros.v == 0,
    {
        Self {
            a: Fx { v: 0 },
            g: Fx { v: 0 },
            sa: Fx { v: 0 },
            sg: Fx { v: 0 },
            da_zeros: Fx { v: 0 },
            sda_zeros: Fx { v: 0 },
        }
    }
}

/// The status of a Newton solve together with the engine's scratch state.
pub struct StatusExtended {
    /// The underlying base status.
    pub status: Status,
    /// Current search direction.
    pub dir: Direction,
    /// Active set, partitioned into positives and zeros.
    pub active: ActiveSet,
    /// Sums needed by the direction computation.
    pub sums: Sums,
    /// Values of the second loss derivatives.
    pub h: Vec<Fx>,
    /// Scratch space for one kernel row.
    pub ki: Vec<Fx>,
}

} // verus!
