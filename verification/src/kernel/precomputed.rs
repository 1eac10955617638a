//! A fully materialized kernel matrix.
use vstd::prelude::*;

use crate::fixed::Fx;
use crate::kernel::{active_all, bounded_idxs, valid_active, Kernel};

verus! {

/// A kernel whose matrix is held row by row in memory.
pub struct PrecomputedKernel {
    n: usize,
    rows: Vec<Vec<Fx>>,
}

impl PrecomputedKernel {
    /// Builds a kernel directly from a square matrix of entries.
    pub fn from_matrix(m: Vec<Vec<Fx>>) -> (r: Self)
        requires
            forall|i: int| 0 <= i < m@.len() ==> (#[trigger] m@[i])@.len() == m@.len(),
        ensures
            r.wf(),
            r.spec_size() == m@.len(),
            forall|i: int, j: int|
                0 <= i < m@.len() && 0 <= j < m@.len() ==> r.entry(i, j) == m@[i]@[j],
    {
        let n = m.len();
        PrecomputedKernel { n, rows: m }
    }

    /// Generates a precomputed version of the given kernel matrix.  The
    /// strict lower triangle is taken from `base` and mirrored, so the
    /// result is symmetric even when `base` is not.
    pub fn from<K: Kernel>(base: &K) -> (r: Self)
        requires
            base.wf(),
        ensures
            r.wf(),
            r.spec_size() == base.spec_size(),
            forall|i: int, j: int|
                0 <= i < r.spec_size() && 0 <= j < r.spec_size() ==> #[trigger] r.entry(i, j)
                    == if j <= i {
                    base.entry(i, j)
                } else {
                    base.entry(j, i)
                },
    {
        let n = base.size();
        let full = active_all(n);
        let mut plain: Vec<Vec<Fx>> = Vec::new();
        let mut i: usize = 0;
        while i < n
            invariant
                i <= n,
                n as int == base.spec_size(),
                base.wf(),
                full@.len() == n,
                forall|k: int| 0 <= k < n ==> full@[k] == k,
                valid_active(full@, n as int),
                plain@.len() == i,
                forall|p: int| 0 <= p < i ==> (#[trigger] plain@[p])@.len() == n,
                forall|p: int, q: int|
                    0 <= p < i && 0 <= q < n ==> (#[trigger] plain@[p]@[q]) == base.entry(p, q),
            decreases n - i,
        {
            let mut fresh: Vec<Fx> = Vec::new();
            base.compute_row(i, &mut fresh, &full);
            plain.push(fresh);
            i = i + 1;
        }
        // mirror the strict lower triangle onto the upper one
        let mut rows: Vec<Vec<Fx>> = Vec::new();
        let mut i: usize = 0;
        while i < n
            invariant
                i <= n,
                n as int == base.spec_size(),
                base.wf(),
                plain@.len() == n,
                forall|p: int| 0 <= p < n ==> (#[trigger] plain@[p])@.len() == n,
                forall|p: int, q: int|
                    0 <= p < n && 0 <= q < n ==> (#[trigger] plain@[p]@[q]) == base.entry(p, q),
                rows@.len() == i,
                forall|p: int| 0 <= p < i ==> (#[trigger] rows@[p])@.len() == n,
                forall|p: int, q: int|
                    0 <= p < i && 0 <= q < n ==> (#[trigger] rows@[p]@[q]) == if q <= p {
                        base.entry(p, q)
                    } else {
                        base.entry(q, p)
                    },
            decreases n - i,
        {
            let mut row: Vec<Fx> = Vec::new();
            let mut j: usize = 0;
            while j < n
                invariant
                    j <= n,
                    i < n,
                    n as int == base.spec_size(),
                    base.wf(),
                    plain@.len() == n,
                    forall|p: int| 0 <= p < n ==> (#[trigger] plain@[p])@.len() == n,
                    forall|p: int, q: int|
                        0 <= p < n && 0 <= q < n ==> (#[trigger] plain@[p]@[q]) == base.entry(
                            p,
                            q,
                        ),
                    row@.len() == j,
                    forall|q: int|
                        0 <= q < j ==> (#[trigger] row@[q]) == if q <= i {
                            base.entry(i as int, q)
                        } else {
                            base.entry(q, i as int)
                        },
                decreases n - j,
            {
                if j <= i {
                    row.push(plain[i][j]);
                } else {
                    row.push(plain[j][i]);
                }
                j = j + 1;
            }
            rows.push(row);
            i = i + 1;
        }
        PrecomputedKernel { n, rows }
    }
}

impl Kernel for PrecomputedKernel {
    closed spec fn spec_size(&self) -> int {
        self.n as int
    }

    closed spec fn entry(&self, i: int, j: int) -> Fx {
        self.rows@[i]@[j]
    }

    closed spec fn wf(&self) -> bool {
        self.rows@.len() == self.n && forall|i: int|
            0 <= i < self.n ==> (#[trigger] self.rows@[i])@.len() == self.n
    }

    closed spec fn active_ok(&self, act: Seq<usize>) -> bool {
        true
    }

    closed spec fn spec_max_rows(&self) -> int {
        usize::MAX as int
    }

    proof fn wf_size(&self) {
    }

    fn size(&self) -> (n: usize) {
        self.n
    }

    fn diag(&self, i: usize) -> (d: Fx) {
        self.rows[i][i]
    }

    fn compute_row(&self, i: usize, ki: &mut Vec<Fx>, active_set: &Vec<usize>) {
        ki.clear();
        let m = active_set.len();
        let mut k: usize = 0;
        while k < m
            invariant
                k <= m,
                m == active_set@.len(),
                self.wf(),
                (i as int) < self.spec_size(),
                bounded_idxs(active_set@, self.spec_size()),
                ki@.len() == k,
                forall|p: int|
                    0 <= p < k ==> ki@[p] == self.entry(i as int, active_set@[p] as int),
            decreases m - k,
        {
            ki.push(self.rows[i][active_set[k]]);
            k = k + 1;
        }
    }

    fn use_rows(&mut self, idxs: &Vec<usize>, active_set: &Vec<usize>, out: &mut Vec<Vec<Fx>>) {
        out.clear();
        let m = idxs.len();
        let mut r: usize = 0;
        while r < m
            invariant
                r <= m,
                m == idxs@.len(),
                self.wf(),
                forall|p: int| 0 <= p < m ==> (#[trigger] idxs@[p] as int) < self.spec_size(),
                valid_active(active_set@, self.spec_size()),
                out@.len() == r,
                forall|p: int|
                    0 <= p < r ==> (#[trigger] out@[p])@.len() == active_set@.len(),
                forall|p: int, k: int|
                    0 <= p < r && 0 <= k < active_set@.len() ==> (#[trigger] out@[p]@[k])
                        == self.entry(idxs@[p] as int, active_set@[k] as int),
            decreases m - r,
        {
            let mut row: Vec<Fx> = Vec::new();
            self.compute_row(idxs[r], &mut row, active_set);
            out.push(row);
            r = r + 1;
        }
    }

    fn restrict_active(&mut self, old_set: &Vec<usize>, new_set: &Vec<usize>) {
    }

    fn set_active(&mut self, old_set: &Vec<usize>, new_set: &Vec<usize>) {
    }
}

} // verus!
