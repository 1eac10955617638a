//! Kernels.
use vstd::prelude::*;

use crate::fixed::Fx;

mod cached;
mod precomputed;

pub use cached::{cache, find_common, CachedKernel};
pub use precomputed::PrecomputedKernel;

verus! {

/// The members of `s` grow strictly from left to right.
pub open spec fn strictly_increasing(s: Seq<usize>) -> bool {
    forall|p: int, q: int| 0 <= p < q < s.len() ==> #[trigger] s[p] < #[trigger] s[q]
}

/// A valid active set over `n` samples: strictly increasing indices below `n`.
pub open spec fn valid_active(s: Seq<usize>, n: int) -> bool {
    strictly_increasing(s) && forall|p: int| 0 <= p < s.len() ==> #[trigger] s[p] < n
}

/// Every member of `s` is an index below `n`.
pub open spec fn bounded_idxs(s: Seq<usize>, n: int) -> bool {
    forall|p: int| 0 <= p < s.len() ==> (#[trigger] s[p] as int) < n
}

/// Every member of `sub` occurs among the members of `sup`.
pub open spec fn subset_of(sub: Seq<usize>, sup: Seq<usize>) -> bool {
    forall|p: int| 0 <= p < sub.len() ==> sup.contains(#[trigger] sub[p])
}

/// The full active set `0, 1, ..., n-1` as a sequence.
pub open spec fn full_seq(n: int) -> Seq<usize> {
    Seq::new(n as nat, |i: int| i as usize)
}

/// In a strictly increasing sequence every member is at least its
/// position.
proof fn lemma_active_lower(s: Seq<usize>, p: int)
    requires
        strictly_increasing(s),
        0 <= p < s.len(),
    ensures
        s[p] >= p,
    decreases p,
{
    if p > 0 {
        lemma_active_lower(s, p - 1);
        assert(s[p - 1] < s[p]);
    }
}

/// In a valid active set of full length every member is at most its
/// position.
proof fn lemma_active_upper(s: Seq<usize>, n: int, p: int)
    requires
        valid_active(s, n),
        s.len() == n,
        0 <= p < n,
    ensures
        s[p] <= p,
    decreases n - p,
{
    if p < n - 1 {
        lemma_active_upper(s, n, p + 1);
        assert(s[p] < s[p + 1]);
    } else {
        assert(s[p] < n);
    }
}

/// A valid active set over `n` samples has at most `n` members.
pub proof fn lemma_valid_active_len(s: Seq<usize>, n: int)
    requires
        valid_active(s, n),
        n >= 0,
    ensures
        s.len() <= n,
{
    if s.len() > n {
        lemma_active_lower(s, n);
        assert(s[n] < n);
    }
}

/// A valid active set of full length is the full range itself.
pub proof fn lemma_full_active_is_identity(s: Seq<usize>, n: int)
    requires
        valid_active(s, n),
        s.len() == n,
    ensures
        s == full_seq(n),
{
    assert forall|p: int| 0 <= p < n implies s[p] == full_seq(n)[p] by {
        lemma_active_lower(s, p);
        lemma_active_upper(s, n, p);
        assert(full_seq(n)[p] == p as usize);
    }
    assert(s =~= full_seq(n));
}

/// The full active set `0, 1, ..., n-1`.
pub fn active_all(n: usize) -> (r: Vec<usize>)
    ensures
        r@.len() == n,
        forall|i: int| 0 <= i < n ==> r@[i] == i,
        valid_active(r@, n as int),
{
    let mut r: Vec<usize> = Vec::new();
    let mut k: usize = 0;
    while k < n
        invariant
            k <= n,
            r@.len() == k,
            forall|i: int| 0 <= i < k ==> r@[i] == i,
        decreases n - k,
    {
        r.push(k);
        k = k + 1;
    }
    r
}

/// An abstract kernel matrix.
///
/// The mathematical matrix is given by the spec functions `spec_size` and
/// `entry`; the executable methods promise to produce exactly those
/// entries.  `active_ok` records for which active set a stateful (caching)
/// implementation currently answers `use_rows`.
pub trait Kernel: Sized {
    /// Number of samples of the kernel matrix.
    spec fn spec_size(&self) -> int;

    /// The mathematical entry at row `i`, column `j`.
    spec fn entry(&self, i: int, j: int) -> Fx;

    /// The implementation's own well-formedness.
    spec fn wf(&self) -> bool;

    /// The active sets for which `use_rows` may currently be called.
    spec fn active_ok(&self, act: Seq<usize>) -> bool;

    /// Largest number of rows that one `use_rows` call may request.
    spec fn spec_max_rows(&self) -> int;

    /// A well-formed kernel has a nonnegative size.
    proof fn wf_size(&self)
        requires
            self.wf(),
        ensures
            self.spec_size() >= 0,
    ;

    /// Returns the size of the matrix (number of samples).
    fn size(&self) -> (n: usize)
        requires
            self.wf(),
        ensures
            n as int == self.spec_size(),
    ;

    /// Returns the ith diagonal element of the kernel matrix.
    fn diag(&self, i: usize) -> (d: Fx)
        requires
            self.wf(),
            (i as int) < self.spec_size(),
        ensures
            d == self.entry(i as int, i as int),
    ;

    /// Computes the ith row of the kernel matrix, with one entry for each
    /// member of `active_set`, into `ki`.
    fn compute_row(&self, i: usize, ki: &mut Vec<Fx>, active_set: &Vec<usize>)
        requires
            self.wf(),
            (i as int) < self.spec_size(),
            bounded_idxs(active_set@, self.spec_size()),
        ensures
            final(ki)@.len() == active_set@.len(),
            forall|k: int|
                0 <= k < active_set@.len() ==> final(ki)@[k] == self.entry(
                    i as int,
                    active_set@[k] as int,
                ),
    ;

    /// Computes the rows listed in `idxs` and stores them in `out`, one
    /// vector of `active_set.len()` entries per requested row.
    fn use_rows(&mut self, idxs: &Vec<usize>, active_set: &Vec<usize>, out: &mut Vec<Vec<Fx>>)
        requires
            old(self).wf(),
            old(self).active_ok(active_set@),
            idxs@.len() <= old(self).spec_max_rows(),
            forall|r: int| 0 <= r < idxs@.len() ==> (#[trigger] idxs@[r] as int) < old(
                self,
            ).spec_size(),
            valid_active(active_set@, old(self).spec_size()),
        ensures
            final(self).wf(),
            final(self).spec_size() == old(self).spec_size(),
            forall|i: int, j: int| final(self).entry(i, j) == old(self).entry(i, j),
            final(self).active_ok(active_set@),
            final(self).spec_max_rows() == old(self).spec_max_rows(),
            final(out)@.len() == idxs@.len(),
            forall|r: int|
                0 <= r < idxs@.len() ==> (#[trigger] final(out)@[r])@.len()
                    == active_set@.len(),
            forall|r: int, k: int|
                0 <= r < idxs@.len() && 0 <= k < active_set@.len() ==> (#[trigger] final(out)@[r]@[k])
                    == old(self).entry(idxs@[r] as int, active_set@[k] as int),
    ;

    /// Restricts (shrinks) the current active set, keeping any cached rows
    /// consistent.
    fn restrict_active(&mut self, old_set: &Vec<usize>, new_set: &Vec<usize>)
        requires
            old(self).wf(),
            old(self).active_ok(old_set@),
            valid_active(old_set@, old(self).spec_size()),
            valid_active(new_set@, old(self).spec_size()),
            subset_of(new_set@, old_set@),
        ensures
            final(self).wf(),
            final(self).spec_size() == old(self).spec_size(),
            forall|i: int, j: int| final(self).entry(i, j) == old(self).entry(i, j),
            final(self).active_ok(new_set@),
            final(self).spec_max_rows() == old(self).spec_max_rows(),
    ;

    /// Resets the active set (typically to the full range), invalidating
    /// any cached rows.
    fn set_active(&mut self, old_set: &Vec<usize>, new_set: &Vec<usize>)
        requires
            old(self).wf(),
            valid_active(new_set@, old(self).spec_size()),
        ensures
            final(self).wf(),
            final(self).spec_size() == old(self).spec_size(),
            forall|i: int, j: int| final(self).entry(i, j) == old(self).entry(i, j),
            final(self).active_ok(new_set@),
            final(self).spec_max_rows() == old(self).spec_max_rows(),
    ;
}

} // verus!
