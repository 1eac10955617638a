//! An LRU row cache over any base kernel.
//!
//! The cache keeps up to `cap` kernel rows in preallocated slots and an
//! outside LRU index (key: sample index, value: slot) deciding which row
//! leaves when room is needed.  Its invariant ties every cached row to the
//! mathematical matrix of the base kernel, so a cache hit returns exactly
//! the row a cache-less kernel would compute.
use vstd::prelude::*;

use caches::{Cache, RawLRU};

use crate::fixed::Fx;
use crate::kernel::{strictly_increasing, subset_of, valid_active, Kernel};

verus! {

#[verifier::external_type_specification]
#[verifier::external_body]
#[verifier::reject_recursive_types(K)]
#[verifier::reject_recursive_types(V)]
#[verifier::reject_recursive_types(E)]
#[verifier::reject_recursive_types(S)]
pub struct ExRawLRU<K, V, E, S>(RawLRU<K, V, E, S>);

#[verifier::external_type_specification]
#[verifier::external_body]
pub struct ExDefaultEvictCallback(caches::DefaultEvictCallback);

/// The key-value pairs held by an outside LRU index, most recently used
/// first.
pub uninterp spec fn lru_entries(
    l: RawLRU<usize, usize, caches::DefaultEvictCallback, caches::DefaultHashBuilder>,
) -> Seq<(usize, usize)>;

/// The capacity an outside LRU index was created with.
pub uninterp spec fn lru_cap(
    l: RawLRU<usize, usize, caches::DefaultEvictCallback, caches::DefaultHashBuilder>,
) -> int;

/// Relies on caches::RawLRU::new: a fresh cache of positive capacity holds
/// nothing; a positive capacity is accepted.
#[verifier::external_body]
fn lru_new(cap: usize) -> (r: RawLRU<usize, usize>)
    requires
        cap >= 1,
    ensures
        lru_entries(r) == Seq::<(usize, usize)>::empty(),
        lru_cap(r) == cap,
{
    RawLRU::new(cap).unwrap()
}

/// Relies on caches::RawLRU::get: returns the value stored under the key
/// and marks that entry most recently used, or returns nothing and leaves
/// the cache unchanged.
#[verifier::external_body]
fn lru_get(l: &mut RawLRU<usize, usize>, k: usize) -> (r: Option<usize>)
    ensures
        lru_cap(*final(l)) == lru_cap(*old(l)),
        ({
            let s = lru_entries(*old(l));
            let s2 = lru_entries(*final(l));
            if exists|i: int| 0 <= i < s.len() && (#[trigger] s[i]).0 == k {
                let i = choose|i: int| 0 <= i < s.len() && (#[trigger] s[i]).0 == k;
                r == Some(s[i].1) && s2 == seq![s[i]] + s.remove(i)
            } else {
                r == None::<usize> && s2 == s
            }
        }),
{
    l.get(&k).copied()
}

/// Relies on caches::RawLRU::put: inserting an absent key into a cache
/// with spare room stores the pair as most recently used and evicts
/// nothing.
#[verifier::external_body]
fn lru_put(l: &mut RawLRU<usize, usize>, k: usize, v: usize)
    requires
        forall|i: int|
            0 <= i < lru_entries(*old(l)).len() ==> (#[trigger] lru_entries(*old(l))[i]).0 != k,
        lru_entries(*old(l)).len() < lru_cap(*old(l)),
    ensures
        lru_cap(*final(l)) == lru_cap(*old(l)),
        lru_entries(*final(l)) == seq![(k, v)] + lru_entries(*old(l)),
{
    l.put(k, v);
}

/// Relies on caches::RawLRU::remove_lru: removes and returns the least
/// recently used entry, if any.
#[verifier::external_body]
fn lru_remove_lru(l: &mut RawLRU<usize, usize>) -> (r: Option<(usize, usize)>)
    ensures
        lru_cap(*final(l)) == lru_cap(*old(l)),
        ({
            let s = lru_entries(*old(l));
            if s.len() > 0 {
                r == Some(s.last()) && lru_entries(*final(l)) == s.drop_last()
            } else {
                r == None::<(usize, usize)> && lru_entries(*final(l)) == s
            }
        }),
{
    l.remove_lru()
}

/// Where an entry of the reordered sequence `seq![s[i]] + s.remove(i)`
/// came from in `s`.
pub open spec fn moved_src(i: int, k: int) -> int {
    if k == 0 {
        i
    } else if k <= i {
        k - 1
    } else {
        k
    }
}

/// Moving the entry at position `i` to the front permutes the sequence:
/// position `k` of the result holds position `moved_src(i, k)` of `s`.
proof fn lemma_move_front<A>(s: Seq<A>, i: int)
    requires
        0 <= i < s.len(),
    ensures
        (seq![s[i]] + s.remove(i)).len() == s.len(),
        forall|k: int|
            0 <= k < s.len() ==> (seq![s[i]] + s.remove(i))[k] == s[#[trigger] moved_src(i, k)],
        forall|k1: int, k2: int|
            0 <= k1 < s.len() && 0 <= k2 < s.len() && k1 != k2 ==> #[trigger] moved_src(i, k1)
                != #[trigger] moved_src(i, k2),
        forall|k: int| 0 <= k < s.len() ==> 0 <= #[trigger] moved_src(i, k) < s.len(),
{
    assert forall|k: int| 0 <= k < s.len() implies (seq![s[i]] + s.remove(i))[k] == s[
        #[trigger] moved_src(i, k)
    ] by {
        if k == 0 {
        } else if k <= i {
            assert(s.remove(i)[k - 1] == s[k - 1]);
        } else {
            assert(s.remove(i)[k - 1] == s[k]);
        }
    }
}

/// A copy of a row of scalars.
fn copy_fx_row(src: &Vec<Fx>) -> (r: Vec<Fx>)
    ensures
        r@ == src@,
{
    let mut r: Vec<Fx> = Vec::new();
    let n = src.len();
    let mut k: usize = 0;
    while k < n
        invariant
            k <= n,
            n == src@.len(),
            r@.len() == k,
            forall|p: int| 0 <= p < k ==> r@[p] == src@[p],
        decreases n - k,
    {
        r.push(src[k]);
        k = k + 1;
    }
    proof {
        assert(r@ =~= src@);
    }
    r
}

/// Positions in `a` of the members of `b`: `b` must list, in order, a
/// subset of the strictly increasing `a`, and the result maps every
/// member of `b` to its position in `a`.
pub fn find_common(a: &Vec<usize>, b: &Vec<usize>) -> (res: Vec<usize>)
    requires
        strictly_increasing(a@),
        strictly_increasing(b@),
        subset_of(b@, a@),
    ensures
        res@.len() == b@.len(),
        forall|k: int|
            0 <= k < b@.len() ==> (#[trigger] res@[k] as int) < a@.len() && a@[res@[k] as int]
                == b@[k],
{
    let mut res: Vec<usize> = Vec::new();
    let n = a.len();
    let m = b.len();
    let mut k: usize = 0;
    let mut next: usize = 0;
    while k < m
        invariant
            k <= m,
            n == a@.len(),
            m == b@.len(),
            strictly_increasing(a@),
            strictly_increasing(b@),
            subset_of(b@, a@),
            res@.len() == k,
            forall|q: int|
                0 <= q < k ==> (#[trigger] res@[q] as int) < n && a@[res@[q] as int] == b@[q],
            k > 0 ==> next == res@[k - 1] + 1,
            k == 0 ==> next == 0,
        decreases m - k,
    {
        proof {
            assert(a@.contains(b@[k as int]));
        }
        let ghost p0 = choose|p: int| 0 <= p < a@.len() && a@[p] == b@[k as int];
        proof {
            assert(a@[p0] == b@[k as int]);
            if k > 0 {
                assert(b@[k as int] > b@[k - 1]);
                assert(a@[res@[k - 1] as int] == b@[k - 1]);
                if p0 <= res@[k - 1] {
                    if p0 < res@[k - 1] {
                        assert(a@[p0] < a@[res@[k - 1] as int]);
                    }
                    assert(false);
                }
            }
        }
        let mut j: usize = next;
        while a[j] != b[k]
            invariant
                n == a@.len(),
                m == b@.len(),
                k < m,
                j <= p0 < n,
                a@[p0] == b@[k as int],
            decreases p0 - j,
        {
            proof {
                assert(j < p0);
            }
            j = j + 1;
        }
        res.push(j);
        next = j + 1;
        k = k + 1;
    }
    res
}

/// A caching wrapper around a base kernel.
pub struct CachedKernel<K> {
    lru: RawLRU<usize, usize>,
    data: Vec<Vec<Fx>>,
    base: K,
    cap: usize,
    active: Ghost<Seq<usize>>,
}

impl<K: Kernel> CachedKernel<K> {
    /// The cached row stored in `slot` holds exactly the base row of `key`
    /// on the current active set.
    pub closed spec fn row_fresh(&self, key: int, slot: int) -> bool {
        (#[trigger] self.data@[slot])@.len() == self.active@.len() && forall|k: int|
            0 <= k < self.active@.len() ==> self.data@[slot]@[k] == self.base.entry(
                key,
                self.active@[k] as int,
            )
    }

    /// All invariants of the cache: the LRU index is a bijection between
    /// cached sample indices and filled slots, and every filled slot is
    /// fresh.
    pub closed spec fn inv(&self) -> bool {
        let s = lru_entries(self.lru);
        &&& self.base.wf()
        &&& valid_active(self.active@, self.base.spec_size())
        &&& (if self.cap == 0 {
            self.data@.len() == 0 && s.len() == 0
        } else {
            self.cap as int == lru_cap(self.lru) && self.data@.len() <= self.cap && s.len()
                == self.data@.len()
        })
        &&& forall|i: int|
            0 <= i < s.len() ==> ((#[trigger] s[i]).1 as int) < self.data@.len() && (s[i].0 as int)
                < self.base.spec_size()
        &&& forall|i: int, j: int|
            0 <= i < s.len() && 0 <= j < s.len() && i != j ==> (#[trigger] s[i]).0 != (
            #[trigger] s[j]).0 && s[i].1 != s[j].1
        &&& forall|i: int|
            0 <= i < s.len() ==> self.row_fresh((#[trigger] s[i]).0 as int, s[i].1 as int)
        &&& forall|p: int|
            0 <= p < self.data@.len() ==> (#[trigger] self.data@[p])@.len()
                == self.active@.len()
    }

    /// Generates a cached version of the given kernel matrix.
    pub fn from(base: K, capacity: usize) -> (r: CachedKernel<K>)
        requires
            base.wf(),
        ensures
            r.wf(),
            r.spec_size() == base.spec_size(),
            forall|i: int, j: int| r.entry(i, j) == base.entry(i, j),
            r.active_ok(Seq::new(base.spec_size() as nat, |i: int| i as usize)),
            r.spec_max_rows() == if capacity == 0 {
                usize::MAX as int
            } else {
                capacity as int
            },
    {
        proof {
            base.wf_size();
        }
        let lru = lru_new(if capacity == 0 {
            1
        } else {
            capacity
        });
        let n = base.size();
        CachedKernel {
            lru,
            data: Vec::new(),
            base,
            cap: capacity,
            active: Ghost(Seq::new(n as nat, |i: int| i as usize)),
        }
    }
}

/// Add a cache to a base kernel.  A zero `cache_size` keeps no rows: every
/// request is computed freshly.
pub fn cache<K: Kernel>(base: K, cache_size: usize) -> (r: CachedKernel<K>)
    requires
        base.wf(),
    ensures
        r.wf(),
        r.spec_size() == base.spec_size(),
        forall|i: int, j: int| r.entry(i, j) == base.entry(i, j),
        r.active_ok(Seq::new(base.spec_size() as nat, |i: int| i as usize)),
        r.spec_max_rows() == if cache_size == 0 {
            usize::MAX as int
        } else {
            cache_size as int
        },
{
    CachedKernel::from(base, cache_size)
}

impl<K: Kernel> Kernel for CachedKernel<K> {
    closed spec fn spec_size(&self) -> int {
        self.base.spec_size()
    }

    closed spec fn entry(&self, i: int, j: int) -> Fx {
        self.base.entry(i, j)
    }

    closed spec fn wf(&self) -> bool {
        self.inv()
    }

    closed spec fn active_ok(&self, act: Seq<usize>) -> bool {
        act == self.active@
    }

    closed spec fn spec_max_rows(&self) -> int {
        if self.cap == 0 {
            usize::MAX as int
        } else {
            self.cap as int
        }
    }

    proof fn wf_size(&self) {
        self.base.wf_size();
    }

    fn size(&self) -> (n: usize) {
        self.base.size()
    }

    fn diag(&self, i: usize) -> (d: Fx) {
        self.base.diag(i)
    }

    fn compute_row(&self, i: usize, ki: &mut Vec<Fx>, active_set: &Vec<usize>) {
        self.base.compute_row(i, ki, active_set);
    }

    fn use_rows(&mut self, idxs: &Vec<usize>, active_set: &Vec<usize>, out: &mut Vec<Vec<Fx>>) {
        out.clear();
        let m = idxs.len();
        if self.cap == 0 {
            let mut r: usize = 0;
            while r < m
                invariant
                    r <= m,
                    m == idxs@.len(),
                    self == old(self),
                    self.inv(),
                    forall|p: int|
                        0 <= p < m ==> (#[trigger] idxs@[p] as int) < self.base.spec_size(),
                    valid_active(active_set@, self.base.spec_size()),
                    out@.len() == r,
                    forall|p: int| 0 <= p < r ==> (#[trigger] out@[p])@.len() == active_set@.len(),
                    forall|p: int, k: int|
                        0 <= p < r && 0 <= k < active_set@.len() ==> (#[trigger] out@[p]@[k])
                            == self.base.entry(idxs@[p] as int, active_set@[k] as int),
                decreases m - r,
            {
                let mut row: Vec<Fx> = Vec::new();
                self.base.compute_row(idxs[r], &mut row, active_set);
                out.push(row);
                r = r + 1;
            }
            return ;
        }
        let mut r: usize = 0;
        while r < m
            invariant
                r <= m,
                m == idxs@.len(),
                m <= self.cap,
                self.cap > 0,
                self.inv(),
                self.base == old(self).base,
                self.cap == old(self).cap,
                self.active == old(self).active,
                active_set@ == self.active@,
                forall|p: int| 0 <= p < m ==> (#[trigger] idxs@[p] as int) < self.base.spec_size(),
                valid_active(active_set@, self.base.spec_size()),
                out@.len() == r,
                forall|p: int| 0 <= p < r ==> (#[trigger] out@[p])@.len() == active_set@.len(),
                forall|p: int, k: int|
                    0 <= p < r && 0 <= k < active_set@.len() ==> (#[trigger] out@[p]@[k])
                        == self.base.entry(idxs@[p] as int, active_set@[k] as int),
            decreases m - r,
        {
            let idx = idxs[r];
            let ghost pre = *self;
            let hit = lru_get(&mut self.lru, idx);
            match hit {
                Some(pos) => {
                    proof {
                        let s = lru_entries(pre.lru);
                        let i = choose|i: int| 0 <= i < s.len() && (#[trigger] s[i]).0 == idx;
                        lemma_move_front(s, i);
                        let s2 = lru_entries(self.lru);
                        assert forall|k: int| 0 <= k < s2.len() implies s2[k] == s[
                            #[trigger] moved_src(i, k)
                        ] by {}
                        assert(self.row_fresh(idx as int, pos as int));
                    }
                    let row = copy_fx_row(&self.data[pos]);
                    out.push(row);
                },
                None => {
                    let pos: usize;
                    if self.data.len() < self.cap {
                        pos = self.data.len();
                        let mut fresh: Vec<Fx> = Vec::new();
                        self.base.compute_row(idx, &mut fresh, active_set);
                        self.data.push(fresh);
                    } else {
                        let (_evicted, p) = lru_remove_lru(&mut self.lru).unwrap();
                        pos = p;
                        let mut fresh: Vec<Fx> = Vec::new();
                        self.base.compute_row(idx, &mut fresh, active_set);
                        let ghost fresh_view = fresh@;
                        let _old_row = self.data.remove(pos);
                        self.data.insert(pos, fresh);
                        proof {
                            assert forall|q: int|
                                0 <= q < self.data@.len() implies self.data@[q] == pre.data@.update(
                                pos as int,
                                self.data@[pos as int],
                            )[q] by {
                                if q < pos {
                                } else if q == pos {
                                } else {
                                    assert(pre.data@.remove(pos as int)[q - 1] == pre.data@[q]);
                                }
                            }
                        }
                    }
                    lru_put(&mut self.lru, idx, pos);
                    let row = copy_fx_row(&self.data[pos]);
                    out.push(row);
                },
            }
            r = r + 1;
        }
    }

    fn restrict_active(&mut self, old_set: &Vec<usize>, new_set: &Vec<usize>) {
        let sub = find_common(old_set, new_set);
        let nrows = self.data.len();
        let mut t: usize = 0;
        while t < nrows
            invariant
                t <= nrows,
                nrows == self.data@.len(),
                self.data@.len() == old(self).data@.len(),
                self.base == old(self).base,
                self.cap == old(self).cap,
                self.lru == old(self).lru,
                old(self).inv(),
                old_set@ == old(self).active@,
                valid_active(old_set@, old(self).base.spec_size()),
                valid_active(new_set@, old(self).base.spec_size()),
                sub@.len() == new_set@.len(),
                forall|k: int|
                    0 <= k < new_set@.len() ==> (#[trigger] sub@[k] as int) < old_set@.len()
                        && old_set@[sub@[k] as int] == new_set@[k],
                forall|p: int|
                    t <= p < nrows ==> (#[trigger] self.data@[p]) == old(self).data@[p],
                forall|p: int|
                    0 <= p < t ==> (#[trigger] self.data@[p])@.len() == new_set@.len(),
                forall|p: int, k: int|
                    0 <= p < t && 0 <= k < new_set@.len() ==> (#[trigger] self.data@[p]@[k]) == old(
                        self,
                    ).data@[p]@[sub@[k] as int],
            decreases nrows - t,
        {
            let old_row = copy_fx_row(&self.data[t]);
            let mut new_row: Vec<Fx> = Vec::new();
            let msub = sub.len();
            let mut k: usize = 0;
            while k < msub
                invariant
                    k <= msub,
                    msub == sub@.len(),
                    old_row@.len() >= old_set@.len(),
                    old_row@ == old(self).data@[t as int]@,
                    t < nrows,
                    nrows == old(self).data@.len(),
                    old(self).inv(),
                    old_set@ == old(self).active@,
                    forall|q: int|
                        0 <= q < sub@.len() ==> (#[trigger] sub@[q] as int) < old_set@.len(),
                    new_row@.len() == k,
                    forall|q: int|
                        0 <= q < k ==> (#[trigger] new_row@[q]) == old_row@[sub@[q] as int],
                decreases msub - k,
            {
                new_row.push(old_row[sub[k]]);
                k = k + 1;
            }
            let ghost pre_data = self.data@;
            let _old_row = self.data.remove(t);
            self.data.insert(t, new_row);
            proof {
                assert forall|q: int|
                    0 <= q < self.data@.len() implies self.data@[q] == pre_data.update(
                    t as int,
                    self.data@[t as int],
                )[q] by {
                    if q < t {
                    } else if q == t {
                    } else {
                        assert(pre_data.remove(t as int)[q - 1] == pre_data[q]);
                    }
                }
            }
            t = t + 1;
        }
        self.active = Ghost(new_set@);
        proof {
            let s = lru_entries(self.lru);
            assert forall|i: int|
                0 <= i < s.len() implies self.row_fresh(
                (#[trigger] s[i]).0 as int,
                s[i].1 as int,
            ) by {
                let key = s[i].0 as int;
                let slot = s[i].1 as int;
                assert(old(self).row_fresh(key, slot));
                assert forall|k: int|
                    0 <= k < new_set@.len() implies self.data@[slot]@[k] == self.base.entry(
                    key,
                    new_set@[k] as int,
                ) by {
                    assert(self.data@[slot]@[k] == old(self).data@[slot]@[sub@[k] as int]);
                    assert(old(self).data@[slot]@[sub@[k] as int] == old(self).base.entry(
                        key,
                        old_set@[sub@[k] as int] as int,
                    ));
                }
            }
        }
    }

    fn set_active(&mut self, old_set: &Vec<usize>, new_set: &Vec<usize>) {
        if self.cap > 0 {
            self.lru = lru_new(self.cap);
        }
        self.data = Vec::new();
        self.active = Ghost(new_set@);
    }
}

} // verus!
