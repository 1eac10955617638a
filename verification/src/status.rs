//! Optimization state.
use vstd::prelude::*;

use crate::fixed::Fx;

verus! {

/// Possible outcomes of an optimization routine.
#[derive(Clone, Copy, Debug, PartialEq, Eq, Structural)]
pub enum StatusCode {
    /// Optimization not started.
    Initialized,
    /// Solution found (up to the configured tolerance).
    Optimal,
    /// Maximum number of steps reached.
    MaxSteps,
    /// Time limit reached.
    TimeLimit,
    /// Stopped by the callback function.
    Callback,
    /// Step not possible.
    NoStepPossible,
}

/// Information about the current point and state of an optimization routine.
#[derive(Clone, Debug)]
pub struct Status {
    /// Vector of coefficients (typically called alpha in the literature).
    pub a: Vec<Fx>,
    /// Offset (bias) of the decision function.
    pub b: Fx,
    /// Additional shift of the decision function, used with a 1-norm budget.
    pub c: Fx,
    /// Signed sum of the coefficient vector.
    pub asum: Fx,
    /// Violation of the optimality conditions.
    pub violation: Fx,
    /// Objective function value.
    pub value: Fx,
    /// Product of kernel matrix and coefficient vector, scaled by 1/lambda.
    pub ka: Vec<Fx>,
    /// Values of first-order derivatives.
    pub g: Vec<Fx>,
    /// Current outcome tag.
    pub code: StatusCode,
    /// Number of conducted steps.
    pub steps: usize,
    /// Elapsed time in microseconds.
    pub time: u64,
}

/// A vector of `n` zero scalars.
pub fn fx_zeros(n: usize) -> (r: Vec<Fx>)
    ensures
        r@.len() == n,
        forall|i: int| 0 <= i < n ==> r@[i].v == 0,
{
    let mut r: Vec<Fx> = Vec::new();
    let mut k: usize = 0;
    while k < n
        invariant
            k <= n,
            r@.len() == k,
            forall|i: int| 0 <= i < k ==> r@[i].v == 0,
        decreases n - k,
    {
        r.push(Fx { v: 0 });
        k = k + 1;
    }
    r
}

/// The positions (in order) at which a coefficient vector is nonzero.
pub open spec fn support(s: Seq<Fx>) -> Seq<int>
    decreases s.len(),
{
    if s.len() == 0 {
        seq![]
    } else {
        let pre = support(s.drop_last());
        if s.last().v != 0 {
            pre.push(s.len() - 1)
        } else {
            pre
        }
    }
}

/// Every member of `support(s)` is a position of `s`, in increasing order.
pub proof fn lemma_support_bounds(s: Seq<Fx>)
    ensures
        support(s).len() <= s.len(),
        forall|k: int| 0 <= k < support(s).len() ==> 0 <= #[trigger] support(s)[k] < s.len(),
        forall|k: int| 0 <= k < support(s).len() ==> s[support(s)[k]].v != 0,
    decreases s.len(),
{
    if s.len() > 0 {
        lemma_support_bounds(s.drop_last());
        assert(forall|k: int|
            0 <= k < support(s.drop_last()).len() ==> s.drop_last()[#[trigger] support(
                s.drop_last(),
            )[k]] == s[support(s.drop_last())[k]]);
    }
}

impl Status {
    /// All three vectors of this status have length `n`.
    pub open spec fn sized(self, n: int) -> bool {
        self.a@.len() == n && self.ka@.len() == n && self.g@.len() == n
    }

    /// Create a [`Status`] with the default initialization for `n` samples.
    pub fn new(n: usize) -> (r: Status)
        ensures
            r.sized(n as int),
            forall|i: int| 0 <= i < n ==> r.a@[i].v == 0,
            forall|i: int| 0 <= i < n ==> r.ka@[i].v == 0,
            forall|i: int| 0 <= i < n ==> r.g@[i].v == 0,
            r.b.v == 0 && r.c.v == 0 && r.asum.v == 0 && r.value.v == 0,
            r.violation.v == i64::MAX,
            r.code == StatusCode::Initialized,
            r.steps == 0 && r.time == 0,
    {
        Status {
            a: fx_zeros(n),
            b: Fx { v: 0 },
            c: Fx { v: 0 },
            asum: Fx { v: 0 },
            violation: Fx { v: i64::MAX },
            value: Fx { v: 0 },
            ka: fx_zeros(n),
            g: fx_zeros(n),
            code: StatusCode::Initialized,
            steps: 0,
            time: 0,
        }
    }

    /// Determine the support vectors and reduce the training set: the new
    /// status and data keep exactly the positions with a nonzero coefficient.
    pub fn find_support<T: Copy>(&self, data: &Vec<T>) -> (r: (Status, Vec<T>))
        requires
            data@.len() == self.a@.len(),
            self.ka@.len() == self.a@.len(),
            self.g@.len() == self.a@.len(),
        ensures
            r.0.sized(support(self.a@).len() as int),
            r.1@.len() == support(self.a@).len(),
            forall|k: int|
                0 <= k < support(self.a@).len() ==> r.0.a@[k] == self.a@[#[trigger] support(
                    self.a@,
                )[k]],
            forall|k: int|
                0 <= k < support(self.a@).len() ==> r.0.ka@[k] == self.ka@[#[trigger] support(
                    self.a@,
                )[k]],
            forall|k: int|
                0 <= k < support(self.a@).len() ==> r.0.g@[k] == self.g@[#[trigger] support(
                    self.a@,
                )[k]],
            forall|k: int|
                0 <= k < support(self.a@).len() ==> r.1@[k] == data@[#[trigger] support(
                    self.a@,
                )[k]],
            r.0.b == self.b && r.0.c == self.c,
            r.0.asum.v == 0 && r.0.value.v == 0 && r.0.violation.v == i64::MAX,
            r.0.code == StatusCode::Initialized && r.0.steps == 0 && r.0.time == 0,
    {
        let n = self.a.len();
        let mut new_a: Vec<Fx> = Vec::new();
        let mut new_ka: Vec<Fx> = Vec::new();
        let mut new_g: Vec<Fx> = Vec::new();
        let mut new_data: Vec<T> = Vec::new();
        let mut idx: usize = 0;
        while idx < n
            invariant
                idx <= n,
                n == self.a@.len(),
                data@.len() == n && self.ka@.len() == n && self.g@.len() == n,
                new_a@.len() == support(self.a@.take(idx as int)).len(),
                new_ka@.len() == new_a@.len() && new_g@.len() == new_a@.len() && new_data@.len()
                    == new_a@.len(),
                forall|k: int|
                    0 <= k < new_a@.len() ==> new_a@[k] == self.a@[#[trigger] support(
                        self.a@.take(idx as int),
                    )[k]],
                forall|k: int|
                    0 <= k < new_a@.len() ==> new_ka@[k] == self.ka@[#[trigger] support(
                        self.a@.take(idx as int),
                    )[k]],
                forall|k: int|
                    0 <= k < new_a@.len() ==> new_g@[k] == self.g@[#[trigger] support(
                        self.a@.take(idx as int),
                    )[k]],
                forall|k: int|
                    0 <= k < new_a@.len() ==> new_data@[k] == data@[#[trigger] support(
                        self.a@.take(idx as int),
                    )[k]],
            decreases n - idx,
        {
            proof {
                lemma_support_bounds(self.a@.take(idx as int));
                assert(self.a@.take(idx as int + 1).drop_last() =~= self.a@.take(idx as int));
            }
            if self.a[idx].v != 0 {
                new_a.push(self.a[idx]);
                new_ka.push(self.ka[idx]);
                new_g.push(self.g[idx]);
                new_data.push(data[idx]);
            }
            idx = idx + 1;
        }
        proof {
            assert(self.a@.take(n as int) =~= self.a@);
            lemma_support_bounds(self.a@);
        }
        let size_support = new_a.len();
        let mut new_status = Status::new(size_support);
        new_status.a = new_a;
        new_status.ka = new_ka;
        new_status.g = new_g;
        new_status.b = self.b;
        new_status.c = self.c;
        (new_status, new_data)
    }
}

} // verus!
