//! Training problem base.
use vstd::prelude::*;

use crate::fixed::{clip, fx_prod, fx_quot, Fx, FX_ONE};
use crate::kernel::{valid_active, Kernel};
use crate::problem::Params;
use crate::status::{fx_zeros, Status};

verus! {

/// Base for the definition of a training problem.
///
/// The mathematical data of a problem (size, per-variable sign and the
/// parameters) is given by spec functions; the executable methods promise
/// to return exactly those values.
pub trait ProblemBase: Sized {
    /// Number of variables of the optimization problem.
    spec fn spec_size(&self) -> int;

    /// The problem parameters.
    spec fn spec_params(&self) -> Params;

    /// Sign of the ith variable: -1, 0 or +1.
    spec fn spec_sign(&self, i: int) -> int;

    /// Well-formedness of the problem data.
    spec fn wf(&self) -> bool;

    /// A well-formed problem has well-formed parameters, a nonnegative
    /// size and signs in {-1, 0, +1}.
    proof fn wf_facts(&self)
        requires
            self.wf(),
        ensures
            self.spec_params().wf(),
            self.spec_size() >= 0,
            forall|i: int|
                0 <= i < self.spec_size() ==> -1 <= #[trigger] self.spec_sign(i) <= 1,
    ;

    /// Returns the size of the optimization problem.
    fn size(&self) -> (n: usize)
        requires
            self.wf(),
        ensures
            n as int == self.spec_size(),
    ;

    /// Returns the sign of the ith variable as a scalar.
    fn sign(&self, i: usize) -> (s: Fx)
        requires
            self.wf(),
            (i as int) < self.spec_size(),
        ensures
            s.v == self.spec_sign(i as int) * (FX_ONE as int),
    ;

    /// Returns the parameters of the training problem.
    fn params(&self) -> (p: Params)
        requires
            self.wf(),
        ensures
            p == self.spec_params(),
    ;

    /// Returns the regularization parameter lambda.
    fn lambda(&self) -> (r: Fx)
        requires
            self.wf(),
        ensures
            r == self.spec_params().lambda,
            r.v >= 1,
    {
        proof {
            self.wf_facts();
        }
        self.params().lambda
    }

    /// Returns the smoothing parameter of the max function.
    fn smoothing(&self) -> (r: Fx)
        requires
            self.wf(),
        ensures
            r == self.spec_params().smoothing,
            r.v >= 0,
    {
        proof {
            self.wf_facts();
        }
        self.params().smoothing
    }

    /// Returns the numerical floor used in descent estimations.
    fn regularization(&self) -> (r: Fx)
        requires
            self.wf(),
        ensures
            r == self.spec_params().regularization,
            r.v >= 1,
    {
        proof {
            self.wf_facts();
        }
        self.params().regularization
    }

    /// Returns the bound on the 1-norm of the coefficient vector.
    fn max_asum(&self) -> (r: Fx)
        requires
            self.wf(),
        ensures
            r == self.spec_params().max_asum,
            r.v >= 1,
    {
        proof {
            self.wf_facts();
        }
        self.params().max_asum
    }

    /// Checks whether a bound on the 1-norm of the coefficients is set.
    fn has_max_asum(&self) -> (r: bool)
        requires
            self.wf(),
        ensures
            r == (self.spec_params().max_asum.v < i64::MAX),
    {
        self.params().max_asum.v < i64::MAX
    }

    /// Checks for optimality: `lambda * violation < tol`.
    fn is_optimal(&self, status: &Status, tol: Fx) -> (r: bool)
        requires
            self.wf(),
        ensures
            r == (fx_prod(self.spec_params().lambda.v as int, status.violation.v as int) < tol.v
                as int),
    {
        self.lambda().mul(status.violation).v < tol.v
    }
}

/// Training problem providing labels for each sample.
pub trait LabelProblem: ProblemBase {
    /// Type of the labels.
    type T;

    /// The label of the ith sample.
    spec fn spec_label(&self, i: int) -> Self::T;

    /// Gets the label of the ith sample.
    fn label(&self, i: usize) -> (y: Self::T)
        requires
            self.wf(),
            (i as int) < self.spec_size(),
        ensures
            y == self.spec_label(i as int),
    ;
}

/// The raw value of the kernel-coefficient product at column `col`,
/// summed over the first `upto` coefficients: every nonzero `a[i]`
/// contributes `(a[i] / lambda) * K[i, col]`, added with saturation in
/// increasing order of `i`.
pub open spec fn ka_col_sum<K: Kernel>(
    kernel: &K,
    a: Seq<Fx>,
    lambda: Fx,
    col: int,
    upto: int,
) -> int
    decreases upto,
{
    if upto <= 0 {
        0
    } else {
        let prev = ka_col_sum(kernel, a, lambda, col, upto - 1);
        if a[upto - 1].v != 0 {
            clip(
                prev + fx_prod(
                    fx_quot(a[upto - 1].v as int, lambda.v as int),
                    kernel.entry(upto - 1, col).v as int,
                ),
            )
        } else {
            prev
        }
    }
}

/// Two kernels with the same entries give the same column sums.
pub proof fn lemma_ka_col_sum_congruent<K: Kernel>(
    k1: &K,
    k2: &K,
    a: Seq<Fx>,
    lambda: Fx,
    col: int,
    upto: int,
)
    requires
        forall|i: int, j: int| k1.entry(i, j) == k2.entry(i, j),
    ensures
        ka_col_sum(k1, a, lambda, col, upto) == ka_col_sum(k2, a, lambda, col, upto),
    decreases upto,
{
    if upto > 0 {
        lemma_ka_col_sum_congruent(k1, k2, a, lambda, col, upto - 1);
    }
}

/// Recomputes the product of kernel matrix and coefficient vector: sets
/// `ka` to zero and then adds, for every nonzero coefficient, the scaled
/// kernel row restricted to the active set.
pub fn recompute_kernel_product<P: ProblemBase, K: Kernel>(
    problem: &P,
    kernel: &mut K,
    status: &mut Status,
    active_set: &Vec<usize>,
)
    requires
        problem.wf(),
        old(kernel).wf(),
        old(kernel).spec_size() == problem.spec_size(),
        old(kernel).active_ok(active_set@),
        old(kernel).spec_max_rows() >= 1,
        valid_active(active_set@, problem.spec_size()),
        old(status).a@.len() == problem.spec_size(),
        old(status).ka@.len() == problem.spec_size(),
    ensures
        final(kernel).wf(),
        final(kernel).spec_size() == old(kernel).spec_size(),
        forall|i: int, j: int| final(kernel).entry(i, j) == old(kernel).entry(i, j),
        final(kernel).active_ok(active_set@),
        final(kernel).spec_max_rows() == old(kernel).spec_max_rows(),
        final(status).a == old(status).a,
        final(status).b == old(status).b,
        final(status).c == old(status).c,
        final(status).asum == old(status).asum,
        final(status).violation == old(status).violation,
        final(status).value == old(status).value,
        final(status).g == old(status).g,
        final(status).code == old(status).code,
        final(status).steps == old(status).steps,
        final(status).time == old(status).time,
        final(status).ka@.len() == old(status).ka@.len(),
        forall|k: int|
            0 <= k < active_set@.len() ==> (#[trigger] final(status).ka@[active_set@[k] as int]).v
                == ka_col_sum(
                old(kernel),
                old(status).a@,
                problem.spec_params().lambda,
                active_set@[k] as int,
                problem.spec_size(),
            ),
        forall|j: int|
            #![trigger final(status).ka@[j]]
            0 <= j < problem.spec_size() && (forall|k: int|
                0 <= k < active_set@.len() ==> (#[trigger] active_set@[k] as int) != j)
                ==> final(status).ka@[j].v == 0,
{
    proof {
        problem.wf_facts();
    }
    let n = problem.size();
    let lambda = problem.lambda();
    status.ka = fx_zeros(n);
    let m = active_set.len();
    let mut i: usize = 0;
    while i < n
        invariant
            i <= n,
            n as int == problem.spec_size(),
            problem.wf(),
            lambda == problem.spec_params().lambda,
            lambda.v >= 1,
            kernel.wf(),
            kernel.spec_size() == problem.spec_size(),
            forall|p: int, q: int| kernel.entry(p, q) == old(kernel).entry(p, q),
            kernel.active_ok(active_set@),
            kernel.spec_max_rows() == old(kernel).spec_max_rows(),
            kernel.spec_max_rows() >= 1,
            valid_active(active_set@, problem.spec_size()),
            m == active_set@.len(),
            status.a == old(status).a,
            status.a@.len() == n,
            status.b == old(status).b,
            status.c == old(status).c,
            status.asum == old(status).asum,
            status.violation == old(status).violation,
            status.value == old(status).value,
            status.g == old(status).g,
            status.code == old(status).code,
            status.steps == old(status).steps,
            status.time == old(status).time,
            status.ka@.len() == n,
            forall|k: int|
                0 <= k < m ==> (#[trigger] status.ka@[active_set@[k] as int]).v == ka_col_sum(
                    old(kernel),
                    old(status).a@,
                    problem.spec_params().lambda,
                    active_set@[k] as int,
                    i as int,
                ),
            forall|j: int|
                #![trigger status.ka@[j]]
                0 <= j < n && (forall|k: int|
                    0 <= k < m ==> (#[trigger] active_set@[k] as int) != j) ==> status.ka@[j].v
                    == 0,
        decreases n - i,
    {
        if status.a[i].v != 0 {
            let mut idxs: Vec<usize> = Vec::new();
            idxs.push(i);
            let mut rows: Vec<Vec<Fx>> = Vec::new();
            kernel.use_rows(&idxs, active_set, &mut rows);
            let w = status.a[i].div(lambda);
            let mut k: usize = 0;
            while k < m
                invariant
                    k <= m,
                    i < n,
                    n as int == problem.spec_size(),
                    problem.wf(),
                    lambda == problem.spec_params().lambda,
                    lambda.v >= 1,
                    kernel.wf(),
                    kernel.spec_size() == problem.spec_size(),
                    forall|p: int, q: int| kernel.entry(p, q) == old(kernel).entry(p, q),
                    kernel.active_ok(active_set@),
                    kernel.spec_max_rows() == old(kernel).spec_max_rows(),
                    kernel.spec_max_rows() >= 1,
                    valid_active(active_set@, problem.spec_size()),
                    m == active_set@.len(),
                    status.a == old(status).a,
                    status.a@.len() == n,
                    status.a@[i as int].v != 0,
                    w.v == fx_quot(old(status).a@[i as int].v as int, lambda.v as int),
                    rows@.len() == 1,
                    rows@[0]@.len() == m,
                    forall|q: int|
                        0 <= q < m ==> rows@[0]@[q] == old(kernel).entry(
                            i as int,
                            active_set@[q] as int,
                        ),
                    status.b == old(status).b,
                    status.c == old(status).c,
                    status.asum == old(status).asum,
                    status.violation == old(status).violation,
                    status.value == old(status).value,
                    status.g == old(status).g,
                    status.code == old(status).code,
                    status.steps == old(status).steps,
                    status.time == old(status).time,
                    status.ka@.len() == n,
                    forall|q: int|
                        0 <= q < k ==> (#[trigger] status.ka@[active_set@[q] as int]).v
                            == ka_col_sum(
                            old(kernel),
                            old(status).a@,
                            problem.spec_params().lambda,
                            active_set@[q] as int,
                            i as int + 1,
                        ),
                    forall|q: int|
                        k <= q < m ==> (#[trigger] status.ka@[active_set@[q] as int]).v
                            == ka_col_sum(
                            old(kernel),
                            old(status).a@,
                            problem.spec_params().lambda,
                            active_set@[q] as int,
                            i as int,
                        ),
                    forall|j: int|
                        #![trigger status.ka@[j]]
                        0 <= j < n && (forall|k2: int|
                            0 <= k2 < m ==> (#[trigger] active_set@[k2] as int) != j)
                            ==> status.ka@[j].v == 0,
                decreases m - k,
            {
                let col = active_set[k];
                let cur = status.ka[col];
                status.ka[col] = cur.add(w.mul(rows[0][k]));
                k = k + 1;
            }
        }
        i = i + 1;
    }
}

} // verus!
