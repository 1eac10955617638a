//! Direction computation of the Newton engine.
use vstd::prelude::*;

use crate::fixed::{clip, fx_prod, fx_quot, iabs, Fx};
use crate::kernel::{bounded_idxs, Kernel};
use crate::newton::status_extended::StatusExtended;
use crate::problem::PrimalProblem;

verus! {

/// Which kind of direction was produced.
#[derive(Clone, Copy, Debug, PartialEq, Eq, Structural)]
pub enum DirectionType {
    /// A plain gradient direction.
    Gradient,
    /// A Newton direction from the reduced linear system.
    Newton,
    /// No direction could be produced.
    NoStep,
}

/// Computes the gradient direction: `dir.a[i] = a[i] + g[i]` for every
/// variable and `dir.b = sums.g / lambda`.
pub fn gradient<P: PrimalProblem, K: Kernel>(
    problem: &P,
    _kernel: &mut K,
    status_ext: &mut StatusExtended,
)
    requires
        problem.wf(),
        old(status_ext).status.a@.len() == problem.spec_size(),
        old(status_ext).status.g@.len() == problem.spec_size(),
        old(status_ext).dir.a@.len() == problem.spec_size(),
    ensures
        *final(_kernel) == *old(_kernel),
        final(status_ext).status == old(status_ext).status,
        final(status_ext).h == old(status_ext).h,
        final(status_ext).ki == old(status_ext).ki,
        final(status_ext).active == old(status_ext).active,
        final(status_ext).sums == old(status_ext).sums,
        final(status_ext).dir.c == old(status_ext).dir.c,
        final(status_ext).dir.a@.len() == problem.spec_size(),
        forall|i: int|
            0 <= i < problem.spec_size() ==> (#[trigger] final(status_ext).dir.a@[i]).v == clip(
                old(status_ext).status.a@[i].v + old(status_ext).status.g@[i].v,
            ),
        final(status_ext).dir.b.v == fx_quot(
            old(status_ext).sums.g.v as int,
            problem.spec_params().lambda.v as int,
        ),
{
    proof {
        problem.wf_facts();
    }
    let n = problem.size();
    let mut i: usize = 0;
    while i < n
        invariant
            i <= n,
            n as int == problem.spec_size(),
            problem.wf(),
            status_ext.status == old(status_ext).status,
            status_ext.h == old(status_ext).h,
            status_ext.ki == old(status_ext).ki,
            status_ext.active == old(status_ext).active,
            status_ext.sums == old(status_ext).sums,
            status_ext.dir.c == old(status_ext).dir.c,
            status_ext.dir.b == old(status_ext).dir.b,
            status_ext.status.a@.len() == n,
            status_ext.status.g@.len() == n,
            status_ext.dir.a@.len() == n,
            forall|q: int|
                0 <= q < i ==> (#[trigger] status_ext.dir.a@[q]).v == clip(
                    old(status_ext).status.a@[q].v + old(status_ext).status.g@[q].v,
                ),
        decreases n - i,
    {
        status_ext.dir.a[i] = status_ext.status.a[i].add(status_ext.status.g[i]);
        i = i + 1;
    }
    status_ext.dir.b = status_ext.sums.g.div(problem.lambda());
}

/// The rows of a vector of vectors, as a sequence of sequences.
pub open spec fn mat_view(v: Seq<Vec<Fx>>) -> Seq<Seq<Fx>> {
    Seq::new(v.len(), |i: int| v[i]@)
}

/// Position of the pivot for column `col` among the first `upto` rows:
/// the first row at or below `col` whose entry in the column has the
/// largest saturated magnitude.
pub open spec fn pivot_upto(a: Seq<Seq<Fx>>, col: int, upto: int) -> int
    decreases upto - col,
{
    if upto <= col + 1 {
        col
    } else {
        let p = pivot_upto(a, col, upto - 1);
        if clip(iabs(a[upto - 1][col].v as int)) > clip(iabs(a[p][col].v as int)) {
            upto - 1
        } else {
            p
        }
    }
}

/// Row `r` after eliminating column `col` of the pivoted matrix `a1`:
/// the row minus `a1[r][col] / a1[col][col]` times the pivot row, in
/// fixed point.
pub open spec fn elim_row(a1: Seq<Seq<Fx>>, col: int, r: int) -> Seq<Fx> {
    Seq::new(
        a1[r].len(),
        |c: int|
            (Fx {
                v: clip(
                    a1[r][c].v - fx_prod(
                        fx_quot(a1[r][col].v as int, a1[col][col].v as int),
                        a1[col][c].v as int,
                    ),
                ) as i64,
            }),
    )
}

/// Component `r` of right-hand side `j` after eliminating column `col`:
/// the component minus the same factor times the pivot component.
pub open spec fn elim_bval(a1: Seq<Seq<Fx>>, b1: Seq<Seq<Fx>>, col: int, j: int, r: int) -> Fx {
    Fx {
        v: clip(
            b1[j][r].v - fx_prod(
                fx_quot(a1[r][col].v as int, a1[col][col].v as int),
                b1[j][col].v as int,
            ),
        ) as i64,
    }
}

/// One column step of the forward elimination: pivot search over the
/// rows at or below `col`, swap of the pivot row (and of the matching
/// right-hand components), and elimination of the rows below.  `None`
/// when the best pivot of the column vanishes.
pub open spec fn elim_col(a: Seq<Seq<Fx>>, b: Seq<Seq<Fx>>, col: int) -> Option<
    (Seq<Seq<Fx>>, Seq<Seq<Fx>>),
> {
    let m = a.len() as int;
    let piv = pivot_upto(a, col, m);
    if a[piv][col].v == 0 {
        None
    } else {
        let a1 = a.update(col, a[piv]).update(piv, a[col]);
        let b1 = Seq::new(
            b.len(),
            |j: int| b[j].update(col, b[j][piv]).update(piv, b[j][col]),
        );
        let a2 = Seq::new(
            a1.len(),
            |r: int|
                if col < r {
                    elim_row(a1, col, r)
                } else {
                    a1[r]
                },
        );
        let b2 = Seq::new(
            b1.len(),
            |j: int|
                Seq::new(
                    b1[j].len(),
                    |r: int|
                        if col < r {
                            elim_bval(a1, b1, col, j, r)
                        } else {
                            b1[j][r]
                        },
                ),
        );
        Some((a2, b2))
    }
}

/// The `m` by `m` system after forward elimination from column `col`
/// on, or `None` when some column step fails.
pub open spec fn gauss(m: int, a: Seq<Seq<Fx>>, b: Seq<Seq<Fx>>, col: int) -> Option<
    (Seq<Seq<Fx>>, Seq<Seq<Fx>>),
>
    decreases m - col,
{
    if col >= m {
        Some((a, b))
    } else {
        match elim_col(a, b, col) {
            None => None,
            Some(ab) => gauss(m, ab.0, ab.1, col + 1),
        }
    }
}

/// Partial back-substitution sum of `row`: the right-hand value `init`
/// minus the terms of the already solved suffix `rest` (the values of
/// the rows after `row`), folded over columns `row + 1` up to `c`.
pub open spec fn back_sum(a: Seq<Seq<Fx>>, rest: Seq<Fx>, row: int, init: Fx, c: int) -> int
    decreases c - row,
{
    if c <= row + 1 {
        init.v as int
    } else {
        clip(
            back_sum(a, rest, row, init, c - 1) - fx_prod(
                a[row][c - 1].v as int,
                rest[c - 2 - row].v as int,
            ),
        )
    }
}

/// The values of the last `k` variables of the triangular system
/// `(a, brow)`, solved bottom-up by back substitution.
pub open spec fn back_vec(a: Seq<Seq<Fx>>, brow: Seq<Fx>, k: int) -> Seq<Fx>
    decreases k,
{
    let m = a.len() as int;
    if k <= 0 {
        Seq::empty()
    } else {
        let rest = back_vec(a, brow, k - 1);
        let row = m - k;
        let s = back_sum(a, rest, row, brow[row], m);
        seq![(Fx { v: fx_quot(s, a[row][row].v as int) as i64 })] + rest
    }
}

/// [`back_vec`] has one value per solved variable.
pub proof fn lemma_back_vec_len(a: Seq<Seq<Fx>>, brow: Seq<Fx>, k: int)
    ensures
        back_vec(a, brow, k).len() == if k <= 0 {
            0int
        } else {
            k
        },
    decreases k,
{
    if k > 0 {
        lemma_back_vec_len(a, brow, k - 1);
    }
}

/// Solves the square linear system with several right-hand sides by
/// Gaussian elimination with partial pivoting, in fixed-point
/// arithmetic.  Succeeds exactly when the forward elimination [`gauss`]
/// does, and then returns, for each right-hand side, the
/// back-substitution values [`back_vec`] of the eliminated system; it
/// returns nothing when a pivot vanishes (a degenerate system).
pub fn solve_lin(mat: &Vec<Vec<Fx>>, rhs: &Vec<Vec<Fx>>) -> (r: Option<Vec<Vec<Fx>>>)
    requires
        forall|i: int| 0 <= i < mat@.len() ==> (#[trigger] mat@[i])@.len() == mat@.len(),
        forall|j: int| 0 <= j < rhs@.len() ==> (#[trigger] rhs@[j])@.len() == mat@.len(),
    ensures
        r is Some <==> gauss(mat@.len() as int, mat_view(mat@), mat_view(rhs@), 0) is Some,
        r matches Some(sols) ==> sols@.len() == rhs@.len() && (forall|j: int|
            0 <= j < rhs@.len() ==> (#[trigger] sols@[j])@.len() == mat@.len()),
        r matches Some(sols) ==> (forall|j: int|
            0 <= j < rhs@.len() ==> (#[trigger] sols@[j])@ == back_vec(
                gauss(mat@.len() as int, mat_view(mat@), mat_view(rhs@), 0).unwrap().0,
                gauss(mat@.len() as int, mat_view(mat@), mat_view(rhs@), 0).unwrap().1[j],
                mat@.len() as int,
            )),
{
    let m = mat.len();
    let k = rhs.len();
    // working copies
    let mut a: Vec<Vec<Fx>> = Vec::new();
    let mut i: usize = 0;
    while i < m
        invariant
            i <= m,
            m == mat@.len(),
            forall|p: int| 0 <= p < m ==> (#[trigger] mat@[p])@.len() == m,
            a@.len() == i,
            forall|p: int| 0 <= p < i ==> (#[trigger] a@[p])@.len() == m,
            forall|p: int| 0 <= p < i ==> (#[trigger] a@[p])@ == mat@[p]@,
        decreases m - i,
    {
        let mut row: Vec<Fx> = Vec::new();
        let mut j: usize = 0;
        while j < m
            invariant
                j <= m,
                i < m,
                m == mat@.len(),
                forall|p: int| 0 <= p < m ==> (#[trigger] mat@[p])@.len() == m,
                row@.len() == j,
                forall|q: int| 0 <= q < j ==> row@[q] == mat@[i as int]@[q],
            decreases m - j,
        {
            row.push(mat[i][j]);
            j = j + 1;
        }
        proof {
            assert(row@ =~= mat@[i as int]@);
        }
        a.push(row);
        i = i + 1;
    }
    let mut b: Vec<Vec<Fx>> = Vec::new();
    let mut j: usize = 0;
    while j < k
        invariant
            j <= k,
            k == rhs@.len(),
            m == mat@.len(),
            forall|p: int| 0 <= p < k ==> (#[trigger] rhs@[p])@.len() == m,
            b@.len() == j,
            forall|p: int| 0 <= p < j ==> (#[trigger] b@[p])@.len() == m,
            forall|p: int| 0 <= p < j ==> (#[trigger] b@[p])@ == rhs@[p]@,
        decreases k - j,
    {
        let mut row: Vec<Fx> = Vec::new();
        let mut q: usize = 0;
        while q < m
            invariant
                q <= m,
                j < k,
                k == rhs@.len(),
                m == mat@.len(),
                forall|p: int| 0 <= p < k ==> (#[trigger] rhs@[p])@.len() == m,
                row@.len() == q,
                forall|q2: int| 0 <= q2 < q ==> row@[q2] == rhs@[j as int]@[q2],
            decreases m - q,
        {
            row.push(rhs[j][q]);
            q = q + 1;
        }
        proof {
            assert(row@ =~= rhs@[j as int]@);
        }
        b.push(row);
        j = j + 1;
    }
    proof {
        assert(mat_view(a@) =~~= mat_view(mat@));
        assert(mat_view(b@) =~~= mat_view(rhs@));
    }
    // forward elimination with partial pivoting
    let mut col: usize = 0;
    while col < m
        invariant
            col <= m,
            m == mat@.len(),
            k == rhs@.len(),
            a@.len() == m,
            forall|p: int| 0 <= p < m ==> (#[trigger] a@[p])@.len() == m,
            b@.len() == k,
            forall|p: int| 0 <= p < k ==> (#[trigger] b@[p])@.len() == m,
            forall|c: int| 0 <= c < col ==> (#[trigger] a@[c]@[c]).v != 0,
            gauss(mat@.len() as int, mat_view(mat@), mat_view(rhs@), 0) == gauss(
                m as int,
                mat_view(a@),
                mat_view(b@),
                col as int,
            ),
        decreases m - col,
    {
        let ghost a_pre = mat_view(a@);
        let ghost b_pre = mat_view(b@);
        // find the largest pivot in this column
        let mut piv = col;
        let mut best = a[col][col].abs();
        let mut r2 = col + 1;
        while r2 < m
            invariant
                col < m,
                col + 1 <= r2 <= m,
                col <= piv < m,
                m == mat@.len(),
                a@.len() == m,
                forall|p: int| 0 <= p < m ==> (#[trigger] a@[p])@.len() == m,
                best.v == clip(crate::fixed::iabs(a@[piv as int]@[col as int].v as int)),
                a_pre == mat_view(a@),
                piv as int == pivot_upto(a_pre, col as int, r2 as int),
            decreases m - r2,
        {
            let cand = a[r2][col].abs();
            if cand.v > best.v {
                piv = r2;
                best = cand;
            }
            r2 = r2 + 1;
        }
        if a[piv][col].v == 0 {
            proof {
                assert(elim_col(a_pre, b_pre, col as int) is None);
                assert(gauss(m as int, a_pre, b_pre, col as int) is None);
            }
            return None;
        }
        let ghost a1 = a_pre.update(col as int, a_pre[piv as int]).update(
            piv as int,
            a_pre[col as int],
        );
        let ghost b1 = Seq::new(
            b_pre.len(),
            |j: int|
                b_pre[j].update(col as int, b_pre[j][piv as int]).update(
                    piv as int,
                    b_pre[j][col as int],
                ),
        );
        // swap rows piv and col
        if piv != col {
            let row_p = copy_row(&a[piv]);
            let row_c = copy_row(&a[col]);
            a[col] = row_p;
            a[piv] = row_c;
            let mut j2: usize = 0;
            while j2 < k
                invariant
                    j2 <= k,
                    k == rhs@.len(),
                    m == mat@.len(),
                    col < m,
                    piv < m,
                    b@.len() == k,
                    forall|p: int| 0 <= p < k ==> (#[trigger] b@[p])@.len() == m,
                    b1 == Seq::new(
                        b_pre.len(),
                        |j: int|
                            b_pre[j].update(col as int, b_pre[j][piv as int]).update(
                                piv as int,
                                b_pre[j][col as int],
                            ),
                    ),
                    b_pre.len() == k,
                    forall|p: int| j2 <= p < k ==> (#[trigger] b@[p])@ == b_pre[p],
                    forall|p: int| 0 <= p < j2 ==> (#[trigger] b@[p])@ == b1[p],
                decreases k - j2,
            {
                let t1 = b[j2][piv];
                let t2 = b[j2][col];
                b[j2][col] = t1;
                b[j2][piv] = t2;
                proof {
                    assert(b@[j2 as int]@ =~= b1[j2 as int]);
                }
                j2 = j2 + 1;
            }
            proof {
                assert(mat_view(a@) =~~= a1);
                assert(mat_view(b@) =~~= b1);
            }
        } else {
            proof {
                assert(mat_view(a@) =~~= a1);
                assert forall|j: int| 0 <= j < k implies mat_view(b@)[j] =~= b1[j] by {}
                assert(mat_view(b@) =~~= b1);
            }
        }
        // eliminate below
        let prow = copy_row(&a[col]);
        let pivot = prow[col];
        if pivot.v == 0 {
            proof {
                assert(a1[col as int][col as int] == a_pre[piv as int][col as int]);
                assert(false);
            }
            return None;
        }
        let mut r3 = col + 1;
        while r3 < m
            invariant
                col < m,
                col + 1 <= r3 <= m,
                m == mat@.len(),
                k == rhs@.len(),
                a@.len() == m,
                forall|p: int| 0 <= p < m ==> (#[trigger] a@[p])@.len() == m,
                b@.len() == k,
                forall|p: int| 0 <= p < k ==> (#[trigger] b@[p])@.len() == m,
                prow@.len() == m,
                pivot.v != 0,
                forall|c: int| 0 <= c <= col ==> (#[trigger] a@[c]@[c]).v != 0,
                a@[col as int]@[col as int] == pivot,
                a1.len() == m,
                forall|p: int| 0 <= p < m ==> (#[trigger] a1[p]).len() == m,
                b1.len() == k,
                forall|p: int| 0 <= p < k ==> (#[trigger] b1[p]).len() == m,
                prow@ == a1[col as int],
                pivot == a1[col as int][col as int],
                forall|p: int|
                    0 <= p < m && !(col < p < r3) ==> (#[trigger] a@[p])@ == a1[p],
                forall|p: int|
                    col < p < r3 ==> (#[trigger] a@[p])@ == elim_row(a1, col as int, p),
                forall|jj: int, p: int|
                    0 <= jj < k && 0 <= p < m && !(col < p < r3) ==> (#[trigger] b@[jj]@[p])
                        == b1[jj][p],
                forall|jj: int, p: int|
                    0 <= jj < k && col < p < r3 ==> (#[trigger] b@[jj]@[p]) == elim_bval(
                        a1,
                        b1,
                        col as int,
                        jj,
                        p,
                    ),
            decreases m - r3,
        {
            let f = a[r3][col].div(pivot);
            let mut c2: usize = 0;
            let mut newrow: Vec<Fx> = Vec::new();
            let oldrow = copy_row(&a[r3]);
            while c2 < m
                invariant
                    c2 <= m,
                    m == mat@.len(),
                    col < m,
                    col < r3 < m,
                    oldrow@.len() == m,
                    prow@.len() == m,
                    newrow@.len() == c2,
                    a1.len() == m,
                    forall|p: int| 0 <= p < m ==> (#[trigger] a1[p]).len() == m,
                    oldrow@ == a1[r3 as int],
                    prow@ == a1[col as int],
                    pivot == a1[col as int][col as int],
                    pivot.v != 0,
                    f.v as int == fx_quot(
                        a1[r3 as int][col as int].v as int,
                        a1[col as int][col as int].v as int,
                    ),
                    forall|c: int|
                        0 <= c < c2 ==> newrow@[c] == elim_row(a1, col as int, r3 as int)[c],
                decreases m - c2,
            {
                newrow.push(oldrow[c2].sub(f.mul(prow[c2])));
                c2 = c2 + 1;
            }
            proof {
                assert(newrow@ =~= elim_row(a1, col as int, r3 as int));
            }
            a[r3] = newrow;
            let mut j3: usize = 0;
            while j3 < k
                invariant
                    j3 <= k,
                    k == rhs@.len(),
                    m == mat@.len(),
                    col < m,
                    col < r3 < m,
                    b@.len() == k,
                    forall|p: int| 0 <= p < k ==> (#[trigger] b@[p])@.len() == m,
                    a1.len() == m,
                    forall|p: int| 0 <= p < m ==> (#[trigger] a1[p]).len() == m,
                    b1.len() == k,
                    forall|p: int| 0 <= p < k ==> (#[trigger] b1[p]).len() == m,
                    pivot == a1[col as int][col as int],
                    pivot.v != 0,
                    f.v as int == fx_quot(
                        a1[r3 as int][col as int].v as int,
                        a1[col as int][col as int].v as int,
                    ),
                    forall|jj: int, p: int|
                        0 <= jj < k && 0 <= p < m && !(col < p < r3 + 1) ==> (
                        #[trigger] b@[jj]@[p]) == b1[jj][p],
                    forall|jj: int, p: int|
                        0 <= jj < k && col < p < r3 ==> (#[trigger] b@[jj]@[p]) == elim_bval(
                            a1,
                            b1,
                            col as int,
                            jj,
                            p,
                        ),
                    forall|jj: int|
                        0 <= jj < j3 ==> (#[trigger] b@[jj]@[r3 as int]) == elim_bval(
                            a1,
                            b1,
                            col as int,
                            jj,
                            r3 as int,
                        ),
                    forall|jj: int|
                        j3 <= jj < k ==> (#[trigger] b@[jj]@[r3 as int]) == b1[jj][r3 as int],
                decreases k - j3,
            {
                let bc = b[j3][col];
                let br = b[j3][r3];
                b[j3][r3] = br.sub(f.mul(bc));
                j3 = j3 + 1;
            }
            r3 = r3 + 1;
        }
        proof {
            assert(a@[col as int]@[col as int].v != 0);
            let step = elim_col(a_pre, b_pre, col as int);
            assert(step is Some);
            assert(step.unwrap().0 =~~= mat_view(a@));
            assert(step.unwrap().1 =~~= mat_view(b@));
            assert(gauss(m as int, a_pre, b_pre, col as int) == gauss(
                m as int,
                mat_view(a@),
                mat_view(b@),
                col as int + 1,
            ));
        }
        col = col + 1;
    }
    // back substitution
    let ghost fin_a = mat_view(a@);
    let ghost fin_b = mat_view(b@);
    proof {
        assert(gauss(mat@.len() as int, mat_view(mat@), mat_view(rhs@), 0) == Some((fin_a, fin_b)));
    }
    let mut sols: Vec<Vec<Fx>> = Vec::new();
    let mut j4: usize = 0;
    while j4 < k
        invariant
            j4 <= k,
            k == rhs@.len(),
            m == mat@.len(),
            a@.len() == m,
            forall|p: int| 0 <= p < m ==> (#[trigger] a@[p])@.len() == m,
            forall|c: int| 0 <= c < m ==> (#[trigger] a@[c]@[c]).v != 0,
            b@.len() == k,
            forall|p: int| 0 <= p < k ==> (#[trigger] b@[p])@.len() == m,
            fin_a == mat_view(a@),
            fin_b == mat_view(b@),
            sols@.len() == j4,
            forall|p: int| 0 <= p < j4 ==> (#[trigger] sols@[p])@.len() == m,
            forall|p: int|
                0 <= p < j4 ==> (#[trigger] sols@[p])@ == back_vec(fin_a, fin_b[p], m as int),
        decreases k - j4,
    {
        let mut x = crate::status::fx_zeros(m);
        let mut row = m;
        while row > 0
            invariant
                row <= m,
                m == mat@.len(),
                j4 < k,
                k == rhs@.len(),
                a@.len() == m,
                forall|p: int| 0 <= p < m ==> (#[trigger] a@[p])@.len() == m,
                forall|c: int| 0 <= c < m ==> (#[trigger] a@[c]@[c]).v != 0,
                b@.len() == k,
                forall|p: int| 0 <= p < k ==> (#[trigger] b@[p])@.len() == m,
                fin_a == mat_view(a@),
                fin_b == mat_view(b@),
                x@.len() == m,
                forall|c: int|
                    row <= c < m ==> (#[trigger] x@[c]) == back_vec(
                        fin_a,
                        fin_b[j4 as int],
                        m - row,
                    )[c - row],
            decreases row,
        {
            row = row - 1;
            let ghost rest = back_vec(fin_a, fin_b[j4 as int], m - row - 1);
            proof {
                lemma_back_vec_len(fin_a, fin_b[j4 as int], m - row - 1);
            }
            let mut s = b[j4][row];
            let mut c3 = row + 1;
            while c3 < m
                invariant
                    row < m,
                    row + 1 <= c3 <= m,
                    m == mat@.len(),
                    j4 < k,
                    k == rhs@.len(),
                    a@.len() == m,
                    forall|p: int| 0 <= p < m ==> (#[trigger] a@[p])@.len() == m,
                    b@.len() == k,
                    forall|p: int| 0 <= p < k ==> (#[trigger] b@[p])@.len() == m,
                    fin_a == mat_view(a@),
                    fin_b == mat_view(b@),
                    x@.len() == m,
                    rest == back_vec(fin_a, fin_b[j4 as int], m - row - 1),
                    rest.len() == m - row - 1,
                    forall|c: int|
                        row + 1 <= c < m ==> (#[trigger] x@[c]) == rest[c - row - 1],
                    s.v as int == back_sum(
                        fin_a,
                        rest,
                        row as int,
                        fin_b[j4 as int][row as int],
                        c3 as int,
                    ),
                decreases m - c3,
            {
                s = s.sub(a[row][c3].mul(x[c3]));
                c3 = c3 + 1;
            }
            x[row] = s.div(a[row][row]);
            proof {
                let bv = back_vec(fin_a, fin_b[j4 as int], m - row);
                assert(bv == seq![
                    (Fx {
                        v: fx_quot(
                            back_sum(fin_a, rest, row as int, fin_b[j4 as int][row as int], m as int),
                            fin_a[row as int][row as int].v as int,
                        ) as i64,
                    }),
                ] + rest);
                assert(x@[row as int] == bv[0]);
                assert forall|c: int| row <= c < m implies (#[trigger] x@[c]) == bv[c - row] by {
                    if c > row {
                        assert(x@[c] == rest[c - row - 1]);
                    }
                }
            }
        }
        proof {
            lemma_back_vec_len(fin_a, fin_b[j4 as int], m as int);
            assert(x@ =~= back_vec(fin_a, fin_b[j4 as int], m as int));
        }
        sols.push(x);
        j4 = j4 + 1;
    }
    Some(sols)
}

fn copy_row(src: &Vec<Fx>) -> (r: Vec<Fx>)
    ensures
        r@ == src@,
{
    let mut r: Vec<Fx> = Vec::new();
    let n = src.len();
    let mut q: usize = 0;
    while q < n
        invariant
            q <= n,
            n == src@.len(),
            r@.len() == q,
            forall|p: int| 0 <= p < q ==> r@[p] == src@[p],
        decreases n - q,
    {
        r.push(src[q]);
        q = q + 1;
    }
    proof {
        assert(r@ =~= src@);
    }
    r
}

/// The reduced Newton matrix over the first `na` members of the merged
/// active walk `pos`: `K[p_i, p_j] / lambda`, plus `1 / h[p_i]` on the
/// diagonal.
pub open spec fn nd_mat<P: PrimalProblem, K: Kernel>(
    problem: &P,
    kernel: &K,
    h: Seq<Fx>,
    pos: Seq<usize>,
    na: int,
) -> Seq<Seq<Fx>> {
    let lambda = problem.spec_params().lambda;
    Seq::new(
        na as nat,
        |i: int|
            Seq::new(
                na as nat,
                |j: int|
                    if i == j {
                        (Fx {
                            v: clip(
                                fx_quot(
                                    kernel.entry(pos[i] as int, pos[j] as int).v as int,
                                    lambda.v as int,
                                ) + fx_quot(
                                    crate::fixed::FX_ONE as int,
                                    h[pos[i] as int].v as int,
                                ),
                            ) as i64,
                        })
                    } else {
                        (Fx {
                            v: fx_quot(
                                kernel.entry(pos[i] as int, pos[j] as int).v as int,
                                lambda.v as int,
                            ) as i64,
                        })
                    },
            ),
    )
}

/// The folded part of one reduced right-hand entry: the base value minus
/// the fixed contributions of the merged zeros walked from position `na`
/// up to `z`.
pub open spec fn nd_rhs_fold<P: PrimalProblem, K: Kernel>(
    problem: &P,
    kernel: &K,
    dir_a: Seq<Fx>,
    pos: Seq<usize>,
    pi: int,
    base: int,
    na: int,
    z: int,
) -> int
    decreases z - na,
{
    if z <= na {
        base
    } else {
        clip(
            nd_rhs_fold(problem, kernel, dir_a, pos, pi, base, na, z - 1) - fx_quot(
                fx_prod(
                    dir_a[pos[z - 1] as int].v as int,
                    kernel.entry(pi, pos[z - 1] as int).v as int,
                ),
                problem.spec_params().lambda.v as int,
            ),
        )
    }
}

/// The reduced right-hand side over the first `na` members of the
/// merged walk `pos`: `(a + g) / h` per member, minus the fixed
/// contributions of the remaining (zero-curvature) members.
pub open spec fn nd_rhs<P: PrimalProblem, K: Kernel>(
    problem: &P,
    kernel: &K,
    st: crate::status::Status,
    h: Seq<Fx>,
    dir_a: Seq<Fx>,
    pos: Seq<usize>,
    na: int,
) -> Seq<Fx> {
    Seq::new(
        na as nat,
        |q: int|
            (Fx {
                v: nd_rhs_fold(
                    problem,
                    kernel,
                    dir_a,
                    pos,
                    pos[q] as int,
                    fx_quot(
                        clip(st.a@[pos[q] as int].v + st.g@[pos[q] as int].v),
                        h[pos[q] as int].v as int,
                    ),
                    na,
                    pos.len() as int,
                ) as i64,
            }),
    )
}

/// The signs of the first `na` members of the walk, as scalars.
pub open spec fn nd_signs<P: PrimalProblem>(problem: &P, pos: Seq<usize>, na: int) -> Seq<Fx> {
    Seq::new(
        na as nat,
        |q: int|
            (Fx { v: (problem.spec_sign(pos[q] as int) * (crate::fixed::FX_ONE as int)) as i64 }),
    )
}

/// A saturated running sum of scalars.
pub open spec fn fx_sum(s: Seq<Fx>, upto: int) -> int
    decreases upto,
{
    if upto <= 0 {
        0
    } else {
        clip(fx_sum(s, upto - 1) + s[upto - 1].v)
    }
}

/// A saturated running sum of pairwise fixed-point products.
pub open spec fn fx_dot(s: Seq<Fx>, t: Seq<Fx>, upto: int) -> int
    decreases upto,
{
    if upto <= 0 {
        0
    } else {
        clip(fx_dot(s, t, upto - 1) + fx_prod(s[upto - 1].v as int, t[upto - 1].v as int))
    }
}

/// The coefficient entries of the Newton direction on the reduced
/// system's solutions: `sol0 - db * sol1` componentwise, minus
/// `dc * sol2` when a 1-norm budget is present.
pub open spec fn nd_vals(
    sol0: Seq<Fx>,
    sol1: Seq<Fx>,
    sol2: Seq<Fx>,
    db: int,
    dc: int,
    budget: bool,
    na: int,
) -> Seq<Fx> {
    if budget {
        Seq::new(
            na as nat,
            |c: int|
                (Fx {
                    v: clip(
                        clip(sol0[c].v - fx_prod(db, sol1[c].v as int)) - fx_prod(
                            dc,
                            sol2[c].v as int,
                        ),
                    ) as i64,
                }),
        )
    } else {
        Seq::new(
            na as nat,
            |c: int| (Fx { v: clip(sol0[c].v - fx_prod(db, sol1[c].v as int)) as i64 }),
        )
    }
}

/// The assembled coefficient direction: position `pos[q]` receives
/// `vals[q]` for the first `upto` members of the walk, the rest of
/// `dir0` stays.
pub open spec fn nd_scatter(dir0: Seq<Fx>, pos: Seq<usize>, vals: Seq<Fx>, upto: int) -> Seq<Fx>
    decreases upto,
{
    if upto <= 0 {
        dir0
    } else {
        nd_scatter(dir0, pos, vals, upto - 1).update(pos[upto - 1] as int, vals[upto - 1])
    }
}

/// Computes a Newton direction on the positive partition, falling back
/// to the gradient direction exactly when the partition is empty, when a
/// 1-norm budget leaves only one sign in it, or when the reduced system
/// ([`nd_mat`], [`nd_rhs`]) or its summed 2x2 budget system is
/// degenerate.  Otherwise the direction is the eliminated system's
/// solutions assembled by [`nd_vals`] and scattered over the walk, with
/// the bias (and, under a budget, the shift) from the summed system.
pub fn newton_with_fallback<P: PrimalProblem, K: Kernel>(
    problem: &P,
    kernel: &mut K,
    status_ext: &mut StatusExtended,
) -> (r: DirectionType)
    requires
        problem.wf(),
        old(kernel).wf(),
        old(kernel).spec_size() == problem.spec_size(),
        old(status_ext).status.a@.len() == problem.spec_size(),
        old(status_ext).status.g@.len() == problem.spec_size(),
        old(status_ext).status.ka@.len() == problem.spec_size(),
        old(status_ext).dir.a@.len() == problem.spec_size(),
        old(status_ext).h@.len() == problem.spec_size(),
        old(status_ext).active.size == problem.spec_size(),
        old(status_ext).active.positive@.len() <= problem.spec_size(),
        old(status_ext).active.zeros@.len() + old(status_ext).active.positive@.len()
            <= problem.spec_size(),
        forall|p: int|
            0 <= p < old(status_ext).active.positive@.len() ==> (#[trigger] old(status_ext).active.positive@[p] as int) < problem.spec_size(),
        forall|p: int|
            0 <= p < old(status_ext).active.zeros@.len() ==> (#[trigger] old(status_ext).active.zeros@[p] as int) < problem.spec_size(),
        forall|p: int|
            0 <= p < old(status_ext).active.positive@.len() ==> (#[trigger] old(status_ext).h@[old(status_ext).active.positive@[p] as int]).v != 0,
    ensures
        final(kernel).wf(),
        final(kernel).spec_size() == old(kernel).spec_size(),
        forall|i: int, j: int| final(kernel).entry(i, j) == old(kernel).entry(i, j),
        forall|act: Seq<usize>|
            old(kernel).active_ok(act) ==> final(kernel).active_ok(act),
        final(kernel).spec_max_rows() == old(kernel).spec_max_rows(),
        final(status_ext).status == old(status_ext).status,
        final(status_ext).h == old(status_ext).h,
        final(status_ext).dir.a@.len() == problem.spec_size(),
        final(status_ext).active.size == old(status_ext).active.size,
        final(status_ext).active.size_positive <= final(status_ext).active.positive@.len(),
        forall|p: int|
            0 <= p < final(status_ext).active.positive@.len() ==> (#[trigger] final(status_ext).active.positive@[p] as int) < problem.spec_size(),
        r == DirectionType::Gradient || r == DirectionType::Newton,
        r == DirectionType::Gradient ==> (final(status_ext).dir.c == old(status_ext).dir.c && (
        forall|i: int|
            0 <= i < problem.spec_size() ==> (#[trigger] final(status_ext).dir.a@[i]).v == clip(
                old(status_ext).status.a@[i].v + old(status_ext).status.g@[i].v,
            )) && final(status_ext).dir.b.v == fx_quot(
            old(status_ext).sums.g.v as int,
            problem.spec_params().lambda.v as int,
        )),
        r == DirectionType::Newton ==> old(status_ext).active.positive@.len() > 0,
        ({
            let merged = old(status_ext).active.positive@ + old(status_ext).active.zeros@;
            let na = old(status_ext).active.positive@.len() as int;
            let budget = problem.spec_params().max_asum.v < i64::MAX;
            let mixed = (exists|p: int|
                0 <= p < na && problem.spec_sign(merged[p] as int) > 0) && (exists|p: int|
                0 <= p < na && problem.spec_sign(merged[p] as int) < 0);
            let msys = nd_mat(problem, old(kernel), old(status_ext).h@, merged, na);
            let r0 = nd_rhs(
                problem,
                old(kernel),
                old(status_ext).status,
                old(status_ext).h@,
                old(status_ext).dir.a@,
                merged,
                na,
            );
            let ones = Seq::new(na as nat, |q: int| (Fx { v: crate::fixed::FX_ONE }));
            let sgns = nd_signs(problem, merged, na);
            let rall = if budget {
                seq![r0, ones, sgns]
            } else {
                seq![r0, ones]
            };
            let g = gauss(na, msys, rall, 0);
            let sol0 = back_vec(g.unwrap().0, g.unwrap().1[0], na);
            let sol1 = back_vec(g.unwrap().0, g.unwrap().1[1], na);
            let sol2 = back_vec(g.unwrap().0, g.unwrap().1[2], na);
            let rhs_b = clip(old(status_ext).sums.a.v - old(status_ext).sums.da_zeros.v);
            let q00 = fx_sum(sol1, na);
            let q01 = fx_sum(sol2, na);
            let q11 = fx_dot(sol2, sgns, na);
            let p0 = fx_dot(sol1, r0, na);
            let p1 = fx_dot(sol2, r0, na);
            let det = clip(fx_prod(q00, q11) - fx_prod(q01, q01));
            let rhs_c = clip(
                clip(old(status_ext).sums.sa.v - problem.spec_params().max_asum.v)
                    - old(status_ext).sums.sda_zeros.v,
            );
            let p0t = clip(p0 - rhs_b);
            let p1t = clip(p1 - rhs_c);
            let db_budget = fx_quot(clip(fx_prod(q11, p0t) - fx_prod(q01, p1t)), det);
            let dc_budget = fx_quot(clip(fx_prod(q00, p1t) - fx_prod(q01, p0t)), det);
            let db_free = fx_quot(clip(fx_sum(sol0, na) - rhs_b), q00);
            &&& (r == DirectionType::Newton ==> (na > 0 && (budget ==> mixed) && g is Some && (
            if budget {
                det != 0 && final(status_ext).dir.b.v == db_budget
                    && final(status_ext).dir.c.v == dc_budget && final(status_ext).dir.a@
                    == nd_scatter(
                    old(status_ext).dir.a@,
                    merged,
                    nd_vals(sol0, sol1, sol2, db_budget, dc_budget, true, na),
                    na,
                )
            } else {
                q00 != 0 && final(status_ext).dir.b.v == db_free && final(status_ext).dir.c
                    == old(status_ext).dir.c && final(status_ext).dir.a@ == nd_scatter(
                    old(status_ext).dir.a@,
                    merged,
                    nd_vals(sol0, sol1, sol2, db_free, 0, false, na),
                    na,
                )
            })))
            &&& (r == DirectionType::Gradient ==> (na == 0 || (budget && !mixed) || g is None
                || (budget && g is Some && det == 0) || (!budget && g is Some && q00 == 0)))
        }),
{
    proof {
        problem.wf_facts();
    }
    let n = problem.size();
    status_ext.active.merge();
    let ghost merged = status_ext.active.positive@;
    let ghost na = status_ext.active.size_positive as int;
    let ghost sgnsseq = nd_signs(problem, merged, na);
    let n_active = status_ext.active.size_positive;
    if n_active == 0 {
        status_ext.active.make_full();
        gradient(problem, kernel, status_ext);
        return DirectionType::Gradient;
    }
    let mut signs: Vec<Fx> = Vec::new();
    if problem.has_max_asum() {
        let mut sign_pos = false;
        let mut sign_neg = false;
        let mut p: usize = 0;
        while p < n_active
            invariant
                p <= n_active,
                n_active <= status_ext.active.positive@.len(),
                problem.wf(),
                merged == status_ext.active.positive@,
                na == n_active as int,
                sgnsseq == nd_signs(problem, merged, na),
                forall|q: int|
                    0 <= q < status_ext.active.positive@.len() ==> (
                    #[trigger] status_ext.active.positive@[q] as int) < problem.spec_size(),
                signs@.len() == p,
                forall|q: int| 0 <= q < p ==> (#[trigger] signs@[q]) == sgnsseq[q],
                sign_pos == (exists|q: int|
                    0 <= q < p && problem.spec_sign(merged[q] as int) > 0),
                sign_neg == (exists|q: int|
                    0 <= q < p && problem.spec_sign(merged[q] as int) < 0),
            decreases n_active - p,
        {
            let si = problem.sign(status_ext.active.positive[p]);
            if si.v > 0 {
                sign_pos = true;
            }
            if si.v < 0 {
                sign_neg = true;
            }
            proof {
                if problem.spec_sign(merged[p as int] as int) > 0 {
                    assert(sign_pos);
                }
                if problem.spec_sign(merged[p as int] as int) < 0 {
                    assert(sign_neg);
                }
            }
            signs.push(si);
            p = p + 1;
        }
        if !(sign_pos && sign_neg) {
            status_ext.active.make_full();
            gradient(problem, kernel, status_ext);
            return DirectionType::Gradient;
        }
        proof {
            assert(signs@ =~= sgnsseq);
        }
    }
    // build the reduced system on the positive partition
    let lambda = problem.lambda();
    let all = status_ext.active.all();
    let ghost msys = nd_mat(problem, old(kernel), old(status_ext).h@, merged, na);
    let ghost r0seq = nd_rhs(
        problem,
        old(kernel),
        old(status_ext).status,
        old(status_ext).h@,
        old(status_ext).dir.a@,
        merged,
        na,
    );
    let mut mat: Vec<Vec<Fx>> = Vec::new();
    let mut rhs0: Vec<Fx> = Vec::new();
    let mut ones: Vec<Fx> = Vec::new();
    let mut idx_i: usize = 0;
    while idx_i < n_active
        invariant
            idx_i <= n_active,
            n_active <= status_ext.active.positive@.len(),
            n_active == status_ext.active.size_positive,
            n as int == problem.spec_size(),
            problem.wf(),
            kernel.wf(),
            kernel.spec_size() == problem.spec_size(),
            forall|p: int, q: int| kernel.entry(p, q) == old(kernel).entry(p, q),
            status_ext.status == old(status_ext).status,
            status_ext.h == old(status_ext).h,
            status_ext.dir == old(status_ext).dir,
            status_ext.dir.a@.len() == n,
            status_ext.status.a@.len() == n,
            status_ext.status.g@.len() == n,
            status_ext.h@.len() == n,
            lambda.v >= 1,
            lambda == problem.spec_params().lambda,
            all@ == status_ext.active.positive@,
            bounded_idxs(all@, problem.spec_size()),
            merged == status_ext.active.positive@,
            na == n_active as int,
            msys == nd_mat(problem, old(kernel), old(status_ext).h@, merged, na),
            r0seq == nd_rhs(
                problem,
                old(kernel),
                old(status_ext).status,
                old(status_ext).h@,
                old(status_ext).dir.a@,
                merged,
                na,
            ),
            forall|p: int|
                0 <= p < n_active ==> (#[trigger] status_ext.h@[
                    status_ext.active.positive@[p] as int]).v != 0,
            mat@.len() == idx_i,
            forall|p: int| 0 <= p < idx_i ==> (#[trigger] mat@[p])@.len() == n_active,
            forall|p: int| 0 <= p < idx_i ==> (#[trigger] mat@[p])@ == msys[p],
            rhs0@.len() == idx_i,
            forall|p: int| 0 <= p < idx_i ==> (#[trigger] rhs0@[p]) == r0seq[p],
            ones@.len() == idx_i,
            forall|p: int|
                0 <= p < idx_i ==> (#[trigger] ones@[p]) == (Fx { v: crate::fixed::FX_ONE }),
        decreases n_active - idx_i,
    {
        let i = status_ext.active.positive[idx_i];
        let mut ki: Vec<Fx> = Vec::new();
        kernel.compute_row(i, &mut ki, &all);
        let mut row: Vec<Fx> = Vec::new();
        let mut idx_j: usize = 0;
        while idx_j < n_active
            invariant
                idx_j <= n_active,
                idx_i < n_active,
                n_active <= status_ext.active.positive@.len(),
                ki@.len() == all@.len(),
                all@ == status_ext.active.positive@,
                merged == status_ext.active.positive@,
                na == n_active as int,
                problem.wf(),
                status_ext.h == old(status_ext).h,
                status_ext.h@.len() == n,
                n as int == problem.spec_size(),
                bounded_idxs(all@, problem.spec_size()),
                (i as int) < n,
                i == status_ext.active.positive@[idx_i as int],
                status_ext.h@[i as int].v != 0,
                lambda.v >= 1,
                lambda == problem.spec_params().lambda,
                msys == nd_mat(problem, old(kernel), old(status_ext).h@, merged, na),
                forall|kk: int|
                    0 <= kk < all@.len() ==> (#[trigger] ki@[kk]) == old(kernel).entry(
                        i as int,
                        all@[kk] as int,
                    ),
                row@.len() == idx_j,
                forall|c: int| 0 <= c < idx_j ==> (#[trigger] row@[c]) == msys[idx_i as int][c],
            decreases n_active - idx_j,
        {
            let mut v = ki[idx_j].div(lambda);
            if idx_i == idx_j {
                v = v.add(Fx { v: crate::fixed::FX_ONE }.div(status_ext.h[i]));
            }
            row.push(v);
            idx_j = idx_j + 1;
        }
        proof {
            assert(row@ =~= msys[idx_i as int]);
        }
        mat.push(row);
        // right-hand side
        let mut rhs_i = status_ext.status.a[i].add(status_ext.status.g[i]).div(status_ext.h[i]);
        let ghost base = rhs_i.v as int;
        let n_all = all.len();
        let mut idx_z = n_active;
        while idx_z < n_all
            invariant
                n_active <= idx_z <= n_all,
                n_all == all@.len(),
                ki@.len() == all@.len(),
                bounded_idxs(all@, n as int),
                merged == all@,
                na == n_active as int,
                problem.wf(),
                status_ext.dir == old(status_ext).dir,
                status_ext.dir.a@.len() == n,
                n as int == problem.spec_size(),
                (i as int) < n,
                lambda.v >= 1,
                lambda == problem.spec_params().lambda,
                forall|kk: int|
                    0 <= kk < all@.len() ==> (#[trigger] ki@[kk]) == old(kernel).entry(
                        i as int,
                        all@[kk] as int,
                    ),
                rhs_i.v as int == nd_rhs_fold(
                    problem,
                    old(kernel),
                    old(status_ext).dir.a@,
                    merged,
                    i as int,
                    base,
                    na,
                    idx_z as int,
                ),
            decreases n_all - idx_z,
        {
            let jz = all[idx_z];
            rhs_i = rhs_i.sub(status_ext.dir.a[jz].mul(ki[idx_z]).div(lambda));
            idx_z = idx_z + 1;
        }
        proof {
            assert(rhs_i == r0seq[idx_i as int]);
        }
        rhs0.push(rhs_i);
        ones.push(Fx { v: crate::fixed::FX_ONE });
        idx_i = idx_i + 1;
    }
    let ghost onesseq = Seq::new(na as nat, |q: int| (Fx { v: crate::fixed::FX_ONE }));
    let mut rhs: Vec<Vec<Fx>> = Vec::new();
    rhs.push(rhs0);
    rhs.push(ones);
    let with_budget = problem.has_max_asum();
    if with_budget {
        let s = copy_row(&signs);
        rhs.push(s);
    }
    let ghost rall = if with_budget {
        seq![r0seq, onesseq, sgnsseq]
    } else {
        seq![r0seq, onesseq]
    };
    proof {
        assert(mat_view(mat@) =~~= msys);
        assert(ones@ =~= onesseq);
        assert(mat_view(rhs@) =~~= rall);
    }
    let ghost gsys = gauss(na, msys, rall, 0);
    let sols = solve_lin(&mat, &rhs);
    match sols {
        None => {
            proof {
                assert(gsys is None);
            }
            status_ext.active.make_full();
            gradient(problem, kernel, status_ext);
            DirectionType::Gradient
        },
        Some(sols) => {
            let ghost sol0 = back_vec(gsys.unwrap().0, gsys.unwrap().1[0], na);
            let ghost sol1 = back_vec(gsys.unwrap().0, gsys.unwrap().1[1], na);
            let ghost sol2 = back_vec(gsys.unwrap().0, gsys.unwrap().1[2], na);
            proof {
                assert(sols@[0]@ == sol0);
                assert(sols@[1]@ == sol1);
                if with_budget {
                    assert(sols@[2]@ == sol2);
                }
            }
            let mat_inv_rhs = &sols[0];
            let mat_inv_one = &sols[1];
            let rhs_b = status_ext.sums.a.sub(status_ext.sums.da_zeros);
            let mut da_nonzero: Vec<Fx> = Vec::new();
            if with_budget {
                let mat_inv_signs = &sols[2];
                let rhs_c = status_ext.sums.sa.sub(problem.max_asum()).sub(
                    status_ext.sums.sda_zeros,
                );
                let mut q00 = Fx { v: 0 };
                let mut q01 = Fx { v: 0 };
                let mut q11 = Fx { v: 0 };
                let mut p0 = Fx { v: 0 };
                let mut p1 = Fx { v: 0 };
                let mut q: usize = 0;
                while q < n_active
                    invariant
                        q <= n_active,
                        na == n_active as int,
                        n_active <= mat_inv_rhs@.len(),
                        n_active <= mat_inv_one@.len(),
                        n_active <= mat_inv_signs@.len(),
                        n_active <= signs@.len(),
                        rhs@.len() >= 1,
                        n_active <= rhs@[0]@.len(),
                        mat_inv_one@ == sol1,
                        mat_inv_signs@ == sol2,
                        signs@ == sgnsseq,
                        rhs@[0]@ == r0seq,
                        q00.v as int == fx_sum(sol1, q as int),
                        q01.v as int == fx_sum(sol2, q as int),
                        q11.v as int == fx_dot(sol2, sgnsseq, q as int),
                        p0.v as int == fx_dot(sol1, r0seq, q as int),
                        p1.v as int == fx_dot(sol2, r0seq, q as int),
                    decreases n_active - q,
                {
                    q00 = q00.add(mat_inv_one[q]);
                    q01 = q01.add(mat_inv_signs[q]);
                    q11 = q11.add(mat_inv_signs[q].mul(signs[q]));
                    let rq = rhs[0][q];
                    p0 = p0.add(mat_inv_one[q].mul(rq));
                    p1 = p1.add(mat_inv_signs[q].mul(rq));
                    q = q + 1;
                }
                let det = q00.mul(q11).sub(q01.mul(q01));
                if det.v == 0 {
                    status_ext.active.make_full();
                    gradient(problem, kernel, status_ext);
                    return DirectionType::Gradient;
                }
                let p0t = p0.sub(rhs_b);
                let p1t = p1.sub(rhs_c);
                let db = q11.mul(p0t).sub(q01.mul(p1t)).div(det);
                let dc = q00.mul(p1t).sub(q01.mul(p0t)).div(det);
                status_ext.dir.b = db;
                status_ext.dir.c = dc;
                let ghost vals = nd_vals(sol0, sol1, sol2, db.v as int, dc.v as int, true, na);
                let mut q2: usize = 0;
                while q2 < n_active
                    invariant
                        q2 <= n_active,
                        na == n_active as int,
                        n_active <= mat_inv_rhs@.len(),
                        n_active <= mat_inv_one@.len(),
                        n_active <= mat_inv_signs@.len(),
                        mat_inv_rhs@ == sol0,
                        mat_inv_one@ == sol1,
                        mat_inv_signs@ == sol2,
                        vals == nd_vals(sol0, sol1, sol2, db.v as int, dc.v as int, true, na),
                        da_nonzero@.len() == q2,
                        forall|c: int| 0 <= c < q2 ==> (#[trigger] da_nonzero@[c]) == vals[c],
                    decreases n_active - q2,
                {
                    da_nonzero.push(
                        mat_inv_rhs[q2].sub(db.mul(mat_inv_one[q2])).sub(
                            dc.mul(mat_inv_signs[q2]),
                        ),
                    );
                    q2 = q2 + 1;
                }
                proof {
                    assert(da_nonzero@ =~= vals);
                }
            } else {
                let mut sum_rhs = Fx { v: 0 };
                let mut sum_one = Fx { v: 0 };
                let mut q: usize = 0;
                while q < n_active
                    invariant
                        q <= n_active,
                        na == n_active as int,
                        n_active <= mat_inv_rhs@.len(),
                        n_active <= mat_inv_one@.len(),
                        mat_inv_rhs@ == sol0,
                        mat_inv_one@ == sol1,
                        sum_rhs.v as int == fx_sum(sol0, q as int),
                        sum_one.v as int == fx_sum(sol1, q as int),
                    decreases n_active - q,
                {
                    sum_rhs = sum_rhs.add(mat_inv_rhs[q]);
                    sum_one = sum_one.add(mat_inv_one[q]);
                    q = q + 1;
                }
                if sum_one.v == 0 {
                    status_ext.active.make_full();
                    gradient(problem, kernel, status_ext);
                    return DirectionType::Gradient;
                }
                let db = sum_rhs.sub(rhs_b).div(sum_one);
                status_ext.dir.b = db;
                let ghost vals = nd_vals(sol0, sol1, sol2, db.v as int, 0, false, na);
                let mut q2: usize = 0;
                while q2 < n_active
                    invariant
                        q2 <= n_active,
                        na == n_active as int,
                        n_active <= mat_inv_rhs@.len(),
                        n_active <= mat_inv_one@.len(),
                        mat_inv_rhs@ == sol0,
                        mat_inv_one@ == sol1,
                        vals == nd_vals(sol0, sol1, sol2, db.v as int, 0, false, na),
                        da_nonzero@.len() == q2,
                        forall|c: int| 0 <= c < q2 ==> (#[trigger] da_nonzero@[c]) == vals[c],
                    decreases n_active - q2,
                {
                    da_nonzero.push(mat_inv_rhs[q2].sub(db.mul(mat_inv_one[q2])));
                    q2 = q2 + 1;
                }
                proof {
                    assert(da_nonzero@ =~= vals);
                }
            }
            let ghost valsg = da_nonzero@;
            let ghost dirb = status_ext.dir.b;
            let ghost dirc = status_ext.dir.c;
            let ghost dir0 = old(status_ext).dir.a@;
            let mut q3: usize = 0;
            while q3 < n_active
                invariant
                    q3 <= n_active,
                    na == n_active as int,
                    n_active <= status_ext.active.positive@.len(),
                    n_active <= da_nonzero@.len(),
                    da_nonzero@ == valsg,
                    merged == status_ext.active.positive@,
                    status_ext.status == old(status_ext).status,
                    status_ext.h == old(status_ext).h,
                    status_ext.active.size == old(status_ext).active.size,
                    status_ext.active.size_positive
                        <= status_ext.active.positive@.len(),
                    status_ext.dir.a@.len() == n,
                    status_ext.dir.b == dirb,
                    status_ext.dir.c == dirc,
                    status_ext.dir.a@ == nd_scatter(dir0, merged, valsg, q3 as int),
                    n as int == problem.spec_size(),
                    forall|p: int|
                        0 <= p < status_ext.active.positive@.len() ==> (
                        #[trigger] status_ext.active.positive@[p] as int) < n,
                decreases n_active - q3,
            {
                let i = status_ext.active.positive[q3];
                status_ext.dir.a[i] = da_nonzero[q3];
                q3 = q3 + 1;
            }
            DirectionType::Newton
        },
    }
}

} // verus!
