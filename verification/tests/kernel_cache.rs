use smorust::fixed::{Fx, FX_ONE};
use smorust::kernel::{cache, find_common, Kernel, PrecomputedKernel};

fn fx(x: f64) -> Fx {
    Fx { v: (x * FX_ONE as f64).round() as i64 }
}

/// A small deterministic generator for reproducible test matrices.
fn lcg(state: &mut u64) -> f64 {
    *state = state.wrapping_mul(6364136223846793005).wrapping_add(1442695040888963407);
    ((*state >> 33) as f64) / ((1u64 << 31) as f64) - 1.0
}

fn random_symmetric(n: usize, seed: u64) -> Vec<Vec<Fx>> {
    let mut state = seed;
    let mut m = vec![vec![Fx { v: 0 }; n]; n];
    for i in 0..n {
        for j in 0..=i {
            let v = fx(lcg(&mut state));
            m[i][j] = v;
            m[j][i] = v;
        }
    }
    m
}

#[test]
fn precomputed_returns_matrix_entries() {
    let m = vec![
        vec![fx(1.0), fx(0.5)],
        vec![fx(0.5), fx(2.0)],
    ];
    let k = PrecomputedKernel::from_matrix(m);
    assert_eq!(k.size(), 2);
    assert_eq!(k.diag(0).v, fx(1.0).v);
    assert_eq!(k.diag(1).v, fx(2.0).v);
    let mut row = Vec::new();
    k.compute_row(1, &mut row, &vec![0, 1]);
    assert_eq!(row[0].v, fx(0.5).v);
    assert_eq!(row[1].v, fx(2.0).v);
    // a restricted active set picks the matching columns
    let mut row0 = Vec::new();
    k.compute_row(0, &mut row0, &vec![1]);
    assert_eq!(row0.len(), 1);
    assert_eq!(row0[0].v, fx(0.5).v);
}

#[test]
fn precomputed_from_mirrors_the_lower_triangle() {
    let m = vec![
        vec![fx(1.0), fx(9.0)],
        vec![fx(0.5), fx(2.0)],
    ];
    let base = PrecomputedKernel::from_matrix(m);
    let k = PrecomputedKernel::from(&base);
    // the entry above the diagonal comes from below it
    let mut row = Vec::new();
    k.compute_row(0, &mut row, &vec![0, 1]);
    assert_eq!(row[1].v, fx(0.5).v);
}

#[test]
fn find_common_maps_subset_positions() {
    let a = vec![0usize, 2, 4, 6, 8];
    let b = vec![2usize, 6];
    let r = find_common(&a, &b);
    assert_eq!(r, vec![1usize, 3]);
    let empty: Vec<usize> = Vec::new();
    assert_eq!(find_common(&a, &empty).len(), 0);
}

#[test]
fn cached_rows_equal_fresh_rows() {
    let n = 16usize;
    let m = random_symmetric(n, 7);
    let base = PrecomputedKernel::from_matrix(m);
    let fresh = PrecomputedKernel::from_matrix(random_symmetric(n, 7));
    let mut k = cache(base, 4);
    let act: Vec<usize> = (0..n).collect();
    // run through all rows twice, forcing plenty of evictions
    for round in 0..2 {
        for i in 0..n {
            let mut out = Vec::new();
            k.use_rows(&vec![i], &act, &mut out);
            let mut expect = Vec::new();
            fresh.compute_row(i, &mut expect, &act);
            for j in 0..n {
                assert_eq!(out[0][j].v, expect[j].v, "round {round} row {i} col {j}");
            }
        }
    }
}

#[test]
fn lru_cache_correct_under_shrinking() {
    // build a random symmetric 32 x 32 kernel, wrap it in a cache of
    // capacity 8, touch every row, then restrict to the even columns and
    // check freshly requested rows against uncached recomputation
    let n = 32usize;
    let mat = random_symmetric(n, 42);
    let base = PrecomputedKernel::from_matrix(mat.clone());
    let fresh = PrecomputedKernel::from_matrix(mat);
    let mut k = cache(base, 8);
    let full: Vec<usize> = (0..n).collect();
    for i in 0..n {
        let mut out = Vec::new();
        k.use_rows(&vec![i], &full, &mut out);
    }
    let evens: Vec<usize> = (0..n).step_by(2).collect();
    k.restrict_active(&full, &evens);
    let mut out = Vec::new();
    k.use_rows(&vec![0usize, 4, 8], &evens, &mut out);
    for (r, &i) in [0usize, 4, 8].iter().enumerate() {
        let mut expect = Vec::new();
        fresh.compute_row(i, &mut expect, &evens);
        assert_eq!(out[r].len(), evens.len());
        for j in 0..evens.len() {
            assert_eq!(out[r][j].v, expect[j].v, "row {i} col {j}");
        }
    }
}

#[test]
fn set_active_resets_the_cache() {
    let n = 8usize;
    let mat = random_symmetric(n, 3);
    let base = PrecomputedKernel::from_matrix(mat.clone());
    let fresh = PrecomputedKernel::from_matrix(mat);
    let mut k = cache(base, 4);
    let full: Vec<usize> = (0..n).collect();
    let evens: Vec<usize> = (0..n).step_by(2).collect();
    let mut out = Vec::new();
    k.use_rows(&vec![1], &full, &mut out);
    k.restrict_active(&full, &evens);
    k.set_active(&evens, &full);
    let mut out2 = Vec::new();
    k.use_rows(&vec![1], &full, &mut out2);
    let mut expect = Vec::new();
    fresh.compute_row(1, &mut expect, &full);
    for j in 0..n {
        assert_eq!(out2[0][j].v, expect[j].v);
    }
}

#[test]
fn zero_capacity_cache_computes_directly() {
    let n = 4usize;
    let mat = random_symmetric(n, 11);
    let base = PrecomputedKernel::from_matrix(mat.clone());
    let fresh = PrecomputedKernel::from_matrix(mat);
    let mut k = cache(base, 0);
    let full: Vec<usize> = (0..n).collect();
    let mut out = Vec::new();
    k.use_rows(&vec![2], &full, &mut out);
    let mut expect = Vec::new();
    fresh.compute_row(2, &mut expect, &full);
    for j in 0..n {
        assert_eq!(out[0][j].v, expect[j].v);
    }
}
