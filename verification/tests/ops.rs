//! Tests of the simplex operations: projection, ranking, and candidate
//! generation.

use pmds::problem::{Algopar, Problem};
use pmds::mdsops::{candidate, check_bounds, clamp, sortsimplex};

fn square_problem(dim: usize, lo: i64, hi: i64) -> Problem {
    Problem { dim, bench: 0, maxiters: 0, xmin: vec![lo; dim], xmax: vec![hi; dim] }
}

#[test]
fn clamp_basic() {
    assert_eq!(clamp(5, -3, 3), 3);
    assert_eq!(clamp(-5, -3, 3), -3);
    assert_eq!(clamp(2, -3, 3), 2);
    assert_eq!(clamp(-3, -3, 3), -3);
    assert_eq!(clamp(3, -3, 3), 3);
}

#[test]
fn projection_clamps_and_keeps_in_bounds_coordinates() {
    let prob = square_problem(3, -10, 10);
    let simplex = vec![vec![-50, 0, 7], vec![11, -10, 10]];
    let out = check_bounds(&prob, &simplex);
    assert_eq!(out, vec![vec![-10, 0, 7], vec![10, -10, 10]]);
}

#[test]
fn projection_is_idempotent() {
    let prob = square_problem(2, -4, 6);
    let simplex = vec![vec![100, -100], vec![5, 3], vec![-4, 6]];
    let once = check_bounds(&prob, &simplex);
    let twice = check_bounds(&prob, &once);
    assert_eq!(once, twice);
}

#[test]
fn projection_uses_per_dimension_bounds() {
    let prob = Problem {
        dim: 2,
        bench: 0,
        maxiters: 0,
        xmin: vec![-1, -100],
        xmax: vec![1, 100],
    };
    let simplex = vec![vec![50, 50]];
    let out = check_bounds(&prob, &simplex);
    assert_eq!(out, vec![vec![1, 50]]);
}

#[test]
fn ranking_sorts_values_ascending() {
    let simplex = vec![vec![3, 3], vec![1, 1], vec![2, 2]];
    let values = vec![30, 10, 20];
    let (sv, sf) = sortsimplex(&simplex, &values);
    assert_eq!(sf, vec![10, 20, 30]);
    assert_eq!(sv, vec![vec![1, 1], vec![2, 2], vec![3, 3]]);
}

#[test]
fn ranking_is_a_permutation_of_the_pairs() {
    let simplex = vec![vec![9], vec![7], vec![8], vec![6]];
    let values = vec![4, 2, 2, 1];
    let (sv, sf) = sortsimplex(&simplex, &values);
    assert_eq!(sf, vec![1, 2, 2, 4]);
    let mut got: Vec<(i64, Vec<i64>)> =
        sf.iter().cloned().zip(sv.iter().cloned()).collect();
    let mut want: Vec<(i64, Vec<i64>)> =
        values.iter().cloned().zip(simplex.iter().cloned()).collect();
    got.sort();
    want.sort();
    assert_eq!(got, want);
}

#[test]
fn reflection_candidate_mirrors_about_best() {
    let prob = square_problem(2, -100, 100);
    // best vertex (2, 3); reflection of v is 2b - v
    let simplex = vec![vec![2, 3], vec![10, -5], vec![0, 0]];
    let out = candidate(&prob, &simplex, 1, 1);
    assert_eq!(out, vec![vec![2, 3], vec![-6, 11], vec![4, 6]]);
}

#[test]
fn reflection_identity_of_best_vertex() {
    let prob = square_problem(2, -100, 100);
    let simplex = vec![vec![7, -9], vec![1, 1], vec![2, 2]];
    for (num, den) in [(1i64, 1i64), (2, 1), (1, 2)] {
        let out = candidate(&prob, &simplex, num, den);
        assert_eq!(out[0], vec![7, -9]);
    }
}

#[test]
fn expansion_and_contraction_candidates() {
    let prob = square_problem(1, -100, 100);
    let simplex = vec![vec![2], vec![6]];
    // expansion ratio 2: b - 2(v - b) = 3b - 2v
    let expa = candidate(&prob, &simplex, 2, 1);
    assert_eq!(expa, vec![vec![2], vec![-6]]);
    // contraction ratio 1/2: b - (v - b)/2
    let contr = candidate(&prob, &simplex, 1, 2);
    assert_eq!(contr, vec![vec![2], vec![0]]);
}

#[test]
fn candidate_is_projected_into_bounds() {
    let prob = square_problem(1, -5, 5);
    let simplex = vec![vec![5], vec![-5]];
    // reflection of -5 about 5 is 15, clamped to 5
    let out = candidate(&prob, &simplex, 1, 1);
    assert_eq!(out, vec![vec![5], vec![5]]);
}

#[test]
fn contraction_rounds_toward_zero_offset() {
    let prob = square_problem(1, -100, 100);
    // offset v - b = 3; 3/2 rounds to 1, so the move is b - 1
    let simplex = vec![vec![0], vec![3]];
    let contr = candidate(&prob, &simplex, 1, 2);
    assert_eq!(contr, vec![vec![0], vec![-1]]);
    // negative offset -3 scales to -1 symmetrically: b + 1
    let simplex2 = vec![vec![0], vec![-3]];
    let contr2 = candidate(&prob, &simplex2, 1, 2);
    assert_eq!(contr2, vec![vec![0], vec![1]]);
}

#[test]
fn standard_coefficients() {
    let p = Algopar::standard();
    assert_eq!((p.pexp_num, p.pexp_den), (2, 1));
    assert_eq!((p.pcontr_num, p.pcontr_den), (1, 2));
}
