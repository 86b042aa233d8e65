//! Tests of the evaluators and of the search loop.

use pmds::driver::Driver;
use pmds::evalr::{EvalError, Evaluator, IndexEvaluator, SumSquaresEvaluator, point_sum_sq};
use pmds::mdsops::{init, reflection};
use pmds::problem::{Algopar, Problem};

fn square_problem(dim: usize, lo: i64, hi: i64, maxiters: u64) -> Problem {
    Problem { dim, bench: 0, maxiters, xmin: vec![lo; dim], xmax: vec![hi; dim] }
}

fn seeded(seed: u64) -> rand::rngs::StdRng {
    <rand::rngs::StdRng as rand::SeedableRng>::seed_from_u64(seed)
}

#[test]
fn point_sum_sq_exact_values() {
    assert_eq!(point_sum_sq(&vec![3, 4]), Some(25));
    assert_eq!(point_sum_sq(&vec![]), Some(0));
    assert_eq!(point_sum_sq(&vec![-5]), Some(25));
    // 2^32 squared exceeds i64::MAX
    assert_eq!(point_sum_sq(&vec![4294967296]), None);
}

#[test]
fn sum_squares_evaluator_values_are_index_aligned() {
    let e = SumSquaresEvaluator {};
    let points = vec![vec![1, 2], vec![0, 0], vec![-3, 1]];
    let vals = e.evaluate(&points).unwrap();
    assert_eq!(vals, vec![5, 0, 10]);
}

#[test]
fn sum_squares_evaluator_overflow_is_a_compute_failure() {
    let e = SumSquaresEvaluator {};
    let points = vec![vec![0], vec![4294967296]];
    assert_eq!(e.evaluate(&points), Err(EvalError::ComputeFailure));
}

#[test]
fn index_evaluator_preserves_evaluation_order() {
    let e = IndexEvaluator {};
    // n + 1 = 5 distinct points must come back as 0..=4, in input order
    let points = vec![vec![9, 0], vec![-4, 2], vec![7, 7], vec![0, 0], vec![1, -1]];
    let vals = e.evaluate(&points).unwrap();
    assert_eq!(vals, vec![0, 1, 2, 3, 4]);
}

#[test]
fn init_draws_within_bounds() {
    let prob = square_problem(4, -17, 23, 0);
    let mut rng = seeded(7);
    let s = init(&prob, &mut rng);
    assert_eq!(s.len(), 5);
    for vert in &s {
        assert_eq!(vert.len(), 4);
        for &x in vert {
            assert!((-17..=23).contains(&x));
        }
    }
}

#[test]
fn init_is_reproducible_from_the_seed() {
    let prob = square_problem(3, -1000, 1000, 0);
    let a = init(&prob, &mut seeded(42));
    let b = init(&prob, &mut seeded(42));
    assert_eq!(a, b);
}

#[test]
fn reflection_batch_counts_evaluations_and_ranks() {
    let prob = square_problem(1, -10, 10, 0);
    let e = SumSquaresEvaluator {};
    let simplex = vec![vec![2], vec![4]];
    let mut fevs: u64 = 0;
    let (rv, rf) = reflection(&prob, &simplex, &mut fevs, &e).unwrap();
    // reflections of [2] and [4] about [2] are [2] and [0]
    assert_eq!(rv, vec![vec![0], vec![2]]);
    assert_eq!(rf, vec![0, 4]);
    assert_eq!(fevs, 2);
}

#[test]
fn step_accepts_reflection_when_expansion_does_not_improve() {
    let prob = square_problem(1, -10, 10, 1);
    let e = SumSquaresEvaluator {};
    let mut d = Driver {
        simplex: vec![vec![2], vec![4]],
        fsimplex: vec![4, 16],
        fevs: 2,
        iterations: 0,
    };
    d.step(&prob, &Algopar::standard(), &e).unwrap();
    // reflection [[2],[0]] ranks to values [0, 4]; expansion [[2],[-2]]
    // ranks to [4, 4]; reflection's best 0 wins
    assert_eq!(d.fsimplex, vec![0, 4]);
    assert_eq!(d.simplex, vec![vec![0], vec![2]]);
    assert_eq!(d.fevs, 6);
    assert_eq!(d.iterations, 1);
}

#[test]
fn step_accepts_contraction_when_reflection_does_not_improve() {
    let prob = square_problem(1, -10, 10, 1);
    let e = SumSquaresEvaluator {};
    let mut d = Driver {
        simplex: vec![vec![0], vec![4]],
        fsimplex: vec![0, 16],
        fevs: 2,
        iterations: 0,
    };
    d.step(&prob, &Algopar::standard(), &e).unwrap();
    // reflection [[0],[-4]] ranks to [0, 16]: no improvement, so the
    // contraction [[0],[-2]] with values [0, 4] is accepted as a whole
    assert_eq!(d.fsimplex, vec![0, 4]);
    assert_eq!(d.simplex, vec![vec![0], vec![-2]]);
    assert_eq!(d.fevs, 6);
    assert_eq!(d.iterations, 1);
}

#[test]
fn init_draws_varied_values() {
    let prob = square_problem(8, 0, 1000000, 0);
    let s = init(&prob, &mut seeded(3));
    let flat: Vec<i64> = s.iter().flatten().cloned().collect();
    assert!(flat.iter().any(|&x| x != flat[0]));
}

#[test]
fn step_propagates_evaluator_failure_and_keeps_state() {
    // bounds wide enough that a reflected coordinate's square overflows
    let prob = square_problem(1, -5000000000, 5000000000, 1);
    let e = SumSquaresEvaluator {};
    let mut d = Driver {
        simplex: vec![vec![4000000000], vec![5000000000]],
        fsimplex: vec![0, 1],
        fevs: 2,
        iterations: 0,
    };
    let r = d.step(&prob, &Algopar::standard(), &e);
    assert_eq!(r, Err(EvalError::ComputeFailure));
    assert_eq!(d.simplex, vec![vec![4000000000], vec![5000000000]]);
    assert_eq!(d.fsimplex, vec![0, 1]);
    assert_eq!(d.iterations, 0);
    assert_eq!(d.fevs, 2);
}

#[test]
fn search_improves_monotonically_and_counts_evaluations() {
    // dimension 2, bounds [-5, 5] at scale 1000, sum-of-squares
    // objective, 100 iterations from a fixed seed
    let prob = square_problem(2, -5000, 5000, 100);
    let e = SumSquaresEvaluator {};
    let params = Algopar::standard();
    let mut rng = seeded(1);
    let mut d = Driver::new(&prob, &e, &mut rng).unwrap();
    let initial_best = d.fsimplex[0];
    assert_eq!(d.fevs, 3);
    let mut best_so_far = initial_best;
    for _ in 0..100 {
        d.step(&prob, &params, &e).unwrap();
        // the best value never worsens between consecutive iterations
        assert!(d.fsimplex[0] <= best_so_far);
        best_so_far = d.fsimplex[0];
    }
    assert_eq!(d.iterations, 100);
    // one initial batch plus two batches per iteration, n + 1 = 3 each
    assert_eq!(d.fevs, (1 + 2 * 100u64) * 3);
    assert!(d.fsimplex[0] < initial_best);
    for &x in &d.simplex[0] {
        assert!((-5000..=5000).contains(&x));
    }
}

#[test]
fn run_reaches_the_iteration_budget() {
    let prob = square_problem(2, -5000, 5000, 40);
    let e = SumSquaresEvaluator {};
    let params = Algopar::standard();
    let mut rng = seeded(9);
    let mut d = Driver::new(&prob, &e, &mut rng).unwrap();
    let initial_best = d.fsimplex[0];
    d.run(&prob, &params, &e).unwrap();
    assert_eq!(d.iterations, 40);
    assert_eq!(d.fevs, (1 + 2 * 40u64) * 3);
    assert!(d.fsimplex[0] <= initial_best);
    // the held values stay ranked ascending
    for w in d.fsimplex.windows(2) {
        assert!(w[0] <= w[1]);
    }
}
