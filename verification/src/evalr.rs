//! The batched objective-evaluation capability: its contract, its error
//! taxonomy, and two reference evaluators.

use vstd::prelude::*;

verus! {

/// Failures of a batch evaluation: data could not cross the evaluator
/// boundary, the computation itself failed, or a returned value cannot be
/// totally ordered.
#[derive(Clone, Copy, Debug, PartialEq, Eq, Structural)]
pub enum EvalError {
    TransferFailure,
    ComputeFailure,
    OrderingFailure,
}

/// A batched objective evaluator. One call evaluates every point of the
/// batch; the returned values are index-aligned with the input points,
/// so the evaluator can neither reorder nor drop a point.
pub trait Evaluator {
    /// The value this evaluator assigns to `point` when it stands at
    /// position `idx` of a batch.
    spec fn feval(&self, point: Seq<i64>, idx: int) -> i64;

    /// Evaluate the whole batch, or report a typed failure.
    fn evaluate(&self, points: &Vec<Vec<i64>>) -> (r: Result<Vec<i64>, EvalError>)
        ensures
            r matches Ok(vals) ==> vals@.len() == points@.len() && (forall|i: int|
                0 <= i < vals@.len() ==> vals@[i] == self.feval(points.deep_view()[i], i)),
    ;
}

/// The evaluator assigns each point a value that does not depend on the
/// point's position in the batch. Every deterministic objective function
/// of the point alone has this property.
pub open spec fn index_blind<E: Evaluator>(e: &E) -> bool {
    forall|p: Seq<i64>, i: int, j: int|
        #![trigger e.feval(p, i), e.feval(p, j)]
        e.feval(p, i) == e.feval(p, j)
}

/// The sum of the squares of the entries of `p`.
pub open spec fn sum_sq(p: Seq<i64>) -> int
    decreases p.len(),
{
    if p.len() == 0 {
        0
    } else {
        sum_sq(p.drop_last()) + p.last() * p.last()
    }
}

pub proof fn lemma_sum_sq_nonneg(p: Seq<i64>)
    ensures
        sum_sq(p) >= 0,
    decreases p.len(),
{
    if p.len() > 0 {
        lemma_sum_sq_nonneg(p.drop_last());
        assert(p.last() * p.last() >= 0) by (nonlinear_arith);
    }
}

/// A prefix of `p` has a sum of squares no larger than all of `p`.
pub proof fn lemma_sum_sq_prefix(p: Seq<i64>, j: int)
    requires
        0 <= j <= p.len(),
    ensures
        sum_sq(p.subrange(0, j)) <= sum_sq(p),
    decreases p.len() - j,
{
    if j == p.len() {
        assert(p.subrange(0, j) =~= p);
    } else {
        lemma_sum_sq_prefix(p, j + 1);
        assert(p.subrange(0, j + 1).drop_last() =~= p.subrange(0, j));
        assert(p[j] * p[j] >= 0) by (nonlinear_arith);
    }
}

/// The sum of squares of a point, or `None` where it does not fit `i64`.
pub fn point_sum_sq(p: &Vec<i64>) -> (r: Option<i64>)
    ensures
        r is Some <==> sum_sq(p@) <= i64::MAX,
        r matches Some(v) ==> v == sum_sq(p@),
{
    let mut acc: i128 = 0;
    let n = p.len();
    for j in 0..n
        invariant
            n == p@.len(),
            acc == sum_sq(p@.subrange(0, j as int)),
            0 <= acc <= i64::MAX,
    {
        let x = p[j];
        proof {
            let xi = x as int;
            assert(0 <= xi * xi <= 0x4000_0000_0000_0000_0000_0000_0000_0000)
                by (nonlinear_arith)
                requires
                    -0x8000_0000_0000_0000 <= xi <= 0x7fff_ffff_ffff_ffff,
            ;
            assert(p@.subrange(0, j as int + 1).drop_last() =~= p@.subrange(0, j as int));
        }
        let t: i128 = (x as i128) * (x as i128);
        acc = acc + t;
        if acc > (i64::MAX as i128) {
            proof {
                lemma_sum_sq_prefix(p@, j as int + 1);
            }
            return None;
        }
    }
    proof {
        assert(p@.subrange(0, n as int) =~= p@);
    }
    Some(acc as i64)
}

/// The sum-of-squares benchmark objective, computed on the host.
pub struct SumSquaresEvaluator {}

impl Evaluator for SumSquaresEvaluator {
    /// The sum of squares of the point, wherever it fits the value type;
    /// the position in the batch plays no part.
    open spec fn feval(&self, point: Seq<i64>, idx: int) -> i64 {
        if sum_sq(point) <= i64::MAX {
            sum_sq(point) as i64
        } else {
            0
        }
    }

    fn evaluate(&self, points: &Vec<Vec<i64>>) -> (r: Result<Vec<i64>, EvalError>) {
        let mut vals: Vec<i64> = Vec::new();
        let n = points.len();
        for i in 0..n
            invariant
                n == points@.len(),
                vals@.len() == i,
                forall|q: int|
                    0 <= q < i ==> vals@[q] == self.feval(points.deep_view()[q], q),
        {
            match point_sum_sq(&points[i]) {
                Some(v) => {
                    proof {
                        lemma_sum_sq_nonneg(points.deep_view()[i as int]);
                        assert(points.deep_view()[i as int] == points@[i as int]@);
                    }
                    vals.push(v);
                },
                None => {
                    return Err(EvalError::ComputeFailure);
                },
            }
        }
        Ok(vals)
    }
}

/// Every evaluator whose value is a function of the point alone is
/// index-blind; in particular the sum-of-squares evaluator is.
pub proof fn lemma_sum_squares_index_blind(e: &SumSquaresEvaluator)
    ensures
        index_blind(e),
{
}

/// A diagnostic stub: the value of each point is its position in the
/// batch, so the returned values of a batch of `m` points read `0..m` in
/// input order exactly when nothing was reordered or dropped.
pub struct IndexEvaluator {}

impl Evaluator for IndexEvaluator {
    /// The position of the point in the batch, where it fits the value
    /// type; the point itself plays no part.
    open spec fn feval(&self, point: Seq<i64>, idx: int) -> i64 {
        if 0 <= idx <= i64::MAX {
            idx as i64
        } else {
            0
        }
    }

    fn evaluate(&self, points: &Vec<Vec<i64>>) -> (r: Result<Vec<i64>, EvalError>) {
        let mut vals: Vec<i64> = Vec::new();
        let n = points.len();
        for i in 0..n
            invariant
                n == points@.len(),
                vals@.len() == i,
                i <= 0x7fff_ffff_ffff_ffff,
                forall|q: int|
                    0 <= q < i ==> vals@[q] == self.feval(points.deep_view()[q], q),
        {
            if (i as u64) >= 0x7fff_ffff_ffff_ffffu64 {
                return Err(EvalError::ComputeFailure);
            }
            vals.push(i as i64);
        }
        Ok(vals)
    }
}

/// Values the index evaluator returns for a batch read `0, 1, 2, ...`
/// in input order exactly: a batch evaluation that meets the contract
/// has neither reordered nor dropped a point.
pub proof fn lemma_index_evaluator_order(e: &IndexEvaluator, points: Seq<Seq<i64>>, vals: Seq<i64>)
    requires
        vals.len() == points.len(),
        vals.len() <= i64::MAX,
        forall|i: int| 0 <= i < vals.len() ==> #[trigger] vals[i] == e.feval(points[i], i),
    ensures
        forall|i: int| 0 <= i < vals.len() ==> #[trigger] vals[i] == i,
{
}

} // verus!
