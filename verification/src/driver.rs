//! The search loop: it owns the current ranked simplex and the counters,
//! and performs one reflect, then expand-or-contract, iteration per pass.

use vstd::prelude::*;
use crate::problem::{Problem, Algopar};
use crate::evalr::{Evaluator, EvalError, index_blind};
use crate::mdsops::{
    init, check_bounds, sortsimplex, reflection, expansion, contraction, cand_pairs,
    lemma_multiset_pair_transfer, lemma_best_bounded,
};
use crate::simplex::{is_simplex, in_bounds, sorted, pairs, min_value, lemma_reflect_best_identity};

verus! {

/// The state the search loop owns: the current ranked simplex with its
/// values, the cumulative evaluation count and the iteration count.
pub struct Driver {
    pub simplex: Vec<Vec<i64>>,
    pub fsimplex: Vec<i64>,
    pub fevs: u64,
    pub iterations: u64,
}

impl Driver {
    /// The driver's invariant between iterations: a full simplex of the
    /// problem's shape, every coordinate within its bounds, and the
    /// values ranked ascending, so vertex 0 is the current best.
    pub open spec fn wf(self, prob: Problem) -> bool {
        &&& is_simplex(self.simplex.deep_view(), prob.dim as int)
        &&& self.fsimplex@.len() == prob.dim + 1
        &&& sorted(self.fsimplex@)
        &&& in_bounds(self.simplex.deep_view(), prob.xmin@, prob.xmax@)
    }

    /// Every held value is the evaluator's value of its vertex. This is
    /// meaningful for an index-blind evaluator, whose value does not
    /// depend on the batch position.
    pub open spec fn consistent<E: Evaluator>(self, e: &E) -> bool {
        forall|k: int|
            0 <= k < self.fsimplex@.len() ==> #[trigger] self.fsimplex@[k] == e.feval(
                self.simplex.deep_view()[k],
                0,
            )
    }

    /// Start the search: draw the initial simplex, project it, evaluate
    /// it as one batch of `dim + 1` points, and rank it.
    pub fn new<E: Evaluator>(
        probparams: &Problem,
        e: &E,
        random: &mut rand::rngs::StdRng,
    ) -> (r: Result<Driver, EvalError>)
        requires
            probparams.valid(),
        ensures
            r matches Ok(d) ==> {
                &&& d.wf(*probparams)
                &&& d.fevs == probparams.dim + 1
                &&& d.iterations == 0
                &&& (index_blind(e) ==> d.consistent(e))
            },
    {
        let s0 = init(probparams, random);
        let s0 = check_bounds(probparams, &s0);
        let vals = match e.evaluate(&s0) {
            Ok(v) => v,
            Err(er) => {
                return Err(er);
            },
        };
        let (sv, sf) = sortsimplex(&s0, &vals);
        proof {
            let src = pairs(vals@, s0.deep_view());
            lemma_shape_transfer(
                probparams.dim as int,
                probparams.xmin@,
                probparams.xmax@,
                sf@,
                sv.deep_view(),
                src,
            );
            if index_blind(e) {
                lemma_batch_transfer(
                    e,
                    probparams.dim as int,
                    probparams.xmin@,
                    probparams.xmax@,
                    sf@,
                    sv.deep_view(),
                    src,
                );
            }
        }
        Ok(Driver { simplex: sv, fsimplex: sf, fevs: (probparams.dim as u64) + 1, iterations: 0 })
    }

    /// One MDS iteration. The reflected batch is generated, evaluated
    /// and ranked; if its best value improves on the held best, the
    /// expanded batch is tried and the better of the two is accepted;
    /// otherwise the contracted batch is accepted unconditionally.
    /// Exactly two batches of `dim + 1` evaluations are counted. For an
    /// index-blind evaluator whose values the driver holds, the best
    /// value never worsens. An evaluator failure leaves the simplex and
    /// the iteration count unchanged and is returned as is.
    pub fn step<E: Evaluator>(
        &mut self,
        probparams: &Problem,
        parameters: &Algopar,
        e: &E,
    ) -> (r: Result<(), EvalError>)
        requires
            old(self).wf(*probparams),
            probparams.valid(),
            parameters.valid(),
            old(self).fevs + 2 * (probparams.dim + 1) <= u64::MAX,
            old(self).iterations < u64::MAX,
        ensures
            r matches Ok(_) ==> {
                &&& final(self).wf(*probparams)
                &&& final(self).iterations == old(self).iterations + 1
                &&& final(self).fevs == old(self).fevs + 2 * (probparams.dim + 1)
                &&& (index_blind(e) && old(self).consistent(e) ==> final(self).consistent(e)
                    && final(self).fsimplex@[0] <= old(self).fsimplex@[0])
                &&& ({
                    let pool_r = cand_pairs(
                        e,
                        old(self).simplex.deep_view(),
                        1,
                        1,
                        probparams.xmin@,
                        probparams.xmax@,
                    );
                    let pool_e = cand_pairs(
                        e,
                        old(self).simplex.deep_view(),
                        parameters.pexp_num as int,
                        parameters.pexp_den as int,
                        probparams.xmin@,
                        probparams.xmax@,
                    );
                    let pool_c = cand_pairs(
                        e,
                        old(self).simplex.deep_view(),
                        parameters.pcontr_num as int,
                        parameters.pcontr_den as int,
                        probparams.xmin@,
                        probparams.xmax@,
                    );
                    let newp = pairs(final(self).fsimplex@, final(self).simplex.deep_view());
                    if min_value(pool_r) < old(self).fsimplex@[0] {
                        if min_value(pool_e) < min_value(pool_r) {
                            newp.to_multiset() == pool_e.to_multiset()
                        } else {
                            newp.to_multiset() == pool_r.to_multiset()
                        }
                    } else {
                        newp.to_multiset() == pool_c.to_multiset()
                    }
                })
            },
            r matches Err(_) ==> {
                &&& final(self).simplex.deep_view() == old(self).simplex.deep_view()
                &&& final(self).fsimplex@ == old(self).fsimplex@
                &&& final(self).iterations == old(self).iterations
                &&& (final(self).fevs == old(self).fevs || final(self).fevs == old(self).fevs
                    + (probparams.dim + 1))
            },
    {
        let ghost pre = *old(self);
        let ghost sdv = old(self).simplex.deep_view();
        let ghost xmin = probparams.xmin@;
        let ghost xmax = probparams.xmax@;
        let (rv, rf) = match reflection(probparams, &self.simplex, &mut self.fevs, e) {
            Ok(p) => p,
            Err(er) => {
                return Err(er);
            },
        };
        if rf[0] < self.fsimplex[0] {
            let (ev, ef) = match expansion(probparams, &self.simplex, &mut self.fevs, parameters, e) {
                Ok(p) => p,
                Err(er) => {
                    return Err(er);
                },
            };
            if ef[0] < rf[0] {
                proof {
                    if index_blind(e) && pre.consistent(e) {
                        lemma_batch_transfer(
                            e,
                            probparams.dim as int,
                            xmin,
                            xmax,
                            ef@,
                            ev.deep_view(),
                            cand_pairs(
                                e,
                                sdv,
                                parameters.pexp_num as int,
                                parameters.pexp_den as int,
                                xmin,
                                xmax,
                            ),
                        );
                    }
                }
                self.simplex = ev;
                self.fsimplex = ef;
            } else {
                proof {
                    if index_blind(e) && pre.consistent(e) {
                        lemma_batch_transfer(
                            e,
                            probparams.dim as int,
                            xmin,
                            xmax,
                            rf@,
                            rv.deep_view(),
                            cand_pairs(e, sdv, 1, 1, xmin, xmax),
                        );
                    }
                }
                self.simplex = rv;
                self.fsimplex = rf;
            }
        } else {
            let (cv, cf) = match contraction(probparams, &self.simplex, &mut self.fevs, parameters, e) {
                Ok(p) => p,
                Err(er) => {
                    return Err(er);
                },
            };
            proof {
                if index_blind(e) && pre.consistent(e) {
                    let num = parameters.pcontr_num as int;
                    let den = parameters.pcontr_den as int;
                    let pool = cand_pairs(e, sdv, num, den, xmin, xmax);
                    lemma_batch_transfer(
                        e,
                        probparams.dim as int,
                        xmin,
                        xmax,
                        cf@,
                        cv.deep_view(),
                        pool,
                    );
                    lemma_reflect_best_identity(sdv, num, den, xmin, xmax);
                    assert(pool[0] == (e.feval(sdv[0], 0), sdv[0]));
                    assert(pool[0].0 == pre.fsimplex@[0]);
                    assert(pool.contains(pool[0]));
                    lemma_best_bounded(cf@, cv.deep_view(), pool, pool[0]);
                }
            }
            self.simplex = cv;
            self.fsimplex = cf;
        }
        self.iterations = self.iterations + 1;
        Ok(())
    }

    /// Run iterations until the budget `maxiters` is exhausted. Each
    /// iteration counts two batches of `dim + 1` evaluations, so on
    /// success the cumulative count grows by exactly
    /// `2 * (maxiters - iterations) * (dim + 1)`; with the initial batch
    /// of `new`, a full search from iteration 0 performs
    /// `(1 + 2 * maxiters) * (dim + 1)` evaluations in all. For an
    /// index-blind evaluator whose values the driver holds, the best
    /// value never worsens across the whole run.
    pub fn run<E: Evaluator>(
        &mut self,
        probparams: &Problem,
        parameters: &Algopar,
        e: &E,
    ) -> (r: Result<(), EvalError>)
        requires
            old(self).wf(*probparams),
            probparams.valid(),
            parameters.valid(),
            old(self).iterations <= probparams.maxiters,
            old(self).fevs + 2 * (probparams.maxiters - old(self).iterations) * (probparams.dim
                + 1) <= u64::MAX,
        ensures
            r matches Ok(_) ==> {
                &&& final(self).wf(*probparams)
                &&& final(self).iterations == probparams.maxiters
                &&& final(self).fevs == old(self).fevs + 2 * (probparams.maxiters
                    - old(self).iterations) * (probparams.dim + 1)
                &&& (index_blind(e) && old(self).consistent(e) ==> final(self).consistent(e)
                    && final(self).fsimplex@[0] <= old(self).fsimplex@[0])
            },
            r matches Err(_) ==> final(self).wf(*probparams) && final(self).iterations
                <= probparams.maxiters,
    {
        let ghost pre = *old(self);
        let ghost n1 = probparams.dim as int + 1;
        proof {
            assert(2 * (self.iterations - pre.iterations) * n1 == 0) by (nonlinear_arith)
                requires
                    self.iterations == pre.iterations,
            ;
        }
        while self.iterations < probparams.maxiters
            invariant
                self.wf(*probparams),
                probparams.valid(),
                parameters.valid(),
                pre.iterations <= self.iterations <= probparams.maxiters,
                self.fevs == pre.fevs + 2 * (self.iterations - pre.iterations) * n1,
                n1 == probparams.dim as int + 1,
                pre.fevs + 2 * (probparams.maxiters - pre.iterations) * n1 <= u64::MAX,
                index_blind(e) && pre.consistent(e) ==> self.consistent(e) && self.fsimplex@[0]
                    <= pre.fsimplex@[0],
            decreases probparams.maxiters - self.iterations,
        {
            proof {
                let a = self.iterations as int - pre.iterations as int;
                let b = probparams.maxiters as int - pre.iterations as int;
                assert(2 * a * n1 + 2 * n1 == 2 * (a + 1) * n1) by (nonlinear_arith);
                assert(2 * (a + 1) * n1 <= 2 * b * n1) by (nonlinear_arith)
                    requires
                        a + 1 <= b,
                        n1 >= 0,
                ;
            }
            let ghost before = *self;
            match self.step(probparams, parameters, e) {
                Ok(_) => {},
                Err(er) => {
                    return Err(er);
                },
            }
            proof {
                let a = before.iterations as int - pre.iterations as int;
                assert(2 * a * n1 + 2 * n1 == 2 * (a + 1) * n1) by (nonlinear_arith);
            }
        }
        Ok(())
    }
}

/// Evaluation-count accounting: a search that performs the initial batch
/// of `n1` evaluations and then `k` iterations of two batches each has
/// performed `(1 + 2k) * n1` evaluations in all — one batch for the
/// start, and per iteration one reflection batch plus one expansion or
/// contraction batch, never both.
pub proof fn lemma_total_evaluations(k: int, n1: int)
    ensures
        n1 + 2 * k * n1 == (1 + 2 * k) * n1,
{
    assert(n1 + 2 * k * n1 == (1 + 2 * k) * n1) by (nonlinear_arith);
}

/// Shape survives ranking: where every vertex paired in `src` has the
/// problem's `dim` coordinates, each within its bounds, the same holds
/// of the ranked vertices.
proof fn lemma_shape_transfer(
    dim: int,
    xmin: Seq<i64>,
    xmax: Seq<i64>,
    dst_f: Seq<i64>,
    dst_v: Seq<Seq<i64>>,
    src: Seq<(i64, Seq<i64>)>,
)
    requires
        dst_f.len() == dst_v.len(),
        pairs(dst_f, dst_v).to_multiset() == src.to_multiset(),
        forall|i: int|
            0 <= i < src.len() ==> (#[trigger] src[i]).1.len() == dim && (forall|j: int|
                0 <= j < src[i].1.len() ==> xmin[j] <= #[trigger] src[i].1[j] <= xmax[j]),
    ensures
        forall|k: int| 0 <= k < dst_v.len() ==> (#[trigger] dst_v[k]).len() == dim,
        in_bounds(dst_v, xmin, xmax),
{
    let p = |pr: (i64, Seq<i64>)|
        pr.1.len() == dim && (forall|j: int|
            0 <= j < pr.1.len() ==> xmin[j] <= #[trigger] pr.1[j] <= xmax[j]);
    assert forall|i: int| 0 <= i < src.len() implies #[trigger] p(src[i]) by {
        assert(src[i].1.len() == dim);
    }
    lemma_multiset_pair_transfer(pairs(dst_f, dst_v), src, p);
    assert forall|k: int| 0 <= k < dst_v.len() implies (#[trigger] dst_v[k]).len() == dim by {
        assert(p(pairs(dst_f, dst_v)[k]));
        assert(pairs(dst_f, dst_v)[k].1 == dst_v[k]);
    }
    assert forall|k: int, j: int|
        0 <= k < dst_v.len() && 0 <= j < dst_v[k].len() implies xmin[j] <= #[trigger] dst_v[k][j]
        <= xmax[j] by {
        assert(p(pairs(dst_f, dst_v)[k]));
        assert(pairs(dst_f, dst_v)[k].1 == dst_v[k]);
    }
}

/// What survives ranking a batch: the ranked pairs hold the same
/// vertices, each of the problem's shape and within its bounds, and for
/// an index-blind evaluator each ranked value is its vertex's value.
proof fn lemma_batch_transfer<E: Evaluator>(
    e: &E,
    dim: int,
    xmin: Seq<i64>,
    xmax: Seq<i64>,
    dst_f: Seq<i64>,
    dst_v: Seq<Seq<i64>>,
    src: Seq<(i64, Seq<i64>)>,
)
    requires
        dst_f.len() == dst_v.len(),
        pairs(dst_f, dst_v).to_multiset() == src.to_multiset(),
        index_blind(e),
        forall|i: int| 0 <= i < src.len() ==> (#[trigger] src[i]).0 == e.feval(src[i].1, i),
    ensures
        forall|k: int| 0 <= k < dst_f.len() ==> #[trigger] dst_f[k] == e.feval(dst_v[k], 0),
{
    let p = |pr: (i64, Seq<i64>)| pr.0 == e.feval(pr.1, 0);
    assert forall|i: int| 0 <= i < src.len() implies #[trigger] p(src[i]) by {
        assert(e.feval(src[i].1, i) == e.feval(src[i].1, 0));
    }
    lemma_multiset_pair_transfer(pairs(dst_f, dst_v), src, p);
    assert forall|k: int| 0 <= k < dst_f.len() implies #[trigger] dst_f[k] == e.feval(
        dst_v[k],
        0,
    ) by {
        assert(p(pairs(dst_f, dst_v)[k]));
        assert(pairs(dst_f, dst_v)[k] == (dst_f[k], dst_v[k]));
    }
}


} // verus!
