//! Host-side simplex operations: initialization, bounds projection,
//! ranking, and candidate generation with the batch evaluation pipeline.

use vstd::prelude::*;
use crate::problem::{Problem, Algopar, COEFF_LIMIT};
use crate::evalr::{Evaluator, EvalError};
use crate::rng::draw_in_range;
use crate::simplex::{
    spec_clamp, spec_scaled, spec_move, spec_project, cand_coord, cand_vertex, is_simplex,
    in_bounds, sorted, pairs, min_value, lemma_min_value_attained, lemma_min_value_le,
};

verus! {

/// The candidate pairs of one batch: vertex `i` of `s` moved about the
/// best vertex with ratio `num / den`, projected into the bounds, paired
/// with the value the evaluator assigns it at batch position `i`.
pub open spec fn cand_pairs<E: Evaluator>(
    e: &E,
    s: Seq<Seq<i64>>,
    num: int,
    den: int,
    xmin: Seq<i64>,
    xmax: Seq<i64>,
) -> Seq<(i64, Seq<i64>)> {
    Seq::new(
        s.len(),
        |i: int|
            (
                e.feval(cand_vertex(s, i, num, den, xmin, xmax), i),
                cand_vertex(s, i, num, den, xmin, xmax),
            ),
    )
}

/// A property true of every pair of `b` is true of every pair of `a`
/// whenever the two sequences hold the same pairs, in any order.
pub proof fn lemma_multiset_pair_transfer(
    a: Seq<(i64, Seq<i64>)>,
    b: Seq<(i64, Seq<i64>)>,
    p: spec_fn((i64, Seq<i64>)) -> bool,
)
    requires
        a.to_multiset() == b.to_multiset(),
        forall|i: int| 0 <= i < b.len() ==> #[trigger] p(b[i]),
    ensures
        forall|k: int| 0 <= k < a.len() ==> #[trigger] p(a[k]),
{
    broadcast use vstd::seq_lib::group_to_multiset_ensures;

    assert forall|k: int| 0 <= k < a.len() implies #[trigger] p(a[k]) by {
        assert(a.contains(a[k]));
        assert(b.to_multiset().count(a[k]) > 0);
        assert(b.contains(a[k]));
        let i = choose|i: int| 0 <= i < b.len() && b[i] == a[k];
        assert(p(b[i]));
    }
}

/// In a ranked batch that holds the pairs of `src`, the first value is
/// no larger than the value of any pair of `src`.
pub proof fn lemma_best_bounded(
    dst_f: Seq<i64>,
    dst_v: Seq<Seq<i64>>,
    src: Seq<(i64, Seq<i64>)>,
    pr: (i64, Seq<i64>),
)
    requires
        dst_f.len() == dst_v.len(),
        dst_f.len() > 0,
        sorted(dst_f),
        pairs(dst_f, dst_v).to_multiset() == src.to_multiset(),
        src.contains(pr),
    ensures
        dst_f[0] <= pr.0,
{
    broadcast use vstd::seq_lib::group_to_multiset_ensures;

    assert(src.to_multiset().count(pr) > 0);
    assert(pairs(dst_f, dst_v).contains(pr));
    let k = choose|k: int| 0 <= k < pairs(dst_f, dst_v).len() && pairs(dst_f, dst_v)[k] == pr;
    assert(dst_f[k] == pr.0);
    assert(dst_f[0] <= dst_f[k]);
}

/// Ranking puts the least value of the batch first: the first value of a
/// ranked batch that holds the pairs of `src` is the minimum of `src`.
pub proof fn lemma_ranked_first_is_min(
    dst_f: Seq<i64>,
    dst_v: Seq<Seq<i64>>,
    src: Seq<(i64, Seq<i64>)>,
)
    requires
        dst_f.len() == dst_v.len(),
        dst_f.len() > 0,
        sorted(dst_f),
        pairs(dst_f, dst_v).to_multiset() == src.to_multiset(),
    ensures
        dst_f[0] == min_value(src),
{
    broadcast use vstd::seq_lib::group_to_multiset_ensures;

    assert(src.len() == dst_f.len()) by {
        assert(pairs(dst_f, dst_v).len() == pairs(dst_f, dst_v).to_multiset().len());
        assert(src.len() == src.to_multiset().len());
    }
    lemma_min_value_attained(src);
    let i = choose|i: int| 0 <= i < src.len() && src[i].0 == min_value(src);
    assert(src.contains(src[i]));
    lemma_best_bounded(dst_f, dst_v, src, src[i]);
    let first = pairs(dst_f, dst_v)[0];
    assert(pairs(dst_f, dst_v).contains(first));
    assert(src.to_multiset().count(first) > 0);
    assert(src.contains(first));
    let k = choose|k: int| 0 <= k < src.len() && src[k] == first;
    lemma_min_value_le(src, k);
    assert(first.0 == dst_f[0]);
}

/// The starting simplex: `dim + 1` vertices, each coordinate drawn
/// independently and uniformly from its bound interval.
pub fn init(probparams: &Problem, random: &mut rand::rngs::StdRng) -> (r: Vec<Vec<i64>>)
    requires
        probparams.valid(),
    ensures
        is_simplex(r.deep_view(), probparams.dim as int),
        in_bounds(r.deep_view(), probparams.xmin@, probparams.xmax@),
{
    let mut out: Vec<Vec<i64>> = Vec::new();
    let count = probparams.dim + 1;
    for i in 0..count
        invariant
            count == probparams.dim + 1,
            probparams.valid(),
            out@.len() == i,
            forall|k: int|
                0 <= k < i ==> (#[trigger] out.deep_view()[k]).len() == probparams.dim,
            forall|k: int, j: int|
                0 <= k < i && 0 <= j < probparams.dim ==> probparams.xmin@[j]
                    <= #[trigger] out.deep_view()[k][j] <= probparams.xmax@[j],
    {
        let ghost old_dv = out.deep_view();
        let mut vert: Vec<i64> = Vec::new();
        let d = probparams.dim;
        for j in 0..d
            invariant
                d == probparams.dim,
                probparams.valid(),
                vert@.len() == j,
                forall|q: int|
                    0 <= q < j ==> probparams.xmin@[q] <= #[trigger] vert@[q]
                        <= probparams.xmax@[q],
        {
            vert.push(draw_in_range(random, probparams.xmin[j], probparams.xmax[j]));
        }
        let ghost vdv = vert.deep_view();
        out.push(vert);
        proof {
            assert(out.deep_view() =~~= old_dv.push(vdv));
        }
    }
    out
}

/// Clamp `x` into `[lo, hi]`.
pub fn clamp(x: i64, lo: i64, hi: i64) -> (r: i64)
    requires
        lo <= hi,
    ensures
        r == spec_clamp(x as int, lo as int, hi as int),
        lo <= r <= hi,
{
    if x < lo {
        lo
    } else if x > hi {
        hi
    } else {
        x
    }
}

/// Project every coordinate of every vertex into its bound pair: the
/// result agrees with `simplex` wherever a coordinate already lay within
/// `[xmin[j], xmax[j]]` and is clamped to the nearer bound elsewhere.
pub fn check_bounds(probparams: &Problem, simplex: &Vec<Vec<i64>>) -> (r: Vec<Vec<i64>>)
    requires
        probparams.valid(),
        forall|i: int|
            0 <= i < simplex@.len() ==> (#[trigger] simplex.deep_view()[i]).len()
                == probparams.dim,
    ensures
        r.deep_view().len() == simplex.deep_view().len(),
        forall|i: int|
            0 <= i < r.deep_view().len() ==> (#[trigger] r.deep_view()[i]).len()
                == probparams.dim,
        forall|i: int, j: int|
            0 <= i < r.deep_view().len() && 0 <= j < probparams.dim
                ==> #[trigger] r.deep_view()[i][j] == spec_clamp(
                simplex.deep_view()[i][j] as int,
                probparams.xmin@[j] as int,
                probparams.xmax@[j] as int,
            ),
        in_bounds(r.deep_view(), probparams.xmin@, probparams.xmax@),
        r.deep_view() == spec_project(simplex.deep_view(), probparams.xmin@, probparams.xmax@),
{
    let mut out: Vec<Vec<i64>> = Vec::new();
    let n = simplex.len();
    for i in 0..n
        invariant
            n == simplex@.len(),
            probparams.valid(),
            forall|k: int|
                0 <= k < simplex@.len() ==> (#[trigger] simplex.deep_view()[k]).len()
                    == probparams.dim,
            out@.len() == i,
            forall|k: int|
                0 <= k < i ==> (#[trigger] out.deep_view()[k]).len() == probparams.dim,
            forall|k: int, j: int|
                0 <= k < i && 0 <= j < probparams.dim ==> #[trigger] out.deep_view()[k][j]
                    == spec_clamp(
                    simplex.deep_view()[k][j] as int,
                    probparams.xmin@[j] as int,
                    probparams.xmax@[j] as int,
                ),
    {
        let ghost old_dv = out.deep_view();
        let mut vert: Vec<i64> = Vec::new();
        let d = probparams.dim;
        for j in 0..d
            invariant
                d == probparams.dim,
                probparams.valid(),
                0 <= i < simplex@.len(),
                simplex.deep_view()[i as int].len() == d,
                vert@.len() == j,
                forall|q: int|
                    0 <= q < j ==> #[trigger] vert@[q] == spec_clamp(
                        simplex.deep_view()[i as int][q] as int,
                        probparams.xmin@[q] as int,
                        probparams.xmax@[q] as int,
                    ),
        {
            let x = simplex[i][j];
            assert(x == simplex.deep_view()[i as int][j as int]);
            vert.push(clamp(x, probparams.xmin[j], probparams.xmax[j]));
        }
        let ghost vdv = vert.deep_view();
        out.push(vert);
        proof {
            assert(out.deep_view() =~~= old_dv.push(vdv));
        }
    }
    assert forall|i: int, j: int|
        0 <= i < out.deep_view().len() && 0 <= j < out.deep_view()[i].len() implies
        probparams.xmin@[j] <= #[trigger] out.deep_view()[i][j] <= probparams.xmax@[j] by {
        assert(out.deep_view()[i][j] == spec_clamp(
            simplex.deep_view()[i][j] as int,
            probparams.xmin@[j] as int,
            probparams.xmax@[j] as int,
        ));
    }
    proof {
        let sp = spec_project(simplex.deep_view(), probparams.xmin@, probparams.xmax@);
        assert forall|i: int| 0 <= i < out.deep_view().len() implies #[trigger] out.deep_view()[i]
            == sp[i] by {
            assert(out.deep_view()[i] =~= sp[i]);
        }
        assert(out.deep_view() =~= sp);
    }
    out
}

/// Rank a simplex: return the (vertex, value) pairs reordered so that the
/// values are non-decreasing. The output pairs are a permutation of the
/// input pairs; ties keep no particular order. Values are machine
/// integers, so every pair of values compares; a raw objective value
/// with no place in that total order must be rejected at the evaluation
/// boundary (`EvalError::OrderingFailure`), never handed to the ranker.
pub fn sortsimplex(simplex: &Vec<Vec<i64>>, fsimplex: &Vec<i64>) -> (r: (Vec<Vec<i64>>, Vec<i64>))
    requires
        simplex@.len() == fsimplex@.len(),
    ensures
        r.0.deep_view().len() == simplex@.len(),
        r.1@.len() == fsimplex@.len(),
        sorted(r.1@),
        pairs(r.1@, r.0.deep_view()).to_multiset() == pairs(
            fsimplex@,
            simplex.deep_view(),
        ).to_multiset(),
{
    broadcast use vstd::seq_lib::group_to_multiset_ensures;
    broadcast use vstd::seq_lib::to_multiset_insert;

    let n = fsimplex.len();
    let mut out_v: Vec<Vec<i64>> = Vec::new();
    let mut out_f: Vec<i64> = Vec::new();
    for k in 0..n
        invariant
            n == fsimplex@.len(),
            simplex@.len() == fsimplex@.len(),
            out_f@.len() == k,
            out_v@.len() == k,
            sorted(out_f@),
            pairs(out_f@, out_v.deep_view()).to_multiset() == pairs(
                fsimplex@.subrange(0, k as int),
                simplex.deep_view().subrange(0, k as int),
            ).to_multiset(),
    {
        let f = fsimplex[k];
        let v = simplex[k].clone();
        let ghost old_f = out_f@;
        let ghost old_vdv = out_v.deep_view();
        let mut pos: usize = 0;
        while pos < out_f.len() && out_f[pos] <= f
            invariant
                pos <= out_f@.len(),
                forall|q: int| 0 <= q < pos ==> out_f@[q] <= f,
                out_f@ == old_f,
            decreases out_f@.len() - pos,
        {
            pos += 1;
        }
        let ghost vdv = v.deep_view();
        out_f.insert(pos, f);
        out_v.insert(pos, v);
        proof {
            let pr = (f, vdv);
            let p_old = pairs(old_f, old_vdv);
            let rhs_old = pairs(
                fsimplex@.subrange(0, k as int),
                simplex.deep_view().subrange(0, k as int),
            );
            let rhs_new = pairs(
                fsimplex@.subrange(0, k as int + 1),
                simplex.deep_view().subrange(0, k as int + 1),
            );
            assert(vdv == simplex.deep_view()[k as int]);
            assert(out_v.deep_view() =~~= old_vdv.insert(pos as int, vdv));
            assert(pairs(out_f@, out_v.deep_view()) =~~= p_old.insert(pos as int, pr));
            assert(rhs_new =~~= rhs_old.push(pr));
            vstd::seq_lib::to_multiset_insert(p_old, pos as int, pr);
            vstd::seq_lib::to_multiset_build(rhs_old, pr);
            assert(sorted(out_f@)) by {
                assert(forall|q: int|
                    0 <= q < out_f@.len() && q < pos ==> out_f@[q] == old_f[q]);
                assert(forall|q: int|
                    pos < q < out_f@.len() ==> out_f@[q] == old_f[q - 1]);
                assert(pos < old_f.len() ==> old_f[pos as int] > f);
                assert forall|q: int| pos < q < out_f@.len() implies out_f@[q] >= f by {
                    assert(out_f@[q] == old_f[q - 1]);
                    assert(old_f[q - 1] >= old_f[pos as int]);
                }
            }
        }
    }
    proof {
        assert(fsimplex@.subrange(0, n as int) =~= fsimplex@);
        assert(simplex.deep_view().subrange(0, n as int) =~= simplex.deep_view());
    }
    (out_v, out_f)
}

/// One coordinate of a candidate vertex: move `v` about `b` with ratio
/// `num / den`, then clamp into `[lo, hi]`.
fn move_coord(b: i64, v: i64, num: i64, den: i64, lo: i64, hi: i64) -> (r: i64)
    requires
        1 <= num <= COEFF_LIMIT,
        1 <= den <= COEFF_LIMIT,
        lo <= hi,
    ensures
        r == cand_coord(b, v, num as int, den as int, lo, hi),
        lo <= r <= hi,
{
    let d: i128 = (v as i128) - (b as i128);
    let s: i128;
    if d >= 0 {
        proof {
            let ni = num as int;
            let di = d as int;
            assert(0 <= ni * di < 0x1_0000_0000_0000_0000_0000_0000) by (nonlinear_arith)
                requires
                    1 <= ni <= 1000000,
                    0 <= di < 0x1_0000_0000_0000_0000,
            ;
        }
        let m: u128 = (num as u128) * (d as u128);
        proof {
            let mi = m as int;
            let deni = den as int;
            assert(0 <= mi / deni <= mi) by (nonlinear_arith)
                requires
                    0 <= mi,
                    1 <= deni,
            ;
        }
        s = (m / (den as u128)) as i128;
        assert(s == spec_scaled(d as int, num as int, den as int));
    } else {
        let nd: i128 = -d;
        proof {
            let ni = num as int;
            let di = nd as int;
            assert(0 <= ni * di < 0x1_0000_0000_0000_0000_0000_0000) by (nonlinear_arith)
                requires
                    1 <= ni <= 1000000,
                    0 <= di <= 0x1_0000_0000_0000_0000,
            ;
        }
        let m: u128 = (num as u128) * (nd as u128);
        proof {
            let mi = m as int;
            let deni = den as int;
            assert(0 <= mi / deni <= mi) by (nonlinear_arith)
                requires
                    0 <= mi,
                    1 <= deni,
            ;
        }
        s = -((m / (den as u128)) as i128);
        assert(s == spec_scaled(d as int, num as int, den as int));
    }
    let mv: i128 = (b as i128) - s;
    assert(mv == spec_move(b as int, v as int, num as int, den as int));
    if mv < (lo as i128) {
        lo
    } else if mv > (hi as i128) {
        hi
    } else {
        mv as i64
    }
}

/// The full candidate simplex of one batch: every vertex moved about the
/// best vertex `simplex[0]` with ratio `num / den` and projected into the
/// bounds. Ratio 1 mirrors every vertex to the far side of the best: the
/// multidirectional reflection.
pub fn candidate(probparams: &Problem, simplex: &Vec<Vec<i64>>, num: i64, den: i64) -> (r: Vec<
    Vec<i64>,
>)
    requires
        probparams.valid(),
        is_simplex(simplex.deep_view(), probparams.dim as int),
        1 <= num <= COEFF_LIMIT,
        1 <= den <= COEFF_LIMIT,
    ensures
        is_simplex(r.deep_view(), probparams.dim as int),
        in_bounds(r.deep_view(), probparams.xmin@, probparams.xmax@),
        forall|i: int|
            0 <= i < r.deep_view().len() ==> #[trigger] r.deep_view()[i] == cand_vertex(
                simplex.deep_view(),
                i,
                num as int,
                den as int,
                probparams.xmin@,
                probparams.xmax@,
            ),
{
    let ghost sdv = simplex.deep_view();
    let mut out: Vec<Vec<i64>> = Vec::new();
    let n = simplex.len();
    for i in 0..n
        invariant
            n == simplex@.len(),
            sdv == simplex.deep_view(),
            probparams.valid(),
            is_simplex(sdv, probparams.dim as int),
            1 <= num <= COEFF_LIMIT,
            1 <= den <= COEFF_LIMIT,
            out@.len() == i,
            forall|k: int|
                0 <= k < i ==> #[trigger] out.deep_view()[k] == cand_vertex(
                    sdv,
                    k,
                    num as int,
                    den as int,
                    probparams.xmin@,
                    probparams.xmax@,
                ),
    {
        let ghost old_dv = out.deep_view();
        let mut vert: Vec<i64> = Vec::new();
        let d = probparams.dim;
        for j in 0..d
            invariant
                d == probparams.dim,
                sdv == simplex.deep_view(),
                probparams.valid(),
                is_simplex(sdv, d as int),
                0 <= i < sdv.len(),
                1 <= num <= COEFF_LIMIT,
                1 <= den <= COEFF_LIMIT,
                vert@.len() == j,
                forall|q: int|
                    0 <= q < j ==> #[trigger] vert@[q] == cand_coord(
                        sdv[0][q],
                        sdv[i as int][q],
                        num as int,
                        den as int,
                        probparams.xmin@[q],
                        probparams.xmax@[q],
                    ),
        {
            proof {
                assert(sdv[0] == simplex@[0].deep_view());
                assert(sdv[i as int] == simplex@[i as int].deep_view());
                assert(simplex@[0]@.len() == d);
                assert(simplex@[i as int]@.len() == d);
            }
            let b = simplex[0][j];
            let v = simplex[i][j];
            assert(b == sdv[0][j as int] && v == sdv[i as int][j as int]);
            vert.push(move_coord(b, v, num, den, probparams.xmin[j], probparams.xmax[j]));
        }
        proof {
            assert(vert@ =~= cand_vertex(
                sdv,
                i as int,
                num as int,
                den as int,
                probparams.xmin@,
                probparams.xmax@,
            ));
        }
        let ghost vdv = vert@;
        out.push(vert);
        proof {
            assert(out.deep_view() =~~= old_dv.push(vdv));
        }
    }
    assert forall|i: int, j: int|
        0 <= i < out.deep_view().len() && 0 <= j < out.deep_view()[i].len() implies
        probparams.xmin@[j] <= #[trigger] out.deep_view()[i][j] <= probparams.xmax@[j] by {
        assert(out.deep_view()[i] == cand_vertex(
            sdv,
            i,
            num as int,
            den as int,
            probparams.xmin@,
            probparams.xmax@,
        ));
        assert(probparams.xmin@[j] <= probparams.xmax@[j]);
    }
    out
}

/// One batch phase: move the simplex about its best vertex with ratio
/// `num / den`, project, evaluate the whole batch, count the `dim + 1`
/// evaluations, and rank the outcome. On evaluator failure the error is
/// returned and the evaluation counter is unchanged.
fn move_eval_sort<E: Evaluator>(
    probparams: &Problem,
    simplex: &Vec<Vec<i64>>,
    fevs: &mut u64,
    num: i64,
    den: i64,
    e: &E,
) -> (r: Result<(Vec<Vec<i64>>, Vec<i64>), EvalError>)
    requires
        probparams.valid(),
        is_simplex(simplex.deep_view(), probparams.dim as int),
        1 <= num <= COEFF_LIMIT,
        1 <= den <= COEFF_LIMIT,
        *old(fevs) + probparams.dim + 1 <= u64::MAX,
    ensures
        r matches Ok(p) ==> {
            &&& *final(fevs) == *old(fevs) + probparams.dim + 1
            &&& is_simplex(p.0.deep_view(), probparams.dim as int)
            &&& in_bounds(p.0.deep_view(), probparams.xmin@, probparams.xmax@)
            &&& p.1@.len() == probparams.dim + 1
            &&& sorted(p.1@)
            &&& pairs(p.1@, p.0.deep_view()).to_multiset() == cand_pairs(
                e,
                simplex.deep_view(),
                num as int,
                den as int,
                probparams.xmin@,
                probparams.xmax@,
            ).to_multiset()
            &&& p.1@[0] == min_value(cand_pairs(
                e,
                simplex.deep_view(),
                num as int,
                den as int,
                probparams.xmin@,
                probparams.xmax@,
            ))
        },
        r matches Err(_) ==> *final(fevs) == *old(fevs),
{
    let ghost sdv = simplex.deep_view();
    let cand = candidate(probparams, simplex, num, den);
    let vals = match e.evaluate(&cand) {
        Ok(v) => v,
        Err(er) => {
            return Err(er);
        },
    };
    *fevs = *fevs + (probparams.dim as u64) + 1;
    let (sv, sf) = sortsimplex(&cand, &vals);
    proof {
        let cp = cand_pairs(
            e,
            sdv,
            num as int,
            den as int,
            probparams.xmin@,
            probparams.xmax@,
        );
        assert(pairs(vals@, cand.deep_view()) =~~= cp);
        let dim = probparams.dim as int;
        let xmin = probparams.xmin@;
        let xmax = probparams.xmax@;
        let shape_ok = |pr: (i64, Seq<i64>)|
            pr.1.len() == dim && (forall|j: int|
                0 <= j < pr.1.len() ==> xmin[j] <= #[trigger] pr.1[j] <= xmax[j]);
        let cdv = cand.deep_view();
        assert forall|i: int| 0 <= i < cp.len() implies #[trigger] shape_ok(cp[i]) by {
            assert(cp[i].1 == cdv[i]);
        }
        lemma_multiset_pair_transfer(pairs(sf@, sv.deep_view()), cp, shape_ok);
        assert forall|i: int| 0 <= i < sv.deep_view().len() implies (#[trigger] sv.deep_view()[i]).len()
            == dim by {
            assert(shape_ok(pairs(sf@, sv.deep_view())[i]));
            assert(pairs(sf@, sv.deep_view())[i].1 == sv.deep_view()[i]);
        }
        assert forall|i: int, j: int|
            0 <= i < sv.deep_view().len() && 0 <= j < sv.deep_view()[i].len() implies
            xmin[j] <= #[trigger] sv.deep_view()[i][j] <= xmax[j] by {
            assert(shape_ok(pairs(sf@, sv.deep_view())[i]));
            assert(pairs(sf@, sv.deep_view())[i].1 == sv.deep_view()[i]);
        }
        lemma_ranked_first_is_min(sf@, sv.deep_view(), cp);
    }
    Ok((sv, sf))
}

/// Reflect every vertex of the ranked simplex about its best vertex,
/// project, evaluate as one batch, and rank the reflected simplex.
pub fn reflection<E: Evaluator>(
    probparams: &Problem,
    simplex: &Vec<Vec<i64>>,
    fevs: &mut u64,
    e: &E,
) -> (r: Result<(Vec<Vec<i64>>, Vec<i64>), EvalError>)
    requires
        probparams.valid(),
        is_simplex(simplex.deep_view(), probparams.dim as int),
        *old(fevs) + probparams.dim + 1 <= u64::MAX,
    ensures
        r matches Ok(p) ==> {
            &&& *final(fevs) == *old(fevs) + probparams.dim + 1
            &&& is_simplex(p.0.deep_view(), probparams.dim as int)
            &&& in_bounds(p.0.deep_view(), probparams.xmin@, probparams.xmax@)
            &&& p.1@.len() == probparams.dim + 1
            &&& sorted(p.1@)
            &&& pairs(p.1@, p.0.deep_view()).to_multiset() == cand_pairs(
                e,
                simplex.deep_view(),
                1,
                1,
                probparams.xmin@,
                probparams.xmax@,
            ).to_multiset()
            &&& p.1@[0] == min_value(cand_pairs(
                e,
                simplex.deep_view(),
                1,
                1,
                probparams.xmin@,
                probparams.xmax@,
            ))
        },
        r matches Err(_) ==> *final(fevs) == *old(fevs),
{
    move_eval_sort(probparams, simplex, fevs, 1, 1, e)
}

/// Expand every vertex past its reflection by the expansion ratio,
/// project, evaluate as one batch, and rank the expanded simplex.
pub fn expansion<E: Evaluator>(
    probparams: &Problem,
    simplex: &Vec<Vec<i64>>,
    fevs: &mut u64,
    parameters: &Algopar,
    e: &E,
) -> (r: Result<(Vec<Vec<i64>>, Vec<i64>), EvalError>)
    requires
        probparams.valid(),
        parameters.valid(),
        is_simplex(simplex.deep_view(), probparams.dim as int),
        *old(fevs) + probparams.dim + 1 <= u64::MAX,
    ensures
        r matches Ok(p) ==> {
            &&& *final(fevs) == *old(fevs) + probparams.dim + 1
            &&& is_simplex(p.0.deep_view(), probparams.dim as int)
            &&& in_bounds(p.0.deep_view(), probparams.xmin@, probparams.xmax@)
            &&& p.1@.len() == probparams.dim + 1
            &&& sorted(p.1@)
            &&& pairs(p.1@, p.0.deep_view()).to_multiset() == cand_pairs(
                e,
                simplex.deep_view(),
                parameters.pexp_num as int,
                parameters.pexp_den as int,
                probparams.xmin@,
                probparams.xmax@,
            ).to_multiset()
            &&& p.1@[0] == min_value(cand_pairs(
                e,
                simplex.deep_view(),
                parameters.pexp_num as int,
                parameters.pexp_den as int,
                probparams.xmin@,
                probparams.xmax@,
            ))
        },
        r matches Err(_) ==> *final(fevs) == *old(fevs),
{
    move_eval_sort(probparams, simplex, fevs, parameters.pexp_num, parameters.pexp_den, e)
}

/// Contract every vertex toward the best vertex by the contraction
/// ratio, project, evaluate as one batch, and rank the contracted simplex.
pub fn contraction<E: Evaluator>(
    probparams: &Problem,
    simplex: &Vec<Vec<i64>>,
    fevs: &mut u64,
    parameters: &Algopar,
    e: &E,
) -> (r: Result<(Vec<Vec<i64>>, Vec<i64>), EvalError>)
    requires
        probparams.valid(),
        parameters.valid(),
        is_simplex(simplex.deep_view(), probparams.dim as int),
        *old(fevs) + probparams.dim + 1 <= u64::MAX,
    ensures
        r matches Ok(p) ==> {
            &&& *final(fevs) == *old(fevs) + probparams.dim + 1
            &&& is_simplex(p.0.deep_view(), probparams.dim as int)
            &&& in_bounds(p.0.deep_view(), probparams.xmin@, probparams.xmax@)
            &&& p.1@.len() == probparams.dim + 1
            &&& sorted(p.1@)
            &&& pairs(p.1@, p.0.deep_view()).to_multiset() == cand_pairs(
                e,
                simplex.deep_view(),
                parameters.pcontr_num as int,
                parameters.pcontr_den as int,
                probparams.xmin@,
                probparams.xmax@,
            ).to_multiset()
            &&& p.1@[0] == min_value(cand_pairs(
                e,
                simplex.deep_view(),
                parameters.pcontr_num as int,
                parameters.pcontr_den as int,
                probparams.xmin@,
                probparams.xmax@,
            ))
        },
        r matches Err(_) ==> *final(fevs) == *old(fevs),
{
    move_eval_sort(probparams, simplex, fevs, parameters.pcontr_num, parameters.pcontr_den, e)
}

} // verus!
