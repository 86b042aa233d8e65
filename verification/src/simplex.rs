//! The mathematical model of simplices: shape, bounds, ordering, and the
//! reflect / expand / contract moves about the best vertex.

use vstd::prelude::*;

verus! {

/// Clamp `x` into the closed interval `[lo, hi]`.
pub open spec fn spec_clamp(x: int, lo: int, hi: int) -> int {
    if x < lo {
        lo
    } else if x > hi {
        hi
    } else {
        x
    }
}

/// `d` scaled by the nonnegative ratio `num / den`, rounded toward zero.
pub open spec fn spec_scaled(d: int, num: int, den: int) -> int
    recommends
        1 <= den,
        0 <= num,
{
    if d >= 0 {
        (num * d) / den
    } else {
        -((num * (-d)) / den)
    }
}

/// One coordinate of a move about the best coordinate `b`: the point `v`
/// is carried to the far side of `b`, `num / den` times as far out.
/// Ratio 1 gives the reflection `2b - v`.
pub open spec fn spec_move(b: int, v: int, num: int, den: int) -> int {
    b - spec_scaled(v - b, num, den)
}

/// Clamp a coordinate value into its bound pair.
pub open spec fn clamp_coord(x: i64, lo: i64, hi: i64) -> i64
    recommends
        lo <= hi,
{
    spec_clamp(x as int, lo as int, hi as int) as i64
}

/// The projection of a simplex: every coordinate of every vertex clamped
/// into its bound pair.
pub open spec fn spec_project(s: Seq<Seq<i64>>, xmin: Seq<i64>, xmax: Seq<i64>) -> Seq<Seq<i64>> {
    Seq::new(s.len(), |i: int| Seq::new(xmin.len(), |j: int| clamp_coord(s[i][j], xmin[j], xmax[j])))
}

/// `s` is a simplex of `dim + 1` vertices, each of `dim` coordinates.
pub open spec fn is_simplex(s: Seq<Seq<i64>>, dim: int) -> bool {
    &&& s.len() == dim + 1
    &&& forall|i: int| 0 <= i < s.len() ==> (#[trigger] s[i]).len() == dim
}

/// Every coordinate of every vertex of `s` lies within its bound pair.
pub open spec fn in_bounds(s: Seq<Seq<i64>>, xmin: Seq<i64>, xmax: Seq<i64>) -> bool {
    forall|i: int, j: int|
        0 <= i < s.len() && 0 <= j < s[i].len() ==> xmin[j] <= #[trigger] s[i][j] <= xmax[j]
}

/// The values sequence is non-decreasing.
pub open spec fn sorted(fs: Seq<i64>) -> bool {
    forall|i: int, j: int| 0 <= i <= j < fs.len() ==> fs[i] <= fs[j]
}

/// The index-aligned (value, vertex) pairs of a ranked simplex.
pub open spec fn pairs(fs: Seq<i64>, vs: Seq<Seq<i64>>) -> Seq<(i64, Seq<i64>)>
    recommends
        fs.len() == vs.len(),
{
    Seq::new(fs.len(), |i: int| (fs[i], vs[i]))
}

/// One coordinate of a candidate vertex: the move about the best
/// coordinate, clamped back into its bound pair.
pub open spec fn cand_coord(b: i64, v: i64, num: int, den: int, lo: i64, hi: i64) -> i64
    recommends
        lo <= hi,
{
    spec_clamp(spec_move(b as int, v as int, num, den), lo as int, hi as int) as i64
}

/// Candidate vertex `i`: vertex `i` of `s` moved about the best vertex
/// `s[0]` with ratio `num / den` and projected into the bounds.
pub open spec fn cand_vertex(
    s: Seq<Seq<i64>>,
    i: int,
    num: int,
    den: int,
    xmin: Seq<i64>,
    xmax: Seq<i64>,
) -> Seq<i64> {
    Seq::new(xmin.len(), |j: int| cand_coord(s[0][j], s[i][j], num, den, xmin[j], xmax[j]))
}

/// The least value among a nonempty sequence of (value, vertex) pairs:
/// the value that ranking the pairs puts first.
pub open spec fn min_value(ps: Seq<(i64, Seq<i64>)>) -> int
    recommends
        ps.len() > 0,
    decreases ps.len(),
{
    if ps.len() <= 1 {
        ps[0].0 as int
    } else {
        let m = min_value(ps.drop_last());
        if (ps.last().0 as int) < m {
            ps.last().0 as int
        } else {
            m
        }
    }
}

pub proof fn lemma_min_value_le(ps: Seq<(i64, Seq<i64>)>, i: int)
    requires
        0 <= i < ps.len(),
    ensures
        min_value(ps) <= ps[i].0,
    decreases ps.len(),
{
    if ps.len() > 1 && i < ps.len() - 1 {
        lemma_min_value_le(ps.drop_last(), i);
        assert(ps.drop_last()[i] == ps[i]);
    }
}

pub proof fn lemma_min_value_attained(ps: Seq<(i64, Seq<i64>)>)
    requires
        ps.len() > 0,
    ensures
        exists|i: int| 0 <= i < ps.len() && ps[i].0 == min_value(ps),
    decreases ps.len(),
{
    if ps.len() == 1 {
        assert(ps[0].0 == min_value(ps));
    } else {
        lemma_min_value_attained(ps.drop_last());
        if (ps.last().0 as int) < min_value(ps.drop_last()) {
            assert(ps[ps.len() - 1].0 == min_value(ps));
        } else {
            let i = choose|i: int|
                0 <= i < ps.drop_last().len() && ps.drop_last()[i].0 == min_value(ps.drop_last());
            assert(ps[i].0 == min_value(ps));
        }
    }
}

/// Clamping is idempotent, confines the result to `[lo, hi]`, and leaves
/// an in-interval value unchanged.
pub proof fn lemma_clamp_idempotent(x: int, lo: int, hi: int)
    requires
        lo <= hi,
    ensures
        spec_clamp(spec_clamp(x, lo, hi), lo, hi) == spec_clamp(x, lo, hi),
        lo <= spec_clamp(x, lo, hi) <= hi,
        lo <= x <= hi ==> spec_clamp(x, lo, hi) == x,
{
}

/// Projection is idempotent, and it leaves a simplex whose coordinates
/// already lie within their bounds unchanged.
pub proof fn lemma_project_idempotent(s: Seq<Seq<i64>>, xmin: Seq<i64>, xmax: Seq<i64>)
    requires
        xmin.len() == xmax.len(),
        forall|j: int| 0 <= j < xmin.len() ==> #[trigger] xmin[j] <= xmax[j],
    ensures
        spec_project(spec_project(s, xmin, xmax), xmin, xmax) == spec_project(s, xmin, xmax),
        (forall|i: int| 0 <= i < s.len() ==> (#[trigger] s[i]).len() == xmin.len())
            && in_bounds(s, xmin, xmax) ==> spec_project(s, xmin, xmax) == s,
{
    let once = spec_project(s, xmin, xmax);
    let twice = spec_project(once, xmin, xmax);
    assert forall|i: int| 0 <= i < s.len() implies #[trigger] twice[i] == once[i] by {
        assert forall|j: int| 0 <= j < xmin.len() implies #[trigger] twice[i][j] == once[i][j] by {
            lemma_clamp_idempotent(s[i][j] as int, xmin[j] as int, xmax[j] as int);
        }
        assert(twice[i] =~= once[i]);
    }
    assert(twice =~= once);
    if (forall|i: int| 0 <= i < s.len() ==> (#[trigger] s[i]).len() == xmin.len()) && in_bounds(
        s,
        xmin,
        xmax,
    ) {
        assert forall|i: int| 0 <= i < s.len() implies #[trigger] once[i] == s[i] by {
            assert forall|j: int| 0 <= j < xmin.len() implies #[trigger] once[i][j] == s[i][j] by {
                lemma_clamp_idempotent(s[i][j] as int, xmin[j] as int, xmax[j] as int);
            }
            assert(once[i] =~= s[i]);
        }
        assert(once =~= s);
    }
}

/// Moving the best vertex about itself leaves it in place: a zero offset
/// scales to zero, whatever the ratio.
pub proof fn lemma_move_fixes_best(b: int, num: int, den: int)
    requires
        1 <= den,
        0 <= num,
    ensures
        spec_move(b, b, num, den) == b,
{
    assert(num * 0 == 0) by (nonlinear_arith);
    assert(0int / den == 0) by (nonlinear_arith)
        requires 1 <= den;
}

/// Reflecting (or expanding, or contracting) the best vertex against
/// itself yields the best vertex unchanged: candidate vertex 0 of any
/// in-bounds simplex is the best vertex itself, whatever the ratio.
pub proof fn lemma_reflect_best_identity(
    s: Seq<Seq<i64>>,
    num: int,
    den: int,
    xmin: Seq<i64>,
    xmax: Seq<i64>,
)
    requires
        s.len() > 0,
        s[0].len() == xmin.len(),
        xmin.len() == xmax.len(),
        forall|j: int| 0 <= j < s[0].len() ==> xmin[j] <= #[trigger] s[0][j] <= xmax[j],
        1 <= den,
        0 <= num,
    ensures
        cand_vertex(s, 0, num, den, xmin, xmax) == s[0],
{
    assert forall|j: int| 0 <= j < xmin.len() implies cand_vertex(s, 0, num, den, xmin, xmax)[j]
        == s[0][j] by {
        lemma_move_fixes_best(s[0][j] as int, num, den);
    }
    assert(cand_vertex(s, 0, num, den, xmin, xmax) =~= s[0]);
}

} // verus!
