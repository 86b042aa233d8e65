//! Problem description and search coefficients.

use vstd::prelude::*;

verus! {

/// Step coefficients of the search, as exact rationals: the expansion
/// ratio `pexp_num / pexp_den` must exceed 1, the contraction ratio
/// `pcontr_num / pcontr_den` must lie strictly between 0 and 1.
pub struct Algopar {
    pub pexp_num: i64,
    pub pexp_den: i64,
    pub pcontr_num: i64,
    pub pcontr_den: i64,
}

/// Largest coefficient numerator or denominator accepted, so that scaled
/// moves stay far from the edges of the machine integers.
pub const COEFF_LIMIT: i64 = 1000000;

impl Algopar {
    /// Both ratios are well formed: positive, within the headroom limit,
    /// expansion above 1 and contraction strictly inside (0, 1).
    pub open spec fn valid(self) -> bool {
        &&& 1 <= self.pexp_den <= COEFF_LIMIT
        &&& self.pexp_den < self.pexp_num <= COEFF_LIMIT
        &&& 1 <= self.pcontr_num
        &&& self.pcontr_num < self.pcontr_den <= COEFF_LIMIT
    }

    /// The conventional coefficients: expansion 2, contraction one half.
    pub fn standard() -> (r: Algopar)
        ensures
            r.valid(),
            r.pexp_num == 2 && r.pexp_den == 1,
            r.pcontr_num == 1 && r.pcontr_den == 2,
    {
        Algopar { pexp_num: 2, pexp_den: 1, pcontr_num: 1, pcontr_den: 2 }
    }
}

/// Problem description: dimension, per-dimension bounds, iteration budget
/// and the selector of the benchmark objective.
pub struct Problem {
    pub dim: usize,
    pub bench: usize,
    pub maxiters: u64,
    pub xmin: Vec<i64>,
    pub xmax: Vec<i64>,
}

impl Problem {
    /// The description is well formed: positive dimension, one bound pair
    /// per coordinate, and each pair ordered.
    pub open spec fn valid(self) -> bool {
        &&& 1 <= self.dim
        &&& self.dim + 1 <= usize::MAX
        &&& self.xmin@.len() == self.dim
        &&& self.xmax@.len() == self.dim
        &&& forall|j: int| 0 <= j < self.dim ==> self.xmin@[j] <= self.xmax@[j]
    }
}

} // verus!
