//! The random source of the initializer: a seeded generator of the
//! `rand` crate behind a trusted boundary.

use vstd::prelude::*;

verus! {

/// Relies on rand::rngs::StdRng being a plain owned value: the
/// generator's state is opaque here and nothing is assumed of it.
#[verifier::external_type_specification]
#[verifier::external_body]
pub struct ExStdRng(rand::rngs::StdRng);

/// Relies on rand::RngExt::random_range: a draw from the closed range
/// `lo..=hi`, which panics only on an empty range. Nothing more is
/// promised of a random value than its bounds.
#[verifier::external_body]
pub(crate) fn draw_in_range(random: &mut rand::rngs::StdRng, lo: i64, hi: i64) -> (r: i64)
    requires
        lo <= hi,
    ensures
        lo <= r <= hi,
{
    rand::RngExt::random_range(random, lo..=hi)
}

} // verus!
