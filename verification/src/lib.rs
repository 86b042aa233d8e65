//! Parallel multidirectional search: a derivative-free optimizer that, each
//! iteration, reflects the whole simplex about its best vertex, then expands
//! or contracts, evaluating every candidate direction as one batch.

pub mod problem;
pub mod simplex;
pub mod mdsops;
pub mod evalr;
pub mod rng;
pub mod driver;
