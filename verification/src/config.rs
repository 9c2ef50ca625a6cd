//! The three settings of the benchmark.

use vstd::prelude::*;

verus! {

/// The number of transactions to process.
pub const TOTAL_TRANSACTIONS: u32 = 100_000;

/// The number of transactions in a batch.
pub const BATCH_SIZE: usize = 1_000;

/// The number of batches that run at once.
pub const CONCURRENCY: usize = 50;

} // verus!
