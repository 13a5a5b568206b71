//! Constants of the execution layer.

use vstd::prelude::*;

verus! {

/// The gas limit of system transactions at the first hardfork: 30 million.
pub const SYSTEM_TX_GAS_LIMIT_ADAGIO: u64 = 30_000_000;

/// The gas limit of system transactions from the second hardfork on: 150
/// million.
pub const SYSTEM_TX_GAS_LIMIT_MODERATO: u64 = 150_000_000;

} // verus!
