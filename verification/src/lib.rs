//! Validation core of a UTXO ledger: digests, signatures, Merkle commitment,
//! ledger entities and the block-acceptance rules.

use vstd::prelude::*;

pub mod chain;
pub mod crypto;
pub mod encoding;
pub mod error;
pub mod rules;
pub mod sha256;
pub mod types;
pub mod u256;
pub mod util;
pub mod utxo;

verus! {

/// The subsidy of the first blocks, in whole coins.
pub const INITIAL_REWARD: u64 = 50;

/// The number of blocks after which the subsidy is halved.
pub const HALVING_INTERVAL: u64 = 210;

} // verus!
