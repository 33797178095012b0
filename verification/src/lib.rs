//! Core state machine of a blockchain full node: block acceptance,
//! fork choice, reorganisation with exact undo, and the ledger caches
//! that back them.

use vstd::prelude::*;

pub mod accounting;
pub mod amount;
pub mod block;
pub mod chainstate;
pub mod collections;
pub mod config;
pub mod consensus;
pub mod errors;
pub mod hashing;
pub mod index;
pub mod keys;
pub mod node_config;
pub mod orphans;
pub mod output;
pub mod primitives;
pub mod sighash;
pub mod spend_cache;
pub mod storage;
pub mod timestamp;
pub mod transaction;
pub mod utxo;
pub mod tx_verifier;

verus! {

} // verus!
