//! The snapshot of one transaction, as observed when it was resolved.

use crate::primitives::{Address, Hash256, U256};
use vstd::prelude::*;

verus! {

/// One transaction as the node reported it. A record is never changed after it
/// is built; a later confirmation would be a new record.
#[derive(Clone, Debug, PartialEq, Eq)]
pub struct TransactionRecord {
    /// The transaction's unique hash.
    pub hash: Hash256,
    /// The sender.
    pub from: Address,
    /// The destination; `None` for a contract creation.
    pub to: Option<Address>,
    /// The value sent, in the chain's smallest denomination.
    pub value: U256,
    /// The gas price offered, where the node gave one.
    pub gas_price: Option<U256>,
    /// The gas limit.
    pub gas: U256,
    /// The sender's nonce.
    pub nonce: U256,
    /// The raw call data.
    pub input: Vec<u8>,
    /// The number of the including block; `None` while pending.
    pub block_number: Option<u64>,
    /// The position inside the including block; `None` while pending.
    pub transaction_index: Option<u64>,
    /// The hash of the including block; `None` while pending.
    pub block_hash: Option<Hash256>,
    /// The chain identifier, where the transaction carries one.
    pub chain_id: Option<U256>,
}

} // verus!
