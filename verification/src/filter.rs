//! The destination filter: which transactions are kept.

use crate::primitives::Address;
use crate::record::TransactionRecord;
use vstd::prelude::*;

verus! {

/// A record is addressed to `target` when it has a destination and that
/// destination is `target`, byte for byte.
pub open spec fn addressed_to(tx: TransactionRecord, target: Address) -> bool {
    tx.to matches Some(to) && to@ == target@
}

/// Whether `tx` is sent to `target`. A contract creation, which has no
/// destination, matches no target.
pub fn matches(tx: &TransactionRecord, target: &Address) -> (kept: bool)
    ensures
        kept == addressed_to(*tx, *target),
        kept == (tx.to == Some(*target)),
        tx.to is None ==> !kept,
{
    match &tx.to {
        Some(to) => to.same_as(target),
        None => false,
    }
}

} // verus!
