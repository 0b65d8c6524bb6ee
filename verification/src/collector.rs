//! The bounded sample: records are kept in arrival order until the capacity is
//! reached, and none after that.

use crate::record::TransactionRecord;
use vstd::prelude::*;

verus! {

/// A sample as a mathematical value: its capacity and the records it holds, in
/// the order they were accepted.
pub struct Sample {
    pub capacity: nat,
    pub records: Seq<TransactionRecord>,
}

impl Sample {
    /// A sample never holds more than its capacity.
    pub open spec fn wf(self) -> bool {
        self.records.len() <= self.capacity
    }

    /// The sample that holds nothing yet.
    pub open spec fn empty(capacity: nat) -> Sample {
        Sample { capacity, records: Seq::empty() }
    }

    /// No room is left.
    pub open spec fn is_full(self) -> bool {
        self.records.len() >= self.capacity
    }

    /// The sample after `tx` was offered: `tx` is appended while there is room
    /// and dropped once the sample is full.
    pub open spec fn offer(self, tx: TransactionRecord) -> Sample {
        if self.is_full() {
            self
        } else {
            Sample { capacity: self.capacity, records: self.records.push(tx) }
        }
    }

    /// What an offer to this sample answers: whether room is left after it.
    pub open spec fn accepts_more_after_offer(self) -> bool {
        self.records.len() + 1 < self.capacity
    }

    /// The sample after each of `txs` was offered in turn.
    pub open spec fn offer_all(self, txs: Seq<TransactionRecord>) -> Sample
        decreases txs.len(),
    {
        if txs.len() == 0 {
            self
        } else {
            self.offer_all(txs.drop_last()).offer(txs.last())
        }
    }
}

/// The collector: owns the sample while it is being filled.
#[derive(Debug)]
pub struct Collector {
    capacity: usize,
    items: Vec<TransactionRecord>,
}

impl View for Collector {
    type V = Sample;

    closed spec fn view(&self) -> Sample {
        Sample { capacity: self.capacity as nat, records: self.items@ }
    }
}

impl Collector {
    #[verifier::type_invariant]
    spec fn within_capacity(self) -> bool {
        self.items@.len() <= self.capacity
    }

    /// An empty collector that will hold up to `capacity` records.
    pub fn new(capacity: usize) -> (collector: Collector)
        ensures
            collector@ == Sample::empty(capacity as nat),
    {
        Collector { capacity, items: Vec::new() }
    }

    /// The capacity fixed at construction.
    pub fn capacity(&self) -> (n: usize)
        ensures
            n == self@.capacity,
    {
        self.capacity
    }

    /// How many records are held, which is never more than the capacity.
    pub fn len(&self) -> (n: usize)
        ensures
            n == self@.records.len(),
            n <= self@.capacity,
            self@.wf(),
    {
        proof {
            use_type_invariant(self);
        }
        self.items.len()
    }

    /// Whether the capacity is reached.
    pub fn is_full(&self) -> (full: bool)
        ensures
            full == self@.is_full(),
    {
        self.items.len() >= self.capacity
    }

    /// Offers one record. While there is room the record is appended, and the
    /// answer says whether room is left after it: `false` on the offer that
    /// fills the sample. Once the sample is full the record is dropped and the
    /// answer is `false`.
    pub fn offer(&mut self, tx: TransactionRecord) -> (still_collecting: bool)
        ensures
            final(self)@ == old(self)@.offer(tx),
            still_collecting == old(self)@.accepts_more_after_offer(),
            final(self)@.wf(),
    {
        proof {
            use_type_invariant(&*self);
        }
        if self.items.len() >= self.capacity {
            return false;
        }
        // The vector is filled outside the collector and put back, so that the
        // collector is within its capacity at every point.
        let mut items: Vec<TransactionRecord> = Vec::new();
        core::mem::swap(&mut self.items, &mut items);
        items.push(tx);
        core::mem::swap(&mut self.items, &mut items);
        self.items.len() < self.capacity
    }

    /// The records held, in arrival order.
    pub fn records(&self) -> (held: &Vec<TransactionRecord>)
        ensures
            held@ == self@.records,
    {
        &self.items
    }

    /// Gives up the records, in arrival order.
    pub fn into_records(self) -> (held: Vec<TransactionRecord>)
        ensures
            held@ == self@.records,
            held@.len() <= self@.capacity,
    {
        proof {
            use_type_invariant(&self);
        }
        self.items
    }
}

/// Offering records one after another to an empty sample keeps the first
/// `capacity` of them, in order, and nothing more however many follow; the
/// answer to an offer is `true` for each of the first `capacity - 1` and
/// `false` from the one that fills the sample on.
pub proof fn lemma_offers_fill_then_stop(capacity: nat, txs: Seq<TransactionRecord>)
    ensures
        Sample::empty(capacity).offer_all(txs).wf(),
        Sample::empty(capacity).offer_all(txs).capacity == capacity,
        txs.len() <= capacity ==> Sample::empty(capacity).offer_all(txs).records == txs,
        txs.len() > capacity ==> Sample::empty(capacity).offer_all(txs).records == txs.take(
            capacity as int,
        ),
        Sample::empty(capacity).offer_all(txs).accepts_more_after_offer() == (txs.len() + 1
            < capacity),
    decreases txs.len(),
{
    if txs.len() > 0 {
        lemma_offers_fill_then_stop(capacity, txs.drop_last());
    }
}

} // verus!
