//! The pipeline driver: a state machine that is handed what the source and the
//! resolver deliver, one event at a time, and answers with what to do next.

use crate::collector::{lemma_offers_fill_then_stop, Collector, Sample};
use crate::error::TrackerError;
use crate::filter::addressed_to;
use crate::primitives::{Address, Hash256};
use crate::record::TransactionRecord;
use vstd::prelude::*;

verus! {

/// Why a driver stopped.
#[derive(Clone, Copy, Debug, PartialEq, Eq, Structural)]
pub enum StopReason {
    /// The sample reached its capacity.
    Full,
    /// The source ended before the sample was full.
    SourceEnded,
    /// The connection could not be established; the driver never ran.
    Fatal,
}

/// The driver's state.
#[derive(Clone, Copy, Debug, PartialEq, Eq, Structural)]
pub enum DriverState {
    Running,
    Stopped(StopReason),
}

/// What the resolver answered for one identifier.
#[derive(Clone, Debug, PartialEq, Eq)]
pub enum Resolution {
    /// The node returned the transaction.
    Found(TransactionRecord),
    /// The node does not know the identifier.
    Absent,
    /// The lookup failed; the text describes the failure.
    Failed(String),
}

/// What is handed to the driver.
#[derive(Clone, Debug, PartialEq, Eq)]
pub enum Event {
    /// The source delivered an identifier.
    Identifier(Hash256),
    /// The resolver answered for the identifier last handed out.
    Resolved(Resolution),
    /// The source ended.
    SourceEnded,
}

/// What the driver asks for in answer to an event.
#[derive(Clone, Debug, PartialEq, Eq)]
pub enum Action {
    /// Resolve this identifier and hand back the answer.
    Resolve(Hash256),
    /// Wait for the next identifier.
    Continue,
    /// Report this recoverable failure, then wait for the next identifier.
    Diagnose(TrackerError),
    /// Stop consuming the source and issue no further lookups.
    Stop(StopReason),
}

/// A driver as a mathematical value.
pub struct DriverModel {
    pub target: Address,
    pub sample: Sample,
    pub state: DriverState,
}

impl DriverModel {
    /// The sample is within its capacity.
    pub open spec fn wf(self) -> bool {
        self.sample.wf()
    }

    /// The driver as it starts: running, with an empty sample.
    pub open spec fn initial(target: Address, capacity: nat) -> DriverModel {
        DriverModel { target, sample: Sample::empty(capacity), state: DriverState::Running }
    }

    /// The driver of a run whose connection failed: stopped, with an empty
    /// sample.
    pub open spec fn unconnected(target: Address, capacity: nat) -> DriverModel {
        DriverModel {
            target,
            sample: Sample::empty(capacity),
            state: DriverState::Stopped(StopReason::Fatal),
        }
    }

    /// The same driver, stopped for `reason`.
    pub open spec fn stopped(self, reason: StopReason) -> DriverModel {
        DriverModel { state: DriverState::Stopped(reason), ..self }
    }

    /// The same driver with `tx` offered to its sample.
    pub open spec fn offered(self, tx: TransactionRecord) -> DriverModel {
        DriverModel { sample: self.sample.offer(tx), ..self }
    }

    /// One transition: the next driver and the action asked for.
    ///
    /// A stopped driver stays as it is and answers `Stop`. A running driver
    /// asks for each identifier to be resolved; skips a failed lookup (with a
    /// diagnostic), an unknown identifier and a record that is not addressed to
    /// the target; offers a record that is, and stops as `Full` when the sample
    /// answers that it takes no more; and stops as `SourceEnded` when the
    /// source ends.
    pub open spec fn step(self, event: Event) -> (DriverModel, Action) {
        match self.state {
            DriverState::Stopped(reason) => (self, Action::Stop(reason)),
            DriverState::Running => match event {
                Event::Identifier(id) => (self, Action::Resolve(id)),
                Event::SourceEnded => (
                    self.stopped(StopReason::SourceEnded),
                    Action::Stop(StopReason::SourceEnded),
                ),
                Event::Resolved(Resolution::Failed(failure)) => (
                    self,
                    Action::Diagnose(TrackerError::Resolution(failure)),
                ),
                Event::Resolved(Resolution::Absent) => (self, Action::Continue),
                Event::Resolved(Resolution::Found(tx)) => if !addressed_to(tx, self.target) {
                    (self, Action::Continue)
                } else if self.sample.accepts_more_after_offer() {
                    (self.offered(tx), Action::Continue)
                } else {
                    (self.offered(tx).stopped(StopReason::Full), Action::Stop(StopReason::Full))
                },
            },
        }
    }

    /// The driver after a sequence of events.
    pub open spec fn run(self, events: Seq<Event>) -> DriverModel
        decreases events.len(),
    {
        if events.len() == 0 {
            self
        } else {
            self.run(events.drop_last()).step(events.last()).0
        }
    }
}

/// The pipeline driver. It owns the sample while it is collected.
#[derive(Debug)]
pub struct Driver {
    target: Address,
    collector: Collector,
    state: DriverState,
}

impl View for Driver {
    type V = DriverModel;

    closed spec fn view(&self) -> DriverModel {
        DriverModel { target: self.target, sample: self.collector@, state: self.state }
    }
}

impl Driver {
    /// A running driver for `target` with an empty sample of the given
    /// capacity.
    pub fn new(target: Address, capacity: usize) -> (driver: Driver)
        ensures
            driver@ == DriverModel::initial(target, capacity as nat),
            driver@.wf(),
    {
        Driver { target, collector: Collector::new(capacity), state: DriverState::Running }
    }

    /// The driver of a run whose connection could not be established: it is
    /// stopped as `Fatal` from the start and never looks at a record.
    pub fn unconnected(target: Address, capacity: usize) -> (driver: Driver)
        ensures
            driver@ == DriverModel::unconnected(target, capacity as nat),
            driver@.wf(),
    {
        Driver {
            target,
            collector: Collector::new(capacity),
            state: DriverState::Stopped(StopReason::Fatal),
        }
    }

    /// The current state.
    pub fn state(&self) -> (state: DriverState)
        ensures
            state == self@.state,
    {
        self.state
    }

    /// The target address.
    pub fn target(&self) -> (target: Address)
        ensures
            target == self@.target,
    {
        self.target
    }

    /// How many records the sample holds, never more than its capacity.
    pub fn collected(&self) -> (n: usize)
        ensures
            n == self@.sample.records.len(),
            self@.wf(),
    {
        self.collector.len()
    }

    /// Handles one event and answers with the action to take, as
    /// [`DriverModel::step`] defines it.
    pub fn step(&mut self, event: Event) -> (action: Action)
        ensures
            (final(self)@, action) == old(self)@.step(event),
            final(self)@.wf(),
    {
        let _ = self.collector.len();
        match self.state {
            DriverState::Stopped(reason) => Action::Stop(reason),
            DriverState::Running => match event {
                Event::Identifier(id) => Action::Resolve(id),
                Event::SourceEnded => {
                    self.state = DriverState::Stopped(StopReason::SourceEnded);
                    Action::Stop(StopReason::SourceEnded)
                },
                Event::Resolved(Resolution::Failed(failure)) => Action::Diagnose(
                    TrackerError::Resolution(failure),
                ),
                Event::Resolved(Resolution::Absent) => Action::Continue,
                Event::Resolved(Resolution::Found(tx)) => {
                    if !crate::filter::matches(&tx, &self.target) {
                        Action::Continue
                    } else if self.collector.offer(tx) {
                        Action::Continue
                    } else {
                        self.state = DriverState::Stopped(StopReason::Full);
                        Action::Stop(StopReason::Full)
                    }
                },
            },
        }
    }

    /// Hands over the sample, in arrival order, once the driver has stopped. A
    /// running driver is given back unchanged: the sample is not read while it
    /// is still collected.
    pub fn finish(self) -> (sample: Result<Vec<TransactionRecord>, Driver>)
        ensures
            match sample {
                Ok(records) => self@.state is Stopped && records@ == self@.sample.records,
                Err(driver) => self@.state is Running && driver == self,
            },
    {
        match self.state {
            DriverState::Running => Err(self),
            DriverState::Stopped(_) => Ok(self.collector.into_records()),
        }
    }
}

/// An event that a running driver passes over: an identifier to resolve, a
/// failed lookup, an unknown identifier, or a record for another destination.
pub open spec fn leaves_no_trace(event: Event, target: Address) -> bool {
    match event {
        Event::Identifier(_) => true,
        Event::Resolved(Resolution::Failed(_)) => true,
        Event::Resolved(Resolution::Absent) => true,
        Event::Resolved(Resolution::Found(tx)) => !addressed_to(tx, target),
        Event::SourceEnded => false,
    }
}

/// The records among `events` that were found and are addressed to `target`,
/// in the order of their events.
pub open spec fn matching(target: Address, events: Seq<Event>) -> Seq<TransactionRecord>
    decreases events.len(),
{
    if events.len() == 0 {
        Seq::empty()
    } else {
        let earlier = matching(target, events.drop_last());
        match events.last() {
            Event::Resolved(Resolution::Found(tx)) => if addressed_to(tx, target) {
                earlier.push(tx)
            } else {
                earlier
            },
            _ => earlier,
        }
    }
}

/// A transition never changes the target or the capacity, keeps the sample
/// within its capacity, and only ever appends to the sample.
pub proof fn lemma_step_preserves(m: DriverModel, event: Event)
    requires
        m.wf(),
    ensures
        m.step(event).0.wf(),
        m.step(event).0.target == m.target,
        m.step(event).0.sample.capacity == m.sample.capacity,
        m.sample.records.is_prefix_of(m.step(event).0.sample.records),
{
}

/// A stopped driver is final: whatever events follow, it stays as it is, and
/// each of them is answered with `Stop`, never with a lookup.
pub proof fn lemma_stopped_is_final(m: DriverModel, events: Seq<Event>)
    requires
        m.state is Stopped,
    ensures
        m.run(events) == m,
        forall|event: Event| #[trigger] m.step(event) == (m, Action::Stop(m.state->Stopped_0)),
    decreases events.len(),
{
    if events.len() > 0 {
        lemma_stopped_is_final(m, events.drop_last());
    }
}

/// A run keeps the target it started with.
pub proof fn lemma_run_keeps_target(m: DriverModel, events: Seq<Event>)
    ensures
        m.run(events).target == m.target,
    decreases events.len(),
{
    if events.len() > 0 {
        lemma_run_keeps_target(m, events.drop_last());
    }
}

/// An event that leaves no trace can be struck from a run without changing
/// where the run ends: the events after it are handled as if it had not been
/// there.
pub proof fn lemma_traceless_event_is_skipped(m: DriverModel, events: Seq<Event>, i: int)
    requires
        0 <= i < events.len(),
        leaves_no_trace(events[i], m.target),
    ensures
        m.run(events) == m.run(events.remove(i)),
    decreases events.len(),
{
    let earlier = events.drop_last();
    if i == events.len() - 1 {
        lemma_run_keeps_target(m, earlier);
    } else {
        lemma_traceless_event_is_skipped(m, earlier, i);
        assert(events.remove(i).drop_last() =~= earlier.remove(i));
    }
}

/// A failed lookup changes nothing: the driver is as before, it asks only for
/// a diagnostic, and the run ends where it would have ended without the
/// failure. No record enters the sample for it.
pub proof fn lemma_failed_lookup_is_isolated(m: DriverModel, events: Seq<Event>, i: int)
    requires
        0 <= i < events.len(),
        events[i] matches Event::Resolved(Resolution::Failed(_)),
    ensures
        m.run(events) == m.run(events.remove(i)),
        m.run(events.take(i + 1)) == m.run(events.take(i)),
        m.run(events.take(i)).state is Running ==> m.run(events.take(i)).step(events[i]).1
            is Diagnose,
{
    lemma_traceless_event_is_skipped(m, events, i);
    assert(events.take(i + 1).drop_last() =~= events.take(i));
}

/// What a run collects. From its start, over events among which the source
/// does not end, a driver holds the matching records in the order they came,
/// cut off at the capacity; and it is stopped as `Full` exactly when at least
/// one matching record came and at least as many as the capacity, else still
/// running.
pub proof fn lemma_run_collects_matching(target: Address, capacity: nat, events: Seq<Event>)
    requires
        forall|i: int| 0 <= i < events.len() ==> !(events[i] is SourceEnded),
    ensures
        ({
            let end = DriverModel::initial(target, capacity).run(events);
            let found = matching(target, events);
            &&& end.target == target
            &&& end.sample == Sample::empty(capacity).offer_all(found)
            &&& end.sample.capacity == capacity
            &&& end.sample.records == if found.len() <= capacity {
                found
            } else {
                found.take(capacity as int)
            }
            &&& end.state == if found.len() >= 1 && found.len() >= capacity {
                DriverState::Stopped(StopReason::Full)
            } else {
                DriverState::Running
            }
        }),
    decreases events.len(),
{
    let found = matching(target, events);
    lemma_offers_fill_then_stop(capacity, found);
    if events.len() > 0 {
        let earlier = events.drop_last();
        lemma_run_collects_matching(target, capacity, earlier);
        lemma_offers_fill_then_stop(capacity, matching(target, earlier));
        match events.last() {
            Event::Resolved(Resolution::Found(tx)) => {
                if addressed_to(tx, target) {
                    assert(found.drop_last() =~= matching(target, earlier));
                }
            },
            _ => {},
        }
    }
}

/// When the source ends while the driver runs, the driver stops as
/// `SourceEnded` and keeps the partial sample as it is.
pub proof fn lemma_source_end_keeps_partial_sample(m: DriverModel)
    requires
        m.state is Running,
    ensures
        m.step(Event::SourceEnded).0.state == DriverState::Stopped(StopReason::SourceEnded),
        m.step(Event::SourceEnded).0.sample == m.sample,
        m.step(Event::SourceEnded).1 == Action::Stop(StopReason::SourceEnded),
{
}

} // verus!
