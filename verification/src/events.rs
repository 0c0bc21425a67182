//! Core event types with nanosecond timestamps and sequence IDs.
//! Every event that flows through the system is stamped for deterministic replay.
use vstd::prelude::*;
use std::cmp::Ordering;

verus! {

/// Nanoseconds since the Unix epoch.
pub type UnixNanos = u64;

/// Monotonic sequence number.
pub type SequenceId = u64;

/// Universal envelope wrapping every event in the system.
/// Provides total ordering via (ts_event, sequence_id).
#[derive(Debug, Clone)]
pub struct Envelope<T> {
    /// When the real-world event occurred (exchange timestamp).
    pub ts_event: UnixNanos,
    /// When this envelope was created locally.
    pub ts_init: UnixNanos,
    /// Monotonic sequence for deterministic ordering.
    pub sequence_id: SequenceId,
    /// The actual payload.
    pub payload: T,
}

/// The order of envelopes: by event time, then by sequence number.
pub open spec fn envelope_order<T>(a: &Envelope<T>, b: &Envelope<T>) -> Ordering {
    if a.ts_event < b.ts_event {
        Ordering::Less
    } else if a.ts_event > b.ts_event {
        Ordering::Greater
    } else if a.sequence_id < b.sequence_id {
        Ordering::Less
    } else if a.sequence_id > b.sequence_id {
        Ordering::Greater
    } else {
        Ordering::Equal
    }
}

impl<T> Envelope<T> {
    pub fn new(ts_event: UnixNanos, ts_init: UnixNanos, sequence_id: SequenceId, payload: T) -> (e:
        Self)
        ensures
            e.ts_event == ts_event,
            e.ts_init == ts_init,
            e.sequence_id == sequence_id,
            e.payload == payload,
    {
        Self { ts_event, ts_init, sequence_id, payload }
    }

    /// Compares by event time, then by sequence number.
    pub fn cmp(&self, other: &Self) -> (o: Ordering)
        ensures
            o == envelope_order(self, other),
    {
        if self.ts_event < other.ts_event {
            Ordering::Less
        } else if self.ts_event > other.ts_event {
            Ordering::Greater
        } else if self.sequence_id < other.sequence_id {
            Ordering::Less
        } else if self.sequence_id > other.sequence_id {
            Ordering::Greater
        } else {
            Ordering::Equal
        }
    }
}

/// Envelopes are equal when their sequence numbers are.
impl<T> PartialEq for Envelope<T> {
    fn eq(&self, other: &Self) -> (r: bool) {
        self.sequence_id == other.sequence_id
    }
}

impl<T> vstd::std_specs::cmp::PartialEqSpecImpl for Envelope<T> {
    open spec fn obeys_eq_spec() -> bool {
        true
    }

    open spec fn eq_spec(&self, other: &Self) -> bool {
        self.sequence_id == other.sequence_id
    }
}

impl<T> Eq for Envelope<T> {

}

impl<T> PartialOrd for Envelope<T> {
    fn partial_cmp(&self, other: &Self) -> (r: Option<Ordering>) {
        Some(self.cmp(other))
    }
}

impl<T> vstd::std_specs::cmp::PartialOrdSpecImpl for Envelope<T> {
    open spec fn obeys_partial_cmp_spec() -> bool {
        true
    }

    open spec fn partial_cmp_spec(&self, other: &Self) -> Option<Ordering> {
        Some(envelope_order(self, other))
    }
}

/// The envelope order is a total order on (event time, sequence number):
/// the comparison is reversed when the operands are swapped, is `Equal`
/// exactly when both keys agree, and is transitive.
pub proof fn law_envelope_order_total<T>(a: &Envelope<T>, b: &Envelope<T>, c: &Envelope<T>)
    ensures
        (envelope_order(a, b) == Ordering::Less) == (envelope_order(b, a) == Ordering::Greater),
        (envelope_order(a, b) == Ordering::Equal) == (a.ts_event == b.ts_event && a.sequence_id
            == b.sequence_id),
        envelope_order(a, b) == Ordering::Less && envelope_order(b, c) == Ordering::Less
            ==> envelope_order(a, c) == Ordering::Less,
        envelope_order(a, a) == Ordering::Equal,
{
}

/// The envelope order is the lexicographic order on (event time, sequence
/// number): an earlier event time comes first whatever the sequence numbers,
/// and between equal event times the sequence numbers decide.
pub proof fn law_envelope_order_lexicographic<T>(a: &Envelope<T>, b: &Envelope<T>)
    ensures
        a.ts_event < b.ts_event ==> envelope_order(a, b) == Ordering::Less,
        a.ts_event > b.ts_event ==> envelope_order(a, b) == Ordering::Greater,
        a.ts_event == b.ts_event ==> (envelope_order(a, b) == Ordering::Less <==> a.sequence_id
            < b.sequence_id),
        a.ts_event == b.ts_event ==> (envelope_order(a, b) == Ordering::Greater <==> a.sequence_id
            > b.sequence_id),
        a.ts_event == b.ts_event ==> (envelope_order(a, b) == Ordering::Equal <==> a.sequence_id
            == b.sequence_id),
{
}

/// Which side of the book a trade hit.
#[derive(Debug, Clone, Copy, PartialEq, Eq, Structural)]
pub enum TradeSide {
    Buy,
    Sell,
    Unknown,
}

/// Direction of an order.
#[derive(Debug, Clone, Copy, PartialEq, Eq, Structural)]
pub enum OrderSide {
    Buy,
    Sell,
}

/// Kind of an order.
#[derive(Debug, Clone, Copy, PartialEq, Eq, Structural)]
pub enum OrderType {
    Market,
    Limit,
}

/// Engine-level system events.
#[derive(Debug, Clone)]
pub enum SystemEvent {
    Heartbeat,
    Shutdown,
    ClockSync(UnixNanos),
}

} // verus!
