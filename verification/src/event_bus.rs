//! The event bus subscriber: its connection target and the decisions of
//! its reconnecting read loop. The loop itself (network I/O, retries,
//! sleeping) runs outside the library and feeds these decisions.
use vstd::prelude::*;

verus! {

/// Base of the exponential connection retry schedule, in milliseconds: the
/// n-th retry waits this to the power n (times the factor), up to the cap.
pub const CONNECT_BACKOFF_BASE_MS: u64 = 500;

/// Multiplier applied to each connection retry delay.
pub const CONNECT_BACKOFF_FACTOR: u64 = 2;

/// Longest connection retry delay, in milliseconds.
pub const CONNECT_BACKOFF_MAX_MS: u64 = 30000;

/// Pause after the connection retries give up, in milliseconds.
pub const RECONNECT_PAUSE_MS: u64 = 5000;

/// A client of the event bus at a fixed address.
pub struct EventBusClient {
    addr: String,
}

impl View for EventBusClient {
    type V = Seq<char>;

    /// The bus address.
    closed spec fn view(&self) -> Seq<char> {
        self.addr@
    }
}

/// What the subscriber loop has just observed.
#[derive(Debug, Clone, Copy, PartialEq, Eq, Structural)]
pub enum BusObservation {
    /// The connection (after retries) is open.
    Connected,
    /// Connecting failed even after the retries.
    ConnectFailed,
    /// A line arrived and decoded as an event.
    EventDecoded,
    /// A line arrived that does not decode as an event.
    UndecodableLine,
    /// The decoded event was handed to the receiver.
    Delivered,
    /// The receiver has gone away.
    ReceiverGone,
    /// The connection ended or failed while reading.
    ConnectionLost,
}

/// What the subscriber loop does next.
#[derive(Debug, Clone, Copy, PartialEq, Eq, Structural)]
pub enum BusStep {
    /// Read the next line from the connection.
    ReadLine,
    /// Hand the decoded event to the receiver.
    Deliver,
    /// Connect again (with retries).
    Reconnect,
    /// Wait `RECONNECT_PAUSE_MS`, then connect again.
    PauseThenReconnect,
    /// Stop subscribing, successfully.
    Stop,
}

/// The subscriber's decision for each observation: lines that do not
/// decode are skipped, a lost connection is re-established, a failed
/// connection is retried after a pause, and a vanished receiver ends the
/// subscription.
pub open spec fn bus_step(o: BusObservation) -> BusStep {
    match o {
        BusObservation::Connected => BusStep::ReadLine,
        BusObservation::ConnectFailed => BusStep::PauseThenReconnect,
        BusObservation::EventDecoded => BusStep::Deliver,
        BusObservation::UndecodableLine => BusStep::ReadLine,
        BusObservation::Delivered => BusStep::ReadLine,
        BusObservation::ReceiverGone => BusStep::Stop,
        BusObservation::ConnectionLost => BusStep::Reconnect,
    }
}

impl EventBusClient {
    pub fn new(addr: String) -> (c: Self)
        ensures
            c@ == addr@,
    {
        Self { addr }
    }

    /// The bus address.
    pub fn addr(&self) -> (a: &str)
        ensures
            a@ == self@,
    {
        self.addr.as_str()
    }

    /// The next step of the subscriber loop after an observation.
    pub fn next_step(&self, o: BusObservation) -> (s: BusStep)
        ensures
            s == bus_step(o),
    {
        match o {
            BusObservation::Connected => BusStep::ReadLine,
            BusObservation::ConnectFailed => BusStep::PauseThenReconnect,
            BusObservation::EventDecoded => BusStep::Deliver,
            BusObservation::UndecodableLine => BusStep::ReadLine,
            BusObservation::Delivered => BusStep::ReadLine,
            BusObservation::ReceiverGone => BusStep::Stop,
            BusObservation::ConnectionLost => BusStep::Reconnect,
        }
    }
}

/// The subscriber only stops when its receiver is gone: every other
/// observation keeps it reading or reconnecting.
pub proof fn law_subscriber_stops_only_without_receiver(o: BusObservation)
    ensures
        bus_step(o) == BusStep::Stop <==> o == BusObservation::ReceiverGone,
{
}

} // verus!
