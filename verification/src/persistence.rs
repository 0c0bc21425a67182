//! The batching policy of the database worker: ticks are buffered and
//! written in batches, on size or on a timer. The worker's I/O (the queue,
//! the timer, the bulk insert) runs outside the library; the buffer and its
//! decisions stand here.
use vstd::prelude::*;

verus! {

/// Ticks per bulk insert.
pub const BATCH_SIZE: usize = 5000;

/// Longest time a tick waits in the buffer, in milliseconds.
pub const BATCH_TIMEOUT_MS: u64 = 100;

/// A record queued for the database, generic over the tick record.
pub enum DbEvent<T> {
    MarketTick(T),
}

/// What the worker has just observed, with the number of buffered ticks.
#[derive(Debug, Clone, Copy, PartialEq, Eq, Structural)]
pub enum BatchEvent {
    /// A tick was appended; this many ticks are now buffered.
    TickBuffered(usize),
    /// The batch timer fired with this many ticks buffered.
    TimerFired(usize),
}

/// Whether the buffer is written out now: when a tick fills the batch, or
/// when the timer fires on a non-empty buffer.
pub open spec fn flush_due(e: BatchEvent) -> bool {
    match e {
        BatchEvent::TickBuffered(n) => n >= BATCH_SIZE,
        BatchEvent::TimerFired(n) => n > 0,
    }
}

/// Decides whether to flush the buffered ticks.
pub fn should_flush(e: BatchEvent) -> (f: bool)
    ensures
        f == flush_due(e),
{
    match e {
        BatchEvent::TickBuffered(n) => n >= BATCH_SIZE,
        BatchEvent::TimerFired(n) => n > 0,
    }
}

/// The worker's buffer of ticks waiting for a bulk insert.
pub struct TickBatch<T> {
    ticks: Vec<T>,
}

impl<T> View for TickBatch<T> {
    type V = Seq<T>;

    /// The buffered ticks, oldest first.
    closed spec fn view(&self) -> Seq<T> {
        self.ticks@
    }
}

impl<T> TickBatch<T> {
    /// Between events the buffer holds less than a full batch.
    #[verifier::type_invariant]
    spec fn below_batch(&self) -> bool {
        self.ticks@.len() < BATCH_SIZE
    }

    pub fn new() -> (b: Self)
        ensures
            b@ == Seq::<T>::empty(),
    {
        Self { ticks: Vec::with_capacity(BATCH_SIZE) }
    }

    /// The number of buffered ticks, always below `BATCH_SIZE`.
    pub fn len(&self) -> (n: usize)
        ensures
            n == self@.len(),
            n < BATCH_SIZE,
    {
        proof {
            use_type_invariant(self);
        }
        self.ticks.len()
    }

    /// Hands out the whole buffer and leaves it empty, with room for
    /// `capacity` ticks.
    fn take_all(&mut self, capacity: usize) -> (out: Vec<T>)
        ensures
            out@ == old(self)@,
            final(self)@ == Seq::<T>::empty(),
    {
        let mut out: Vec<T> = Vec::with_capacity(capacity);
        core::mem::swap(&mut out, &mut self.ticks);
        out
    }

    /// Buffers a queued record; returns the batch to insert when the
    /// buffer has reached `BATCH_SIZE`, which leaves it empty.
    pub fn on_event(&mut self, e: DbEvent<T>) -> (flushed: Option<Vec<T>>)
        ensures
            final(self)@.len() < BATCH_SIZE,
            ({
                let DbEvent::MarketTick(tick) = e;
                let all = old(self)@.push(tick);
                match flushed {
                    Some(batch) => all.len() >= BATCH_SIZE && batch@ == all
                        && final(self)@ == Seq::<T>::empty(),
                    None => all.len() < BATCH_SIZE && final(self)@ == all,
                }
            }),
    {
        proof {
            use_type_invariant(&*self);
        }
        let DbEvent::MarketTick(tick) = e;
        if should_flush(BatchEvent::TickBuffered(self.ticks.len() + 1)) {
            let mut batch = self.take_all(BATCH_SIZE);
            batch.push(tick);
            Some(batch)
        } else {
            let mut ticks = self.take_all(0);
            ticks.push(tick);
            self.ticks = ticks;
            None
        }
    }

    /// The batch timer fired: returns the buffered ticks to insert, if
    /// there are any, and leaves the buffer empty.
    pub fn on_timer(&mut self) -> (flushed: Option<Vec<T>>)
        ensures
            final(self)@ == Seq::<T>::empty(),
            match flushed {
                Some(batch) => old(self)@.len() > 0 && batch@ == old(self)@,
                None => old(self)@.len() == 0,
            },
    {
        if should_flush(BatchEvent::TimerFired(self.ticks.len())) {
            Some(self.take_all(BATCH_SIZE))
        } else {
            None
        }
    }
}

/// A buffer never grows past a batch: after each tick, either fewer than
/// `BATCH_SIZE` ticks wait or the buffer is flushed.
pub proof fn law_buffer_bounded(n: usize)
    ensures
        n < BATCH_SIZE || flush_due(BatchEvent::TickBuffered(n)),
        flush_due(BatchEvent::TimerFired(n)) <==> n != 0,
{
}

} // verus!
