//! The daemon's kill switch: once triggered, trading stays halted.
use vstd::prelude::*;

verus! {

/// A latch that halts the daemon.
pub struct KillSwitch {
    is_halted: bool,
}

impl View for KillSwitch {
    type V = bool;

    /// Whether trading is halted.
    closed spec fn view(&self) -> bool {
        self.is_halted
    }
}

impl KillSwitch {
    pub fn new() -> (k: Self)
        ensures
            !k@,
    {
        Self { is_halted: false }
    }

    /// Halts trading; `reason` is what the daemon reports.
    pub fn trigger(&mut self, reason: &str)
        ensures
            final(self)@,
    {
        self.is_halted = true;
    }

    pub fn is_halted(&self) -> (h: bool)
        ensures
            h == self@,
    {
        self.is_halted
    }
}

} // verus!
