//! The risk engine's kill switch: activated at most once until reset, it
//! blocks every order with the reason it was activated for. The price,
//! drawdown, VaR and volatility checks that decide to activate it compute
//! on floating point and run outside the library.
use vstd::prelude::*;
use vstd::string::*;

verus! {

/// The kill switch as data: whether it is active, and the reason recorded
/// when it was activated.
pub struct KillSwitchView {
    pub active: bool,
    pub reason: Option<Seq<char>>,
}

/// The shared state of the kill switch.
pub struct KillSwitchState {
    active: bool,
    reason: Option<String>,
}

impl View for KillSwitchState {
    type V = KillSwitchView;

    closed spec fn view(&self) -> KillSwitchView {
        KillSwitchView {
            active: self.active,
            reason: match &self.reason {
                Some(r) => Some(r@),
                None => None,
            },
        }
    }
}

/// The state after an activation request: the first one records its
/// reason; one while already active changes nothing.
pub open spec fn activated(k: KillSwitchView, reason: Seq<char>) -> KillSwitchView {
    if k.active {
        k
    } else {
        KillSwitchView { active: true, reason: Some(reason) }
    }
}

/// The state after a reset: inactive, with no reason.
pub open spec fn reset_state() -> KillSwitchView {
    KillSwitchView { active: false, reason: None }
}

/// What the order guard answers: `None` lets the order through, `Some`
/// carries the refusal text.
pub open spec fn guard_answer(k: KillSwitchView) -> Option<Seq<char>> {
    if !k.active {
        None
    } else {
        Some(
            "Order blocked by kill switch: "@ + match k.reason {
                Some(r) => r,
                None => "Kill switch active"@,
            },
        )
    }
}

impl KillSwitchState {
    pub fn new() -> (k: Self)
        ensures
            k@ == reset_state(),
    {
        Self { active: false, reason: None }
    }

    /// Requests activation with a reason. Returns whether this request
    /// activated the switch (so that the activation is announced once).
    pub fn activate(&mut self, reason: String) -> (fresh: bool)
        ensures
            fresh == !old(self)@.active,
            final(self)@ == activated(old(self)@, reason@),
    {
        if self.active {
            false
        } else {
            self.active = true;
            self.reason = Some(reason);
            true
        }
    }

    /// Deactivates the switch and forgets the reason.
    pub fn reset(&mut self)
        ensures
            final(self)@ == reset_state(),
    {
        self.active = false;
        self.reason = None;
    }

    pub fn is_active(&self) -> (a: bool)
        ensures
            a == self@.active,
    {
        self.active
    }

    /// The order guard: `Ok` while the switch is inactive, otherwise the
    /// refusal "Order blocked by kill switch: " and the reason.
    pub fn check(&self) -> (r: Result<(), String>)
        ensures
            match r {
                Ok(_) => guard_answer(self@) is None,
                Err(t) => guard_answer(self@) == Some(t@),
            },
    {
        if !self.active {
            return Ok(());
        }
        let mut t = String::from_str("Order blocked by kill switch: ");
        match &self.reason {
            Some(r) => t.append(r.as_str()),
            None => t.append("Kill switch active"),
        }
        Err(t)
    }
}

/// Once activated, the switch blocks orders until it is reset, and a
/// second activation keeps the first reason.
pub proof fn law_activation_blocks_until_reset(k: KillSwitchView, first: Seq<char>, second: Seq<char>)
    ensures
        guard_answer(activated(k, first)) is Some,
        activated(activated(k, first), second) == activated(k, first),
        !k.active ==> guard_answer(activated(k, first)) == Some(
            "Order blocked by kill switch: "@ + first,
        ),
{
}

/// After a reset every order passes the guard, whatever came before.
pub proof fn law_reset_allows_orders(reason: Seq<char>)
    ensures
        guard_answer(reset_state()) is None,
        activated(reset_state(), reason).reason == Some(reason),
{
}

} // verus!
