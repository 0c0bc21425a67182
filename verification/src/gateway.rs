//! Order time-in-force instructions.
use vstd::prelude::*;

verus! {

/// How long an order stays working.
#[allow(non_camel_case_types)]
#[derive(Debug, Clone, Copy, PartialEq, Eq, Structural)]
pub enum TimeInForce {
    DAY,
    GTC,
    IOC,
    FOK,
}

} // verus!
