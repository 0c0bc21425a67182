use vstd::prelude::*;

pub mod event_bus;
pub mod events;
pub mod fix;
pub mod gateway;
pub mod ingestion;
pub mod interceptor;
pub mod kill_switch;
pub mod persistence;
pub mod risk;
pub mod tui;

verus! {

} // verus!
