//! The risk check on the number of working orders.
use vstd::prelude::*;

verus! {

/// Blocks new orders once this many orders are open.
pub struct MaxOpenOrders {
    pub max_orders: usize,
}

impl MaxOpenOrders {
    /// Whether a new order is blocked when `open_order_count` orders are
    /// already open ("Max open orders reached").
    pub fn blocks(&self, open_order_count: usize) -> (b: bool)
        ensures
            b == (open_order_count >= self.max_orders),
    {
        open_order_count >= self.max_orders
    }
}

} // verus!
