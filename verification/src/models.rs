//! Values shared by the strategy and the exchange client.

use vstd::prelude::*;

verus! {

/// The side of a 5m Up/Down market.
#[derive(Debug, Clone, Copy, PartialEq, Eq, Structural)]
pub enum TradeSide {
    Up,
    Down,
}

impl TradeSide {
    /// The side's name.
    pub open spec fn label(self) -> Seq<char> {
        match self {
            TradeSide::Up => "Up"@,
            TradeSide::Down => "Down"@,
        }
    }

    /// The side's name.
    pub fn as_str(self) -> (r: &'static str)
        ensures
            r@ == self.label(),
    {
        match self {
            TradeSide::Up => "Up",
            TradeSide::Down => "Down",
        }
    }
}

/// An order as the exchange takes it, each number already rendered.
#[derive(Debug, Clone)]
pub struct OrderRequest {
    pub token_id: String,
    pub side: String,
    pub size: String,
    pub price: String,
    pub order_type: String,
}

} // verus!
