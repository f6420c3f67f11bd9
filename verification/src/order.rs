//! Orders, fills and the batch of fills that one matching pass returns.

use vstd::prelude::*;

verus! {

/// Number of orders that each side of the book can hold.
pub const MAX_ORDERS: usize = 5;

/// Largest number of fills that one matching pass produces.
pub const MAX_MATCHES_PER_BATCH: usize = 3;

/// The side of the book on which an order rests.
#[derive(Copy, Clone, Debug, PartialEq, Eq, Structural)]
pub enum Side {
    Buy,
    Sell,
}

/// A limit order.
///
/// `order_type` is `0` for a buy order and `1` for a sell order.  `amount` is
/// the quantity that is still unfilled; `price` and `timestamp` never change
/// once the order exists.
#[derive(Copy, Clone, Debug, PartialEq, Eq, Structural)]
pub struct Order {
    pub order_id: u64,
    pub amount: u64,
    pub price: u64,
    pub order_type: u8,
    pub timestamp: u64,
}

impl Order {
    pub open spec fn spec_empty() -> Order {
        Order { order_id: 0, amount: 0, price: 0, order_type: 0, timestamp: 0 }
    }

    /// The all-zero order that fills the unused slots of a fresh book.
    #[verifier::when_used_as_spec(spec_empty)]
    pub fn empty() -> (order: Order)
        ensures
            order == (Order { order_id: 0, amount: 0, price: 0, order_type: 0, timestamp: 0 }),
    {
        Order { order_id: 0, amount: 0, price: 0, order_type: 0, timestamp: 0 }
    }

    pub open spec fn spec_is_buy(&self) -> bool {
        self.order_type == 0
    }

    pub open spec fn spec_is_sell(&self) -> bool {
        self.order_type == 1
    }

    /// Whether this is a buy order.
    #[verifier::when_used_as_spec(spec_is_buy)]
    pub fn is_buy(&self) -> (b: bool)
        ensures
            b == (self.order_type == 0),
    {
        self.order_type == 0
    }

    /// Whether this is a sell order.
    #[verifier::when_used_as_spec(spec_is_sell)]
    pub fn is_sell(&self) -> (b: bool)
        ensures
            b == (self.order_type == 1),
    {
        self.order_type == 1
    }
}

/// The part of a submitted order that its owner keeps confidential.
#[derive(Copy, Clone, Debug, PartialEq, Eq, Structural)]
pub struct SensitiveOrderData {
    pub amount: u64,
    pub price: u64,
}

/// One fill: a buy order and a sell order traded `quantity` at
/// `execution_price`.  `match_id` counts the fills of one pass from zero.
#[derive(Copy, Clone, Debug, PartialEq, Eq, Structural)]
pub struct MatchedOrder {
    pub match_id: u64,
    pub quantity: u64,
    pub execution_price: u64,
}

impl MatchedOrder {
    pub open spec fn spec_empty() -> MatchedOrder {
        MatchedOrder { match_id: 0, quantity: 0, execution_price: 0 }
    }

    /// The all-zero fill that pads the unused slots of a batch.
    #[verifier::when_used_as_spec(spec_empty)]
    pub fn empty() -> (matched: MatchedOrder)
        ensures
            matched == (MatchedOrder { match_id: 0, quantity: 0, execution_price: 0 }),
    {
        MatchedOrder { match_id: 0, quantity: 0, execution_price: 0 }
    }
}

/// The fills of one matching pass: the first `num_matches` slots of
/// `matches`, in the order in which they happened.
#[derive(Copy, Clone, Debug, PartialEq, Eq)]
pub struct MatchResult {
    pub matches: [MatchedOrder; MAX_MATCHES_PER_BATCH],
    pub num_matches: u8,
}

impl View for MatchResult {
    type V = Seq<MatchedOrder>;

    /// The valid fills, without the padding.
    open spec fn view(&self) -> Seq<MatchedOrder> {
        self.matches@.take(self.num_matches as int)
    }
}

impl MatchResult {
    /// A batch without fills; every slot holds `MatchedOrder::empty()`.
    pub fn empty() -> (result: MatchResult)
        ensures
            result.num_matches == 0,
            forall|i: int|
                0 <= i < MAX_MATCHES_PER_BATCH ==> result.matches[i] == MatchedOrder::empty(),
    {
        MatchResult { matches: [MatchedOrder::empty();MAX_MATCHES_PER_BATCH], num_matches: 0 }
    }

    /// Stores `matched_order` in slot `index`.  An index beyond the batch
    /// size is ignored.
    pub fn set_match(&mut self, index: u8, matched_order: MatchedOrder)
        ensures
            final(self).num_matches == old(self).num_matches,
            index < MAX_MATCHES_PER_BATCH ==> final(self).matches@ == old(self).matches@.update(
                index as int,
                matched_order,
            ),
            index >= MAX_MATCHES_PER_BATCH ==> *final(self) == *old(self),
    {
        if (index as usize) < MAX_MATCHES_PER_BATCH {
            self.matches[index as usize] = matched_order;
        }
    }
}

} // verus!
