use vstd::prelude::*;

use crate::decimal::{decimal_checked_sub, Dec};
use crate::domain::order::{Order, OrderSize, OrderStatus};

verus! {

/// The engine's answer to one command, numbered in the order the engine handled it.
#[derive(Clone, Debug)]
pub struct EngineResult {
    pub command_id: u128,
    pub sequence: u64,
    pub body: EngineResultBody,
}

#[derive(Clone, Debug)]
pub enum EngineResultBody {
    Place(PlaceOrderResult),
    Cancel(CancelOrderResult),
    Amend(AmendOrderResult),
}

#[derive(Clone, Debug)]
pub struct PlaceOrderResult {
    pub symbol: String,
    pub taker_order_id: u128,
    pub outcome: PlaceOrderOutcome,
    pub trades: Vec<TradeResult>,
    pub updated_makers: Vec<OrderSnapshot>,
}

#[derive(Clone, Debug)]
pub struct CancelOrderResult {
    pub symbol: String,
    pub order_id: u128,
    pub outcome: CancelOrderOutcome,
}

#[derive(Clone, Debug)]
pub struct AmendOrderResult {
    pub symbol: String,
    pub order_id: u128,
    pub outcome: AmendOrderOutcome,
}

#[derive(Clone, Debug)]
pub enum PlaceOrderOutcome {
    Rested,
    Filled,
    PartiallyFilledAndRested,
    PartiallyFilledAndCancelled(CancelledReason),
    Cancelled(CancelledReason),
    Rejected(RejectedReason),
}

#[derive(Clone, Debug)]
pub enum CancelOrderOutcome {
    Cancelled(OrderSnapshot),
    Rejected(CancelRejectedReason),
}

#[derive(Clone, Debug)]
pub enum AmendOrderOutcome {
    Amended(OrderSnapshot),
    CancelReplaced { canceled: OrderSnapshot, placed: PlaceOrderResult },
    Rejected(AmendRejectedReason),
}

#[derive(Clone, Debug)]
pub struct TradeResult {
    pub trade_id: u128,
    pub taker_order_id: u128,
    pub maker_order_id: u128,
    pub price: Dec,
    pub base_qty: Dec,
    pub quote_qty: Dec,
}

/// The state of an order as reported to clients.
#[derive(Clone, Debug)]
pub struct OrderSnapshot {
    pub order_id: u128,
    pub executed_base_qty: Dec,
    pub executed_quote_qty: Dec,
    pub remaining_base_qty: Option<Dec>,
    pub remaining_quote_qty: Option<Dec>,
    pub status: OrderStatus,
}

#[derive(Clone, Debug)]
pub enum RejectedReason {
    InvalidOrder(String),
    DuplicateOrderId,
}

#[derive(Clone, Copy, Debug, PartialEq, Eq, Structural)]
pub enum CancelledReason {
    FokCannotFullyFill,
    IocRemainingCancelled,
}

#[derive(Clone, Copy, Debug, PartialEq, Eq, Structural)]
pub enum CancelRejectedReason {
    OrderNotFound,
}

#[derive(Clone, Copy, Debug, PartialEq, Eq, Structural)]
pub enum AmendRejectedReason {
    OrderNotFound,
    AmendNotAllowed,
}

impl OrderSnapshot {
    /// Whether this snapshot reports `o`.
    pub open spec fn reports(self, o: Order) -> bool {
        &&& self.order_id == o.order_id
        &&& self.executed_base_qty == o.executed_base_qty
        &&& self.executed_quote_qty == o.executed_quote_qty
        &&& self.remaining_base_qty == (match o.size {
            OrderSize::Base(q) => decimal_checked_sub(q, o.executed_base_qty),
            OrderSize::Quote(_) => None,
        })
        &&& self.remaining_quote_qty == (match o.size {
            OrderSize::Quote(q) => decimal_checked_sub(q, o.executed_quote_qty),
            OrderSize::Base(_) => None,
        })
        &&& self.status == o.status
    }

    pub fn from_order(o: &Order) -> (s: OrderSnapshot)
        requires
            o.wf(),
        ensures
            s.reports(*o),
    {
        OrderSnapshot {
            order_id: o.order_id,
            executed_base_qty: o.executed_base_qty,
            executed_quote_qty: o.executed_quote_qty,
            remaining_base_qty: o.remaining_base_qty(),
            remaining_quote_qty: o.remaining_quote_qty(),
            status: o.status,
        }
    }
}

impl EngineResult {
    pub fn new(command_id: u128, sequence: u64, body: EngineResultBody) -> (r: EngineResult)
        ensures
            r.command_id == command_id,
            r.sequence == sequence,
            r.body == body,
    {
        EngineResult { command_id, sequence, body }
    }

    /// The order the result is about.
    pub fn order_id(&self) -> (id: u128)
        ensures
            id == match self.body {
                EngineResultBody::Place(r) => r.taker_order_id,
                EngineResultBody::Cancel(r) => r.order_id,
                EngineResultBody::Amend(r) => r.order_id,
            },
    {
        match &self.body {
            EngineResultBody::Place(r) => r.taker_order_id,
            EngineResultBody::Cancel(r) => r.order_id,
            EngineResultBody::Amend(r) => r.order_id,
        }
    }
}

} // verus!
