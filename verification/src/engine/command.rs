use vstd::prelude::*;

use crate::decimal::Dec;
use crate::domain::order::Order;
use crate::ident::new_v7_id;

verus! {

#[derive(Clone, Debug)]
pub struct PlaceOrderCommand {
    pub command_id: u128,
    pub order: Order,
}

#[derive(Clone, Debug)]
pub struct CancelOrderCommand {
    pub command_id: u128,
    pub order_id: u128,
}

#[derive(Clone, Debug)]
pub struct AmendOrderCommand {
    pub command_id: u128,
    pub order_id: u128,
    pub price: Option<Dec>,
    pub base_qty: Option<Dec>,
}

/// A request to one symbol's matching engine.
#[derive(Clone, Debug)]
pub enum EngineCommand {
    Place(PlaceOrderCommand),
    Cancel(CancelOrderCommand),
    Amend(AmendOrderCommand),
}

impl EngineCommand {
    pub open spec fn spec_command_id(&self) -> u128 {
        match self {
            EngineCommand::Place(c) => c.command_id,
            EngineCommand::Cancel(c) => c.command_id,
            EngineCommand::Amend(c) => c.command_id,
        }
    }

    pub open spec fn spec_order_id(&self) -> u128 {
        match self {
            EngineCommand::Place(c) => c.order.order_id,
            EngineCommand::Cancel(c) => c.order_id,
            EngineCommand::Amend(c) => c.order_id,
        }
    }

    pub fn new_place(command_id: u128, order: Order) -> (c: Self)
        ensures
            c matches EngineCommand::Place(p) && p.command_id == command_id && p.order == order,
    {
        EngineCommand::Place(PlaceOrderCommand { command_id, order })
    }

    /// A place command under a fresh time-ordered id.
    pub fn generated_place(order: Order) -> (c: Self)
        ensures
            c matches EngineCommand::Place(p) && p.order == order,
    {
        Self::new_place(new_v7_id(), order)
    }

    pub fn new_cancel(command_id: u128, order_id: u128) -> (c: Self)
        ensures
            c matches EngineCommand::Cancel(x) && x.command_id == command_id && x.order_id == order_id,
    {
        EngineCommand::Cancel(CancelOrderCommand { command_id, order_id })
    }

    /// A cancel command under a fresh time-ordered id.
    pub fn generated_cancel(order_id: u128) -> (c: Self)
        ensures
            c matches EngineCommand::Cancel(x) && x.order_id == order_id,
    {
        Self::new_cancel(new_v7_id(), order_id)
    }

    pub fn new_amend(
        command_id: u128,
        order_id: u128,
        price: Option<Dec>,
        base_qty: Option<Dec>,
    ) -> (c: Self)
        ensures
            c matches EngineCommand::Amend(x) && x.command_id == command_id && x.order_id
                == order_id && x.price == price && x.base_qty == base_qty,
    {
        EngineCommand::Amend(AmendOrderCommand { command_id, order_id, price, base_qty })
    }

    pub fn command_id(&self) -> (id: u128)
        ensures
            id == self.spec_command_id(),
    {
        match self {
            EngineCommand::Place(c) => c.command_id,
            EngineCommand::Cancel(c) => c.command_id,
            EngineCommand::Amend(c) => c.command_id,
        }
    }

    pub fn order_id(&self) -> (id: u128)
        ensures
            id == self.spec_order_id(),
    {
        match self {
            EngineCommand::Place(c) => c.order.order_id,
            EngineCommand::Cancel(c) => c.order_id,
            EngineCommand::Amend(c) => c.order_id,
        }
    }
}

} // verus!
