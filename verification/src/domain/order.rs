use vstd::prelude::*;

use crate::clock::utc_now_micros;
use crate::decimal::{
    dec_checked_add, dec_checked_sub, dec_compare, decimal_checked_add, decimal_checked_sub, Dec,
    DecOrd,
};
use crate::domain::error::OrderError;

verus! {

#[derive(Clone, Copy, Debug, PartialEq, Eq, Structural)]
pub enum Side {
    Buy,
    Sell,
}

#[derive(Clone, Copy, Debug, PartialEq, Eq, Structural)]
pub enum OrderType {
    Limit,
    Market,
}

#[derive(Clone, Copy, Debug, PartialEq, Eq, Structural)]
pub enum TimeInForce {
    GTC,
    IOC,
    FOK,
}

#[derive(Clone, Copy, Debug, PartialEq, Eq, Structural)]
pub enum OrderStatus {
    New,
    PartiallyFilled,
    Filled,
    Canceled,
    Rejected,
    Expired,
}

/// How much an order asks for: a base quantity, or an amount of quote currency.
#[derive(Clone, Copy, Debug, PartialEq, Eq)]
pub enum OrderSize {
    Base(Dec),
    Quote(Dec),
}

/// An order. Timestamps are microseconds since the Unix epoch.
#[derive(Clone, Debug)]
pub struct Order {
    pub order_id: u128,
    pub symbol: String,
    pub side: Side,
    pub order_type: OrderType,
    pub tif: TimeInForce,
    pub price: Option<Dec>,
    pub size: OrderSize,
    pub executed_base_qty: Dec,
    pub executed_quote_qty: Dec,
    pub status: OrderStatus,
    pub created_at: i64,
    pub updated_at: i64,
}

/// A status from which no fill, cancel or amend is possible.
pub open spec fn status_is_completed(s: OrderStatus) -> bool {
    !(s == OrderStatus::PartiallyFilled || s == OrderStatus::New)
}

/// `after` is `before` having filled `base_qty` for `quote_qty`: the executed totals are the
/// decimal sums of the old totals and the traded amounts, the status follows from them, and
/// nothing else of the order's terms changes.
pub open spec fn fill_applied(before: Order, base_qty: Dec, quote_qty: Dec, after: Order) -> bool {
    &&& after.wf()
    &&& after.same_terms(&before)
    &&& after.price == before.price
    &&& after.size == before.size
    &&& Some(after.executed_base_qty) == decimal_checked_add(before.executed_base_qty, base_qty)
    &&& Some(after.executed_quote_qty) == decimal_checked_add(before.executed_quote_qty, quote_qty)
    &&& after.status == (if after.filled_by_size() {
        OrderStatus::Filled
    } else {
        OrderStatus::PartiallyFilled
    })
}

impl OrderSize {
    pub open spec fn valid(self) -> bool {
        match self {
            OrderSize::Base(q) => q.valid(),
            OrderSize::Quote(q) => q.valid(),
        }
    }
}

impl Order {
    /// Decimals within range and executed quantities non-negative.
    pub open spec fn wf(&self) -> bool {
        &&& self.size.valid()
        &&& self.executed_base_qty.valid()
        &&& self.executed_quote_qty.valid()
        &&& self.executed_base_qty.units() >= 0
        &&& self.executed_quote_qty.units() >= 0
        &&& (self.price matches Some(p) ==> p.valid())
    }

    /// The executed amount has reached the ordered size.
    pub open spec fn filled_by_size(&self) -> bool {
        match self.size {
            OrderSize::Base(q) => self.executed_base_qty.units() >= q.units(),
            OrderSize::Quote(q) => self.executed_quote_qty.units() >= q.units(),
        }
    }

    /// The fields that no state change touches.
    pub open spec fn same_terms(&self, other: &Order) -> bool {
        &&& self.order_id == other.order_id
        &&& self.symbol@ == other.symbol@
        &&& self.side == other.side
        &&& self.order_type == other.order_type
        &&& self.tif == other.tif
        &&& self.created_at == other.created_at
    }

    /// Why `fill(base_qty, quote_qty)` refuses, if it does. A running total that does not fit
    /// in a decimal counts as over-filling.
    pub open spec fn fill_rejection(&self, base_qty: Dec, quote_qty: Dec) -> Option<OrderError> {
        if base_qty.units() <= 0 {
            Some(OrderError::InvalidFillBaseQty)
        } else if quote_qty.units() <= 0 {
            Some(OrderError::InvalidFillQuoteQty)
        } else if status_is_completed(self.status) {
            Some(OrderError::AlreadyCompleted)
        } else {
            let nb = decimal_checked_add(self.executed_base_qty, base_qty);
            let nq = decimal_checked_add(self.executed_quote_qty, quote_qty);
            if nb is None || nq is None {
                Some(OrderError::OverFilled)
            } else {
                match self.size {
                    OrderSize::Base(q) => if nb.unwrap().units() > q.units() {
                        Some(OrderError::OverFilled)
                    } else {
                        None
                    },
                    OrderSize::Quote(q) => if nq.unwrap().units() > q.units() {
                        Some(OrderError::OverFilled)
                    } else {
                        None
                    },
                }
            }
        }
    }

    /// Why `amend(new_price, new_base_qty)` refuses, if it does.
    pub open spec fn amend_rejection(&self, new_price: Option<Dec>, new_base_qty: Option<Dec>) -> Option<
        OrderError,
    > {
        if status_is_completed(self.status) {
            Some(OrderError::AlreadyCompleted)
        } else if new_price is None && new_base_qty is None {
            Some(OrderError::AmendNotAllowed)
        } else if self.price is None {
            Some(OrderError::AmendNotAllowed)
        } else if self.size is Quote {
            Some(OrderError::AmendNotAllowed)
        } else {
            let next_qty = match new_base_qty {
                Some(q) => q,
                None => self.size->Base_0,
            };
            if next_qty.units() < self.executed_base_qty.units() {
                Some(OrderError::AmendQtyBelowExecuted)
            } else {
                None
            }
        }
    }

    /// A field-for-field copy.
    fn duplicate(&self) -> (o: Order)
        ensures
            o.same_terms(self),
            o.price == self.price,
            o.size == self.size,
            o.executed_base_qty == self.executed_base_qty,
            o.executed_quote_qty == self.executed_quote_qty,
            o.status == self.status,
            o.updated_at == self.updated_at,
    {
        Order {
            order_id: self.order_id,
            symbol: self.symbol.clone(),
            side: self.side,
            order_type: self.order_type,
            tif: self.tif,
            price: self.price,
            size: self.size,
            executed_base_qty: self.executed_base_qty,
            executed_quote_qty: self.executed_quote_qty,
            status: self.status,
            created_at: self.created_at,
            updated_at: self.updated_at,
        }
    }

    /// Fills part of the order; returns the filled order and leaves `self` as it was.
    pub fn fill(&self, base_qty: Dec, quote_qty: Dec) -> (r: Result<Order, OrderError>)
        requires
            self.wf(),
            base_qty.valid(),
            quote_qty.valid(),
        ensures
            r is Err <==> self.fill_rejection(base_qty, quote_qty) is Some,
            r matches Err(e) ==> self.fill_rejection(base_qty, quote_qty) == Some(e),
            r matches Ok(o) ==> fill_applied(*self, base_qty, quote_qty, o),
            r matches Ok(o) ==> match o.size {
                OrderSize::Base(q) => o.executed_base_qty.units() <= q.units(),
                OrderSize::Quote(q) => o.executed_quote_qty.units() <= q.units(),
            },
    {
        let zero = Dec::zero();
        if dec_compare(&base_qty, &zero) != DecOrd::Greater {
            return Err(OrderError::InvalidFillBaseQty);
        }
        if dec_compare(&quote_qty, &zero) != DecOrd::Greater {
            return Err(OrderError::InvalidFillQuoteQty);
        }
        if self.is_completed() {
            return Err(OrderError::AlreadyCompleted);
        }
        let next_base = match dec_checked_add(self.executed_base_qty, base_qty) {
            Some(v) => v,
            None => return Err(OrderError::OverFilled),
        };
        let next_quote = match dec_checked_add(self.executed_quote_qty, quote_qty) {
            Some(v) => v,
            None => return Err(OrderError::OverFilled),
        };
        match self.size {
            OrderSize::Base(qty) => {
                if dec_compare(&next_base, &qty) == DecOrd::Greater {
                    return Err(OrderError::OverFilled);
                }
            },
            OrderSize::Quote(order_quote_qty) => {
                if dec_compare(&next_quote, &order_quote_qty) == DecOrd::Greater {
                    return Err(OrderError::OverFilled);
                }
            },
        }

        let mut new_order = self.duplicate();
        new_order.executed_base_qty = next_base;
        new_order.executed_quote_qty = next_quote;
        new_order.status =
            if new_order.is_filled_by_size() {
                OrderStatus::Filled
            } else {
                OrderStatus::PartiallyFilled
            };
        new_order.updated_at = utc_now_micros();
        Ok(new_order)
    }

    /// Cancels the order in place.
    pub fn cancel(&mut self) -> (r: Result<(), OrderError>)
        ensures
            old(self).status == OrderStatus::Canceled ==> r == Err::<(), OrderError>(
                OrderError::AlreadyCancelled,
            ),
            old(self).status != OrderStatus::Canceled && status_is_completed(old(self).status)
                ==> r == Err::<(), OrderError>(OrderError::AlreadyCompleted),
            r is Err ==> *final(self) == *old(self),
            !status_is_completed(old(self).status) ==> r is Ok,
            r is Ok ==> {
                &&& final(self).status == OrderStatus::Canceled
                &&& final(self).same_terms(old(self))
                &&& final(self).price == old(self).price
                &&& final(self).size == old(self).size
                &&& final(self).executed_base_qty == old(self).executed_base_qty
                &&& final(self).executed_quote_qty == old(self).executed_quote_qty
            },
    {
        if self.status == OrderStatus::Canceled {
            return Err(OrderError::AlreadyCancelled);
        }
        if self.is_completed() {
            return Err(OrderError::AlreadyCompleted);
        }
        self.status = OrderStatus::Canceled;
        self.updated_at = utc_now_micros();
        Ok(())
    }

    /// Changes price and/or base quantity; returns the amended order and leaves `self` as it was.
    pub fn amend(&self, new_price: Option<Dec>, new_base_qty: Option<Dec>) -> (r: Result<
        Order,
        OrderError,
    >)
        requires
            self.wf(),
            new_price matches Some(p) ==> p.valid(),
            new_base_qty matches Some(q) ==> q.valid(),
        ensures
            r is Err <==> self.amend_rejection(new_price, new_base_qty) is Some,
            r matches Err(e) ==> self.amend_rejection(new_price, new_base_qty) == Some(e),
            r matches Ok(o) ==> {
                &&& o.wf()
                &&& o.same_terms(self)
                &&& o.price == Some(
                    match new_price {
                        Some(p) => p,
                        None => self.price.unwrap(),
                    },
                )
                &&& o.size == OrderSize::Base(
                    match new_base_qty {
                        Some(q) => q,
                        None => self.size->Base_0,
                    },
                )
                &&& o.executed_base_qty == self.executed_base_qty
                &&& o.executed_quote_qty == self.executed_quote_qty
                &&& o.status == (if self.executed_base_qty.units() == 0 {
                    OrderStatus::New
                } else if o.filled_by_size() {
                    OrderStatus::Filled
                } else {
                    OrderStatus::PartiallyFilled
                })
            },
    {
        if self.is_completed() {
            return Err(OrderError::AlreadyCompleted);
        }
        if new_price.is_none() && new_base_qty.is_none() {
            return Err(OrderError::AmendNotAllowed);
        }
        let current_price = match self.price {
            Some(p) => p,
            None => return Err(OrderError::AmendNotAllowed),
        };
        let current_base_qty = match self.size {
            OrderSize::Base(qty) => qty,
            OrderSize::Quote(_) => return Err(OrderError::AmendNotAllowed),
        };
        let next_price = match new_price {
            Some(p) => p,
            None => current_price,
        };
        let next_base_qty = match new_base_qty {
            Some(q) => q,
            None => current_base_qty,
        };
        if dec_compare(&next_base_qty, &self.executed_base_qty) == DecOrd::Less {
            return Err(OrderError::AmendQtyBelowExecuted);
        }

        let mut next = self.duplicate();
        next.price = Some(next_price);
        next.size = OrderSize::Base(next_base_qty);
        next.status =
            if dec_compare(&next.executed_base_qty, &Dec::zero()) == DecOrd::Equal {
                OrderStatus::New
            } else if next.is_filled_by_size() {
                OrderStatus::Filled
            } else {
                OrderStatus::PartiallyFilled
            };
        next.updated_at = utc_now_micros();
        Ok(next)
    }

    /// The base quantity still to fill, for an order sized in base.
    pub fn remaining_base_qty(&self) -> (r: Option<Dec>)
        requires
            self.wf(),
        ensures
            self.size matches OrderSize::Base(q) ==> r == decimal_checked_sub(
                q,
                self.executed_base_qty,
            ),
            self.size matches OrderSize::Base(q) && q.units() >= 0 ==> r is Some,
            self.size is Quote ==> r is None,
            r matches Some(v) ==> v.valid(),
    {
        match self.size {
            OrderSize::Base(qty) => dec_checked_sub(qty, self.executed_base_qty),
            OrderSize::Quote(_) => None,
        }
    }

    /// The quote amount still to spend, for an order sized in quote.
    pub fn remaining_quote_qty(&self) -> (r: Option<Dec>)
        requires
            self.wf(),
        ensures
            self.size matches OrderSize::Quote(q) ==> r == decimal_checked_sub(
                q,
                self.executed_quote_qty,
            ),
            self.size matches OrderSize::Quote(q) && q.units() >= 0 ==> r is Some,
            self.size is Base ==> r is None,
            r matches Some(v) ==> v.valid(),
    {
        match self.size {
            OrderSize::Quote(quote_qty) => dec_checked_sub(quote_qty, self.executed_quote_qty),
            OrderSize::Base(_) => None,
        }
    }

    /// The ordered base quantity, for an order sized in base.
    pub fn base_qty(&self) -> (r: Option<Dec>)
        ensures
            r == (match self.size {
                OrderSize::Base(q) => Some(q),
                OrderSize::Quote(_) => None,
            }),
    {
        match self.size {
            OrderSize::Base(qty) => Some(qty),
            OrderSize::Quote(_) => None,
        }
    }

    pub fn is_filled(&self) -> (b: bool)
        ensures
            b == (self.status == OrderStatus::Filled),
    {
        self.status == OrderStatus::Filled
    }

    fn is_filled_by_size(&self) -> (b: bool)
        requires
            self.wf(),
        ensures
            b == self.filled_by_size(),
    {
        match self.size {
            OrderSize::Base(qty) => dec_compare(&self.executed_base_qty, &qty) != DecOrd::Less,
            OrderSize::Quote(quote_qty) => dec_compare(&self.executed_quote_qty, &quote_qty)
                != DecOrd::Less,
        }
    }

    /// Whether the order's decimals are within range and its executed amounts not negative.
    pub fn is_well_formed(&self) -> (b: bool)
        ensures
            b == self.wf(),
    {
        let size_ok = match self.size {
            OrderSize::Base(q) => q.is_valid(),
            OrderSize::Quote(q) => q.is_valid(),
        };
        let price_ok = match self.price {
            Some(p) => p.is_valid(),
            None => true,
        };
        size_ok && price_ok && self.executed_base_qty.is_valid() && self.executed_quote_qty.is_valid()
            && self.executed_base_qty.is_nonnegative() && self.executed_quote_qty.is_nonnegative()
    }

    fn is_completed(&self) -> (b: bool)
        ensures
            b == status_is_completed(self.status),
    {
        !(self.status == OrderStatus::PartiallyFilled || self.status == OrderStatus::New)
    }
}

/// A fill an order accepts never takes its executed total past the ordered size: in base
/// for a base-sized order, in quote for a quote-sized one.
pub proof fn law_fill_never_passes_size(before: Order, base_qty: Dec, quote_qty: Dec, after: Order)
    requires
        before.fill_rejection(base_qty, quote_qty) is None,
        fill_applied(before, base_qty, quote_qty, after),
    ensures
        after.size matches OrderSize::Base(q) ==> after.executed_base_qty.units() <= q.units(),
        after.size matches OrderSize::Quote(q) ==> after.executed_quote_qty.units() <= q.units(),
{
}

} // verus!
