use matching_engine::decimal::Dec;
use matching_engine::domain::error::OrderError;
use matching_engine::domain::order::{Order, OrderSize, OrderStatus, OrderType, Side, TimeInForce};

fn d(n: i64) -> Dec {
    Dec::new(n, 0)
}

fn make_base_order(qty: Dec) -> Order {
    Order {
        order_id: 1,
        symbol: "BTC/USDT".to_string(),
        side: Side::Buy,
        order_type: OrderType::Limit,
        tif: TimeInForce::GTC,
        price: Some(d(100)),
        size: OrderSize::Base(qty),
        executed_base_qty: Dec::zero(),
        executed_quote_qty: Dec::zero(),
        status: OrderStatus::New,
        created_at: 0,
        updated_at: 0,
    }
}

fn make_quote_order(quote: Dec) -> Order {
    Order {
        order_id: 2,
        symbol: "BTC/USDT".to_string(),
        side: Side::Buy,
        order_type: OrderType::Market,
        tif: TimeInForce::IOC,
        price: None,
        size: OrderSize::Quote(quote),
        executed_base_qty: Dec::zero(),
        executed_quote_qty: Dec::zero(),
        status: OrderStatus::New,
        created_at: 0,
        updated_at: 0,
    }
}

#[test]
fn base_order_fills_in_parts() {
    let order = make_base_order(d(10));

    let order = order.fill(d(4), d(400)).unwrap();
    assert_eq!(order.executed_base_qty, d(4));
    assert_eq!(order.executed_quote_qty, d(400));
    assert_eq!(order.status, OrderStatus::PartiallyFilled);

    let order = order.fill(d(6), d(600)).unwrap();
    assert_eq!(order.executed_base_qty, d(10));
    assert_eq!(order.executed_quote_qty, d(1000));
    assert_eq!(order.status, OrderStatus::Filled);
}

#[test]
fn quote_order_fills_in_parts() {
    let order = make_quote_order(d(1000));

    let order = order.fill(d(4), d(400)).unwrap();
    assert_eq!(order.executed_quote_qty, d(400));
    assert_eq!(order.status, OrderStatus::PartiallyFilled);

    let order = order.fill(d(6), d(600)).unwrap();
    assert_eq!(order.executed_quote_qty, d(1000));
    assert_eq!(order.status, OrderStatus::Filled);
}

#[test]
fn base_order_overfill_is_refused() {
    let order = make_base_order(d(10));
    let result = order.fill(d(11), d(1100));
    assert!(matches!(result, Err(OrderError::OverFilled)));
}

#[test]
fn quote_order_overfill_is_refused() {
    let order = make_quote_order(d(1000));
    let result = order.fill(d(11), d(1100));
    assert!(matches!(result, Err(OrderError::OverFilled)));
}

#[test]
fn new_order_cancels() {
    let mut order = make_base_order(d(10));
    assert_eq!(order.cancel(), Ok(()));
    assert_eq!(order.status, OrderStatus::Canceled);
}

#[test]
fn partially_filled_order_cancels() {
    let order = make_base_order(d(10));
    let mut order = order.fill(d(4), d(400)).unwrap();
    assert_eq!(order.status, OrderStatus::PartiallyFilled);
    assert_eq!(order.cancel(), Ok(()));
    assert_eq!(order.status, OrderStatus::Canceled);
}

#[test]
fn cancelled_order_cannot_cancel_again() {
    let mut order = make_base_order(d(10));
    order.cancel().unwrap();
    assert_eq!(order.cancel(), Err(OrderError::AlreadyCancelled));
}

#[test]
fn filled_order_cannot_cancel() {
    let order = make_base_order(d(10));
    let mut order = order.fill(d(10), d(1000)).unwrap();
    assert_eq!(order.status, OrderStatus::Filled);
    assert_eq!(order.cancel(), Err(OrderError::AlreadyCompleted));
}

#[test]
fn amend_changes_price_and_quantity() {
    let order = make_base_order(d(10));
    let amended = order.amend(Some(d(200)), Some(d(20))).unwrap();
    assert_eq!(amended.price, Some(d(200)));
    assert_eq!(amended.size, OrderSize::Base(d(20)));
    assert_eq!(amended.status, OrderStatus::New);
}

#[test]
fn partially_filled_order_amends() {
    let order = make_base_order(d(10));
    let order = order.fill(d(4), d(400)).unwrap();
    let amended = order.amend(None, Some(d(8))).unwrap();
    assert_eq!(amended.size, OrderSize::Base(d(8)));
    assert_eq!(amended.status, OrderStatus::PartiallyFilled);
}

#[test]
fn quote_order_cannot_amend() {
    let order = make_quote_order(d(1000));
    let result = order.amend(None, Some(d(5)));
    assert!(matches!(result, Err(OrderError::AmendNotAllowed)));
}

#[test]
fn filled_order_cannot_amend() {
    let order = make_base_order(d(10));
    let order = order.fill(d(10), d(1000)).unwrap();
    let result = order.amend(None, Some(d(20)));
    assert!(matches!(result, Err(OrderError::AlreadyCompleted)));
}

#[test]
fn amend_below_executed_is_refused() {
    let order = make_base_order(d(10));
    let order = order.fill(d(5), d(500)).unwrap();
    let result = order.amend(None, Some(d(3)));
    assert!(matches!(result, Err(OrderError::AmendQtyBelowExecuted)));
}

#[test]
fn fill_rejects_non_positive_quantities() {
    let order = make_base_order(d(10));
    assert_eq!(order.fill(d(0), d(100)).unwrap_err(), OrderError::InvalidFillBaseQty);
    assert_eq!(order.fill(d(1), d(-1)).unwrap_err(), OrderError::InvalidFillQuoteQty);
}

#[test]
fn fill_returns_a_new_order_and_keeps_self() {
    let order = make_base_order(d(10));
    let filled = order.fill(d(3), d(300)).unwrap();
    assert_eq!(order.executed_base_qty, d(0));
    assert_eq!(order.status, OrderStatus::New);
    assert_eq!(filled.order_id, order.order_id);
    assert_eq!(filled.remaining_base_qty(), Some(d(7)));
}

#[test]
fn amend_without_changes_is_refused() {
    let order = make_base_order(d(10));
    assert_eq!(order.amend(None, None).unwrap_err(), OrderError::AmendNotAllowed);
}

#[test]
fn decimal_equality_is_by_value() {
    assert_eq!(Dec::new(10, 0), Dec::new(100, 1));
    assert_ne!(Dec::new(10, 0), Dec::new(101, 1));
}

#[test]
fn remaining_quantities_follow_the_size_kind() {
    let base = make_base_order(d(10)).fill(d(4), d(400)).unwrap();
    assert_eq!(base.remaining_base_qty(), Some(d(6)));
    assert_eq!(base.remaining_quote_qty(), None);
    let quote = make_quote_order(d(1000)).fill(d(4), d(400)).unwrap();
    assert_eq!(quote.remaining_quote_qty(), Some(d(600)));
    assert_eq!(quote.remaining_base_qty(), None);
    assert!(!quote.is_filled());
}
