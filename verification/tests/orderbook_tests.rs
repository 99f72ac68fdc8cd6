use matching_engine::decimal::Dec;
use matching_engine::domain::order::{Order, OrderSize, OrderStatus, OrderType, Side, TimeInForce};
use matching_engine::engine::orderbook::{OrderBook, OrderBookError};

fn d(n: i64) -> Dec {
    Dec::new(n, 0)
}

fn make_order(order_id: u128, side: Side, price: Dec, qty: Dec) -> Order {
    Order {
        order_id,
        symbol: "BTC/USDT".to_string(),
        side,
        order_type: OrderType::Limit,
        tif: TimeInForce::GTC,
        price: Some(price),
        size: OrderSize::Base(qty),
        executed_base_qty: Dec::zero(),
        executed_quote_qty: Dec::zero(),
        status: OrderStatus::New,
        created_at: 0,
        updated_at: 0,
    }
}

fn make_ask(order_id: u128, price: Dec, qty: Dec) -> Order {
    make_order(order_id, Side::Sell, price, qty)
}

fn make_bid(order_id: u128, price: Dec, qty: Dec) -> Order {
    make_order(order_id, Side::Buy, price, qty)
}

#[test]
fn best_opposite_level_lookup() {
    let mut ob = OrderBook::default();
    ob.add_order(make_ask(1, d(200), d(5))).unwrap();
    ob.add_order(make_ask(2, d(100), d(5))).unwrap();

    let (ask_price, _) = ob.get_best_opposite(&Side::Buy).unwrap();
    assert_eq!(ask_price, d(100));

    ob.add_order(make_bid(3, d(80), d(5))).unwrap();
    ob.add_order(make_bid(4, d(90), d(5))).unwrap();

    let (bid_price, _) = ob.get_best_opposite(&Side::Sell).unwrap();
    assert_eq!(bid_price, d(90));
}

#[test]
fn base_full_fill_check() {
    let mut ob = OrderBook::default();
    ob.add_order(make_ask(1, d(100), d(5))).unwrap();
    ob.add_order(make_ask(2, d(120), d(10))).unwrap();

    assert!(!ob.can_fully_fill_base(Side::Buy, d(8), d(110)));
    assert!(ob.can_fully_fill_base(Side::Buy, d(3), d(110)));

    assert!(ob.can_fully_fill_base(Side::Buy, d(12), d(130)));
}

#[test]
fn quote_full_fill_check() {
    let mut ob = OrderBook::default();
    ob.add_order(make_ask(1, d(100), d(3))).unwrap();
    ob.add_order(make_ask(2, d(200), d(2))).unwrap();

    assert!(!ob.can_fully_fill_quote(Side::Buy, d(800)));
    assert!(ob.can_fully_fill_quote(Side::Buy, d(500)));
}

#[test]
fn removing_last_order_clears_level() {
    let mut ob = OrderBook::default();
    let order = make_ask(1, d(100), d(5));
    let order_id = order.order_id;
    ob.add_order(order).unwrap();

    assert!(ob.get_best_opposite(&Side::Buy).is_some());

    ob.remove_order(order_id);

    assert!(ob.get_best_opposite(&Side::Buy).is_none());
}

#[test]
fn duplicate_order_id_is_refused_and_book_unchanged() {
    let mut ob = OrderBook::new();
    ob.add_order(make_bid(7, d(100), d(1))).unwrap();
    assert_eq!(ob.add_order(make_ask(7, d(200), d(1))), Err(OrderBookError::DuplicateOrderId));
    assert!(ob.get_best_opposite(&Side::Buy).is_none());
    assert_eq!(ob.best_opposite_price(&Side::Sell), Some(d(100)));
}

#[test]
fn best_level_lists_orders_in_arrival_order() {
    let mut ob = OrderBook::new();
    ob.add_order(make_ask(1, d(100), d(1))).unwrap();
    ob.add_order(make_ask(2, d(101), d(1))).unwrap();
    ob.add_order(make_ask(3, d(100), d(1))).unwrap();
    let (price, ids) = ob.get_best_opposite(&Side::Buy).unwrap();
    assert_eq!(price, d(100));
    assert_eq!(ids, vec![1, 3]);
}

#[test]
fn added_order_is_found_and_removal_restores_the_book() {
    let mut ob = OrderBook::new();
    ob.add_order(make_bid(1, d(90), d(2))).unwrap();
    let order = make_bid(2, d(95), d(3));
    ob.add_order(order.clone()).unwrap();
    let found = ob.get_order(&2).unwrap();
    assert_eq!(found.price, Some(d(95)));
    assert!(ob.contains_order(2));
    let removed = ob.remove_order(2).unwrap();
    assert_eq!(removed.order_id, 2);
    assert!(!ob.contains_order(2));
    assert_eq!(ob.best_opposite_price(&Side::Sell), Some(d(90)));
    assert!(ob.remove_order(2).is_none());
}

#[test]
fn quote_sized_order_rests_and_removal_restores_the_book() {
    let mut ob = OrderBook::new();
    let mut order = make_ask(9, d(100), d(1));
    order.size = OrderSize::Quote(d(500));
    ob.add_order(order).unwrap();
    assert_eq!(ob.best_opposite_price(&Side::Buy), Some(d(100)));
    assert!(!ob.can_fully_fill_base(Side::Buy, d(1), d(100)));
    assert!(ob.remove_order(9).is_some());
    assert!(ob.get_best_opposite(&Side::Buy).is_none());
}
