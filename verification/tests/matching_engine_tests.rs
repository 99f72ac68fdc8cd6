use matching_engine::decimal::Dec;
use matching_engine::domain::order::{Order, OrderSize, OrderStatus, OrderType, Side, TimeInForce};
use matching_engine::engine::command::{AmendOrderCommand, EngineCommand};
use matching_engine::engine::matching_engine::MatchingEngine;
use matching_engine::engine::result::{
    AmendOrderOutcome, AmendRejectedReason, CancelOrderOutcome, CancelRejectedReason, CancelledReason,
    EngineResultBody, PlaceOrderOutcome, RejectedReason,
};

fn d(n: i64) -> Dec {
    Dec::new(n, 0)
}

fn make_engine() -> MatchingEngine {
    MatchingEngine::new("BTCUSDT".to_string())
}

fn next_id() -> u128 {
    uuid::Uuid::now_v7().as_u128()
}

fn limit_order(side: Side, tif: TimeInForce, price: i64, qty: i64) -> Order {
    Order {
        order_id: next_id(),
        symbol: "BTCUSDT".to_string(),
        side,
        order_type: OrderType::Limit,
        tif,
        price: Some(d(price)),
        size: OrderSize::Base(d(qty)),
        executed_base_qty: Dec::zero(),
        executed_quote_qty: Dec::zero(),
        status: OrderStatus::New,
        created_at: 0,
        updated_at: 0,
    }
}

fn market_quote_order(side: Side, quote: i64) -> Order {
    Order {
        order_id: next_id(),
        symbol: "BTCUSDT".to_string(),
        side,
        order_type: OrderType::Market,
        tif: TimeInForce::IOC,
        price: None,
        size: OrderSize::Quote(d(quote)),
        executed_base_qty: Dec::zero(),
        executed_quote_qty: Dec::zero(),
        status: OrderStatus::New,
        created_at: 0,
        updated_at: 0,
    }
}

fn amend(order_id: u128, price: Option<Dec>, base_qty: Option<Dec>) -> AmendOrderCommand {
    AmendOrderCommand { command_id: next_id(), order_id, price, base_qty }
}

#[test]
fn buy_and_sell_fill_completely() {
    let mut engine = make_engine();
    engine.bench_seed_order(limit_order(Side::Sell, TimeInForce::GTC, 100, 10));

    engine.place_order(limit_order(Side::Buy, TimeInForce::GTC, 100, 10));

    assert!(engine.orderbook().best_opposite_price(&Side::Buy).is_none());
}

#[test]
fn fok_without_enough_liquidity_is_cancelled() {
    let mut engine = make_engine();
    engine.bench_seed_order(limit_order(Side::Sell, TimeInForce::GTC, 100, 5));

    engine.place_order(limit_order(Side::Buy, TimeInForce::FOK, 100, 10));

    assert!(engine.orderbook().can_fully_fill_base(Side::Buy, d(5), d(100)));
    assert!(!engine.orderbook().can_fully_fill_base(Side::Buy, d(6), d(100)));
}

#[test]
fn market_quote_buy_trades() {
    let mut engine = make_engine();
    engine.bench_seed_order(limit_order(Side::Sell, TimeInForce::GTC, 100, 10));

    engine.place_order(market_quote_order(Side::Buy, 400));

    assert!(engine.orderbook().can_fully_fill_quote(Side::Buy, d(500)));
    assert!(!engine.orderbook().can_fully_fill_quote(Side::Buy, d(700)));
}

#[test]
fn gtc_rests_then_trades() {
    let mut engine = make_engine();

    engine.place_order(limit_order(Side::Buy, TimeInForce::GTC, 100, 5));
    assert!(engine.orderbook().best_opposite_price(&Side::Sell).is_some());

    engine.place_order(limit_order(Side::Sell, TimeInForce::GTC, 100, 5));
    assert!(engine.orderbook().best_opposite_price(&Side::Sell).is_none());
}

#[test]
fn ioc_remainder_does_not_rest() {
    let mut engine = make_engine();
    engine.bench_seed_order(limit_order(Side::Sell, TimeInForce::GTC, 100, 5));

    engine.place_order(limit_order(Side::Buy, TimeInForce::IOC, 100, 10));

    assert!(engine.orderbook().best_opposite_price(&Side::Sell).is_none());
}

#[test]
fn market_sell_by_quote_is_rejected() {
    let mut engine = make_engine();
    engine.bench_seed_order(limit_order(Side::Buy, TimeInForce::GTC, 100, 10));

    engine.place_order(market_quote_order(Side::Sell, 500));

    assert!(engine.orderbook().best_opposite_price(&Side::Sell).is_some());
}

#[test]
fn cancel_succeeds() {
    let mut engine = make_engine();
    let order = limit_order(Side::Buy, TimeInForce::GTC, 100, 10);
    let order_id = order.order_id;
    engine.bench_seed_order(order);

    let result = engine.cancel_order(order_id);

    let EngineResultBody::Cancel(r) = result else {
        panic!("Cancel 결과여야 함");
    };
    let CancelOrderOutcome::Cancelled(snapshot) = r.outcome else {
        panic!("취소 성공이어야 함");
    };
    assert_eq!(snapshot.order_id, order_id);
    assert_eq!(snapshot.status, OrderStatus::Canceled);
    assert_eq!(snapshot.executed_base_qty, Dec::zero());
    assert_eq!(snapshot.remaining_base_qty, Some(d(10)));
    assert!(engine.orderbook().best_opposite_price(&Side::Sell).is_none());
}

#[test]
fn cancel_after_partial_fill() {
    let mut engine = make_engine();
    engine.bench_seed_order(limit_order(Side::Sell, TimeInForce::GTC, 100, 5));

    let buy = limit_order(Side::Buy, TimeInForce::GTC, 100, 10);
    let buy_id = buy.order_id;
    engine.place_order(buy);

    let result = engine.cancel_order(buy_id);

    let EngineResultBody::Cancel(r) = result else {
        panic!("Cancel 결과여야 함");
    };
    let CancelOrderOutcome::Cancelled(snapshot) = r.outcome else {
        panic!("취소 성공이어야 함");
    };
    assert_eq!(snapshot.status, OrderStatus::Canceled);
    assert_eq!(snapshot.executed_base_qty, d(5));
    assert_eq!(snapshot.remaining_base_qty, Some(d(5)));
    assert!(engine.orderbook().best_opposite_price(&Side::Sell).is_none());
}

#[test]
fn cancel_unknown_order_is_refused() {
    let mut engine = make_engine();

    let result = engine.cancel_order(next_id());

    let EngineResultBody::Cancel(r) = result else {
        panic!("Cancel 결과여야 함");
    };
    assert!(matches!(r.outcome, CancelOrderOutcome::Rejected(CancelRejectedReason::OrderNotFound)));
}

#[test]
fn amend_unknown_order_is_refused() {
    let mut engine = make_engine();

    let result = engine.amend_order(amend(next_id(), Some(d(100)), Some(d(5))));

    let EngineResultBody::Amend(r) = result else {
        panic!("Amend 결과여야 함");
    };
    assert!(matches!(r.outcome, AmendOrderOutcome::Rejected(AmendRejectedReason::OrderNotFound)));
}

#[test]
fn amend_without_changes_is_refused_by_engine() {
    let mut engine = make_engine();
    let order = limit_order(Side::Buy, TimeInForce::GTC, 100, 10);
    let order_id = order.order_id;
    engine.bench_seed_order(order);

    let result = engine.amend_order(amend(order_id, None, None));

    let EngineResultBody::Amend(r) = result else {
        panic!("Amend 결과여야 함");
    };
    assert!(matches!(r.outcome, AmendOrderOutcome::Rejected(AmendRejectedReason::AmendNotAllowed)));
}

#[test]
fn amend_decreasing_quantity_keeps_place() {
    let mut engine = make_engine();
    let order = limit_order(Side::Buy, TimeInForce::GTC, 100, 10);
    let order_id = order.order_id;
    engine.bench_seed_order(order);

    let result = engine.amend_order(amend(order_id, Some(d(100)), Some(d(5))));

    let EngineResultBody::Amend(r) = result else {
        panic!("Amend 결과여야 함");
    };
    let AmendOrderOutcome::Amended(snapshot) = r.outcome else {
        panic!("Amended여야 함");
    };
    assert_eq!(snapshot.remaining_base_qty, Some(d(5)));
    assert!(engine.orderbook().get_order(&order_id).is_some());
}

#[test]
fn amend_to_executed_quantity_removes_order() {
    let mut engine = make_engine();
    engine.bench_seed_order(limit_order(Side::Sell, TimeInForce::GTC, 100, 5));
    let buy = limit_order(Side::Buy, TimeInForce::GTC, 100, 10);
    let buy_id = buy.order_id;
    engine.place_order(buy);

    let result = engine.amend_order(amend(buy_id, Some(d(100)), Some(d(5))));

    let EngineResultBody::Amend(r) = result else {
        panic!("Amend 결과여야 함");
    };
    assert!(matches!(r.outcome, AmendOrderOutcome::Amended(_)));
    assert!(engine.orderbook().get_order(&buy_id).is_none());
}

#[test]
fn amend_price_change_cancel_replaces() {
    let mut engine = make_engine();
    let order = limit_order(Side::Buy, TimeInForce::GTC, 100, 10);
    let order_id = order.order_id;
    engine.bench_seed_order(order);

    let result = engine.amend_order(amend(order_id, Some(d(101)), Some(d(10))));

    let EngineResultBody::Amend(r) = result else {
        panic!("Amend 결과여야 함");
    };
    assert!(matches!(r.outcome, AmendOrderOutcome::CancelReplaced { .. }));
}

#[test]
fn amend_quantity_increase_cancel_replaces() {
    let mut engine = make_engine();
    let order = limit_order(Side::Buy, TimeInForce::GTC, 100, 10);
    let order_id = order.order_id;
    engine.bench_seed_order(order);

    let result = engine.amend_order(amend(order_id, Some(d(100)), Some(d(15))));

    let EngineResultBody::Amend(r) = result else {
        panic!("Amend 결과여야 함");
    };
    assert!(matches!(r.outcome, AmendOrderOutcome::CancelReplaced { .. }));
}

#[test]
fn handle_numbers_results_in_order() {
    let mut engine = make_engine();
    let first = engine.handle(EngineCommand::new_place(11, limit_order(Side::Sell, TimeInForce::GTC, 100, 1)));
    let second = engine.handle(EngineCommand::new_cancel(12, 999));
    assert_eq!(first.sequence, 1);
    assert_eq!(first.command_id, 11);
    assert_eq!(second.sequence, 2);
    assert_eq!(second.command_id, 12);
    assert_eq!(second.order_id(), 999);
}

#[test]
fn cancelling_twice_is_refused_the_second_time() {
    let mut engine = make_engine();
    let order = limit_order(Side::Buy, TimeInForce::GTC, 100, 1);
    let order_id = order.order_id;
    engine.bench_seed_order(order);
    let EngineResultBody::Cancel(first) = engine.cancel_order(order_id) else {
        panic!("Cancel 결과여야 함");
    };
    assert!(matches!(first.outcome, CancelOrderOutcome::Cancelled(_)));
    let EngineResultBody::Cancel(second) = engine.cancel_order(order_id) else {
        panic!("Cancel 결과여야 함");
    };
    assert!(matches!(second.outcome, CancelOrderOutcome::Rejected(CancelRejectedReason::OrderNotFound)));
}

#[test]
fn trades_respect_the_limit_and_price_time_priority() {
    let mut engine = make_engine();
    let a = limit_order(Side::Sell, TimeInForce::GTC, 101, 1);
    let b = limit_order(Side::Sell, TimeInForce::GTC, 100, 1);
    let c = limit_order(Side::Sell, TimeInForce::GTC, 100, 1);
    let (a_id, b_id, c_id) = (a.order_id, b.order_id, c.order_id);
    engine.bench_seed_order(a);
    engine.bench_seed_order(b);
    engine.bench_seed_order(c);
    let EngineResultBody::Place(res) = engine.place_order(limit_order(Side::Buy, TimeInForce::IOC, 100, 3)) else {
        panic!("Place 결과여야 함");
    };
    assert_eq!(res.trades.len(), 2);
    assert_eq!(res.trades[0].maker_order_id, b_id);
    assert_eq!(res.trades[1].maker_order_id, c_id);
    assert!(res.trades.iter().all(|t| t.price == d(100)));
    assert!(matches!(
        res.outcome,
        PlaceOrderOutcome::PartiallyFilledAndCancelled(CancelledReason::IocRemainingCancelled)
    ));
    assert!(engine.orderbook().get_order(&a_id).is_some());
}

#[test]
fn gtc_market_order_is_rejected_and_book_unchanged() {
    let mut engine = make_engine();
    engine.bench_seed_order(limit_order(Side::Sell, TimeInForce::GTC, 100, 1));
    let mut order = market_quote_order(Side::Buy, 100);
    order.tif = TimeInForce::GTC;
    let EngineResultBody::Place(res) = engine.place_order(order) else {
        panic!("Place 결과여야 함");
    };
    assert!(matches!(res.outcome, PlaceOrderOutcome::Rejected(RejectedReason::InvalidOrder(_))));
    assert!(res.trades.is_empty());
    assert_eq!(engine.orderbook().best_opposite_price(&Side::Buy), Some(d(100)));
}

#[test]
fn fok_that_can_fill_trades_fully() {
    let mut engine = make_engine();
    engine.bench_seed_order(limit_order(Side::Sell, TimeInForce::GTC, 100, 5));
    let EngineResultBody::Place(res) = engine.place_order(limit_order(Side::Buy, TimeInForce::FOK, 100, 5)) else {
        panic!("Place 결과여야 함");
    };
    assert!(matches!(res.outcome, PlaceOrderOutcome::Filled));
    assert!(engine.orderbook().best_opposite_price(&Side::Buy).is_none());
}

#[test]
fn unfillable_fok_is_cancelled() {
    let mut engine = make_engine();
    engine.bench_seed_order(limit_order(Side::Sell, TimeInForce::GTC, 100, 5));
    let EngineResultBody::Place(res) = engine.place_order(limit_order(Side::Buy, TimeInForce::FOK, 100, 6)) else {
        panic!("Place 결과여야 함");
    };
    assert!(matches!(res.outcome, PlaceOrderOutcome::Cancelled(CancelledReason::FokCannotFullyFill)));
}

#[test]
fn resting_a_duplicate_id_is_rejected() {
    let mut engine = make_engine();
    let resting = limit_order(Side::Buy, TimeInForce::GTC, 90, 1);
    let mut again = limit_order(Side::Buy, TimeInForce::GTC, 95, 1);
    again.order_id = resting.order_id;
    engine.bench_seed_order(resting);
    let EngineResultBody::Place(res) = engine.place_order(again) else {
        panic!("Place 결과여야 함");
    };
    assert!(matches!(res.outcome, PlaceOrderOutcome::Rejected(RejectedReason::DuplicateOrderId)));
    assert_eq!(engine.orderbook().best_opposite_price(&Side::Sell), Some(d(90)));
}

#[test]
fn amend_with_lower_quantity_keeps_queue_position() {
    let mut engine = make_engine();
    let first = limit_order(Side::Sell, TimeInForce::GTC, 100, 5);
    let second = limit_order(Side::Sell, TimeInForce::GTC, 100, 5);
    let (first_id, second_id) = (first.order_id, second.order_id);
    engine.bench_seed_order(first);
    engine.bench_seed_order(second);
    engine.amend_order(amend(first_id, None, Some(d(2))));
    let (price, ids) = engine.orderbook().get_best_opposite(&Side::Buy).unwrap();
    assert_eq!(price, d(100));
    assert_eq!(ids, vec![first_id, second_id]);
    engine.amend_order(amend(first_id, None, Some(d(7))));
    let (_, ids) = engine.orderbook().get_best_opposite(&Side::Buy).unwrap();
    assert_eq!(ids, vec![second_id, first_id]);
}

#[test]
fn trade_amounts_add_up_to_the_taker_totals() {
    let mut engine = make_engine();
    engine.bench_seed_order(limit_order(Side::Sell, TimeInForce::GTC, 100, 2));
    engine.bench_seed_order(limit_order(Side::Sell, TimeInForce::GTC, 101, 3));
    let taker = limit_order(Side::Buy, TimeInForce::IOC, 101, 4);
    let m = engine.match_order(taker);
    assert_eq!(m.trades.len(), 2);
    assert_eq!(m.trades[0].base_qty, d(2));
    assert_eq!(m.trades[0].quote_qty, d(200));
    assert_eq!(m.trades[1].base_qty, d(2));
    assert_eq!(m.trades[1].quote_qty, d(202));
    assert_eq!(m.taker.executed_base_qty, d(4));
    assert_eq!(m.taker.executed_quote_qty, d(402));
    assert_eq!(m.updated_makers[1].executed_base_qty, d(2));
    assert_eq!(m.updated_makers[1].remaining_base_qty, Some(d(1)));
}

#[test]
fn quote_taker_keeps_matching_a_partly_filled_maker() {
    let mut engine = make_engine();
    let maker = limit_order(Side::Sell, TimeInForce::GTC, 3, 100);
    let maker_id = maker.order_id;
    engine.bench_seed_order(maker);

    let body = engine.place_order(market_quote_order(Side::Buy, 40));

    let EngineResultBody::Place(result) = body else { panic!("placement expected") };
    assert!(result.trades.len() >= 2);
    assert!(result.trades.iter().all(|t| t.maker_order_id == maker_id && t.price == d(3)));
    assert_eq!(result.updated_makers.len(), result.trades.len());
    let spent = result
        .trades
        .iter()
        .fold(rust_decimal::Decimal::ZERO, |acc, t| {
            acc + rust_decimal::Decimal::from_i128_with_scale(t.quote_qty.mantissa, t.quote_qty.scale)
        });
    assert!(spent <= rust_decimal::Decimal::from(40));
    assert!(spent > rust_decimal::Decimal::new(3999, 2));
    assert_eq!(engine.orderbook().best_opposite_price(&Side::Buy), Some(d(3)));
}

#[test]
fn placement_leaves_the_book_uncrossed() {
    let mut engine = make_engine();
    engine.bench_seed_order(limit_order(Side::Sell, TimeInForce::GTC, 100, 3));
    engine.bench_seed_order(limit_order(Side::Sell, TimeInForce::GTC, 102, 2));

    engine.place_order(limit_order(Side::Buy, TimeInForce::GTC, 99, 1));
    assert_eq!(engine.orderbook().best_opposite_price(&Side::Sell), Some(d(99)));
    assert_eq!(engine.orderbook().best_opposite_price(&Side::Buy), Some(d(100)));

    engine.place_order(limit_order(Side::Buy, TimeInForce::GTC, 101, 5));
    let best_bid = engine.orderbook().best_opposite_price(&Side::Sell).unwrap();
    let best_ask = engine.orderbook().best_opposite_price(&Side::Buy).unwrap();
    assert_eq!(best_bid, d(101));
    assert_eq!(best_ask, d(102));
}

#[test]
fn filled_taker_that_does_not_cross_is_not_rested() {
    let mut engine = make_engine();
    engine.bench_seed_order(limit_order(Side::Sell, TimeInForce::GTC, 105, 3));
    let mut taker = limit_order(Side::Buy, TimeInForce::GTC, 100, 2);
    taker.executed_base_qty = d(2);
    taker.executed_quote_qty = d(200);
    taker.status = OrderStatus::Filled;

    let EngineResultBody::Place(result) = engine.place_order(taker) else { panic!("placement expected") };

    assert!(matches!(result.outcome, PlaceOrderOutcome::Filled));
    assert!(result.trades.is_empty());
    assert!(engine.orderbook().best_opposite_price(&Side::Sell).is_none());
    assert_eq!(engine.orderbook().best_opposite_price(&Side::Buy), Some(d(105)));
}
