use vstd::prelude::*;

use crate::decimal::{decimal_checked_add, Dec};
use crate::domain::order::{fill_applied, Order, OrderSize, OrderStatus, OrderType, Side, TimeInForce};
use crate::engine::matching_engine::{
    amend_handled, amended_as, amendment_applied, book_without, cancel_handled, fok_unfillable,
    gtc_type_invalid, matched_in_order, placed, price_acceptable, quote_size_invalid, settled_as,
    trades_follow, consumed,
};
use crate::engine::orderbook::{
    has_id, ids_unique, inserted_by_priority, lemma_id_position, order_added, price_units, resting_order,
    OrderBook,
};
use crate::engine::command::AmendOrderCommand;
use crate::engine::result::{
    AmendOrderOutcome, AmendOrderResult, TradeResult, CancelOrderOutcome, CancelOrderResult,
    CancelRejectedReason, PlaceOrderResult,
};

verus! {

/// With unique ids, `s` with its position `i` taken out no longer holds `s[i]`'s id.
proof fn lemma_removed_id_gone(s: Seq<Order>, i: int)
    requires
        ids_unique(s),
        0 <= i < s.len(),
    ensures
        !has_id(s.remove(i), s[i].order_id),
{
    let r = s.remove(i);
    if has_id(r, s[i].order_id) {
        let j = choose|j: int| 0 <= j < r.len() && r[j].order_id == s[i].order_id;
        if j < i {
            assert(r[j] == s[j]);
        } else {
            assert(r[j] == s[j + 1]);
        }
    }
}

/// An order added to the book is found there by its id, exactly as it was added.
pub proof fn law_added_order_is_found(old_book: OrderBook, new_book: OrderBook, order: Order)
    requires
        old_book.wf(),
        new_book.wf(),
        !old_book.contains(order.order_id),
        order_added(old_book, new_book, order),
    ensures
        resting_order(new_book, order.order_id) == Some(order),
{
    let s = old_book.same_side_view(order.side);
    let n = new_book.same_side_view(order.side);
    let k = choose|k: int| 0 <= k <= s.len() && n == s.insert(k, order);
    assert(n[k] == order);
    lemma_id_position(n, k, order.order_id);
    assert(has_id(n, order.order_id));
}

/// Removing the order that was just added gives back the book as it was before the add.
pub proof fn law_remove_undoes_add(b0: OrderBook, b1: OrderBook, b2: OrderBook, order: Order)
    requires
        b0.wf(),
        b1.wf(),
        !b0.contains(order.order_id),
        order_added(b0, b1, order),
        book_without(b1, b2, order),
    ensures
        b2.bids_view() == b0.bids_view(),
        b2.asks_view() == b0.asks_view(),
{
    let s0 = b0.same_side_view(order.side);
    let s1 = b1.same_side_view(order.side);
    let s2 = b2.same_side_view(order.side);
    let k = choose|k: int| 0 <= k <= s0.len() && s1 == s0.insert(k, order);
    let i = choose|i: int| 0 <= i < s1.len() && s1[i] == order && s2 == s1.remove(i);
    assert(s1[k] == order);
    if i != k {
        assert(s1[i].order_id == s1[k].order_id);
    }
    assert(s2 =~= s0);
}

/// A cancelled order is no longer in the book.
pub proof fn law_cancelled_order_is_gone(
    old_book: OrderBook,
    new_book: OrderBook,
    order_id: u128,
    res: CancelOrderResult,
)
    requires
        old_book.wf(),
        cancel_handled(old_book, new_book, order_id, res),
        res.outcome is Cancelled,
    ensures
        !new_book.contains(order_id),
        resting_order(new_book, order_id) is None,
{
    let o = resting_order(old_book, order_id).unwrap();
    let s = old_book.same_side_view(o.side);
    let other = old_book.opposite_view(o.side);
    let i = choose|i: int| 0 <= i < s.len() && s[i] == o && new_book.same_side_view(o.side) == s.remove(i);
    if has_id(old_book.bids_view(), order_id) {
        assert(o.order_id == order_id);
    } else {
        assert(o.order_id == order_id);
    }
    lemma_removed_id_gone(s, i);
    if has_id(other, order_id) {
        let j = choose|j: int| 0 <= j < other.len() && other[j].order_id == order_id;
        if o.side == Side::Buy {
            assert(s[i].order_id != other[j].order_id);
        } else {
            assert(other[j].order_id != s[i].order_id);
        }
    }
}

/// Cancelling the same order a second time is refused as not found and changes nothing.
pub proof fn law_second_cancel_is_refused(
    b0: OrderBook,
    b1: OrderBook,
    b2: OrderBook,
    order_id: u128,
    first: CancelOrderResult,
    second: CancelOrderResult,
)
    requires
        b0.wf(),
        cancel_handled(b0, b1, order_id, first),
        first.outcome is Cancelled,
        cancel_handled(b1, b2, order_id, second),
    ensures
        second.outcome == CancelOrderOutcome::Rejected(CancelRejectedReason::OrderNotFound),
        b2 == b1,
{
    law_cancelled_order_is_gone(b0, b1, order_id, first);
}

/// Every trade of a placement is made for the placed order, at a price that order accepts:
/// a limit buy never trades above its limit price, a limit sell never below it.
pub proof fn law_trades_respect_limit(
    old_book: OrderBook,
    new_book: OrderBook,
    taker: Order,
    res: PlaceOrderResult,
    i: int,
)
    requires
        placed(old_book, new_book, taker, res),
        0 <= i < res.trades@.len(),
    ensures
        res.trades@[i].taker_order_id == taker.order_id,
        price_acceptable(taker, res.trades@[i].price),
        taker.order_type == OrderType::Limit && taker.side == Side::Buy ==> res.trades@[i].price.units()
            <= taker.price.unwrap().units(),
        taker.order_type == OrderType::Limit && taker.side == Side::Sell ==> res.trades@[i].price.units()
            >= taker.price.unwrap().units(),
{
    let t = choose|t: Order| #[trigger] settled_as(old_book, new_book, taker, t, res);
    let old_opp = old_book.opposite_view(taker.side);
    let new_opp = new_book.opposite_view(taker.side);
    let (k, idx, takers, fmakers) = choose|k: int, idx: Seq<int>, takers: Seq<Order>, fmakers: Seq<Order>|
        #![trigger consumed(old_opp, new_opp, k), trades_follow(old_opp, k, idx, res.trades@, res.updated_makers@, taker, takers, fmakers)]
        consumed(old_opp, new_opp, k) && trades_follow(old_opp, k, idx, res.trades@, res.updated_makers@, taker, takers, fmakers)
            && takers.last() == t;
    assert(res.trades@[i].taker_order_id == taker.order_id);
}

/// A placement refused before matching (a quote size on anything but a market buy, a
/// good-till-cancel order that is not a limit order, a fill-or-kill order the book cannot
/// fill) trades nothing and leaves the book as it was.
pub proof fn law_refused_placement_leaves_book(
    old_book: OrderBook,
    new_book: OrderBook,
    taker: Order,
    res: PlaceOrderResult,
)
    requires
        placed(old_book, new_book, taker, res),
        quote_size_invalid(taker) || gtc_type_invalid(taker) || fok_unfillable(old_book, taker),
    ensures
        new_book == old_book,
        res.trades@.len() == 0,
        res.updated_makers@.len() == 0,
{
}


/// `start` plus the base amounts of `trades`, added one trade at a time as decimals.
pub open spec fn base_total(start: Dec, trades: Seq<TradeResult>) -> Option<Dec>
    decreases trades.len(),
{
    if trades.len() == 0 {
        Some(start)
    } else {
        match base_total(start, trades.drop_last()) {
            None => None,
            Some(s) => decimal_checked_add(s, trades.last().base_qty),
        }
    }
}

/// `start` plus the quote amounts of `trades`, added one trade at a time as decimals.
pub open spec fn quote_total(start: Dec, trades: Seq<TradeResult>) -> Option<Dec>
    decreases trades.len(),
{
    if trades.len() == 0 {
        Some(start)
    } else {
        match quote_total(start, trades.drop_last()) {
            None => None,
            Some(s) => decimal_checked_add(s, trades.last().quote_qty),
        }
    }
}

proof fn lemma_totals_prefix(
    trades: Seq<TradeResult>,
    takers: Seq<Order>,
    n: int,
)
    requires
        takers.len() == trades.len() + 1,
        0 <= n <= trades.len(),
        forall|i: int|
            0 <= i < trades.len() ==> fill_applied(
                #[trigger] takers[i],
                trades[i].base_qty,
                trades[i].quote_qty,
                takers[i + 1],
            ),
    ensures
        base_total(takers[0].executed_base_qty, trades.take(n)) == Some(takers[n].executed_base_qty),
        quote_total(takers[0].executed_quote_qty, trades.take(n)) == Some(takers[n].executed_quote_qty),
    decreases n,
{
    if n > 0 {
        lemma_totals_prefix(trades, takers, n - 1);
        assert(trades.take(n).drop_last() =~= trades.take(n - 1));
        assert(trades.take(n).last() == trades[n - 1]);
        assert(fill_applied(takers[n - 1], trades[n - 1].base_qty, trades[n - 1].quote_qty, takers[n]));
    }
}

/// Trade amounts are conserved: after matching, the taker's executed totals are its totals
/// before matching plus the base and quote amounts of its trades, and every trade's quote is
/// its base times its price.
pub proof fn law_trade_amounts_are_conserved(
    old_opp: Seq<Order>,
    new_opp: Seq<Order>,
    trades: Seq<TradeResult>,
    makers: Seq<crate::engine::result::OrderSnapshot>,
    taker: Order,
    last: Order,
)
    requires
        matched_in_order(old_opp, new_opp, trades, makers, taker, last),
    ensures
        base_total(taker.executed_base_qty, trades) == Some(last.executed_base_qty),
        quote_total(taker.executed_quote_qty, trades) == Some(last.executed_quote_qty),
        forall|i: int|
            0 <= i < trades.len() ==> crate::decimal::decimal_checked_mul(#[trigger] trades[i].base_qty, trades[i].price)
                == Some(trades[i].quote_qty),
{
    let (k, idx, takers, fmakers) = choose|k: int, idx: Seq<int>, takers: Seq<Order>, fmakers: Seq<Order>|
        #![trigger consumed(old_opp, new_opp, k), trades_follow(old_opp, k, idx, trades, makers, taker, takers, fmakers)]
        consumed(old_opp, new_opp, k) && trades_follow(old_opp, k, idx, trades, makers, taker, takers, fmakers)
            && takers.last() == last;
    assert forall|i: int| 0 <= i < trades.len() implies fill_applied(
        #[trigger] takers[i],
        trades[i].base_qty,
        trades[i].quote_qty,
        takers[i + 1],
    ) by {
        assert(idx.len() == trades.len());
    }
    lemma_totals_prefix(trades, takers, trades.len() as int);
    assert(trades.take(trades.len() as int) =~= trades);
    assert forall|i: int| 0 <= i < trades.len() implies crate::decimal::decimal_checked_mul(
        #[trigger] trades[i].base_qty,
        trades[i].price,
    ) == Some(trades[i].quote_qty) by {}
}

/// The best bid is below the best ask (or a side is empty): no buy order rests at or
/// above a sell order.
pub open spec fn uncrossed(book: OrderBook) -> bool {
    let bids = book.bids_view();
    let asks = book.asks_view();
    bids.len() == 0 || asks.len() == 0 || price_units(bids[0]) < price_units(asks[0])
}

/// Placing an order leaves an uncrossed book uncrossed: matching takes the opposite side
/// until the taker is filled or the best opposite price is past its limit, so what rests
/// afterwards does not cross. Left out are the placements where a resting taker stopped
/// matching on a trade that could not be applied or that moved neither order nearer to
/// filled.
pub proof fn law_placement_keeps_book_uncrossed(
    old_book: OrderBook,
    new_book: OrderBook,
    taker: Order,
    res: PlaceOrderResult,
)
    requires
        old_book.wf(),
        uncrossed(old_book),
        taker.tif == TimeInForce::GTC && taker.order_type == OrderType::Limit ==> taker.price is Some,
        placed(old_book, new_book, taker, res),
        forall|t: Order|
            #[trigger] settled_as(old_book, new_book, taker, t, res) && t.status != OrderStatus::Filled
                && taker.tif == TimeInForce::GTC && !has_id(old_book.same_side_view(taker.side), t.order_id)
                && !has_id(new_book.opposite_view(taker.side), t.order_id) ==> {
                let opp = new_book.opposite_view(taker.side);
                opp.len() == 0 || !price_acceptable(t, opp[0].price.unwrap())
            },
    ensures
        uncrossed(new_book),
{
    if quote_size_invalid(taker) || gtc_type_invalid(taker) || fok_unfillable(old_book, taker) {
        return;
    }
    let t = choose|t: Order| #[trigger] settled_as(old_book, new_book, taker, t, res);
    let old_opp = old_book.opposite_view(taker.side);
    let new_opp = new_book.opposite_view(taker.side);
    let old_same = old_book.same_side_view(taker.side);
    let new_same = new_book.same_side_view(taker.side);
    let (k, idx, takers, fmakers) = choose|k: int, idx: Seq<int>, takers: Seq<Order>, fmakers: Seq<Order>|
        #![trigger consumed(old_opp, new_opp, k), trades_follow(old_opp, k, idx, res.trades@, res.updated_makers@, taker, takers, fmakers)]
        consumed(old_opp, new_opp, k) && trades_follow(old_opp, k, idx, res.trades@, res.updated_makers@, taker, takers, fmakers)
            && takers.last() == t;
    if new_opp.len() > 0 {
        // The new best opposite price is that of the order at position `k`, no better than
        // the old best one.
        if new_opp == old_opp.skip(k) {
            assert(new_opp[0] == old_opp[k]);
        }
        assert(price_units(new_opp[0]) == price_units(old_opp[k]));
    }
    let rests = t.status != OrderStatus::Filled && taker.tif == TimeInForce::GTC;
    let dup = has_id(old_same, t.order_id) || has_id(new_opp, t.order_id);
    if rests && !dup {
        let pos = choose|pos: int|
            0 <= pos <= old_same.len() && new_same == old_same.insert(pos, t) && (forall|i: int|
                0 <= i < pos ==> if taker.side == Side::Buy {
                    price_units(#[trigger] old_same[i]) >= price_units(t)
                } else {
                    price_units(old_same[i]) <= price_units(t)
                }) && (forall|i: int|
                pos <= i < old_same.len() ==> if taker.side == Side::Buy {
                    price_units(#[trigger] old_same[i]) < price_units(t)
                } else {
                    price_units(old_same[i]) > price_units(t)
                });
        assert(new_same[0] == (if pos == 0 { t } else { old_same[0] }));
    }
}

/// An accepted amendment of a resting base-sized order `o` that keeps its price, asks for no
/// more base than `o` was placed for, and still leaves the order more to fill than it has
/// executed, changes the order where it rests: the answer is `Amended`, the other side of
/// the book is untouched, and the order keeps its position with the new quantity while
/// every other order stays as it was.
pub proof fn law_amend_without_increase_keeps_place(
    old_book: OrderBook,
    new_book: OrderBook,
    cmd: AmendOrderCommand,
    res: AmendOrderResult,
    o: Order,
)
    requires
        old_book.wf(),
        amend_handled(old_book, new_book, cmd, res),
        resting_order(old_book, cmd.order_id) == Some(o),
        o.amend_rejection(cmd.price, cmd.base_qty) is None,
        cmd.price matches Some(p) ==> p.units() == price_units(o),
        o.size matches OrderSize::Base(q) && (cmd.base_qty matches Some(n) ==> n.units() <= q.units()),
        (match cmd.base_qty {
            Some(n) => n,
            None => o.size->Base_0,
        }).units() > o.executed_base_qty.units(),
    ensures
        res.outcome matches AmendOrderOutcome::Amended(_),
        new_book.opposite_view(o.side) == old_book.opposite_view(o.side),
        ({
            let old_same = old_book.same_side_view(o.side);
            let new_same = new_book.same_side_view(o.side);
            let qty = match cmd.base_qty {
                Some(n) => n,
                None => o.size->Base_0,
            };
            exists|i: int|
                0 <= i < old_same.len() && old_same[i].order_id == o.order_id && new_same.len() == old_same.len()
                    && (#[trigger] new_same[i]).order_id == o.order_id && new_same[i].size == OrderSize::Base(qty)
                    && (forall|j: int| 0 <= j < old_same.len() && j != i ==> new_same[j] == old_same[j])
        }),
{
    let a = choose|a: Order| #[trigger] amended_as(o, cmd.price, cmd.base_qty, a)
        && amendment_applied(old_book, new_book, o, a, res.outcome);
    assert(a.status != OrderStatus::Filled);
    assert(price_units(a) == price_units(o));
    let old_same = old_book.same_side_view(o.side);
    let i = choose|i: int|
        0 <= i < old_same.len() && old_same[i].order_id == o.order_id && new_book.same_side_view(o.side)
            == old_same.update(i, a);
    assert(new_book.same_side_view(o.side)[i] == a);
}

/// An accepted amendment of a resting base-sized order `o` that changes its price, or asks
/// for more base than `o` was placed for, and leaves the order more to fill than it has
/// executed, cancels the order and places it again: the answer is `CancelReplaced`.
pub proof fn law_amend_with_new_price_or_more_quantity_replaces(
    old_book: OrderBook,
    new_book: OrderBook,
    cmd: AmendOrderCommand,
    res: AmendOrderResult,
    o: Order,
)
    requires
        old_book.wf(),
        amend_handled(old_book, new_book, cmd, res),
        resting_order(old_book, cmd.order_id) == Some(o),
        o.amend_rejection(cmd.price, cmd.base_qty) is None,
        o.size is Base,
        (cmd.price matches Some(p) && p.units() != price_units(o)) || (cmd.base_qty matches Some(n) && n.units()
            > o.size->Base_0.units()),
        (match cmd.base_qty {
            Some(n) => n,
            None => o.size->Base_0,
        }).units() > o.executed_base_qty.units(),
    ensures
        res.outcome matches AmendOrderOutcome::CancelReplaced { .. },
{
    let a = choose|a: Order| #[trigger] amended_as(o, cmd.price, cmd.base_qty, a)
        && amendment_applied(old_book, new_book, o, a, res.outcome);
    assert(a.status != OrderStatus::Filled);
}

} // verus!
