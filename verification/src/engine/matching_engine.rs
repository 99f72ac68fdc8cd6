use vstd::prelude::*;

use crate::decimal::{
    dec_checked_div, dec_checked_mul, dec_compare, dec_min, decimal_checked_div,
    decimal_checked_mul, decimal_checked_sub, Dec, DecOrd, MAX_MANTISSA,
};
use crate::domain::order::{
    fill_applied, status_is_completed, Order, OrderSize, OrderStatus, OrderType, Side, TimeInForce,
};
use crate::engine::command::{AmendOrderCommand, EngineCommand};
use crate::engine::orderbook::{
    base_walk, has_id, inserted_by_priority, price_units, quote_walk, remaining_base,
    removed_one, resting_on, resting_order, id_position, lemma_id_position, order_added, OrderBook,
};
use crate::engine::result::{
    AmendOrderOutcome, AmendOrderResult, AmendRejectedReason, CancelOrderOutcome,
    CancelOrderResult, CancelRejectedReason, CancelledReason, EngineResult, EngineResultBody, OrderSnapshot,
    PlaceOrderOutcome, PlaceOrderResult, RejectedReason, TradeResult,
};
use crate::ident::new_v7_id;

verus! {

/// Every order of the sequence can still be filled, cancelled or amended.
pub open spec fn all_live(s: Seq<Order>) -> bool {
    forall|i: int| 0 <= i < s.len() ==> !status_is_completed(#[trigger] s[i].status)
}

/// Whether a taker accepts to trade at `maker_price`: a market order takes any price, a
/// buy limit order a price at or below its limit, a sell limit order a price at or above it.
pub open spec fn price_acceptable(taker: Order, maker_price: Dec) -> bool {
    match taker.order_type {
        OrderType::Market => true,
        OrderType::Limit => match taker.price {
            None => false,
            Some(tp) => match taker.side {
                Side::Buy => maker_price.units() <= tp.units(),
                Side::Sell => maker_price.units() >= tp.units(),
            },
        },
    }
}

/// The smaller by value, the first when equal.
pub open spec fn min_dec(a: Dec, b: Dec) -> Dec {
    if a.units() > b.units() {
        b
    } else {
        a
    }
}

/// The quote amount an order still has to spend, as `remaining_quote_qty` computes it.
pub open spec fn remaining_quote(o: Order) -> Option<Dec> {
    match o.size {
        OrderSize::Quote(q) => decimal_checked_sub(q, o.executed_quote_qty),
        OrderSize::Base(_) => None,
    }
}

/// The base quantity a taker takes from a maker: the smaller of what the maker has left and
/// what the taker still wants (for a taker sized in quote, its remaining quote divided by the
/// maker's price). `None` when one of these cannot be computed.
pub open spec fn fill_amount(taker: Order, maker: Order) -> Option<Dec> {
    match remaining_base(maker) {
        None => None,
        Some(maker_rem) => match taker.size {
            OrderSize::Base(_) => match remaining_base(taker) {
                None => None,
                Some(taker_rem) => Some(min_dec(maker_rem, taker_rem)),
            },
            OrderSize::Quote(_) => match remaining_quote(taker) {
                None => None,
                Some(rq) => match maker.price {
                    None => None,
                    Some(p) => match decimal_checked_div(rq, p) {
                        None => None,
                        Some(q) => Some(min_dec(maker_rem, q)),
                    },
                },
            },
        },
    }
}

/// A trade of `fill` base between taker and maker at the maker's price cannot be applied:
/// its quote amount does not fit, or one of the two orders refuses the fill.
pub open spec fn trade_blocked(taker: Order, maker: Order, fill: Dec) -> bool {
    match decimal_checked_mul(fill, maker.price.unwrap()) {
        None => true,
        Some(q) => maker.fill_rejection(fill, q) is Some || taker.fill_rejection(fill, q) is Some,
    }
}

/// What an order still has to be filled by, in the unit of its size: base for a base
/// size, quote for a quote size.
pub open spec fn left_to_fill(o: Order) -> int {
    match o.size {
        OrderSize::Base(q) => q.units() - o.executed_base_qty.units(),
        OrderSize::Quote(q) => q.units() - o.executed_quote_qty.units(),
    }
}

/// The maker of trade `i` as it stood before that trade: the order at position `idx[i]` of
/// the opposite side, or, when the previous trade was with the same order, that order as
/// the previous trade left it.
pub open spec fn maker_before(old_opp: Seq<Order>, idx: Seq<int>, fmakers: Seq<Order>, i: int) -> Order {
    if i > 0 && idx[i - 1] == idx[i] {
        fmakers[i - 1]
    } else {
        old_opp[idx[i]]
    }
}

/// How many of the positions `idx` (in increasing order) lie before position `j`.
pub open spec fn trades_before(idx: Seq<int>, j: int) -> nat
    decreases idx.len(),
{
    if idx.len() == 0 {
        0
    } else if idx.last() < j {
        idx.len()
    } else {
        trades_before(idx.drop_last(), j)
    }
}

proof fn lemma_trades_before_bounded(idx: Seq<int>, j: int)
    ensures
        trades_before(idx, j) <= idx.len(),
    decreases idx.len(),
{
    if idx.len() > 0 && idx.last() >= j {
        lemma_trades_before_bounded(idx.drop_last(), j);
    }
}

/// Why the order at position `j` of the opposite side left it: with `c` the trades made up
/// to that position, either its last trade filled it, or the fill amount of the taker (as
/// the `c` trades left it) against the order (as its last trade left it, or as it rested
/// when it never traded) could not be computed.
pub open spec fn left_rightly(old_opp: Seq<Order>, idx: Seq<int>, takers: Seq<Order>, fmakers: Seq<Order>, j: int) -> bool {
    let c = trades_before(idx, j + 1) as int;
    if c > 0 && idx[c - 1] == j {
        fmakers[c - 1].status == OrderStatus::Filled || fill_amount(takers[c], fmakers[c - 1]) is None
    } else {
        fill_amount(takers[c], old_opp[j]) is None
    }
}

/// The trades of one placement follow the opposite side `old_opp` in priority order: trade
/// `i` was made with the order at position `idx[i]`; positions never decrease and stay
/// within the first `k + 1` orders, and an order is traded again only right after a trade
/// that left it partly filled. Each trade is at that maker's price and within the taker's
/// limit. `takers[i]` is the taker before trade `i` (`takers[0]` the order as placed) and
/// `fmakers[i]` the maker after it: each trade's base amount is the fill amount of the taker
/// against the maker as both stood, its quote amount is base times price, both orders took
/// the fill, and the maker's snapshot reports it filled. Every order before position `k`
/// left the opposite side for a reason (`left_rightly`).
pub open spec fn trades_follow(
    old_opp: Seq<Order>,
    k: int,
    idx: Seq<int>,
    trades: Seq<TradeResult>,
    makers: Seq<OrderSnapshot>,
    taker: Order,
    takers: Seq<Order>,
    fmakers: Seq<Order>,
) -> bool {
    &&& idx.len() == trades.len()
    &&& makers.len() == trades.len()
    &&& fmakers.len() == trades.len()
    &&& takers.len() == trades.len() + 1
    &&& takers[0] == taker
    &&& forall|i: int, j: int| 0 <= i < j < idx.len() ==> idx[i] <= idx[j]
    &&& forall|i: int| 0 <= i < idx.len() ==> 0 <= #[trigger] idx[i] <= k && idx[i] < old_opp.len()
    &&& forall|i: int|
        0 < i < idx.len() && #[trigger] idx[i] == idx[i - 1] ==> fmakers[i - 1].status != OrderStatus::Filled
    &&& forall|j: int| 0 <= j < k ==> #[trigger] left_rightly(old_opp, idx, takers, fmakers, j)
    &&& forall|i: int|
        0 <= i < idx.len() ==> {
            &&& (#[trigger] trades[i]).maker_order_id == old_opp[idx[i]].order_id
            &&& makers[i].order_id == trades[i].maker_order_id
            &&& Some(trades[i].price) == old_opp[idx[i]].price
            &&& trades[i].taker_order_id == taker.order_id
            &&& price_acceptable(taker, trades[i].price)
            &&& trades[i].base_qty.units() > 0
            &&& trades[i].quote_qty.units() > 0
            &&& fill_amount(takers[i], maker_before(old_opp, idx, fmakers, i)) == Some(trades[i].base_qty)
            &&& decimal_checked_mul(trades[i].base_qty, trades[i].price) == Some(trades[i].quote_qty)
            &&& fill_applied(takers[i], trades[i].base_qty, trades[i].quote_qty, takers[i + 1])
            &&& fill_applied(maker_before(old_opp, idx, fmakers, i), trades[i].base_qty, trades[i].quote_qty, fmakers[i])
            &&& makers[i].reports(fmakers[i])
        }
}

/// What matching left of the opposite side: the first `k` orders are gone, and the next one
/// may have been partly filled (same id and price).
pub open spec fn consumed(old_opp: Seq<Order>, new_opp: Seq<Order>, k: int) -> bool {
    &&& 0 <= k <= old_opp.len()
    &&& (new_opp == old_opp.skip(k) || (k < old_opp.len() && new_opp.len() == old_opp.len() - k
        && new_opp.skip(1) == old_opp.skip(k + 1) && new_opp[0].order_id == old_opp[k].order_id
        && new_opp[0].price == old_opp[k].price && new_opp[0].side == old_opp[k].side))
}

/// Matching took its trades from the head of the opposite side in priority order, and left
/// the rest of that side in place (its new first order possibly partly filled); the taker,
/// placed as `taker`, ended as `last` after taking every trade's fill in turn.
pub open spec fn matched_in_order(
    old_opp: Seq<Order>,
    new_opp: Seq<Order>,
    trades: Seq<TradeResult>,
    makers: Seq<OrderSnapshot>,
    taker: Order,
    last: Order,
) -> bool {
    exists|k: int, idx: Seq<int>, takers: Seq<Order>, fmakers: Seq<Order>|
        #![trigger consumed(old_opp, new_opp, k), trades_follow(old_opp, k, idx, trades, makers, taker, takers, fmakers)]
        consumed(old_opp, new_opp, k) && trades_follow(old_opp, k, idx, trades, makers, taker, takers, fmakers)
            && takers.last() == last
}

proof fn lemma_matched_in_order(
    old_opp: Seq<Order>,
    new_opp: Seq<Order>,
    trades: Seq<TradeResult>,
    makers: Seq<OrderSnapshot>,
    taker: Order,
    k: int,
    idx: Seq<int>,
    takers: Seq<Order>,
    fmakers: Seq<Order>,
)
    requires
        consumed(old_opp, new_opp, k),
        trades_follow(old_opp, k, idx, trades, makers, taker, takers, fmakers),
    ensures
        matched_in_order(old_opp, new_opp, trades, makers, taker, takers.last()),
{
}

/// Passing over one more order of the opposite side keeps the trade log in order.
proof fn lemma_trades_follow_advance(
    old_opp: Seq<Order>,
    k: int,
    idx: Seq<int>,
    trades: Seq<TradeResult>,
    makers: Seq<OrderSnapshot>,
    taker: Order,
    takers: Seq<Order>,
    fmakers: Seq<Order>,
)
    requires
        trades_follow(old_opp, k, idx, trades, makers, taker, takers, fmakers),
        0 <= k < old_opp.len(),
        left_rightly(old_opp, idx, takers, fmakers, k),
    ensures
        trades_follow(old_opp, k + 1, idx, trades, makers, taker, takers, fmakers),
{
}

/// Recording a trade with the order at position `k`, as it stands (`maker`), keeps the
/// trade log in order.
proof fn lemma_trades_follow_record(
    old_opp: Seq<Order>,
    k: int,
    idx: Seq<int>,
    trades: Seq<TradeResult>,
    makers: Seq<OrderSnapshot>,
    taker: Order,
    takers: Seq<Order>,
    fmakers: Seq<Order>,
    maker: Order,
    trade: TradeResult,
    snap: OrderSnapshot,
    next_taker: Order,
    filled_maker: Order,
)
    requires
        trades_follow(old_opp, k, idx, trades, makers, taker, takers, fmakers),
        0 <= k < old_opp.len(),
        idx.len() > 0 ==> idx.last() <= k,
        maker == (if idx.len() > 0 && idx.last() == k {
            fmakers.last()
        } else {
            old_opp[k]
        }),
        idx.len() > 0 && idx.last() == k ==> fmakers.last().status != OrderStatus::Filled,
        trade.maker_order_id == old_opp[k].order_id,
        snap.order_id == trade.maker_order_id,
        Some(trade.price) == old_opp[k].price,
        trade.taker_order_id == taker.order_id,
        price_acceptable(taker, trade.price),
        trade.base_qty.units() > 0,
        trade.quote_qty.units() > 0,
        fill_amount(takers.last(), maker) == Some(trade.base_qty),
        decimal_checked_mul(trade.base_qty, trade.price) == Some(trade.quote_qty),
        fill_applied(takers.last(), trade.base_qty, trade.quote_qty, next_taker),
        fill_applied(maker, trade.base_qty, trade.quote_qty, filled_maker),
        snap.reports(filled_maker),
    ensures
        trades_follow(
            old_opp,
            k,
            idx.push(k),
            trades.push(trade),
            makers.push(snap),
            taker,
            takers.push(next_taker),
            fmakers.push(filled_maker),
        ),
{
    let ni = idx.push(k);
    let nt = trades.push(trade);
    let nm = makers.push(snap);
    let ntk = takers.push(next_taker);
    let nf = fmakers.push(filled_maker);
    assert(ntk[0] == taker);
    assert forall|i: int| 0 <= i < ni.len() implies 0 <= #[trigger] ni[i] <= k && ni[i] < old_opp.len() by {
        if i < idx.len() {
            assert(ni[i] == idx[i]);
        }
    }
    assert forall|i: int, j: int| 0 <= i < j < ni.len() implies ni[i] <= ni[j] by {
        if j < idx.len() {
            assert(ni[i] == idx[i] && ni[j] == idx[j]);
        } else {
            assert(ni[i] == idx[i]);
            if i < idx.len() - 1 {
                assert(idx[i] <= idx[idx.len() - 1]);
            }
        }
    }
    assert forall|j: int| 0 <= j < k implies #[trigger] left_rightly(old_opp, ni, ntk, nf, j) by {
        assert(ni.drop_last() =~= idx);
        lemma_trades_before_bounded(idx, j + 1);
        assert(trades_before(ni, j + 1) == trades_before(idx, j + 1));
        assert(left_rightly(old_opp, idx, takers, fmakers, j));
        let c = trades_before(idx, j + 1) as int;
        assert(ntk[c] == takers[c]);
        if c > 0 {
            assert(ni[c - 1] == idx[c - 1] && nf[c - 1] == fmakers[c - 1]);
        }
    }
    assert forall|i: int| 0 < i < ni.len() && #[trigger] ni[i] == ni[i - 1] implies nf[i - 1].status
        != OrderStatus::Filled by {
        if i < idx.len() {
            assert(ni[i] == idx[i] && ni[i - 1] == idx[i - 1] && nf[i - 1] == fmakers[i - 1]);
        } else {
            assert(ni[i - 1] == idx.last() && nf[i - 1] == fmakers.last());
        }
    }
    assert forall|i: int| 0 <= i < ni.len() implies {
        &&& (#[trigger] nt[i]).maker_order_id == old_opp[ni[i]].order_id
        &&& nm[i].order_id == nt[i].maker_order_id
        &&& Some(nt[i].price) == old_opp[ni[i]].price
        &&& nt[i].taker_order_id == taker.order_id
        &&& price_acceptable(taker, nt[i].price)
        &&& nt[i].base_qty.units() > 0
        &&& nt[i].quote_qty.units() > 0
        &&& fill_amount(ntk[i], maker_before(old_opp, ni, nf, i)) == Some(nt[i].base_qty)
        &&& decimal_checked_mul(nt[i].base_qty, nt[i].price) == Some(nt[i].quote_qty)
        &&& fill_applied(ntk[i], nt[i].base_qty, nt[i].quote_qty, ntk[i + 1])
        &&& fill_applied(maker_before(old_opp, ni, nf, i), nt[i].base_qty, nt[i].quote_qty, nf[i])
        &&& nm[i].reports(nf[i])
    } by {
        if i < idx.len() {
            assert(nt[i] == trades[i] && nm[i] == makers[i] && ni[i] == idx[i] && ntk[i] == takers[i]
                && ntk[i + 1] == takers[i + 1] && nf[i] == fmakers[i]);
            if i > 0 {
                assert(ni[i - 1] == idx[i - 1] && nf[i - 1] == fmakers[i - 1]);
            }
            assert(maker_before(old_opp, ni, nf, i) == maker_before(old_opp, idx, fmakers, i));
        } else {
            assert(ntk[i] == takers.last());
            if i > 0 {
                assert(ni[i - 1] == idx.last() && nf[i - 1] == fmakers.last());
            }
            assert(maker_before(old_opp, ni, nf, i) == maker);
        }
    }
}

/// A trade between `bt` and `bm` that left them as `at` and `am` brought neither order
/// nearer to filled: the taker has no less left, and, where it has just as much left, the
/// maker has no less left either.
pub open spec fn trade_stalled(bt: Order, at: Order, bm: Order, am: Order) -> bool {
    !(left_to_fill(at) < left_to_fill(bt) || (left_to_fill(at) == left_to_fill(bt) && left_to_fill(am)
        < left_to_fill(bm)))
}

/// The last trade was with the order now first on the opposite side, left it partly filled,
/// and brought neither order nearer to filled.
pub open spec fn stalled(
    old_opp: Seq<Order>,
    new_opp: Seq<Order>,
    trades: Seq<TradeResult>,
    makers: Seq<OrderSnapshot>,
    taker: Order,
    last: Order,
) -> bool {
    exists|k: int, idx: Seq<int>, takers: Seq<Order>, fmakers: Seq<Order>|
        #![trigger consumed(old_opp, new_opp, k), trades_follow(old_opp, k, idx, trades, makers, taker, takers, fmakers)]
        consumed(old_opp, new_opp, k) && trades_follow(old_opp, k, idx, trades, makers, taker, takers, fmakers)
            && takers.last() == last && trades.len() > 0 && new_opp.len() > 0 && new_opp[0] == fmakers.last()
            && trade_stalled(
            takers[trades.len() - 1],
            last,
            maker_before(old_opp, idx, fmakers, trades.len() - 1),
            fmakers.last(),
        )
}

/// Matching of `taker`, which ended as `t`, stopped for one of its reasons: the taker is
/// filled, the opposite side is empty or its best price is not acceptable, the next trade
/// cannot be applied, or the last trade brought neither order nearer to filled.
pub open spec fn stopped_properly(
    old_opp: Seq<Order>,
    opp: Seq<Order>,
    trades: Seq<TradeResult>,
    makers: Seq<OrderSnapshot>,
    taker: Order,
    t: Order,
) -> bool {
    ||| t.status == OrderStatus::Filled
    ||| opp.len() == 0
    ||| !price_acceptable(t, opp[0].price.unwrap())
    ||| (fill_amount(t, opp[0]) matches Some(f) && trade_blocked(t, opp[0], f))
    ||| stalled(old_opp, opp, trades, makers, taker, t)
}

/// What an order has executed, in the unit of its size.
fn executed_in_size_unit(o: &Order) -> (d: Dec)
    ensures
        d == (match o.size {
            OrderSize::Base(_) => o.executed_base_qty,
            OrderSize::Quote(_) => o.executed_quote_qty,
        }),
{
    match o.size {
        OrderSize::Base(_) => o.executed_base_qty,
        OrderSize::Quote(_) => o.executed_quote_qty,
    }
}

/// A limit taker's trade is priced within its limit: a buy at or below its limit price,
/// a sell at or above it (and the taker has a limit price).
pub open spec fn limit_respected(taker: Order, trade: TradeResult) -> bool {
    &&& taker.price is Some
    &&& taker.side == Side::Buy ==> trade.price.units() <= taker.price.unwrap().units()
    &&& taker.side == Side::Sell ==> trade.price.units() >= taker.price.unwrap().units()
}

/// A quote-sized order must be a market buy.
pub open spec fn quote_size_invalid(t: Order) -> bool {
    t.size is Quote && !(t.order_type == OrderType::Market && t.side == Side::Buy)
}

/// A good-till-cancel order must be a limit order.
pub open spec fn gtc_type_invalid(t: Order) -> bool {
    t.tif == TimeInForce::GTC && t.order_type != OrderType::Limit
}

/// Whether the opposite side of `book` can fill all of `t` now: within its limit price
/// (no limit for a market order) for a base size, and spending all of its quote for a
/// quote size.
pub open spec fn fok_fillable(book: OrderBook, t: Order) -> bool {
    match t.size {
        OrderSize::Base(qty) => match t.order_type {
            OrderType::Market => base_walk(
                book.opposite_view(t.side),
                qty,
                if t.side == Side::Buy {
                    Dec { mantissa: MAX_MANTISSA, scale: 0 }
                } else {
                    Dec { mantissa: (-MAX_MANTISSA) as i128, scale: 0 }
                },
                t.side == Side::Buy,
            ),
            OrderType::Limit => match t.price {
                None => false,
                Some(p) => base_walk(book.opposite_view(t.side), qty, p, t.side == Side::Buy),
            },
        },
        OrderSize::Quote(q) => quote_walk(book.asks_view(), q),
    }
}

/// A fill-or-kill order that the book cannot fill now is cancelled before matching.
pub open spec fn fok_unfillable(book: OrderBook, t: Order) -> bool {
    t.tif == TimeInForce::FOK && !fok_fillable(book, t)
}

/// The outcome of an accepted placement, from whether the taker ended filled, whether it
/// traded, and its time in force.
pub open spec fn resolved_outcome(filled: bool, has_trades: bool, tif: TimeInForce) -> PlaceOrderOutcome {
    if filled {
        PlaceOrderOutcome::Filled
    } else if tif == TimeInForce::GTC {
        if has_trades {
            PlaceOrderOutcome::PartiallyFilledAndRested
        } else {
            PlaceOrderOutcome::Rested
        }
    } else {
        if has_trades {
            PlaceOrderOutcome::PartiallyFilledAndCancelled(CancelledReason::IocRemainingCancelled)
        } else {
            PlaceOrderOutcome::Cancelled(CancelledReason::IocRemainingCancelled)
        }
    }
}

/// How an accepted taker, ending as `t` after matching, was settled: a live good-till-cancel
/// remainder rests behind the orders priced at least as well (unless its id is already in the
/// book, which rejects it), anything else leaves its own side untouched.
pub open spec fn settled_as(
    old_book: OrderBook,
    new_book: OrderBook,
    taker: Order,
    t: Order,
    res: PlaceOrderResult,
) -> bool {
    let old_same = old_book.same_side_view(taker.side);
    let new_same = new_book.same_side_view(taker.side);
    let new_opp = new_book.opposite_view(taker.side);
    let rests = t.status != OrderStatus::Filled && taker.tif == TimeInForce::GTC;
    let dup = has_id(old_same, t.order_id) || has_id(new_opp, t.order_id);
    &&& t.wf()
    &&& t.same_terms(&taker)
    &&& t.price == taker.price
    &&& t.size == taker.size
    &&& (res.trades@.len() == 0 ==> t == taker)
    &&& (res.trades@.len() > 0 ==> t.status == OrderStatus::Filled || t.status
        == OrderStatus::PartiallyFilled)
    &&& matched_in_order(
        old_book.opposite_view(taker.side),
        new_opp,
        res.trades@,
        res.updated_makers@,
        taker,
        t,
    )
    &&& stopped_properly(
        old_book.opposite_view(taker.side),
        new_opp,
        res.trades@,
        res.updated_makers@,
        taker,
        t,
    )
    &&& if rests && !dup {
        &&& inserted_by_priority(old_same, new_same, t, taker.side == Side::Buy)
        &&& res.outcome == resolved_outcome(false, res.trades@.len() > 0, taker.tif)
    } else if rests {
        &&& new_same == old_same
        &&& res.outcome == PlaceOrderOutcome::Rejected(RejectedReason::DuplicateOrderId)
    } else {
        &&& new_same == old_same
        &&& res.outcome == resolved_outcome(
            t.status == OrderStatus::Filled,
            res.trades@.len() > 0,
            taker.tif,
        )
    }
}

pub open spec fn settled(old_book: OrderBook, new_book: OrderBook, taker: Order, res: PlaceOrderResult) -> bool {
    exists|t: Order| #[trigger] settled_as(old_book, new_book, taker, t, res)
}

/// `snap` reports `o` after a cancel: same executed amounts and remainders, status canceled.
pub open spec fn reports_canceled(snap: OrderSnapshot, o: Order) -> bool {
    &&& snap.order_id == o.order_id
    &&& snap.executed_base_qty == o.executed_base_qty
    &&& snap.executed_quote_qty == o.executed_quote_qty
    &&& snap.remaining_base_qty == remaining_base(o)
    &&& snap.remaining_quote_qty == remaining_quote(o)
    &&& snap.status == OrderStatus::Canceled
}

/// `new_book` is `old_book` without the resting order `o`.
pub open spec fn book_without(old_book: OrderBook, new_book: OrderBook, o: Order) -> bool {
    &&& removed_one(old_book.same_side_view(o.side), new_book.same_side_view(o.side), o)
    &&& new_book.opposite_view(o.side) == old_book.opposite_view(o.side)
}

/// The result of placing `taker` on `old_book`, leaving `new_book`: the placement checks
/// (quote size only on a market buy, good-till-cancel only on a limit order, fill-or-kill
/// only when the book can fill it) and, for an accepted order, how it was matched and settled.
pub open spec fn placed(old_book: OrderBook, new_book: OrderBook, taker: Order, res: PlaceOrderResult) -> bool {
    &&& res.taker_order_id == taker.order_id
    &&& if quote_size_invalid(taker) || gtc_type_invalid(taker) || fok_unfillable(old_book, taker) {
        &&& res.trades@.len() == 0
        &&& res.updated_makers@.len() == 0
        &&& new_book == old_book
        &&& if quote_size_invalid(taker) {
            res.outcome matches PlaceOrderOutcome::Rejected(RejectedReason::InvalidOrder(m))
                && m@ == "Quote 주문은 Market Buy만 허용"@
        } else if gtc_type_invalid(taker) {
            res.outcome matches PlaceOrderOutcome::Rejected(RejectedReason::InvalidOrder(m))
                && m@ == "GTC 주문은 Limit만 허용"@
        } else {
            res.outcome == PlaceOrderOutcome::Cancelled(CancelledReason::FokCannotFullyFill)
        }
    } else {
        settled(old_book, new_book, taker, res)
    }
}

/// `a` is what `o.amend(price, base_qty)` returns when it accepts.
pub open spec fn amended_as(o: Order, price: Option<Dec>, base_qty: Option<Dec>, a: Order) -> bool {
    &&& a.wf()
    &&& a.same_terms(&o)
    &&& a.price == Some(
        match price {
            Some(p) => p,
            None => o.price.unwrap(),
        },
    )
    &&& a.size == OrderSize::Base(
        match base_qty {
            Some(q) => q,
            None => o.size->Base_0,
        },
    )
    &&& a.executed_base_qty == o.executed_base_qty
    &&& a.executed_quote_qty == o.executed_quote_qty
    &&& a.status == (if o.executed_base_qty.units() == 0 {
        OrderStatus::New
    } else if a.filled_by_size() {
        OrderStatus::Filled
    } else {
        OrderStatus::PartiallyFilled
    })
}

/// The book went from `old_book` to `new_book` by taking `o` out and placing `a` anew.
pub open spec fn cancel_replaced(old_book: OrderBook, new_book: OrderBook, o: Order, a: Order, res: PlaceOrderResult) -> bool {
    exists|mid: OrderBook| #[trigger] book_without(old_book, mid, o) && placed(mid, new_book, a, res)
}

/// How an accepted amendment `a` of resting order `o` was applied: a filled order leaves the
/// book; a new price or a larger quantity loses the order its place (cancel, then place
/// anew); anything else updates the order where it rests.
pub open spec fn amendment_applied(old_book: OrderBook, new_book: OrderBook, o: Order, a: Order, outcome: AmendOrderOutcome) -> bool {
    if a.status == OrderStatus::Filled {
        &&& outcome matches AmendOrderOutcome::Amended(snap) && snap.reports(a)
        &&& book_without(old_book, new_book, o)
    } else if price_units(a) != price_units(o) || a.size->Base_0.units() > o.size->Base_0.units() {
        outcome matches AmendOrderOutcome::CancelReplaced { canceled, placed } && reports_canceled(canceled, o)
            && cancel_replaced(old_book, new_book, o, a, placed)
    } else {
        &&& outcome matches AmendOrderOutcome::Amended(snap) && snap.reports(a)
        &&& new_book.opposite_view(o.side) == old_book.opposite_view(o.side)
        &&& exists|i: int|
            0 <= i < old_book.same_side_view(o.side).len() && old_book.same_side_view(o.side)[i].order_id
                == o.order_id && new_book.same_side_view(o.side) == old_book.same_side_view(o.side).update(i, a)
    }
}

/// The result of cancelling `order_id` on `old_book`, leaving `new_book`: an id that does
/// not rest is refused and nothing changes; a resting order is taken out and reported canceled.
pub open spec fn cancel_handled(old_book: OrderBook, new_book: OrderBook, order_id: u128, res: CancelOrderResult) -> bool {
    &&& res.order_id == order_id
    &&& match resting_order(old_book, order_id) {
        None => {
            &&& res.outcome == CancelOrderOutcome::Rejected(CancelRejectedReason::OrderNotFound)
            &&& new_book == old_book
        },
        Some(o) => {
            &&& res.outcome matches CancelOrderOutcome::Cancelled(snap) && reports_canceled(snap, o)
            &&& book_without(old_book, new_book, o)
        },
    }
}

/// The result of the amendment `cmd` on `old_book`, leaving `new_book`: an unknown id, or an
/// amendment the order refuses, is rejected and nothing changes; otherwise the amended order
/// is applied as `amendment_applied` says.
pub open spec fn amend_handled(old_book: OrderBook, new_book: OrderBook, cmd: AmendOrderCommand, res: AmendOrderResult) -> bool {
    &&& res.order_id == cmd.order_id
    &&& match resting_order(old_book, cmd.order_id) {
        None => {
            &&& res.outcome == AmendOrderOutcome::Rejected(AmendRejectedReason::OrderNotFound)
            &&& new_book == old_book
        },
        Some(o) => if o.amend_rejection(cmd.price, cmd.base_qty) is Some {
            &&& res.outcome == AmendOrderOutcome::Rejected(AmendRejectedReason::AmendNotAllowed)
            &&& new_book == old_book
        } else {
            exists|a: Order| #[trigger] amended_as(o, cmd.price, cmd.base_qty, a)
                && amendment_applied(old_book, new_book, o, a, res.outcome)
        },
    }
}

/// A command the engine can take: a placed order is well formed, live, and priced when it
/// is a good-till-cancel limit order; an amendment carries decimals within range.
pub open spec fn command_acceptable(cmd: EngineCommand) -> bool {
    match cmd {
        EngineCommand::Place(p) => {
            &&& p.order.wf()
            &&& (!status_is_completed(p.order.status) || p.order.status == OrderStatus::Filled)
            &&& (p.order.tif == TimeInForce::GTC && p.order.order_type == OrderType::Limit ==> p.order.price is Some)
        },
        EngineCommand::Cancel(_) => true,
        EngineCommand::Amend(a) => {
            &&& (a.price matches Some(p) ==> p.valid())
            &&& (a.base_qty matches Some(q) ==> q.valid())
        },
    }
}

/// Whether the engine can take `cmd`.
pub fn is_command_acceptable(cmd: &EngineCommand) -> (b: bool)
    ensures
        b == command_acceptable(*cmd),
{
    match cmd {
        EngineCommand::Place(p) => {
            let o = &p.order;
            o.is_well_formed() && (o.status == OrderStatus::PartiallyFilled || o.status == OrderStatus::New
                || o.status == OrderStatus::Filled) && !(
            o.tif == TimeInForce::GTC && o.order_type == OrderType::Limit && o.price.is_none())
        },
        EngineCommand::Cancel(_) => true,
        EngineCommand::Amend(a) => {
            let price_ok = match a.price {
                Some(p) => p.is_valid(),
                None => true,
            };
            let qty_ok = match a.base_qty {
                Some(q) => q.is_valid(),
                None => true,
            };
            price_ok && qty_ok
        },
    }
}

/// What handling `cmd` did, from the book before (`old_book`) to the book after (`new_book`).
pub open spec fn command_handled(old_book: OrderBook, new_book: OrderBook, symbol: Seq<char>, cmd: EngineCommand, body: EngineResultBody) -> bool {
    match cmd {
        EngineCommand::Place(p) => body matches EngineResultBody::Place(res) && res.symbol@ == symbol
            && placed(old_book, new_book, p.order, res),
        EngineCommand::Cancel(c) => body matches EngineResultBody::Cancel(res) && res.symbol@ == symbol
            && cancel_handled(old_book, new_book, c.order_id, res),
        EngineCommand::Amend(a) => body matches EngineResultBody::Amend(res) && res.symbol@ == symbol
            && amend_handled(old_book, new_book, a, res),
    }
}

/// The outcome of matching one taker.
pub struct MatchResult {
    pub taker: Order,
    pub trades: Vec<TradeResult>,
    pub updated_makers: Vec<OrderSnapshot>,
}

/// One symbol's order book and the sequence of results it has produced.
pub struct MatchingEngine {
    symbol: String,
    orderbook: OrderBook,
    next_sequence: u64,
}

/// Whether a taker accepts to trade at `maker_price`.
pub fn can_match(taker: &Order, maker_price: &Dec) -> (b: bool)
    requires
        taker.wf(),
        maker_price.valid(),
    ensures
        b == price_acceptable(*taker, *maker_price),
{
    match taker.order_type {
        OrderType::Market => true,
        OrderType::Limit => match taker.price {
            None => false,
            Some(tp) => match taker.side {
                Side::Buy => dec_compare(maker_price, &tp) != DecOrd::Greater,
                Side::Sell => dec_compare(maker_price, &tp) != DecOrd::Less,
            },
        },
    }
}

/// The base quantity a taker takes from a maker.
pub fn calc_fill_base(taker: &Order, maker: &Order) -> (r: Option<Dec>)
    requires
        taker.wf(),
        maker.wf(),
    ensures
        r == fill_amount(*taker, *maker),
        r matches Some(v) ==> v.valid(),
{
    let maker_remaining = match maker.remaining_base_qty() {
        Some(v) => v,
        None => return None,
    };
    match taker.size {
        OrderSize::Base(_) => {
            let taker_remaining = match taker.remaining_base_qty() {
                Some(v) => v,
                None => return None,
            };
            Some(dec_min(maker_remaining, taker_remaining))
        },
        OrderSize::Quote(_) => {
            let taker_remaining_quote = match taker.remaining_quote_qty() {
                Some(v) => v,
                None => return None,
            };
            let maker_price = match maker.price {
                Some(p) => p,
                None => return None,
            };
            match dec_checked_div(taker_remaining_quote, maker_price) {
                Some(q) => Some(dec_min(maker_remaining, q)),
                None => None,
            }
        },
    }
}

impl MatchingEngine {
    pub closed spec fn book(&self) -> OrderBook {
        self.orderbook
    }

    pub closed spec fn symbol_view(&self) -> Seq<char> {
        self.symbol@
    }

    pub closed spec fn sequence(&self) -> u64 {
        self.next_sequence
    }

    /// The book is well formed and every resting order is still live.
    pub open spec fn wf(&self) -> bool {
        &&& self.book().wf()
        &&& all_live(self.book().bids_view())
        &&& all_live(self.book().asks_view())
    }

    pub fn new(symbol: String) -> (e: MatchingEngine)
        ensures
            e.wf(),
            e.symbol_view() == symbol@,
            e.sequence() == 0,
            e.book().bids_view().len() == 0,
            e.book().asks_view().len() == 0,
    {
        MatchingEngine { symbol, orderbook: OrderBook::new(), next_sequence: 0 }
    }

    /// The sequence number of the last result (0 before any).
    pub fn last_sequence(&self) -> (r: u64)
        ensures
            r == self.sequence(),
    {
        self.next_sequence
    }

    /// The engine's order book.
    pub fn orderbook(&self) -> (b: &OrderBook)
        ensures
            *b == self.book(),
    {
        &self.orderbook
    }

    /// Trades `taker` against the opposite side, best price first and earliest order first
    /// within a price, until the taker is filled or no longer accepts the best price.
    /// A maker whose fill amount cannot be computed is dropped from the book; a maker a trade
    /// leaves partly filled stays first and is matched again. Matching also stops when a
    /// trade cannot be applied, and after a trade that brought neither order nearer to
    /// filled.
    pub fn match_order(&mut self, taker: Order) -> (r: MatchResult)
        requires
            old(self).wf(),
            taker.wf(),
        ensures
            final(self).wf(),
            final(self).symbol_view() == old(self).symbol_view(),
            final(self).sequence() == old(self).sequence(),
            final(self).book().same_side_view(taker.side) == old(self).book().same_side_view(
                taker.side,
            ),
            r.taker.wf(),
            r.taker.same_terms(&taker),
            r.taker.price == taker.price,
            r.taker.size == taker.size,
            r.trades@.len() == 0 ==> r.taker == taker,
            r.trades@.len() > 0 ==> r.taker.status == OrderStatus::Filled || r.taker.status
                == OrderStatus::PartiallyFilled,
            matched_in_order(
                old(self).book().opposite_view(taker.side),
                final(self).book().opposite_view(taker.side),
                r.trades@,
                r.updated_makers@,
                taker,
                r.taker,
            ),
            stopped_properly(
                old(self).book().opposite_view(taker.side),
                final(self).book().opposite_view(taker.side),
                r.trades@,
                r.updated_makers@,
                taker,
                r.taker,
            ),
            forall|i: int|
                taker.order_type == OrderType::Limit && 0 <= i < r.trades@.len() ==> limit_respected(
                    taker,
                    #[trigger] r.trades@[i],
                ),
    {
        let side = taker.side;
        let ghost taker0 = taker;
        let ghost old_opp = self.orderbook.opposite_view(side);
        let ghost old_same = self.orderbook.same_side_view(side);
        let ghost mut k: int = 0;
        let ghost mut idx: Seq<int> = Seq::empty();
        let ghost mut takers: Seq<Order> = seq![taker0];
        let ghost mut fmakers: Seq<Order> = Seq::empty();
        let mut taker = taker;
        let mut trades: Vec<TradeResult> = Vec::new();
        let mut makers: Vec<OrderSnapshot> = Vec::new();
        assert(old_opp.skip(0) =~= old_opp);
        loop
            invariant_except_break
                ({
                    let opp = self.book().opposite_view(side);
                    ||| opp == old_opp.skip(k) && (idx.len() > 0 ==> idx.last() < k)
                    ||| k < old_opp.len() && idx.len() > 0 && idx.last() == k && fmakers.last().status
                        != OrderStatus::Filled && fmakers.last().order_id == old_opp[k].order_id
                        && fmakers.last().price == old_opp[k].price && fmakers.last().side == old_opp[k].side
                        && fmakers.last().wf() && opp == old_opp.skip(k).update(0, fmakers.last())
                }),
            invariant
                self.wf(),
                self.symbol_view() == old(self).symbol_view(),
                self.sequence() == old(self).sequence(),
                side == taker0.side,
                self.book().same_side_view(side) == old_same,
                old_opp == old(self).book().opposite_view(side),
                old_same == old(self).book().same_side_view(side),
                taker.wf(),
                taker.same_terms(&taker0),
                taker.price == taker0.price,
                taker.size == taker0.size,
                trades@.len() == 0 ==> taker == taker0,
                trades@.len() > 0 ==> taker.status == OrderStatus::Filled || taker.status
                    == OrderStatus::PartiallyFilled,
                consumed(old_opp, self.book().opposite_view(side), k),
                trades_follow(old_opp, k, idx, trades@, makers@, taker0, takers, fmakers),
                takers.last() == taker,
            ensures
                self.wf(),
                self.symbol_view() == old(self).symbol_view(),
                self.sequence() == old(self).sequence(),
                self.book().same_side_view(side) == old_same,
                taker.wf(),
                taker.same_terms(&taker0),
                taker.price == taker0.price,
                taker.size == taker0.size,
                trades@.len() == 0 ==> taker == taker0,
                trades@.len() > 0 ==> taker.status == OrderStatus::Filled || taker.status
                    == OrderStatus::PartiallyFilled,
                consumed(old_opp, self.book().opposite_view(side), k),
                trades_follow(old_opp, k, idx, trades@, makers@, taker0, takers, fmakers),
                takers.last() == taker,
                ({
                    let opp = self.book().opposite_view(side);
                    ||| taker.status == OrderStatus::Filled
                    ||| opp.len() == 0
                    ||| !price_acceptable(taker, opp[0].price.unwrap())
                    ||| (fill_amount(taker, opp[0]) matches Some(f) && trade_blocked(taker, opp[0], f))
                    ||| (trades@.len() > 0 && opp.len() > 0 && opp[0] == fmakers.last() && trade_stalled(
                        takers[trades@.len() - 1],
                        taker,
                        maker_before(old_opp, idx, fmakers, trades@.len() - 1),
                        fmakers.last(),
                    ))
                }),
            decreases
                self.book().opposite_view(side).len(),
                left_to_fill(taker),
                left_to_fill(self.book().opposite_view(side)[0]),
        {
            let price = match self.orderbook.best_opposite_price(&side) {
                None => break,
                Some(p) => p,
            };
            proof {
                let opp = self.book().opposite_view(side);
                assert(resting_on(opp, if side == Side::Buy { Side::Sell } else { Side::Buy }));
                assert(opp[0].wf());
            }
            if !can_match(&taker, &price) {
                break;
            }
            let maker = self.orderbook.best_opposite_maker(&side).unwrap();
            let maker_id = maker.order_id;
            let maker_price = maker.price.unwrap();
            let taker_done = executed_in_size_unit(&taker);
            let maker_done = executed_in_size_unit(maker);
            let ghost maker_g = *maker;
            proof {
                let opp = self.book().opposite_view(side);
                assert(old_opp.skip(k)[0] == old_opp[k]);
                assert(maker_g == opp[0]);
                assert(maker_g == (if idx.len() > 0 && idx.last() == k {
                    fmakers.last()
                } else {
                    old_opp[k]
                }));
            }
            let fill_base = match calc_fill_base(&taker, maker) {
                Some(f) => f,
                None => {
                    let _ = self.orderbook.pop_best_opposite_maker(&side);
                    proof {
                        assert(old_opp.skip(k).drop_first() =~= old_opp.skip(k + 1));
                        assert(trades_before(idx, k + 1) == idx.len());
                        assert(left_rightly(old_opp, idx, takers, fmakers, k));
                        lemma_trades_follow_advance(old_opp, k, idx, trades@, makers@, taker0, takers, fmakers);
                        k = k + 1;
                    }
                    continue;
                },
            };
            let fill_quote = match dec_checked_mul(fill_base, maker_price) {
                Some(q) => q,
                None => break,
            };
            let filled_maker = match maker.fill(fill_base, fill_quote) {
                Ok(m) => m,
                Err(_) => break,
            };
            let filled_taker = match taker.fill(fill_base, fill_quote) {
                Ok(t) => t,
                Err(_) => break,
            };
            let maker_filled = filled_maker.is_filled();
            let taker_done_after = executed_in_size_unit(&filled_taker);
            let maker_done_after = executed_in_size_unit(&filled_maker);
            let snap = OrderSnapshot::from_order(&filled_maker);
            let trade = TradeResult {
                trade_id: new_v7_id(),
                taker_order_id: filled_taker.order_id,
                maker_order_id: maker_id,
                price: maker_price,
                base_qty: fill_base,
                quote_qty: fill_quote,
            };
            proof {
                assert(old_opp.skip(k)[0] == old_opp[k]);
                lemma_trades_follow_record(
                    old_opp,
                    k,
                    idx,
                    trades@,
                    makers@,
                    taker0,
                    takers,
                    fmakers,
                    maker_g,
                    trade,
                    snap,
                    filled_taker,
                    filled_maker,
                );
                idx = idx.push(k);
                takers = takers.push(filled_taker);
                fmakers = fmakers.push(filled_maker);
            }
            makers.push(snap);
            trades.push(trade);
            taker = filled_taker;
            if maker_filled {
                let _ = self.orderbook.pop_best_opposite_maker(&side);
                proof {
                    assert(old_opp.skip(k).drop_first() =~= old_opp.skip(k + 1));
                    assert(trades_before(idx, k + 1) == idx.len());
                    assert(left_rightly(old_opp, idx, takers, fmakers, k));
                    lemma_trades_follow_advance(old_opp, k, idx, trades@, makers@, taker0, takers, fmakers);
                    k = k + 1;
                }
                if taker.is_filled() {
                    break;
                }
            } else {
                self.orderbook.replace_best_opposite_maker(&side, filled_maker);
                proof {
                    let nopp = self.book().opposite_view(side);
                    assert(nopp =~= old_opp.skip(k).update(0, fmakers.last()));
                    assert(nopp.skip(1) =~= old_opp.skip(k + 1));
                    assert(nopp[0] == fmakers.last());
                }
                if taker.is_filled() {
                    break;
                }
                let moved = match dec_compare(&taker_done_after, &taker_done) {
                    DecOrd::Greater => true,
                    DecOrd::Equal => dec_compare(&maker_done_after, &maker_done) == DecOrd::Greater,
                    DecOrd::Less => false,
                };
                if !moved {
                    break;
                }
            }
        }
        proof {
            let opp = self.book().opposite_view(side);
            lemma_matched_in_order(old_opp, opp, trades@, makers@, taker0, k, idx, takers, fmakers);
            assert forall|i: int|
                taker0.order_type == OrderType::Limit && 0 <= i < trades@.len() implies limit_respected(
                taker0,
                #[trigger] trades@[i],
            ) by {
                assert(price_acceptable(taker0, trades@[i].price));
            }
            if trades@.len() > 0 && opp.len() > 0 && opp[0] == fmakers.last() && trade_stalled(
                takers[trades@.len() - 1],
                taker,
                maker_before(old_opp, idx, fmakers, trades@.len() - 1),
                fmakers.last(),
            ) {
                assert(stalled(old_opp, opp, trades@, makers@, taker0, taker));
            }
        }
        MatchResult { taker, trades, updated_makers: makers }
    }

    /// Accepts an order: rejects a quote size on anything but a market buy, and a
    /// good-till-cancel order that is not a limit order; cancels a fill-or-kill order the
    /// book cannot fill now; otherwise matches it and rests what a good-till-cancel order
    /// has left. The order must be new, partly filled or filled: a canceled, rejected or
    /// expired order would rest in the book as an order that can no longer be cancelled.
    pub fn place_order(&mut self, taker: Order) -> (r: EngineResultBody)
        requires
            old(self).wf(),
            taker.wf(),
            !status_is_completed(taker.status) || taker.status == OrderStatus::Filled,
            taker.tif == TimeInForce::GTC && taker.order_type == OrderType::Limit ==> taker.price is Some,
        ensures
            final(self).wf(),
            final(self).symbol_view() == old(self).symbol_view(),
            final(self).sequence() == old(self).sequence(),
            r matches EngineResultBody::Place(res) && res.symbol@ == old(self).symbol_view() && placed(
                old(self).book(),
                final(self).book(),
                taker,
                res,
            ),
    {
        if let Some(outcome) = self.validate_before_matching(&taker) {
            return EngineResultBody::Place(
                PlaceOrderResult {
                    symbol: self.symbol.clone(),
                    taker_order_id: taker.order_id,
                    outcome,
                    trades: Vec::new(),
                    updated_makers: Vec::new(),
                },
            );
        }
        let ghost taker0 = taker;
        let ghost old_book = self.book();
        let m = self.match_order(taker);
        let MatchResult { taker, trades, updated_makers } = m;
        let taker_filled = taker.is_filled();
        let has_trades = trades.len() > 0;
        let tif = taker.tif;
        let taker_order_id = taker.order_id;
        let ghost t = taker;
        let resolved = resolve_place_outcome(taker_filled, has_trades, tif);
        let outcome = match self.add_to_orderbook_if_remaining(taker) {
            Some(o) => o,
            None => resolved,
        };
        let res = PlaceOrderResult {
            symbol: self.symbol.clone(),
            taker_order_id,
            outcome,
            trades,
            updated_makers,
        };
        proof {
            assert(settled_as(old_book, self.book(), taker0, t, res));
        }
        EngineResultBody::Place(res)
    }

    /// Rests a good-till-cancel taker that is not filled; refuses it when its id is already
    /// in the book.
    fn add_to_orderbook_if_remaining(&mut self, taker: Order) -> (r: Option<PlaceOrderOutcome>)
        requires
            old(self).wf(),
            taker.wf(),
            !status_is_completed(taker.status) || taker.status == OrderStatus::Filled,
            taker.tif == TimeInForce::GTC ==> taker.price is Some && taker.size is Base,
        ensures
            final(self).wf(),
            final(self).symbol_view() == old(self).symbol_view(),
            final(self).sequence() == old(self).sequence(),
            final(self).book().opposite_view(taker.side) == old(self).book().opposite_view(taker.side),
            ({
                let rests = taker.status != OrderStatus::Filled && taker.tif == TimeInForce::GTC;
                let dup = old(self).book().contains(taker.order_id);
                &&& rests && !dup ==> r is None && inserted_by_priority(
                    old(self).book().same_side_view(taker.side),
                    final(self).book().same_side_view(taker.side),
                    taker,
                    taker.side == Side::Buy,
                )
                &&& rests && dup ==> r == Some(PlaceOrderOutcome::Rejected(RejectedReason::DuplicateOrderId))
                    && final(self).book() == old(self).book()
                &&& !rests ==> r is None && final(self).book() == old(self).book()
            }),
    {
        if taker.is_filled() || taker.tif != TimeInForce::GTC {
            return None;
        }
        let ghost old_book = self.book();
        match self.orderbook.add_order(taker) {
            Err(_) => Some(PlaceOrderOutcome::Rejected(RejectedReason::DuplicateOrderId)),
            Ok(()) => None,
        }
    }

    fn validate_before_matching(&self, taker: &Order) -> (r: Option<PlaceOrderOutcome>)
        requires
            self.wf(),
            taker.wf(),
        ensures
            r is Some <==> quote_size_invalid(*taker) || gtc_type_invalid(*taker) || fok_unfillable(self.book(), *taker),
            quote_size_invalid(*taker) ==> (r matches Some(PlaceOrderOutcome::Rejected(RejectedReason::InvalidOrder(m)))
                && m@ == "Quote 주문은 Market Buy만 허용"@),
            !quote_size_invalid(*taker) && gtc_type_invalid(*taker) ==> (r matches Some(PlaceOrderOutcome::Rejected(RejectedReason::InvalidOrder(m)))
                && m@ == "GTC 주문은 Limit만 허용"@),
            !quote_size_invalid(*taker) && !gtc_type_invalid(*taker) && fok_unfillable(self.book(), *taker)
                ==> r == Some(PlaceOrderOutcome::Cancelled(CancelledReason::FokCannotFullyFill)),
    {
        let is_quote = match taker.size {
            OrderSize::Quote(_) => true,
            OrderSize::Base(_) => false,
        };
        if is_quote && !(taker.order_type == OrderType::Market && taker.side == Side::Buy) {
            return Some(PlaceOrderOutcome::Rejected(RejectedReason::InvalidOrder(
                "Quote 주문은 Market Buy만 허용".to_string(),
            )));
        }
        if taker.tif == TimeInForce::GTC && taker.order_type != OrderType::Limit {
            return Some(PlaceOrderOutcome::Rejected(RejectedReason::InvalidOrder(
                "GTC 주문은 Limit만 허용".to_string(),
            )));
        }
        if taker.tif == TimeInForce::FOK && !self.can_fully_fill_fok(taker) {
            return Some(PlaceOrderOutcome::Cancelled(CancelledReason::FokCannotFullyFill));
        }
        None
    }

    fn can_fully_fill_fok(&self, taker: &Order) -> (b: bool)
        requires
            self.wf(),
            taker.wf(),
            !quote_size_invalid(*taker),
        ensures
            b == fok_fillable(self.book(), *taker),
    {
        match taker.size {
            OrderSize::Base(qty) => {
                let price = match taker.order_type {
                    OrderType::Market => match taker.side {
                        Side::Buy => Dec::max_value(),
                        Side::Sell => Dec::min_value(),
                    },
                    OrderType::Limit => match taker.price {
                        Some(p) => p,
                        None => return false,
                    },
                };
                self.orderbook.can_fully_fill_base(taker.side, qty, price)
            },
            OrderSize::Quote(quote_qty) => self.orderbook.can_fully_fill_quote(taker.side, quote_qty),
        }
    }

    /// Cancels a resting order: takes it out of the book and reports it canceled; an id
    /// that does not rest in the book is refused.
    pub fn cancel_order(&mut self, order_id: u128) -> (r: EngineResultBody)
        requires
            old(self).wf(),
        ensures
            final(self).wf(),
            final(self).symbol_view() == old(self).symbol_view(),
            final(self).sequence() == old(self).sequence(),
            r matches EngineResultBody::Cancel(res) && res.symbol@ == old(self).symbol_view()
                && cancel_handled(old(self).book(), final(self).book(), order_id, res),
    {
        let ghost old_book = self.book();
        let mut order = match self.orderbook.remove_order(order_id) {
            Some(o) => o,
            None => {
                return EngineResultBody::Cancel(
                    CancelOrderResult {
                        symbol: self.symbol.clone(),
                        order_id,
                        outcome: CancelOrderOutcome::Rejected(CancelRejectedReason::OrderNotFound),
                    },
                );
            },
        };
        let ghost o = order;
        proof {
            let s = old_book.same_side_view(o.side);
            let i = choose|i: int| 0 <= i < s.len() && s[i] == o && self.book().same_side_view(o.side) == s.remove(i);
            assert(!status_is_completed(s[i].status));
            assert(self.book().bids_view() == old_book.bids_view() || self.book().asks_view() == old_book.asks_view());
            assert forall|j: int| 0 <= j < s.remove(i).len() implies !status_is_completed(#[trigger] s.remove(i)[j].status) by {
                if j < i {
                    assert(s.remove(i)[j] == s[j]);
                } else {
                    assert(s.remove(i)[j] == s[j + 1]);
                }
            }
        }
        let _ = order.cancel();
        let snap = OrderSnapshot::from_order(&order);
        EngineResultBody::Cancel(
            CancelOrderResult {
                symbol: self.symbol.clone(),
                order_id,
                outcome: CancelOrderOutcome::Cancelled(snap),
            },
        )
    }

    /// Amends a resting order. An unknown id, or an amendment the order refuses, is rejected.
    /// An amended order that is now filled leaves the book; one whose price changes or whose
    /// quantity grows loses its place: it is canceled and placed again; otherwise it is
    /// updated where it rests.
    pub fn amend_order(&mut self, cmd: AmendOrderCommand) -> (r: EngineResultBody)
        requires
            old(self).wf(),
            cmd.price matches Some(p) ==> p.valid(),
            cmd.base_qty matches Some(q) ==> q.valid(),
        ensures
            final(self).wf(),
            final(self).symbol_view() == old(self).symbol_view(),
            final(self).sequence() == old(self).sequence(),
            r matches EngineResultBody::Amend(res) && res.symbol@ == old(self).symbol_view()
                && amend_handled(old(self).book(), final(self).book(), cmd, res),
    {
        let ghost old_book = self.book();
        let order_id = cmd.order_id;
        let (amended, current_price, current_base_qty) = match self.orderbook.get_order(&order_id) {
            None => {
                return EngineResultBody::Amend(
                    AmendOrderResult {
                        symbol: self.symbol.clone(),
                        order_id,
                        outcome: AmendOrderOutcome::Rejected(AmendRejectedReason::OrderNotFound),
                    },
                );
            },
            Some(current) => {
                proof {
                    let o = resting_order(old_book, order_id).unwrap();
                    if has_id(old_book.bids_view(), order_id) {
                        let i = id_position(old_book.bids_view(), order_id);
                        assert(old_book.bids_view()[i].wf());
                    } else {
                        let i = id_position(old_book.asks_view(), order_id);
                        assert(old_book.asks_view()[i].wf());
                    }
                    assert(o.wf());
                }
                let amended = match current.amend(cmd.price, cmd.base_qty) {
                    Ok(a) => a,
                    Err(_) => {
                        return EngineResultBody::Amend(
                            AmendOrderResult {
                                symbol: self.symbol.clone(),
                                order_id,
                                outcome: AmendOrderOutcome::Rejected(AmendRejectedReason::AmendNotAllowed),
                            },
                        );
                    },
                };
                (amended, current.price.unwrap(), current.base_qty().unwrap())
            },
        };
        let ghost o = resting_order(old_book, order_id).unwrap();
        let amended_price = amended.price.unwrap();
        let amended_base_qty = amended.base_qty().unwrap();

        if amended.is_filled() {
            let removed = self.orderbook.remove_order(order_id);
            proof {
                lemma_removal_keeps_live(old_book, self.book(), o);
            }
            let snap = OrderSnapshot::from_order(&amended);
            let outcome = AmendOrderOutcome::Amended(snap);
            proof {
                assert(amended_as(o, cmd.price, cmd.base_qty, amended));
                assert(amendment_applied(old_book, self.book(), o, amended, outcome));
            }
            return EngineResultBody::Amend(
                AmendOrderResult { symbol: self.symbol.clone(), order_id, outcome },
            );
        }
        if dec_compare(&amended_price, &current_price) != DecOrd::Equal || dec_compare(
            &amended_base_qty,
            &current_base_qty,
        ) == DecOrd::Greater {
            let mut canceled = self.orderbook.remove_order(order_id).unwrap();
            let ghost mid = self.book();
            proof {
                lemma_removal_keeps_live(old_book, mid, o);
            }
            let _ = canceled.cancel();
            let canceled_snap = OrderSnapshot::from_order(&canceled);
            let placed_result = match self.place_order(amended) {
                EngineResultBody::Place(p) => p,
                _ => {
                    proof {
                        assert(false);
                    }
                    return EngineResultBody::Amend(
                        AmendOrderResult {
                            symbol: self.symbol.clone(),
                            order_id,
                            outcome: AmendOrderOutcome::Rejected(AmendRejectedReason::AmendNotAllowed),
                        },
                    );
                },
            };
            let outcome = AmendOrderOutcome::CancelReplaced { canceled: canceled_snap, placed: placed_result };
            proof {
                assert(book_without(old_book, mid, o) && placed(mid, self.book(), amended, placed_result));
                assert(cancel_replaced(old_book, self.book(), o, amended, placed_result));
                assert(amended_as(o, cmd.price, cmd.base_qty, amended));
                assert(amendment_applied(old_book, self.book(), o, amended, outcome));
            }
            return EngineResultBody::Amend(
                AmendOrderResult { symbol: self.symbol.clone(), order_id, outcome },
            );
        }
        proof {
            let s = old_book.same_side_view(o.side);
            assert forall|i: int| 0 <= i < s.len() && (#[trigger] s[i]).order_id == amended.order_id implies price_units(s[i]) == price_units(amended) by {
                lemma_id_position(s, i, order_id);
            }
        }
        let snap = OrderSnapshot::from_order(&amended);
        self.orderbook.replace_order(amended);
        proof {
            let s = old_book.same_side_view(o.side);
            let n = self.book().same_side_view(o.side);
            let i = choose|i: int| 0 <= i < s.len() && s[i].order_id == o.order_id && n == s.update(i, amended);
            assert forall|j: int| 0 <= j < n.len() implies !status_is_completed(#[trigger] n[j].status) by {
                if j != i {
                    assert(n[j] == s[j]);
                }
            }
        }
        let outcome = AmendOrderOutcome::Amended(snap);
        proof {
            assert(amended_as(o, cmd.price, cmd.base_qty, amended));
            assert(amendment_applied(old_book, self.book(), o, amended, outcome));
        }
        EngineResultBody::Amend(AmendOrderResult { symbol: self.symbol.clone(), order_id, outcome })
    }

    /// Places an order directly, without numbering a result.
    pub fn bench_place_order(&mut self, order: Order) -> (r: EngineResultBody)
        requires
            old(self).wf(),
            order.wf(),
            !status_is_completed(order.status),
            order.tif == TimeInForce::GTC && order.order_type == OrderType::Limit ==> order.price is Some,
        ensures
            final(self).wf(),
            final(self).symbol_view() == old(self).symbol_view(),
            final(self).sequence() == old(self).sequence(),
            r matches EngineResultBody::Place(res) && res.symbol@ == old(self).symbol_view() && placed(
                old(self).book(),
                final(self).book(),
                order,
                res,
            ),
    {
        self.place_order(order)
    }

    /// Cancels directly, without numbering a result.
    pub fn bench_cancel_order(&mut self, order_id: u128) -> (r: EngineResultBody)
        requires
            old(self).wf(),
        ensures
            final(self).wf(),
            final(self).symbol_view() == old(self).symbol_view(),
            final(self).sequence() == old(self).sequence(),
            r matches EngineResultBody::Cancel(res) && res.symbol@ == old(self).symbol_view()
                && cancel_handled(old(self).book(), final(self).book(), order_id, res),
    {
        self.cancel_order(order_id)
    }

    /// Amends directly, without numbering a result.
    pub fn bench_amend_order(&mut self, cmd: AmendOrderCommand) -> (r: EngineResultBody)
        requires
            old(self).wf(),
            cmd.price matches Some(p) ==> p.valid(),
            cmd.base_qty matches Some(q) ==> q.valid(),
        ensures
            final(self).wf(),
            final(self).symbol_view() == old(self).symbol_view(),
            final(self).sequence() == old(self).sequence(),
            r matches EngineResultBody::Amend(res) && res.symbol@ == old(self).symbol_view()
                && amend_handled(old(self).book(), final(self).book(), cmd, res),
    {
        self.amend_order(cmd)
    }

    /// Puts a resting order straight into the book, without matching; an order whose id
    /// already rests is left out.
    pub fn bench_seed_order(&mut self, order: Order)
        requires
            old(self).wf(),
            order.wf(),
            !status_is_completed(order.status),
            order.price is Some,
        ensures
            final(self).wf(),
            final(self).symbol_view() == old(self).symbol_view(),
            final(self).sequence() == old(self).sequence(),
            old(self).book().contains(order.order_id) ==> final(self).book() == old(self).book(),
            !old(self).book().contains(order.order_id) ==> order_added(old(self).book(), final(self).book(), order),
    {
        let ghost old_book = self.book();
        let _ = self.orderbook.add_order(order);
        proof {
            if !old_book.contains(order.order_id) {
                lemma_added_keeps_live(old_book, self.book(), order);
            }
        }
    }

    /// Handles one command and numbers its result: results carry 1, 2, 3, ... in the order
    /// the engine handled the commands.
    pub fn handle(&mut self, cmd: EngineCommand) -> (r: EngineResult)
        requires
            old(self).wf(),
            old(self).sequence() < u64::MAX,
            command_acceptable(cmd),
        ensures
            final(self).wf(),
            final(self).symbol_view() == old(self).symbol_view(),
            final(self).sequence() == old(self).sequence() + 1,
            r.command_id == cmd.spec_command_id(),
            r.sequence == final(self).sequence(),
            command_handled(old(self).book(), final(self).book(), old(self).symbol_view(), cmd, r.body),
    {
        let command_id = cmd.command_id();
        let body = match cmd {
            EngineCommand::Place(command) => self.place_order(command.order),
            EngineCommand::Cancel(command) => self.cancel_order(command.order_id),
            EngineCommand::Amend(command) => self.amend_order(command),
        };
        self.next_sequence = self.next_sequence + 1;
        EngineResult::new(command_id, self.next_sequence, body)
    }
}

/// Adding a live order to a book whose orders are all live leaves them all live.
proof fn lemma_added_keeps_live(old_book: OrderBook, new_book: OrderBook, order: Order)
    requires
        all_live(old_book.bids_view()),
        all_live(old_book.asks_view()),
        !status_is_completed(order.status),
        order_added(old_book, new_book, order),
    ensures
        all_live(new_book.bids_view()),
        all_live(new_book.asks_view()),
{
    let s = old_book.same_side_view(order.side);
    let n = new_book.same_side_view(order.side);
    let k = choose|k: int|
        0 <= k <= s.len() && n == s.insert(k, order) && (forall|i: int|
            0 <= i < k ==> if order.side == Side::Buy {
                price_units(#[trigger] s[i]) >= price_units(order)
            } else {
                price_units(s[i]) <= price_units(order)
            }) && (forall|i: int|
            k <= i < s.len() ==> if order.side == Side::Buy {
                price_units(#[trigger] s[i]) < price_units(order)
            } else {
                price_units(s[i]) > price_units(order)
            });
    assert forall|j: int| 0 <= j < n.len() implies !status_is_completed(#[trigger] n[j].status) by {
        if j < k {
            assert(n[j] == s[j]);
        } else if j > k {
            assert(n[j] == s[j - 1]);
        }
    }
}

/// Taking a resting order out of a book whose orders are all live leaves them all live.
proof fn lemma_removal_keeps_live(old_book: OrderBook, new_book: OrderBook, o: Order)
    requires
        all_live(old_book.bids_view()),
        all_live(old_book.asks_view()),
        book_without(old_book, new_book, o),
    ensures
        all_live(new_book.bids_view()),
        all_live(new_book.asks_view()),
{
    let s = old_book.same_side_view(o.side);
    let i = choose|i: int| 0 <= i < s.len() && s[i] == o && new_book.same_side_view(o.side) == s.remove(i);
    assert forall|j: int| 0 <= j < s.remove(i).len() implies !status_is_completed(#[trigger] s.remove(i)[j].status) by {
        if j < i {
            assert(s.remove(i)[j] == s[j]);
        } else {
            assert(s.remove(i)[j] == s[j + 1]);
        }
    }
}

/// The outcome of an accepted placement.
pub fn resolve_place_outcome(taker_filled: bool, has_trades: bool, tif: TimeInForce) -> (o: PlaceOrderOutcome)
    ensures
        o == resolved_outcome(taker_filled, has_trades, tif),
{
    if taker_filled {
        PlaceOrderOutcome::Filled
    } else if tif == TimeInForce::GTC {
        if has_trades {
            PlaceOrderOutcome::PartiallyFilledAndRested
        } else {
            PlaceOrderOutcome::Rested
        }
    } else if has_trades {
        PlaceOrderOutcome::PartiallyFilledAndCancelled(CancelledReason::IocRemainingCancelled)
    } else {
        PlaceOrderOutcome::Cancelled(CancelledReason::IocRemainingCancelled)
    }
}

} // verus!
