use vstd::prelude::*;

use crate::decimal::{
    dec_checked_mul, dec_checked_sub, dec_compare, decimal_checked_mul, decimal_checked_sub, Dec,
    DecOrd,
};
use crate::domain::order::{Order, OrderSize, Side};

verus! {

/// The price of a resting order, by value.
pub open spec fn price_units(o: Order) -> int {
    o.price.unwrap().units()
}

/// Highest price first; equal prices keep their arrival order.
pub open spec fn bids_sorted(s: Seq<Order>) -> bool {
    forall|i: int, j: int| 0 <= i < j < s.len() ==> price_units(s[i]) >= price_units(s[j])
}

/// Lowest price first; equal prices keep their arrival order.
pub open spec fn asks_sorted(s: Seq<Order>) -> bool {
    forall|i: int, j: int| 0 <= i < j < s.len() ==> price_units(s[i]) <= price_units(s[j])
}

/// Every order rests on `side`, is well formed and priced.
pub open spec fn resting_on(s: Seq<Order>, side: Side) -> bool {
    forall|i: int|
        0 <= i < s.len() ==> {
            &&& (#[trigger] s[i]).side == side
            &&& s[i].wf()
            &&& s[i].price is Some
        }
}

/// No order id occurs twice.
pub open spec fn ids_unique(s: Seq<Order>) -> bool {
    forall|i: int, j: int|
        0 <= i < s.len() && 0 <= j < s.len() && i != j ==> s[i].order_id != s[j].order_id
}

/// No order id occurs in both sequences.
pub open spec fn ids_disjoint(a: Seq<Order>, b: Seq<Order>) -> bool {
    forall|i: int, j: int| 0 <= i < a.len() && 0 <= j < b.len() ==> a[i].order_id != b[j].order_id
}

pub open spec fn has_id(s: Seq<Order>, id: u128) -> bool {
    exists|i: int| 0 <= i < s.len() && s[i].order_id == id
}

/// The base quantity an order still has to fill, as `remaining_base_qty` computes it.
pub open spec fn remaining_base(o: Order) -> Option<Dec> {
    match o.size {
        OrderSize::Base(q) => decimal_checked_sub(q, o.executed_base_qty),
        OrderSize::Quote(_) => None,
    }
}

/// Whether walking `s` in priority order, subtracting each remaining quantity from `qty`
/// while the price stays within `limit`, brings `qty` to zero or below. `buy` tells which
/// way the limit bounds the price. An order whose remaining quantity cannot be computed is
/// passed over; a subtraction that does not fit in a decimal ends the walk.
pub open spec fn base_walk(s: Seq<Order>, qty: Dec, limit: Dec, buy: bool) -> bool
    decreases s.len(),
{
    if s.len() == 0 {
        false
    } else if (buy && price_units(s[0]) > limit.units()) || (!buy && price_units(s[0])
        < limit.units()) {
        false
    } else {
        match remaining_base(s[0]) {
            None => base_walk(s.drop_first(), qty, limit, buy),
            Some(rem) => match decimal_checked_sub(qty, rem) {
                None => false,
                Some(next) => if next.units() <= 0 {
                    true
                } else {
                    base_walk(s.drop_first(), next, limit, buy)
                },
            },
        }
    }
}

/// `o` is priced past `limit` for a taker on the side given by `buy`: above it for a buy,
/// below it for a sell.
pub open spec fn past_limit(o: Order, limit: Dec, buy: bool) -> bool {
    if buy {
        price_units(o) > limit.units()
    } else {
        price_units(o) < limit.units()
    }
}

/// Orders priced past the limit never count towards filling a fill-or-kill order: adding
/// any number of them after the orders already walked leaves the answer as it was. In
/// particular, a side that holds only such orders cannot fill any quantity.
pub proof fn law_fok_check_ignores_orders_past_limit(s: Seq<Order>, t: Seq<Order>, qty: Dec, limit: Dec, buy: bool)
    requires
        forall|j: int| 0 <= j < t.len() ==> past_limit(#[trigger] t[j], limit, buy),
    ensures
        base_walk(s + t, qty, limit, buy) == base_walk(s, qty, limit, buy),
    decreases s.len(),
{
    if s.len() == 0 {
        assert(s + t =~= t);
        if t.len() > 0 {
            assert(past_limit(t[0], limit, buy));
        }
    } else {
        assert((s + t)[0] == s[0]);
        assert((s + t).drop_first() =~= s.drop_first() + t);
        match remaining_base(s[0]) {
            None => law_fok_check_ignores_orders_past_limit(s.drop_first(), t, qty, limit, buy),
            Some(rem) => match decimal_checked_sub(qty, rem) {
                None => {},
                Some(next) => law_fok_check_ignores_orders_past_limit(s.drop_first(), t, next, limit, buy),
            },
        }
    }
}

/// Whether walking `s` in priority order, subtracting each remaining quantity times its
/// price from `quote`, brings `quote` to zero or below. An order whose remaining quantity
/// cannot be computed is passed over; a product or subtraction that does not fit ends the walk.
pub open spec fn quote_walk(s: Seq<Order>, quote: Dec) -> bool
    decreases s.len(),
{
    if s.len() == 0 {
        false
    } else {
        match remaining_base(s[0]) {
            None => quote_walk(s.drop_first(), quote),
            Some(rem) => match decimal_checked_mul(rem, s[0].price.unwrap()) {
                None => false,
                Some(cost) => match decimal_checked_sub(quote, cost) {
                    None => false,
                    Some(next) => if next.units() <= 0 {
                        true
                    } else {
                        quote_walk(s.drop_first(), next)
                    },
                },
            },
        }
    }
}

/// The position of the order with id `id` in `s` (meaningful when there is one).
pub open spec fn id_position(s: Seq<Order>, id: u128) -> int {
    choose|i: int| 0 <= i < s.len() && s[i].order_id == id
}

/// The resting order with id `id`, if the book holds one.
pub open spec fn resting_order(book: OrderBook, id: u128) -> Option<Order> {
    if has_id(book.bids_view(), id) {
        Some(book.bids_view()[id_position(book.bids_view(), id)])
    } else if has_id(book.asks_view(), id) {
        Some(book.asks_view()[id_position(book.asks_view(), id)])
    } else {
        None
    }
}

/// With unique ids, a position holding `id` is the one `id_position` picks.
pub proof fn lemma_id_position(s: Seq<Order>, i: int, id: u128)
    requires
        ids_unique(s),
        0 <= i < s.len(),
        s[i].order_id == id,
    ensures
        id_position(s, id) == i,
{
    let j = id_position(s, id);
    assert(0 <= j < s.len() && s[j].order_id == id);
}

/// `new` is `old` with `order` placed after every order of a price at least as good and
/// before every order of a worse price (`buy`: higher is better).
pub open spec fn inserted_by_priority(old: Seq<Order>, new: Seq<Order>, order: Order, buy: bool) -> bool {
    exists|k: int|
        0 <= k <= old.len() && new == old.insert(k, order) && (forall|i: int|
            0 <= i < k ==> if buy {
                price_units(#[trigger] old[i]) >= price_units(order)
            } else {
                price_units(old[i]) <= price_units(order)
            }) && (forall|i: int|
            k <= i < old.len() ==> if buy {
                price_units(#[trigger] old[i]) < price_units(order)
            } else {
                price_units(old[i]) > price_units(order)
            })
}

/// `new_book` is `old_book` with `order` placed on its side by priority, the other side untouched.
pub open spec fn order_added(old_book: OrderBook, new_book: OrderBook, order: Order) -> bool {
    match order.side {
        Side::Buy => {
            &&& inserted_by_priority(old_book.bids_view(), new_book.bids_view(), order, true)
            &&& new_book.asks_view() == old_book.asks_view()
        },
        Side::Sell => {
            &&& inserted_by_priority(old_book.asks_view(), new_book.asks_view(), order, false)
            &&& new_book.bids_view() == old_book.bids_view()
        },
    }
}

/// `new` is `old` without the order at some position, which is `o`.
pub open spec fn removed_one(old: Seq<Order>, new: Seq<Order>, o: Order) -> bool {
    exists|i: int| 0 <= i < old.len() && old[i] == o && new == old.remove(i)
}

/// The position of the order with id `id`, if any.
fn find_index(s: &Vec<Order>, id: u128) -> (r: Option<usize>)
    ensures
        r matches Some(i) ==> i < s@.len() && s@[i as int].order_id == id,
        r is None ==> !has_id(s@, id),
{
    let mut i: usize = 0;
    while i < s.len()
        invariant
            i <= s@.len(),
            forall|j: int| 0 <= j < i ==> s@[j].order_id != id,
        decreases s@.len() - i,
    {
        if s[i].order_id == id {
            return Some(i);
        }
        i = i + 1;
    }
    None
}

/// Whether a resting order ranks at least as well as `price` (`buy`: higher is better).
fn ranks_before(o: &Order, price: &Dec, buy: bool) -> (b: bool)
    requires
        o.price matches Some(p) && p.valid(),
        price.valid(),
    ensures
        b == if buy {
            price_units(*o) >= price.units()
        } else {
            price_units(*o) <= price.units()
        },
{
    let p = o.price.unwrap();
    let c = dec_compare(&p, price);
    if buy {
        c != DecOrd::Less
    } else {
        c != DecOrd::Greater
    }
}

/// Where an order of price `price` joins a side sorted by priority: after every order
/// priced at least as well.
fn insert_position(s: &Vec<Order>, price: &Dec, buy: bool) -> (k: usize)
    requires
        price.valid(),
        resting_on(s@, if buy { Side::Buy } else { Side::Sell }),
        buy ==> bids_sorted(s@),
        !buy ==> asks_sorted(s@),
    ensures
        k <= s@.len(),
        forall|i: int|
            0 <= i < k ==> if buy {
                price_units(#[trigger] s@[i]) >= price.units()
            } else {
                price_units(s@[i]) <= price.units()
            },
        forall|i: int|
            k <= i < s@.len() ==> if buy {
                price_units(#[trigger] s@[i]) < price.units()
            } else {
                price_units(s@[i]) > price.units()
            },
{
    let mut i: usize = 0;
    while i < s.len() && ranks_before(&s[i], price, buy)
        invariant
            i <= s@.len(),
            price.valid(),
            resting_on(s@, if buy { Side::Buy } else { Side::Sell }),
            forall|j: int|
                0 <= j < i ==> if buy {
                    price_units(#[trigger] s@[j]) >= price.units()
                } else {
                    price_units(s@[j]) <= price.units()
                },
        decreases s@.len() - i,
    {
        i = i + 1;
    }
    proof {
        if i < s@.len() {
            assert forall|j: int| i <= j < s@.len() implies if buy {
                price_units(#[trigger] s@[j]) < price.units()
            } else {
                price_units(s@[j]) > price.units()
            } by {}
        }
    }
    i
}

/// Inserting an order at its priority position keeps a side sorted, resting, and free of
/// repeated ids, and keeps it apart from the other side.
proof fn lemma_insert_keeps(s: Seq<Order>, k: int, order: Order, side: Side, other: Seq<Order>)
    requires
        0 <= k <= s.len(),
        resting_on(s, side),
        ids_unique(s),
        order.side == side,
        order.wf(),
        order.price is Some,
        !has_id(s, order.order_id),
        !has_id(other, order.order_id),
        side == Side::Buy ==> bids_sorted(s) && ids_disjoint(s, other),
        side == Side::Sell ==> asks_sorted(s) && ids_disjoint(other, s),
        forall|i: int|
            0 <= i < k ==> if side == Side::Buy {
                price_units(#[trigger] s[i]) >= price_units(order)
            } else {
                price_units(s[i]) <= price_units(order)
            },
        forall|i: int|
            k <= i < s.len() ==> if side == Side::Buy {
                price_units(#[trigger] s[i]) < price_units(order)
            } else {
                price_units(s[i]) > price_units(order)
            },
    ensures
        resting_on(s.insert(k, order), side),
        ids_unique(s.insert(k, order)),
        side == Side::Buy ==> bids_sorted(s.insert(k, order)) && ids_disjoint(
            s.insert(k, order),
            other,
        ),
        side == Side::Sell ==> asks_sorted(s.insert(k, order)) && ids_disjoint(
            other,
            s.insert(k, order),
        ),
        inserted_by_priority(s, s.insert(k, order), order, side == Side::Buy),
{
    let n = s.insert(k, order);
    assert forall|j: int| 0 <= j < n.len() implies n[j] == (if j < k {
        s[j]
    } else if j == k {
        order
    } else {
        s[j - 1]
    }) by {}
    assert forall|a: int, b: int| 0 <= a < n.len() && 0 <= b < n.len() && a != b implies n[a].order_id
        != n[b].order_id by {
        if a != k && b != k {
            let oa = if a < k { a } else { a - 1 };
            let ob = if b < k { b } else { b - 1 };
            assert(n[a] == s[oa]);
            assert(n[b] == s[ob]);
        } else if a == k {
            let ob = if b < k { b } else { b - 1 };
            assert(n[b] == s[ob]);
        } else {
            let oa = if a < k { a } else { a - 1 };
            assert(n[a] == s[oa]);
        }
    }
    assert forall|j: int| 0 <= j < n.len() implies {
        &&& (#[trigger] n[j]).side == side
        &&& n[j].wf()
        &&& n[j].price is Some
    } by {
        if j < k {
            assert(n[j] == s[j]);
        } else if j > k {
            assert(n[j] == s[j - 1]);
        }
    }
    if side == Side::Buy {
        assert forall|a: int, b: int| 0 <= a < b < n.len() implies price_units(n[a]) >= price_units(
            n[b],
        ) by {
            if b < k {
                assert(n[a] == s[a] && n[b] == s[b]);
            } else if b == k {
                assert(n[a] == s[a]);
            } else if a < k {
                assert(n[a] == s[a] && n[b] == s[b - 1]);
            } else if a == k {
                assert(n[b] == s[b - 1]);
            } else {
                assert(n[a] == s[a - 1] && n[b] == s[b - 1]);
            }
        }
        assert forall|a: int, b: int| 0 <= a < n.len() && 0 <= b < other.len() implies n[a].order_id
            != other[b].order_id by {
            if a < k {
                assert(n[a] == s[a]);
            } else if a > k {
                assert(n[a] == s[a - 1]);
            }
        }
    } else {
        assert forall|a: int, b: int| 0 <= a < b < n.len() implies price_units(n[a]) <= price_units(
            n[b],
        ) by {
            if b < k {
                assert(n[a] == s[a] && n[b] == s[b]);
            } else if b == k {
                assert(n[a] == s[a]);
            } else if a < k {
                assert(n[a] == s[a] && n[b] == s[b - 1]);
            } else if a == k {
                assert(n[b] == s[b - 1]);
            } else {
                assert(n[a] == s[a - 1] && n[b] == s[b - 1]);
            }
        }
        assert forall|a: int, b: int| 0 <= a < other.len() && 0 <= b < n.len() implies other[a].order_id
            != n[b].order_id by {
            if b < k {
                assert(n[b] == s[b]);
            } else if b > k {
                assert(n[b] == s[b - 1]);
            }
        }
    }
}

/// Removing one order keeps a side sorted, resting, and free of repeated ids, and
/// keeps it apart from the other side.
proof fn lemma_remove_keeps(s: Seq<Order>, i: int, side: Side, other: Seq<Order>)
    requires
        0 <= i < s.len(),
        resting_on(s, side),
        ids_unique(s),
        side == Side::Buy ==> bids_sorted(s),
        side == Side::Sell ==> asks_sorted(s),
        side == Side::Buy ==> ids_disjoint(s, other),
        side == Side::Sell ==> ids_disjoint(other, s),
    ensures
        resting_on(s.remove(i), side),
        ids_unique(s.remove(i)),
        side == Side::Buy ==> bids_sorted(s.remove(i)),
        side == Side::Sell ==> asks_sorted(s.remove(i)),
        side == Side::Buy ==> ids_disjoint(s.remove(i), other),
        side == Side::Sell ==> ids_disjoint(other, s.remove(i)),
        !has_id(s.remove(i), s[i].order_id),
{
    let r = s.remove(i);
    assert forall|j: int| 0 <= j < r.len() implies r[j] == (if j < i { s[j] } else { s[j + 1] }) by {}
    assert forall|a: int, b: int| 0 <= a < r.len() && 0 <= b < r.len() && a != b implies r[a].order_id
        != r[b].order_id by {
        let oa = if a < i { a } else { a + 1 };
        let ob = if b < i { b } else { b + 1 };
        assert(r[a] == s[oa]);
        assert(r[b] == s[ob]);
    }
    assert forall|j: int| 0 <= j < r.len() implies {
        &&& (#[trigger] r[j]).side == side
        &&& r[j].wf()
        &&& r[j].price is Some
    } by {
        let oj = if j < i { j } else { j + 1 };
        assert(r[j] == s[oj]);
    }
    if side == Side::Buy {
        assert forall|a: int, b: int| 0 <= a < b < r.len() implies price_units(r[a]) >= price_units(
            r[b],
        ) by {
            let oa = if a < i { a } else { a + 1 };
            let ob = if b < i { b } else { b + 1 };
            assert(r[a] == s[oa]);
            assert(r[b] == s[ob]);
        }
        assert forall|a: int, b: int| 0 <= a < r.len() && 0 <= b < other.len() implies r[a].order_id
            != other[b].order_id by {
            let oa = if a < i { a } else { a + 1 };
            assert(r[a] == s[oa]);
        }
    } else {
        assert forall|a: int, b: int| 0 <= a < b < r.len() implies price_units(r[a]) <= price_units(
            r[b],
        ) by {
            let oa = if a < i { a } else { a + 1 };
            let ob = if b < i { b } else { b + 1 };
            assert(r[a] == s[oa]);
            assert(r[b] == s[ob]);
        }
        assert forall|a: int, b: int| 0 <= a < other.len() && 0 <= b < r.len() implies other[a].order_id
            != r[b].order_id by {
            let ob = if b < i { b } else { b + 1 };
            assert(r[b] == s[ob]);
        }
    }
    if has_id(r, s[i].order_id) {
        let j = choose|j: int| 0 <= j < r.len() && r[j].order_id == s[i].order_id;
        let oj = if j < i { j } else { j + 1 };
        assert(r[j] == s[oj]);
    }
}

/// Why an order cannot be added to the book.
#[derive(Clone, Copy, Debug, PartialEq, Eq, Structural)]
pub enum OrderBookError {
    DuplicateOrderId,
}

/// The resting orders of one symbol, each side kept in priority order (best price first,
/// earlier arrival first within a price).
#[derive(Debug)]
pub struct OrderBook {
    bids: Vec<Order>,
    asks: Vec<Order>,
}

impl Default for OrderBook {
    /// An empty book.
    fn default() -> (b: OrderBook)
        ensures
            b.wf(),
            b.bids_view() == Seq::<Order>::empty(),
            b.asks_view() == Seq::<Order>::empty(),
    {
        OrderBook::new()
    }
}

impl OrderBook {
    /// The buy orders in priority order.
    pub closed spec fn bids_view(&self) -> Seq<Order> {
        self.bids@
    }

    /// The sell orders in priority order.
    pub closed spec fn asks_view(&self) -> Seq<Order> {
        self.asks@
    }

    /// The side a taker on `side` trades against.
    pub open spec fn opposite_view(&self, side: Side) -> Seq<Order> {
        match side {
            Side::Buy => self.asks_view(),
            Side::Sell => self.bids_view(),
        }
    }

    /// The side where an order on `side` rests.
    pub open spec fn same_side_view(&self, side: Side) -> Seq<Order> {
        match side {
            Side::Buy => self.bids_view(),
            Side::Sell => self.asks_view(),
        }
    }

    pub open spec fn contains(&self, id: u128) -> bool {
        has_id(self.bids_view(), id) || has_id(self.asks_view(), id)
    }

    pub open spec fn wf(&self) -> bool {
        &&& bids_sorted(self.bids_view())
        &&& asks_sorted(self.asks_view())
        &&& resting_on(self.bids_view(), Side::Buy)
        &&& resting_on(self.asks_view(), Side::Sell)
        &&& ids_unique(self.bids_view())
        &&& ids_unique(self.asks_view())
        &&& ids_disjoint(self.bids_view(), self.asks_view())
    }

    pub fn new() -> (b: OrderBook)
        ensures
            b.wf(),
            b.bids_view() == Seq::<Order>::empty(),
            b.asks_view() == Seq::<Order>::empty(),
    {
        OrderBook { bids: Vec::new(), asks: Vec::new() }
    }
    /// Whether an order with this id rests in the book.
    pub fn contains_order(&self, order_id: u128) -> (b: bool)
        ensures
            b == self.contains(order_id),
    {
        find_index(&self.bids, order_id).is_some() || find_index(&self.asks, order_id).is_some()
    }

    /// Adds an order behind every resting order of its side priced at least as well.
    /// An order whose id already rests in the book is refused and the book is left as it was.
    pub fn add_order(&mut self, order: Order) -> (r: Result<(), OrderBookError>)
        requires
            old(self).wf(),
            order.wf(),
            order.price is Some,
        ensures
            final(self).wf(),
            r is Err <==> old(self).contains(order.order_id),
            r is Err ==> r == Err::<(), OrderBookError>(OrderBookError::DuplicateOrderId),
            r is Err ==> *final(self) == *old(self),
            r is Ok ==> order_added(*old(self), *final(self), order),
    {
        if self.contains_order(order.order_id) {
            return Err(OrderBookError::DuplicateOrderId);
        }
        let price = order.price.unwrap();
        let ghost old_bids = self.bids@;
        let ghost old_asks = self.asks@;
        match order.side {
            Side::Buy => {
                let k = insert_position(&self.bids, &price, true);
                proof {
                    lemma_insert_keeps(old_bids, k as int, order, Side::Buy, old_asks);
                }
                self.bids.insert(k, order);
            },
            Side::Sell => {
                let k = insert_position(&self.asks, &price, false);
                proof {
                    lemma_insert_keeps(old_asks, k as int, order, Side::Sell, old_bids);
                }
                self.asks.insert(k, order);
            },
        }
        Ok(())
    }

    /// Takes the order with this id out of the book and returns it.
    pub fn remove_order(&mut self, order_id: u128) -> (r: Option<Order>)
        requires
            old(self).wf(),
        ensures
            final(self).wf(),
            r is None <==> !old(self).contains(order_id),
            r is None ==> *final(self) == *old(self),
            r matches Some(o) ==> {
                &&& o.order_id == order_id
                &&& Some(o) == resting_order(*old(self), order_id)
                &&& !final(self).contains(order_id)
                &&& match o.side {
                    Side::Buy => {
                        &&& removed_one(old(self).bids_view(), final(self).bids_view(), o)
                        &&& final(self).asks_view() == old(self).asks_view()
                    },
                    Side::Sell => {
                        &&& removed_one(old(self).asks_view(), final(self).asks_view(), o)
                        &&& final(self).bids_view() == old(self).bids_view()
                    },
                }
            },
    {
        let ghost old_bids = self.bids@;
        let ghost old_asks = self.asks@;
        match find_index(&self.bids, order_id) {
            Some(i) => {
                proof {
                    lemma_id_position(old_bids, i as int, order_id);
                    lemma_remove_keeps(old_bids, i as int, Side::Buy, old_asks);
                    if has_id(old_asks, order_id) {
                        let j = choose|j: int| 0 <= j < old_asks.len() && old_asks[j].order_id == order_id;
                        assert(old_bids[i as int].order_id != old_asks[j].order_id);
                    }
                }
                let o = self.bids.remove(i);
                Some(o)
            },
            None => match find_index(&self.asks, order_id) {
                Some(i) => {
                    proof {
                        lemma_id_position(old_asks, i as int, order_id);
                        lemma_remove_keeps(old_asks, i as int, Side::Sell, old_bids);
                    }
                    let o = self.asks.remove(i);
                    Some(o)
                },
                None => None,
            },
        }
    }

    /// The resting order with this id.
    pub fn get_order(&self, order_id: &u128) -> (r: Option<&Order>)
        requires
            self.wf(),
        ensures
            r is None <==> !self.contains(*order_id),
            r matches Some(o) ==> Some(*o) == resting_order(*self, *order_id),
    {
        match find_index(&self.bids, *order_id) {
            Some(i) => {
                proof {
                    lemma_id_position(self.bids@, i as int, *order_id);
                }
                Some(&self.bids[i])
            },
            None => match find_index(&self.asks, *order_id) {
                Some(i) => {
                    proof {
                        lemma_id_position(self.asks@, i as int, *order_id);
                    }
                    Some(&self.asks[i])
                },
                None => None,
            },
        }
    }

    /// The best price on the side a taker on `side` trades against.
    pub fn best_opposite_price(&self, side: &Side) -> (r: Option<Dec>)
        requires
            self.wf(),
        ensures
            r is None <==> self.opposite_view(*side).len() == 0,
            r matches Some(p) ==> Some(p) == self.opposite_view(*side)[0].price,
    {
        match side {
            Side::Buy => if self.asks.len() == 0 {
                None
            } else {
                self.asks[0].price
            },
            Side::Sell => if self.bids.len() == 0 {
                None
            } else {
                self.bids[0].price
            },
        }
    }

    /// Replaces a resting order by an updated copy of it that keeps its id, side and price
    /// (by value), keeping its place in the queue.
    pub fn replace_order(&mut self, order: Order)
        requires
            old(self).wf(),
            order.wf(),
            order.price is Some,
            has_id(old(self).same_side_view(order.side), order.order_id),
            forall|i: int|
                0 <= i < old(self).same_side_view(order.side).len() && (#[trigger] old(self).same_side_view(
                    order.side,
                )[i]).order_id == order.order_id ==> price_units(
                    old(self).same_side_view(order.side)[i],
                ) == price_units(order),
        ensures
            final(self).wf(),
            final(self).opposite_view(order.side) == old(self).opposite_view(order.side),
            exists|i: int|
                0 <= i < old(self).same_side_view(order.side).len() && old(self).same_side_view(
                    order.side,
                )[i].order_id == order.order_id && final(self).same_side_view(order.side) == old(
                    self,
                ).same_side_view(order.side).update(i, order),
    {
        let ghost old_bids = self.bids@;
        let ghost old_asks = self.asks@;
        match order.side {
            Side::Buy => {
                let i = find_index(&self.bids, order.order_id).unwrap();
                let ghost oi = i as int;
                assert(price_units(old_bids[oi]) == price_units(order));
                self.bids.set(i, order);
                proof {
                    let nb = self.bids@;
                    assert forall|j: int| 0 <= j < nb.len() implies nb[j].order_id == old_bids[j].order_id
                        && price_units(nb[j]) == price_units(old_bids[j]) by {
                        if j != oi {
                            assert(nb[j] == old_bids[j]);
                        }
                    }
                    assert forall|j: int| 0 <= j < nb.len() implies {
                        &&& (#[trigger] nb[j]).side == Side::Buy
                        &&& nb[j].wf()
                        &&& nb[j].price is Some
                    } by {
                        if j != oi {
                            assert(nb[j] == old_bids[j]);
                        }
                    }
                }
            },
            Side::Sell => {
                let i = find_index(&self.asks, order.order_id).unwrap();
                let ghost oi = i as int;
                assert(price_units(old_asks[oi]) == price_units(order));
                self.asks.set(i, order);
                proof {
                    let na = self.asks@;
                    assert forall|j: int| 0 <= j < na.len() implies na[j].order_id == old_asks[j].order_id
                        && price_units(na[j]) == price_units(old_asks[j]) by {
                        if j != oi {
                            assert(na[j] == old_asks[j]);
                        }
                    }
                    assert forall|j: int| 0 <= j < na.len() implies {
                        &&& (#[trigger] na[j]).side == Side::Sell
                        &&& na[j].wf()
                        &&& na[j].price is Some
                    } by {
                        if j != oi {
                            assert(na[j] == old_asks[j]);
                        }
                    }
                }
            },
        }
    }

    /// The first order a taker on `side` trades against.
    pub fn best_opposite_maker(&self, side: &Side) -> (r: Option<&Order>)
        ensures
            r is None <==> self.opposite_view(*side).len() == 0,
            r matches Some(o) ==> *o == self.opposite_view(*side)[0],
    {
        match side {
            Side::Buy => if self.asks.len() == 0 {
                None
            } else {
                Some(&self.asks[0])
            },
            Side::Sell => if self.bids.len() == 0 {
                None
            } else {
                Some(&self.bids[0])
            },
        }
    }

    /// The id of the first order a taker on `side` trades against.
    pub fn peek_best_opposite_maker(&self, side: &Side) -> (r: Option<u128>)
        ensures
            r is None <==> self.opposite_view(*side).len() == 0,
            r matches Some(id) ==> id == self.opposite_view(*side)[0].order_id,
    {
        match side {
            Side::Buy => if self.asks.len() == 0 {
                None
            } else {
                Some(self.asks[0].order_id)
            },
            Side::Sell => if self.bids.len() == 0 {
                None
            } else {
                Some(self.bids[0].order_id)
            },
        }
    }

    /// Takes the first order a taker on `side` trades against out of the book.
    pub fn pop_best_opposite_maker(&mut self, side: &Side) -> (r: Option<Order>)
        requires
            old(self).wf(),
        ensures
            final(self).wf(),
            r is None <==> old(self).opposite_view(*side).len() == 0,
            r is None ==> final(self).bids_view() == old(self).bids_view()
                && final(self).asks_view() == old(self).asks_view(),
            r matches Some(o) ==> {
                &&& o == old(self).opposite_view(*side)[0]
                &&& final(self).opposite_view(*side) == old(self).opposite_view(*side).drop_first()
                &&& final(self).same_side_view(*side) == old(self).same_side_view(*side)
            },
    {
        let ghost old_bids = self.bids@;
        let ghost old_asks = self.asks@;
        match side {
            Side::Buy => {
                if self.asks.len() == 0 {
                    return None;
                }
                proof {
                    lemma_remove_keeps(old_asks, 0, Side::Sell, old_bids);
                    assert(old_asks.remove(0) =~= old_asks.drop_first());
                }
                Some(self.asks.remove(0))
            },
            Side::Sell => {
                if self.bids.len() == 0 {
                    return None;
                }
                proof {
                    lemma_remove_keeps(old_bids, 0, Side::Buy, old_asks);
                    assert(old_bids.remove(0) =~= old_bids.drop_first());
                }
                Some(self.bids.remove(0))
            },
        }
    }

    /// Replaces the first order a taker on `side` trades against by an updated copy of it
    /// (same id, side and price), keeping its place.
    pub fn replace_best_opposite_maker(&mut self, side: &Side, order: Order)
        requires
            old(self).wf(),
            old(self).opposite_view(*side).len() > 0,
            order.order_id == old(self).opposite_view(*side)[0].order_id,
            order.side == old(self).opposite_view(*side)[0].side,
            order.price == old(self).opposite_view(*side)[0].price,
            order.wf(),
        ensures
            final(self).wf(),
            final(self).opposite_view(*side) == old(self).opposite_view(*side).update(0, order),
            final(self).same_side_view(*side) == old(self).same_side_view(*side),
    {
        let ghost old_bids = self.bids@;
        let ghost old_asks = self.asks@;
        match side {
            Side::Buy => {
                self.asks.set(0, order);
                proof {
                    let na = self.asks@;
                    assert forall|i: int| 0 <= i < na.len() implies na[i].order_id == old_asks[i].order_id
                        && price_units(na[i]) == price_units(old_asks[i]) by {}
                    assert forall|i: int| 0 <= i < na.len() implies {
                        &&& (#[trigger] na[i]).side == Side::Sell
                        &&& na[i].wf()
                        &&& na[i].price is Some
                    } by {
                        if i > 0 {
                            assert(na[i] == old_asks[i]);
                        }
                    }
                }
            },
            Side::Sell => {
                self.bids.set(0, order);
                proof {
                    let nb = self.bids@;
                    assert forall|i: int| 0 <= i < nb.len() implies nb[i].order_id == old_bids[i].order_id
                        && price_units(nb[i]) == price_units(old_bids[i]) by {}
                    assert forall|i: int| 0 <= i < nb.len() implies {
                        &&& (#[trigger] nb[i]).side == Side::Buy
                        &&& nb[i].wf()
                        &&& nb[i].price is Some
                    } by {
                        if i > 0 {
                            assert(nb[i] == old_bids[i]);
                        }
                    }
                }
            },
        }
    }
    /// The best price on the side a taker on `side` trades against, with the ids resting at
    /// that price in arrival order.
    pub fn get_best_opposite(&self, side: &Side) -> (r: Option<(Dec, Vec<u128>)>)
        requires
            self.wf(),
        ensures
            r is None <==> self.opposite_view(*side).len() == 0,
            r matches Some((p, ids)) ==> {
                let s = self.opposite_view(*side);
                &&& Some(p) == s[0].price
                &&& 0 < ids@.len() <= s.len()
                &&& forall|i: int| 0 <= i < ids@.len() ==> ids@[i] == s[i].order_id
                    && price_units(#[trigger] s[i]) == price_units(s[0])
                &&& ids@.len() == s.len() || price_units(s[ids@.len() as int]) != price_units(s[0])
            },
    {
        let s = match side {
            Side::Buy => &self.asks,
            Side::Sell => &self.bids,
        };
        if s.len() == 0 {
            return None;
        }
        let best = s[0].price.unwrap();
        let mut ids: Vec<u128> = Vec::new();
        let mut i: usize = 0;
        while i < s.len() && dec_compare(&s[i].price.unwrap(), &best) == DecOrd::Equal
            invariant
                i <= s@.len(),
                s@ == self.opposite_view(*side),
                s@.len() > 0,
                Some(best) == s@[0].price,
                best.valid(),
                resting_on(s@, if *side == Side::Buy { Side::Sell } else { Side::Buy }),
                ids@.len() == i,
                forall|j: int| 0 <= j < i ==> ids@[j] == s@[j].order_id
                    && price_units(#[trigger] s@[j]) == price_units(s@[0]),
            decreases s@.len() - i,
        {
            ids.push(s[i].order_id);
            i = i + 1;
        }
        Some((best, ids))
    }

    /// Whether the orders a taker on `side` meets within limit price `price` hold at least
    /// `qty` of base, walking them in priority order.
    pub fn can_fully_fill_base(&self, side: Side, qty: Dec, price: Dec) -> (r: bool)
        requires
            self.wf(),
            qty.valid(),
            price.valid(),
        ensures
            r == base_walk(self.opposite_view(side), qty, price, side == Side::Buy),
            r ==> self.opposite_view(side).len() > 0 && !past_limit(self.opposite_view(side)[0], price, side == Side::Buy),
    {
        let s = match side {
            Side::Buy => &self.asks,
            Side::Sell => &self.bids,
        };
        let buy = side == Side::Buy;
        let ghost all = s@;
        let mut cur = qty;
        let mut i: usize = 0;
        assert(all.subrange(0, all.len() as int) =~= all);
        while i < s.len()
            invariant
                i <= s@.len(),
                s@ == all,
                all == self.opposite_view(side),
                buy == (side == Side::Buy),
                resting_on(all, if buy { Side::Sell } else { Side::Buy }),
                cur.valid(),
                price.valid(),
                base_walk(all, qty, price, buy) == base_walk(all.subrange(i as int, all.len() as int), cur, price, buy),
            decreases s@.len() - i,
        {
            let ghost rest = all.subrange(i as int, all.len() as int);
            assert(rest.drop_first() =~= all.subrange(i + 1, all.len() as int));
            assert(rest[0] == all[i as int]);
            let o = &s[i];
            let p = o.price.unwrap();
            let c = dec_compare(&p, &price);
            if (buy && c == DecOrd::Greater) || (!buy && c == DecOrd::Less) {
                return false;
            }
            match o.remaining_base_qty() {
                None => {},
                Some(rem) => match dec_checked_sub(cur, rem) {
                    None => return false,
                    Some(next) => {
                        if dec_compare(&next, &Dec::zero()) != DecOrd::Greater {
                            return true;
                        }
                        cur = next;
                    },
                },
            }
            i = i + 1;
        }
        proof {
            assert(all.subrange(i as int, all.len() as int).len() == 0);
        }
        false
    }

    /// Whether the sell orders hold enough base to spend `quote` of quote currency,
    /// walking them in priority order. Only buy takers spend quote.
    pub fn can_fully_fill_quote(&self, side: Side, quote: Dec) -> (r: bool)
        requires
            self.wf(),
            quote.valid(),
            side == Side::Buy,
        ensures
            r == quote_walk(self.asks_view(), quote),
    {
        let s = &self.asks;
        let ghost all = s@;
        let mut cur = quote;
        let mut i: usize = 0;
        assert(all.subrange(0, all.len() as int) =~= all);
        while i < s.len()
            invariant
                i <= s@.len(),
                s@ == all,
                all == self.asks_view(),
                resting_on(all, Side::Sell),
                cur.valid(),
                quote_walk(all, quote) == quote_walk(all.subrange(i as int, all.len() as int), cur),
            decreases s@.len() - i,
        {
            let ghost rest = all.subrange(i as int, all.len() as int);
            assert(rest.drop_first() =~= all.subrange(i + 1, all.len() as int));
            assert(rest[0] == all[i as int]);
            let o = &s[i];
            match o.remaining_base_qty() {
                None => {},
                Some(rem) => match dec_checked_mul(rem, o.price.unwrap()) {
                    None => return false,
                    Some(cost) => match dec_checked_sub(cur, cost) {
                        None => return false,
                        Some(next) => {
                            if dec_compare(&next, &Dec::zero()) != DecOrd::Greater {
                                return true;
                            }
                            cur = next;
                        },
                    },
                },
            }
            i = i + 1;
        }
        proof {
            assert(all.subrange(i as int, all.len() as int).len() == 0);
        }
        false
    }
}

} // verus!
