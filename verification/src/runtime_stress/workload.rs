use vstd::prelude::*;

use crate::decimal::Dec;
use crate::domain::order::{Order, OrderSize, OrderStatus, OrderType, Side, TimeInForce};
use crate::engine::command::EngineCommand;
use crate::ident::new_v7_id;
use crate::runtime_stress::config::Scenario;
use crate::text::{decimal_text, push_decimal};

verus! {

/// The symbol of a run with one symbol; with several, the prefix of `BTCUSDT-0`, `BTCUSDT-1`, ...
pub const BASE_SYMBOL: &'static str = "BTCUSDT";

/// The name of symbol `i` of a run with `count` symbols.
pub open spec fn symbol_name(count: nat, i: nat) -> Seq<char> {
    if count == 1 {
        "BTCUSDT"@
    } else {
        "BTCUSDT-"@ + decimal_text(i)
    }
}

/// The symbols of a run: the base symbol alone for one symbol, otherwise the base symbol
/// suffixed with `-0`, `-1`, ... up to `count - 1`.
pub fn make_symbols(count: usize) -> (r: Vec<String>)
    ensures
        r@.len() == count,
        forall|i: int| 0 <= i < count ==> #[trigger] r@[i]@ == symbol_name(count as nat, i as nat),
{
    let mut symbols: Vec<String> = Vec::new();
    if count == 1 {
        symbols.push(String::from_str("BTCUSDT"));
        return symbols;
    }
    let mut i: usize = 0;
    while i < count
        invariant
            0 <= i <= count,
            count != 1,
            symbols@.len() == i,
            forall|j: int| 0 <= j < i ==> #[trigger] symbols@[j]@ == symbol_name(count as nat, j as nat),
        decreases count - i,
    {
        let mut name = String::from_str("BTCUSDT-");
        push_decimal(&mut name, i as u64);
        symbols.push(name);
        i = i + 1;
    }
    symbols
}

/// `o` is a new order of the stress workload: the given id, symbol, side, type and time in
/// force, nothing executed, created at the Unix epoch.
pub open spec fn fresh_order(o: Order, id: u128, symbol: Seq<char>, side: Side, order_type: OrderType, tif: TimeInForce) -> bool {
    &&& o.order_id == id
    &&& o.symbol@ == symbol
    &&& o.side == side
    &&& o.order_type == order_type
    &&& o.tif == tif
    &&& o.executed_base_qty == Dec { mantissa: 0, scale: 0 }
    &&& o.executed_quote_qty == Dec { mantissa: 0, scale: 0 }
    &&& o.status == OrderStatus::New
    &&& o.created_at == 0
    &&& o.updated_at == 0
}

/// A whole number as a decimal.
pub open spec fn whole(n: int) -> Dec {
    Dec { mantissa: n as i128, scale: 0 }
}

/// `c` places a good-for-the-book limit order: id, side, time in force, price and base quantity.
pub open spec fn places_limit(c: EngineCommand, id: u128, symbol: Seq<char>, side: Side, tif: TimeInForce, price: int, qty: int) -> bool {
    c matches EngineCommand::Place(p) && fresh_order(p.order, id, symbol, side, OrderType::Limit, tif)
        && p.order.price == Some(whole(price)) && p.order.size == OrderSize::Base(whole(qty))
}

/// `c` places a market buy spending `quote`.
pub open spec fn places_market_quote_buy(c: EngineCommand, id: u128, symbol: Seq<char>, quote: int) -> bool {
    c matches EngineCommand::Place(p) && fresh_order(p.order, id, symbol, Side::Buy, OrderType::Market, TimeInForce::IOC)
        && p.order.price is None && p.order.size == OrderSize::Quote(whole(quote))
}

/// `c` cancels order `id`.
pub open spec fn cancels(c: EngineCommand, id: u128) -> bool {
    c matches EngineCommand::Cancel(x) && x.order_id == id
}

/// `c` amends order `id` to `price` and base quantity `qty`.
pub open spec fn amends(c: EngineCommand, id: u128, price: int, qty: int) -> bool {
    c matches EngineCommand::Amend(a) && a.order_id == id && a.price == Some(whole(price)) && a.base_qty == Some(
        whole(qty),
    )
}

/// The price of the `k`-th maker of a market quote sweep.
pub open spec fn sweep_price(k: int) -> int {
    100 + k % 50
}

/// What the makers of a market quote sweep of depth `d` ask in total.
pub open spec fn sweep_quote(d: nat) -> int
    decreases d,
{
    if d == 0 {
        0
    } else {
        sweep_quote((d - 1) as nat) + sweep_price(d - 1)
    }
}

/// Every maker of a market quote sweep asks a positive price, so the total grows with the
/// depth.
pub proof fn lemma_sweep_quote_grows(a: nat, b: nat)
    requires
        a <= b,
    ensures
        sweep_quote(a) <= sweep_quote(b),
    decreases b,
{
    if a < b {
        lemma_sweep_quote_grows(a, (b - 1) as nat);
    }
}

/// Whether the makers of a market quote sweep of `sweep_depth` makers ask a total that fits
/// in an `i64`.
pub fn sweep_quote_fits(sweep_depth: usize) -> (b: bool)
    ensures
        b == (sweep_quote(sweep_depth as nat) <= i64::MAX),
{
    let mut quote: i64 = 0;
    let mut k: usize = 0;
    while k < sweep_depth
        invariant
            k <= sweep_depth,
            quote == sweep_quote(k as nat),
            0 <= quote,
        decreases sweep_depth - k,
    {
        let price = 100 + (k % 50) as i64;
        assert(sweep_quote((k + 1) as nat) == quote + price);
        if quote > i64::MAX - price {
            proof {
                lemma_sweep_quote_grows((k + 1) as nat, sweep_depth as nat);
            }
            return false;
        }
        quote = quote + price;
        k = k + 1;
    }
    true
}

/// How many order ids one workload of `scenario` uses.
pub open spec fn ids_used(scenario: Scenario, depth: nat) -> nat {
    match scenario {
        Scenario::CancelMissing | Scenario::PlaceRestingLimit | Scenario::AmendDecreaseQty
        | Scenario::AmendPriceChange => 1,
        Scenario::CancelRestingOrder => depth,
        _ => depth + 1,
    }
}

/// Whether a workload of `scenario` with `depth` makers can be made after `issued` ids
/// were handed out: its ids stay within `usize`, the total a market quote sweep asks stays
/// within `i64`, and so does the taker quantity of a same-level sweep (one more than the
/// depth for a partial fill).
pub open spec fn workload_fits(issued: nat, scenario: Scenario, depth: nat) -> bool {
    &&& issued + ids_used(scenario, depth) <= usize::MAX
    &&& scenario == Scenario::MarketQuoteSweep ==> sweep_quote(depth) <= i64::MAX
    &&& scenario == Scenario::FullFillSameLevel ==> depth <= i64::MAX
    &&& scenario == Scenario::PartialFillRest ==> depth + 1 <= i64::MAX
}

/// The commands of one workload of `scenario` on `symbol`, whose order ids are numbered from
/// `first + 1` on. Sell makers rest at price 100 (100 + k mod 50 for a market quote sweep),
/// one unit each, before the taker that trades against them.
pub open spec fn is_workload(cmds: Seq<EngineCommand>, scenario: Scenario, depth: nat, symbol: Seq<char>, first: nat) -> bool {
    let id = |k: int| (first + 1 + k) as u128;
    match scenario {
        Scenario::CancelMissing => cmds.len() == 1 && cancels(cmds[0], id(0)),
        Scenario::PlaceRestingLimit => cmds.len() == 1 && places_limit(
            cmds[0],
            id(0),
            symbol,
            Side::Buy,
            TimeInForce::GTC,
            (10_000 + (first + 1) % 50) as int,
            1,
        ),
        Scenario::FullFillSameLevel => {
            &&& cmds.len() == depth + 1
            &&& forall|k: int| 0 <= k < depth ==> places_limit(#[trigger] cmds[k], id(k), symbol, Side::Sell, TimeInForce::GTC, 100, 1)
            &&& places_limit(cmds[depth as int], id(depth as int), symbol, Side::Buy, TimeInForce::IOC, 100, depth as int)
        },
        Scenario::MarketQuoteSweep => {
            &&& cmds.len() == depth + 1
            &&& forall|k: int|
                0 <= k < depth ==> places_limit(#[trigger] cmds[k], id(k), symbol, Side::Sell, TimeInForce::GTC, sweep_price(k), 1)
            &&& places_market_quote_buy(cmds[depth as int], id(depth as int), symbol, sweep_quote(depth))
        },
        Scenario::PartialFillRest => {
            &&& cmds.len() == depth + 1
            &&& forall|k: int| 0 <= k < depth ==> places_limit(#[trigger] cmds[k], id(k), symbol, Side::Sell, TimeInForce::GTC, 100, 1)
            &&& places_limit(cmds[depth as int], id(depth as int), symbol, Side::Buy, TimeInForce::GTC, 100, (depth + 1) as int)
        },
        Scenario::CancelRestingOrder => {
            &&& cmds.len() == 2 * depth
            &&& forall|k: int| 0 <= k < depth ==> places_limit(#[trigger] cmds[k], id(k), symbol, Side::Buy, TimeInForce::GTC, 10_000, 1)
            &&& forall|k: int| 0 <= k < depth ==> cancels(#[trigger] cmds[depth + k], id(k))
        },
        Scenario::AmendDecreaseQty => {
            &&& cmds.len() == 3
            &&& places_limit(cmds[0], id(0), symbol, Side::Buy, TimeInForce::GTC, 10_000, 2)
            &&& amends(cmds[1], id(0), 10_000, 1)
            &&& cancels(cmds[2], id(0))
        },
        Scenario::AmendPriceChange => {
            &&& cmds.len() == 3
            &&& places_limit(cmds[0], id(0), symbol, Side::Buy, TimeInForce::GTC, 10_000, 1)
            &&& amends(cmds[1], id(0), 10_001, 1)
            &&& cancels(cmds[2], id(0))
        },
    }
}

/// A new limit order of the workload.
fn make_limit_order(order_id: u128, symbol: &str, side: Side, tif: TimeInForce, price: i64, qty: i64) -> (o: Order)
    ensures
        fresh_order(o, order_id, symbol@, side, OrderType::Limit, tif),
        o.price == Some(whole(price as int)),
        o.size == OrderSize::Base(whole(qty as int)),
        o.wf(),
{
    Order {
        order_id,
        symbol: String::from_str(symbol),
        side,
        order_type: OrderType::Limit,
        tif,
        price: Some(Dec::new(price, 0)),
        size: OrderSize::Base(Dec::new(qty, 0)),
        executed_base_qty: Dec::zero(),
        executed_quote_qty: Dec::zero(),
        status: OrderStatus::New,
        created_at: 0,
        updated_at: 0,
    }
}

/// A new market buy of the workload, spending `quote`.
fn make_market_quote_buy_order(order_id: u128, symbol: &str, quote: i64) -> (o: Order)
    ensures
        fresh_order(o, order_id, symbol@, Side::Buy, OrderType::Market, TimeInForce::IOC),
        o.price is None,
        o.size == OrderSize::Quote(whole(quote as int)),
        o.wf(),
{
    Order {
        order_id,
        symbol: String::from_str(symbol),
        side: Side::Buy,
        order_type: OrderType::Market,
        tif: TimeInForce::IOC,
        price: None,
        size: OrderSize::Quote(Dec::new(quote, 0)),
        executed_base_qty: Dec::zero(),
        executed_quote_qty: Dec::zero(),
        status: OrderStatus::New,
        created_at: 0,
        updated_at: 0,
    }
}

/// Numbers the orders of successive workloads 1, 2, 3, ...
#[derive(Debug, Default)]
pub struct WorkloadGenerator {
    next_order_no: usize,
}

impl WorkloadGenerator {
    /// The number of the last order id handed out (0 before any).
    pub closed spec fn issued(&self) -> nat {
        self.next_order_no as nat
    }

    /// The number of the last order id handed out (0 before any).
    pub fn issued_ids(&self) -> (r: usize)
        ensures
            r == self.issued(),
    {
        self.next_order_no
    }

    pub fn new() -> (g: WorkloadGenerator)
        ensures
            g.issued() == 0,
    {
        WorkloadGenerator { next_order_no: 0 }
    }

    /// Whether the next workload of `scenario` with `sweep_depth` makers can be made.
    pub fn can_make(&self, scenario: Scenario, sweep_depth: usize) -> (b: bool)
        ensures
            b == workload_fits(self.issued(), scenario, sweep_depth as nat),
    {
        let ids_fit = match scenario {
            Scenario::CancelMissing | Scenario::PlaceRestingLimit | Scenario::AmendDecreaseQty
            | Scenario::AmendPriceChange => self.next_order_no < usize::MAX,
            Scenario::CancelRestingOrder => self.next_order_no <= usize::MAX - sweep_depth,
            _ => sweep_depth < usize::MAX && self.next_order_no <= usize::MAX - (sweep_depth + 1),
        };
        if !ids_fit {
            return false;
        }
        match scenario {
            Scenario::MarketQuoteSweep => sweep_quote_fits(sweep_depth),
            Scenario::FullFillSameLevel => (sweep_depth as u64) <= (i64::MAX as u64),
            Scenario::PartialFillRest => (sweep_depth as u64) < (i64::MAX as u64),
            _ => true,
        }
    }

    /// The commands of the next workload of `scenario` on `symbol`; its orders take the
    /// next unused ids.
    pub fn make_workload(&mut self, scenario: Scenario, sweep_depth: usize, symbol: &str) -> (r: Vec<EngineCommand>)
        requires
            workload_fits(old(self).issued(), scenario, sweep_depth as nat),
        ensures
            is_workload(r@, scenario, sweep_depth as nat, symbol@, old(self).issued()),
            final(self).issued() == old(self).issued() + ids_used(scenario, sweep_depth as nat),
    {
        let first = self.next_order_no;
        let mut commands: Vec<EngineCommand> = Vec::new();
        match scenario {
            Scenario::CancelMissing => {
                self.next_order_no = first + 1;
                commands.push(EngineCommand::generated_cancel(self.next_order_no as u128));
            },
            Scenario::PlaceRestingLimit => {
                self.next_order_no = first + 1;
                let price = 10_000 + (self.next_order_no % 50) as i64;
                commands.push(
                    EngineCommand::generated_place(
                        make_limit_order(self.next_order_no as u128, symbol, Side::Buy, TimeInForce::GTC, price, 1),
                    ),
                );
            },
            Scenario::FullFillSameLevel | Scenario::PartialFillRest => {
                let mut k: usize = 0;
                while k < sweep_depth
                    invariant
                        0 <= k <= sweep_depth,
                        first + sweep_depth + 1 <= usize::MAX,
                        commands@.len() == k,
                        forall|j: int|
                            0 <= j < k ==> places_limit(#[trigger] commands@[j], (first + 1 + j) as u128, symbol@, Side::Sell, TimeInForce::GTC, 100, 1),
                    decreases sweep_depth - k,
                {
                    let order = make_limit_order((first + 1 + k) as u128, symbol, Side::Sell, TimeInForce::GTC, 100, 1);
                    commands.push(EngineCommand::generated_place(order));
                    k = k + 1;
                }
                let taker_id = (first + 1 + sweep_depth) as u128;
                let taker = if scenario == Scenario::FullFillSameLevel {
                    make_limit_order(taker_id, symbol, Side::Buy, TimeInForce::IOC, 100, sweep_depth as i64)
                } else {
                    make_limit_order(taker_id, symbol, Side::Buy, TimeInForce::GTC, 100, sweep_depth as i64 + 1)
                };
                commands.push(EngineCommand::generated_place(taker));
                self.next_order_no = first + sweep_depth + 1;
            },
            Scenario::MarketQuoteSweep => {
                let mut quote: i64 = 0;
                let mut k: usize = 0;
                while k < sweep_depth
                    invariant
                        0 <= k <= sweep_depth,
                        sweep_quote(sweep_depth as nat) <= i64::MAX,
                        first + sweep_depth + 1 <= usize::MAX,
                        commands@.len() == k,
                        quote == sweep_quote(k as nat),
                        0 <= quote,
                        forall|j: int|
                            0 <= j < k ==> places_limit(#[trigger] commands@[j], (first + 1 + j) as u128, symbol@, Side::Sell, TimeInForce::GTC, sweep_price(j), 1),
                    decreases sweep_depth - k,
                {
                    let price = 100 + (k % 50) as i64;
                    proof {
                        lemma_sweep_quote_grows((k + 1) as nat, sweep_depth as nat);
                    }
                    assert(sweep_quote((k + 1) as nat) == quote + price);
                    quote = quote + price;
                    let order = make_limit_order((first + 1 + k) as u128, symbol, Side::Sell, TimeInForce::GTC, price, 1);
                    commands.push(EngineCommand::generated_place(order));
                    k = k + 1;
                }
                let taker = make_market_quote_buy_order((first + 1 + sweep_depth) as u128, symbol, quote);
                commands.push(EngineCommand::generated_place(taker));
                self.next_order_no = first + sweep_depth + 1;
            },
            Scenario::CancelRestingOrder => {
                let mut k: usize = 0;
                while k < sweep_depth
                    invariant
                        0 <= k <= sweep_depth,
                        first + sweep_depth <= usize::MAX,
                        commands@.len() == k,
                        forall|j: int|
                            0 <= j < k ==> places_limit(#[trigger] commands@[j], (first + 1 + j) as u128, symbol@, Side::Buy, TimeInForce::GTC, 10_000, 1),
                    decreases sweep_depth - k,
                {
                    let order = make_limit_order((first + 1 + k) as u128, symbol, Side::Buy, TimeInForce::GTC, 10_000, 1);
                    commands.push(EngineCommand::generated_place(order));
                    k = k + 1;
                }
                let mut k: usize = 0;
                while k < sweep_depth
                    invariant
                        0 <= k <= sweep_depth,
                        first + sweep_depth <= usize::MAX,
                        commands@.len() == sweep_depth + k,
                        forall|j: int|
                            0 <= j < sweep_depth ==> places_limit(#[trigger] commands@[j], (first + 1 + j) as u128, symbol@, Side::Buy, TimeInForce::GTC, 10_000, 1),
                        forall|j: int| 0 <= j < k ==> cancels(#[trigger] commands@[sweep_depth + j], (first + 1 + j) as u128),
                    decreases sweep_depth - k,
                {
                    commands.push(EngineCommand::generated_cancel((first + 1 + k) as u128));
                    k = k + 1;
                }
                self.next_order_no = first + sweep_depth;
            },
            Scenario::AmendDecreaseQty | Scenario::AmendPriceChange => {
                self.next_order_no = first + 1;
                let order_id = self.next_order_no as u128;
                let (qty, new_price): (i64, i64) = if scenario == Scenario::AmendDecreaseQty {
                    (2, 10_000)
                } else {
                    (1, 10_001)
                };
                commands.push(
                    EngineCommand::generated_place(
                        make_limit_order(order_id, symbol, Side::Buy, TimeInForce::GTC, 10_000, qty),
                    ),
                );
                commands.push(
                    EngineCommand::new_amend(new_v7_id(), order_id, Some(Dec::new(new_price, 0)), Some(Dec::new(1, 0))),
                );
                commands.push(EngineCommand::generated_cancel(order_id));
            },
        }
        commands
    }
}


/// Every command of a workload is about an order numbered after `first` and no later than
/// `first` plus the ids the workload uses.
pub proof fn law_workload_ids_are_fresh(
    cmds: Seq<EngineCommand>,
    scenario: Scenario,
    depth: nat,
    symbol: Seq<char>,
    first: nat,
)
    requires
        is_workload(cmds, scenario, depth, symbol, first),
        first + ids_used(scenario, depth) <= usize::MAX,
    ensures
        forall|i: int|
            0 <= i < cmds.len() ==> first < (#[trigger] cmds[i]).spec_order_id() <= first + ids_used(
                scenario,
                depth,
            ),
{
    assert forall|i: int| 0 <= i < cmds.len() implies first < (#[trigger] cmds[i]).spec_order_id() <= first
        + ids_used(scenario, depth) by {
        if scenario == Scenario::CancelRestingOrder && i >= depth {
            let k = i - depth;
            assert(cmds[depth + k] == cmds[i]);
        }
    }
}

/// Workloads made one after another by the same generator share no order id.
pub proof fn law_successive_workloads_share_no_id(
    a: Seq<EngineCommand>,
    sa: Scenario,
    da: nat,
    b: Seq<EngineCommand>,
    sb: Scenario,
    db: nat,
    symbol_a: Seq<char>,
    symbol_b: Seq<char>,
    first: nat,
)
    requires
        is_workload(a, sa, da, symbol_a, first),
        is_workload(b, sb, db, symbol_b, first + ids_used(sa, da)),
        first + ids_used(sa, da) + ids_used(sb, db) <= usize::MAX,
    ensures
        forall|i: int, j: int|
            0 <= i < a.len() && 0 <= j < b.len() ==> (#[trigger] a[i]).spec_order_id() != (#[trigger] b[j]).spec_order_id(),
{
    law_workload_ids_are_fresh(a, sa, da, symbol_a, first);
    law_workload_ids_are_fresh(b, sb, db, symbol_b, first + ids_used(sa, da));
}

} // verus!
