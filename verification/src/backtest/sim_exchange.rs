//! A simulated exchange for backtesting. Market orders fill at once, with
//! slippage; limit, stop and take-profit orders wait until the market price
//! strictly crosses their price. Fees are charged on the filled notional.
use crate::common::time::{decimal_digits, now_ms, u64_text};
use crate::common::types::{OrderRequest, OrderResponse, OrderStatus, OrderType, Side, Symbol};
use crate::decimal::{
    add_ok, dadd, ddiv, difference_in_range, div_ok, dmul, dsub, mul_ok, product_in_range, quotient_in_range,
    sub_ok, sum_in_range, zero_dec, Dec,
};
use vstd::prelude::*;

verus! {

/// An order waiting on the simulated exchange.
#[derive(Debug)]
pub struct SimOrder {
    pub symbol: Symbol,
    pub side: Side,
    pub order_type: OrderType,
    pub price: Option<Dec>,
    pub quantity: Dec,
    pub stop_price: Option<Dec>,
    pub timestamp_ms: u64,
}

/// A waiting order as plain data.
pub struct SimOrderView {
    pub symbol: Seq<char>,
    pub side: Side,
    pub order_type: OrderType,
    pub price: Option<Dec>,
    pub quantity: Dec,
    pub stop_price: Option<Dec>,
    pub timestamp_ms: u64,
}

impl View for SimOrder {
    type V = SimOrderView;

    open spec fn view(&self) -> SimOrderView {
        SimOrderView {
            symbol: self.symbol@,
            side: self.side,
            order_type: self.order_type,
            price: self.price,
            quantity: self.quantity,
            stop_price: self.stop_price,
            timestamp_ms: self.timestamp_ms,
        }
    }
}

/// An open position on the simulated exchange.
#[derive(Debug)]
pub struct SimPosition {
    pub symbol: Symbol,
    pub side: Side,
    pub quantity: Dec,
    pub entry_price: Dec,
}

/// An open position as plain data.
pub struct SimPositionView {
    pub symbol: Seq<char>,
    pub side: Side,
    pub quantity: Dec,
    pub entry_price: Dec,
}

impl View for SimPosition {
    type V = SimPositionView;

    open spec fn view(&self) -> SimPositionView {
        SimPositionView {
            symbol: self.symbol@,
            side: self.side,
            quantity: self.quantity,
            entry_price: self.entry_price,
        }
    }
}

impl Clone for SimOrder {
    fn clone(&self) -> (r: Self)
        ensures
            r@ == self@,
    {
        SimOrder {
            symbol: self.symbol.clone(),
            side: self.side,
            order_type: self.order_type,
            price: self.price,
            quantity: self.quantity,
            stop_price: self.stop_price,
            timestamp_ms: self.timestamp_ms,
        }
    }
}

impl Clone for SimPosition {
    fn clone(&self) -> (r: Self)
        ensures
            r@ == self@,
    {
        SimPosition {
            symbol: self.symbol.clone(),
            side: self.side,
            quantity: self.quantity,
            entry_price: self.entry_price,
        }
    }
}

/// The positions as plain data.
pub open spec fn positions_view(ps: Seq<SimPosition>) -> Seq<SimPositionView> {
    ps.map_values(|p: SimPosition| p@)
}

/// The waiting orders as plain data.
pub open spec fn orders_view(os: Seq<SimOrder>) -> Seq<SimOrderView> {
    os.map_values(|o: SimOrder| o@)
}

/// Whether a position is on `symbol` and `side`.
pub open spec fn holds(p: SimPositionView, symbol: Seq<char>, side: Side) -> bool {
    p.symbol == symbol && p.side == side
}

/// The index of the first position on `symbol` and `side`, or -1.
pub open spec fn first_holding(ps: Seq<SimPositionView>, symbol: Seq<char>, side: Side) -> int {
    if exists|i: int| 0 <= i < ps.len() && holds(#[trigger] ps[i], symbol, side) {
        choose|i: int|
            0 <= i < ps.len() && holds(#[trigger] ps[i], symbol, side) && forall|j: int|
                0 <= j < i ==> !holds(#[trigger] ps[j], symbol, side)
    } else {
        -1
    }
}

/// A position averaged with a new fill of `quantity` at `price`: the
/// quantities add up and, when the total is not zero, the entry price
/// becomes the quantity-weighted average.
pub open spec fn averaged(p: SimPositionView, quantity: Dec, price: Dec) -> SimPositionView {
    let total = dadd(p.quantity, quantity);
    SimPositionView {
        quantity: total,
        entry_price: if total@ != 0 {
            ddiv(dadd(dmul(p.entry_price, p.quantity), dmul(price, quantity)), total)
        } else {
            p.entry_price
        },
        ..p
    }
}

/// The arithmetic of averaging stays within range.
pub open spec fn averaging_ok(p: SimPositionView, quantity: Dec, price: Dec) -> bool {
    let total = dadd(p.quantity, quantity);
    &&& add_ok(p.quantity, quantity)
    &&& total@ != 0 ==> {
        &&& mul_ok(p.entry_price, p.quantity)
        &&& mul_ok(price, quantity)
        &&& add_ok(dmul(p.entry_price, p.quantity), dmul(price, quantity))
        &&& div_ok(dadd(dmul(p.entry_price, p.quantity), dmul(price, quantity)), total)
    }
}

/// The positions after adding a fill: averaged into the first position on
/// the same symbol and side, or opened as a new position.
pub open spec fn position_added(
    ps: Seq<SimPositionView>,
    symbol: Seq<char>,
    side: Side,
    quantity: Dec,
    price: Dec,
) -> Seq<SimPositionView> {
    let i = first_holding(ps, symbol, side);
    if i >= 0 {
        ps.update(i, averaged(ps[i], quantity, price))
    } else {
        ps.push(SimPositionView { symbol, side, quantity, entry_price: price })
    }
}

/// Adding the fill stays within range.
pub open spec fn position_add_ok(
    ps: Seq<SimPositionView>,
    symbol: Seq<char>,
    side: Side,
    quantity: Dec,
    price: Dec,
) -> bool {
    let i = first_holding(ps, symbol, side);
    i >= 0 ==> averaging_ok(ps[i], quantity, price)
}

/// Whether a position survives closing `quantity` of `symbol`: positions
/// on other symbols stay, and those on the symbol stay only when larger.
pub open spec fn survives_close(p: SimPositionView, symbol: Seq<char>, quantity: Dec) -> bool {
    p.symbol != symbol || p.quantity@ > quantity@
}

/// The positions after closing `quantity` of `symbol`, in their order.
pub open spec fn position_closed(ps: Seq<SimPositionView>, symbol: Seq<char>, quantity: Dec) -> Seq<
    SimPositionView,
>
    decreases ps.len(),
{
    if ps.len() == 0 {
        ps
    } else {
        let rest = position_closed(ps.drop_last(), symbol, quantity);
        if survives_close(ps.last(), symbol, quantity) {
            rest.push(ps.last())
        } else {
            rest
        }
    }
}

/// The realized PnL of a fill: a sell against the first long position on
/// the symbol earns `(fill - entry) * quantity`, a buy against the first
/// short position earns `(entry - fill) * quantity`; otherwise zero.
pub open spec fn fill_pnl(ps: Seq<SimPositionView>, symbol: Seq<char>, side: Side, quantity: Dec, fill: Dec) -> Dec {
    let other = match side {
        Side::Sell => Side::Buy,
        Side::Buy => Side::Sell,
    };
    let i = first_holding(ps, symbol, other);
    if i >= 0 {
        match side {
            Side::Sell => dmul(dsub(fill, ps[i].entry_price), quantity),
            Side::Buy => dmul(dsub(ps[i].entry_price, fill), quantity),
        }
    } else {
        zero_dec()
    }
}

/// The PnL arithmetic stays within range.
pub open spec fn fill_pnl_ok(ps: Seq<SimPositionView>, symbol: Seq<char>, side: Side, quantity: Dec, fill: Dec) -> bool {
    let other = match side {
        Side::Sell => Side::Buy,
        Side::Buy => Side::Sell,
    };
    let i = first_holding(ps, symbol, other);
    i >= 0 ==> match side {
        Side::Sell => sub_ok(fill, ps[i].entry_price) && mul_ok(dsub(fill, ps[i].entry_price), quantity),
        Side::Buy => sub_ok(ps[i].entry_price, fill) && mul_ok(dsub(ps[i].entry_price, fill), quantity),
    }
}

/// The index of the first position on `symbol` and `side`.
fn find_holding(ps: &Vec<SimPosition>, symbol: &Symbol, side: Side) -> (r: Option<usize>)
    ensures
        match r {
            Some(i) => i as int == first_holding(positions_view(ps@), symbol@, side) && i < ps@.len(),
            None => first_holding(positions_view(ps@), symbol@, side) == -1,
        },
{
    let ghost v = positions_view(ps@);
    let mut i: usize = 0;
    while i < ps.len()
        invariant
            v == positions_view(ps@),
            i <= ps@.len(),
            forall|j: int| 0 <= j < i ==> !holds(#[trigger] v[j], symbol@, side),
        decreases ps@.len() - i,
    {
        if ps[i].symbol == *symbol && ps[i].side == side {
            proof {
                assert(holds(v[i as int], symbol@, side));
                let c = first_holding(v, symbol@, side);
                assert(0 <= c < v.len() && holds(v[c], symbol@, side) && forall|j: int|
                    0 <= j < c ==> !holds(#[trigger] v[j], symbol@, side));
                if c < i {
                    assert(!holds(v[c], symbol@, side));
                }
                if c > i {
                    assert(!holds(v[i as int], symbol@, side));
                }
            }
            return Some(i);
        }
        i = i + 1;
    }
    None
}

/// Survivors of closing `quantity` of `symbol`, in their order.
fn positions_after_close(ps: &Vec<SimPosition>, symbol: &Symbol, quantity: Dec) -> (r: Vec<SimPosition>)
    ensures
        positions_view(r@) == position_closed(positions_view(ps@), symbol@, quantity),
{
    let ghost v = positions_view(ps@);
    let mut out: Vec<SimPosition> = Vec::new();
    let mut i: usize = 0;
    assert(v.take(0) =~= Seq::<SimPositionView>::empty());
    while i < ps.len()
        invariant
            v == positions_view(ps@),
            i <= ps@.len(),
            positions_view(out@) == position_closed(v.take(i as int), symbol@, quantity),
        decreases ps@.len() - i,
    {
        proof {
            assert(v.take(i + 1).drop_last() =~= v.take(i as int));
            assert(v.take(i + 1).last() == ps@[i as int]@);
        }
        let keep = !(ps[i].symbol == *symbol) || quantity.lt(&ps[i].quantity);
        if keep {
            let p = ps[i].clone();
            out.push(p);
            proof {
                assert(positions_view(out@) =~= position_closed(v.take(i as int), symbol@, quantity).push(p@));
            }
        }
        i = i + 1;
    }
    assert(v.take(ps@.len() as int) =~= v);
    out
}

/// The exchange's state as plain data.
pub struct SimState {
    pub balance: Dec,
    pub fee_rate: Dec,
    pub current_price: Dec,
    pub orders: Seq<SimOrderView>,
    pub positions: Seq<SimPositionView>,
    pub next_order_id: u64,
    pub slippage: Dec,
}

/// The price at which a market order fills: the given price moved against
/// the taker by the slippage.
pub open spec fn market_fill_price(side: Side, price: Dec, slippage: Dec) -> Dec {
    match side {
        Side::Buy => dadd(price, slippage),
        Side::Sell => dsub(price, slippage),
    }
}

/// The fee of a fill: quantity times price times the fee rate.
pub open spec fn fill_fee(quantity: Dec, price: Dec, fee_rate: Dec) -> Dec {
    dmul(dmul(quantity, price), fee_rate)
}

/// Cash and positions after a fill: a buy pays the notional plus the fee
/// and adds to the long position; a sell receives the notional less the fee
/// and closes positions on the symbol.
pub open spec fn after_fill(
    balance: Dec,
    ps: Seq<SimPositionView>,
    symbol: Seq<char>,
    side: Side,
    quantity: Dec,
    price: Dec,
    fee: Dec,
) -> (Dec, Seq<SimPositionView>) {
    match side {
        Side::Buy => (
            dsub(balance, dadd(dmul(quantity, price), fee)),
            position_added(ps, symbol, Side::Buy, quantity, price),
        ),
        Side::Sell => (
            dadd(balance, dsub(dmul(quantity, price), fee)),
            position_closed(ps, symbol, quantity),
        ),
    }
}

/// The arithmetic of a fill stays within range.
pub open spec fn fill_ok(
    balance: Dec,
    ps: Seq<SimPositionView>,
    symbol: Seq<char>,
    side: Side,
    quantity: Dec,
    price: Dec,
    fee: Dec,
) -> bool {
    &&& mul_ok(quantity, price)
    &&& match side {
        Side::Buy => {
            &&& add_ok(dmul(quantity, price), fee)
            &&& sub_ok(balance, dadd(dmul(quantity, price), fee))
            &&& position_add_ok(ps, symbol, Side::Buy, quantity, price)
        },
        Side::Sell => {
            &&& sub_ok(dmul(quantity, price), fee)
            &&& add_ok(balance, dsub(dmul(quantity, price), fee))
        },
    }
}

/// The fee arithmetic stays within range.
pub open spec fn fee_ok(quantity: Dec, price: Dec, fee_rate: Dec) -> bool {
    mul_ok(quantity, price) && mul_ok(dmul(quantity, price), fee_rate)
}

/// The text of the `n`-th order id: `sim_` and the number.
pub open spec fn sim_order_id(n: u64) -> Seq<char> {
    "sim_"@ + decimal_digits(n as nat)
}

/// The order a request leaves waiting: limit orders keep their price,
/// stop and take-profit orders have none.
pub open spec fn waiting_order(req: OrderRequest, now: u64) -> SimOrderView {
    SimOrderView {
        symbol: req.symbol@,
        side: req.side,
        order_type: req.order_type,
        price: match req.order_type {
            OrderType::Limit => req.price,
            _ => None,
        },
        quantity: req.quantity,
        stop_price: req.stop_price,
        timestamp_ms: now,
    }
}

/// A request can be placed at `price` without overflow.
pub open spec fn placement_ok(s: SimState, req: OrderRequest, price: Dec) -> bool {
    &&& s.next_order_id < u64::MAX
    &&& req.order_type == OrderType::Market ==> {
        let fill = market_fill_price(req.side, price, s.slippage);
        &&& match req.side {
            Side::Buy => add_ok(price, s.slippage),
            Side::Sell => sub_ok(price, s.slippage),
        }
        &&& fee_ok(req.quantity, fill, s.fee_rate)
        &&& fill_ok(
            s.balance,
            s.positions,
            req.symbol@,
            req.side,
            req.quantity,
            fill,
            fill_fee(req.quantity, fill, s.fee_rate),
        )
    }
}

/// The state after placing a request at `price` and time `now`.
pub open spec fn placed(s: SimState, req: OrderRequest, price: Dec, now: u64) -> SimState {
    let s1 = SimState { next_order_id: (s.next_order_id + 1) as u64, ..s };
    match req.order_type {
        OrderType::Market => {
            let fill = market_fill_price(req.side, price, s.slippage);
            let (balance, positions) = after_fill(
                s.balance,
                s.positions,
                req.symbol@,
                req.side,
                req.quantity,
                fill,
                fill_fee(req.quantity, fill, s.fee_rate),
            );
            SimState { balance, positions, ..s1 }
        },
        _ => SimState { orders: s.orders.push(waiting_order(req, now)), ..s1 },
    }
}

/// Whether the answer to placing `req` at `price` and time `now` is right:
/// the order id, the request's fields, and for a market order the fill price
/// and the status `Filled`; otherwise the waiting order's price and `New`.
pub open spec fn placement_answer(
    s: SimState,
    req: OrderRequest,
    price: Dec,
    now: u64,
    r: OrderResponse,
) -> bool {
    &&& r.order_id@ == sim_order_id(s.next_order_id)
    &&& r.client_order_id@ == Seq::<char>::empty()
    &&& r.symbol@ == req.symbol@
    &&& r.side == req.side
    &&& r.order_type == req.order_type
    &&& r.quantity == req.quantity
    &&& r.timestamp_ms == now
    &&& match req.order_type {
        OrderType::Market => r.price == Some(market_fill_price(req.side, price, s.slippage))
            && r.status == OrderStatus::Filled,
        _ => r.price == waiting_order(req, now).price && r.status == OrderStatus::New,
    }
}

/// Whether a waiting order fills at market price `m`: a limit order when the
/// price strictly crosses its limit, a stop order when it strictly passes
/// the stop against the order's side, a take-profit order when it strictly
/// passes the stop in the order's favour.
pub open spec fn should_fill(o: SimOrderView, m: Dec) -> bool {
    match o.order_type {
        OrderType::Limit => match o.price {
            Some(p) => match o.side {
                Side::Buy => m@ < p@,
                Side::Sell => m@ > p@,
            },
            None => false,
        },
        OrderType::StopMarket => match o.stop_price {
            Some(p) => match o.side {
                Side::Buy => m@ > p@,
                Side::Sell => m@ < p@,
            },
            None => false,
        },
        OrderType::TakeProfitMarket => match o.stop_price {
            Some(p) => match o.side {
                Side::Buy => m@ < p@,
                Side::Sell => m@ > p@,
            },
            None => false,
        },
        OrderType::Market => false,
    }
}

/// A fill to apply: symbol, side, quantity, fill price and fee.
pub struct FillPlan {
    pub symbol: Seq<char>,
    pub side: Side,
    pub quantity: Dec,
    pub price: Dec,
    pub fee: Dec,
}

/// The price at which a waiting order fills: its limit for a limit order,
/// the market price otherwise.
pub open spec fn order_fill_price(o: SimOrderView, m: Dec) -> Dec {
    match o.order_type {
        OrderType::Limit => match o.price {
            Some(p) => p,
            None => m,
        },
        _ => m,
    }
}

/// The fill of a waiting order at market price `m`.
pub open spec fn fill_plan(o: SimOrderView, m: Dec, fee_rate: Dec) -> FillPlan {
    FillPlan {
        symbol: o.symbol,
        side: o.side,
        quantity: o.quantity,
        price: order_fill_price(o, m),
        fee: fill_fee(o.quantity, order_fill_price(o, m), fee_rate),
    }
}

/// The fills of the orders that fill at `m`, in order.
pub open spec fn planned_fills(os: Seq<SimOrderView>, m: Dec, fee_rate: Dec) -> Seq<FillPlan>
    decreases os.len(),
{
    if os.len() == 0 {
        Seq::empty()
    } else {
        let rest = planned_fills(os.drop_last(), m, fee_rate);
        if should_fill(os.last(), m) {
            rest.push(fill_plan(os.last(), m, fee_rate))
        } else {
            rest
        }
    }
}

/// The orders that keep waiting at `m`, in order.
pub open spec fn unfilled(os: Seq<SimOrderView>, m: Dec) -> Seq<SimOrderView>
    decreases os.len(),
{
    if os.len() == 0 {
        os
    } else {
        let rest = unfilled(os.drop_last(), m);
        if should_fill(os.last(), m) {
            rest
        } else {
            rest.push(os.last())
        }
    }
}

/// The fee of every order that fills at `m` stays within range.
pub open spec fn fees_ok(os: Seq<SimOrderView>, m: Dec, fee_rate: Dec) -> bool {
    forall|i: int|
        0 <= i < os.len() && should_fill(#[trigger] os[i], m) ==> fee_ok(
            os[i].quantity,
            order_fill_price(os[i], m),
            fee_rate,
        )
}

/// Cash and positions after applying `fills` in order.
pub open spec fn applied(balance: Dec, ps: Seq<SimPositionView>, fills: Seq<FillPlan>) -> (Dec, Seq<SimPositionView>)
    decreases fills.len(),
{
    if fills.len() == 0 {
        (balance, ps)
    } else {
        let (b, p) = applied(balance, ps, fills.drop_last());
        let f = fills.last();
        after_fill(b, p, f.symbol, f.side, f.quantity, f.price, f.fee)
    }
}

/// The (pnl, fee) of each fill, the PnL taken against the positions as they
/// stand just before it.
pub open spec fn fill_outcomes(balance: Dec, ps: Seq<SimPositionView>, fills: Seq<FillPlan>) -> Seq<(Dec, Dec)>
    decreases fills.len(),
{
    if fills.len() == 0 {
        Seq::empty()
    } else {
        let (b, p) = applied(balance, ps, fills.drop_last());
        let f = fills.last();
        fill_outcomes(balance, ps, fills.drop_last()).push(
            (fill_pnl(p, f.symbol, f.side, f.quantity, f.price), f.fee),
        )
    }
}

/// Applying `fills` in order stays within range.
pub open spec fn fills_fit(balance: Dec, ps: Seq<SimPositionView>, fills: Seq<FillPlan>) -> bool
    decreases fills.len(),
{
    if fills.len() == 0 {
        true
    } else {
        let (b, p) = applied(balance, ps, fills.drop_last());
        let f = fills.last();
        &&& fills_fit(balance, ps, fills.drop_last())
        &&& fill_pnl_ok(p, f.symbol, f.side, f.quantity, f.price)
        &&& fill_ok(b, p, f.symbol, f.side, f.quantity, f.price, f.fee)
    }
}

proof fn lemma_fills_fit_prefix(balance: Dec, ps: Seq<SimPositionView>, fills: Seq<FillPlan>, k: int)
    requires
        fills_fit(balance, ps, fills),
        0 <= k <= fills.len(),
    ensures
        fills_fit(balance, ps, fills.take(k)),
    decreases fills.len() - k,
{
    if k == fills.len() {
        assert(fills.take(k) =~= fills);
    } else {
        lemma_fills_fit_prefix(balance, ps, fills, k + 1);
        assert(fills.take(k + 1).drop_last() =~= fills.take(k));
    }
}

/// When a waiting order fills at market price `m`, by type and side: a
/// limit buy once the price falls below its limit and a limit sell once it
/// rises above; a stop-market buy once the price rises above its stop and a
/// stop-market sell once it falls below; a take-profit buy once the price
/// falls below its stop and a take-profit sell once it rises above. An order
/// missing the price it waits on, and a market order, never fill here.
pub proof fn lemma_when_orders_fill(o: SimOrderView, m: Dec)
    ensures
        o.order_type == OrderType::Limit && o.price is Some ==> (should_fill(o, m) <==> match o.side {
            Side::Buy => m@ < o.price.unwrap()@,
            Side::Sell => m@ > o.price.unwrap()@,
        }),
        o.order_type == OrderType::StopMarket && o.stop_price is Some ==> (should_fill(o, m) <==> match o.side {
            Side::Buy => m@ > o.stop_price.unwrap()@,
            Side::Sell => m@ < o.stop_price.unwrap()@,
        }),
        o.order_type == OrderType::TakeProfitMarket && o.stop_price is Some ==> (should_fill(o, m) <==> match o.side {
            Side::Buy => m@ < o.stop_price.unwrap()@,
            Side::Sell => m@ > o.stop_price.unwrap()@,
        }),
        o.order_type == OrderType::Limit && o.price is None ==> !should_fill(o, m),
        o.order_type != OrderType::Limit && o.stop_price is None ==> !should_fill(o, m),
        o.order_type == OrderType::Market ==> !should_fill(o, m),
{
}

/// What a fill costs: a limit order fills at its own limit price, a stop
/// or take-profit order at the market price that triggered it, and the fee
/// is the quantity times the fill price times the fee rate.
pub proof fn lemma_fill_price_and_fee(o: SimOrderView, m: Dec, fee_rate: Dec)
    ensures
        o.order_type == OrderType::Limit && o.price is Some ==> fill_plan(o, m, fee_rate).price == o.price.unwrap(),
        o.order_type == OrderType::StopMarket || o.order_type == OrderType::TakeProfitMarket ==> fill_plan(
            o,
            m,
            fee_rate,
        ).price == m,
        fill_plan(o, m, fee_rate).fee == dmul(dmul(o.quantity, fill_plan(o, m, fee_rate).price), fee_rate),
        fill_plan(o, m, fee_rate).quantity == o.quantity && fill_plan(o, m, fee_rate).side == o.side
            && fill_plan(o, m, fee_rate).symbol == o.symbol,
{
}

/// A buy stop never fills at or below its stop and a sell stop never at or
/// above it: of two market prices on the same side of the stop, both fill or
/// neither does, and a stop buy that fills at `m` also fills at any higher
/// price (a stop sell at any lower one).
pub proof fn lemma_stop_fills_monotone(o: SimOrderView, m1: Dec, m2: Dec)
    requires
        o.order_type == OrderType::StopMarket,
    ensures
        o.side == Side::Buy && m1@ <= m2@ && should_fill(o, m1) ==> should_fill(o, m2),
        o.side == Side::Sell && m2@ <= m1@ && should_fill(o, m1) ==> should_fill(o, m2),
        o.stop_price is Some && o.side == Side::Buy && m1@ <= o.stop_price.unwrap()@ ==> !should_fill(o, m1),
        o.stop_price is Some && o.side == Side::Sell && m1@ >= o.stop_price.unwrap()@ ==> !should_fill(o, m1),
{
}

/// An order that does not fill at `m` keeps waiting, and an order that
/// fills gives a fill.
pub proof fn lemma_unfilled_keeps_waiting(os: Seq<SimOrderView>, m: Dec, fee_rate: Dec, i: int)
    requires
        0 <= i < os.len(),
    ensures
        !should_fill(os[i], m) ==> unfilled(os, m).contains(os[i]),
        should_fill(os[i], m) ==> planned_fills(os, m, fee_rate).len() >= 1,
    decreases os.len(),
{
    let last = os.len() - 1;
    if i < last {
        lemma_unfilled_keeps_waiting(os.drop_last(), m, fee_rate, i);
        assert(os.drop_last()[i] == os[i]);
        if !should_fill(os[i], m) {
            let rest = unfilled(os.drop_last(), m);
            let k = choose|k: int| 0 <= k < rest.len() && rest[k] == os[i];
            if !should_fill(os.last(), m) {
                assert(unfilled(os, m)[k] == os[i]);
            }
        }
    } else {
        if !should_fill(os[i], m) {
            assert(unfilled(os, m).last() == os[i]);
        }
    }
}

/// A waiting order does not fill when the market price only touches its
/// price: limit orders fill when the price crosses their limit, stop and
/// take-profit orders when it passes their stop.
pub proof fn lemma_touch_does_not_fill(o: SimOrderView, m: Dec)
    requires
        o.order_type == OrderType::Limit ==> (o.price matches Some(p) && p@ == m@),
        o.order_type != OrderType::Limit ==> (o.stop_price matches Some(p) && p@ == m@),
    ensures
        !should_fill(o, m),
{
}

/// Checking fills splits the waiting orders: each either fills or keeps
/// waiting, and those that keep waiting do not fill at that price.
pub proof fn lemma_fills_partition(os: Seq<SimOrderView>, m: Dec, fee_rate: Dec)
    ensures
        planned_fills(os, m, fee_rate).len() + unfilled(os, m).len() == os.len(),
        forall|i: int|
            0 <= i < unfilled(os, m).len() ==> !should_fill(#[trigger] unfilled(os, m)[i], m),
    decreases os.len(),
{
    if os.len() > 0 {
        lemma_fills_partition(os.drop_last(), m, fee_rate);
    }
}

/// Order ids never repeat: different sequence numbers give different ids,
/// and every placement moves to the next number.
pub proof fn lemma_order_ids_distinct(s: SimState, req: OrderRequest, price: Dec, now: u64, a: u64, b: u64)
    requires
        a != b,
        s.next_order_id < u64::MAX,
    ensures
        sim_order_id(a) != sim_order_id(b),
        placed(s, req, price, now).next_order_id == s.next_order_id + 1,
{
    if sim_order_id(a) == sim_order_id(b) {
        let p = "sim_"@;
        assert(sim_order_id(a).subrange(p.len() as int, sim_order_id(a).len() as int) =~= decimal_digits(
            a as nat,
        ));
        assert(sim_order_id(b).subrange(p.len() as int, sim_order_id(b).len() as int) =~= decimal_digits(
            b as nat,
        ));
        crate::common::time::lemma_decimal_digits_injective(a as nat, b as nat);
    }
}

/// A fill waiting to be applied.
struct FillInfo {
    symbol: Symbol,
    side: Side,
    quantity: Dec,
    fill_price: Dec,
    fee: Dec,
}

impl View for FillInfo {
    type V = FillPlan;

    closed spec fn view(&self) -> FillPlan {
        FillPlan {
            symbol: self.symbol@,
            side: self.side,
            quantity: self.quantity,
            price: self.fill_price,
            fee: self.fee,
        }
    }
}

fn order_should_fill(o: &SimOrder, m: Dec) -> (r: bool)
    ensures
        r == should_fill(o@, m),
{
    match o.order_type {
        OrderType::Limit => match o.price {
            Some(p) => match o.side {
                Side::Buy => m.lt(&p),
                Side::Sell => p.lt(&m),
            },
            None => false,
        },
        OrderType::StopMarket => match o.stop_price {
            Some(p) => match o.side {
                Side::Buy => p.lt(&m),
                Side::Sell => m.lt(&p),
            },
            None => false,
        },
        OrderType::TakeProfitMarket => match o.stop_price {
            Some(p) => match o.side {
                Side::Buy => m.lt(&p),
                Side::Sell => p.lt(&m),
            },
            None => false,
        },
        OrderType::Market => false,
    }
}

/// A simulated exchange: cash balance, waiting orders and open positions.
pub struct SimulatedExchange {
    balance: Dec,
    fee_rate: Dec,
    current_price: Dec,
    open_orders: Vec<SimOrder>,
    positions: Vec<SimPosition>,
    next_order_id: u64,
    /// Slippage for market orders, in price units.
    slippage_ticks: Dec,
}

impl SimulatedExchange {
    pub closed spec fn state(&self) -> SimState {
        SimState {
            balance: self.balance,
            fee_rate: self.fee_rate,
            current_price: self.current_price,
            orders: orders_view(self.open_orders@),
            positions: positions_view(self.positions@),
            next_order_id: self.next_order_id,
            slippage: self.slippage_ticks,
        }
    }

    /// A new exchange with `initial_balance` in cash, no orders and no
    /// positions; slippage starts at 0.1 and order ids at 1.
    pub fn new(initial_balance: Dec, fee_rate: Dec) -> (r: Self)
        ensures
            r.state().balance == initial_balance,
            r.state().fee_rate == fee_rate,
            r.state().current_price == zero_dec(),
            r.state().orders == Seq::<SimOrderView>::empty(),
            r.state().positions == Seq::<SimPositionView>::empty(),
            r.state().next_order_id == 1,
            r.state().slippage.mant() == 1 && r.state().slippage.scl() == 1,
    {
        let slippage = Dec::new(1, 1);
        SimulatedExchange {
            balance: initial_balance,
            fee_rate,
            current_price: Dec::zero(),
            open_orders: Vec::new(),
            positions: Vec::new(),
            next_order_id: 1,
            slippage_ticks: slippage,
        }
    }

    /// Sets the slippage of market orders, in price units.
    pub fn set_slippage(&mut self, slippage: Dec)
        ensures
            final(self).state() == (SimState { slippage, ..old(self).state() }),
    {
        self.slippage_ticks = slippage;
    }

    /// Sets the current market price.
    pub fn update_price(&mut self, price: Dec)
        ensures
            final(self).state() == (SimState { current_price: price, ..old(self).state() }),
    {
        self.current_price = price;
    }

    /// The current market price.
    pub fn current_price(&self) -> (r: Dec)
        ensures
            r == self.state().current_price,
    {
        self.current_price
    }

    /// The number of open positions.
    pub fn open_position_count(&self) -> (r: usize)
        ensures
            r == self.state().positions.len(),
    {
        self.positions.len()
    }

    /// The cash balance (without unrealized PnL).
    pub fn balance(&self) -> (r: Dec)
        ensures
            r == self.state().balance,
    {
        self.balance
    }

    /// Places an order at time `now` (ms): a market order fills at once at
    /// `current_price` moved by the slippage and pays the fee; other orders
    /// wait. Order ids are `sim_1`, `sim_2`, ...
    pub fn place_order_at(&mut self, req: OrderRequest, current_price: Dec, now: u64) -> (r:
        OrderResponse)
        requires
            placement_ok(old(self).state(), req, current_price),
        ensures
            final(self).state() == placed(old(self).state(), req, current_price, now),
            placement_answer(old(self).state(), req, current_price, now, r),
    {
        let ghost s0 = self.state();
        let mut order_id = String::from_str("sim_");
        let digits = u64_text(self.next_order_id);
        order_id.append(digits.as_str());
        self.next_order_id = self.next_order_id + 1;
        match req.order_type {
            OrderType::Market => {
                let fill_price = match req.side {
                    Side::Buy => current_price.plus(&self.slippage_ticks),
                    Side::Sell => current_price.minus(&self.slippage_ticks),
                };
                let notional = req.quantity.times(&fill_price);
                let fee = notional.times(&self.fee_rate);
                match req.side {
                    Side::Buy => {
                        let cost = notional.plus(&fee);
                        self.balance = self.balance.minus(&cost);
                        self.add_position(req.symbol.clone(), Side::Buy, req.quantity, fill_price);
                    },
                    Side::Sell => {
                        let proceeds = notional.minus(&fee);
                        self.balance = self.balance.plus(&proceeds);
                        self.close_position(&req.symbol, req.quantity);
                    },
                }
                OrderResponse {
                    order_id,
                    client_order_id: String::new(),
                    symbol: req.symbol,
                    side: req.side,
                    order_type: req.order_type,
                    quantity: req.quantity,
                    price: Some(fill_price),
                    status: OrderStatus::Filled,
                    timestamp_ms: now,
                }
            },
            OrderType::Limit => {
                let order = SimOrder {
                    symbol: req.symbol.clone(),
                    side: req.side,
                    order_type: req.order_type,
                    price: req.price,
                    quantity: req.quantity,
                    stop_price: req.stop_price,
                    timestamp_ms: now,
                };
                self.open_orders.push(order);
                proof {
                    assert(orders_view(self.open_orders@) =~= s0.orders.push(waiting_order(req, now)));
                }
                OrderResponse {
                    order_id,
                    client_order_id: String::new(),
                    symbol: req.symbol,
                    side: req.side,
                    order_type: req.order_type,
                    quantity: req.quantity,
                    price: req.price,
                    status: OrderStatus::New,
                    timestamp_ms: now,
                }
            },
            _ => {
                let order = SimOrder {
                    symbol: req.symbol.clone(),
                    side: req.side,
                    order_type: req.order_type,
                    price: None,
                    quantity: req.quantity,
                    stop_price: req.stop_price,
                    timestamp_ms: now,
                };
                self.open_orders.push(order);
                proof {
                    assert(orders_view(self.open_orders@) =~= s0.orders.push(waiting_order(req, now)));
                }
                OrderResponse {
                    order_id,
                    client_order_id: String::new(),
                    symbol: req.symbol,
                    side: req.side,
                    order_type: req.order_type,
                    quantity: req.quantity,
                    price: None,
                    status: OrderStatus::New,
                    timestamp_ms: now,
                }
            },
        }
    }

    /// Places an order, stamped with the current time.
    pub fn place_order(&mut self, req: OrderRequest, current_price: Dec) -> (r: OrderResponse)
        requires
            placement_ok(old(self).state(), req, current_price),
        ensures
            exists|now: u64|
                #[trigger] placed(old(self).state(), req, current_price, now) == final(self).state()
                    && placement_answer(old(self).state(), req, current_price, now, r),
    {
        let now = now_ms();
        self.place_order_at(req, current_price, now)
    }

    /// Fills the waiting orders that the market price crosses, in order,
    /// and returns the (pnl, fee) of each fill; the filled orders stop
    /// waiting.
    pub fn check_fills(&mut self, market_price: Dec) -> (r: Vec<(Dec, Dec)>)
        requires
            fees_ok(old(self).state().orders, market_price, old(self).state().fee_rate),
            fills_fit(
                old(self).state().balance,
                old(self).state().positions,
                planned_fills(old(self).state().orders, market_price, old(self).state().fee_rate),
            ),
        ensures
            ({
                let s = old(self).state();
                let fills = planned_fills(s.orders, market_price, s.fee_rate);
                &&& final(self).state() == (SimState {
                    balance: applied(s.balance, s.positions, fills).0,
                    positions: applied(s.balance, s.positions, fills).1,
                    orders: unfilled(s.orders, market_price),
                    ..s
                })
                &&& r@ == fill_outcomes(s.balance, s.positions, fills)
            }),
    {
        let ghost s0 = self.state();
        let ghost os = s0.orders;
        let mut fills: Vec<FillInfo> = Vec::new();
        let mut kept: Vec<SimOrder> = Vec::new();
        let mut i: usize = 0;
        assert(os.take(0) =~= Seq::<SimOrderView>::empty());
        while i < self.open_orders.len()
            invariant
                self.state() == s0,
                os == orders_view(self.open_orders@),
                fees_ok(os, market_price, s0.fee_rate),
                i <= os.len(),
                fills@.map_values(|f: FillInfo| f@) == planned_fills(os.take(i as int), market_price, s0.fee_rate),
                orders_view(kept@) == unfilled(os.take(i as int), market_price),
            decreases os.len() - i,
        {
            proof {
                assert(os.take(i + 1).drop_last() =~= os.take(i as int));
                assert(os.take(i + 1).last() == os[i as int]);
            }
            let order = &self.open_orders[i];
            if order_should_fill(order, market_price) {
                let fill_price = match order.order_type {
                    OrderType::Limit => match order.price {
                        Some(p) => p,
                        None => market_price,
                    },
                    _ => market_price,
                };
                proof {
                    assert(should_fill(os[i as int], market_price));
                }
                let notional = order.quantity.times(&fill_price);
                let fee = notional.times(&self.fee_rate);
                let info = FillInfo {
                    symbol: order.symbol.clone(),
                    side: order.side,
                    quantity: order.quantity,
                    fill_price,
                    fee,
                };
                let ghost before = fills@;
                fills.push(info);
                proof {
                    assert(info@ == fill_plan(os[i as int], market_price, s0.fee_rate));
                    assert(fills@.map_values(|f: FillInfo| f@) =~= before.map_values(|f: FillInfo| f@).push(info@));
                }
            } else {
                let o = order.clone();
                let ghost before = kept@;
                kept.push(o);
                proof {
                    assert(orders_view(kept@) =~= orders_view(before).push(o@));
                }
            }
            i = i + 1;
        }
        proof {
            assert(os.take(os.len() as int) =~= os);
        }
        let ghost plan = fills@.map_values(|f: FillInfo| f@);
        let mut results: Vec<(Dec, Dec)> = Vec::new();
        let mut j: usize = 0;
        assert(plan.take(0) =~= Seq::<FillPlan>::empty());
        while j < fills.len()
            invariant
                plan == fills@.map_values(|f: FillInfo| f@),
                fills_fit(s0.balance, s0.positions, plan),
                j <= plan.len(),
                self.state() == (SimState {
                    balance: applied(s0.balance, s0.positions, plan.take(j as int)).0,
                    positions: applied(s0.balance, s0.positions, plan.take(j as int)).1,
                    ..s0
                }),
                results@ == fill_outcomes(s0.balance, s0.positions, plan.take(j as int)),
            decreases plan.len() - j,
        {
            proof {
                assert(plan.take(j + 1).drop_last() =~= plan.take(j as int));
                assert(plan.take(j + 1).last() == plan[j as int]);
                lemma_fills_fit_prefix(s0.balance, s0.positions, plan, j + 1);
            }
            let fill = &fills[j];
            let pnl = self.calculate_fill_pnl(&fill.symbol, fill.side, fill.quantity, fill.fill_price);
            let notional = fill.quantity.times(&fill.fill_price);
            match fill.side {
                Side::Buy => {
                    let cost = notional.plus(&fill.fee);
                    self.balance = self.balance.minus(&cost);
                    self.add_position(fill.symbol.clone(), Side::Buy, fill.quantity, fill.fill_price);
                },
                Side::Sell => {
                    let proceeds = notional.minus(&fill.fee);
                    self.balance = self.balance.plus(&proceeds);
                    self.close_position(&fill.symbol, fill.quantity);
                },
            }
            results.push((pnl, fill.fee));
            j = j + 1;
        }
        proof {
            assert(plan.take(plan.len() as int) =~= plan);
        }
        self.open_orders = kept;
        results
    }

    /// Adds a fill to the positions: averaged into the first position on the
    /// same symbol and side, or opened as a new one.
    fn add_position(&mut self, symbol: Symbol, side: Side, quantity: Dec, price: Dec)
        requires
            position_add_ok(old(self).state().positions, symbol@, side, quantity, price),
        ensures
            final(self).state() == (SimState {
                positions: position_added(old(self).state().positions, symbol@, side, quantity, price),
                ..old(self).state()
            }),
    {
        let ghost v = positions_view(self.positions@);
        match find_holding(&self.positions, &symbol, side) {
            Some(i) => {
                let pos = self.positions[i].clone();
                let total = pos.quantity.plus(&quantity);
                let entry = if !total.is_zero() {
                    let old_value = pos.entry_price.times(&pos.quantity);
                    let new_value = price.times(&quantity);
                    old_value.plus(&new_value).divided_by(&total)
                } else {
                    pos.entry_price
                };
                let updated = SimPosition {
                    symbol: pos.symbol,
                    side: pos.side,
                    quantity: total,
                    entry_price: entry,
                };
                proof {
                    assert(updated@ == averaged(v[i as int], quantity, price));
                }
                self.positions.set(i, updated);
                proof {
                    assert(positions_view(self.positions@) =~= v.update(
                        i as int,
                        averaged(v[i as int], quantity, price),
                    ));
                }
            },
            None => {
                let p = SimPosition { symbol, side, quantity, entry_price: price };
                self.positions.push(p);
                proof {
                    assert(positions_view(self.positions@) =~= v.push(p@));
                }
            },
        }
    }

    /// Closes `quantity` of `symbol`: positions on the symbol that are not
    /// larger than it are removed.
    fn close_position(&mut self, symbol: &Symbol, quantity: Dec)
        ensures
            final(self).state() == (SimState {
                positions: position_closed(old(self).state().positions, symbol@, quantity),
                ..old(self).state()
            }),
    {
        self.positions = positions_after_close(&self.positions, symbol, quantity);
    }

    /// The realized PnL of a fill against the opposite position.
    fn calculate_fill_pnl(&self, symbol: &Symbol, side: Side, quantity: Dec, fill_price: Dec) -> (r: Dec)
        requires
            fill_pnl_ok(self.state().positions, symbol@, side, quantity, fill_price),
        ensures
            r == fill_pnl(self.state().positions, symbol@, side, quantity, fill_price),
    {
        let other = match side {
            Side::Sell => Side::Buy,
            Side::Buy => Side::Sell,
        };
        match find_holding(&self.positions, symbol, other) {
            Some(i) => {
                let entry = self.positions[i].entry_price;
                match side {
                    Side::Sell => fill_price.minus(&entry).times(&quantity),
                    Side::Buy => entry.minus(&fill_price).times(&quantity),
                }
            },
            None => Dec::zero(),
        }
    }
}

/// Whether averaging a fill of `quantity` at `price` into `p` stays within range.
fn averaging_fits(p: &SimPosition, quantity: Dec, price: Dec) -> (r: bool)
    ensures
        r == averaging_ok(p@, quantity, price),
{
    if !sum_in_range(&p.quantity, &quantity) {
        return false;
    }
    let total = p.quantity.plus(&quantity);
    if total.is_zero() {
        return true;
    }
    if !product_in_range(&p.entry_price, &p.quantity) || !product_in_range(&price, &quantity) {
        return false;
    }
    let old_value = p.entry_price.times(&p.quantity);
    let new_value = price.times(&quantity);
    if !sum_in_range(&old_value, &new_value) {
        return false;
    }
    let value = old_value.plus(&new_value);
    quotient_in_range(&value, &total)
}

impl SimulatedExchange {
    /// Whether adding a fill to the positions stays within range.
    fn position_add_fits(&self, symbol: &Symbol, side: Side, quantity: Dec, price: Dec) -> (r: bool)
        ensures
            r == position_add_ok(self.state().positions, symbol@, side, quantity, price),
    {
        match find_holding(&self.positions, symbol, side) {
            Some(i) => averaging_fits(&self.positions[i], quantity, price),
            None => true,
        }
    }

    /// Whether the PnL of a fill against the opposite position stays within range.
    fn fill_pnl_fits(&self, symbol: &Symbol, side: Side, quantity: Dec, fill: Dec) -> (r: bool)
        ensures
            r == fill_pnl_ok(self.state().positions, symbol@, side, quantity, fill),
    {
        let other = match side {
            Side::Sell => Side::Buy,
            Side::Buy => Side::Sell,
        };
        match find_holding(&self.positions, symbol, other) {
            Some(i) => {
                let entry = self.positions[i].entry_price;
                match side {
                    Side::Sell => {
                        if !difference_in_range(&fill, &entry) {
                            return false;
                        }
                        let d = fill.minus(&entry);
                        product_in_range(&d, &quantity)
                    },
                    Side::Buy => {
                        if !difference_in_range(&entry, &fill) {
                            return false;
                        }
                        let d = entry.minus(&fill);
                        product_in_range(&d, &quantity)
                    },
                }
            },
            None => true,
        }
    }

    /// Whether applying a fill to cash and positions stays within range.
    fn fill_fits(&self, symbol: &Symbol, side: Side, quantity: Dec, price: Dec, fee: Dec) -> (r: bool)
        ensures
            r == fill_ok(self.state().balance, self.state().positions, symbol@, side, quantity, price, fee),
    {
        if !product_in_range(&quantity, &price) {
            return false;
        }
        let notional = quantity.times(&price);
        match side {
            Side::Buy => {
                if !sum_in_range(&notional, &fee) {
                    return false;
                }
                let cost = notional.plus(&fee);
                difference_in_range(&self.balance, &cost) && self.position_add_fits(symbol, Side::Buy, quantity, price)
            },
            Side::Sell => {
                if !difference_in_range(&notional, &fee) {
                    return false;
                }
                let proceeds = notional.minus(&fee);
                sum_in_range(&self.balance, &proceeds)
            },
        }
    }

    /// Whether placing `req` at `current_price` stays within range (the
    /// condition of `place_order`).
    pub fn placement_fits(&self, req: &OrderRequest, current_price: Dec) -> (r: bool)
        ensures
            r == placement_ok(self.state(), *req, current_price),
    {
        if self.next_order_id == u64::MAX {
            return false;
        }
        match req.order_type {
            OrderType::Market => {
                let ok = match req.side {
                    Side::Buy => sum_in_range(&current_price, &self.slippage_ticks),
                    Side::Sell => difference_in_range(&current_price, &self.slippage_ticks),
                };
                if !ok {
                    return false;
                }
                let fill_price = match req.side {
                    Side::Buy => current_price.plus(&self.slippage_ticks),
                    Side::Sell => current_price.minus(&self.slippage_ticks),
                };
                if !product_in_range(&req.quantity, &fill_price) {
                    return false;
                }
                let notional = req.quantity.times(&fill_price);
                if !product_in_range(&notional, &self.fee_rate) {
                    return false;
                }
                let fee = notional.times(&self.fee_rate);
                self.fill_fits(&req.symbol, req.side, req.quantity, fill_price, fee)
            },
            _ => true,
        }
    }

    /// Places an order when its arithmetic stays within range: then as
    /// `place_order` and `Some` of the answer; otherwise nothing changes and
    /// `None`.
    pub fn try_place_order(&mut self, req: OrderRequest, current_price: Dec) -> (r: Option<OrderResponse>)
        ensures
            r is Some <==> placement_ok(old(self).state(), req, current_price),
            r is None ==> final(self).state() == old(self).state(),
            r matches Some(resp) ==> exists|now: u64|
                #[trigger] placed(old(self).state(), req, current_price, now) == final(self).state()
                    && placement_answer(old(self).state(), req, current_price, now, resp),
    {
        if self.placement_fits(&req, current_price) {
            Some(self.place_order(req, current_price))
        } else {
            None
        }
    }
}

/// A copy of the positions.
fn copied_positions(ps: &Vec<SimPosition>) -> (r: Vec<SimPosition>)
    ensures
        positions_view(r@) == positions_view(ps@),
{
    let mut out: Vec<SimPosition> = Vec::new();
    let mut i: usize = 0;
    while i < ps.len()
        invariant
            i <= ps@.len(),
            positions_view(out@) == positions_view(ps@).take(i as int),
        decreases ps@.len() - i,
    {
        let p = ps[i].clone();
        let ghost before = out@;
        out.push(p);
        proof {
            assert(positions_view(out@) =~= positions_view(before).push(p@));
            assert(positions_view(ps@).take(i + 1) =~= positions_view(ps@).take(i as int).push(ps@[i as int]@));
        }
        i = i + 1;
    }
    assert(positions_view(ps@).take(ps@.len() as int) =~= positions_view(ps@));
    out
}

/// A copy of the waiting orders.
fn copied_orders(os: &Vec<SimOrder>) -> (r: Vec<SimOrder>)
    ensures
        orders_view(r@) == orders_view(os@),
{
    let mut out: Vec<SimOrder> = Vec::new();
    let mut i: usize = 0;
    while i < os.len()
        invariant
            i <= os@.len(),
            orders_view(out@) == orders_view(os@).take(i as int),
        decreases os@.len() - i,
    {
        let o = os[i].clone();
        let ghost before = out@;
        out.push(o);
        proof {
            assert(orders_view(out@) =~= orders_view(before).push(o@));
            assert(orders_view(os@).take(i + 1) =~= orders_view(os@).take(i as int).push(os@[i as int]@));
        }
        i = i + 1;
    }
    assert(orders_view(os@).take(os@.len() as int) =~= orders_view(os@));
    out
}

impl SimulatedExchange {
    /// An exchange in the same state.
    pub(crate) fn copy(&self) -> (r: Self)
        ensures
            r.state() == self.state(),
    {
        SimulatedExchange {
            balance: self.balance,
            fee_rate: self.fee_rate,
            current_price: self.current_price,
            open_orders: copied_orders(&self.open_orders),
            positions: copied_positions(&self.positions),
            next_order_id: self.next_order_id,
            slippage_ticks: self.slippage_ticks,
        }
    }

    /// Whether filling the waiting orders at `market_price` stays within
    /// range (the condition of `check_fills`): every fee, then each fill in
    /// turn against the cash and positions that the earlier ones leave.
    #[verifier::rlimit(60)]
    pub fn fills_fit_at(&self, market_price: Dec) -> (r: bool)
        ensures
            r == (fees_ok(self.state().orders, market_price, self.state().fee_rate) && fills_fit(
                self.state().balance,
                self.state().positions,
                planned_fills(self.state().orders, market_price, self.state().fee_rate),
            )),
    {
        let ghost s0 = self.state();
        let ghost os = s0.orders;
        let mut fills: Vec<FillInfo> = Vec::new();
        let mut i: usize = 0;
        assert(os.take(0) =~= Seq::<SimOrderView>::empty());
        while i < self.open_orders.len()
            invariant
                self.state() == s0,
                os == orders_view(self.open_orders@),
                i <= os.len(),
                forall|j: int|
                    0 <= j < i && should_fill(#[trigger] os[j], market_price) ==> fee_ok(
                        os[j].quantity,
                        order_fill_price(os[j], market_price),
                        s0.fee_rate,
                    ),
                fills@.map_values(|f: FillInfo| f@) == planned_fills(os.take(i as int), market_price, s0.fee_rate),
            decreases os.len() - i,
        {
            proof {
                assert(os.take(i + 1).drop_last() =~= os.take(i as int));
                assert(os.take(i + 1).last() == os[i as int]);
            }
            let order = &self.open_orders[i];
            if order_should_fill(order, market_price) {
                let fill_price = match order.order_type {
                    OrderType::Limit => match order.price {
                        Some(p) => p,
                        None => market_price,
                    },
                    _ => market_price,
                };
                proof {
                    assert(should_fill(os[i as int], market_price));
                    assert(fill_price == order_fill_price(os[i as int], market_price));
                    assert(order.quantity == os[i as int].quantity);
                }
                if !product_in_range(&order.quantity, &fill_price) {
                    proof {
                        assert(!fee_ok(os[i as int].quantity, order_fill_price(os[i as int], market_price), s0.fee_rate));
                        assert(!fees_ok(os, market_price, s0.fee_rate));
                    }
                    return false;
                }
                let notional = order.quantity.times(&fill_price);
                if !product_in_range(&notional, &self.fee_rate) {
                    proof {
                        assert(!fee_ok(os[i as int].quantity, order_fill_price(os[i as int], market_price), s0.fee_rate));
                        assert(!fees_ok(os, market_price, s0.fee_rate));
                    }
                    return false;
                }
                let fee = notional.times(&self.fee_rate);
                let info = FillInfo {
                    symbol: order.symbol.clone(),
                    side: order.side,
                    quantity: order.quantity,
                    fill_price,
                    fee,
                };
                let ghost before = fills@;
                fills.push(info);
                proof {
                    assert(info@ == fill_plan(os[i as int], market_price, s0.fee_rate));
                    assert(fills@.map_values(|f: FillInfo| f@) =~= before.map_values(|f: FillInfo| f@).push(info@));
                }
            }
            i = i + 1;
        }
        proof {
            assert(os.take(os.len() as int) =~= os);
            assert(fees_ok(os, market_price, s0.fee_rate));
        }
        let ghost plan = fills@.map_values(|f: FillInfo| f@);
        assert(plan == planned_fills(s0.orders, market_price, s0.fee_rate));
        let mut trial = SimulatedExchange {
            balance: self.balance,
            fee_rate: self.fee_rate,
            current_price: self.current_price,
            open_orders: Vec::new(),
            positions: copied_positions(&self.positions),
            next_order_id: self.next_order_id,
            slippage_ticks: self.slippage_ticks,
        };
        let mut j: usize = 0;
        assert(plan.take(0) =~= Seq::<FillPlan>::empty());
        while j < fills.len()
            invariant
                plan == fills@.map_values(|f: FillInfo| f@),
                plan == planned_fills(s0.orders, market_price, s0.fee_rate),
                self.state() == s0,
                fees_ok(s0.orders, market_price, s0.fee_rate),
                j <= plan.len(),
                fills_fit(s0.balance, s0.positions, plan.take(j as int)),
                trial.state().balance == applied(s0.balance, s0.positions, plan.take(j as int)).0,
                trial.state().positions == applied(s0.balance, s0.positions, plan.take(j as int)).1,
            decreases plan.len() - j,
        {
            proof {
                assert(plan.take(j + 1).drop_last() =~= plan.take(j as int));
                assert(plan.take(j + 1).last() == plan[j as int]);
            }
            let fill = &fills[j];
            assert(fill@ == plan[j as int]);
            let pnl_fits = trial.fill_pnl_fits(&fill.symbol, fill.side, fill.quantity, fill.fill_price);
            let cash_fits = trial.fill_fits(&fill.symbol, fill.side, fill.quantity, fill.fill_price, fill.fee);
            if !pnl_fits || !cash_fits {
                proof {
                    let prev = applied(s0.balance, s0.positions, plan.take(j as int));
                    let f = plan[j as int];
                    assert(f.symbol == fill.symbol@ && f.side == fill.side && f.quantity == fill.quantity
                        && f.price == fill.fill_price && f.fee == fill.fee);
                    assert(!(fill_pnl_ok(prev.1, f.symbol, f.side, f.quantity, f.price) && fill_ok(
                        prev.0,
                        prev.1,
                        f.symbol,
                        f.side,
                        f.quantity,
                        f.price,
                        f.fee,
                    )));
                    assert(!fills_fit(s0.balance, s0.positions, plan.take(j + 1)));
                    if fills_fit(s0.balance, s0.positions, plan) {
                        lemma_fills_fit_prefix(s0.balance, s0.positions, plan, j + 1);
                    }
                }
                return false;
            }
            let notional = fill.quantity.times(&fill.fill_price);
            match fill.side {
                Side::Buy => {
                    let cost = notional.plus(&fill.fee);
                    trial.balance = trial.balance.minus(&cost);
                    trial.add_position(fill.symbol.clone(), Side::Buy, fill.quantity, fill.fill_price);
                },
                Side::Sell => {
                    let proceeds = notional.minus(&fill.fee);
                    trial.balance = trial.balance.plus(&proceeds);
                    trial.close_position(&fill.symbol, fill.quantity);
                },
            }
            j = j + 1;
        }
        proof {
            assert(plan.take(plan.len() as int) =~= plan);
        }
        true
    }

    /// Fills the waiting orders at `market_price` when the arithmetic stays
    /// within range: then as `check_fills` and `Some` of the fills' (pnl,
    /// fee); otherwise nothing changes and `None`.
    pub fn try_check_fills(&mut self, market_price: Dec) -> (r: Option<Vec<(Dec, Dec)>>)
        ensures
            r is Some <==> (fees_ok(old(self).state().orders, market_price, old(self).state().fee_rate)
                && fills_fit(
                old(self).state().balance,
                old(self).state().positions,
                planned_fills(old(self).state().orders, market_price, old(self).state().fee_rate),
            )),
            r is None ==> final(self).state() == old(self).state(),
            r matches Some(v) ==> ({
                let s = old(self).state();
                let fills = planned_fills(s.orders, market_price, s.fee_rate);
                &&& final(self).state() == (SimState {
                    balance: applied(s.balance, s.positions, fills).0,
                    positions: applied(s.balance, s.positions, fills).1,
                    orders: unfilled(s.orders, market_price),
                    ..s
                })
                &&& v@ == fill_outcomes(s.balance, s.positions, fills)
            }),
    {
        if self.fills_fit_at(market_price) {
            Some(self.check_fills(market_price))
        } else {
            None
        }
    }
}

} // verus!