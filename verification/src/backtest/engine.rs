//! The event-driven backtest: market events move the simulated exchange,
//! fills are booked in the PnL tracker and the circuit breaker, and each
//! strategy signal goes through the breaker and the risk manager before a
//! limit order is placed at the current price.
//!
//! The strategy itself reads a floating-point market context and is run by
//! the caller: `on_event` hands back what an order book update shows, and
//! `on_signal` takes the side and stop of a signal.
use crate::backtest::sim_exchange::{
    applied, fees_ok, fill_outcomes, fills_fit, placed, placement_answer, planned_fills,
    unfilled, SimOrderView, SimPositionView, SimState, SimulatedExchange,
};
use crate::common::error::BangidaError;
use crate::common::time::now_ms;
use crate::common::types::{
    MarketEvent, OrderRequest, OrderResponse, OrderType, Side, Symbol, TimeInForce,
};
use crate::data::orderbook::{checked_side_total, quantities, side_depth, Level};
use crate::decimal::{
    add_ok, dadd, ddiv, difference_in_range, div_ok, dsub, dsum, dsum_ok, in_range, lemma_pow10_pos,
    quotient_in_range, sub_ok, sum_in_range, two_dec, zero_dec, Dec,
};
use crate::risk::circuit_breaker::{
    checks_ok, halt_reason, lemma_result_accounting, result_ok, result_recorded, BreakerHalt, BreakerState, CircuitBreaker,
};
use crate::risk::limits::RiskLimits;
use crate::risk::pnl_tracker::{trade_ok, trade_recorded, PnlState, PnlTracker};
use crate::risk::risk_manager::{
    approved_size, rejection, rejection_text, validation_fits, RiskManager,
};
use vstd::prelude::*;

verus! {

/// A completed trade, as the backtest records it.
#[derive(Debug, Clone)]
pub struct TradeRecord {
    pub symbol: Symbol,
    pub side: Side,
    pub entry_price: Dec,
    pub exit_price: Dec,
    pub quantity: Dec,
    pub pnl: Dec,
    pub fees: Dec,
    pub entry_time_ms: u64,
    pub exit_time_ms: u64,
}

/// A trade record as plain data.
pub struct TradeView {
    pub symbol: Seq<char>,
    pub side: Side,
    pub entry_price: Dec,
    pub exit_price: Dec,
    pub quantity: Dec,
    pub pnl: Dec,
    pub fees: Dec,
    pub entry_time_ms: u64,
    pub exit_time_ms: u64,
}

impl View for TradeRecord {
    type V = TradeView;

    open spec fn view(&self) -> TradeView {
        TradeView {
            symbol: self.symbol@,
            side: self.side,
            entry_price: self.entry_price,
            exit_price: self.exit_price,
            quantity: self.quantity,
            pnl: self.pnl,
            fees: self.fees,
            entry_time_ms: self.entry_time_ms,
            exit_time_ms: self.exit_time_ms,
        }
    }
}

/// What an order book update with both sides shows the strategy.
#[derive(Debug, Clone)]
pub struct BookSummary {
    pub symbol: Symbol,
    /// (best bid + best ask) / 2.
    pub mid: Dec,
    /// best ask - best bid.
    pub spread: Dec,
    /// The total bid quantity of the update.
    pub bid_depth: Dec,
    /// The total ask quantity of the update.
    pub ask_depth: Dec,
    /// (bid depth - ask depth) / (bid depth + ask depth); zero when the
    /// depths add up to zero.
    pub imbalance: Dec,
    pub timestamp_ms: u64,
}

/// What became of a signal.
#[derive(Debug, Clone)]
pub enum SignalOutcome {
    /// The circuit breaker halts trading.
    Halted(BreakerHalt),
    /// The risk manager refused the signal.
    Rejected(BangidaError),
    /// A limit order was placed; the exchange's answer.
    Placed(OrderResponse),
}

/// The backtest's state as plain data.
pub struct EngineState {
    pub sim: SimState,
    pub pnl: PnlState,
    pub breaker: BreakerState,
    pub trades: Seq<TradeView>,
    pub timestamp_ms: u64,
}

/// The mid price of an update's best levels.
pub open spec fn book_mid(bids: Seq<Level>, asks: Seq<Level>) -> Dec {
    ddiv(dadd(bids[0].0, asks[0].0), two_dec())
}

/// The total quantity of a side.
pub open spec fn side_total(levels: Seq<Level>) -> Dec {
    dsum(quantities(levels))
}

/// The depth imbalance of an update; zero when the depths add up to zero.
pub open spec fn book_imbalance(bids: Seq<Level>, asks: Seq<Level>) -> Dec {
    let total = dadd(side_total(bids), side_total(asks));
    if total@ == 0 {
        zero_dec()
    } else {
        ddiv(dsub(side_total(bids), side_total(asks)), total)
    }
}

/// The arithmetic of summarising an update with both sides stays within
/// the range of decimals.
pub open spec fn book_ok(bids: Seq<Level>, asks: Seq<Level>) -> bool {
    bids.len() > 0 && asks.len() > 0 ==> {
        let total = dadd(side_total(bids), side_total(asks));
        &&& in_range(bids[0].0@ + asks[0].0@)
        &&& sub_ok(asks[0].0, bids[0].0)
        &&& dsum_ok(quantities(bids))
        &&& dsum_ok(quantities(asks))
        &&& add_ok(side_total(bids), side_total(asks))
        &&& total@ != 0 ==> sub_ok(side_total(bids), side_total(asks)) && div_ok(
            dsub(side_total(bids), side_total(asks)),
            total,
        )
    }
}

/// The summary of an update, when both sides have a level.
pub open spec fn summary_matches(
    r: Option<BookSummary>,
    symbol: Seq<char>,
    bids: Seq<Level>,
    asks: Seq<Level>,
    ts: u64,
) -> bool {
    if bids.len() > 0 && asks.len() > 0 {
        r matches Some(b) && b.symbol@ == symbol && b.mid == book_mid(bids, asks) && b.spread
            == dsub(asks[0].0, bids[0].0) && b.bid_depth == side_total(bids) && b.ask_depth
            == side_total(asks) && b.imbalance == book_imbalance(bids, asks) && b.timestamp_ms == ts
    } else {
        r is None
    }
}

/// The record of a fill at trade price `price` and time `ts`: a sell with
/// no entry, the fill's pnl and fee.
pub open spec fn fill_record(symbol: Seq<char>, price: Dec, ts: u64, o: (Dec, Dec)) -> TradeView {
    TradeView {
        symbol,
        side: Side::Sell,
        entry_price: zero_dec(),
        exit_price: price,
        quantity: zero_dec(),
        pnl: o.0,
        fees: o.1,
        entry_time_ms: 0,
        exit_time_ms: ts,
    }
}

/// The records of a trade's fills, in order.
pub open spec fn fill_records(symbol: Seq<char>, price: Dec, ts: u64, os: Seq<(Dec, Dec)>) -> Seq<
    TradeView,
> {
    os.map_values(|o: (Dec, Dec)| fill_record(symbol, price, ts, o))
}

/// The PnL tracker and breaker after booking fills in order: each fill's
/// gross pnl and fee go to the tracker, its net pnl to the breaker.
pub open spec fn fills_booked(
    p: PnlState,
    b: BreakerState,
    lim: RiskLimits,
    os: Seq<(Dec, Dec)>,
    now: u64,
) -> (PnlState, BreakerState)
    decreases os.len(),
{
    if os.len() == 0 {
        (p, b)
    } else {
        let prev = fills_booked(p, b, lim, os.drop_last(), now);
        let o = os.last();
        (trade_recorded(prev.0, o.0, o.1), result_recorded(prev.1, lim, dsub(o.0, o.1), now))
    }
}

/// Booking the fills stays within the limits of the counters and decimals.
pub open spec fn fills_book_ok(
    p: PnlState,
    b: BreakerState,
    lim: RiskLimits,
    os: Seq<(Dec, Dec)>,
    now: u64,
) -> bool
    decreases os.len(),
{
    if os.len() == 0 {
        true
    } else {
        let prev = fills_booked(p, b, lim, os.drop_last(), now);
        let o = os.last();
        &&& fills_book_ok(p, b, lim, os.drop_last(), now)
        &&& trade_ok(prev.0, o.0, o.1)
        &&& sub_ok(o.0, o.1)
        &&& result_ok(prev.1, dsub(o.0, o.1))
    }
}

/// The exchange after filling its waiting orders at market price `m`.
pub open spec fn sim_filled(s: SimState, m: Dec) -> SimState {
    let fills = planned_fills(s.orders, m, s.fee_rate);
    SimState {
        balance: applied(s.balance, s.positions, fills).0,
        positions: applied(s.balance, s.positions, fills).1,
        orders: unfilled(s.orders, m),
        ..s
    }
}

/// The (pnl, fee) of each fill at market price `m`.
pub open spec fn sim_outcomes(s: SimState, m: Dec) -> Seq<(Dec, Dec)> {
    fill_outcomes(s.balance, s.positions, planned_fills(s.orders, m, s.fee_rate))
}

/// The exchange with its price set to `m`.
pub open spec fn priced(s: SimState, m: Dec) -> SimState {
    SimState { current_price: m, ..s }
}

/// What an event does to the backtest at time `now`. An order book update
/// with both sides sets the price to its mid; a trade sets the price,
/// fills the waiting orders it crosses and books the fills; a closed
/// candle sets the price to its close. Each of these moves the clock to the
/// event's time; other events change nothing.
pub open spec fn event_applied(s: EngineState, lim: RiskLimits, e: MarketEvent, now: u64) -> EngineState {
    match e {
        MarketEvent::OrderBookUpdate { bids, asks, timestamp_ms, .. } => {
            if bids@.len() > 0 && asks@.len() > 0 {
                EngineState {
                    sim: priced(s.sim, book_mid(bids@, asks@)),
                    timestamp_ms,
                    ..s
                }
            } else {
                EngineState { timestamp_ms, ..s }
            }
        },
        MarketEvent::Trade(t) => {
            let sim1 = priced(s.sim, t.price);
            let os = sim_outcomes(sim1, t.price);
            let booked = fills_booked(s.pnl, s.breaker, lim, os, now);
            EngineState {
                sim: sim_filled(sim1, t.price),
                pnl: booked.0,
                breaker: booked.1,
                trades: s.trades + fill_records(t.symbol@, t.price, t.timestamp_ms, os),
                timestamp_ms: t.timestamp_ms,
            }
        },
        MarketEvent::KlineClose(k) => EngineState {
            sim: priced(s.sim, k.close),
            timestamp_ms: k.close_time_ms,
            ..s
        },
        _ => s,
    }
}

/// The arithmetic of an event stays within range: the order book summary,
/// and for a trade the fills' fees, their effect on cash and positions and
/// their booking.
pub open spec fn event_ok(s: EngineState, lim: RiskLimits, e: MarketEvent, now: u64) -> bool {
    match e {
        MarketEvent::OrderBookUpdate { bids, asks, .. } => book_ok(bids@, asks@),
        MarketEvent::Trade(t) => {
            let sim1 = priced(s.sim, t.price);
            &&& fees_ok(sim1.orders, t.price, sim1.fee_rate)
            &&& fills_fit(sim1.balance, sim1.positions, planned_fills(sim1.orders, t.price, sim1.fee_rate))
            &&& fills_book_ok(s.pnl, s.breaker, lim, sim_outcomes(sim1, t.price), now)
        },
        _ => true,
    }
}

/// The limit order of a signal: the approved quantity at the current price,
/// good till cancelled, with the signal's stop.
pub open spec fn signal_request(
    symbol: Symbol,
    side: Side,
    stop_loss: Option<Dec>,
    quantity: Dec,
    price: Dec,
) -> OrderRequest {
    OrderRequest {
        symbol,
        side,
        order_type: OrderType::Limit,
        quantity,
        price: Some(price),
        stop_price: stop_loss,
        time_in_force: TimeInForce::Gtc,
        reduce_only: false,
    }
}

/// The backtest's market-facing state: the simulated exchange, the risk
/// manager and breaker, the PnL tracker, the trades booked so far and the
/// time of the last event.
pub struct BacktestCore {
    sim: SimulatedExchange,
    risk: RiskManager,
    breaker: CircuitBreaker,
    pnl: PnlTracker,
    trades: Vec<TradeRecord>,
    timestamp_ms: u64,
}

impl BacktestCore {
    pub closed spec fn state(&self) -> EngineState {
        EngineState {
            sim: self.sim.state(),
            pnl: self.pnl.state(),
            breaker: self.breaker.state(),
            trades: self.trades@.map_values(|t: TradeRecord| t@),
            timestamp_ms: self.timestamp_ms,
        }
    }

    /// The risk limits that the breaker and the risk manager enforce.
    pub closed spec fn limits(&self) -> RiskLimits {
        self.breaker.limits()
    }

    /// The risk manager and the breaker share the limits, and the PnL
    /// tracker's books are consistent.
    pub closed spec fn wf(&self) -> bool {
        &&& self.risk.limits() == self.breaker.limits()
        &&& self.pnl.wf()
    }

    /// A backtest starting with `initial_equity` in cash and the given fee
    /// rate, under the limits `config`.
    pub fn new(config: RiskLimits, initial_equity: Dec, fee_rate: Dec) -> (r: Self)
        ensures
            r.wf(),
            r.limits() == config,
            r.state().sim.balance == initial_equity,
            r.state().sim.fee_rate == fee_rate,
            r.state().sim.current_price == zero_dec(),
            r.state().sim.orders == Seq::<SimOrderView>::empty(),
            r.state().sim.positions == Seq::<SimPositionView>::empty(),
            r.state().sim.next_order_id == 1,
            r.state().sim.slippage.mant() == 1 && r.state().sim.slippage.scl() == 1,
            r.state().pnl == (PnlState {
                peak_equity: initial_equity,
                current_equity: initial_equity,
                daily_pnl: zero_dec(),
                total_trades: 0,
                winning_trades: 0,
                total_pnl: zero_dec(),
                gross_profit: zero_dec(),
                gross_loss: zero_dec(),
                total_fees: zero_dec(),
            }),
            r.state().breaker == (BreakerState {
                consecutive_losses: 0,
                daily_loss: zero_dec(),
                peak_equity: initial_equity,
                current_equity: initial_equity,
                trades_this_hour: 0,
                last_loss_time: None,
                is_halted: false,
                cooldown_until: None,
            }),
            r.state().trades == Seq::<TradeView>::empty(),
            r.state().timestamp_ms == 0,
    {
        let r = BacktestCore {
            sim: SimulatedExchange::new(initial_equity, fee_rate),
            risk: RiskManager::new(config),
            breaker: CircuitBreaker::new(config, initial_equity),
            pnl: PnlTracker::new(initial_equity),
            trades: Vec::new(),
            timestamp_ms: 0,
        };
        assert(r.trades@.map_values(|t: TradeRecord| t@) =~= Seq::<TradeView>::empty());
        r
    }

    /// Applies a market event at time `now`: see `event_applied`. Returns
    /// the summary of an order book update that has both sides.
    pub fn on_event_at(&mut self, event: &MarketEvent, now: u64) -> (r: Option<BookSummary>)
        requires
            old(self).wf(),
            event_ok(old(self).state(), old(self).limits(), *event, now),
        ensures
            final(self).wf(),
            final(self).limits() == old(self).limits(),
            final(self).state() == event_applied(old(self).state(), old(self).limits(), *event, now),
            match *event {
                MarketEvent::OrderBookUpdate { symbol, bids, asks, timestamp_ms, .. } => summary_matches(
                    r,
                    symbol@,
                    bids@,
                    asks@,
                    timestamp_ms,
                ),
                _ => r is None,
            },
    {
        match event {
            MarketEvent::OrderBookUpdate { symbol, bids, asks, timestamp_ms, .. } => {
                self.timestamp_ms = *timestamp_ms;
                if bids.len() > 0 && asks.len() > 0 {
                    let summary = summarize(symbol, bids, asks, *timestamp_ms);
                    self.sim.update_price(summary.mid);
                    Some(summary)
                } else {
                    None
                }
            },
            MarketEvent::Trade(trade) => {
                self.sim.update_price(trade.price);
                self.book_trade(&trade.symbol, trade.price, trade.timestamp_ms, now);
                self.timestamp_ms = trade.timestamp_ms;
                None
            },
            MarketEvent::KlineClose(kline) => {
                self.timestamp_ms = kline.close_time_ms;
                self.sim.update_price(kline.close);
                None
            },
            _ => None,
        }
    }

    /// Applies a market event now.
    pub fn on_event(&mut self, event: &MarketEvent) -> (r: Option<BookSummary>)
        requires
            old(self).wf(),
            forall|now: u64| event_ok(old(self).state(), old(self).limits(), *event, now),
        ensures
            final(self).wf(),
            final(self).limits() == old(self).limits(),
            exists|now: u64|
                final(self).state() == #[trigger] event_applied(
                    old(self).state(),
                    old(self).limits(),
                    *event,
                    now,
                ),
            match *event {
                MarketEvent::OrderBookUpdate { symbol, bids, asks, timestamp_ms, .. } => summary_matches(
                    r,
                    symbol@,
                    bids@,
                    asks@,
                    timestamp_ms,
                ),
                _ => r is None,
            },
    {
        let now = now_ms();
        self.on_event_at(event, now)
    }

    /// Fills the waiting orders at the trade price and books each fill.
    fn book_trade(&mut self, symbol: &Symbol, price: Dec, ts: u64, now: u64)
        requires
            old(self).wf(),
            old(self).state().sim.current_price == price,
            fees_ok(old(self).state().sim.orders, price, old(self).state().sim.fee_rate),
            fills_fit(
                old(self).state().sim.balance,
                old(self).state().sim.positions,
                planned_fills(old(self).state().sim.orders, price, old(self).state().sim.fee_rate),
            ),
            fills_book_ok(
                old(self).state().pnl,
                old(self).state().breaker,
                old(self).limits(),
                sim_outcomes(old(self).state().sim, price),
                now,
            ),
        ensures
            final(self).wf(),
            final(self).limits() == old(self).limits(),
            ({
                let s = old(self).state();
                let os = sim_outcomes(s.sim, price);
                let booked = fills_booked(s.pnl, s.breaker, old(self).limits(), os, now);
                final(self).state() == EngineState {
                    sim: sim_filled(s.sim, price),
                    pnl: booked.0,
                    breaker: booked.1,
                    trades: s.trades + fill_records(symbol@, price, ts, os),
                    timestamp_ms: s.timestamp_ms,
                }
            }),
    {
        let ghost s0 = self.state();
        let ghost lim = self.limits();
        let fills = self.sim.check_fills(price);
        let ghost os = fills@;
        assert(os == sim_outcomes(s0.sim, price));
        let mut i: usize = 0;
        assert(os.take(0) =~= Seq::<(Dec, Dec)>::empty());
        assert(fill_records(symbol@, price, ts, os.take(0)) =~= Seq::<TradeView>::empty());
        assert(s0.trades + Seq::<TradeView>::empty() =~= s0.trades);
        while i < fills.len()
            invariant
                self.wf(),
                self.limits() == lim,
                os == fills@,
                i <= os.len(),
                fills_book_ok(s0.pnl, s0.breaker, lim, os, now),
                self.state().sim == sim_filled(s0.sim, price),
                self.state().timestamp_ms == s0.timestamp_ms,
                (self.state().pnl, self.state().breaker) == fills_booked(
                    s0.pnl,
                    s0.breaker,
                    lim,
                    os.take(i as int),
                    now,
                ),
                self.state().trades == s0.trades + fill_records(symbol@, price, ts, os.take(i as int)),
            decreases os.len() - i,
        {
            let (fill_pnl, fill_fees) = fills[i];
            proof {
                assert(os.take(i + 1).drop_last() =~= os.take(i as int));
                assert(os.take(i + 1).last() == os[i as int]);
                lemma_book_ok_prefix(s0.pnl, s0.breaker, lim, os, now, i + 1);
            }
            self.pnl.record_trade(fill_pnl, fill_fees);
            let net = fill_pnl.minus(&fill_fees);
            self.breaker.on_trade_result_at(net, now);
            let record = TradeRecord {
                symbol: symbol.clone(),
                side: Side::Sell,
                entry_price: Dec::zero(),
                exit_price: price,
                quantity: Dec::zero(),
                pnl: fill_pnl,
                fees: fill_fees,
                entry_time_ms: 0,
                exit_time_ms: ts,
            };
            let ghost before = self.trades@;
            self.trades.push(record);
            proof {
                assert(self.trades@ == before.push(record));
                assert(self.trades@.map_values(|t: TradeRecord| t@) =~= before.map_values(
                    |t: TradeRecord| t@,
                ).push(record@));
                assert(fill_records(symbol@, price, ts, os.take(i + 1)) =~= fill_records(
                    symbol@,
                    price,
                    ts,
                    os.take(i as int),
                ).push(fill_record(symbol@, price, ts, os[i as int])));
                assert(record@ == fill_record(symbol@, price, ts, os[i as int]));
            }
            i = i + 1;
        }
        assert(os.take(os.len() as int) =~= os);
    }

    /// Acts on a signal at time `now`: when the breaker halts trading the
    /// signal is dropped; else the risk manager checks it against the
    /// current equity and open positions (leverage 1), and an approved
    /// signal becomes a good-till-cancelled limit order of the approved size
    /// at the current price, with the signal's stop.
    pub fn on_signal_at(&mut self, symbol: Symbol, side: Side, stop_loss: Option<Dec>, now: u64) -> (r:
        SignalOutcome)
        requires
            old(self).wf(),
            checks_ok(old(self).state().breaker),
            validation_fits(
                old(self).limits(),
                old(self).state().pnl.current_equity,
                old(self).state().sim.positions.len() as usize,
            ),
            old(self).state().sim.next_order_id < u64::MAX,
        ensures
            final(self).wf(),
            final(self).limits() == old(self).limits(),
            signal_answer(
                old(self).state(),
                old(self).limits(),
                symbol,
                side,
                stop_loss,
                now,
                final(self).state(),
                r,
            ),
    {
        let verdict = self.breaker.can_trade_at(now);
        if let Err(h) = verdict {
            return SignalOutcome::Halted(h);
        }
        let equity = self.pnl.current_equity();
        let open_positions = self.sim.open_position_count();
        match self.risk.validate_signal(equity, open_positions, 1) {
            Ok(approval) => {
                let current_price = self.sim.current_price();
                let req = OrderRequest {
                    symbol,
                    side,
                    order_type: OrderType::Limit,
                    quantity: approval.quantity,
                    price: Some(current_price),
                    stop_price: stop_loss,
                    time_in_force: TimeInForce::Gtc,
                    reduce_only: false,
                };
                let resp = self.sim.place_order_at(req, current_price, now);
                SignalOutcome::Placed(resp)
            },
            Err(e) => SignalOutcome::Rejected(e),
        }
    }

    /// Acts on a signal now.
    pub fn on_signal(&mut self, symbol: Symbol, side: Side, stop_loss: Option<Dec>) -> (r:
        SignalOutcome)
        requires
            old(self).wf(),
            checks_ok(old(self).state().breaker),
            validation_fits(
                old(self).limits(),
                old(self).state().pnl.current_equity,
                old(self).state().sim.positions.len() as usize,
            ),
            old(self).state().sim.next_order_id < u64::MAX,
        ensures
            final(self).wf(),
            final(self).limits() == old(self).limits(),
            r is Halted ==> final(self).state() == old(self).state(),
            r is Rejected ==> final(self).state() == old(self).state(),
            r is Placed ==> final(self).state().pnl == old(self).state().pnl
                && final(self).state().breaker == old(self).state().breaker
                && final(self).state().trades == old(self).state().trades,
            exists|now: u64| #[trigger] signal_answer(old(self).state(), old(self).limits(), symbol, side, stop_loss, now, final(self).state(), r),
    {
        let now = now_ms();
        self.on_signal_at(symbol, side, stop_loss, now)
    }

    /// The time (ms) of the last event that carried one.
    pub fn timestamp_ms(&self) -> (r: u64)
        ensures
            r == self.state().timestamp_ms,
    {
        self.timestamp_ms
    }

    /// The PnL tracker.
    pub fn pnl_tracker(&self) -> (r: &PnlTracker)
        ensures
            r.state() == self.state().pnl,
    {
        &self.pnl
    }

    /// The simulated exchange.
    pub fn exchange(&self) -> (r: &SimulatedExchange)
        ensures
            r.state() == self.state().sim,
    {
        &self.sim
    }

    /// The circuit breaker.
    pub fn breaker(&self) -> (r: &CircuitBreaker)
        ensures
            r.state() == self.state().breaker,
            r.limits() == self.limits(),
    {
        &self.breaker
    }

    /// The trades booked so far, in order.
    pub fn trades(&self) -> (r: &Vec<TradeRecord>)
        ensures
            r@.map_values(|t: TradeRecord| t@) == self.state().trades,
    {
        &self.trades
    }
}

/// Whether `r` and the state `after` are what a signal leads to at time
/// `now` from state `s`: see `BacktestCore::on_signal_at`.
pub open spec fn signal_answer(
    s: EngineState,
    lim: RiskLimits,
    symbol: Symbol,
    side: Side,
    stop_loss: Option<Dec>,
    now: u64,
    after: EngineState,
    r: SignalOutcome,
) -> bool {
    let equity = s.pnl.current_equity;
    let open = s.sim.positions.len() as usize;
    match halt_reason(s.breaker, lim, now) {
        Some(h) => r == SignalOutcome::Halted(h) && after == s,
        None => match rejection(lim, equity, open) {
            Some(why) => after == s && (r matches SignalOutcome::Rejected(BangidaError::RiskCheck(t))
                && t@ == rejection_text(why, lim, equity, open)),
            None => {
                let req = signal_request(symbol, side, stop_loss, approved_size(lim, equity), s.sim.current_price);
                &&& after == EngineState { sim: placed(s.sim, req, s.sim.current_price, now), ..s }
                &&& r matches SignalOutcome::Placed(resp) && placement_answer(
                    s.sim,
                    req,
                    s.sim.current_price,
                    now,
                    resp,
                )
            },
        },
    }
}

/// Each fill of a trade is booked once: the tracker counts one more trade
/// per fill, the breaker one more trade this hour per fill, and the
/// backtest keeps one record per fill.
pub proof fn lemma_fill_booking_counts(
    p: PnlState,
    b: BreakerState,
    lim: RiskLimits,
    os: Seq<(Dec, Dec)>,
    now: u64,
    symbol: Seq<char>,
    price: Dec,
    ts: u64,
)
    requires
        fills_book_ok(p, b, lim, os, now),
    ensures
        fills_booked(p, b, lim, os, now).0.total_trades == p.total_trades + os.len(),
        fills_booked(p, b, lim, os, now).1.trades_this_hour == b.trades_this_hour + os.len(),
        fill_records(symbol, price, ts, os).len() == os.len(),
    decreases os.len(),
{
    if os.len() > 0 {
        lemma_fill_booking_counts(p, b, lim, os.drop_last(), now, symbol, price, ts);
    }
}

/// If booking all the fills is in range, so is booking any first part of
/// them.
proof fn lemma_book_ok_prefix(
    p: PnlState,
    b: BreakerState,
    lim: RiskLimits,
    os: Seq<(Dec, Dec)>,
    now: u64,
    k: int,
)
    requires
        fills_book_ok(p, b, lim, os, now),
        0 <= k <= os.len(),
    ensures
        fills_book_ok(p, b, lim, os.take(k), now),
    decreases os.len() - k,
{
    if k < os.len() {
        assert(os.take(k + 1).drop_last() =~= os.take(k));
        lemma_book_ok_prefix(p, b, lim, os, now, k + 1);
    } else {
        assert(os.take(k) =~= os);
    }
}

/// The net result (pnl less fee) of the fills, summed exactly.
pub open spec fn net_total(os: Seq<(Dec, Dec)>) -> int
    decreases os.len(),
{
    if os.len() == 0 {
        0
    } else {
        net_total(os.drop_last()) + (os.last().0@ - os.last().1@)
    }
}

/// Booking one more fill: the PnL tracker records the fill's gross pnl and
/// its fee, and the breaker its net result, pnl less fee. So a fill whose
/// fee exceeds its pnl is a loss for the breaker: it extends the loss
/// streak and adds to the day's loss; otherwise the streak ends. Each fill
/// counts one trade this hour, and the breaker's equity moves by the net
/// result (exactly, when the decimal operations are exact).
pub proof fn lemma_fill_feeds_breaker_net(
    p: PnlState,
    b: BreakerState,
    lim: RiskLimits,
    os: Seq<(Dec, Dec)>,
    o: (Dec, Dec),
    now: u64,
)
    requires
        result_ok(fills_booked(p, b, lim, os, now).1, dsub(o.0, o.1)),
        dsub(o.0, o.1)@ == o.0@ - o.1@,
    ensures
        fills_booked(p, b, lim, os.push(o), now).0 == trade_recorded(fills_booked(p, b, lim, os, now).0, o.0, o.1),
        fills_booked(p, b, lim, os.push(o), now).1.trades_this_hour == fills_booked(p, b, lim, os, now).1.trades_this_hour + 1,
        o.0@ < o.1@ ==> fills_booked(p, b, lim, os.push(o), now).1.consecutive_losses
            == fills_booked(p, b, lim, os, now).1.consecutive_losses + 1,
        o.0@ >= o.1@ ==> fills_booked(p, b, lim, os.push(o), now).1.consecutive_losses == 0,
        o.0@ >= o.1@ ==> fills_booked(p, b, lim, os.push(o), now).1.daily_loss == fills_booked(p, b, lim, os, now).1.daily_loss,
        o.0@ < o.1@ && dadd(fills_booked(p, b, lim, os, now).1.daily_loss, dsub(o.0, o.1))@
            == fills_booked(p, b, lim, os, now).1.daily_loss@ + o.0@ - o.1@
            ==> fills_booked(p, b, lim, os.push(o), now).1.daily_loss@
            == fills_booked(p, b, lim, os, now).1.daily_loss@ + o.0@ - o.1@,
        dadd(fills_booked(p, b, lim, os, now).1.current_equity, dsub(o.0, o.1))@
            == fills_booked(p, b, lim, os, now).1.current_equity@ + o.0@ - o.1@
            ==> fills_booked(p, b, lim, os.push(o), now).1.current_equity@
            == fills_booked(p, b, lim, os, now).1.current_equity@ + o.0@ - o.1@,
{
    assert(os.push(o).drop_last() =~= os);
    lemma_result_accounting(fills_booked(p, b, lim, os, now).1, lim, dsub(o.0, o.1), now);
}

/// Whether every net result and every equity step of booking `os` is an
/// exact decimal operation.
pub open spec fn booking_exact(p: PnlState, b: BreakerState, lim: RiskLimits, os: Seq<(Dec, Dec)>, now: u64) -> bool
    decreases os.len(),
{
    if os.len() == 0 {
        true
    } else {
        let prev = fills_booked(p, b, lim, os.drop_last(), now).1;
        let o = os.last();
        &&& booking_exact(p, b, lim, os.drop_last(), now)
        &&& dsub(o.0, o.1)@ == o.0@ - o.1@
        &&& dadd(prev.current_equity, dsub(o.0, o.1))@ == prev.current_equity@ + o.0@ - o.1@
    }
}

/// After a trade's fills are booked, the breaker's equity is its old equity
/// plus the sum of the fills' net results (pnl less fee), and it has counted
/// one trade per fill (when the decimal operations are exact).
pub proof fn lemma_breaker_equity_after_fills(
    p: PnlState,
    b: BreakerState,
    lim: RiskLimits,
    os: Seq<(Dec, Dec)>,
    now: u64,
)
    requires
        fills_book_ok(p, b, lim, os, now),
        booking_exact(p, b, lim, os, now),
    ensures
        fills_booked(p, b, lim, os, now).1.current_equity@ == b.current_equity@ + net_total(os),
        fills_booked(p, b, lim, os, now).1.trades_this_hour == b.trades_this_hour + os.len(),
    decreases os.len(),
{
    if os.len() > 0 {
        let rest = os.drop_last();
        let o = os.last();
        lemma_breaker_equity_after_fills(p, b, lim, rest, now);
        assert(rest.push(o) =~= os);
        lemma_fill_feeds_breaker_net(p, b, lim, rest, o, now);
    }
}

/// The summary of an order book update with both sides.
fn summarize(symbol: &Symbol, bids: &Vec<Level>, asks: &Vec<Level>, ts: u64) -> (r: BookSummary)
    requires
        bids@.len() > 0,
        asks@.len() > 0,
        book_ok(bids@, asks@),
    ensures
        summary_matches(Some(r), symbol@, bids@, asks@, ts),
{
    let best_bid = bids[0].0;
    let best_ask = asks[0].0;
    let sum = best_bid.plus(&best_ask);
    let two = Dec::two();
    sum.bounds();
    proof {
        lemma_pow10_pos(28);
    }
    let mid = sum.divided_by(&two);
    let spread = best_ask.minus(&best_bid);
    proof {
        assert(quantities(bids@).take(bids@.len() as int) =~= quantities(bids@));
        assert(quantities(asks@).take(asks@.len() as int) =~= quantities(asks@));
    }
    let bid_depth = side_depth(bids, bids.len());
    let ask_depth = side_depth(asks, asks.len());
    let total = bid_depth.plus(&ask_depth);
    let imbalance = if !total.is_zero() {
        let gap = bid_depth.minus(&ask_depth);
        gap.divided_by(&total)
    } else {
        Dec::zero()
    };
    BookSummary { symbol: symbol.clone(), mid, spread, bid_depth, ask_depth, imbalance, timestamp_ms: ts }
}

/// Whether the summary arithmetic of an order book update stays within range.
fn book_fits(bids: &Vec<Level>, asks: &Vec<Level>) -> (r: bool)
    ensures
        r == book_ok(bids@, asks@),
{
    if bids.len() == 0 || asks.len() == 0 {
        return true;
    }
    let best_bid = bids[0].0;
    let best_ask = asks[0].0;
    if !sum_in_range(&best_bid, &best_ask) || !difference_in_range(&best_ask, &best_bid) {
        return false;
    }
    let tb = match checked_side_total(bids) {
        Some(t) => t,
        None => return false,
    };
    let ta = match checked_side_total(asks) {
        Some(t) => t,
        None => return false,
    };
    if !sum_in_range(&tb, &ta) {
        return false;
    }
    let total = tb.plus(&ta);
    if total.is_zero() {
        return true;
    }
    if !difference_in_range(&tb, &ta) {
        return false;
    }
    let diff = tb.minus(&ta);
    quotient_in_range(&diff, &total)
}

impl BacktestCore {
    /// Whether booking the fills of a trade at `price` and time `now` stays
    /// within range.
    fn trade_fits(&self, price: Dec, now: u64) -> (r: bool)
        requires
            self.wf(),
        ensures
            r == ({
                let s = self.state();
                let sim1 = priced(s.sim, price);
                &&& fees_ok(sim1.orders, price, sim1.fee_rate)
                &&& fills_fit(sim1.balance, sim1.positions, planned_fills(sim1.orders, price, sim1.fee_rate))
                &&& fills_book_ok(s.pnl, s.breaker, self.limits(), sim_outcomes(sim1, price), now)
            }),
    {
        let ghost s0 = self.state();
        let ghost lim = self.limits();
        if !self.sim.fills_fit_at(price) {
            return false;
        }
        let mut trial = self.sim.copy();
        trial.update_price(price);
        let fills = trial.check_fills(price);
        let ghost os = fills@;
        assert(os == sim_outcomes(priced(s0.sim, price), price));
        let mut pnl = self.pnl;
        let mut breaker = self.breaker.copy();
        let mut i: usize = 0;
        assert(os.take(0) =~= Seq::<(Dec, Dec)>::empty());
        while i < fills.len()
            invariant
                os == fills@,
                os == sim_outcomes(priced(s0.sim, price), price),
                self.state() == s0,
                self.limits() == lim,
                fees_ok(priced(s0.sim, price).orders, price, priced(s0.sim, price).fee_rate),
                fills_fit(
                    priced(s0.sim, price).balance,
                    priced(s0.sim, price).positions,
                    planned_fills(priced(s0.sim, price).orders, price, priced(s0.sim, price).fee_rate),
                ),
                i <= os.len(),
                pnl.wf(),
                breaker.limits() == lim,
                fills_book_ok(s0.pnl, s0.breaker, lim, os.take(i as int), now),
                (pnl.state(), breaker.state()) == fills_booked(s0.pnl, s0.breaker, lim, os.take(i as int), now),
            decreases os.len() - i,
        {
            proof {
                assert(os.take(i + 1).drop_last() =~= os.take(i as int));
                assert(os.take(i + 1).last() == os[i as int]);
            }
            let (fill_pnl, fill_fees) = fills[i];
            let ghost prev = fills_booked(s0.pnl, s0.breaker, lim, os.take(i as int), now);
            if !pnl.try_record_trade(fill_pnl, fill_fees) || !difference_in_range(&fill_pnl, &fill_fees) {
                proof {
                    assert(!fills_book_ok(s0.pnl, s0.breaker, lim, os.take(i + 1), now));
                    if fills_book_ok(s0.pnl, s0.breaker, lim, os, now) {
                        lemma_book_ok_prefix(s0.pnl, s0.breaker, lim, os, now, i + 1);
                    }
                }
                return false;
            }
            let net = fill_pnl.minus(&fill_fees);
            if !breaker.result_fits(net) {
                proof {
                    assert(!fills_book_ok(s0.pnl, s0.breaker, lim, os.take(i + 1), now));
                    if fills_book_ok(s0.pnl, s0.breaker, lim, os, now) {
                        lemma_book_ok_prefix(s0.pnl, s0.breaker, lim, os, now, i + 1);
                    }
                }
                return false;
            }
            breaker.on_trade_result_at(net, now);
            i = i + 1;
        }
        assert(os.take(os.len() as int) =~= os);
        true
    }

    /// Whether applying `event` at time `now` stays within range (the
    /// condition of `on_event_at`).
    pub fn event_fits_at(&self, event: &MarketEvent, now: u64) -> (r: bool)
        requires
            self.wf(),
        ensures
            r == event_ok(self.state(), self.limits(), *event, now),
    {
        match event {
            MarketEvent::OrderBookUpdate { bids, asks, .. } => book_fits(bids, asks),
            MarketEvent::Trade(trade) => self.trade_fits(trade.price, now),
            _ => true,
        }
    }

    /// Applies `event` at time `now` when its arithmetic stays within range:
    /// then as `on_event_at` and `Some` of its answer; otherwise nothing
    /// changes and `None`.
    pub fn try_on_event_at(&mut self, event: &MarketEvent, now: u64) -> (r: Option<Option<BookSummary>>)
        requires
            old(self).wf(),
        ensures
            final(self).wf(),
            final(self).limits() == old(self).limits(),
            r is Some <==> event_ok(old(self).state(), old(self).limits(), *event, now),
            r is None ==> final(self).state() == old(self).state(),
            r matches Some(a) ==> final(self).state() == event_applied(old(self).state(), old(self).limits(), *event, now)
                && match *event {
                MarketEvent::OrderBookUpdate { symbol, bids, asks, timestamp_ms, .. } => summary_matches(
                    a,
                    symbol@,
                    bids@,
                    asks@,
                    timestamp_ms,
                ),
                _ => a is None,
            },
    {
        if self.event_fits_at(event, now) {
            Some(self.on_event_at(event, now))
        } else {
            None
        }
    }

    /// Applies `event` now when its arithmetic stays within range (see
    /// `try_on_event_at`; the time is read from the clock).
    pub fn try_on_event(&mut self, event: &MarketEvent) -> (r: Option<Option<BookSummary>>)
        requires
            old(self).wf(),
        ensures
            final(self).wf(),
            final(self).limits() == old(self).limits(),
            exists|now: u64|
                #![trigger event_ok(old(self).state(), old(self).limits(), *event, now)]
                {
                    &&& (r is Some <==> event_ok(old(self).state(), old(self).limits(), *event, now))
                    &&& r is None ==> final(self).state() == old(self).state()
                    &&& r matches Some(a) ==> final(self).state() == event_applied(
                        old(self).state(),
                        old(self).limits(),
                        *event,
                        now,
                    ) && match *event {
                        MarketEvent::OrderBookUpdate { symbol, bids, asks, timestamp_ms, .. } => summary_matches(
                            a,
                            symbol@,
                            bids@,
                            asks@,
                            timestamp_ms,
                        ),
                        _ => a is None,
                    }
                },
    {
        let now = now_ms();
        self.try_on_event_at(event, now)
    }
}

} // verus!
