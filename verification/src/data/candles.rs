//! Building candles (OHLCV bars) from a stream of trades.
use crate::common::types::{Kline, Price, Quantity, Symbol};
use crate::decimal::{dadd, in_range, Dec};
use vstd::prelude::*;

verus! {

/// Supported candle intervals.
#[derive(Debug, Clone, Copy, PartialEq, Eq, Hash, Structural)]
pub enum CandleInterval {
    /// 1 second
    S1,
    /// 5 seconds
    S5,
    /// 15 seconds
    S15,
    /// 1 minute
    M1,
}

/// Duration of an interval in milliseconds.
pub open spec fn interval_millis(i: CandleInterval) -> u64 {
    match i {
        CandleInterval::S1 => 1_000,
        CandleInterval::S5 => 5_000,
        CandleInterval::S15 => 15_000,
        CandleInterval::M1 => 60_000,
    }
}

impl CandleInterval {
    /// Duration in milliseconds.
    pub fn as_millis(&self) -> (r: u64)
        ensures
            r == interval_millis(*self),
    {
        match self {
            CandleInterval::S1 => 1_000,
            CandleInterval::S5 => 5_000,
            CandleInterval::S15 => 15_000,
            CandleInterval::M1 => 60_000,
        }
    }
}

/// The candle being built.
#[derive(Debug, Clone, Copy)]
pub struct CandleState {
    pub open: Price,
    pub high: Price,
    pub low: Price,
    pub close: Price,
    pub volume: Quantity,
    pub trade_count: u64,
    pub open_time_ms: u64,
    pub close_time_ms: u64,
}

/// The start of the window that holds `ts`.
pub open spec fn window_start(ts: u64, interval_ms: u64) -> int {
    ts - ts % interval_ms
}

/// A new candle opened by a trade.
pub open spec fn fresh_candle(price: Dec, qty: Dec, open_ms: int, interval_ms: u64) -> CandleState {
    CandleState {
        open: price,
        high: price,
        low: price,
        close: price,
        volume: qty,
        trade_count: 1,
        open_time_ms: open_ms as u64,
        close_time_ms: (open_ms + interval_ms - 1) as u64,
    }
}

/// A candle after another trade in its window.
pub open spec fn candle_with_trade(s: CandleState, price: Dec, qty: Dec) -> CandleState {
    CandleState {
        high: if price@ > s.high@ {
            price
        } else {
            s.high
        },
        low: if price@ < s.low@ {
            price
        } else {
            s.low
        },
        close: price,
        volume: dadd(s.volume, qty),
        trade_count: (s.trade_count + 1) as u64,
        ..s
    }
}

/// The kline that a finished candle becomes.
pub open spec fn kline_matches(k: Kline, sym: Seq<char>, s: CandleState) -> bool {
    &&& k.symbol@ == sym
    &&& k.open == s.open
    &&& k.high == s.high
    &&& k.low == s.low
    &&& k.close == s.close
    &&& k.volume == s.volume
    &&& k.open_time_ms == s.open_time_ms
    &&& k.close_time_ms == s.close_time_ms
}

/// Builds candles from incoming trades.
#[derive(Debug, Clone)]
pub struct CandleAggregator {
    symbol: Symbol,
    interval: CandleInterval,
    interval_ms: u64,
    current: Option<CandleState>,
}

impl CandleAggregator {
    pub closed spec fn wf(&self) -> bool {
        self.interval_ms == interval_millis(self.interval)
    }

    /// The candle being built, if any.
    pub closed spec fn current_candle(&self) -> Option<CandleState> {
        self.current
    }

    pub closed spec fn symbol_view(&self) -> Seq<char> {
        self.symbol@
    }

    pub closed spec fn interval_spec(&self) -> CandleInterval {
        self.interval
    }

    /// Create a new aggregator for the given symbol and interval.
    pub fn new(symbol: Symbol, interval: CandleInterval) -> (r: Self)
        ensures
            r.wf(),
            r.current_candle() is None,
            r.symbol_view() == symbol@,
            r.interval_spec() == interval,
    {
        CandleAggregator { symbol, interval, interval_ms: interval.as_millis(), current: None }
    }

    /// The candle interval.
    pub fn interval(&self) -> (r: CandleInterval)
        ensures
            r == self.interval_spec(),
    {
        self.interval
    }

    /// Whether a trade at `ts` with `qty` can be taken without overflow: the
    /// window's end fits in a `u64`, and a trade that joins the current candle
    /// keeps its volume and trade count in range.
    pub open spec fn trade_ok(&self, qty: Dec, ts: u64) -> bool {
        let ms = interval_millis(self.interval_spec());
        &&& window_start(ts, ms) + ms - 1 <= u64::MAX
        &&& match self.current_candle() {
            Some(s) => s.open_time_ms == window_start(ts, ms) ==> {
                &&& in_range(s.volume@ + qty@)
                &&& s.trade_count < u64::MAX
            },
            None => true,
        }
    }

    /// Feed a trade. Returns the finished candle when the trade belongs to
    /// another window than the current candle, which is then replaced by a
    /// new one opened by this trade; otherwise the trade updates the current
    /// candle (or opens the first one).
    pub fn on_trade(&mut self, price: Price, quantity: Quantity, timestamp_ms: u64) -> (r: Option<
        Kline,
    >)
        requires
            old(self).wf(),
            old(self).trade_ok(quantity, timestamp_ms),
        ensures
            final(self).wf(),
            final(self).symbol_view() == old(self).symbol_view(),
            final(self).interval_spec() == old(self).interval_spec(),
            ({
                let ms = interval_millis(old(self).interval_spec());
                let open = window_start(timestamp_ms, ms);
                match old(self).current_candle() {
                    None => r is None && final(self).current_candle() == Some(
                        fresh_candle(price, quantity, open, ms),
                    ),
                    Some(s) => if s.open_time_ms != open {
                        r matches Some(k) && kline_matches(k, old(self).symbol_view(), s)
                            && final(self).current_candle() == Some(
                            fresh_candle(price, quantity, open, ms),
                        )
                    } else {
                        r is None && final(self).current_candle() == Some(
                            candle_with_trade(s, price, quantity),
                        )
                    },
                }
            }),
    {
        let candle_open = self.align_timestamp(timestamp_ms);
        let candle_close = candle_open + self.interval_ms - 1;
        let completed = match self.current {
            Some(state) => {
                if candle_open != state.open_time_ms {
                    Some(self.state_to_kline(&state))
                } else {
                    None
                }
            },
            None => None,
        };
        let starts_new = match self.current {
            Some(state) => candle_open != state.open_time_ms,
            None => true,
        };
        if starts_new {
            self.current = Some(
                CandleState {
                    open: price,
                    high: price,
                    low: price,
                    close: price,
                    volume: quantity,
                    trade_count: 1,
                    open_time_ms: candle_open,
                    close_time_ms: candle_close,
                },
            );
            return completed;
        }
        match self.current {
            Some(state) => {
                let mut s = state;
                if s.high.lt(&price) {
                    s.high = price;
                }
                if price.lt(&s.low) {
                    s.low = price;
                }
                s.close = price;
                s.volume = s.volume.plus(&quantity);
                s.trade_count = s.trade_count + 1;
                self.current = Some(s);
            },
            None => {},
        }
        completed
    }

    /// Force-close the current candle (e.g. on disconnect).
    pub fn flush(&mut self) -> (r: Option<Kline>)
        ensures
            final(self).current_candle() is None,
            final(self).symbol_view() == old(self).symbol_view(),
            final(self).interval_spec() == old(self).interval_spec(),
            old(self).wf() ==> final(self).wf(),
            match old(self).current_candle() {
                None => r is None,
                Some(s) => r matches Some(k) && kline_matches(k, old(self).symbol_view(), s),
            },
    {
        match self.current.take() {
            Some(state) => Some(self.state_to_kline(&state)),
            None => None,
        }
    }

    /// Align a timestamp to the start of its interval window.
    fn align_timestamp(&self, ts: u64) -> (r: u64)
        requires
            self.wf(),
        ensures
            r == window_start(ts, self.interval_ms),
    {
        ts - (ts % self.interval_ms)
    }

    fn state_to_kline(&self, state: &CandleState) -> (r: Kline)
        ensures
            kline_matches(r, self.symbol@, *state),
    {
        Kline {
            symbol: self.symbol.clone(),
            open: state.open,
            high: state.high,
            low: state.low,
            close: state.close,
            volume: state.volume,
            open_time_ms: state.open_time_ms,
            close_time_ms: state.close_time_ms,
        }
    }
}

/// A candle's low never exceeds its high, and every traded price lies
/// between them: a fresh candle has all four prices equal, and each further
/// trade widens the range to include its price.
pub proof fn lemma_candle_range(s: CandleState, price: Dec, qty: Dec, open_ms: int, interval_ms: u64)
    requires
        s.low@ <= s.high@,
    ensures
        fresh_candle(price, qty, open_ms, interval_ms).low@ <= price@ <= fresh_candle(
            price,
            qty,
            open_ms,
            interval_ms,
        ).high@,
        candle_with_trade(s, price, qty).low@ <= price@ <= candle_with_trade(s, price, qty).high@,
        candle_with_trade(s, price, qty).low@ <= s.low@,
        candle_with_trade(s, price, qty).high@ >= s.high@,
        candle_with_trade(s, price, qty).open == s.open,
        candle_with_trade(s, price, qty).close == price,
{
}

} // verus!
