//! Turning Bybit stream messages into market events.
use crate::common::text::{after_last, last_segment, starts_with, str_eq};
use crate::common::types::{AggTrade, Exchange, Kline, MarketEvent, Symbol};
use crate::exchange::bybit::models::{KlineData, OrderBookSnapshot, PublicTrade, TickerData};
use crate::exchange::parsing::{
    parse_dec, parse_levels, parse_or_zero, parsed_dec, parsed_levels, parsed_or_zero, unsigned_parse,
};
use vstd::prelude::*;

verus! {

/// What to do with a Bybit stream message.
#[derive(Debug, Clone, Copy, PartialEq, Eq, Structural)]
pub enum MessageRoute {
    /// An operation answer (pong, subscription, authentication) or a message
    /// without topic or data: nothing to emit.
    Ignore,
    OrderBook,
    PublicTrade,
    Kline,
    Ticker,
    /// A topic this feed does not handle.
    Unknown,
}

/// Whether `s` starts with `prefix`.
pub open spec fn has_prefix(s: Seq<char>, prefix: Seq<char>) -> bool {
    prefix.len() <= s.len() && s.subrange(0, prefix.len() as int) == prefix
}

/// The route of a message with the given operation, topic and data.
pub open spec fn route_of(op: Option<Seq<char>>, topic: Option<Seq<char>>, has_data: bool) -> MessageRoute {
    if op is Some || topic is None || !has_data {
        MessageRoute::Ignore
    } else {
        let t = topic.unwrap();
        if has_prefix(t, "orderbook."@) {
            MessageRoute::OrderBook
        } else if has_prefix(t, "publicTrade."@) {
            MessageRoute::PublicTrade
        } else if has_prefix(t, "kline."@) {
            MessageRoute::Kline
        } else if has_prefix(t, "tickers."@) {
            MessageRoute::Ticker
        } else {
            MessageRoute::Unknown
        }
    }
}

/// Routes a message by its operation (answers to operations emit nothing)
/// and then by its topic prefix.
pub fn route_message(op: Option<&str>, topic: Option<&str>, has_data: bool) -> (r: MessageRoute)
    ensures
        r == route_of(
            match op {
                Some(o) => Some(o@),
                None => None,
            },
            match topic {
                Some(t) => Some(t@),
                None => None,
            },
            has_data,
        ),
{
    if op.is_some() {
        return MessageRoute::Ignore;
    }
    let t = match topic {
        Some(t) => t,
        None => return MessageRoute::Ignore,
    };
    if !has_data {
        return MessageRoute::Ignore;
    }
    if starts_with(t, "orderbook.") {
        MessageRoute::OrderBook
    } else if starts_with(t, "publicTrade.") {
        MessageRoute::PublicTrade
    } else if starts_with(t, "kline.") {
        MessageRoute::Kline
    } else if starts_with(t, "tickers.") {
        MessageRoute::Ticker
    } else {
        MessageRoute::Unknown
    }
}

/// An order book update from a snapshot or delta, stamped with the
/// message time.
pub fn orderbook_event(ob: &OrderBookSnapshot, ts: u64) -> (r: MarketEvent)
    ensures
        r matches MarketEvent::OrderBookUpdate { exchange, symbol, bids, asks, timestamp_ms } && exchange
            == Exchange::Bybit && symbol@ == ob.s@ && bids@ == parsed_levels(ob.b@) && asks@
            == parsed_levels(ob.a@) && timestamp_ms == ts,
{
    MarketEvent::OrderBookUpdate {
        exchange: Exchange::Bybit,
        symbol: Symbol::new(ob.s.as_str()),
        bids: parse_levels(&ob.b),
        asks: parse_levels(&ob.a),
        timestamp_ms: ts,
    }
}

/// Whether `e` is the trade event of a public trade whose price and
/// quantity read as `p` and `q`: a sell-side aggressor means the buyer was
/// the maker.
pub open spec fn is_trade_event(e: MarketEvent, t: PublicTrade, p: crate::decimal::Dec, q: crate::decimal::Dec) -> bool {
    e matches MarketEvent::Trade(a) && a.symbol@ == t.s@ && a.price == p && a.quantity == q
        && a.timestamp_ms == t.timestamp && a.is_buyer_maker == (t.side@ == "Sell"@)
}

/// The trades whose price and quantity both read as decimals, in order.
pub open spec fn readable_trades(ts: Seq<PublicTrade>) -> Seq<PublicTrade>
    decreases ts.len(),
{
    if ts.len() == 0 {
        Seq::empty()
    } else {
        let rest = readable_trades(ts.drop_last());
        let t = ts.last();
        if parsed_dec(t.p@) is Some && parsed_dec(t.v@) is Some {
            rest.push(t)
        } else {
            rest
        }
    }
}

/// The trade events of public trades; trades whose price or quantity does
/// not read are skipped.
pub fn trade_events(trades: &Vec<PublicTrade>) -> (r: Vec<MarketEvent>)
    ensures
        r@.len() == readable_trades(trades@).len(),
        forall|i: int|
            0 <= i < r@.len() ==> {
                let t = readable_trades(trades@)[i];
                is_trade_event(#[trigger] r@[i], t, parsed_dec(t.p@).unwrap(), parsed_dec(t.v@).unwrap())
            },
{
    let mut out: Vec<MarketEvent> = Vec::new();
    let mut i: usize = 0;
    assert(trades@.take(0) =~= Seq::<PublicTrade>::empty());
    while i < trades.len()
        invariant
            i <= trades@.len(),
            out@.len() == readable_trades(trades@.take(i as int)).len(),
            forall|k: int|
                0 <= k < out@.len() ==> {
                    let t = readable_trades(trades@.take(i as int))[k];
                    is_trade_event(
                        #[trigger] out@[k],
                        t,
                        parsed_dec(t.p@).unwrap(),
                        parsed_dec(t.v@).unwrap(),
                    )
                },
        decreases trades@.len() - i,
    {
        proof {
            assert(trades@.take(i + 1).drop_last() =~= trades@.take(i as int));
            assert(trades@.take(i + 1).last() == trades@[i as int]);
        }
        let t = &trades[i];
        match (parse_dec(t.p.as_str()), parse_dec(t.v.as_str())) {
            (Some(p), Some(q)) => {
                let is_buyer_maker = str_eq(t.side.as_str(), "Sell");
                out.push(
                    MarketEvent::Trade(
                        AggTrade {
                            symbol: Symbol::new(t.s.as_str()),
                            price: p,
                            quantity: q,
                            timestamp_ms: t.timestamp,
                            is_buyer_maker,
                        },
                    ),
                );
            },
            _ => {},
        }
        i = i + 1;
    }
    assert(trades@.take(trades@.len() as int) =~= trades@);
    out
}

/// Whether `e` is the closed-candle event of kline `k` on `symbol`.
pub open spec fn is_kline_event(e: MarketEvent, k: KlineData, symbol: Seq<char>) -> bool {
    e matches MarketEvent::KlineClose(c) && c.symbol@ == symbol && c.open == parsed_or_zero(k.open@)
        && c.high == parsed_or_zero(k.high@) && c.low == parsed_or_zero(k.low@) && c.close
        == parsed_or_zero(k.close@) && c.volume == parsed_or_zero(k.volume@) && c.open_time_ms
        == k.start && c.close_time_ms == k.end
}

/// The confirmed (closed) klines, in order.
pub open spec fn confirmed(ks: Seq<KlineData>) -> Seq<KlineData>
    decreases ks.len(),
{
    if ks.len() == 0 {
        Seq::empty()
    } else if ks.last().confirm {
        confirmed(ks.drop_last()).push(ks.last())
    } else {
        confirmed(ks.drop_last())
    }
}

/// Closed-candle events of the confirmed klines of a `kline.<interval>.<symbol>`
/// topic; the symbol is the topic's last dot-separated part.
pub fn kline_events(topic: &str, klines: &Vec<KlineData>) -> (r: Vec<MarketEvent>)
    ensures
        r@.len() == confirmed(klines@).len(),
        forall|i: int|
            0 <= i < r@.len() ==> is_kline_event(#[trigger] r@[i], confirmed(klines@)[i], after_last(topic@, '.')),
{
    let symbol = last_segment(topic, '.');
    let mut out: Vec<MarketEvent> = Vec::new();
    let mut i: usize = 0;
    assert(klines@.take(0) =~= Seq::<KlineData>::empty());
    while i < klines.len()
        invariant
            symbol@ == after_last(topic@, '.'),
            i <= klines@.len(),
            out@.len() == confirmed(klines@.take(i as int)).len(),
            forall|k: int|
                0 <= k < out@.len() ==> is_kline_event(
                    #[trigger] out@[k],
                    confirmed(klines@.take(i as int))[k],
                    symbol@,
                ),
        decreases klines@.len() - i,
    {
        proof {
            assert(klines@.take(i + 1).drop_last() =~= klines@.take(i as int));
            assert(klines@.take(i + 1).last() == klines@[i as int]);
        }
        let k = &klines[i];
        if k.confirm {
            out.push(
                MarketEvent::KlineClose(
                    Kline {
                        symbol: Symbol::new(symbol.as_str()),
                        open: parse_or_zero(k.open.as_str()),
                        high: parse_or_zero(k.high.as_str()),
                        low: parse_or_zero(k.low.as_str()),
                        close: parse_or_zero(k.close.as_str()),
                        volume: parse_or_zero(k.volume.as_str()),
                        open_time_ms: k.start,
                        close_time_ms: k.end,
                    },
                ),
            );
        }
        i = i + 1;
    }
    assert(klines@.take(klines@.len() as int) =~= klines@);
    out
}

/// The number that `u64::from_str` reads from a text, if it reads one.
pub open spec fn u64_parse(s: Seq<char>) -> Option<u64> {
    match unsigned_parse(s, u64::MAX as nat) {
        Some(v) => Some(v as u64),
        None => None,
    }
}

/// `str::parse::<u64>`: an optional `+` followed by decimal digits only, of
/// a value that fits; `None` otherwise (see `unsigned_parse`).
#[verifier::external_body]
fn parse_u64(s: &str) -> (r: Option<u64>)
    ensures
        r == u64_parse(s@),
{
    s.parse::<u64>().ok()
}

/// A decimal from optional text: zero when absent or unreadable.
pub open spec fn optional_or_zero(s: Option<String>) -> crate::decimal::Dec {
    match s {
        Some(t) => parsed_or_zero(t@),
        None => crate::decimal::zero_dec(),
    }
}

fn optional_dec(s: &Option<String>) -> (r: crate::decimal::Dec)
    ensures
        r == optional_or_zero(*s),
{
    match s {
        Some(t) => parse_or_zero(t.as_str()),
        None => crate::decimal::Dec::zero(),
    }
}

/// A mark price event from a ticker, or `None` when the mark price is zero
/// or missing; the next funding time is zero when it does not read.
pub fn ticker_event(ticker: &TickerData) -> (r: Option<MarketEvent>)
    ensures
        optional_or_zero(ticker.mark_price)@ == 0 ==> r is None,
        optional_or_zero(ticker.mark_price)@ != 0 ==> (r matches Some(
            MarketEvent::MarkPrice { symbol, mark_price, funding_rate, next_funding_time_ms },
        ) && symbol@ == ticker.symbol@ && mark_price == optional_or_zero(ticker.mark_price)
            && funding_rate == optional_or_zero(ticker.funding_rate) && next_funding_time_ms == match ticker.next_funding_time {
            Some(t) => match u64_parse(t@) {
                Some(n) => n,
                None => 0,
            },
            None => 0,
        }),
{
    let mark_price = optional_dec(&ticker.mark_price);
    let funding_rate = optional_dec(&ticker.funding_rate);
    let next_funding = match &ticker.next_funding_time {
        Some(t) => match parse_u64(t.as_str()) {
            Some(n) => n,
            None => 0,
        },
        None => 0,
    };
    if mark_price.is_zero() {
        return None;
    }
    Some(
        MarketEvent::MarkPrice {
            symbol: Symbol::new(ticker.symbol.as_str()),
            mark_price,
            funding_rate,
            next_funding_time_ms: next_funding,
        },
    )
}

/// The four topics of a symbol: the 50-level order book, public trades,
/// one-minute klines and the ticker.
pub open spec fn symbol_topics(symbol: Seq<char>) -> Seq<Seq<char>> {
    seq![
        "orderbook.50."@ + symbol,
        "publicTrade."@ + symbol,
        "kline.1."@ + symbol,
        "tickers."@ + symbol,
    ]
}

/// The topics of all symbols in order.
pub open spec fn topics_of(symbols: Seq<Symbol>) -> Seq<Seq<char>>
    decreases symbols.len(),
{
    if symbols.len() == 0 {
        Seq::empty()
    } else {
        topics_of(symbols.drop_last()) + symbol_topics(symbols.last()@)
    }
}

fn prefixed_topic(prefix: &str, symbol: &Symbol) -> (r: String)
    ensures
        r@ == prefix@ + symbol@,
{
    let mut t = String::from_str(prefix);
    t.append(symbol.as_str());
    t
}

/// The arguments of the subscription message for `symbols`.
pub fn subscribe_topics(symbols: &[Symbol]) -> (r: Vec<String>)
    ensures
        r@.map_values(|t: String| t@) == topics_of(symbols@),
{
    let mut topics: Vec<String> = Vec::new();
    let mut i: usize = 0;
    assert(symbols@.take(0) =~= Seq::<Symbol>::empty());
    while i < symbols.len()
        invariant
            i <= symbols@.len(),
            topics@.map_values(|t: String| t@) == topics_of(symbols@.take(i as int)),
        decreases symbols@.len() - i,
    {
        proof {
            assert(symbols@.take(i + 1).drop_last() =~= symbols@.take(i as int));
            assert(symbols@.take(i + 1).last() == symbols@[i as int]);
        }
        let ghost before = topics@;
        topics.push(prefixed_topic("orderbook.50.", &symbols[i]));
        topics.push(prefixed_topic("publicTrade.", &symbols[i]));
        topics.push(prefixed_topic("kline.1.", &symbols[i]));
        topics.push(prefixed_topic("tickers.", &symbols[i]));
        proof {
            assert(topics@.map_values(|t: String| t@) =~= before.map_values(|t: String| t@)
                + symbol_topics(symbols@[i as int]@));
        }
        i = i + 1;
    }
    assert(symbols@.take(symbols@.len() as int) =~= symbols@);
    topics
}

} // verus!
