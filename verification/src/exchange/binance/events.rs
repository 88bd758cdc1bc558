//! Turning Binance stream messages into market events.
use crate::common::text::{contains, ends_with, join, joined, occurs_at, str_eq, to_lowercase, unicode_lowercase};
use crate::common::time::{decimal_digits, u64_text};
use crate::common::types::{
    AccountBalance, AggTrade, Exchange, Kline, MarketEvent, OrderResponse, OrderStatus, OrderType,
    Position, Side, Symbol,
};
use crate::decimal::{dabs, difference_in_range, dsub, in_range, zero_dec, Dec};
use crate::exchange::binance::models::{
    BinanceAggTrade, BinanceKlineEvent, BinanceMarkPrice, DepthUpdate, UserDataBalance,
    UserDataEvent, UserDataOrder, UserDataPosition,
};
use crate::exchange::parsing::{
    parse_dec, parse_levels, parse_or_zero, parsed_dec, parsed_levels, parsed_or_zero,
};
use vstd::prelude::*;

verus! {

/// The kind of a combined-stream message, read from its stream name.
#[derive(Debug, Clone, Copy, PartialEq, Eq, Structural)]
pub enum StreamKind {
    Depth,
    AggTrade,
    Kline,
    MarkPrice,
    UserData,
}

/// Whether `s` ends with `suffix`.
pub open spec fn has_suffix(s: Seq<char>, suffix: Seq<char>) -> bool {
    suffix.len() <= s.len() && occurs_at(s, suffix, s.len() - suffix.len())
}

/// Whether `part` occurs in `s`.
pub open spec fn has_part(s: Seq<char>, part: Seq<char>) -> bool {
    exists|at: int| #[trigger] occurs_at(s, part, at)
}

/// The kind of a stream: depth, aggregated trades, klines, mark price, or
/// else the user data stream.
pub open spec fn kind_of_stream(s: Seq<char>) -> StreamKind {
    if has_suffix(s, "@depth@100ms"@) {
        StreamKind::Depth
    } else if has_suffix(s, "@aggTrade"@) {
        StreamKind::AggTrade
    } else if has_part(s, "@kline_"@) {
        StreamKind::Kline
    } else if has_part(s, "@markPrice"@) {
        StreamKind::MarkPrice
    } else {
        StreamKind::UserData
    }
}

/// The kind of a combined-stream message.
pub fn stream_kind(stream: &str) -> (r: StreamKind)
    ensures
        r == kind_of_stream(stream@),
{
    if ends_with(stream, "@depth@100ms") {
        StreamKind::Depth
    } else if ends_with(stream, "@aggTrade") {
        StreamKind::AggTrade
    } else if contains(stream, "@kline_") {
        StreamKind::Kline
    } else if contains(stream, "@markPrice") {
        StreamKind::MarkPrice
    } else {
        StreamKind::UserData
    }
}

/// An order book update from a depth message: the levels that read as
/// decimals, stamped with the transaction time.
pub fn depth_event(depth: &DepthUpdate) -> (r: MarketEvent)
    ensures
        r matches MarketEvent::OrderBookUpdate { exchange, symbol, bids, asks, timestamp_ms } && exchange
            == Exchange::Binance && symbol@ == depth.symbol@ && bids@ == parsed_levels(depth.bids@)
            && asks@ == parsed_levels(depth.asks@) && timestamp_ms == depth.transaction_time,
{
    MarketEvent::OrderBookUpdate {
        exchange: Exchange::Binance,
        symbol: Symbol::new(depth.symbol.as_str()),
        bids: parse_levels(&depth.bids),
        asks: parse_levels(&depth.asks),
        timestamp_ms: depth.transaction_time,
    }
}

/// A trade event from an aggregated trade, or `None` when its price or
/// quantity does not read as a decimal.
pub fn agg_trade_event(trade: &BinanceAggTrade) -> (r: Option<MarketEvent>)
    ensures
        match (parsed_dec(trade.price@), parsed_dec(trade.quantity@)) {
            (Some(p), Some(q)) => r matches Some(MarketEvent::Trade(a)) && a.symbol@ == trade.symbol@
                && a.price == p && a.quantity == q && a.timestamp_ms == trade.trade_time
                && a.is_buyer_maker == trade.is_buyer_maker,
            _ => r is None,
        },
{
    let price = match parse_dec(trade.price.as_str()) {
        Some(p) => p,
        None => return None,
    };
    let quantity = match parse_dec(trade.quantity.as_str()) {
        Some(q) => q,
        None => return None,
    };
    Some(
        MarketEvent::Trade(
            AggTrade {
                symbol: Symbol::new(trade.symbol.as_str()),
                price,
                quantity,
                timestamp_ms: trade.trade_time,
                is_buyer_maker: trade.is_buyer_maker,
            },
        ),
    )
}

/// A closed-candle event, only once the kline is closed; prices that do
/// not read as decimals count as zero.
pub fn kline_event(event: &BinanceKlineEvent) -> (r: Option<MarketEvent>)
    ensures
        !event.kline.is_closed ==> r is None,
        event.kline.is_closed ==> (r matches Some(MarketEvent::KlineClose(k)) && k.symbol@
            == event.symbol@ && k.open == parsed_or_zero(event.kline.open@) && k.high
            == parsed_or_zero(event.kline.high@) && k.low == parsed_or_zero(event.kline.low@)
            && k.close == parsed_or_zero(event.kline.close@) && k.volume == parsed_or_zero(
            event.kline.volume@,
        ) && k.open_time_ms == event.kline.open_time && k.close_time_ms
            == event.kline.close_time),
{
    if !event.kline.is_closed {
        return None;
    }
    let k = &event.kline;
    Some(
        MarketEvent::KlineClose(
            Kline {
                symbol: Symbol::new(event.symbol.as_str()),
                open: parse_or_zero(k.open.as_str()),
                high: parse_or_zero(k.high.as_str()),
                low: parse_or_zero(k.low.as_str()),
                close: parse_or_zero(k.close.as_str()),
                volume: parse_or_zero(k.volume.as_str()),
                open_time_ms: k.open_time,
                close_time_ms: k.close_time,
            },
        ),
    )
}

/// A mark price event; values that do not read as decimals count as zero.
pub fn mark_price_event(mp: &BinanceMarkPrice) -> (r: MarketEvent)
    ensures
        r matches MarketEvent::MarkPrice { symbol, mark_price, funding_rate, next_funding_time_ms }
            && symbol@ == mp.symbol@ && mark_price == parsed_or_zero(mp.mark_price@) && funding_rate
            == parsed_or_zero(mp.funding_rate@) && next_funding_time_ms == mp.next_funding_time,
{
    MarketEvent::MarkPrice {
        symbol: Symbol::new(mp.symbol.as_str()),
        mark_price: parse_or_zero(mp.mark_price.as_str()),
        funding_rate: parse_or_zero(mp.funding_rate.as_str()),
        next_funding_time_ms: mp.next_funding_time,
    }
}

/// The side an order update names: `BUY`, or else sell.
pub open spec fn side_named(s: Seq<char>) -> Side {
    if s == "BUY"@ {
        Side::Buy
    } else {
        Side::Sell
    }
}

/// The order type an order update names; unknown names are limit orders.
pub open spec fn order_type_named(s: Seq<char>) -> OrderType {
    if s == "MARKET"@ {
        OrderType::Market
    } else if s == "STOP_MARKET"@ {
        OrderType::StopMarket
    } else if s == "TAKE_PROFIT_MARKET"@ {
        OrderType::TakeProfitMarket
    } else {
        OrderType::Limit
    }
}

/// The status an order update names; unknown names are new orders.
pub open spec fn status_named(s: Seq<char>) -> OrderStatus {
    if s == "NEW"@ {
        OrderStatus::New
    } else if s == "PARTIALLY_FILLED"@ {
        OrderStatus::PartiallyFilled
    } else if s == "FILLED"@ {
        OrderStatus::Filled
    } else if s == "CANCELED"@ {
        OrderStatus::Canceled
    } else if s == "REJECTED"@ {
        OrderStatus::Rejected
    } else if s == "EXPIRED"@ {
        OrderStatus::Expired
    } else {
        OrderStatus::New
    }
}

/// The name Binance gives each order status.
pub open spec fn binance_status_name(st: OrderStatus) -> Seq<char> {
    match st {
        OrderStatus::New => "NEW"@,
        OrderStatus::PartiallyFilled => "PARTIALLY_FILLED"@,
        OrderStatus::Filled => "FILLED"@,
        OrderStatus::Canceled => "CANCELED"@,
        OrderStatus::Rejected => "REJECTED"@,
        OrderStatus::Expired => "EXPIRED"@,
    }
}

/// Every status is read back from its own Binance name, so different names
/// give different statuses: a cancelled, rejected or expired order is never
/// reported as open, and a filled one never as partly filled.
pub proof fn lemma_status_names_read_back(st: OrderStatus)
    ensures
        status_named(binance_status_name(st)) == st,
{
    reveal_strlit("NEW");
    reveal_strlit("PARTIALLY_FILLED");
    reveal_strlit("FILLED");
    reveal_strlit("CANCELED");
    reveal_strlit("REJECTED");
    reveal_strlit("EXPIRED");
    assert("NEW"@.len() == 3);
    assert("FILLED"@.len() == 6);
    assert("CANCELED"@.len() == 8);
    assert("REJECTED"@.len() == 8);
    assert("EXPIRED"@.len() == 7);
    assert("PARTIALLY_FILLED"@.len() == 16);
    assert("CANCELED"@[0] != "REJECTED"@[0]);
}

/// Whether `r` is the order response that an order update describes: a
/// price of zero (or one that does not read) means no price.
pub open spec fn order_update_matches(o: UserDataOrder, r: OrderResponse) -> bool {
    &&& r.order_id@ == decimal_digits(o.order_id as nat)
    &&& r.client_order_id@ == o.client_order_id@
    &&& r.symbol@ == o.symbol@
    &&& r.side == side_named(o.side@)
    &&& r.order_type == order_type_named(o.order_type@)
    &&& r.quantity == parsed_or_zero(o.original_quantity@)
    &&& r.price == match parsed_dec(o.original_price@) {
        Some(p) => if p@ != 0 {
            Some(p)
        } else {
            None
        },
        None => None,
    }
    &&& r.status == status_named(o.order_status@)
    &&& r.timestamp_ms == o.order_trade_time
}

/// The side that Binance names: `BUY`, or else sell.
pub fn parse_side(s: &str) -> (r: Side)
    ensures
        r == side_named(s@),
{
    if str_eq(s, "BUY") {
        Side::Buy
    } else {
        Side::Sell
    }
}

/// The order type that Binance names; unknown names are limit orders.
pub fn parse_order_type(s: &str) -> (r: OrderType)
    ensures
        r == order_type_named(s@),
{
    if str_eq(s, "MARKET") {
        OrderType::Market
    } else if str_eq(s, "STOP_MARKET") {
        OrderType::StopMarket
    } else if str_eq(s, "TAKE_PROFIT_MARKET") {
        OrderType::TakeProfitMarket
    } else {
        OrderType::Limit
    }
}

/// The order status that Binance names; unknown names are new orders.
pub fn parse_order_status(s: &str) -> (r: OrderStatus)
    ensures
        r == status_named(s@),
{
    if str_eq(s, "NEW") {
        OrderStatus::New
    } else if str_eq(s, "PARTIALLY_FILLED") {
        OrderStatus::PartiallyFilled
    } else if str_eq(s, "FILLED") {
        OrderStatus::Filled
    } else if str_eq(s, "CANCELED") {
        OrderStatus::Canceled
    } else if str_eq(s, "REJECTED") {
        OrderStatus::Rejected
    } else if str_eq(s, "EXPIRED") {
        OrderStatus::Expired
    } else {
        OrderStatus::New
    }
}

/// The order response that an order update describes.
pub fn order_update(o: &UserDataOrder) -> (r: OrderResponse)
    ensures
        order_update_matches(*o, r),
{
    let price = match parse_dec(o.original_price.as_str()) {
        Some(p) => if p.is_zero() {
            None
        } else {
            Some(p)
        },
        None => None,
    };
    OrderResponse {
        order_id: u64_text(o.order_id),
        client_order_id: o.client_order_id.clone(),
        symbol: Symbol::new(o.symbol.as_str()),
        side: parse_side(o.side.as_str()),
        order_type: parse_order_type(o.order_type.as_str()),
        quantity: parse_or_zero(o.original_quantity.as_str()),
        price,
        status: parse_order_status(o.order_status.as_str()),
        timestamp_ms: o.order_trade_time,
    }
}

/// A position update as plain data.
pub struct PositionUpdateView {
    pub symbol: Seq<char>,
    pub side: Side,
    pub quantity: Dec,
    pub entry_price: Dec,
    pub unrealized_pnl: Dec,
}

/// Whether `e` is the position update event `v` (leverage and margin are
/// not in the stream and are zero).
pub open spec fn is_position_event(e: MarketEvent, v: PositionUpdateView) -> bool {
    e matches MarketEvent::PositionUpdate(p) && p.symbol@ == v.symbol && p.side == v.side
        && p.quantity == v.quantity && p.entry_price == v.entry_price && p.unrealized_pnl
        == v.unrealized_pnl && p.leverage == 0 && p.margin == zero_dec()
}

/// The position updates of an account update: one per position with a
/// nonzero amount, long when the amount is positive, with its magnitude.
pub open spec fn position_updates(ps: Seq<UserDataPosition>) -> Seq<PositionUpdateView>
    decreases ps.len(),
{
    if ps.len() == 0 {
        Seq::empty()
    } else {
        let rest = position_updates(ps.drop_last());
        let p = ps.last();
        let qty = parsed_or_zero(p.position_amount@);
        if qty@ == 0 {
            rest
        } else {
            rest.push(
                PositionUpdateView {
                    symbol: p.symbol@,
                    side: if qty@ >= 0 {
                        Side::Buy
                    } else {
                        Side::Sell
                    },
                    quantity: dabs(qty),
                    entry_price: parsed_or_zero(p.entry_price@),
                    unrealized_pnl: parsed_or_zero(p.unrealized_pnl@),
                },
            )
        }
    }
}

/// The index of the first USDT balance, or -1.
pub open spec fn first_usdt(bs: Seq<UserDataBalance>) -> int {
    if exists|i: int| 0 <= i < bs.len() && (#[trigger] bs[i]).asset@ == "USDT"@ {
        choose|i: int|
            0 <= i < bs.len() && (#[trigger] bs[i]).asset@ == "USDT"@ && forall|j: int|
                0 <= j < i ==> (#[trigger] bs[j]).asset@ != "USDT"@
    } else {
        -1
    }
}

/// Whether `e` is the balance event of a USDT balance: wallet balance as
/// total, cross wallet balance as available, their difference as margin.
pub open spec fn is_balance_event(e: MarketEvent, b: UserDataBalance) -> bool {
    let total = parsed_or_zero(b.wallet_balance@);
    let cross = parsed_or_zero(b.cross_wallet_balance@);
    e matches MarketEvent::BalanceUpdate(a) && a.total_balance == total && a.available_balance
        == cross && a.unrealized_pnl == zero_dec() && a.margin_used == dsub(total, cross)
}

/// The margin of the first USDT balance can be computed.
pub open spec fn user_data_fits(e: UserDataEvent) -> bool {
    e.event_type@ == "ACCOUNT_UPDATE"@ && e.account is Some ==> {
        let bs = e.account.unwrap().balances@;
        let i = first_usdt(bs);
        i >= 0 ==> in_range(
            parsed_or_zero(bs[i].wallet_balance@)@ - parsed_or_zero(bs[i].cross_wallet_balance@)@,
        )
    }
}

fn position_events(ps: &Vec<UserDataPosition>) -> (r: Vec<MarketEvent>)
    ensures
        r@.len() == position_updates(ps@).len(),
        forall|i: int| 0 <= i < r@.len() ==> is_position_event(#[trigger] r@[i], position_updates(ps@)[i]),
{
    let mut out: Vec<MarketEvent> = Vec::new();
    let mut i: usize = 0;
    assert(ps@.take(0) =~= Seq::<UserDataPosition>::empty());
    while i < ps.len()
        invariant
            i <= ps@.len(),
            out@.len() == position_updates(ps@.take(i as int)).len(),
            forall|k: int|
                0 <= k < out@.len() ==> is_position_event(
                    #[trigger] out@[k],
                    position_updates(ps@.take(i as int))[k],
                ),
        decreases ps@.len() - i,
    {
        proof {
            assert(ps@.take(i + 1).drop_last() =~= ps@.take(i as int));
            assert(ps@.take(i + 1).last() == ps@[i as int]);
        }
        let p = &ps[i];
        let qty = parse_or_zero(p.position_amount.as_str());
        if !qty.is_zero() {
            let zero = Dec::zero();
            let side = if zero.le(&qty) {
                Side::Buy
            } else {
                Side::Sell
            };
            let pos = Position {
                symbol: Symbol::new(p.symbol.as_str()),
                side,
                quantity: qty.abs(),
                entry_price: parse_or_zero(p.entry_price.as_str()),
                unrealized_pnl: parse_or_zero(p.unrealized_pnl.as_str()),
                leverage: 0,
                margin: Dec::zero(),
            };
            out.push(MarketEvent::PositionUpdate(pos));
        }
        i = i + 1;
    }
    assert(ps@.take(ps@.len() as int) =~= ps@);
    out
}

fn first_usdt_index(bs: &Vec<UserDataBalance>) -> (r: Option<usize>)
    ensures
        match r {
            Some(i) => i as int == first_usdt(bs@) && i < bs@.len(),
            None => first_usdt(bs@) == -1,
        },
{
    let mut i: usize = 0;
    while i < bs.len()
        invariant
            i <= bs@.len(),
            forall|j: int| 0 <= j < i ==> (#[trigger] bs@[j]).asset@ != "USDT"@,
        decreases bs@.len() - i,
    {
        if str_eq(bs[i].asset.as_str(), "USDT") {
            proof {
                let c = first_usdt(bs@);
                assert(bs@[i as int].asset@ == "USDT"@);
                assert(0 <= c < bs@.len() && bs@[c].asset@ == "USDT"@ && forall|j: int|
                    0 <= j < c ==> (#[trigger] bs@[j]).asset@ != "USDT"@);
                if c < i {
                    assert(bs@[c].asset@ != "USDT"@);
                }
                if c > i {
                    assert(bs@[i as int].asset@ != "USDT"@);
                }
            }
            return Some(i);
        }
        i = i + 1;
    }
    None
}

/// The events of a user-data message: an order update for an order trade
/// update; the position updates and then the USDT balance for an account
/// update; nothing otherwise.
pub open spec fn user_data_answer(event: UserDataEvent, r: Seq<MarketEvent>) -> bool {
    &&& event.event_type@ == "ORDER_TRADE_UPDATE"@ ==> match event.order {
        Some(o) => r.len() == 1 && (r[0] matches MarketEvent::OrderUpdate(resp) && order_update_matches(
            o,
            resp,
        )),
        None => r.len() == 0,
    }
    &&& event.event_type@ == "ACCOUNT_UPDATE"@ ==> match event.account {
        Some(a) => {
            let ups = position_updates(a.positions@);
            let i = first_usdt(a.balances@);
            &&& r.len() == ups.len() + if i >= 0 { 1int } else { 0int }
            &&& forall|k: int| 0 <= k < ups.len() ==> is_position_event(#[trigger] r[k], ups[k])
            &&& i >= 0 ==> is_balance_event(r[ups.len() as int], a.balances@[i])
        },
        None => r.len() == 0,
    }
    &&& event.event_type@ != "ORDER_TRADE_UPDATE"@ && event.event_type@ != "ACCOUNT_UPDATE"@ ==> r.len() == 0
}

/// Whether the margin of an account update's USDT balance stays within the
/// range of decimals (the condition of `user_data_events`).
pub fn user_data_fit(event: &UserDataEvent) -> (r: bool)
    ensures
        r == user_data_fits(*event),
{
    if !str_eq(event.event_type.as_str(), "ACCOUNT_UPDATE") {
        return true;
    }
    match &event.account {
        Some(a) => match first_usdt_index(&a.balances) {
            Some(i) => {
                let b = &a.balances[i];
                let total = parse_or_zero(b.wallet_balance.as_str());
                let cross = parse_or_zero(b.cross_wallet_balance.as_str());
                difference_in_range(&total, &cross)
            },
            None => true,
        },
        None => true,
    }
}

/// The events of a user-data message when its arithmetic stays within
/// range: `Some` of what `user_data_events` gives, otherwise `None`.
pub fn checked_user_data_events(event: &UserDataEvent) -> (r: Option<Vec<MarketEvent>>)
    ensures
        r is Some <==> user_data_fits(*event),
        r matches Some(v) ==> user_data_answer(*event, v@),
{
    if user_data_fit(event) {
        Some(user_data_events(event))
    } else {
        None
    }
}

/// The market events of a user data event: an order response for an order
/// update; for an account update, the position updates and then the
/// balance of the first USDT asset; nothing for other events.
pub fn user_data_events(event: &UserDataEvent) -> (r: Vec<MarketEvent>)
    requires
        user_data_fits(*event),
    ensures
        user_data_answer(*event, r@),
{
    if str_eq(event.event_type.as_str(), "ORDER_TRADE_UPDATE") {
        let mut out: Vec<MarketEvent> = Vec::new();
        match &event.order {
            Some(o) => {
                out.push(MarketEvent::OrderUpdate(order_update(o)));
            },
            None => {},
        }
        proof {
            reveal_strlit("ORDER_TRADE_UPDATE");
            reveal_strlit("ACCOUNT_UPDATE");
            assert("ORDER_TRADE_UPDATE"@.len() != "ACCOUNT_UPDATE"@.len());
        }
        return out;
    }
    if str_eq(event.event_type.as_str(), "ACCOUNT_UPDATE") {
        match &event.account {
            Some(a) => {
                let mut out = position_events(&a.positions);
                let ghost n = out@.len();
                match first_usdt_index(&a.balances) {
                    Some(i) => {
                        let b = &a.balances[i];
                        let total = parse_or_zero(b.wallet_balance.as_str());
                        let cross = parse_or_zero(b.cross_wallet_balance.as_str());
                        let balance = AccountBalance {
                            total_balance: total,
                            available_balance: cross,
                            unrealized_pnl: Dec::zero(),
                            margin_used: total.minus(&cross),
                        };
                        out.push(MarketEvent::BalanceUpdate(balance));
                        assert(is_balance_event(out@[n as int], a.balances@[i as int]));
                    },
                    None => {},
                }
                return out;
            },
            None => {
                return Vec::new();
            },
        }
    }
    Vec::new()
}

/// The four streams of a symbol (in lower case): depth, aggregated
/// trades, one-minute klines and the mark price.
pub open spec fn symbol_streams(symbol: Seq<char>) -> Seq<Seq<char>> {
    let s = unicode_lowercase(symbol);
    seq![s + "@depth@100ms"@, s + "@aggTrade"@, s + "@kline_1m"@, s + "@markPrice@1s"@]
}

/// The streams of all symbols in order.
pub open spec fn streams_of(symbols: Seq<Symbol>) -> Seq<Seq<char>>
    decreases symbols.len(),
{
    if symbols.len() == 0 {
        Seq::empty()
    } else {
        streams_of(symbols.drop_last()) + symbol_streams(symbols.last()@)
    }
}

/// The combined-stream URL: the symbols' streams, then the listen key of the
/// user data stream if there is one, joined by `/`.
pub open spec fn stream_url(base: Seq<char>, symbols: Seq<Symbol>, listen_key: Option<Seq<char>>) -> Seq<char> {
    let streams = match listen_key {
        Some(k) => streams_of(symbols).push(k),
        None => streams_of(symbols),
    };
    base + "/stream?streams="@ + joined(streams, "/"@)
}

fn stream_name(lower: &String, suffix: &str) -> (r: String)
    ensures
        r@ == lower@ + suffix@,
{
    let mut s = lower.clone();
    s.append(suffix);
    s
}

/// The combined-stream URL for `symbols` and, if given, the user data stream.
pub fn build_stream_url(ws_base_url: &str, symbols: &[Symbol], listen_key: Option<&str>) -> (r: String)
    ensures
        r@ == stream_url(
            ws_base_url@,
            symbols@,
            match listen_key {
                Some(k) => Some(k@),
                None => None,
            },
        ),
{
    let mut streams: Vec<String> = Vec::new();
    let mut i: usize = 0;
    assert(symbols@.take(0) =~= Seq::<Symbol>::empty());
    while i < symbols.len()
        invariant
            i <= symbols@.len(),
            streams@.map_values(|p: String| p@) == streams_of(symbols@.take(i as int)),
        decreases symbols@.len() - i,
    {
        proof {
            assert(symbols@.take(i + 1).drop_last() =~= symbols@.take(i as int));
            assert(symbols@.take(i + 1).last() == symbols@[i as int]);
        }
        let lower = to_lowercase(symbols[i].as_str());
        let ghost before = streams@;
        streams.push(stream_name(&lower, "@depth@100ms"));
        streams.push(stream_name(&lower, "@aggTrade"));
        streams.push(stream_name(&lower, "@kline_1m"));
        streams.push(stream_name(&lower, "@markPrice@1s"));
        proof {
            assert(streams@.map_values(|p: String| p@) =~= before.map_values(|p: String| p@)
                + symbol_streams(symbols@[i as int]@));
        }
        i = i + 1;
    }
    assert(symbols@.take(symbols@.len() as int) =~= symbols@);
    match listen_key {
        Some(k) => {
            let ghost before = streams@;
            streams.push(String::from_str(k));
            proof {
                assert(streams@.map_values(|p: String| p@) =~= before.map_values(|p: String| p@).push(k@));
            }
        },
        None => {},
    }
    let joined_streams = join(&streams, "/");
    let mut url = String::from_str(ws_base_url);
    url.append("/stream?streams=");
    url.append(joined_streams.as_str());
    url
}

} // verus!
