//! Binance REST requests and answers: the query of an order, and the
//! library's values read from the answers.
use crate::common::text::str_eq;
use crate::common::time::{decimal_digits, u64_text};
use crate::common::types::{
    AccountBalance, OrderRequest, OrderResponse, OrderType, Position, Side, Symbol, TimeInForce,
};
use crate::decimal::{dabs, dec_to_string, decimal_text, dsub, in_range, Dec, DecimalParseError};
use crate::exchange::binance::events::{
    order_type_named, parse_order_status, parse_order_type, parse_side, side_named, status_named,
};
use crate::exchange::binance::models::{
    AccountResponse, CancelOrderResponse, PlaceOrderResponse, PositionResponse,
};
use crate::exchange::parsing::{leverage_or_one, parse_dec, parse_u32, parsed_dec};
use vstd::prelude::*;

verus! {

/// The text of a decimal, as written in queries.
pub open spec fn dec_text(d: Dec) -> Seq<char> {
    decimal_text(d.mant(), d.scl())
}

/// The Binance name of an order type.
pub open spec fn binance_type_name(t: OrderType) -> Seq<char> {
    match t {
        OrderType::Market => "MARKET"@,
        OrderType::Limit => "LIMIT"@,
        OrderType::StopMarket => "STOP_MARKET"@,
        OrderType::TakeProfitMarket => "TAKE_PROFIT_MARKET"@,
    }
}

/// The Binance name of a time in force (post-only is `GTX`).
pub open spec fn binance_tif_name(t: TimeInForce) -> Seq<char> {
    match t {
        TimeInForce::Gtc => "GTC"@,
        TimeInForce::Ioc => "IOC"@,
        TimeInForce::Fok => "FOK"@,
        TimeInForce::PostOnly => "GTX"@,
    }
}

/// The query that places an order: symbol, side, type and quantity; a
/// limit order with a price adds the price and time in force; a stop
/// price and reduce-only are added when present.
pub open spec fn order_query_text(req: OrderRequest) -> Seq<char> {
    let base = "symbol="@ + req.symbol@ + "&side="@ + crate::common::types::side_text(req.side)
        + "&type="@ + binance_type_name(req.order_type) + "&quantity="@ + dec_text(req.quantity);
    let with_price = if req.order_type == OrderType::Limit && req.price is Some {
        base + "&price="@ + dec_text(req.price.unwrap()) + "&timeInForce="@ + binance_tif_name(
            req.time_in_force,
        )
    } else {
        base
    };
    let with_stop = match req.stop_price {
        Some(sp) => with_price + "&stopPrice="@ + dec_text(sp),
        None => with_price,
    };
    if req.reduce_only {
        with_stop + "&reduceOnly=true"@
    } else {
        with_stop
    }
}

fn order_type_text(t: OrderType) -> (r: &'static str)
    ensures
        r@ == binance_type_name(t),
{
    match t {
        OrderType::Market => "MARKET",
        OrderType::Limit => "LIMIT",
        OrderType::StopMarket => "STOP_MARKET",
        OrderType::TakeProfitMarket => "TAKE_PROFIT_MARKET",
    }
}

fn tif_name(t: TimeInForce) -> (r: &'static str)
    ensures
        r@ == binance_tif_name(t),
{
    match t {
        TimeInForce::Gtc => "GTC",
        TimeInForce::Ioc => "IOC",
        TimeInForce::Fok => "FOK",
        TimeInForce::PostOnly => "GTX",
    }
}

/// The query that places an order.
pub fn order_query(req: &OrderRequest) -> (r: String)
    ensures
        r@ == order_query_text(*req),
{
    let mut q = String::from_str("symbol=");
    q.append(req.symbol.as_str());
    q.append("&side=");
    q.append(req.side.as_str());
    q.append("&type=");
    q.append(order_type_text(req.order_type));
    q.append("&quantity=");
    let qty = dec_to_string(req.quantity);
    q.append(qty.as_str());
    if req.order_type == OrderType::Limit {
        match req.price {
            Some(p) => {
                q.append("&price=");
                let pt = dec_to_string(p);
                q.append(pt.as_str());
                q.append("&timeInForce=");
                q.append(tif_name(req.time_in_force));
            },
            None => {},
        }
    }
    match req.stop_price {
        Some(sp) => {
            q.append("&stopPrice=");
            let st = dec_to_string(sp);
            q.append(st.as_str());
        },
        None => {},
    }
    if req.reduce_only {
        q.append("&reduceOnly=true");
    }
    q
}

/// The query that cancels an order.
pub fn cancel_query(symbol: &Symbol, order_id: &str) -> (r: String)
    ensures
        r@ == "symbol="@ + symbol@ + "&orderId="@ + order_id@,
{
    let mut q = String::from_str("symbol=");
    q.append(symbol.as_str());
    q.append("&orderId=");
    q.append(order_id);
    q
}

/// The query that sets the leverage of a symbol.
pub fn leverage_query(symbol: &Symbol, leverage: u32) -> (r: String)
    ensures
        r@ == "symbol="@ + symbol@ + "&leverage="@ + decimal_digits(leverage as nat),
{
    let mut q = String::from_str("symbol=");
    q.append(symbol.as_str());
    q.append("&leverage=");
    let l = u64_text(leverage as u64);
    q.append(l.as_str());
    q
}

/// The order response that an order answer describes, when its quantity
/// and (nonzero) price read as decimals. A price written `0` or
/// `0.00000000` means no price.
pub open spec fn answered_order(
    order_id: u64,
    client_order_id: Seq<char>,
    symbol: Seq<char>,
    side: Seq<char>,
    order_type: Seq<char>,
    orig_qty: Seq<char>,
    price: Seq<char>,
    status: Seq<char>,
    update_time: u64,
    r: Result<OrderResponse, DecimalParseError>,
) -> bool {
    let no_price = price == "0"@ || price == "0.00000000"@;
    if parsed_dec(orig_qty) is None || (!no_price && parsed_dec(price) is None) {
        r is Err
    } else {
        r matches Ok(o) && o.order_id@ == decimal_digits(order_id as nat) && o.client_order_id@
            == client_order_id && o.symbol@ == symbol && o.side == side_named(side) && o.order_type
            == order_type_named(order_type) && o.quantity == parsed_dec(orig_qty).unwrap() && o.price
            == (if no_price {
            None
        } else {
            parsed_dec(price)
        }) && o.status == status_named(status) && o.timestamp_ms == update_time
    }
}

fn order_from_parts(
    order_id: u64,
    client_order_id: &String,
    symbol: &String,
    side: &String,
    order_type: &String,
    orig_qty: &String,
    price: &String,
    status: &String,
    update_time: u64,
) -> (r: Result<OrderResponse, DecimalParseError>)
    ensures
        answered_order(
            order_id,
            client_order_id@,
            symbol@,
            side@,
            order_type@,
            orig_qty@,
            price@,
            status@,
            update_time,
            r,
        ),
{
    let quantity = match parse_dec(orig_qty.as_str()) {
        Some(q) => q,
        None => return Err(DecimalParseError),
    };
    let no_price = str_eq(price.as_str(), "0") || str_eq(price.as_str(), "0.00000000");
    let p = if no_price {
        None
    } else {
        match parse_dec(price.as_str()) {
            Some(p) => Some(p),
            None => return Err(DecimalParseError),
        }
    };
    Ok(
        OrderResponse {
            order_id: u64_text(order_id),
            client_order_id: client_order_id.clone(),
            symbol: Symbol::new(symbol.as_str()),
            side: parse_side(side.as_str()),
            order_type: parse_order_type(order_type.as_str()),
            quantity,
            price: p,
            status: parse_order_status(status.as_str()),
            timestamp_ms: update_time,
        },
    )
}

/// The order response of an answer to placing an order.
pub fn place_resp_to_order_response(r: &PlaceOrderResponse) -> (o: Result<OrderResponse, DecimalParseError>)
    ensures
        answered_order(
            r.order_id,
            r.client_order_id@,
            r.symbol@,
            r.side@,
            r.order_type@,
            r.orig_qty@,
            r.price@,
            r.status@,
            r.update_time,
            o,
        ),
{
    order_from_parts(
        r.order_id,
        &r.client_order_id,
        &r.symbol,
        &r.side,
        &r.order_type,
        &r.orig_qty,
        &r.price,
        &r.status,
        r.update_time,
    )
}

/// The order response of an answer to cancelling an order.
pub fn cancel_resp_to_order_response(r: &CancelOrderResponse) -> (o: Result<OrderResponse, DecimalParseError>)
    ensures
        answered_order(
            r.order_id,
            r.client_order_id@,
            r.symbol@,
            r.side@,
            r.order_type@,
            r.orig_qty@,
            r.price@,
            r.status@,
            r.update_time,
            o,
        ),
{
    order_from_parts(
        r.order_id,
        &r.client_order_id,
        &r.symbol,
        &r.side,
        &r.order_type,
        &r.orig_qty,
        &r.price,
        &r.status,
        r.update_time,
    )
}

/// The texts of a position answer that the position is read from:
/// symbol, amount, entry price, unrealized profit, leverage, isolated margin.
pub struct PositionTexts {
    pub symbol: Seq<char>,
    pub amount: Seq<char>,
    pub entry_price: Seq<char>,
    pub unrealized: Seq<char>,
    pub leverage: Seq<char>,
    pub margin: Seq<char>,
}

/// Whether a position answer is the one-way (`BOTH`) position on `symbol`.
pub open spec fn is_symbol_position(p: PositionResponse, symbol: Seq<char>) -> bool {
    p.symbol@ == symbol && p.position_side@ == "BOTH"@
}

/// The index of the first one-way position on `symbol`, or -1.
pub open spec fn first_position(ps: Seq<PositionResponse>, symbol: Seq<char>) -> int {
    if exists|i: int| 0 <= i < ps.len() && is_symbol_position(#[trigger] ps[i], symbol) {
        choose|i: int|
            0 <= i < ps.len() && is_symbol_position(#[trigger] ps[i], symbol) && forall|j: int|
                0 <= j < i ==> !is_symbol_position(#[trigger] ps[j], symbol)
    } else {
        -1
    }
}

/// The texts the position is read from: those of the first one-way
/// position on the symbol, or a flat position (amounts `0`, leverage `1`).
pub open spec fn position_texts(ps: Seq<PositionResponse>, symbol: Seq<char>) -> PositionTexts {
    let i = first_position(ps, symbol);
    if i >= 0 {
        PositionTexts {
            symbol: ps[i].symbol@,
            amount: ps[i].position_amt@,
            entry_price: ps[i].entry_price@,
            unrealized: ps[i].unrealized_profit@,
            leverage: ps[i].leverage@,
            margin: ps[i].isolated_margin@,
        }
    } else {
        PositionTexts {
            symbol,
            amount: "0"@,
            entry_price: "0"@,
            unrealized: "0"@,
            leverage: "1"@,
            margin: "0"@,
        }
    }
}

/// Whether `r` is the position read from `t`: long when the amount is not
/// negative, with the amount's magnitude; an error when a decimal does not
/// read.
pub open spec fn position_read(t: PositionTexts, r: Result<Position, DecimalParseError>) -> bool {
    if parsed_dec(t.amount) is None || parsed_dec(t.entry_price) is None || parsed_dec(t.unrealized) is None
        || parsed_dec(t.margin) is None {
        r is Err
    } else {
        let qty = parsed_dec(t.amount).unwrap();
        r matches Ok(p) && p.symbol@ == t.symbol && p.side == (if qty@ >= 0 {
            Side::Buy
        } else {
            Side::Sell
        }) && p.quantity == dabs(qty) && p.entry_price == parsed_dec(t.entry_price).unwrap()
            && p.unrealized_pnl == parsed_dec(t.unrealized).unwrap() && p.leverage
            == leverage_or_one(t.leverage) && p.margin == parsed_dec(t.margin).unwrap()
    }
}

fn find_position(ps: &Vec<PositionResponse>, symbol: &Symbol) -> (r: Option<usize>)
    ensures
        match r {
            Some(i) => i as int == first_position(ps@, symbol@) && i < ps@.len(),
            None => first_position(ps@, symbol@) == -1,
        },
{
    let mut i: usize = 0;
    while i < ps.len()
        invariant
            i <= ps@.len(),
            forall|j: int| 0 <= j < i ==> !is_symbol_position(#[trigger] ps@[j], symbol@),
        decreases ps@.len() - i,
    {
        if str_eq(ps[i].symbol.as_str(), symbol.as_str()) && str_eq(ps[i].position_side.as_str(), "BOTH") {
            proof {
                let c = first_position(ps@, symbol@);
                assert(is_symbol_position(ps@[i as int], symbol@));
                assert(0 <= c < ps@.len() && is_symbol_position(ps@[c], symbol@) && forall|j: int|
                    0 <= j < c ==> !is_symbol_position(#[trigger] ps@[j], symbol@));
                if c < i {
                    assert(!is_symbol_position(ps@[c], symbol@));
                }
                if c > i {
                    assert(!is_symbol_position(ps@[i as int], symbol@));
                }
            }
            return Some(i);
        }
        i = i + 1;
    }
    None
}

fn position_from_texts(
    symbol: &str,
    amount: &str,
    entry_price: &str,
    unrealized: &str,
    leverage: &str,
    margin: &str,
) -> (r: Result<Position, DecimalParseError>)
    ensures
        position_read(
            PositionTexts {
                symbol: symbol@,
                amount: amount@,
                entry_price: entry_price@,
                unrealized: unrealized@,
                leverage: leverage@,
                margin: margin@,
            },
            r,
        ),
{
    let qty = match parse_dec(amount) {
        Some(q) => q,
        None => return Err(DecimalParseError),
    };
    let zero = Dec::zero();
    let side = if zero.le(&qty) {
        Side::Buy
    } else {
        Side::Sell
    };
    let lev = match parse_u32(leverage) {
        Some(n) => n,
        None => 1,
    };
    let entry = match parse_dec(entry_price) {
        Some(e) => e,
        None => return Err(DecimalParseError),
    };
    let unrealized_pnl = match parse_dec(unrealized) {
        Some(u) => u,
        None => return Err(DecimalParseError),
    };
    let m = match parse_dec(margin) {
        Some(m) => m,
        None => return Err(DecimalParseError),
    };
    Ok(
        Position {
            symbol: Symbol::new(symbol),
            side,
            quantity: qty.abs(),
            entry_price: entry,
            unrealized_pnl,
            leverage: lev,
            margin: m,
        },
    )
}

/// The position on `symbol` from a position-risk answer: the first one-way
/// position on the symbol, or a flat one when there is none.
pub fn position_from_answer(positions: &Vec<PositionResponse>, symbol: &Symbol) -> (r: Result<
    Position,
    DecimalParseError,
>)
    ensures
        position_read(position_texts(positions@, symbol@), r),
{
    match find_position(positions, symbol) {
        Some(i) => {
            let p = &positions[i];
            position_from_texts(
                p.symbol.as_str(),
                p.position_amt.as_str(),
                p.entry_price.as_str(),
                p.unrealized_profit.as_str(),
                p.leverage.as_str(),
                p.isolated_margin.as_str(),
            )
        },
        None => {
            let r = position_from_texts(symbol.as_str(), "0", "0", "0", "1", "0");
            r
        },
    }
}

/// The margin in use can be computed from an account answer.
pub open spec fn account_fits(a: AccountResponse) -> bool {
    parsed_dec(a.total_wallet_balance@) is Some && parsed_dec(a.available_balance@) is Some ==> in_range(
        parsed_dec(a.total_wallet_balance@).unwrap()@ - parsed_dec(a.available_balance@).unwrap()@,
    )
}

/// The balance from an account answer: wallet, available and unrealized
/// amounts, and the margin in use as wallet minus available.
pub fn balance_from_answer(acct: &AccountResponse) -> (r: Result<AccountBalance, DecimalParseError>)
    requires
        account_fits(*acct),
    ensures
        match (
            parsed_dec(acct.total_wallet_balance@),
            parsed_dec(acct.available_balance@),
            parsed_dec(acct.total_unrealized_profit@),
        ) {
            (Some(t), Some(a), Some(u)) => r == Ok::<AccountBalance, DecimalParseError>(
                AccountBalance {
                    total_balance: t,
                    available_balance: a,
                    unrealized_pnl: u,
                    margin_used: dsub(t, a),
                },
            ),
            _ => r is Err,
        },
{
    let total = match parse_dec(acct.total_wallet_balance.as_str()) {
        Some(t) => t,
        None => return Err(DecimalParseError),
    };
    let available = match parse_dec(acct.available_balance.as_str()) {
        Some(a) => a,
        None => return Err(DecimalParseError),
    };
    let unrealized = match parse_dec(acct.total_unrealized_profit.as_str()) {
        Some(u) => u,
        None => return Err(DecimalParseError),
    };
    Ok(
        AccountBalance {
            total_balance: total,
            available_balance: available,
            unrealized_pnl: unrealized,
            margin_used: total.minus(&available),
        },
    )
}

} // verus!
