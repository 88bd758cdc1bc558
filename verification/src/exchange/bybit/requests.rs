//! Bybit REST requests and answers: the fields of an order request, and
//! the library's values read from the answers.
use crate::common::text::str_eq;
use crate::common::types::{AccountBalance, OrderRequest, OrderStatus, OrderType, Position, Side, Symbol, TimeInForce};
use crate::decimal::{dec_to_string, decimal_text, dsub, in_range, zero_dec, Dec, DecimalParseError};
use crate::exchange::bybit::models::{
    BybitApiResponse, BybitCoinBalance, BybitPositionInfo, BybitWalletBalanceResult,
};
use crate::exchange::parsing::{leverage_or_one, parse_dec, parse_u32, parsed_dec, parsed_or_zero};
use vstd::prelude::*;

verus! {

/// The side that Bybit names: `Buy`, or else sell.
pub open spec fn bybit_side_named(s: Seq<char>) -> Side {
    if s == "Buy"@ {
        Side::Buy
    } else {
        Side::Sell
    }
}

/// The side that Bybit names.
pub fn parse_side(s: &str) -> (r: Side)
    ensures
        r == bybit_side_named(s@),
{
    if str_eq(s, "Buy") {
        Side::Buy
    } else {
        Side::Sell
    }
}

/// The order status that Bybit names; unknown names are new orders.
pub open spec fn bybit_status_named(s: Seq<char>) -> OrderStatus {
    if s == "New"@ || s == "Created"@ || s == "Untriggered"@ {
        OrderStatus::New
    } else if s == "PartiallyFilled"@ || s == "Active"@ {
        OrderStatus::PartiallyFilled
    } else if s == "Filled"@ {
        OrderStatus::Filled
    } else if s == "Cancelled"@ || s == "Deactivated"@ {
        OrderStatus::Canceled
    } else if s == "Rejected"@ {
        OrderStatus::Rejected
    } else if s == "Expired"@ {
        OrderStatus::Expired
    } else {
        OrderStatus::New
    }
}

/// The name Bybit gives each order status.
pub open spec fn bybit_status_name(st: OrderStatus) -> Seq<char> {
    match st {
        OrderStatus::New => "New"@,
        OrderStatus::PartiallyFilled => "PartiallyFilled"@,
        OrderStatus::Filled => "Filled"@,
        OrderStatus::Canceled => "Cancelled"@,
        OrderStatus::Rejected => "Rejected"@,
        OrderStatus::Expired => "Expired"@,
    }
}

/// Every status is read back from its own Bybit name, so different names
/// give different statuses.
pub proof fn lemma_bybit_status_names_read_back(st: OrderStatus)
    ensures
        bybit_status_named(bybit_status_name(st)) == st,
{
    reveal_strlit("New");
    reveal_strlit("Created");
    reveal_strlit("Untriggered");
    reveal_strlit("PartiallyFilled");
    reveal_strlit("Active");
    reveal_strlit("Filled");
    reveal_strlit("Cancelled");
    reveal_strlit("Deactivated");
    reveal_strlit("Rejected");
    reveal_strlit("Expired");
    assert("New"@.len() == 3);
    assert("Created"@.len() == 7);
    assert("Untriggered"@.len() == 11);
    assert("PartiallyFilled"@.len() == 15);
    assert("Active"@.len() == 6);
    assert("Filled"@.len() == 6);
    assert("Cancelled"@.len() == 9);
    assert("Deactivated"@.len() == 11);
    assert("Rejected"@.len() == 8);
    assert("Expired"@.len() == 7);
    assert("Active"@[0] != "Filled"@[0]);
    assert("Created"@[0] != "Expired"@[0]);
}

/// The order status that Bybit names.
pub fn parse_order_status(s: &str) -> (r: OrderStatus)
    ensures
        r == bybit_status_named(s@),
{
    if str_eq(s, "New") || str_eq(s, "Created") || str_eq(s, "Untriggered") {
        OrderStatus::New
    } else if str_eq(s, "PartiallyFilled") || str_eq(s, "Active") {
        OrderStatus::PartiallyFilled
    } else if str_eq(s, "Filled") {
        OrderStatus::Filled
    } else if str_eq(s, "Cancelled") || str_eq(s, "Deactivated") {
        OrderStatus::Canceled
    } else if str_eq(s, "Rejected") {
        OrderStatus::Rejected
    } else if str_eq(s, "Expired") {
        OrderStatus::Expired
    } else {
        OrderStatus::New
    }
}

/// The order type that Bybit names: `Market`, or else limit.
pub fn parse_order_type(s: &str) -> (r: OrderType)
    ensures
        r == (if s@ == "Market"@ {
            OrderType::Market
        } else {
            OrderType::Limit
        }),
{
    if str_eq(s, "Market") {
        OrderType::Market
    } else {
        OrderType::Limit
    }
}

/// The fields of an order-create request (category `linear`); the JSON body
/// is written from them.
#[derive(Debug, Clone)]
pub struct BybitOrderFields {
    pub symbol: String,
    pub side: String,
    pub order_type: String,
    pub qty: String,
    pub time_in_force: String,
    pub price: Option<String>,
    pub trigger_price: Option<String>,
    pub reduce_only: bool,
}

/// The Bybit name of an order type: stop and take-profit orders are sent
/// as market orders with a trigger price.
pub open spec fn bybit_type_name(t: OrderType) -> Seq<char> {
    match t {
        OrderType::Limit => "Limit"@,
        _ => "Market"@,
    }
}

/// The Bybit name of a time in force.
pub open spec fn bybit_tif_name(t: TimeInForce) -> Seq<char> {
    match t {
        TimeInForce::Gtc => "GTC"@,
        TimeInForce::Ioc => "IOC"@,
        TimeInForce::Fok => "FOK"@,
        TimeInForce::PostOnly => "PostOnly"@,
    }
}

/// The fields of the request that places `req`.
pub fn order_fields(req: &OrderRequest) -> (r: BybitOrderFields)
    ensures
        r.symbol@ == req.symbol@,
        r.side@ == (match req.side {
            Side::Buy => "Buy"@,
            Side::Sell => "Sell"@,
        }),
        r.order_type@ == bybit_type_name(req.order_type),
        r.qty@ == decimal_text(req.quantity.mant(), req.quantity.scl()),
        r.time_in_force@ == bybit_tif_name(req.time_in_force),
        match req.price {
            Some(p) => r.price matches Some(t) && t@ == decimal_text(p.mant(), p.scl()),
            None => r.price is None,
        },
        match req.stop_price {
            Some(p) => r.trigger_price matches Some(t) && t@ == decimal_text(p.mant(), p.scl()),
            None => r.trigger_price is None,
        },
        r.reduce_only == req.reduce_only,
{
    let side = match req.side {
        Side::Buy => "Buy",
        Side::Sell => "Sell",
    };
    let order_type = match req.order_type {
        OrderType::Limit => "Limit",
        _ => "Market",
    };
    let tif = match req.time_in_force {
        TimeInForce::Gtc => "GTC",
        TimeInForce::Ioc => "IOC",
        TimeInForce::Fok => "FOK",
        TimeInForce::PostOnly => "PostOnly",
    };
    BybitOrderFields {
        symbol: String::from_str(req.symbol.as_str()),
        side: String::from_str(side),
        order_type: String::from_str(order_type),
        qty: dec_to_string(req.quantity),
        time_in_force: String::from_str(tif),
        price: match req.price {
            Some(p) => Some(dec_to_string(p)),
            None => None,
        },
        trigger_price: match req.stop_price {
            Some(p) => Some(dec_to_string(p)),
            None => None,
        },
        reduce_only: req.reduce_only,
    }
}

/// Whether a set-leverage answer means success: return code 0, or 110043
/// (the leverage was already set to that value).
pub fn leverage_accepted<T>(resp: &BybitApiResponse<T>) -> (r: bool)
    ensures
        r == (resp.ret_code == 0 || resp.ret_code == 110043),
{
    resp.ret_code == 0 || resp.ret_code == 110043
}

/// The index of the first position on `symbol`, or -1.
pub open spec fn first_bybit_position(ps: Seq<BybitPositionInfo>, symbol: Seq<char>) -> int {
    if exists|i: int| 0 <= i < ps.len() && (#[trigger] ps[i]).symbol@ == symbol {
        choose|i: int|
            0 <= i < ps.len() && (#[trigger] ps[i]).symbol@ == symbol && forall|j: int|
                0 <= j < i ==> (#[trigger] ps[j]).symbol@ != symbol
    } else {
        -1
    }
}

/// Whether `r` is the position read from a position answer (absent when
/// the symbol is not listed: side `None`, size `0`, leverage `1`). The
/// margin is zero when missing or unreadable.
pub open spec fn bybit_position_read(
    symbol: Seq<char>,
    side: Seq<char>,
    size: Seq<char>,
    avg_price: Seq<char>,
    unrealised_pnl: Seq<char>,
    leverage: Seq<char>,
    margin: Option<Seq<char>>,
    r: Result<Position, DecimalParseError>,
) -> bool {
    if parsed_dec(size) is None || parsed_dec(avg_price) is None || parsed_dec(unrealised_pnl) is None {
        r is Err
    } else {
        r matches Ok(p) && p.symbol@ == symbol && p.side == bybit_side_named(side) && p.quantity
            == parsed_dec(size).unwrap() && p.entry_price == parsed_dec(avg_price).unwrap()
            && p.unrealized_pnl == parsed_dec(unrealised_pnl).unwrap() && p.leverage
            == leverage_or_one(leverage) && p.margin == match margin {
            Some(m) => parsed_or_zero(m),
            None => zero_dec(),
        }
    }
}

fn find_bybit_position(ps: &Vec<BybitPositionInfo>, symbol: &Symbol) -> (r: Option<usize>)
    ensures
        match r {
            Some(i) => i as int == first_bybit_position(ps@, symbol@) && i < ps@.len(),
            None => first_bybit_position(ps@, symbol@) == -1,
        },
{
    let mut i: usize = 0;
    while i < ps.len()
        invariant
            i <= ps@.len(),
            forall|j: int| 0 <= j < i ==> (#[trigger] ps@[j]).symbol@ != symbol@,
        decreases ps@.len() - i,
    {
        if str_eq(ps[i].symbol.as_str(), symbol.as_str()) {
            proof {
                let c = first_bybit_position(ps@, symbol@);
                assert(ps@[i as int].symbol@ == symbol@);
                assert(0 <= c < ps@.len() && ps@[c].symbol@ == symbol@ && forall|j: int|
                    0 <= j < c ==> (#[trigger] ps@[j]).symbol@ != symbol@);
                if c < i {
                    assert(ps@[c].symbol@ != symbol@);
                }
                if c > i {
                    assert(ps@[i as int].symbol@ != symbol@);
                }
            }
            return Some(i);
        }
        i = i + 1;
    }
    None
}

fn bybit_position_from_texts(
    symbol: &str,
    side: &str,
    size: &str,
    avg_price: &str,
    unrealised_pnl: &str,
    leverage: &str,
    margin: Option<&str>,
) -> (r: Result<Position, DecimalParseError>)
    ensures
        bybit_position_read(
            symbol@,
            side@,
            size@,
            avg_price@,
            unrealised_pnl@,
            leverage@,
            match margin {
                Some(m) => Some(m@),
                None => None,
            },
            r,
        ),
{
    let qty = match parse_dec(size) {
        Some(q) => q,
        None => return Err(DecimalParseError),
    };
    let s = parse_side(side);
    let lev = match parse_u32(leverage) {
        Some(n) => n,
        None => 1,
    };
    let m = match margin {
        Some(t) => match parse_dec(t) {
            Some(v) => v,
            None => Dec::zero(),
        },
        None => Dec::zero(),
    };
    let entry = match parse_dec(avg_price) {
        Some(e) => e,
        None => return Err(DecimalParseError),
    };
    let unrealized = match parse_dec(unrealised_pnl) {
        Some(u) => u,
        None => return Err(DecimalParseError),
    };
    Ok(
        Position {
            symbol: Symbol::new(symbol),
            side: s,
            quantity: qty,
            entry_price: entry,
            unrealized_pnl: unrealized,
            leverage: lev,
            margin: m,
        },
    )
}

/// The position on `symbol` from a position-list answer.
pub fn position_from_list(list: &Vec<BybitPositionInfo>, symbol: &Symbol) -> (r: Result<
    Position,
    DecimalParseError,
>)
    ensures
        ({
            let i = first_bybit_position(list@, symbol@);
            if i >= 0 {
                let p = list@[i];
                bybit_position_read(
                    p.symbol@,
                    p.side@,
                    p.size@,
                    p.avg_price@,
                    p.unrealised_pnl@,
                    p.leverage@,
                    match p.position_im {
                        Some(m) => Some(m@),
                        None => None,
                    },
                    r,
                )
            } else {
                bybit_position_read(symbol@, "None"@, "0"@, "0"@, "0"@, "1"@, None, r)
            }
        }),
{
    match find_bybit_position(list, symbol) {
        Some(i) => {
            let p = &list[i];
            let margin = match &p.position_im {
                Some(m) => Some(m.as_str()),
                None => None,
            };
            bybit_position_from_texts(
                p.symbol.as_str(),
                p.side.as_str(),
                p.size.as_str(),
                p.avg_price.as_str(),
                p.unrealised_pnl.as_str(),
                p.leverage.as_str(),
                margin,
            )
        },
        None => bybit_position_from_texts(symbol.as_str(), "None", "0", "0", "0", "1", None),
    }
}

/// Why a wallet-balance answer could not be read.
#[derive(Debug, Clone, Copy, PartialEq, Eq, Structural)]
pub enum BalanceReadError {
    /// The answer lists no account.
    NoAccount,
    /// A balance does not read as a decimal.
    Decimal,
}

/// The index of the first USDT coin, or -1.
pub open spec fn first_usdt_coin(cs: Seq<BybitCoinBalance>) -> int {
    if exists|i: int| 0 <= i < cs.len() && (#[trigger] cs[i]).coin@ == "USDT"@ {
        choose|i: int|
            0 <= i < cs.len() && (#[trigger] cs[i]).coin@ == "USDT"@ && forall|j: int|
                0 <= j < i ==> (#[trigger] cs[j]).coin@ != "USDT"@
    } else {
        -1
    }
}

/// The unrealized PnL of an account: that of its first USDT coin when it
/// reads, zero otherwise.
pub open spec fn usdt_unrealized(coins: Option<Vec<BybitCoinBalance>>) -> Dec {
    match coins {
        Some(cs) => {
            let i = first_usdt_coin(cs@);
            if i >= 0 {
                match parsed_dec(cs@[i].unrealised_pnl@) {
                    Some(u) => u,
                    None => zero_dec(),
                }
            } else {
                zero_dec()
            }
        },
        None => zero_dec(),
    }
}

fn find_usdt_coin(cs: &Vec<BybitCoinBalance>) -> (r: Option<usize>)
    ensures
        match r {
            Some(i) => i as int == first_usdt_coin(cs@) && i < cs@.len(),
            None => first_usdt_coin(cs@) == -1,
        },
{
    let mut i: usize = 0;
    while i < cs.len()
        invariant
            i <= cs@.len(),
            forall|j: int| 0 <= j < i ==> (#[trigger] cs@[j]).coin@ != "USDT"@,
        decreases cs@.len() - i,
    {
        if str_eq(cs[i].coin.as_str(), "USDT") {
            proof {
                let c = first_usdt_coin(cs@);
                assert(cs@[i as int].coin@ == "USDT"@);
                assert(0 <= c < cs@.len() && cs@[c].coin@ == "USDT"@ && forall|j: int|
                    0 <= j < c ==> (#[trigger] cs@[j]).coin@ != "USDT"@);
                if c < i {
                    assert(cs@[c].coin@ != "USDT"@);
                }
                if c > i {
                    assert(cs@[i as int].coin@ != "USDT"@);
                }
            }
            return Some(i);
        }
        i = i + 1;
    }
    None
}

fn unrealized_of(coins: &Option<Vec<BybitCoinBalance>>) -> (r: Dec)
    ensures
        r == usdt_unrealized(*coins),
{
    match coins {
        Some(cs) => match find_usdt_coin(cs) {
            Some(i) => match parse_dec(cs[i].unrealised_pnl.as_str()) {
                Some(u) => u,
                None => Dec::zero(),
            },
            None => Dec::zero(),
        },
        None => Dec::zero(),
    }
}

/// The margin in use can be computed from the first account.
pub open spec fn wallet_fits(w: BybitWalletBalanceResult) -> bool {
    w.list@.len() > 0 && parsed_dec(w.list@[0].total_wallet_balance@) is Some && parsed_dec(
        w.list@[0].total_available_balance@,
    ) is Some ==> in_range(
        parsed_dec(w.list@[0].total_wallet_balance@).unwrap()@ - parsed_dec(
            w.list@[0].total_available_balance@,
        ).unwrap()@,
    )
}

/// The balance of the first account of a wallet-balance answer: wallet and
/// available balances, the USDT unrealized PnL, and the margin in use as
/// wallet minus available.
pub fn balance_from_wallet(w: &BybitWalletBalanceResult) -> (r: Result<AccountBalance, BalanceReadError>)
    requires
        wallet_fits(*w),
    ensures
        w.list@.len() == 0 ==> r == Err::<AccountBalance, BalanceReadError>(BalanceReadError::NoAccount),
        w.list@.len() > 0 ==> match (
            parsed_dec(w.list@[0].total_wallet_balance@),
            parsed_dec(w.list@[0].total_available_balance@),
        ) {
            (Some(t), Some(a)) => r == Ok::<AccountBalance, BalanceReadError>(
                AccountBalance {
                    total_balance: t,
                    available_balance: a,
                    unrealized_pnl: usdt_unrealized(w.list@[0].coin),
                    margin_used: dsub(t, a),
                },
            ),
            _ => r == Err::<AccountBalance, BalanceReadError>(BalanceReadError::Decimal),
        },
{
    if w.list.len() == 0 {
        return Err(BalanceReadError::NoAccount);
    }
    let acct = &w.list[0];
    let total = match parse_dec(acct.total_wallet_balance.as_str()) {
        Some(t) => t,
        None => return Err(BalanceReadError::Decimal),
    };
    let available = match parse_dec(acct.total_available_balance.as_str()) {
        Some(a) => a,
        None => return Err(BalanceReadError::Decimal),
    };
    let unrealized = unrealized_of(&acct.coin);
    Ok(
        AccountBalance {
            total_balance: total,
            available_balance: available,
            unrealized_pnl: unrealized,
            margin_used: total.minus(&available),
        },
    )
}

} // verus!
