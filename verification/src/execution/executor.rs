//! Order planning for the executor: how a validated signal becomes an
//! exchange order. Limit orders rest on our side of the book for maker
//! rebates; urgent signals are priced one tick beyond the far touch; every
//! limit order is post-only; stop losses go out as market orders.
use crate::common::types::{OrderRequest, OrderResponse, OrderType, Side, Symbol, TimeInForce};
use crate::decimal::{add_ok, dadd, dsub, sub_ok, sum_fits, zero_dec, Dec};
use crate::execution::order_tracker::{ManagedOrder, ManagedOrderView};
use vstd::prelude::*;

verus! {

/// How urgently a signal must be filled.
#[derive(Debug, Clone, Copy, PartialEq, Eq, Structural)]
pub enum Urgency {
    /// A stop loss: fill at any price.
    StopLoss,
    /// A strong signal: cross the spread by one tick beyond the far touch.
    Aggressive,
    /// An ordinary entry: rest on our side of the book.
    Passive,
}

/// The limit price of an order, if any: none for a stop loss; for an
/// aggressive order the far touch moved one tick further (a buy at the best
/// ask plus a tick, a sell at the best bid minus a tick), so that it crosses
/// the spread; our own side's best price for a passive one.
pub open spec fn planned_price(urgency: Urgency, side: Side, best_bid: Dec, best_ask: Dec, tick: Dec) -> Option<Dec> {
    match urgency {
        Urgency::StopLoss => None,
        Urgency::Aggressive => match side {
            Side::Buy => Some(dadd(best_ask, tick)),
            Side::Sell => Some(dsub(best_bid, tick)),
        },
        Urgency::Passive => match side {
            Side::Buy => Some(best_bid),
            Side::Sell => Some(best_ask),
        },
    }
}

/// The price arithmetic stays within range.
pub open spec fn plan_fits(urgency: Urgency, side: Side, best_bid: Dec, best_ask: Dec, tick: Dec) -> bool {
    urgency == Urgency::Aggressive ==> match side {
        Side::Buy => add_ok(best_ask, tick),
        Side::Sell => sub_ok(best_bid, tick),
    }
}

/// How long an order stays on the book: a stop loss (a market order) is
/// immediate-or-cancel; every limit order, aggressive or passive, is
/// post-only, so that an entry only ever earns the maker rebate.
pub open spec fn planned_time_in_force(urgency: Urgency) -> TimeInForce {
    match urgency {
        Urgency::StopLoss => TimeInForce::Ioc,
        _ => TimeInForce::PostOnly,
    }
}

/// The aggressive price is exact (the far touch and the tick add without
/// rounding): then it lies strictly beyond the far touch when the tick is
/// positive.
pub open spec fn aggressive_exact(side: Side, best_bid: Dec, best_ask: Dec, tick: Dec) -> bool {
    match side {
        Side::Buy => sum_fits(best_ask, tick, best_ask@ + tick@),
        Side::Sell => sum_fits(best_bid, tick, best_bid@ - tick@),
    }
}

/// The order for a signal: a market order (immediate-or-cancel) for a stop
/// loss, a post-only limit order one tick through the far touch for an
/// aggressive signal, and a post-only limit order at our own touch for a
/// passive one; the signal's stop loss is passed on as the stop price. An
/// exact aggressive buy is priced above the best ask and an exact aggressive
/// sell below the best bid.
pub fn plan_order(
    urgency: Urgency,
    symbol: &Symbol,
    side: Side,
    quantity: Dec,
    stop_loss: Option<Dec>,
    best_bid: Dec,
    best_ask: Dec,
    tick_size: Dec,
) -> (r: OrderRequest)
    requires
        plan_fits(urgency, side, best_bid, best_ask, tick_size),
    ensures
        r.symbol@ == symbol@,
        r.side == side,
        r.order_type == (if urgency == Urgency::StopLoss {
            OrderType::Market
        } else {
            OrderType::Limit
        }),
        r.quantity == quantity,
        r.price == planned_price(urgency, side, best_bid, best_ask, tick_size),
        r.stop_price == stop_loss,
        r.time_in_force == planned_time_in_force(urgency),
        !r.reduce_only,
        urgency == Urgency::Aggressive && tick_size@ > 0 && aggressive_exact(side, best_bid, best_ask, tick_size)
            ==> match side {
            Side::Buy => r.price.unwrap()@ > best_ask@,
            Side::Sell => r.price.unwrap()@ < best_bid@,
        },
{
    let (order_type, price) = match urgency {
        Urgency::StopLoss => (OrderType::Market, None),
        Urgency::Aggressive => {
            let p = match side {
                Side::Buy => best_ask.plus(&tick_size),
                Side::Sell => best_bid.minus(&tick_size),
            };
            (OrderType::Limit, Some(p))
        },
        Urgency::Passive => {
            let p = match side {
                Side::Buy => best_bid,
                Side::Sell => best_ask,
            };
            (OrderType::Limit, Some(p))
        },
    };
    let time_in_force = match order_type {
        OrderType::Limit => TimeInForce::PostOnly,
        _ => TimeInForce::Ioc,
    };
    OrderRequest {
        symbol: symbol.clone(),
        side,
        order_type,
        quantity,
        price,
        stop_price: stop_loss,
        time_in_force,
        reduce_only: false,
    }
}

/// The record kept of a sent order: the request's symbol, side, price and
/// quantity with the exchange's id, status and time; nothing filled yet.
pub fn sent_order(request: &OrderRequest, response: &OrderResponse) -> (r: ManagedOrder)
    ensures
        r@ == (ManagedOrderView {
            order_id: response.order_id@,
            symbol: request.symbol@,
            side: request.side,
            price: request.price,
            quantity: request.quantity,
            status: response.status,
            created_at: response.timestamp_ms,
            fill_quantity: zero_dec(),
            avg_fill_price: zero_dec(),
        }),
{
    ManagedOrder {
        order_id: response.order_id.clone(),
        symbol: request.symbol.clone(),
        side: request.side,
        price: request.price,
        quantity: request.quantity,
        status: response.status,
        created_at: response.timestamp_ms,
        fill_quantity: Dec::zero(),
        avg_fill_price: Dec::zero(),
    }
}

/// A resting (passive) order never crosses the spread: a buy is priced at
/// the best bid and a sell at the best ask.
pub proof fn lemma_passive_stays_on_own_side(side: Side, best_bid: Dec, best_ask: Dec, tick: Dec)
    ensures
        planned_price(Urgency::Passive, side, best_bid, best_ask, tick) == Some(
            match side {
                Side::Buy => best_bid,
                Side::Sell => best_ask,
            },
        ),
        planned_price(Urgency::StopLoss, side, best_bid, best_ask, tick) is None,
{
}

} // verus!
