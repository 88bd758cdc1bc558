//! the pre-trade risk check: every signal passes here before an order is
//! placed. It enforces the equity floor, the position limit, the per-trade
//! risk and the leverage cap, and sizes the position.
use crate::common::error::BangidaError;
use crate::common::time::{decimal_digits, u64_text};
use crate::decimal::{dec_to_string, decimal_text, dmul, Dec};
use crate::risk::limits::RiskLimits;
use crate::risk::position_sizer::{fixed_fractional_size, sizing_fits, PositionSizer};
use vstd::prelude::*;

verus! {

/// What the risk manager approves for a signal: the position size, the leverage to
/// use and the most that the trade may lose.
#[derive(Debug, Clone, Copy)]
pub struct RiskApproval {
    pub quantity: Dec,
    pub leverage: u32,
    pub max_loss: Dec,
}

/// Why the risk manager refuses a signal.
pub enum Rejection {
    /// Equity is below the minimum.
    LowEquity,
    /// The open positions already reach the limit.
    TooManyPositions,
    /// The per-trade risk setting is not positive.
    NonPositiveRisk,
    /// The computed position size is zero.
    ZeroSize,
}

/// The first check that refuses a signal, if any, in the order: equity
/// floor, position limit, risk setting, position size.
pub open spec fn rejection(lim: RiskLimits, equity: Dec, open_positions: usize) -> Option<Rejection> {
    if equity@ < lim.min_equity@ {
        Some(Rejection::LowEquity)
    } else if open_positions >= lim.max_open_positions {
        Some(Rejection::TooManyPositions)
    } else if lim.max_risk_per_trade_pct@ <= 0 {
        Some(Rejection::NonPositiveRisk)
    } else if approved_size(lim, equity)@ == 0 {
        Some(Rejection::ZeroSize)
    } else {
        None
    }
}

/// The position size: fixed-fractional sizing with the per-trade risk used
/// both as the fraction at risk and as the stop distance.
pub open spec fn approved_size(lim: RiskLimits, equity: Dec) -> Dec {
    fixed_fractional_size(equity, lim.max_risk_per_trade_pct, lim.max_risk_per_trade_pct)
}

/// The leverage actually used: the requested one, capped by the limit.
pub open spec fn capped_leverage(lim: RiskLimits, leverage: u32) -> u32 {
    if leverage < lim.max_leverage {
        leverage
    } else {
        lim.max_leverage
    }
}

/// The detail of a refusal.
pub open spec fn rejection_text(
    why: Rejection,
    lim: RiskLimits,
    equity: Dec,
    open_positions: usize,
) -> Seq<char> {
    match why {
        Rejection::LowEquity => "equity "@ + decimal_text(equity.mant(), equity.scl())
            + " below minimum "@ + decimal_text(lim.min_equity.mant(), lim.min_equity.scl()),
        Rejection::TooManyPositions => "max open positions reached: "@ + decimal_digits(
            open_positions as nat,
        ) + "/"@ + decimal_digits(lim.max_open_positions as nat),
        Rejection::NonPositiveRisk => "max_risk_per_trade_pct must be positive"@,
        Rejection::ZeroSize => "computed position size is zero"@,
    }
}

/// The sizing arithmetic stays within the range of decimals wherever the
/// risk manager gets to size a position.
pub open spec fn validation_fits(lim: RiskLimits, equity: Dec, open_positions: usize) -> bool {
    equity@ >= lim.min_equity@ && open_positions < lim.max_open_positions
        && lim.max_risk_per_trade_pct@ > 0 ==> sizing_fits(
        equity,
        lim.max_risk_per_trade_pct,
        lim.max_risk_per_trade_pct,
    )
}

/// the pre-trade risk check.
#[derive(Debug, Clone, Copy)]
pub struct RiskManager {
    config: RiskLimits,
}

impl RiskManager {
    /// The limits that the risk manager enforces.
    pub closed spec fn limits(&self) -> RiskLimits {
        self.config
    }

    pub fn new(config: RiskLimits) -> (r: Self)
        ensures
            r.limits() == config,
    {
        RiskManager { config }
    }

    /// Checks a signal against the account state (`equity`, the number of
    /// open positions) and the limits, and sizes it. The error carries the
    /// first check that refused it.
    pub fn validate_signal(&self, equity: Dec, open_positions: usize, leverage: u32) -> (r: Result<
        RiskApproval,
        BangidaError,
    >)
        requires
            validation_fits(self.limits(), equity, open_positions),
        ensures
            match rejection(self.limits(), equity, open_positions) {
                Some(why) => r matches Err(BangidaError::RiskCheck(t)) && t@ == rejection_text(
                    why,
                    self.limits(),
                    equity,
                    open_positions,
                ),
                None => r == Ok::<RiskApproval, BangidaError>(
                    RiskApproval {
                        quantity: approved_size(self.limits(), equity),
                        leverage: capped_leverage(self.limits(), leverage),
                        max_loss: dmul(equity, self.limits().max_risk_per_trade_pct),
                    },
                ),
            },
    {
        let lim = self.config;
        if equity.lt(&lim.min_equity) {
            let mut t = String::from_str("equity ");
            let e = dec_to_string(equity);
            t.append(e.as_str());
            t.append(" below minimum ");
            let m = dec_to_string(lim.min_equity);
            t.append(m.as_str());
            return Err(BangidaError::RiskCheck(t));
        }
        if open_positions as u64 >= lim.max_open_positions as u64 {
            let mut t = String::from_str("max open positions reached: ");
            let o = u64_text(open_positions as u64);
            t.append(o.as_str());
            t.append("/");
            let m = u64_text(lim.max_open_positions as u64);
            t.append(m.as_str());
            return Err(BangidaError::RiskCheck(t));
        }
        let effective_leverage = if leverage < lim.max_leverage {
            leverage
        } else {
            lim.max_leverage
        };
        let zero = Dec::zero();
        if lim.max_risk_per_trade_pct.le(&zero) {
            return Err(
                BangidaError::RiskCheck(String::from_str("max_risk_per_trade_pct must be positive")),
            );
        }
        let quantity = PositionSizer::fixed_fractional(
            equity,
            lim.max_risk_per_trade_pct,
            lim.max_risk_per_trade_pct,
        );
        if quantity.is_zero() {
            return Err(BangidaError::RiskCheck(String::from_str("computed position size is zero")));
        }
        let max_loss = equity.times(&lim.max_risk_per_trade_pct);
        Ok(RiskApproval { quantity, leverage: effective_leverage, max_loss })
    }
}

} // verus!
