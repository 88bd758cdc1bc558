//! Risk limits in decimal form.
use crate::decimal::Dec;
use vstd::prelude::*;

verus! {

/// The risk settings that the circuit breaker and the risk manager enforce.
/// Fractions are decimals (e.g. 0.05 for 5 %).
#[derive(Debug, Clone, Copy)]
pub struct RiskLimits {
    pub max_risk_per_trade_pct: Dec,
    pub max_daily_loss_pct: Dec,
    pub max_drawdown_pct: Dec,
    pub max_consecutive_losses: u32,
    pub cooldown_minutes: u32,
    pub min_equity: Dec,
    pub max_open_positions: u32,
    pub max_trades_per_hour: u32,
    pub max_leverage: u32,
}

} // verus!
