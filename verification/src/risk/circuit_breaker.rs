//! A circuit breaker that halts trading after a losing streak, excessive
//! daily loss or drawdown, low equity, or too many trades in an hour.
use crate::common::time::now_ms;
use crate::decimal::{
    abs_int, dabs, dadd, ddiv, dsub, in_range, lemma_zero_dec_view, max_mantissa, difference_in_range, quotient_in_range, sum_fits, sum_in_range, zero_dec, Dec,
};
use crate::risk::limits::RiskLimits;
use vstd::prelude::*;

verus! {

/// Why trading is halted.
#[derive(Debug, Clone, Copy)]
pub enum BreakerHalt {
    /// A loss-streak cooldown is running until `until` (ms).
    Cooldown { until: u64, remaining_secs: u64 },
    /// The day's loss, as a fraction of peak equity, exceeds the limit.
    DailyLoss { loss_ratio: Dec, max_ratio: Dec },
    /// The drawdown from peak equity exceeds the limit.
    Drawdown { drawdown: Dec, max_drawdown: Dec },
    /// Equity is below the minimum.
    LowEquity { equity: Dec, min_equity: Dec },
    /// Too many trades this hour.
    TradeRate { trades: u32, max_trades: u32 },
}

/// The breaker's counters, as plain data.
pub struct BreakerState {
    pub consecutive_losses: u32,
    pub daily_loss: Dec,
    pub peak_equity: Dec,
    pub current_equity: Dec,
    pub trades_this_hour: u32,
    pub last_loss_time: Option<u64>,
    pub is_halted: bool,
    pub cooldown_until: Option<u64>,
}

/// The cooldown length in milliseconds.
pub open spec fn cooldown_ms(lim: RiskLimits) -> int {
    lim.cooldown_minutes * 60 * 1000
}

/// The state after a trade result `pnl` at time `now`.
pub open spec fn result_recorded(s: BreakerState, lim: RiskLimits, pnl: Dec, now: u64) -> BreakerState {
    let equity = dadd(s.current_equity, pnl);
    let peak = if equity@ > s.peak_equity@ {
        equity
    } else {
        s.peak_equity
    };
    if pnl@ < 0 {
        let losses = (s.consecutive_losses + 1) as u32;
        let streak = losses >= lim.max_consecutive_losses;
        BreakerState {
            trades_this_hour: (s.trades_this_hour + 1) as u32,
            consecutive_losses: losses,
            daily_loss: dadd(s.daily_loss, pnl),
            last_loss_time: Some(now),
            cooldown_until: if streak {
                Some(cooldown_end(lim, now))
            } else {
                s.cooldown_until
            },
            is_halted: if streak {
                true
            } else {
                s.is_halted
            },
            current_equity: equity,
            peak_equity: peak,
        }
    } else {
        BreakerState {
            trades_this_hour: (s.trades_this_hour + 1) as u32,
            consecutive_losses: 0,
            current_equity: equity,
            peak_equity: peak,
            ..s
        }
    }
}

/// What recording a trade result does to the breaker, over all results:
/// every result counts one trade this hour; a loss (negative result) is
/// added to the day's loss and extends the loss streak by one, and a gain or
/// break-even leaves the day's loss alone and ends the streak; the equity
/// moves by the result and the peak never falls below it. The sums are the
/// exact ones whenever the decimal additions are exact.
pub proof fn lemma_result_accounting(s: BreakerState, lim: RiskLimits, pnl: Dec, now: u64)
    requires
        result_ok(s, pnl),
    ensures
        result_recorded(s, lim, pnl, now).trades_this_hour == s.trades_this_hour + 1,
        pnl@ < 0 ==> result_recorded(s, lim, pnl, now).consecutive_losses == s.consecutive_losses + 1,
        pnl@ < 0 ==> result_recorded(s, lim, pnl, now).last_loss_time == Some(now),
        pnl@ >= 0 ==> result_recorded(s, lim, pnl, now).consecutive_losses == 0,
        pnl@ >= 0 ==> result_recorded(s, lim, pnl, now).daily_loss == s.daily_loss,
        pnl@ < 0 && dadd(s.daily_loss, pnl)@ == s.daily_loss@ + pnl@
            ==> result_recorded(s, lim, pnl, now).daily_loss@ == s.daily_loss@ + pnl@,
        dadd(s.current_equity, pnl)@ == s.current_equity@ + pnl@
            ==> result_recorded(s, lim, pnl, now).current_equity@ == s.current_equity@ + pnl@,
        result_recorded(s, lim, pnl, now).peak_equity@ >= result_recorded(s, lim, pnl, now).current_equity@,
        result_recorded(s, lim, pnl, now).peak_equity@ >= s.peak_equity@,
        pnl@ < 0 && s.consecutive_losses + 1 >= lim.max_consecutive_losses ==> {
            &&& result_recorded(s, lim, pnl, now).is_halted
            &&& result_recorded(s, lim, pnl, now).cooldown_until == Some(
                if now + lim.cooldown_minutes * 60000 <= u64::MAX {
                    (now + lim.cooldown_minutes * 60000) as u64
                } else {
                    u64::MAX
                },
            )
        },
        pnl@ < 0 && s.consecutive_losses + 1 < lim.max_consecutive_losses ==> result_recorded(s, lim, pnl, now).cooldown_until
            == s.cooldown_until,
        pnl@ >= 0 ==> result_recorded(s, lim, pnl, now).cooldown_until == s.cooldown_until
            && result_recorded(s, lim, pnl, now).is_halted == s.is_halted,
{
}

/// The day's loss is the sum of the day's losses: starting from a day's loss
/// `d`, two losses in a row leave `d` plus both of them (when the additions
/// are exact), whatever came between in gains.
pub proof fn lemma_losses_add_up(s: BreakerState, lim: RiskLimits, l1: Dec, l2: Dec, now1: u64, now2: u64)
    requires
        result_ok(s, l1),
        result_ok(result_recorded(s, lim, l1, now1), l2),
        l1@ < 0,
        l2@ < 0,
        dadd(s.daily_loss, l1)@ == s.daily_loss@ + l1@,
        dadd(dadd(s.daily_loss, l1), l2)@ == s.daily_loss@ + l1@ + l2@,
    ensures
        result_recorded(result_recorded(s, lim, l1, now1), lim, l2, now2).daily_loss@ == s.daily_loss@ + l1@ + l2@,
        result_recorded(result_recorded(s, lim, l1, now1), lim, l2, now2).consecutive_losses == s.consecutive_losses + 2,
{
    lemma_result_accounting(s, lim, l1, now1);
    lemma_result_accounting(result_recorded(s, lim, l1, now1), lim, l2, now2);
}

/// When a cooldown started at `now` ends: `now` plus the cooldown, held at
/// the largest timestamp.
pub open spec fn cooldown_end(lim: RiskLimits, now: u64) -> u64 {
    if now + cooldown_ms(lim) <= u64::MAX {
        (now + cooldown_ms(lim)) as u64
    } else {
        u64::MAX
    }
}

/// Whether a trade result can be recorded without overflowing a counter or
/// the range of decimals.
pub open spec fn result_ok(s: BreakerState, pnl: Dec) -> bool {
    &&& s.trades_this_hour < u32::MAX
    &&& in_range(s.current_equity@ + pnl@)
    &&& pnl@ < 0 ==> {
        &&& s.consecutive_losses < u32::MAX
        &&& in_range(s.daily_loss@ + pnl@)
    }
}

/// The day's loss as a fraction of peak equity (absolute value).
pub open spec fn daily_loss_ratio(s: BreakerState) -> Dec {
    dabs(ddiv(s.daily_loss, s.peak_equity))
}

/// The drawdown from the peak, as a fraction of the peak.
pub open spec fn drawdown_ratio(s: BreakerState) -> Dec {
    ddiv(dsub(s.peak_equity, s.current_equity), s.peak_equity)
}

/// The divisions that the checks make stay within the range of decimals.
pub open spec fn checks_ok(s: BreakerState) -> bool {
    s.peak_equity@ != 0 ==> {
        &&& abs_int(s.daily_loss@) < max_mantissa() * abs_int(s.peak_equity@)
        &&& in_range(s.peak_equity@ - s.current_equity@)
        &&& abs_int(dsub(s.peak_equity, s.current_equity)@) < max_mantissa() * abs_int(
            s.peak_equity@,
        )
    }
}

/// The first check that halts trading at time `now`, if any: a running
/// loss-streak cooldown, the daily loss, the drawdown, low equity, then the
/// hourly trade count.
pub open spec fn halt_reason(s: BreakerState, lim: RiskLimits, now: u64) -> Option<BreakerHalt> {
    if cooldown_active(s, now) {
        let until = s.cooldown_until.unwrap();
        Some(BreakerHalt::Cooldown { until, remaining_secs: ((until - now) / 1000) as u64 })
    } else if s.daily_loss@ != 0 && s.peak_equity@ != 0 && daily_loss_ratio(s)@
        > lim.max_daily_loss_pct@ {
        Some(
            BreakerHalt::DailyLoss {
                loss_ratio: daily_loss_ratio(s),
                max_ratio: lim.max_daily_loss_pct,
            },
        )
    } else if s.peak_equity@ != 0 && drawdown_ratio(s)@ > lim.max_drawdown_pct@ {
        Some(
            BreakerHalt::Drawdown { drawdown: drawdown_ratio(s), max_drawdown: lim.max_drawdown_pct },
        )
    } else if s.current_equity@ < lim.min_equity@ {
        Some(BreakerHalt::LowEquity { equity: s.current_equity, min_equity: lim.min_equity })
    } else if s.trades_this_hour >= lim.max_trades_per_hour {
        Some(
            BreakerHalt::TradeRate {
                trades: s.trades_this_hour,
                max_trades: lim.max_trades_per_hour,
            },
        )
    } else {
        None
    }
}

/// Whether `r` is the answer of the checks at time `now`: `Ok` exactly when
/// nothing halts trading, else the first halt reason.
pub open spec fn verdict(s: BreakerState, lim: RiskLimits, now: u64, r: Result<(), BreakerHalt>) -> bool {
    match halt_reason(s, lim, now) {
        None => r is Ok,
        Some(h) => r == Err::<(), BreakerHalt>(h),
    }
}

/// Whether a loss-streak cooldown is still running at time `now`.
pub open spec fn cooldown_active(s: BreakerState, now: u64) -> bool {
    match s.cooldown_until {
        Some(until) => now < until,
        None => false,
    }
}

/// The state after the daily reset: no daily loss, no trades this hour, no
/// loss streak, no cooldown and not halted.
pub open spec fn daily_reset(s: BreakerState) -> BreakerState {
    BreakerState {
        daily_loss: zero_dec(),
        trades_this_hour: 0,
        consecutive_losses: 0,
        cooldown_until: None,
        is_halted: false,
        ..s
    }
}

/// The state after equity is set from outside; the peak follows it upward.
pub open spec fn equity_updated(s: BreakerState, equity: Dec) -> BreakerState {
    BreakerState {
        current_equity: equity,
        peak_equity: if equity@ > s.peak_equity@ {
            equity
        } else {
            s.peak_equity
        },
        ..s
    }
}

/// The peak equity is never below the current equity.
pub open spec fn peak_covers_equity(s: BreakerState) -> bool {
    s.peak_equity@ >= s.current_equity@
}

/// The peak equity never falls below the current equity: a new breaker
/// starts with them equal, and recording a trade or setting the equity
/// raises the peak to the new equity when it is higher.
pub proof fn lemma_peak_covers_equity(s: BreakerState, lim: RiskLimits, pnl: Dec, now: u64, equity: Dec)
    ensures
        peak_covers_equity(result_recorded(s, lim, pnl, now)),
        peak_covers_equity(equity_updated(s, equity)),
        peak_covers_equity(s) ==> peak_covers_equity(daily_reset(s)),
{
}

/// A loss that brings the streak to the limit halts trading at once: the
/// checks at the same moment answer with the cooldown that it started.
pub proof fn lemma_loss_streak_halts(s: BreakerState, lim: RiskLimits, pnl: Dec, now: u64)
    requires
        pnl@ < 0,
        s.consecutive_losses < u32::MAX,
        s.consecutive_losses + 1 >= lim.max_consecutive_losses,
        lim.cooldown_minutes > 0,
        now < u64::MAX,
    ensures
        halt_reason(result_recorded(s, lim, pnl, now), lim, now) == Some(
            BreakerHalt::Cooldown {
                until: cooldown_end(lim, now),
                remaining_secs: ((cooldown_end(lim, now) - now) / 1000) as u64,
            },
        ),
{
}

/// A winning (or break-even) trade ends the loss streak and leaves the
/// cooldown as it was.
pub proof fn lemma_win_resets_streak(s: BreakerState, lim: RiskLimits, pnl: Dec, now: u64)
    requires
        pnl@ >= 0,
    ensures
        result_recorded(s, lim, pnl, now).consecutive_losses == 0,
        result_recorded(s, lim, pnl, now).cooldown_until == s.cooldown_until,
        result_recorded(s, lim, pnl, now).daily_loss == s.daily_loss,
{
}

/// After the daily reset neither a cooldown nor the daily loss halts
/// trading, whatever the time; only the drawdown, low equity or a trade
/// limit of zero can.
pub proof fn lemma_reset_daily_lifts_cooldown(s: BreakerState, lim: RiskLimits, now: u64)
    ensures
        !cooldown_active(daily_reset(s), now),
        halt_reason(daily_reset(s), lim, now) is Some ==> {
            ||| halt_reason(daily_reset(s), lim, now) matches Some(BreakerHalt::Drawdown { .. })
            ||| halt_reason(daily_reset(s), lim, now) matches Some(BreakerHalt::LowEquity { .. })
            ||| halt_reason(daily_reset(s), lim, now) matches Some(BreakerHalt::TradeRate { .. })
                && lim.max_trades_per_hour == 0
        },
{
    lemma_zero_dec_view();
}

/// Tracks trading activity and halts trading when limits are hit.
pub struct CircuitBreaker {
    consecutive_losses: u32,
    daily_loss: Dec,
    peak_equity: Dec,
    current_equity: Dec,
    trades_this_hour: u32,
    last_loss_time: Option<u64>,
    is_halted: bool,
    cooldown_until: Option<u64>,
    config: RiskLimits,
}

impl CircuitBreaker {
    pub closed spec fn state(&self) -> BreakerState {
        BreakerState {
            consecutive_losses: self.consecutive_losses,
            daily_loss: self.daily_loss,
            peak_equity: self.peak_equity,
            current_equity: self.current_equity,
            trades_this_hour: self.trades_this_hour,
            last_loss_time: self.last_loss_time,
            is_halted: self.is_halted,
            cooldown_until: self.cooldown_until,
        }
    }

    pub closed spec fn limits(&self) -> RiskLimits {
        self.config
    }

    pub fn new(config: RiskLimits, initial_equity: Dec) -> (r: Self)
        ensures
            r.limits() == config,
            r.state() == (BreakerState {
                consecutive_losses: 0,
                daily_loss: zero_dec(),
                peak_equity: initial_equity,
                current_equity: initial_equity,
                trades_this_hour: 0,
                last_loss_time: None,
                is_halted: false,
                cooldown_until: None,
            }),
    {
        CircuitBreaker {
            consecutive_losses: 0,
            daily_loss: Dec::zero(),
            peak_equity: initial_equity,
            current_equity: initial_equity,
            trades_this_hour: 0,
            last_loss_time: None,
            is_halted: false,
            cooldown_until: None,
            config,
        }
    }

    /// A breaker with the same state and limits.
    pub(crate) fn copy(&self) -> (r: Self)
        ensures
            r.state() == self.state(),
            r.limits() == self.limits(),
    {
        CircuitBreaker {
            consecutive_losses: self.consecutive_losses,
            daily_loss: self.daily_loss,
            peak_equity: self.peak_equity,
            current_equity: self.current_equity,
            trades_this_hour: self.trades_this_hour,
            last_loss_time: self.last_loss_time,
            is_halted: self.is_halted,
            cooldown_until: self.cooldown_until,
            config: self.config,
        }
    }

    /// Whether recording a trade result of `pnl` stays within the limits of
    /// the counters and of decimals (the condition of `on_trade_result`).
    pub fn result_fits(&self, pnl: Dec) -> (r: bool)
        ensures
            r == result_ok(self.state(), pnl),
    {
        if self.trades_this_hour == u32::MAX || !sum_in_range(&self.current_equity, &pnl) {
            return false;
        }
        let zero = Dec::zero();
        if pnl.lt(&zero) {
            self.consecutive_losses < u32::MAX && sum_in_range(&self.daily_loss, &pnl)
        } else {
            true
        }
    }

    /// Record the result of a completed trade at time `now` (ms). A negative
    /// `pnl` is a loss; a loss streak reaching the limit starts a cooldown.
    pub fn on_trade_result_at(&mut self, pnl: Dec, now: u64)
        requires
            result_ok(old(self).state(), pnl),
        ensures
            final(self).limits() == old(self).limits(),
            final(self).state() == result_recorded(old(self).state(), old(self).limits(), pnl, now),
            pnl@ < 0 && sum_fits(old(self).state().daily_loss, pnl, old(self).state().daily_loss@ + pnl@)
                ==> final(self).state().daily_loss@ == old(self).state().daily_loss@ + pnl@,
            sum_fits(old(self).state().current_equity, pnl, old(self).state().current_equity@ + pnl@)
                ==> final(self).state().current_equity@ == old(self).state().current_equity@ + pnl@,
    {
        self.trades_this_hour = self.trades_this_hour + 1;
        let zero = Dec::zero();
        if pnl.lt(&zero) {
            self.consecutive_losses = self.consecutive_losses + 1;
            self.daily_loss = self.daily_loss.plus(&pnl);
            self.last_loss_time = Some(now);
            if self.consecutive_losses >= self.config.max_consecutive_losses {
                let cooldown = self.config.cooldown_minutes as u64 * 60 * 1000;
                let until = now.saturating_add(cooldown);
                self.cooldown_until = Some(until);
                self.is_halted = true;
            }
        } else {
            self.consecutive_losses = 0;
        }
        self.current_equity = self.current_equity.plus(&pnl);
        if self.peak_equity.lt(&self.current_equity) {
            self.peak_equity = self.current_equity;
        }
    }

    /// Record the result of a completed trade, stamped with the current time.
    pub fn on_trade_result(&mut self, pnl: Dec)
        requires
            result_ok(old(self).state(), pnl),
        ensures
            final(self).limits() == old(self).limits(),
            exists|now: u64|
                final(self).state() == result_recorded(
                    old(self).state(),
                    old(self).limits(),
                    pnl,
                    now,
                ),
    {
        let now = now_ms();
        self.on_trade_result_at(pnl, now);
    }

    /// Whether trading is permitted at time `now` (ms); the error names the
    /// first limit that halts it.
    pub fn can_trade_at(&self, now: u64) -> (r: Result<(), BreakerHalt>)
        requires
            checks_ok(self.state()),
        ensures
            verdict(self.state(), self.limits(), now, r),
    {
        if let Some(until) = self.cooldown_until {
            if now < until {
                return Err(BreakerHalt::Cooldown { until, remaining_secs: (until - now) / 1000 });
            }
        }
        if !self.daily_loss.is_zero() && !self.peak_equity.is_zero() {
            let ratio = self.daily_loss.divided_by(&self.peak_equity).abs();
            if self.config.max_daily_loss_pct.lt(&ratio) {
                return Err(
                    BreakerHalt::DailyLoss { loss_ratio: ratio, max_ratio: self.config.max_daily_loss_pct },
                );
            }
        }
        if !self.peak_equity.is_zero() {
            let drawdown = self.peak_equity.minus(&self.current_equity).divided_by(
                &self.peak_equity,
            );
            if self.config.max_drawdown_pct.lt(&drawdown) {
                return Err(BreakerHalt::Drawdown { drawdown, max_drawdown: self.config.max_drawdown_pct });
            }
        }
        if self.current_equity.lt(&self.config.min_equity) {
            return Err(
                BreakerHalt::LowEquity { equity: self.current_equity, min_equity: self.config.min_equity },
            );
        }
        if self.trades_this_hour >= self.config.max_trades_per_hour {
            return Err(
                BreakerHalt::TradeRate {
                    trades: self.trades_this_hour,
                    max_trades: self.config.max_trades_per_hour,
                },
            );
        }
        Ok(())
    }

    /// Whether the divisions of the checks stay within range (the condition
    /// of `can_trade`).
    pub fn checks_fit(&self) -> (r: bool)
        ensures
            r == checks_ok(self.state()),
    {
        if self.peak_equity.is_zero() {
            return true;
        }
        if !quotient_in_range(&self.daily_loss, &self.peak_equity)
            || !difference_in_range(&self.peak_equity, &self.current_equity) {
            return false;
        }
        let drop = self.peak_equity.minus(&self.current_equity);
        quotient_in_range(&drop, &self.peak_equity)
    }

    /// Whether trading is permitted now, when the checks stay within range:
    /// `Some` of what `can_trade` answers, otherwise `None`.
    pub fn try_can_trade(&self) -> (r: Option<Result<(), BreakerHalt>>)
        ensures
            r is Some <==> checks_ok(self.state()),
            r matches Some(v) ==> exists|now: u64| #[trigger] verdict(self.state(), self.limits(), now, v),
    {
        if self.checks_fit() {
            Some(self.can_trade())
        } else {
            None
        }
    }

    /// Whether trading is permitted now.
    pub fn can_trade(&self) -> (r: Result<(), BreakerHalt>)
        requires
            checks_ok(self.state()),
        ensures
            exists|now: u64| #[trigger] verdict(self.state(), self.limits(), now, r),
    {
        let now = now_ms();
        self.can_trade_at(now)
    }

    /// Reset the daily counters: daily loss, hourly trades, the loss streak
    /// and the cooldown.
    pub fn reset_daily(&mut self)
        ensures
            final(self).limits() == old(self).limits(),
            final(self).state() == daily_reset(old(self).state()),
    {
        self.daily_loss = Dec::zero();
        self.trades_this_hour = 0;
        self.consecutive_losses = 0;
        self.cooldown_until = None;
        self.is_halted = false;
    }

    /// Reset the hourly trade counter.
    pub fn reset_hourly(&mut self)
        ensures
            final(self).limits() == old(self).limits(),
            final(self).state() == (BreakerState { trades_this_hour: 0, ..old(self).state() }),
    {
        self.trades_this_hour = 0;
    }

    /// Set the equity from an external source, raising the peak when the new
    /// equity exceeds it.
    pub fn update_equity(&mut self, equity: Dec)
        ensures
            final(self).limits() == old(self).limits(),
            final(self).state() == equity_updated(old(self).state(), equity),
    {
        self.current_equity = equity;
        if self.peak_equity.lt(&equity) {
            self.peak_equity = equity;
        }
    }

    /// Whether the breaker is in the halted state.
    pub fn is_halted(&self) -> (r: bool)
        ensures
            r == self.state().is_halted,
    {
        self.is_halted
    }
}

} // verus!
