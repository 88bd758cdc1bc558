//! Running PnL bookkeeping: equity, peak equity, win/loss tallies and fees.
use crate::decimal::{
    abs_int, dabs, dadd, ddiv, difference_in_range, div_ok, dsub, in_range, sub_ok, sum_in_range, zero_dec, Dec,
};
use vstd::prelude::*;

verus! {

/// Real-time PnL tracking.
#[derive(Debug, Clone, Copy)]
pub struct PnlTracker {
    peak_equity: Dec,
    current_equity: Dec,
    daily_pnl: Dec,
    total_trades: u64,
    winning_trades: u64,
    total_pnl: Dec,
    gross_profit: Dec,
    gross_loss: Dec,
    total_fees: Dec,
}

/// The tracker's values, as plain data.
pub struct PnlState {
    pub peak_equity: Dec,
    pub current_equity: Dec,
    pub daily_pnl: Dec,
    pub total_trades: u64,
    pub winning_trades: u64,
    pub total_pnl: Dec,
    pub gross_profit: Dec,
    pub gross_loss: Dec,
    pub total_fees: Dec,
}

/// The state after recording a trade with gross `pnl` and `fees`.
pub open spec fn trade_recorded(s: PnlState, pnl: Dec, fees: Dec) -> PnlState {
    let net = dsub(pnl, fees);
    let equity = dadd(s.current_equity, net);
    PnlState {
        total_trades: (s.total_trades + 1) as u64,
        total_pnl: dadd(s.total_pnl, net),
        daily_pnl: dadd(s.daily_pnl, net),
        total_fees: dadd(s.total_fees, fees),
        winning_trades: if pnl@ > 0 {
            (s.winning_trades + 1) as u64
        } else {
            s.winning_trades
        },
        gross_profit: if pnl@ > 0 {
            dadd(s.gross_profit, pnl)
        } else {
            s.gross_profit
        },
        gross_loss: if pnl@ < 0 {
            dadd(s.gross_loss, dabs(pnl))
        } else {
            s.gross_loss
        },
        current_equity: equity,
        peak_equity: if equity@ > s.peak_equity@ {
            equity
        } else {
            s.peak_equity
        },
    }
}

/// Whether recording a trade with `pnl` and `fees` stays within the limits of
/// the counters and of decimals.
pub open spec fn trade_ok(s: PnlState, pnl: Dec, fees: Dec) -> bool {
    let net = dsub(pnl, fees);
    &&& s.total_trades < u64::MAX
    &&& in_range(pnl@ - fees@)
    &&& in_range(s.total_pnl@ + net@)
    &&& in_range(s.daily_pnl@ + net@)
    &&& in_range(s.total_fees@ + fees@)
    &&& in_range(s.current_equity@ + net@)
    &&& pnl@ > 0 ==> in_range(s.gross_profit@ + pnl@)
    &&& pnl@ < 0 ==> in_range(s.gross_loss@ + abs_int(pnl@))
}

impl PnlTracker {
    /// The tracker's values.
    pub closed spec fn state(&self) -> PnlState {
        PnlState {
            peak_equity: self.peak_equity,
            current_equity: self.current_equity,
            daily_pnl: self.daily_pnl,
            total_trades: self.total_trades,
            winning_trades: self.winning_trades,
            total_pnl: self.total_pnl,
            gross_profit: self.gross_profit,
            gross_loss: self.gross_loss,
            total_fees: self.total_fees,
        }
    }

    /// The peak equity is never below the current equity, and winning trades
    /// never outnumber trades.
    pub open spec fn wf(&self) -> bool {
        &&& self.state().peak_equity@ >= self.state().current_equity@
        &&& self.state().winning_trades <= self.state().total_trades
    }

    pub fn new(initial_equity: Dec) -> (r: Self)
        ensures
            r.wf(),
            r.state().peak_equity == initial_equity,
            r.state().current_equity == initial_equity,
            r.state().daily_pnl == zero_dec(),
            r.state().total_trades == 0,
            r.state().winning_trades == 0,
            r.state().total_pnl == zero_dec(),
            r.state().gross_profit == zero_dec(),
            r.state().gross_loss == zero_dec(),
            r.state().total_fees == zero_dec(),
    {
        PnlTracker {
            peak_equity: initial_equity,
            current_equity: initial_equity,
            daily_pnl: Dec::zero(),
            total_trades: 0,
            winning_trades: 0,
            total_pnl: Dec::zero(),
            gross_profit: Dec::zero(),
            gross_loss: Dec::zero(),
            total_fees: Dec::zero(),
        }
    }

    /// Record a completed trade with its PnL (before fees) and fee amount.
    pub fn record_trade(&mut self, pnl: Dec, fees: Dec)
        requires
            old(self).wf(),
            trade_ok(old(self).state(), pnl, fees),
        ensures
            final(self).wf(),
            final(self).state() == trade_recorded(old(self).state(), pnl, fees),
    {
        self.total_trades = self.total_trades + 1;
        let net_pnl = pnl.minus(&fees);
        self.total_pnl = self.total_pnl.plus(&net_pnl);
        self.daily_pnl = self.daily_pnl.plus(&net_pnl);
        self.total_fees = self.total_fees.plus(&fees);
        let zero = Dec::zero();
        if zero.lt(&pnl) {
            self.winning_trades = self.winning_trades + 1;
            self.gross_profit = self.gross_profit.plus(&pnl);
        } else if pnl.lt(&zero) {
            let a = pnl.abs();
            self.gross_loss = self.gross_loss.plus(&a);
        }
        self.current_equity = self.current_equity.plus(&net_pnl);
        if self.peak_equity.lt(&self.current_equity) {
            self.peak_equity = self.current_equity;
        }
    }

    /// Record a trade when the counters and amounts stay in range: then as
    /// `record_trade` and `true`; otherwise nothing changes and `false`.
    pub fn try_record_trade(&mut self, pnl: Dec, fees: Dec) -> (r: bool)
        requires
            old(self).wf(),
        ensures
            final(self).wf(),
            r == trade_ok(old(self).state(), pnl, fees),
            r ==> final(self).state() == trade_recorded(old(self).state(), pnl, fees),
            !r ==> final(self).state() == old(self).state(),
    {
        if self.total_trades == u64::MAX || !difference_in_range(&pnl, &fees) {
            return false;
        }
        let net = pnl.minus(&fees);
        if !sum_in_range(&self.total_pnl, &net) || !sum_in_range(&self.daily_pnl, &net)
            || !sum_in_range(&self.total_fees, &fees) || !sum_in_range(&self.current_equity, &net) {
            return false;
        }
        let zero = Dec::zero();
        if zero.lt(&pnl) && !sum_in_range(&self.gross_profit, &pnl) {
            return false;
        }
        if pnl.lt(&zero) {
            let a = pnl.abs();
            if !sum_in_range(&self.gross_loss, &a) {
                return false;
            }
        }
        self.record_trade(pnl, fees);
        true
    }

    /// Set the equity from an external source (e.g. a balance snapshot),
    /// raising the peak when the new equity exceeds it.
    pub fn update_equity(&mut self, equity: Dec)
        requires
            old(self).wf(),
        ensures
            final(self).wf(),
            final(self).state() == (PnlState {
                current_equity: equity,
                peak_equity: if equity@ > old(self).state().peak_equity@ {
                    equity
                } else {
                    old(self).state().peak_equity
                },
                ..old(self).state()
            }),
    {
        self.current_equity = equity;
        if self.peak_equity.lt(&equity) {
            self.peak_equity = equity;
        }
    }

    /// Reset the daily PnL counter.
    pub fn reset_daily(&mut self)
        requires
            old(self).wf(),
        ensures
            final(self).wf(),
            final(self).state() == (PnlState { daily_pnl: zero_dec(), ..old(self).state() }),
    {
        self.daily_pnl = Dec::zero();
    }

    pub fn peak_equity(&self) -> (r: Dec)
        ensures
            r == self.state().peak_equity,
    {
        self.peak_equity
    }

    pub fn current_equity(&self) -> (r: Dec)
        ensures
            r == self.state().current_equity,
    {
        self.current_equity
    }

    pub fn daily_pnl(&self) -> (r: Dec)
        ensures
            r == self.state().daily_pnl,
    {
        self.daily_pnl
    }

    pub fn total_trades(&self) -> (r: u64)
        ensures
            r == self.state().total_trades,
    {
        self.total_trades
    }

    pub fn winning_trades(&self) -> (r: u64)
        ensures
            r == self.state().winning_trades,
    {
        self.winning_trades
    }

    pub fn total_pnl(&self) -> (r: Dec)
        ensures
            r == self.state().total_pnl,
    {
        self.total_pnl
    }

    pub fn gross_profit(&self) -> (r: Dec)
        ensures
            r == self.state().gross_profit,
    {
        self.gross_profit
    }

    pub fn gross_loss(&self) -> (r: Dec)
        ensures
            r == self.state().gross_loss,
    {
        self.gross_loss
    }

    pub fn total_fees(&self) -> (r: Dec)
        ensures
            r == self.state().total_fees,
    {
        self.total_fees
    }

    /// The drawdown from the peak as a fraction of the peak,
    /// `(peak - current) / peak`; zero when the peak is zero.
    pub fn drawdown_fraction(&self) -> (r: Dec)
        requires
            drawdown_ok(self.state()),
        ensures
            r == drawdown_of(self.state()),
    {
        if self.peak_equity.is_zero() {
            return Dec::zero();
        }
        let gap = self.peak_equity.minus(&self.current_equity);
        gap.divided_by(&self.peak_equity)
    }

    /// Gross profit over gross loss, or `None` when there is no loss.
    pub fn profit_ratio(&self) -> (r: Option<Dec>)
        requires
            profit_ratio_ok(self.state()),
        ensures
            r == profit_ratio_of(self.state()),
    {
        if self.gross_loss.is_zero() {
            return None;
        }
        Some(self.gross_profit.divided_by(&self.gross_loss))
    }
}

/// The drawdown from the peak as a fraction of the peak; zero when the peak
/// is zero.
pub open spec fn drawdown_of(s: PnlState) -> Dec {
    if s.peak_equity@ == 0 {
        zero_dec()
    } else {
        ddiv(dsub(s.peak_equity, s.current_equity), s.peak_equity)
    }
}

/// The drawdown's subtraction and division stay within the range of
/// decimals.
pub open spec fn drawdown_ok(s: PnlState) -> bool {
    s.peak_equity@ != 0 ==> sub_ok(s.peak_equity, s.current_equity) && div_ok(
        dsub(s.peak_equity, s.current_equity),
        s.peak_equity,
    )
}

/// Gross profit over gross loss; `None` when the gross loss is zero.
pub open spec fn profit_ratio_of(s: PnlState) -> Option<Dec> {
    if s.gross_loss@ == 0 {
        None
    } else {
        Some(ddiv(s.gross_profit, s.gross_loss))
    }
}

/// The profit ratio's division stays within the range of decimals.
pub open spec fn profit_ratio_ok(s: PnlState) -> bool {
    s.gross_loss@ != 0 ==> div_ok(s.gross_profit, s.gross_loss)
}

/// Recording any trade keeps the bookkeeping consistent: the peak equity
/// stays at or above the current equity, winning trades never outnumber
/// trades, and the trade count grows by one.
pub proof fn lemma_record_keeps_books(s: PnlState, pnl: Dec, fees: Dec)
    requires
        s.peak_equity@ >= s.current_equity@,
        s.winning_trades <= s.total_trades,
        s.total_trades < u64::MAX,
    ensures
        trade_recorded(s, pnl, fees).peak_equity@ >= trade_recorded(s, pnl, fees).current_equity@,
        trade_recorded(s, pnl, fees).winning_trades <= trade_recorded(s, pnl, fees).total_trades,
        trade_recorded(s, pnl, fees).total_trades == s.total_trades + 1,
        trade_recorded(s, pnl, fees).peak_equity@ >= s.peak_equity@,
{
}

} // verus!
