//! Position sizing: how much to trade given equity, the fraction of equity
//! put at risk, and the stop distance or volatility.
use crate::decimal::{abs_int, ddiv, dmul, max_mantissa, max_units, pow10, zero_dec, Dec};
use vstd::prelude::*;

verus! {

/// Position sizing rules.
#[derive(Debug, Clone, Copy)]
pub struct PositionSizer;

/// `equity * risk_pct / divisor` stays within the range of decimals: the
/// product does not overflow, and the quotient is below the largest
/// mantissa even with the product's rounding.
pub open spec fn sizing_fits(equity: Dec, risk_pct: Dec, divisor: Dec) -> bool {
    &&& abs_int(equity@ * risk_pct@) <= max_units() * pow10(28)
    &&& abs_int(equity@ * risk_pct@) + pow10(28) * pow10(28) < max_mantissa() * abs_int(divisor@)
        * pow10(28)
}

/// Fixed-fractional size: the amount at risk (`equity * risk_pct`) divided
/// by the stop distance; zero when either fraction is not positive.
pub open spec fn fixed_fractional_size(equity: Dec, risk_pct: Dec, stop_distance_pct: Dec) -> Dec {
    if stop_distance_pct@ <= 0 || risk_pct@ <= 0 {
        zero_dec()
    } else {
        ddiv(dmul(equity, risk_pct), stop_distance_pct)
    }
}

/// Volatility-adjusted size: the amount at risk divided by the ATR; zero
/// when the ATR is zero or the risk fraction is not positive.
pub open spec fn volatility_adjusted_size(equity: Dec, atr: Dec, risk_pct: Dec) -> Dec {
    if atr@ == 0 || risk_pct@ <= 0 {
        zero_dec()
    } else {
        ddiv(dmul(equity, risk_pct), atr)
    }
}

proof fn lemma_quotient_fits(p: int, e: int, s: int)
    requires
        abs_int(p) * pow10(28) <= e + pow10(28) * pow10(28),
        e + pow10(28) * pow10(28) < max_mantissa() * abs_int(s) * pow10(28),
    ensures
        abs_int(p) < max_mantissa() * abs_int(s),
{
    let c = pow10(28) as int;
    assert(c > 0) by {
        crate::decimal::lemma_pow10_pos(28);
    }
    let a = abs_int(p);
    let b = max_mantissa() * abs_int(s);
    assert(a * c < b * c);
    assert(a < b) by (nonlinear_arith)
        requires
            a * c < b * c,
            c > 0,
    ;
}

impl PositionSizer {
    /// Fixed-fractional sizing: risks `risk_pct` of equity, dividing by the
    /// stop distance (both fractions, e.g. 0.005 for 0.5 %).
    pub fn fixed_fractional(equity: Dec, risk_pct: Dec, stop_distance_pct: Dec) -> (r: Dec)
        requires
            stop_distance_pct@ > 0 && risk_pct@ > 0 ==> sizing_fits(
                equity,
                risk_pct,
                stop_distance_pct,
            ),
        ensures
            r == fixed_fractional_size(equity, risk_pct, stop_distance_pct),
    {
        let zero = Dec::zero();
        if stop_distance_pct.le(&zero) || risk_pct.le(&zero) {
            return zero;
        }
        let risk_amount = equity.times(&risk_pct);
        proof {
            lemma_quotient_fits(risk_amount@, abs_int(equity@ * risk_pct@), stop_distance_pct@);
        }
        risk_amount.divided_by(&stop_distance_pct)
    }

    /// Volatility-adjusted sizing: the amount at risk divided by the ATR, so
    /// that more volatile instruments get smaller positions.
    pub fn volatility_adjusted(equity: Dec, atr: Dec, risk_pct: Dec) -> (r: Dec)
        requires
            atr@ != 0 && risk_pct@ > 0 ==> sizing_fits(equity, risk_pct, atr),
        ensures
            r == volatility_adjusted_size(equity, atr, risk_pct),
    {
        let zero = Dec::zero();
        if atr.is_zero() || risk_pct.le(&zero) {
            return zero;
        }
        let risk_amount = equity.times(&risk_pct);
        proof {
            lemma_quotient_fits(risk_amount@, abs_int(equity@ * risk_pct@), atr@);
        }
        risk_amount.divided_by(&atr)
    }
}

} // verus!
