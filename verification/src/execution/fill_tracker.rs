//! Partial fills of one order: the filled quantity, the volume-weighted
//! average fill price and what remains.
use crate::decimal::{
    abs_int, dadd, ddiv, dmul, dsub, in_range, max_mantissa, max_units, pow10, zero_dec, Dec,
};
use vstd::prelude::*;

verus! {

/// Tracks partial fills for a single order.
#[derive(Debug, Clone, Copy)]
pub struct FillTracker {
    /// Target quantity of the order.
    target_quantity: Dec,
    /// Total filled quantity so far.
    filled_quantity: Dec,
    /// Running sum of price times quantity over the fills.
    cost_basis: Dec,
    /// Number of fills received.
    fill_count: u32,
}

/// The tracker's state as plain data.
pub struct FillState {
    pub target: Dec,
    pub filled: Dec,
    pub cost: Dec,
    pub count: u32,
}

/// The state after a fill of `quantity` at `price`.
pub open spec fn fill_recorded(s: FillState, quantity: Dec, price: Dec) -> FillState {
    FillState {
        target: s.target,
        filled: dadd(s.filled, quantity),
        cost: dadd(s.cost, dmul(quantity, price)),
        count: (s.count + 1) as u32,
    }
}

/// A fill can be recorded without overflow: the counter has room, the filled
/// quantity stays in range, and the cost basis stays in range whatever the
/// rounding of the product (which is within one of the exact product).
pub open spec fn fill_fits(s: FillState, quantity: Dec, price: Dec) -> bool {
    &&& s.count < u32::MAX
    &&& in_range(s.filled@ + quantity@)
    &&& abs_int(s.cost@) * pow10(28) + abs_int(quantity@ * price@) + pow10(28) * pow10(28)
        <= max_units() * pow10(28)
}

/// The average fill price: cost basis over filled quantity, zero before any
/// quantity is filled.
pub open spec fn average_price(s: FillState) -> Dec {
    if s.filled@ == 0 {
        zero_dec()
    } else {
        ddiv(s.cost, s.filled)
    }
}

/// What remains to be filled: target minus filled, or zero once the target
/// is reached.
pub open spec fn remaining(s: FillState) -> Dec {
    if dsub(s.target, s.filled)@ > 0 {
        dsub(s.target, s.filled)
    } else {
        zero_dec()
    }
}

impl FillTracker {
    pub closed spec fn state(&self) -> FillState {
        FillState {
            target: self.target_quantity,
            filled: self.filled_quantity,
            cost: self.cost_basis,
            count: self.fill_count,
        }
    }

    /// A tracker for an order of `target_quantity`, with nothing filled.
    pub fn new(target_quantity: Dec) -> (r: Self)
        ensures
            r.state() == (FillState {
                target: target_quantity,
                filled: zero_dec(),
                cost: zero_dec(),
                count: 0,
            }),
    {
        FillTracker {
            target_quantity,
            filled_quantity: Dec::zero(),
            cost_basis: Dec::zero(),
            fill_count: 0,
        }
    }

    /// Records a partial or complete fill.
    pub fn on_fill(&mut self, quantity: Dec, price: Dec)
        requires
            fill_fits(old(self).state(), quantity, price),
        ensures
            final(self).state() == fill_recorded(old(self).state(), quantity, price),
    {
        self.filled_quantity = self.filled_quantity.plus(&quantity);
        proof {
            crate::decimal::lemma_pow10_pos(28);
            let c = pow10(28) as int;
            assert(abs_int(quantity@ * price@) <= max_units() * c);
        }
        let value = quantity.times(&price);
        proof {
            let c = pow10(28) as int;
            lemma_sum_bound(self.cost_basis@, value@, abs_int(quantity@ * price@), c);
        }
        self.cost_basis = self.cost_basis.plus(&value);
        self.fill_count = self.fill_count + 1;
    }

    /// The volume-weighted average fill price; zero before any fill.
    pub fn avg_fill_price(&self) -> (r: Dec)
        requires
            self.state().filled@ != 0 ==> abs_int(self.state().cost@) < max_mantissa() * abs_int(
                self.state().filled@,
            ),
        ensures
            r == average_price(self.state()),
    {
        if self.filled_quantity.is_zero() {
            return Dec::zero();
        }
        self.cost_basis.divided_by(&self.filled_quantity)
    }

    /// The quantity still to be filled (never negative).
    pub fn remaining_quantity(&self) -> (r: Dec)
        requires
            in_range(self.state().target@ - self.state().filled@),
        ensures
            r == remaining(self.state()),
    {
        let diff = self.target_quantity.minus(&self.filled_quantity);
        let zero = Dec::zero();
        proof {
            crate::decimal::lemma_zero_dec_view();
        }
        zero.max_value(&diff)
    }

    /// Whether the filled quantity has reached the target.
    pub fn is_complete(&self) -> (r: bool)
        ensures
            r == (self.state().filled@ >= self.state().target@),
    {
        self.target_quantity.le(&self.filled_quantity)
    }

    /// The total filled quantity.
    pub fn filled_quantity(&self) -> (r: Dec)
        ensures
            r == self.state().filled,
    {
        self.filled_quantity
    }

    /// The number of fills received.
    pub fn fill_count(&self) -> (r: u32)
        ensures
            r == self.state().count,
    {
        self.fill_count
    }
}

proof fn lemma_sum_bound(cost: int, value: int, exact: int, c: int)
    requires
        c > 0,
        abs_int(value) * c <= exact + c * c,
        abs_int(cost) * c + exact + c * c <= max_units() * c,
    ensures
        in_range(cost + value),
{
    assert((abs_int(cost) + abs_int(value)) * c <= max_units() * c) by (nonlinear_arith)
        requires
            abs_int(value) * c <= exact + c * c,
            abs_int(cost) * c + exact + c * c <= max_units() * c,
    ;
    assert(abs_int(cost) + abs_int(value) <= max_units()) by (nonlinear_arith)
        requires
            (abs_int(cost) + abs_int(value)) * c <= max_units() * c,
            c > 0,
    ;
}

/// The remaining quantity is never negative, and it is zero once the
/// order is complete.
pub proof fn lemma_remaining_never_negative(s: FillState)
    ensures
        remaining(s)@ >= 0,
        dsub(s.target, s.filled)@ == s.target@ - s.filled@ && s.filled@ >= s.target@ ==> remaining(
            s,
        )@ == 0,
{
    crate::decimal::lemma_zero_dec_view();
}

} // verus!
