//! A fixed-window request budget, shared by the exchange rate limiters: up
//! to `max` units may be spent per window; the count restarts when a window
//! has elapsed.
use crate::common::time::{instant_elapsed_nanos, instant_now};
use std::time::Instant;
use vstd::prelude::*;

verus! {

/// The count after trying to spend `cost` units with `used` already spent:
/// `Some` of the new count when it stays within `max`, `None` when the
/// request must wait (the count is then unchanged).
pub open spec fn spend(used: u32, max: u32, cost: u32) -> Option<u32> {
    if used + cost <= max {
        Some((used + cost) as u32)
    } else {
        None
    }
}

/// The count a request is checked against, `elapsed` after the window
/// started: zero once a full window has passed, else what was spent.
pub open spec fn window_base(spent: u32, window: u128, elapsed: u128) -> u32 {
    if elapsed >= window {
        0
    } else {
        spent
    }
}

/// The budget of one window.
#[derive(Debug)]
pub struct WindowBudget {
    used: u32,
    max: u32,
    window_start: Instant,
    window_nanos: u128,
}

impl WindowBudget {
    /// Units spent in the current window.
    pub closed spec fn spent(&self) -> u32 {
        self.used
    }

    /// Units allowed per window.
    pub closed spec fn limit(&self) -> u32 {
        self.max
    }

    /// The window length in nanoseconds.
    pub closed spec fn window(&self) -> u128 {
        self.window_nanos
    }

    /// A budget of `max` units per window of `window_nanos`, starting now.
    pub fn new(max: u32, window_nanos: u128) -> (r: Self)
        ensures
            r.spent() == 0,
            r.limit() == max,
            r.window() == window_nanos,
    {
        WindowBudget { used: 0, max, window_start: instant_now(), window_nanos }
    }

    /// Restarts the window when it has elapsed, and returns the time read
    /// since the window started: a reading of a full window or more restarts
    /// the count at zero; a shorter one leaves the budget as it was.
    fn maybe_reset_window(&mut self) -> (elapsed: u128)
        ensures
            final(self).limit() == old(self).limit(),
            final(self).window() == old(self).window(),
            elapsed >= old(self).window() ==> final(self).spent() == 0,
            elapsed < old(self).window() ==> final(self).spent() == old(self).spent(),
    {
        let elapsed = instant_elapsed_nanos(&self.window_start);
        if elapsed >= self.window_nanos {
            self.window_start = instant_now();
            self.used = 0;
        }
        elapsed
    }

    /// Spends `cost` units if they fit in the current window (after
    /// restarting it if it has elapsed); `false` leaves the count as it was.
    pub fn check_and_consume(&mut self, cost: u32) -> (r: bool)
        ensures
            final(self).limit() == old(self).limit(),
            final(self).window() == old(self).window(),
            exists|base: u32|
                (base == old(self).spent() || base == 0) && match #[trigger] spend(
                    base,
                    old(self).limit(),
                    cost,
                ) {
                    Some(n) => r && final(self).spent() == n,
                    None => !r && final(self).spent() == base,
                },
            exists|elapsed: u128|
                #![trigger window_base(old(self).spent(), old(self).window(), elapsed)]
                match spend(window_base(old(self).spent(), old(self).window(), elapsed), old(self).limit(), cost) {
                    Some(n) => r && final(self).spent() == n,
                    None => !r && final(self).spent() == window_base(old(self).spent(), old(self).window(), elapsed),
                },
    {
        let elapsed = self.maybe_reset_window();
        let base = self.used;
        assert(base == window_base(old(self).spent(), old(self).window(), elapsed));
        if (base as u64) + (cost as u64) <= self.max as u64 {
            self.used = base + cost;
            assert(spend(base, self.max, cost) == Some(self.used));
            true
        } else {
            assert(spend(base, self.max, cost) is None);
            false
        }
    }

    /// Units spent in the current window.
    pub fn used(&self) -> (r: u32)
        ensures
            r == self.spent(),
    {
        self.used
    }

    /// Nanoseconds until the current window ends (zero once it has ended).
    pub fn time_until_reset_nanos(&self) -> (r: u128)
        ensures
            r <= self.window(),
    {
        let elapsed = instant_elapsed_nanos(&self.window_start);
        if elapsed >= self.window_nanos {
            0
        } else {
            self.window_nanos - elapsed
        }
    }
}

/// The spent count never exceeds the limit once it starts within it: a
/// spend that succeeds ends within the limit, and one that fails leaves the
/// count unchanged.
pub proof fn lemma_spend_within_limit(used: u32, max: u32, cost: u32)
    requires
        used <= max,
    ensures
        match spend(used, max, cost) {
            Some(n) => n <= max && n == used + cost,
            None => used + cost > max,
        },
{
}

/// Within one window the count only grows by what is spent and never
/// passes the limit: a check made less than a full window after the window
/// started is against everything spent so far, so a request that would take
/// the window past the limit is refused; only a reading of a full window or
/// more starts again from zero.
pub proof fn lemma_window_budget(spent: u32, max: u32, window: u128, elapsed: u128, cost: u32)
    requires
        spent <= max,
    ensures
        elapsed < window ==> window_base(spent, window, elapsed) == spent,
        elapsed < window && spent + cost > max ==> spend(window_base(spent, window, elapsed), max, cost) is None,
        elapsed >= window ==> window_base(spent, window, elapsed) == 0,
        spend(window_base(spent, window, elapsed), max, cost) matches Some(n) ==> n <= max,
{
}

} // verus!
