//! Rate limiting for the Binance Futures API: 2400 request weight per
//! minute by default.
use crate::common::time::duration_nanos;
use crate::exchange::window_limiter::{spend, WindowBudget};
use std::time::Duration;
use vstd::prelude::*;

verus! {

/// Request-weight budget for the Binance Futures API.
#[derive(Debug)]
pub struct BinanceRateLimiter {
    budget: WindowBudget,
}

impl BinanceRateLimiter {
    /// Weight spent in the current window.
    pub closed spec fn spent(&self) -> u32 {
        self.budget.spent()
    }

    /// Weight allowed per window.
    pub closed spec fn limit(&self) -> u32 {
        self.budget.limit()
    }

    /// The window length in nanoseconds.
    pub closed spec fn window(&self) -> u128 {
        self.budget.window()
    }

    /// The standard Binance budget: 2400 weight per 60 seconds.
    pub fn new() -> (r: Self)
        ensures
            r.spent() == 0,
            r.limit() == 2400,
            r.window() == 60_000_000_000,
    {
        BinanceRateLimiter { budget: WindowBudget::new(2400, 60_000_000_000) }
    }

    /// A budget of `max_weight` per `window`.
    pub fn with_limit(max_weight: u32, window: Duration) -> (r: Self)
        ensures
            r.spent() == 0,
            r.limit() == max_weight,
    {
        BinanceRateLimiter { budget: WindowBudget::new(max_weight, duration_nanos(&window)) }
    }

    /// Spends `weight` if it fits in the current window, restarting the
    /// window first when it has elapsed; `true` when the request may proceed.
    pub fn check_and_consume(&mut self, weight: u32) -> (r: bool)
        ensures
            final(self).limit() == old(self).limit(),
            final(self).window() == old(self).window(),
            exists|base: u32|
                (base == old(self).spent() || base == 0) && match #[trigger] spend(
                    base,
                    old(self).limit(),
                    weight,
                ) {
                    Some(n) => r && final(self).spent() == n,
                    None => !r && final(self).spent() == base,
                },
    {
        let ghost before = self.budget;
        let r = self.budget.check_and_consume(weight);
        proof {
            let base = choose|base: u32|
                (base == before.spent() || base == 0) && match #[trigger] spend(
                    base,
                    before.limit(),
                    weight,
                ) {
                    Some(n) => r && self.budget.spent() == n,
                    None => !r && self.budget.spent() == base,
                };
            assert(old(self).spent() == before.spent());
            assert(old(self).limit() == before.limit());
            assert(self.spent() == self.budget.spent());
            assert((base == old(self).spent() || base == 0) && match spend(
                base,
                old(self).limit(),
                weight,
            ) {
                Some(n) => r && self.spent() == n,
                None => !r && self.spent() == base,
            });
        }
        r
    }

    /// Weight spent in the current window.
    pub fn used_weight(&self) -> (r: u32)
        ensures
            r == self.spent(),
    {
        self.budget.used()
    }

    /// Nanoseconds until the current window ends.
    pub fn time_until_reset_nanos(&self) -> (r: u128)
        ensures
            r <= self.window(),
    {
        self.budget.time_until_reset_nanos()
    }
}

impl Default for BinanceRateLimiter {
    fn default() -> (r: Self)
        ensures
            r.spent() == 0,
            r.limit() == 2400,
    {
        Self::new()
    }
}

} // verus!
