//! Rate limiting for the Bybit V5 order endpoints: 120 requests per five
//! seconds by default.
use crate::common::time::duration_nanos;
use crate::exchange::window_limiter::{spend, WindowBudget};
use std::time::Duration;
use vstd::prelude::*;

verus! {

/// Request budget for the Bybit V5 order endpoints.
#[derive(Debug)]
pub struct BybitRateLimiter {
    budget: WindowBudget,
}

impl BybitRateLimiter {
    /// Requests made in the current window.
    pub closed spec fn spent(&self) -> u32 {
        self.budget.spent()
    }

    /// Requests allowed per window.
    pub closed spec fn limit(&self) -> u32 {
        self.budget.limit()
    }

    /// The window length in nanoseconds.
    pub closed spec fn window(&self) -> u128 {
        self.budget.window()
    }

    /// The standard Bybit budget: 120 requests per 5 seconds.
    pub fn new() -> (r: Self)
        ensures
            r.spent() == 0,
            r.limit() == 120,
            r.window() == 5_000_000_000,
    {
        BybitRateLimiter { budget: WindowBudget::new(120, 5_000_000_000) }
    }

    /// A budget of `max_requests` per `window`.
    pub fn with_limit(max_requests: u32, window: Duration) -> (r: Self)
        ensures
            r.spent() == 0,
            r.limit() == max_requests,
    {
        BybitRateLimiter { budget: WindowBudget::new(max_requests, duration_nanos(&window)) }
    }

    /// Spends `count` requests if they fit in the current window, restarting the
    /// window first when it has elapsed; `true` when the request may proceed.
    pub fn check_and_consume(&mut self, count: u32) -> (r: bool)
        ensures
            final(self).limit() == old(self).limit(),
            final(self).window() == old(self).window(),
            exists|base: u32|
                (base == old(self).spent() || base == 0) && match #[trigger] spend(
                    base,
                    old(self).limit(),
                    count,
                ) {
                    Some(n) => r && final(self).spent() == n,
                    None => !r && final(self).spent() == base,
                },
    {
        let ghost before = self.budget;
        let r = self.budget.check_and_consume(count);
        proof {
            let base = choose|base: u32|
                (base == before.spent() || base == 0) && match #[trigger] spend(
                    base,
                    before.limit(),
                    count,
                ) {
                    Some(n) => r && self.budget.spent() == n,
                    None => !r && self.budget.spent() == base,
                };
            assert(old(self).spent() == before.spent());
            assert(old(self).limit() == before.limit());
            assert(self.spent() == self.budget.spent());
            assert((base == old(self).spent() || base == 0) && match spend(
                base,
                old(self).limit(),
                count,
            ) {
                Some(n) => r && self.spent() == n,
                None => !r && self.spent() == base,
            });
        }
        r
    }

    /// Requests made in the current window.
    pub fn used(&self) -> (r: u32)
        ensures
            r == self.spent(),
    {
        self.budget.used()
    }

    /// Nanoseconds until the current window ends.
    pub fn time_until_reset_nanos(&self) -> (r: u128)
        ensures
            r <= self.window(),
    {
        self.budget.time_until_reset_nanos()
    }
}

impl Default for BybitRateLimiter {
    fn default() -> (r: Self)
        ensures
            r.spent() == 0,
            r.limit() == 120,
    {
        Self::new()
    }
}

} // verus!
