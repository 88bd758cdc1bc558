//! Rows of the trade journal, and the start of the trading day that daily
//! figures count from.
use vstd::prelude::*;

verus! {

/// One recorded trade, as stored in the journal. Prices, quantities and
/// money are decimal text.
#[derive(Debug, Clone)]
pub struct TradeRow {
    pub id: i64,
    pub timestamp_ms: u64,
    pub exchange: String,
    pub symbol: String,
    pub side: String,
    pub entry_price: String,
    pub exit_price: Option<String>,
    pub quantity: String,
    pub leverage: u32,
    pub pnl: Option<String>,
    pub fees: Option<String>,
    pub strategy: String,
    pub hold_time_ms: Option<u64>,
    pub status: String,
}

/// The length of a day in milliseconds.
pub const DAY_MS: u64 = 86_400_000;

/// The start (ms, UTC) of the day that contains `now_ms`.
pub fn day_start_ms(now_ms: u64) -> (r: u64)
    ensures
        r == now_ms - now_ms % DAY_MS,
        r <= now_ms,
        r % DAY_MS == 0,
        now_ms - r < DAY_MS,
{
    let r = now_ms - now_ms % DAY_MS;
    assert(r % DAY_MS == 0) by {
        vstd::arithmetic::div_mod::lemma_fundamental_div_mod(now_ms as int, DAY_MS as int);
        vstd::arithmetic::div_mod::lemma_mod_multiples_basic((now_ms / DAY_MS) as int, DAY_MS as int);
    }
    r
}

} // verus!
