//! Wall-clock timestamps and a monotonic clock.
use chrono::{DateTime, Utc};
use std::time::{Duration, Instant};
use vstd::prelude::*;

verus! {

#[verifier::external_type_specification]
#[verifier::external_body]
pub struct ExInstant(Instant);

/// `Duration::as_nanos`: the length of a duration in nanoseconds. Nothing is
/// stated of it, since the duration is opaque here.
#[verifier::external_body]
pub(crate) fn duration_nanos(d: &Duration) -> u128 {
    d.as_nanos()
}

/// Whether chrono represents the UNIX time `ms` (milliseconds) as a date:
/// its dates run from the first day of year -262143 to the last day of year
/// 262142 (`MIN_YEAR` and `MAX_YEAR` of chrono's `NaiveDate`), that is from
/// -8334601228800000 ms to the last millisecond of that day.
pub open spec fn chrono_millis_in_range(ms: int) -> bool {
    -8334601228800000 <= ms <= 8210266876799999
}

/// The text chrono gives for the UTC date of the UNIX time `ms`
/// (milliseconds) with the pattern `%Y-%m-%d %H:%M:%S%.3f UTC`.
pub uninterp spec fn chrono_utc_text(ms: int) -> Seq<char>;

/// The decimal digits of a natural number.
pub open spec fn decimal_digits(n: nat) -> Seq<char>
    decreases n,
{
    if n < 10 {
        seq![digit_char(n)]
    } else {
        decimal_digits(n / 10).push(digit_char(n % 10))
    }
}

/// A number's decimal text has one character below ten and at least two
/// from ten on.
pub proof fn lemma_decimal_digits_len(n: nat)
    ensures
        decimal_digits(n).len() >= 1,
        n >= 10 ==> decimal_digits(n).len() >= 2,
    decreases n,
{
    if n >= 10 {
        lemma_decimal_digits_len(n / 10);
    }
}

/// Different numbers have different decimal texts.
pub proof fn lemma_decimal_digits_injective(n: nat, m: nat)
    requires
        decimal_digits(n) == decimal_digits(m),
    ensures
        n == m,
    decreases n + m,
{
    lemma_decimal_digits_len(n);
    lemma_decimal_digits_len(m);
    if n < 10 && m < 10 {
        assert(decimal_digits(n)[0] == digit_char(n));
        assert(decimal_digits(m)[0] == digit_char(m));
    } else if n >= 10 && m >= 10 {
        let dn = decimal_digits(n);
        let dm = decimal_digits(m);
        assert(dn.last() == digit_char(n % 10));
        assert(dm.last() == digit_char(m % 10));
        assert(dn.drop_last() =~= decimal_digits(n / 10));
        assert(dm.drop_last() =~= decimal_digits(m / 10));
        lemma_decimal_digits_injective(n / 10, m / 10);
    } else {
        assert(decimal_digits(n).len() != decimal_digits(m).len());
    }
}

/// The character of a digit 0-9.
pub open spec fn digit_char(d: nat) -> char {
    if d == 0 {
        '0'
    } else if d == 1 {
        '1'
    } else if d == 2 {
        '2'
    } else if d == 3 {
        '3'
    } else if d == 4 {
        '4'
    } else if d == 5 {
        '5'
    } else if d == 6 {
        '6'
    } else if d == 7 {
        '7'
    } else if d == 8 {
        '8'
    } else {
        '9'
    }
}

/// `Utc::now().timestamp_millis()`: the current UNIX time in milliseconds.
/// Nothing is stated of it.
#[verifier::external_body]
pub(crate) fn utc_now_millis() -> i64 {
    Utc::now().timestamp_millis()
}

/// `Utc::now()` split into `timestamp()` and `timestamp_subsec_nanos()`:
/// seconds since the UNIX epoch and nanoseconds past the second, which chrono
/// documents to exceed 999,999,999 only within a leap second.
#[verifier::external_body]
fn utc_now_secs_nanos() -> (r: (i64, u32))
    ensures
        r.1 < 2_000_000_000,
{
    let now = Utc::now();
    (now.timestamp(), now.timestamp_subsec_nanos())
}

/// `DateTime::from_timestamp_millis` followed by
/// `format("%Y-%m-%d %H:%M:%S%.3f UTC").to_string()`: `None` when the time is
/// out of chrono's range.
#[verifier::external_body]
fn utc_text_of_millis(ms: i64) -> (r: Option<String>)
    ensures
        r is Some <==> chrono_millis_in_range(ms as int),
        r matches Some(t) ==> t@ == chrono_utc_text(ms as int),
{
    match DateTime::from_timestamp_millis(ms) {
        Some(dt) => Some(dt.format("%Y-%m-%d %H:%M:%S%.3f UTC").to_string()),
        None => None,
    }
}

/// The one-character text of a decimal digit.
fn digit_text(d: u64) -> (r: &'static str)
    requires
        d < 10,
    ensures
        r@ == seq![digit_char(d as nat)],
{
    proof {
        reveal_strlit("0");
        reveal_strlit("1");
        reveal_strlit("2");
        reveal_strlit("3");
        reveal_strlit("4");
        reveal_strlit("5");
        reveal_strlit("6");
        reveal_strlit("7");
        reveal_strlit("8");
        reveal_strlit("9");
    }
    if d == 0 {
        "0"
    } else if d == 1 {
        "1"
    } else if d == 2 {
        "2"
    } else if d == 3 {
        "3"
    } else if d == 4 {
        "4"
    } else if d == 5 {
        "5"
    } else if d == 6 {
        "6"
    } else if d == 7 {
        "7"
    } else if d == 8 {
        "8"
    } else {
        "9"
    }
}

/// The decimal digits of the number, most significant first (as
/// `u64::to_string` writes them).
pub(crate) fn u64_text(x: u64) -> (r: String)
    ensures
        r@ == decimal_digits(x as nat),
    decreases x,
{
    if x < 10 {
        String::from_str(digit_text(x))
    } else {
        let mut s = u64_text(x / 10);
        s.append(digit_text(x % 10));
        s
    }
}

/// The decimal text of a signed number: a minus sign before the digits of
/// its magnitude when it is negative.
pub open spec fn signed_decimal_digits(x: int) -> Seq<char> {
    if x < 0 {
        seq!['-'] + decimal_digits((-x) as nat)
    } else {
        decimal_digits(x as nat)
    }
}

/// The decimal text of the number, with a minus sign when it is negative
/// (as `i64::to_string` writes it).
pub(crate) fn i64_text(x: i64) -> (r: String)
    ensures
        r@ == signed_decimal_digits(x as int),
{
    if x < 0 {
        let magnitude: u64 = (-(x as i128)) as u64;
        let digits = u64_text(magnitude);
        let mut s = String::from_str("-");
        s.append(digits.as_str());
        proof {
            reveal_strlit("-");
        }
        s
    } else {
        u64_text(x as u64)
    }
}

/// `Instant::now()`.
#[verifier::external_body]
pub(crate) fn instant_now() -> Instant {
    Instant::now()
}

/// `Instant::elapsed().as_nanos()`: nanoseconds since the instant.
#[verifier::external_body]
pub(crate) fn instant_elapsed_nanos(start: &Instant) -> u128 {
    start.elapsed().as_nanos()
}

/// Returns the current UTC timestamp in milliseconds.
pub fn now_ms() -> u64 {
    utc_now_millis() as u64
}

/// Returns the current UTC timestamp in nanoseconds.
pub fn now_ns() -> u64 {
    let (secs, nanos) = utc_now_secs_nanos();
    (secs as u64).wrapping_mul(1_000_000_000).wrapping_add(nanos as u64)
}

/// Formats a millisecond timestamp as a UTC date, or as the number followed
/// by "ms" when it is out of range for a date.
pub fn format_ms(ms: u64) -> (r: String)
    ensures
        chrono_millis_in_range(ms as i64 as int) ==> r@ == chrono_utc_text(ms as i64 as int),
        !chrono_millis_in_range(ms as i64 as int) ==> r@ == decimal_digits(ms as nat) + seq![
            'm',
            's',
        ],
{
    match utc_text_of_millis(ms as i64) {
        Some(t) => t,
        None => {
            let digits = u64_text(ms);
            proof {
                reveal_strlit("ms");
            }
            digits.concat("ms")
        },
    }
}

/// A monotonic clock for measuring elapsed time with nanosecond precision.
#[derive(Debug)]
pub struct MonoClock {
    start: Instant,
}

impl MonoClock {
    pub fn new() -> Self {
        MonoClock { start: instant_now() }
    }

    /// Elapsed nanoseconds since this clock was created (or last reset),
    /// truncated to 64 bits.
    pub fn elapsed_ns(&self) -> u64 {
        instant_elapsed_nanos(&self.start) as u64
    }

    /// Elapsed microseconds since this clock was created (or last reset),
    /// truncated to 64 bits.
    pub fn elapsed_us(&self) -> u64 {
        (instant_elapsed_nanos(&self.start) / 1000) as u64
    }

    /// Resets the clock and returns the nanoseconds elapsed before the reset.
    pub fn lap_ns(&mut self) -> u64 {
        let elapsed = self.elapsed_ns();
        self.start = instant_now();
        elapsed
    }
}

impl Clone for MonoClock {
    /// A clock with the same start (an `Instant` is copied).
    fn clone(&self) -> Self {
        MonoClock { start: self.start }
    }
}

impl Default for MonoClock {
    fn default() -> Self {
        Self::new()
    }
}

} // verus!
