//! Reading the decimal text and price levels that exchanges send.
use crate::data::orderbook::Level;
use crate::decimal::{dec_of, decimal_parse, lemma_dec_of, parse_decimal, parts, zero_dec, Dec};
use vstd::prelude::*;

verus! {

/// The decimal that a text reads as, if it reads as one.
pub open spec fn parsed_dec(s: Seq<char>) -> Option<Dec> {
    match decimal_parse(s) {
        Some(p) => Some(dec_of(p)),
        None => None,
    }
}

/// The decimal that a text reads as, or zero when it does not read as one.
pub open spec fn parsed_or_zero(s: Seq<char>) -> Dec {
    match parsed_dec(s) {
        Some(d) => d,
        None => zero_dec(),
    }
}

/// Reads a decimal from text.
pub fn parse_dec(s: &str) -> (r: Option<Dec>)
    ensures
        r == parsed_dec(s@),
{
    match parse_decimal(s) {
        Ok(d) => {
            proof {
                lemma_dec_of(d);
            }
            Some(d)
        },
        Err(_) => None,
    }
}

/// Reads a decimal from text, zero when the text is not a decimal.
pub fn parse_or_zero(s: &str) -> (r: Dec)
    ensures
        r == parsed_or_zero(s@),
{
    match parse_dec(s) {
        Some(d) => d,
        None => Dec::zero(),
    }
}

/// The price levels `[price, quantity]` whose two texts both read as
/// decimals, in order; the others are dropped.
pub open spec fn parsed_levels(ls: Seq<[String; 2]>) -> Seq<Level>
    decreases ls.len(),
{
    if ls.len() == 0 {
        Seq::empty()
    } else {
        let rest = parsed_levels(ls.drop_last());
        let l = ls.last();
        match (parsed_dec(l@[0]@), parsed_dec(l@[1]@)) {
            (Some(p), Some(q)) => rest.push((p, q)),
            _ => rest,
        }
    }
}

/// Reads price levels, dropping those that do not read as decimals.
pub fn parse_levels(ls: &Vec<[String; 2]>) -> (r: Vec<Level>)
    ensures
        r@ == parsed_levels(ls@),
{
    let mut out: Vec<Level> = Vec::new();
    let mut i: usize = 0;
    assert(ls@.take(0) =~= Seq::<[String; 2]>::empty());
    while i < ls.len()
        invariant
            i <= ls@.len(),
            out@ == parsed_levels(ls@.take(i as int)),
        decreases ls@.len() - i,
    {
        proof {
            assert(ls@.take(i + 1).drop_last() =~= ls@.take(i as int));
            assert(ls@.take(i + 1).last() == ls@[i as int]);
        }
        let price = parse_dec(ls[i][0].as_str());
        let qty = parse_dec(ls[i][1].as_str());
        match (price, qty) {
            (Some(p), Some(q)) => {
                out.push((p, q));
            },
            _ => {},
        }
        i = i + 1;
    }
    assert(ls@.take(ls@.len() as int) =~= ls@);
    out
}

/// Every character is an ASCII digit.
pub open spec fn all_digits(s: Seq<char>) -> bool {
    forall|i: int| 0 <= i < s.len() ==> '0' <= #[trigger] s[i] <= '9'
}

/// The number written by a string of ASCII digits, most significant first.
pub open spec fn digits_value(s: Seq<char>) -> nat
    decreases s.len(),
{
    if s.len() == 0 {
        0
    } else {
        digits_value(s.drop_last()) * 10 + (s.last() as int - '0' as int) as nat
    }
}

/// The number an unsigned integer type's `from_str` reads from a text: an
/// optional `+` followed by at least one ASCII digit and nothing else, with
/// a value of at most `max`; `None` otherwise.
pub open spec fn unsigned_parse(s: Seq<char>, max: nat) -> Option<nat> {
    let d = if s.len() > 0 && s[0] == '+' {
        s.drop_first()
    } else {
        s
    };
    if d.len() > 0 && all_digits(d) && digits_value(d) <= max {
        Some(digits_value(d))
    } else {
        None
    }
}

/// The number that `u32::from_str` reads from a text, if it reads one.
pub open spec fn u32_parse(s: Seq<char>) -> Option<u32> {
    match unsigned_parse(s, u32::MAX as nat) {
        Some(v) => Some(v as u32),
        None => None,
    }
}

/// `str::parse::<u32>`: its documentation accepts an optional `+` followed
/// by decimal digits only, and refuses empty text, other characters and
/// values that do not fit.
#[verifier::external_body]
pub(crate) fn parse_u32(s: &str) -> (r: Option<u32>)
    ensures
        r == u32_parse(s@),
{
    s.parse::<u32>().ok()
}

/// A leverage read from text, 1 when it does not read.
pub open spec fn leverage_or_one(s: Seq<char>) -> u32 {
    match u32_parse(s) {
        Some(n) => n,
        None => 1,
    }
}

} // verus!
