//! Historical candle sources: the exchange to fetch from, candle
//! resolutions, and where fetched candles are cached.
use crate::common::text::{ascii_lower, eq_ignore_ascii_case, str_eq};
use vstd::prelude::*;

verus! {

/// Which exchange historical candles come from.
#[derive(Debug, Clone, Copy, PartialEq, Eq, Structural)]
pub enum Venue {
    Kraken,
    Binance,
}

/// Why a historical-data request was refused.
#[derive(Debug, Clone)]
pub enum HistoryError {
    /// The venue name is neither kraken nor binance.
    UnknownVenue(String),
    /// The resolution is not one of 1m, 5m, 15m, 30m, 1h, 4h, 1d.
    UnsupportedResolution(String),
}

impl HistoryError {
    /// The message of the error, as it is displayed.
    pub fn message(&self) -> (r: String)
        ensures
            r@ == match *self {
                HistoryError::UnknownVenue(s) => "unknown venue: "@ + s@
                    + " (expected kraken or binance)"@,
                HistoryError::UnsupportedResolution(s) => "unsupported resolution: "@ + s@,
            },
    {
        match self {
            HistoryError::UnknownVenue(s) => {
                let mut m = String::from_str("unknown venue: ");
                m.append(s.as_str());
                m.append(" (expected kraken or binance)");
                m
            },
            HistoryError::UnsupportedResolution(s) => {
                let mut m = String::from_str("unsupported resolution: ");
                m.append(s.as_str());
                m
            },
        }
    }
}

/// The name of a venue, in lower case.
pub open spec fn venue_name(v: Venue) -> Seq<char> {
    match v {
        Venue::Kraken => "kraken"@,
        Venue::Binance => "binance"@,
    }
}

impl Venue {
    /// Reads a venue name, ignoring the case of ASCII letters.
    pub fn parse(s: &str) -> (r: Result<Venue, HistoryError>)
        ensures
            match r {
                Ok(v) => ascii_lower(s@) == venue_name(v),
                Err(e) => ascii_lower(s@) != "kraken"@ && ascii_lower(s@) != "binance"@ && (e matches HistoryError::UnknownVenue(t) && t@ == s@),
            },
    {
        if eq_ignore_ascii_case(s, "kraken") {
            Ok(Venue::Kraken)
        } else if eq_ignore_ascii_case(s, "binance") {
            Ok(Venue::Binance)
        } else {
            Err(HistoryError::UnknownVenue(String::from_str(s)))
        }
    }

    /// The name of the venue, in lower case.
    pub fn as_str(&self) -> (r: &'static str)
        ensures
            r@ == venue_name(*self),
    {
        match self {
            Venue::Kraken => "kraken",
            Venue::Binance => "binance",
        }
    }
}

/// Reading a venue's own name gives the venue back: the names are in lower
/// case and differ from each other.
pub proof fn lemma_venue_round_trip(v: Venue, w: Venue)
    ensures
        ascii_lower(venue_name(v)) == venue_name(v),
        venue_name(v) == venue_name(w) ==> v == w,
{
    reveal_strlit("kraken");
    reveal_strlit("binance");
    assert(ascii_lower(venue_name(v)) =~= venue_name(v));
    assert("kraken"@.len() != "binance"@.len());
}

/// The candle resolutions that are supported, with their length in
/// seconds.
pub open spec fn resolution_secs(res: Seq<char>) -> Option<i64> {
    if res == "1m"@ {
        Some(60)
    } else if res == "5m"@ {
        Some(300)
    } else if res == "15m"@ {
        Some(900)
    } else if res == "30m"@ {
        Some(1800)
    } else if res == "1h"@ {
        Some(3600)
    } else if res == "4h"@ {
        Some(14_400)
    } else if res == "1d"@ {
        Some(86_400)
    } else {
        None
    }
}

/// The length in seconds of one candle of a resolution.
pub fn resolution_seconds(resolution: &str) -> (r: Result<i64, HistoryError>)
    ensures
        match r {
            Ok(secs) => resolution_secs(resolution@) == Some(secs),
            Err(e) => resolution_secs(resolution@) is None && (e matches HistoryError::UnsupportedResolution(t) && t@ == resolution@),
        },
{
    if str_eq(resolution, "1m") {
        Ok(60)
    } else if str_eq(resolution, "5m") {
        Ok(300)
    } else if str_eq(resolution, "15m") {
        Ok(900)
    } else if str_eq(resolution, "30m") {
        Ok(1800)
    } else if str_eq(resolution, "1h") {
        Ok(3600)
    } else if str_eq(resolution, "4h") {
        Ok(14_400)
    } else if str_eq(resolution, "1d") {
        Ok(86_400)
    } else {
        Err(HistoryError::UnsupportedResolution(String::from_str(resolution)))
    }
}

/// The Binance interval of a supported resolution: the same text.
pub fn binance_interval(resolution: &str) -> (r: Result<&'static str, HistoryError>)
    ensures
        match r {
            Ok(i) => resolution_secs(resolution@) is Some && i@ == resolution@,
            Err(e) => resolution_secs(resolution@) is None && (e matches HistoryError::UnsupportedResolution(t) && t@ == resolution@),
        },
{
    if str_eq(resolution, "1m") {
        Ok("1m")
    } else if str_eq(resolution, "5m") {
        Ok("5m")
    } else if str_eq(resolution, "15m") {
        Ok("15m")
    } else if str_eq(resolution, "30m") {
        Ok("30m")
    } else if str_eq(resolution, "1h") {
        Ok("1h")
    } else if str_eq(resolution, "4h") {
        Ok("4h")
    } else if str_eq(resolution, "1d") {
        Ok("1d")
    } else {
        Err(HistoryError::UnsupportedResolution(String::from_str(resolution)))
    }
}

/// The cache file of candles: `data/history/{venue}_{symbol}_{resolution}.json`.
pub fn cache_path(venue: Venue, symbol: &str, resolution: &str) -> (r: String)
    ensures
        r@ == "data/history/"@ + venue_name(venue) + "_"@ + symbol@ + "_"@ + resolution@
            + ".json"@,
{
    let mut p = String::from_str("data/history/");
    p.append(venue.as_str());
    p.append("_");
    p.append(symbol);
    p.append("_");
    p.append(resolution);
    p.append(".json");
    p
}

} // verus!
