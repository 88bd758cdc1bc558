use bangida::scalper::historical::{binance_interval, cache_path, resolution_seconds, HistoryError, Venue};

#[test]
fn resolution_seconds_known_values() {
    assert_eq!(resolution_seconds("1m").unwrap(), 60);
    assert_eq!(resolution_seconds("5m").unwrap(), 300);
    assert_eq!(resolution_seconds("15m").unwrap(), 900);
    assert_eq!(resolution_seconds("1h").unwrap(), 3600);
    assert_eq!(resolution_seconds("4h").unwrap(), 14_400);
    assert_eq!(resolution_seconds("1d").unwrap(), 86_400);
    assert!(resolution_seconds("bogus").is_err());
}

#[test]
fn venue_parse() {
    assert_eq!(Venue::parse("kraken").unwrap(), Venue::Kraken);
    assert_eq!(Venue::parse("KRAKEN").unwrap(), Venue::Kraken);
    assert_eq!(Venue::parse("binance").unwrap(), Venue::Binance);
    assert!(Venue::parse("gdax").is_err());
}

#[test]
fn resolution_thirty_minutes_and_errors() {
    assert_eq!(resolution_seconds("30m").unwrap(), 1800);
    match resolution_seconds("2h") {
        Err(e) => assert_eq!(e.message(), "unsupported resolution: 2h"),
        Ok(_) => panic!("2h is not supported"),
    }
}

#[test]
fn venue_names_and_errors() {
    assert_eq!(Venue::Kraken.as_str(), "kraken");
    assert_eq!(Venue::Binance.as_str(), "binance");
    assert_eq!(Venue::parse("BiNaNcE").unwrap(), Venue::Binance);
    match Venue::parse("gdax") {
        Err(e) => {
            assert!(matches!(e, HistoryError::UnknownVenue(_)));
            assert_eq!(e.message(), "unknown venue: gdax (expected kraken or binance)");
        }
        Ok(_) => panic!("gdax is not a venue"),
    }
}

#[test]
fn binance_interval_maps_supported() {
    assert_eq!(binance_interval("4h").unwrap(), "4h");
    assert_eq!(binance_interval("1d").unwrap(), "1d");
    assert!(binance_interval("7d").is_err());
}

#[test]
fn cache_path_layout() {
    assert_eq!(cache_path(Venue::Kraken, "PI_XBTUSD", "1m"), "data/history/kraken_PI_XBTUSD_1m.json");
    assert_eq!(cache_path(Venue::Binance, "BTCUSDT", "15m"), "data/history/binance_BTCUSDT_15m.json");
}
