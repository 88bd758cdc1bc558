use bangida::common::text::{contains, ends_with, eq_ignore_ascii_case, join, last_segment, starts_with, str_eq};
use bangida::common::time::format_ms;

#[test]
fn text_predicates() {
    assert!(str_eq("abc", "abc"));
    assert!(!str_eq("abc", "abd"));
    assert!(eq_ignore_ascii_case("KrAkEn", "kraken"));
    assert!(starts_with("orderbook.50", "orderbook."));
    assert!(!starts_with("order", "orderbook."));
    assert!(ends_with("x@aggTrade", "@aggTrade"));
    assert!(!ends_with("Trade", "@aggTrade"));
    assert!(contains("btc@kline_1m", "@kline_"));
    assert!(!contains("btc@kline", "@kline_"));
    assert_eq!(last_segment("kline.1.BTCUSDT", '.'), "BTCUSDT");
    assert_eq!(last_segment("nodots", '.'), "nodots");
    assert_eq!(join(&vec!["a".to_string(), "b".to_string(), "c".to_string()], "/"), "a/b/c");
    assert_eq!(join(&vec![], "/"), "");
}

#[test]
fn number_texts() {
    assert_eq!(format_ms(0), "1970-01-01 00:00:00.000 UTC");
    assert_eq!(format_ms(u64::MAX), "1969-12-31 23:59:59.999 UTC");
    assert_eq!(format_ms(9_000_000_000_000_000), "9000000000000000ms");
}

#[test]
fn format_ms_date_range_ends() {
    assert_eq!(format_ms(8210266876799999), "+262142-12-31 23:59:59.999 UTC");
    assert_eq!(format_ms(8210266876800000), "8210266876800000ms");
    // as signed numbers, the lowest date and one millisecond before it
    assert_eq!(format_ms((-8334601228800000i64) as u64), "-262143-01-01 00:00:00.000 UTC");
    assert_eq!(format_ms((-8334601228800001i64) as u64), format!("{}ms", (-8334601228800001i64) as u64));
}
