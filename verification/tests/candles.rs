use bangida::common::types::Symbol;
use bangida::data::candles::{CandleAggregator, CandleInterval};
use bangida::decimal::{parse_decimal, Dec};

fn d(s: &str) -> Dec {
    parse_decimal(s).unwrap()
}

#[test]
fn candle_closes_on_new_interval() {
    let sym = Symbol::new("BTCUSDT");
    let mut agg = CandleAggregator::new(sym, CandleInterval::S1);
    assert!(agg.on_trade(d("100"), d("1"), 0).is_none());
    assert!(agg.on_trade(d("105"), d("2"), 500).is_none());
    assert!(agg.on_trade(d("95"), d("1"), 900).is_none());
    let kline = agg.on_trade(d("101"), d("1"), 1000);
    assert!(kline.is_some());
    let k = kline.unwrap();
    assert_eq!(k.open, d("100"));
    assert_eq!(k.high, d("105"));
    assert_eq!(k.low, d("95"));
    assert_eq!(k.close, d("95"));
    assert_eq!(k.volume, d("4"));
}

#[test]
fn candle_interval_lengths() {
    assert_eq!(CandleInterval::S1.as_millis(), 1_000);
    assert_eq!(CandleInterval::S5.as_millis(), 5_000);
    assert_eq!(CandleInterval::S15.as_millis(), 15_000);
    assert_eq!(CandleInterval::M1.as_millis(), 60_000);
}

#[test]
fn candle_times_are_aligned() {
    let mut agg = CandleAggregator::new(Symbol::new("ETHUSDT"), CandleInterval::S5);
    assert!(agg.on_trade(d("10"), d("1"), 7_300).is_none());
    let k = agg.on_trade(d("11"), d("1"), 10_000).unwrap();
    assert_eq!(k.open_time_ms, 5_000);
    assert_eq!(k.close_time_ms, 9_999);
    let rest = agg.flush().unwrap();
    assert_eq!(rest.open, d("11"));
    assert!(agg.flush().is_none());
}
