use bangida::decimal::{parse_decimal, Dec};
use bangida::execution::fill_tracker::FillTracker;

fn d(s: &str) -> Dec {
    parse_decimal(s).unwrap()
}

#[test]
fn test_single_fill() {
    let mut ft = FillTracker::new(d("1.0"));
    ft.on_fill(d("1.0"), d("50000"));
    assert!(ft.is_complete());
    assert_eq!(ft.avg_fill_price(), d("50000"));
    assert_eq!(ft.remaining_quantity(), d("0"));
}

#[test]
fn test_partial_fills() {
    let mut ft = FillTracker::new(d("1.0"));
    ft.on_fill(d("0.3"), d("50000"));
    ft.on_fill(d("0.7"), d("50100"));
    assert!(ft.is_complete());
    assert_eq!(ft.avg_fill_price(), d("50070"));
    assert_eq!(ft.fill_count(), 2);
}

#[test]
fn test_remaining_quantity() {
    let mut ft = FillTracker::new(d("2.0"));
    ft.on_fill(d("0.5"), d("100"));
    assert_eq!(ft.remaining_quantity(), d("1.5"));
    assert!(!ft.is_complete());
}

#[test]
fn test_no_fills() {
    let ft = FillTracker::new(d("1.0"));
    assert_eq!(ft.avg_fill_price(), d("0"));
    assert_eq!(ft.remaining_quantity(), d("1.0"));
    assert!(!ft.is_complete());
}

#[test]
fn fill_tracker_overfill_leaves_nothing() {
    let mut ft = FillTracker::new(d("1"));
    ft.on_fill(d("1.5"), d("10"));
    assert_eq!(ft.remaining_quantity(), d("0"));
    assert_eq!(ft.filled_quantity(), d("1.5"));
    assert!(ft.is_complete());
}
