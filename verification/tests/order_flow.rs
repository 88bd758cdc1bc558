use bangida::data::order_flow::VolumeProfile;
use bangida::decimal::{parse_decimal, Dec};

fn d(s: &str) -> Dec {
    parse_decimal(s).unwrap()
}

#[test]
fn volume_profile_poc() {
    let mut vp = VolumeProfile::new();
    vp.on_trade(d("100"), d("5"));
    vp.on_trade(d("101"), d("10"));
    vp.on_trade(d("102"), d("3"));
    assert_eq!(vp.poc(), Some(d("101")));
}

#[test]
fn volume_profile_accumulates_and_ties() {
    let mut vp = VolumeProfile::new();
    assert_eq!(vp.poc(), None);
    vp.on_trade(d("102"), d("4"));
    vp.on_trade(d("100"), d("4"));
    vp.on_trade(d("100.0"), d("1"));
    vp.on_trade(d("102"), d("1"));
    // equal volumes: the highest price wins
    assert_eq!(vp.poc(), Some(d("102")));
    assert_eq!(vp.levels(), vec![(d("100"), d("5")), (d("102"), d("5"))]);
    assert_eq!(vp.total_volume(), d("10"));
    vp.reset();
    assert_eq!(vp.total_volume(), d("0"));
    assert!(vp.levels().is_empty());
}
