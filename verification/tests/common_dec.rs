use bangida::decimal::{difference_in_range, parse_decimal, product_in_range, quotient_in_range, sum_in_range, Dec};

#[test]
fn decimal_text_round_trip() {
    let d = parse_decimal("100.80").unwrap();
    assert_eq!(d.to_string(), "100.80");
    assert_eq!(d, Dec::new(1008, 1));
    assert!(parse_decimal("abc").is_err());
}

#[test]
fn decimal_arithmetic_exact_values() {
    let a = Dec::new(15, 1); // 1.5
    let b = Dec::new(25, 2); // 0.25
    assert_eq!(a.plus(&b), Dec::new(175, 2));
    assert_eq!(a.minus(&b), Dec::new(125, 2));
    assert_eq!(a.times(&b), Dec::new(375, 3));
    assert_eq!(a.divided_by(&b), Dec::new(6, 0));
    assert!(b.lt(&a));
    assert!(a.le(&a));
    assert_eq!(Dec::new(-3, 0).abs(), Dec::new(3, 0));
    assert_eq!(a.max_value(&b), a);
}

#[test]
fn decimal_scales_of_exact_results() {
    let a = Dec::new(15, 1); // 1.5
    let b = Dec::new(225, 2); // 2.25
    let s = a.plus(&b);
    assert_eq!((s.mantissa(), s.scale()), (375, 2));
    let d = a.minus(&b);
    assert_eq!((d.mantissa(), d.scale()), (-75, 2));
    let p = Dec::new(150, 2).times(&Dec::new(20, 1));
    assert_eq!((p.mantissa(), p.scale()), (3000, 3));
    let zero_scaled = Dec::new(0, 2);
    let z = zero_scaled.plus(&Dec::new(7, 0));
    assert_eq!((z.mantissa(), z.scale()), (7, 0));
    let n = zero_scaled.minus(&Dec::new(7, 1));
    assert_eq!((n.mantissa(), n.scale()), (-7, 1));
    let zp = zero_scaled.times(&a);
    assert_eq!((zp.mantissa(), zp.scale()), (0, 0));
    let zq = zero_scaled.divided_by(&a);
    assert_eq!((zq.mantissa(), zq.scale()), (0, 0));
}

#[test]
fn decimal_range_checks_are_exact_at_the_boundary() {
    let max = Dec::from_parts(79228162514264337593543950335, 0).unwrap();
    let min = Dec::from_parts(-79228162514264337593543950335, 0).unwrap();
    let tiny = Dec::from_parts(1, 28).unwrap();
    assert!(sum_in_range(&max, &Dec::zero()));
    assert!(!sum_in_range(&max, &tiny));
    assert!(sum_in_range(&max, &tiny.neg()));
    assert!(sum_in_range(&max, &min));
    assert!(!difference_in_range(&min, &tiny));
    assert!(difference_in_range(&min, &tiny.neg()));
    assert!(!sum_in_range(&max, &max));
    assert!(difference_in_range(&max, &max));
    assert!(sum_in_range(&Dec::new(15, 1), &Dec::new(-225, 2)));
}

#[test]
fn decimal_product_and_quotient_range_checks() {
    let max = Dec::from_parts(79228162514264337593543950335, 0).unwrap();
    let one = Dec::new(1, 0);
    let half = Dec::new(5, 1);
    let tiny = Dec::from_parts(1, 28).unwrap();
    assert!(product_in_range(&max, &one));
    assert!(!product_in_range(&max, &Dec::new(11, 1)));
    assert!(product_in_range(&max, &half.neg()));
    assert!(product_in_range(&max, &max.neg().times(&Dec::zero())));
    assert!(product_in_range(&tiny, &tiny));
    assert!(!product_in_range(&Dec::new(100000000000000, 0), &Dec::new(100000000000000, 0).times(&Dec::new(1000, 0))));
    assert!(product_in_range(&Dec::new(100000000000000, 0), &Dec::new(100000000000000, 0)));
    // a quotient is defined and in range when |a| < max * |b|
    assert!(!quotient_in_range(&one, &Dec::zero()));
    assert!(quotient_in_range(&max, &Dec::new(11, 1)));
    assert!(!quotient_in_range(&max, &one));
    assert!(quotient_in_range(&one, &tiny));
    assert!(!quotient_in_range(&Dec::new(10, 0), &tiny));
    assert!(quotient_in_range(&one, &Dec::from_parts(1, 20).unwrap()));
    assert!(quotient_in_range(&Dec::zero(), &tiny));
}

#[test]
fn decimal_text_places_the_point() {
    assert_eq!(Dec::new(5, 3).to_string(), "0.005");
    assert_eq!(Dec::new(-150, 2).to_string(), "-1.50");
    assert_eq!(Dec::new(0, 2).to_string(), "0.00");
    assert_eq!(Dec::new(0, 0).to_string(), "0");
    assert_eq!(Dec::new(1234, 0).to_string(), "1234");
    assert_eq!(Dec::new(-7, 1).to_string(), "-0.7");
}
