use lox_expr::numeric::Rat;

#[test]
fn construction_rejects_a_zero_denominator() {
    assert!(Rat::new(false, 1, 0).is_none());
    assert!(Rat::new(false, 1, 1).is_some());
}

#[test]
fn arithmetic_is_exact() {
    let half = Rat::new(false, 1, 2).unwrap();
    let third = Rat::new(false, 1, 3).unwrap();
    let sum = half.add(&third).unwrap();
    // 1/2 + 1/3 == 5/6
    assert!(sum.eq_val(&Rat::new(false, 5, 6).unwrap()));
    let diff = half.sub(&third).unwrap();
    assert!(diff.eq_val(&Rat::new(false, 1, 6).unwrap()));
    let prod = half.mul(&third).unwrap();
    assert!(prod.eq_val(&Rat::new(false, 1, 6).unwrap()));
    let quot = half.div(&third).unwrap();
    assert!(quot.eq_val(&Rat::new(false, 3, 2).unwrap()));
}

#[test]
fn value_equality_ignores_the_representation() {
    let half = Rat::new(false, 1, 2).unwrap();
    let two_quarters = Rat::new(false, 2, 4).unwrap();
    assert!(half.eq_val(&two_quarters));
    assert!(!half.eq_val(&Rat::new(true, 1, 2).unwrap()));
    let zero = Rat::from_u64(0);
    let neg_zero = Rat::new(true, 0, 5).unwrap();
    assert!(zero.eq_val(&neg_zero));
}

#[test]
fn ordering_follows_the_values() {
    let half = Rat::new(false, 1, 2).unwrap();
    let third = Rat::new(false, 1, 3).unwrap();
    let neg = Rat::new(true, 1, 2).unwrap();
    assert!(third.lt(&half));
    assert!(!half.lt(&third));
    assert!(neg.lt(&third));
    assert!(half.le(&half));
    assert!(!half.lt(&half));
}

#[test]
fn overflow_is_reported_not_wrapped() {
    let max = Rat::from_u64(u64::MAX);
    let one = Rat::from_u64(1);
    assert!(max.add(&one).is_none());
    assert!(max.mul(&max).is_none());
    assert!(max.sub(&one).is_some());
}

#[test]
fn decimal_rendering_trims_trailing_zeros() {
    assert_eq!(Rat::from_u64(12).to_decimal_string(), "12");
    assert_eq!(Rat::new(false, 1250, 1000).unwrap().to_decimal_string(), "1.25");
    assert_eq!(Rat::new(true, 5, 10).unwrap().to_decimal_string(), "-0.5");
    assert_eq!(Rat::new(false, 0, 7).unwrap().to_decimal_string(), "0");
    assert_eq!(Rat::new(false, 1, 8).unwrap().to_decimal_string(), "0.125");
}

#[test]
fn value_rendering_forces_one_decimal_for_integers() {
    assert_eq!(Rat::from_u64(42).to_value_string(), "42.0");
    assert_eq!(Rat::new(false, 314, 100).unwrap().to_value_string(), "3.14");
    assert_eq!(Rat::new(false, 40, 10).unwrap().to_value_string(), "4.0");
}

#[test]
fn counts_floor_and_clamp() {
    assert_eq!(Rat::new(false, 29, 10).unwrap().to_count(), 2);
    assert_eq!(Rat::new(true, 29, 10).unwrap().to_count(), 0);
    assert_eq!(Rat::from_u64(7).to_count(), 7);
}
