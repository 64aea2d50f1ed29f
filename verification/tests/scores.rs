use wasm_image_validator::score::Score;

#[test]
fn score_from_ratio_splits_whole_and_fraction() {
    let s = Score::from_ratio(7, 2).unwrap();
    assert_eq!(s.whole(), 3);
    assert_eq!(s.numerator(), 1);
    assert_eq!(s.denominator(), 2);
}

#[test]
fn score_from_ratio_rejects_zero_denominator() {
    assert!(Score::from_ratio(1, 0).is_none());
    assert!(Score::from_ratio(0, 0).is_none());
}

#[test]
fn score_new_needs_a_proper_fraction() {
    assert!(Score::new(4, 3, 3).is_none());
    assert!(Score::new(4, 5, 3).is_none());
    assert!(Score::new(4, 0, 0).is_none());
    let s = Score::new(4, 2, 3).unwrap();
    assert_eq!((s.whole(), s.numerator(), s.denominator()), (4, 2, 3));
}

#[test]
fn score_zero_is_zero_over_one() {
    let s = Score::zero();
    assert_eq!((s.whole(), s.numerator(), s.denominator()), (0, 0, 1));
    assert!(s.lt_fraction(1, 1000));
    assert!(!s.gt_fraction(0, 1));
    assert!(!s.lt_fraction(0, 1));
}

#[test]
fn score_compares_by_integer_part_first() {
    let s = Score::from_ratio(7, 2).unwrap();
    assert!(s.lt_fraction(4, 1));
    assert!(s.gt_fraction(3, 1));
    assert!(s.lt_fraction(36, 10));
    assert!(s.gt_fraction(34, 10));
}

#[test]
fn score_comparison_is_strict() {
    let s = Score::from_ratio(7, 2).unwrap();
    assert!(!s.lt_fraction(7, 2));
    assert!(!s.gt_fraction(7, 2));
    assert!(!s.lt_fraction(35, 10));
    assert!(!s.gt_fraction(35, 10));
    let t = Score::from_ratio(6, 20).unwrap();
    assert!(!t.lt_fraction(3, 10));
    assert!(!t.gt_fraction(3, 10));
}

#[test]
fn score_compares_fractions_with_equal_integer_parts() {
    let s = Score::from_ratio(299_999, 1_000_000).unwrap();
    assert!(s.lt_fraction(3, 10));
    assert!(!s.gt_fraction(3, 10));
    let t = Score::from_ratio(300_001, 1_000_000).unwrap();
    assert!(t.gt_fraction(3, 10));
    assert!(!t.lt_fraction(3, 10));
}

#[test]
fn score_compares_without_overflow() {
    // A denominator close to the largest a score can hold.
    let den = u128::MAX;
    let just_below = Score::new(0, den / 10 * 3, den).unwrap();
    assert!(just_below.lt_fraction(3, 10));
    let just_above = Score::new(0, den / 10 * 3 + 2, den).unwrap();
    assert!(just_above.gt_fraction(3, 10));
    let almost_one = Score::new(0, den - 1, den).unwrap();
    assert!(almost_one.lt_fraction(1, 1));
    assert!(almost_one.gt_fraction(u64::MAX - 1, u64::MAX));
    let huge = Score::new(u128::MAX, den - 1, den).unwrap();
    assert!(huge.gt_fraction(u64::MAX, 1));
    assert!(!huge.lt_fraction(u64::MAX, 1));
}

#[test]
fn score_compares_against_fractions_with_large_terms() {
    // 1/3 against 6148914691236517205 / 18446744073709551615, which is 1/3.
    let third = Score::from_ratio(1, 3).unwrap();
    assert!(!third.lt_fraction(6148914691236517205, u64::MAX));
    assert!(!third.gt_fraction(6148914691236517205, u64::MAX));
    assert!(third.lt_fraction(6148914691236517206, u64::MAX));
    assert!(third.gt_fraction(6148914691236517204, u64::MAX));
}
