use viewport_fit::{initial_size, Fraction, DEFAULT_HEIGHT, DEFAULT_WIDTH};

#[test]
fn fraction_is_reduced() {
    let f = Fraction::new(1920, 1080).unwrap();
    assert_eq!(f.numerator(), 16);
    assert_eq!(f.denominator(), 9);
    let g = Fraction::new(875, 4).unwrap();
    assert_eq!(g.numerator(), 875);
    assert_eq!(g.denominator(), 4);
    let h = Fraction::new(6, 4).unwrap();
    assert_eq!(h.numerator(), 3);
    assert_eq!(h.denominator(), 2);
}

#[test]
fn zero_has_one_form() {
    let f = Fraction::new(0, 12).unwrap();
    assert_eq!(f.numerator(), 0);
    assert_eq!(f.denominator(), 1);
    assert_eq!(f, Fraction::from_integer(0));
}

#[test]
fn zero_denominator_is_refused() {
    assert_eq!(Fraction::new(1, 0), None);
    assert_eq!(Fraction::new(0, 0), None);
}

#[test]
fn equal_numbers_are_equal_fractions() {
    assert_eq!(Fraction::new(2, 4), Fraction::new(1, 2));
    assert_eq!(Fraction::new(300, 100), Some(Fraction::from_integer(3)));
    assert_ne!(Fraction::new(1, 2), Fraction::new(1, 3));
}

#[test]
fn whole_number_is_over_one() {
    let f = Fraction::from_integer(7);
    assert_eq!(f.numerator(), 7);
    assert_eq!(f.denominator(), 1);
    let big = Fraction::from_integer(u64::MAX);
    assert_eq!(big.numerator(), u64::MAX);
    assert_eq!(big.denominator(), 1);
}

#[test]
fn largest_parts_are_reduced() {
    let f = Fraction::new(u64::MAX, u64::MAX).unwrap();
    assert_eq!(f, Fraction::from_integer(1));
    let g = Fraction::new(u64::MAX, u64::MAX - 1).unwrap();
    assert_eq!(g.numerator(), u64::MAX);
    assert_eq!(g.denominator(), u64::MAX - 1);
    let h = Fraction::new(u64::MAX - 1, 2).unwrap();
    assert_eq!(h.numerator(), 9223372036854775807);
    assert_eq!(h.denominator(), 1);
}

#[test]
fn requested_size_is_kept() {
    assert_eq!(initial_size(800, 600), (800, 600));
    assert_eq!(initial_size(1, u32::MAX), (1, u32::MAX));
}

#[test]
fn missing_size_falls_back_to_default() {
    assert_eq!(DEFAULT_WIDTH, 1920);
    assert_eq!(DEFAULT_HEIGHT, 1080);
    assert_eq!(initial_size(0, 0), (1920, 1080));
    assert_eq!(initial_size(0, 600), (1920, 600));
    assert_eq!(initial_size(800, 0), (800, 1080));
}
