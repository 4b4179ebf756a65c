use viewport_fit::{compute_fit, FitError, FitResult, Fraction, TargetRatio};

fn frac(num: u64, den: u64) -> Fraction {
    Fraction::new(num, den).unwrap()
}

fn value(f: Fraction) -> f64 {
    f.numerator() as f64 / f.denominator() as f64
}

fn sixteen_by_nine() -> TargetRatio {
    TargetRatio::new(16, 9).unwrap()
}

/// `offset + size / 2` as a fraction over `2 * offset.den * size.den`.
fn middle(offset: Fraction, size: Fraction) -> (u128, u128) {
    let on = offset.numerator() as u128;
    let od = offset.denominator() as u128;
    let sn = size.numerator() as u128;
    let sd = size.denominator() as u128;
    (2 * on * sd + sn * od, 2 * od * sd)
}

fn assert_centred(fit: &FitResult, width: u32, height: u32) {
    let (n, d) = middle(fit.offset.x, fit.size.width);
    assert_eq!(2 * n, width as u128 * d);
    let (n, d) = middle(fit.offset.y, fit.size.height);
    assert_eq!(2 * n, height as u128 * d);
}

fn assert_has_ratio(fit: &FitResult, num: u32, den: u32) {
    let wn = fit.size.width.numerator() as u128;
    let wd = fit.size.width.denominator() as u128;
    let hn = fit.size.height.numerator() as u128;
    let hd = fit.size.height.denominator() as u128;
    assert_eq!(wn * hd * den as u128, num as u128 * hn * wd);
}

#[test]
fn surface_of_target_ratio_is_filled() {
    let fit = compute_fit(1920, 1080, sixteen_by_nine()).unwrap();
    assert_eq!(fit.transform.horizontal, frac(1, 1));
    assert_eq!(fit.transform.vertical, frac(1, 1));
    assert_eq!(fit.offset.x, frac(0, 1));
    assert_eq!(fit.offset.y, frac(0, 1));
    assert_eq!(fit.size.width, frac(1920, 1));
    assert_eq!(fit.size.height, frac(1080, 1));
    assert_eq!(value(fit.transform.horizontal), 1.0);
    assert_eq!(value(fit.transform.vertical), 1.0);
    assert_eq!(value(fit.size.width), 1920.0);
    assert_eq!(value(fit.size.height), 1080.0);
}

#[test]
fn square_surface_keeps_full_width() {
    let fit = compute_fit(1000, 1000, sixteen_by_nine()).unwrap();
    assert_eq!(fit.transform.horizontal, frac(1, 1));
    assert_eq!(fit.transform.vertical, frac(9, 16));
    assert_eq!(fit.offset.x, frac(0, 1));
    assert_eq!(fit.offset.y, frac(875, 4));
    assert_eq!(fit.size.width, frac(1000, 1));
    assert_eq!(fit.size.height, frac(1125, 2));
    assert_eq!(value(fit.transform.vertical), 0.5625);
    assert_eq!(value(fit.offset.y), 218.75);
    assert_eq!(value(fit.size.height), 562.5);
}

#[test]
fn wide_surface_keeps_full_height() {
    let fit = compute_fit(2000, 900, sixteen_by_nine()).unwrap();
    assert_eq!(fit.transform.horizontal, frac(4, 5));
    assert_eq!(fit.transform.vertical, frac(1, 1));
    assert_eq!(fit.offset.x, frac(200, 1));
    assert_eq!(fit.offset.y, frac(0, 1));
    assert_eq!(fit.size.width, frac(1600, 1));
    assert_eq!(fit.size.height, frac(900, 1));
}

#[test]
fn fitted_width_need_not_be_whole() {
    let fit = compute_fit(1000, 500, TargetRatio::new(4, 3).unwrap()).unwrap();
    assert_eq!(fit.transform.horizontal, frac(2, 3));
    assert_eq!(fit.transform.vertical, frac(1, 1));
    assert_eq!(fit.offset.x, frac(500, 3));
    assert_eq!(fit.offset.y, frac(0, 1));
    assert_eq!(fit.size.width, frac(2000, 3));
    assert_eq!(fit.size.height, frac(500, 1));
}

#[test]
fn zero_width_is_refused() {
    assert_eq!(
        compute_fit(0, 1080, sixteen_by_nine()),
        Err(FitError::InvalidDimensions)
    );
}

#[test]
fn zero_height_is_refused() {
    assert_eq!(
        compute_fit(1920, 0, sixteen_by_nine()),
        Err(FitError::InvalidDimensions)
    );
}

#[test]
fn zero_area_is_refused() {
    assert_eq!(
        compute_fit(0, 0, sixteen_by_nine()),
        Err(FitError::InvalidDimensions)
    );
}

#[test]
fn one_pixel_surface_is_fitted() {
    let fit = compute_fit(1, 1, sixteen_by_nine()).unwrap();
    assert_eq!(fit.transform.horizontal, frac(1, 1));
    assert_eq!(fit.transform.vertical, frac(9, 16));
    assert_eq!(fit.offset.y, frac(7, 32));
    assert_eq!(fit.size.width, frac(1, 1));
    assert_eq!(fit.size.height, frac(9, 16));
}

#[test]
fn only_the_long_axis_is_scaled() {
    let one = frac(1, 1);
    let narrow = compute_fit(800, 1200, sixteen_by_nine()).unwrap();
    assert_eq!(narrow.transform.horizontal, one);
    assert!(value(narrow.transform.vertical) < 1.0);
    assert!(value(narrow.transform.vertical) > 0.0);
    let wide = compute_fit(3000, 400, sixteen_by_nine()).unwrap();
    assert_eq!(wide.transform.vertical, one);
    assert!(value(wide.transform.horizontal) < 1.0);
    assert!(value(wide.transform.horizontal) > 0.0);
    let exact = compute_fit(160, 90, sixteen_by_nine()).unwrap();
    assert_eq!(exact.transform.horizontal, one);
    assert_eq!(exact.transform.vertical, one);
}

#[test]
fn region_is_centred() {
    let ratio = sixteen_by_nine();
    for (w, h) in [(1000, 1000), (2000, 900), (1920, 1080), (1, 7), (4095, 3)] {
        let fit = compute_fit(w, h, ratio).unwrap();
        assert_centred(&fit, w, h);
    }
}

#[test]
fn region_has_target_ratio() {
    let ratio = sixteen_by_nine();
    for (w, h) in [(1000, 1000), (2000, 900), (1920, 1080), (1, 7), (4095, 3)] {
        let fit = compute_fit(w, h, ratio).unwrap();
        assert_has_ratio(&fit, 16, 9);
    }
}

#[test]
fn region_lies_within_surface() {
    let ratio = TargetRatio::new(3, 7).unwrap();
    for (w, h) in [(10u32, 10u32), (3, 7), (700, 2), (2, 700)] {
        let fit = compute_fit(w, h, ratio).unwrap();
        assert!(value(fit.size.width) > 0.0);
        assert!(value(fit.size.height) > 0.0);
        assert!(value(fit.offset.x) + value(fit.size.width) <= w as f64);
        assert!(value(fit.offset.y) + value(fit.size.height) <= h as f64);
    }
}

#[test]
fn scale_is_share_of_surface() {
    let fit = compute_fit(1000, 1000, sixteen_by_nine()).unwrap();
    assert_eq!(value(fit.transform.horizontal) * 1000.0, value(fit.size.width));
    assert_eq!(value(fit.transform.vertical) * 1000.0, value(fit.size.height));
}

#[test]
fn same_inputs_give_same_fit() {
    let ratio = sixteen_by_nine();
    assert_eq!(compute_fit(1000, 1000, ratio), compute_fit(1000, 1000, ratio));
    assert_eq!(compute_fit(1234, 567, ratio), compute_fit(1234, 567, ratio));
    assert_eq!(compute_fit(0, 567, ratio), compute_fit(0, 567, ratio));
}

#[test]
fn fit_depends_on_ratio_not_on_how_it_was_written() {
    let a = TargetRatio::new(16, 9).unwrap();
    let b = TargetRatio::new(1920, 1080).unwrap();
    assert_eq!(a, b);
    assert_eq!(compute_fit(1000, 1000, a), compute_fit(1000, 1000, b));
    assert_eq!(compute_fit(3000, 1000, a), compute_fit(3000, 1000, b));
}

#[test]
fn both_ways_to_fit_agree_on_exact_ratio() {
    // One pixel narrower takes the full-width way, the exact surface the
    // full-height way; on the exact surface both must leave it whole.
    let ratio = TargetRatio::new(2, 1).unwrap();
    let exact = compute_fit(200, 100, ratio).unwrap();
    assert_eq!(exact.transform.horizontal, frac(1, 1));
    assert_eq!(exact.transform.vertical, frac(1, 1));
    assert_eq!(exact.offset.x, frac(0, 1));
    assert_eq!(exact.offset.y, frac(0, 1));
    assert_eq!(exact.size.width, frac(200, 1));
    assert_eq!(exact.size.height, frac(100, 1));
    let narrower = compute_fit(199, 100, ratio).unwrap();
    assert_eq!(narrower.transform.horizontal, frac(1, 1));
    assert_eq!(narrower.transform.vertical, frac(199, 200));
    assert_eq!(narrower.offset.y, frac(1, 4));
    assert_eq!(narrower.size.height, frac(199, 2));
    let wider = compute_fit(201, 100, ratio).unwrap();
    assert_eq!(wider.transform.horizontal, frac(200, 201));
    assert_eq!(wider.transform.vertical, frac(1, 1));
    assert_eq!(wider.offset.x, frac(1, 2));
    assert_eq!(wider.size.width, frac(200, 1));
}

#[test]
fn largest_inputs_do_not_overflow() {
    let max = u32::MAX;
    let steep = TargetRatio::new(max, 1).unwrap();
    let fit = compute_fit(max, max, steep).unwrap();
    assert_eq!(fit.transform.horizontal, frac(1, 1));
    assert_eq!(fit.transform.vertical, frac(1, max as u64));
    assert_eq!(fit.offset.y, frac(2147483647, 1));
    assert_eq!(fit.size.width, frac(max as u64, 1));
    assert_eq!(fit.size.height, frac(1, 1));
    let flat = TargetRatio::new(1, max).unwrap();
    let fit = compute_fit(max, max, flat).unwrap();
    assert_eq!(fit.transform.horizontal, frac(1, max as u64));
    assert_eq!(fit.transform.vertical, frac(1, 1));
    assert_eq!(fit.offset.x, frac(2147483647, 1));
    assert_eq!(fit.size.width, frac(1, 1));
    assert_eq!(fit.size.height, frac(max as u64, 1));
    let odd = TargetRatio::new(max, max - 1).unwrap();
    let fit = compute_fit(max - 2, max, odd).unwrap();
    assert_centred(&fit, max - 2, max);
    assert_has_ratio(&fit, max, max - 1);
}

#[test]
fn ratio_of_empty_surface_is_refused() {
    assert_eq!(TargetRatio::new(0, 9), Err(FitError::InvalidDimensions));
    assert_eq!(TargetRatio::new(16, 0), Err(FitError::InvalidDimensions));
    assert_eq!(TargetRatio::new(0, 0), Err(FitError::InvalidDimensions));
}

#[test]
fn ratio_is_kept_in_lowest_terms() {
    let ratio = TargetRatio::new(1920, 1080).unwrap();
    assert_eq!(ratio.as_fraction(), frac(16, 9));
    assert_eq!(ratio.as_fraction().numerator(), 16);
    assert_eq!(ratio.as_fraction().denominator(), 9);
}

#[test]
fn matrix_is_diagonal() {
    let fit = compute_fit(1000, 1000, sixteen_by_nine()).unwrap();
    let m = fit.transform.to_matrix();
    let zero = frac(0, 1);
    let diagonal = [frac(1, 1), frac(9, 16), frac(1, 1), frac(1, 1)];
    for row in 0..4 {
        for col in 0..4 {
            if row == col {
                assert_eq!(m[row][col], diagonal[row]);
            } else {
                assert_eq!(m[row][col], zero);
            }
        }
    }
}
