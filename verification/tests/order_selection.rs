use arma_pipeline::order::{
    acf_and_choose_q, choose_order, choose_p_cutoff_first_drop, choose_q_first_drop,
    choose_q_largest_significant, effective_lag, is_inside_band, is_significant, next_pow2,
    padded_length, select_ar_order, ModelOrder,
};
use arma_pipeline::scalar::Scalar;

fn coefficients(values: &[f64]) -> Vec<Scalar> {
    values.iter().map(|v| Scalar::from_bits(v.to_bits())).collect()
}

fn bound_for(n: usize) -> Scalar {
    Scalar::from_bits((1.96 / (n as f64).sqrt()).to_bits())
}

#[test]
fn first_drop_stops_at_the_first_coefficient_inside_the_band() {
    // n = 100: the band is 0.196
    let b = bound_for(100);
    assert_eq!(choose_p_cutoff_first_drop(&coefficients(&[0.6, -0.3, 0.1, 0.5]), b), 2);
    assert_eq!(choose_p_cutoff_first_drop(&coefficients(&[0.1, 0.9, 0.9]), b), 0);
    assert_eq!(choose_p_cutoff_first_drop(&coefficients(&[0.6, -0.3, 0.25]), b), 3);
    assert_eq!(choose_p_cutoff_first_drop(&[], b), 0);
    assert_eq!(choose_q_first_drop(&coefficients(&[-0.6, -0.19, 0.9]), b), 1);
    assert_eq!(choose_q_first_drop(&coefficients(&[-0.6, -0.2, 0.9]), b), 3);
}

#[test]
fn a_coefficient_on_the_band_is_significant() {
    let b = bound_for(100);
    let edge = Scalar::from_bits((-(1.96f64 / 10.0)).to_bits());
    assert!(!is_inside_band(&edge, &b));
    assert!(is_significant(&edge, &b));
    assert_eq!(choose_p_cutoff_first_drop(&[edge], b), 1);
    assert_eq!(choose_q_largest_significant(&[edge], b), 1);
}

#[test]
fn nan_is_neither_inside_nor_significant() {
    let b = bound_for(100);
    let nan = Scalar::from_bits(f64::NAN.to_bits());
    assert!(!is_inside_band(&nan, &b));
    assert!(!is_significant(&nan, &b));
    let vals = [nan, Scalar::from_bits(0.0f64.to_bits())];
    assert_eq!(choose_p_cutoff_first_drop(&vals, b), 1);
    assert_eq!(choose_q_largest_significant(&vals, b), 0);
}

#[test]
fn an_empty_series_has_an_infinite_band() {
    let b = bound_for(0);
    assert_eq!(b.to_bits(), f64::INFINITY.to_bits());
    assert_eq!(choose_p_cutoff_first_drop(&coefficients(&[1.0e300, 0.5]), b), 0);
    assert_eq!(choose_q_largest_significant(&coefficients(&[1.0e300, 0.5]), b), 0);
    assert_eq!(choose_q_largest_significant(&coefficients(&[f64::INFINITY]), b), 1);
}

#[test]
fn largest_significant_lag() {
    let b = bound_for(100);
    assert_eq!(choose_q_largest_significant(&coefficients(&[0.6, 0.1, 0.3, 0.05]), b), 3);
    assert_eq!(choose_q_largest_significant(&coefficients(&[0.1, 0.1]), b), 0);
    assert_eq!(choose_q_largest_significant(&coefficients(&[0.1, -0.9]), b), 2);
    assert_eq!(choose_q_largest_significant(&[], b), 0);
}

#[test]
fn first_drop_never_lies_beyond_the_largest_significant_lag() {
    let b = bound_for(50);
    let series: [&[f64]; 5] = [
        &[0.9, 0.5, 0.1, 0.4, 0.0],
        &[0.0, 0.9],
        &[0.3, 0.3, 0.3],
        &[],
        &[-0.28, 0.27, -0.9],
    ];
    for s in series {
        let v = coefficients(s);
        assert!(choose_q_first_drop(&v, b) <= choose_q_largest_significant(&v, b));
    }
}

#[test]
fn moving_average_order_leaves_out_lag_zero() {
    let b = bound_for(100);
    assert_eq!(acf_and_choose_q(&coefficients(&[1.0, 0.5, 0.3, 0.1, 0.4]), b), 2);
    assert_eq!(acf_and_choose_q(&coefficients(&[1.0, 0.05, 0.9]), b), 0);
    assert_eq!(acf_and_choose_q(&coefficients(&[1.0]), b), 0);
    assert_eq!(acf_and_choose_q(&coefficients(&[0.0, 0.5]), b), 1);
}

#[test]
fn the_larger_order_is_selected() {
    assert_eq!(select_ar_order(1, 3), 3);
    assert_eq!(select_ar_order(3, 1), 3);
    assert_eq!(select_ar_order(2, 2), 2);
    assert_eq!(select_ar_order(0, 0), 0);
}

#[test]
fn lag_is_capped_below_the_length() {
    assert_eq!(effective_lag(10, 24), 9);
    assert_eq!(effective_lag(100, 24), 24);
    assert_eq!(effective_lag(25, 24), 24);
    assert_eq!(effective_lag(24, 24), 23);
    assert_eq!(effective_lag(1, 5), 0);
    assert_eq!(effective_lag(2, 0), 0);
}

#[test]
fn next_power_of_two() {
    let want = [1usize, 1, 2, 4, 4, 8, 8, 8, 8, 16];
    for (x, &w) in want.iter().enumerate() {
        assert_eq!(next_pow2(x), w, "{x}");
    }
    for x in 1usize..5000 {
        assert_eq!(next_pow2(x), x.next_power_of_two());
    }
    assert_eq!(next_pow2(65_535), 65_536);
    assert_eq!(next_pow2(65_536), 65_536);
    assert_eq!(next_pow2(65_537), 131_072);
    assert_eq!(next_pow2((1usize << 40) + 1), 1usize << 41);
    assert_eq!(next_pow2(usize::MAX / 2 + 1), usize::MAX / 2 + 1);
    assert_eq!(next_pow2(usize::MAX / 2), usize::MAX / 2 + 1);
}

#[test]
fn padded_length_is_a_power_of_two_of_at_least_twice_the_length() {
    assert_eq!(padded_length(0), 1);
    assert_eq!(padded_length(1), 2);
    assert_eq!(padded_length(3), 8);
    assert_eq!(padded_length(4), 8);
    assert_eq!(padded_length(5), 16);
    assert_eq!(padded_length(2520), 8192);
    for n in 1usize..3000 {
        let l = padded_length(n);
        assert!(l.is_power_of_two() && l >= 2 * n && l < 4 * n);
    }
}

#[test]
fn orders_from_both_estimates_and_the_autocorrelations() {
    let pacf_ld = coefficients(&[0.6, 0.1, 0.5]);
    let pacf_ols = coefficients(&[0.6, 0.3, 0.1]);
    let acf = coefficients(&[1.0, 0.5, 0.3, 0.1]);
    let order = choose_order(&pacf_ld, &pacf_ols, bound_for(100), &acf, bound_for(100));
    assert_eq!(order, ModelOrder { p: 2, q: 2 });
    let order = choose_order(&pacf_ols, &pacf_ld, bound_for(100), &acf, bound_for(100));
    assert_eq!(order, ModelOrder { p: 2, q: 2 });
    // each kind against its own band: 0.25 for the one, 0.62 for the other
    let order = choose_order(&pacf_ld, &pacf_ols, bound_for(61), &acf, bound_for(10));
    assert_eq!(order, ModelOrder { p: 2, q: 0 });
    let order = choose_order(&[], &[], bound_for(100), &coefficients(&[1.0]), bound_for(100));
    assert_eq!(order, ModelOrder { p: 0, q: 0 });
}
