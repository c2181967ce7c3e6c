//! Tests of the yield engine's decision policy.

use apato::producer::calculations::{clamp_irr, clamped_irr_from_roots, select_irr_root, IRR_CLAMP_LIMIT, RATE_SCALE};

#[test]
fn calculations_float_test() {
    let yield_: f64 = 0.20748;
    let yield_rounded = (yield_ * 10000.0).round() / 10000.0;
    assert_eq!(yield_rounded, 0.2075)
}

#[test]
fn calculations_test_float_test() {
    let yield_: f64 = 0.20748;
    let yield_rounded = (yield_ * 10000.0).round() / 10000.0;
    assert_eq!(yield_rounded, 0.2075)
}

#[test]
fn clamp_keeps_sane_rates() {
    assert_eq!(clamp_irr(0), 0);
    assert_eq!(clamp_irr(259_960), 259_960);
    assert_eq!(clamp_irr(-259_960), -259_960);
    assert_eq!(clamp_irr(IRR_CLAMP_LIMIT), IRR_CLAMP_LIMIT);
    assert_eq!(clamp_irr(-IRR_CLAMP_LIMIT), -IRR_CLAMP_LIMIT);
}

#[test]
fn clamp_zeroes_extreme_rates() {
    assert_eq!(clamp_irr(IRR_CLAMP_LIMIT + 1), 0);
    assert_eq!(clamp_irr(-IRR_CLAMP_LIMIT - 1), 0);
    assert_eq!(clamp_irr(7 * RATE_SCALE), 0);
    assert_eq!(clamp_irr(i64::MIN + RATE_SCALE), 0);
}

#[test]
fn select_root_single() {
    // One real reciprocal root of 1.156152 resolves to a 15.6152% rate.
    let roots = vec![1_156_152i64];
    assert_eq!(select_irr_root(&roots), Some(156_152));
}

#[test]
fn select_root_negative_rate() {
    // A reciprocal root below one gives a negative rate: 0.948972 -> -5.1028%.
    let roots = vec![948_972i64];
    assert_eq!(select_irr_root(&roots), Some(-51_028));
}

#[test]
fn select_root_filters_below_minus_one() {
    let roots = vec![-2_000_000i64];
    assert_eq!(select_irr_root(&roots), None);
    let roots2 = vec![-2_000_000i64, 1_100_000];
    assert_eq!(select_irr_root(&roots2), Some(100_000));
}

#[test]
fn select_root_empty() {
    let roots: Vec<i64> = Vec::new();
    assert_eq!(select_irr_root(&roots), None);
}

#[test]
fn select_root_smallest_absolute_wins() {
    let roots = vec![1_500_000i64, -900_000, 1_200_000];
    // |-900000| is the smallest absolute value among the valid roots.
    assert_eq!(select_irr_root(&roots), Some(-1_900_000));
}

#[test]
fn select_root_first_of_equal_minima_wins() {
    let roots = vec![1_000_000i64, -1_000_000];
    assert_eq!(select_irr_root(&roots), Some(0));
}

#[test]
fn whole_policy_clamps_selected_rate() {
    // A lone extreme root selects a rate outside the band, so the engine
    // reports exactly zero.
    let roots = vec![3_000_000i64];
    assert_eq!(clamped_irr_from_roots(&roots), 0);
    // No valid root at all reports zero too.
    let none: Vec<i64> = vec![-1_500_000];
    assert_eq!(clamped_irr_from_roots(&none), 0);
    // A sane root passes through.
    let sane = vec![1_156_152i64];
    assert_eq!(clamped_irr_from_roots(&sane), 156_152);
}
