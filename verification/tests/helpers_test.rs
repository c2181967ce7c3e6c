//! Tests of rent estimation, medians and the adapter's string helpers.

use apato::oikotie::helpers::{
    calculate_median, create_location_string, estimate_rent, generate_random_number, get_rent_regex,
    u64_from_digits,
};
use apato::oikotie::oikotie::{
    card_into_complete_apartment, rent_search_band, select_rent_estimate, CardConversionError,
    Location, RentalData,
};

fn comparables(pairs: &[(i32, i32)]) -> Vec<RentalData> {
    pairs.iter().map(|&(rent, size)| RentalData { rent, size }).collect()
}

#[test]
fn rent_is_averaged_within_band() {
    // Sizes 50..55 all lie within ten percent of 52.
    let data = comparables(&[(700, 50), (800, 52), (900, 55)]);
    assert_eq!(estimate_rent(52, data), 800);
}

#[test]
fn rent_average_truncates() {
    let data = comparables(&[(700, 52), (801, 52)]);
    assert_eq!(estimate_rent(52, data), 750);
}

/// With no comparable inside the tolerance band the estimate falls back to
/// scaling the median rent by the size's relation to the median size.
#[test]
fn rent_falls_back_to_median_scaling() {
    // Band around 100 is [90, 110]; every comparable lies outside it.
    let data = comparables(&[(500, 40), (600, 50), (700, 60)]);
    // Median rent 600, median size 50: 600 * 100 / 50 = 1200.
    assert_eq!(estimate_rent(100, data), 1200);
}

#[test]
fn rent_fallback_even_count_uses_half_steps() {
    // Medians over an even count: rents (600+700)/2 = 650, sizes (50+60)/2 = 55.
    let data = comparables(&[(600, 50), (700, 60)]);
    // 650 * 100 / 55 = 1181.81.. truncated to 1181.
    assert_eq!(estimate_rent(100, data), 1181);
}

#[test]
fn rent_with_no_comparables_is_zero() {
    let data: Vec<RentalData> = Vec::new();
    assert_eq!(estimate_rent(52, data), 0);
}

#[test]
fn rent_with_zero_median_size_is_zero() {
    // All comparables have size zero, outside the band around 100, and the
    // median size is zero: no scaling is possible.
    let data = comparables(&[(500, 0), (600, 0)]);
    assert_eq!(estimate_rent(100, data), 0);
}

#[test]
fn rent_band_accepts_equal_sizes() {
    // A comparable of exactly the queried size always lies in the band.
    let data = comparables(&[(640, 100)]);
    assert_eq!(estimate_rent(100, data), 640);
}

#[test]
fn median_odd_and_even() {
    // Doubled medians: of [3,1,2] the median is 2 (doubled 4); of [4,1,2,3]
    // it is 2.5 (doubled 5).
    assert_eq!(calculate_median(&vec![3, 1, 2]), 4);
    assert_eq!(calculate_median(&vec![4, 1, 2, 3]), 5);
    assert_eq!(calculate_median(&Vec::new()), 0);
}

#[test]
fn location_string_format() {
    let s = create_location_string(1645, 4, "Ullanlinna".to_string());
    assert_eq!(s, "[[1645, 4, \"Ullanlinna\"]]");
    let neg = create_location_string(-3, 0, "x".to_string());
    assert_eq!(neg, "[[-3, 0, \"x\"]]");
}

#[test]
fn rent_regex_reads_first_digit_run() {
    assert_eq!(get_rent_regex("800 € / kk".to_string()), 800);
    // The source writes thousands with a non-breaking space.
    assert_eq!(get_rent_regex("1\u{a0}200 € / kk".to_string()), 1200);
    assert_eq!(get_rent_regex("abc 42 def 99".to_string()), 42);
    // A run too large for i32 reads as -1.
    assert_eq!(get_rent_regex("99999999999".to_string()), -1);
}

#[test]
fn digits_only_number_reading() {
    assert_eq!(u64_from_digits(&"1 200 e/kk".to_string()), Some(1200));
    assert_eq!(u64_from_digits(&"450".to_string()), Some(450));
    assert_eq!(u64_from_digits(&"no digits".to_string()), None);
    assert_eq!(u64_from_digits(&"99999999999999999999999".to_string()), None);
    assert_eq!(u64_from_digits(&"18446744073709551615".to_string()), Some(u64::MAX));
}

#[test]
fn random_token_seed_is_in_range() {
    for _ in 0..20 {
        let s = generate_random_number();
        let n: u64 = s.parse().unwrap();
        assert!((15000..70000).contains(&n));
    }
}

#[test]
fn card_conversion_clamps_and_defaults() {
    let loc = Location { id: 1645, level: 4, name: "Ullanlinna".to_string() };
    let ap = card_into_complete_apartment(
        7,
        "https://example.invalid/7".to_string(),
        55,
        2,
        u64::MAX,
        300,
        &loc,
    )
    .unwrap();
    assert_eq!(ap.card_id, 7);
    assert_eq!(ap.price, Some(i32::MAX));
    assert_eq!(ap.additional_costs, Some(300));
    assert_eq!(ap.rent, Some(0));
    assert_eq!(ap.estimated_yield, Some(0));
    assert_eq!(ap.location_name.as_deref(), Some("Ullanlinna"));
}

#[test]
fn card_conversion_refuses_large_card_id() {
    let loc = Location { id: 1, level: 1, name: "x".to_string() };
    let err = card_into_complete_apartment(u32::MAX, "u".to_string(), 10, 1, 0, 0, &loc)
        .unwrap_err();
    assert_eq!(err, CardConversionError::CardIdTooLarge);
    assert_eq!(err.message(), "Card id does not fit in i32");
}

#[test]
fn search_band_is_ten_percent() {
    let band = rent_search_band(50);
    assert_eq!(band.min, Some(45));
    assert_eq!(band.max, Some(55));
    let odd = rent_search_band(55);
    assert_eq!(odd.min, Some(49));
    assert_eq!(odd.max, Some(60));
}

#[test]
fn rent_prediction_wins_only_when_positive() {
    assert_eq!(select_rent_estimate(Some(950), 800), 950);
    assert_eq!(select_rent_estimate(Some(0), 800), 800);
    assert_eq!(select_rent_estimate(Some(-5), 800), 800);
    assert_eq!(select_rent_estimate(None, 800), 800);
}
