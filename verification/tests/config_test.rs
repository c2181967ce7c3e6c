//! Tests of the configuration defaults and the endpoint constants.

use apato::config::create_test_config;
use apato::URLS;

#[test]
fn test_config_defaults() {
    let c = create_test_config();
    assert_eq!(c.loan_duration_years, 25);
    assert_eq!(c.down_payment_percentage, 20);
    assert_eq!(c.tax, 30);
    assert_eq!(c.avg_renovation_costs, 5000);
    assert_eq!(c.avg_estimated_rent_increase_per_year, 1);
    assert_eq!(c.avg_vacant_month_per_year, 1);
    assert_eq!(c.estimated_yearly_apartment_price_increase, 2);
    assert_eq!(c.consumer_thread_limit, 10);
    assert!(c.ml_service_url.is_none());
}

#[test]
fn endpoint_urls() {
    assert_eq!(URLS::cards(), "https://asunnot.oikotie.fi/api/5.0/cards");
    assert_eq!(URLS::location(), "https://asunnot.oikotie.fi/api/5.0/location");
}
