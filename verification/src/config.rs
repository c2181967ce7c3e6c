//! Process configuration for the pipeline and the yield engine.

use vstd::prelude::*;

verus! {

/// Configuration bundle shared by the scheduler, the workers and the yield
/// engine. Percentages are whole percent values; money amounts are in euros.
#[derive(Debug, Clone)]
pub struct Config {
    pub db_path: String,
    pub telegram_bot_token: String,
    pub consumer_timeout_seconds: u32,
    pub producer_timeout_seconds: u32,
    pub consumer_thread_limit: u32,
    pub loan_duration_years: u32,
    pub down_payment_percentage: u32,
    pub avg_vacant_month_per_year: u32,
    pub avg_estimated_rent_increase_per_year: u32,
    pub estimated_yearly_apartment_price_increase: u32,
    pub avg_renovation_costs: u32,
    pub tax: u32,
    pub ml_service_url: Option<String>,
    pub http_bind_address: Option<String>,
}

/// The defaults the test suite works with: a 25-year loan, 20% down payment,
/// 30% tax, 5000 euro renovation budget, 1% yearly rent growth, 2% yearly
/// price growth and one vacant month per year.
pub fn create_test_config() -> (c: Config)
    ensures
        c.consumer_timeout_seconds == 60,
        c.producer_timeout_seconds == 60,
        c.consumer_thread_limit == 10,
        c.loan_duration_years == 25,
        c.down_payment_percentage == 20,
        c.avg_vacant_month_per_year == 1,
        c.avg_estimated_rent_increase_per_year == 1,
        c.estimated_yearly_apartment_price_increase == 2,
        c.avg_renovation_costs == 5000,
        c.tax == 30,
        c.ml_service_url is None,
        c.http_bind_address is None,
{
    Config {
        db_path: String::from_str("xxx"),
        telegram_bot_token: String::from_str("xxx"),
        consumer_timeout_seconds: 60,
        producer_timeout_seconds: 60,
        consumer_thread_limit: 10,
        loan_duration_years: 25,
        down_payment_percentage: 20,
        avg_vacant_month_per_year: 1,
        avg_estimated_rent_increase_per_year: 1,
        estimated_yearly_apartment_price_increase: 2,
        avg_renovation_costs: 5000,
        tax: 30,
        ml_service_url: None,
        http_bind_address: None,
    }
}

} // verus!
