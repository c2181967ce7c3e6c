//! Tests of the store, the dedup index, and one producer pass over them.

use apato::consumer::apato_consumer::{pricing_needed, process_apartment, qualifies, PricingResult};
use apato::db::{apartment, apartment_watchlist, watchlist, Store};
use apato::models::apartment::InsertableApartment;
use apato::models::watchlist::{SizeTarget, Watchlist};
use apato::oikotie::oikotie::Location;
use apato::producer::apato_producer::find_apartments_to_send;

const DAY: i64 = 86_400;
const WINDOW: i64 = 5 * DAY;

fn test_watchlist(id: i32, target_yield: Option<i64>) -> Watchlist {
    Watchlist {
        id,
        location_id: 1645,
        location_level: 4,
        location_name: "Ullanlinna".to_string(),
        chat_id: 99,
        target_yield,
        created_at: 0,
        updated_at: 0,
        target_size_min: Some(40),
        target_size_max: Some(70),
    }
}

fn candidate(card_id: i32) -> InsertableApartment {
    InsertableApartment {
        card_id,
        location_id: Some(1645),
        location_level: Some(4),
        location_name: Some("Ullanlinna".to_string()),
        size: Some(55),
        rooms: Some(2),
        price: Some(100_000),
        additional_costs: Some(200),
        rent: Some(0),
        estimated_yield: Some(0),
        url: Some("https://example.invalid/1".to_string()),
    }
}

#[test]
fn insert_and_lookup() {
    let mut store = Store::new();
    apartment::insert(&mut store, candidate(7), 1000);
    let found = apartment::get_apartment_by_card_id(&store, 7).unwrap();
    assert_eq!(found.card_id, 7);
    assert_eq!(found.price, Some(100_000));
    assert_eq!(found.created_at, 1000);
    assert!(apartment::get_apartment_by_card_id(&store, 8).is_none());
}

#[test]
fn freshness_window() {
    let mut store = Store::new();
    apartment::insert(&mut store, candidate(7), 1000);
    assert!(apartment::apartment_is_fresh(&store, 7, 1000 + WINDOW - 1, WINDOW));
    assert!(!apartment::apartment_is_fresh(&store, 7, 1000 + WINDOW, WINDOW));
    assert!(!apartment::apartment_is_fresh(&store, 99, 1000, WINDOW));
}

#[test]
fn reprice_updates_rent_yield_and_timestamp() {
    let mut store = Store::new();
    apartment::insert(&mut store, candidate(7), 1000);
    apartment::update_yield(&mut store, 7, 850, 120_000, 2000);
    let row = apartment::get_apartment_by_card_id(&store, 7).unwrap();
    assert_eq!(row.rent, Some(850));
    assert_eq!(row.estimated_yield, Some(120_000));
    assert_eq!(row.updated_at, 2000);
    // Everything else is untouched.
    assert_eq!(row.price, Some(100_000));
    assert_eq!(row.created_at, 1000);
}

#[test]
fn link_lifecycle() {
    let mut store = Store::new();
    assert!(!apartment_watchlist::link_exists(&store, 1, 7));
    apartment_watchlist::insert(&mut store, 1, 7, 1000);
    assert!(apartment_watchlist::link_exists(&store, 1, 7));
    let w = test_watchlist(1, Some(100_000));
    let unsent = apartment_watchlist::get_unsent_apartments(&store, &w);
    assert_eq!(unsent, vec![7]);
    apartment_watchlist::set_to_read(&mut store, &w, 7, 2000);
    let unsent_after = apartment_watchlist::get_unsent_apartments(&store, &w);
    assert!(unsent_after.is_empty());
    let rows = apartment_watchlist::get_watchlist_apartment_connector(&store, &w, 7);
    assert_eq!(rows.len(), 1);
    assert!(rows[0].has_been_sent);
}

/// A new qualifying candidate (12% yield against a 10% target) creates
/// exactly one unsent dedup row, one notification target, and the row turns
/// sent after delivery.
#[test]
fn qualifying_candidate_is_notified_once() {
    let mut store = Store::new();
    let w = test_watchlist(1, Some(100_000));
    store.watchlists.push(w);
    let w = watchlist::get_watchlist(&store, 1).unwrap();

    assert!(pricing_needed(&store, 7, 1000, WINDOW));
    let priced = Some(PricingResult { rent: 800, estimated_yield: 120_000 });
    process_apartment(&mut store, &w, candidate(7), priced, 1000, WINDOW);

    let rows = apartment_watchlist::get_watchlist_apartment_connector(&store, &w, 7);
    assert_eq!(rows.len(), 1);
    assert!(!rows[0].has_been_sent);

    let to_send = find_apartments_to_send(&store, &w);
    assert_eq!(to_send.len(), 1);
    assert_eq!(to_send[0].card_id, 7);
    assert_eq!(to_send[0].estimated_yield, Some(120_000));

    apartment_watchlist::set_to_read(&mut store, &w, 7, 1500);
    let rows = apartment_watchlist::get_watchlist_apartment_connector(&store, &w, 7);
    assert_eq!(rows.len(), 1);
    assert!(rows[0].has_been_sent);
}

/// Running the pass repeatedly never creates a second dedup row for the pair.
#[test]
fn repeated_passes_never_duplicate_links() {
    let mut store = Store::new();
    let w = test_watchlist(1, Some(100_000));
    store.watchlists.push(w);
    let w = watchlist::get_watchlist(&store, 1).unwrap();

    for round in 0..5i64 {
        let now = 1000 + round;
        let priced = if pricing_needed(&store, 7, now, WINDOW) {
            Some(PricingResult { rent: 800, estimated_yield: 120_000 })
        } else {
            None
        };
        process_apartment(&mut store, &w, candidate(7), priced, now, WINDOW);
        let rows = apartment_watchlist::get_watchlist_apartment_connector(&store, &w, 7);
        assert_eq!(rows.len(), 1);
    }
    assert_eq!(store.apartments.len(), 1);
}

/// Once the notification went out, re-running the pass never re-enqueues one.
#[test]
fn sent_flag_is_monotone() {
    let mut store = Store::new();
    let w = test_watchlist(1, Some(100_000));
    store.watchlists.push(w);
    let w = watchlist::get_watchlist(&store, 1).unwrap();

    let priced = Some(PricingResult { rent: 800, estimated_yield: 120_000 });
    process_apartment(&mut store, &w, candidate(7), priced, 1000, WINDOW);
    apartment_watchlist::set_to_read(&mut store, &w, 7, 1500);

    // Stale again much later: the pass re-prices but never resets `sent`.
    let later = 1000 + 2 * WINDOW;
    assert!(pricing_needed(&store, 7, later, WINDOW));
    let priced2 = Some(PricingResult { rent: 900, estimated_yield: 130_000 });
    process_apartment(&mut store, &w, candidate(7), priced2, later, WINDOW);

    let rows = apartment_watchlist::get_watchlist_apartment_connector(&store, &w, 7);
    assert_eq!(rows.len(), 1);
    assert!(rows[0].has_been_sent);
    assert!(find_apartments_to_send(&store, &w).is_empty());
}

/// Within the freshness window a pass leaves the stored pricing untouched;
/// once stale, it re-prices and the row is fresh again.
#[test]
fn freshness_idempotence() {
    let mut store = Store::new();
    let w = test_watchlist(1, Some(100_000));
    store.watchlists.push(w);
    let w = watchlist::get_watchlist(&store, 1).unwrap();

    let priced = Some(PricingResult { rent: 800, estimated_yield: 120_000 });
    process_apartment(&mut store, &w, candidate(7), priced, 1000, WINDOW);

    // Fresh: no pricing handed in, nothing changes.
    let soon = 1000 + DAY;
    assert!(!pricing_needed(&store, 7, soon, WINDOW));
    process_apartment(&mut store, &w, candidate(7), None, soon, WINDOW);
    let row = apartment::get_apartment_by_card_id(&store, 7).unwrap();
    assert_eq!(row.rent, Some(800));
    assert_eq!(row.estimated_yield, Some(120_000));
    assert_eq!(row.updated_at, 1000);

    // Stale: the pass re-prices and resets the freshness timestamp.
    let later = 1000 + WINDOW;
    assert!(pricing_needed(&store, 7, later, WINDOW));
    let priced2 = Some(PricingResult { rent: 900, estimated_yield: 110_000 });
    process_apartment(&mut store, &w, candidate(7), priced2, later, WINDOW);
    let row = apartment::get_apartment_by_card_id(&store, 7).unwrap();
    assert_eq!(row.rent, Some(900));
    assert_eq!(row.estimated_yield, Some(110_000));
    assert_eq!(row.updated_at, later);
    assert!(apartment::apartment_is_fresh(&store, 7, later, WINDOW));
}

#[test]
fn non_qualifying_candidate_gets_no_link() {
    let mut store = Store::new();
    let w = test_watchlist(1, Some(100_000));
    store.watchlists.push(w);
    let w = watchlist::get_watchlist(&store, 1).unwrap();

    let priced = Some(PricingResult { rent: 500, estimated_yield: 80_000 });
    process_apartment(&mut store, &w, candidate(7), priced, 1000, WINDOW);
    assert!(!apartment_watchlist::link_exists(&store, 1, 7));
    assert_eq!(store.apartments.len(), 1);
}

#[test]
fn qualification_meets_or_exceeds() {
    assert!(qualifies(Some(100_000), Some(100_000)));
    assert!(qualifies(Some(100_001), Some(100_000)));
    assert!(!qualifies(Some(99_999), Some(100_000)));
    assert!(qualifies(None, None));
    assert!(!qualifies(None, Some(1)));
}
