//! Tests of the chat-command parsing and the watchlist services.

use apato::bot::bot::{parse_string_to_int_message, parse_subscribe_message, CommandParseError};
use apato::bot::bot_types::SubscriptionArgs;
use apato::bot::subscribe::check_args;
use apato::db::{watchlist, Store};
use apato::models::watchlist::Watchlist;
use apato::oikotie::oikotie::{LocationCard, LocationResponse};
use apato::services::watchlists::{delete, get_all_apartments, list, subscribe, ServiceError};

#[test]
fn test_parse_subscribe_message_only_watchlist() {
    let args = parse_subscribe_message("testlocation".to_string()).unwrap();
    assert_eq!(
        args,
        SubscriptionArgs {
            location: "testlocation".to_string(),
            target_yield: None,
            min_size: None,
            max_size: None
        },
    )
}

#[test]
fn test_parse_subscribe_message_without_declarations() {
    let args = parse_subscribe_message("testlocation 60 10".to_string()).unwrap();
    assert_eq!(
        args,
        SubscriptionArgs {
            location: "testlocation".to_string(),
            target_yield: None,
            min_size: None,
            max_size: None
        },
    );
}

#[test]
fn test_parse_subscribe_message_correct_format() {
    let args =
        parse_subscribe_message("testlocation yield=10 min_size=50 max_size=65".to_string())
            .unwrap();
    assert_eq!(
        args,
        SubscriptionArgs {
            location: "testlocation".to_string(),
            target_yield: Some(10),
            min_size: Some(50),
            max_size: Some(65)
        },
    )
}

#[test]
fn parse_subscribe_needs_location() {
    let err = parse_subscribe_message("".to_string()).unwrap_err();
    assert_eq!(err, CommandParseError::NoLocationGiven);
    let err = parse_subscribe_message(" leadingspace".to_string()).unwrap_err();
    assert_eq!(err, CommandParseError::NoLocationGiven);
    assert_eq!(err.message(), "No location given");
}

#[test]
fn parse_subscribe_respects_word_boundaries() {
    // "xmin_size=9" does not start at a word boundary, so only the
    // well-delimited later occurrence counts.
    let args =
        parse_subscribe_message("loc xmin_size=9 min_size=50".to_string()).unwrap();
    assert_eq!(args.min_size, Some(50));
    // A digit run glued to a word character does not count.
    let args2 = parse_subscribe_message("loc min_size=50x".to_string()).unwrap();
    assert_eq!(args2.min_size, None);
}

#[test]
fn parse_id_accepts_blank_and_numbers() {
    assert_eq!(parse_string_to_int_message("".to_string()).unwrap(), None);
    assert_eq!(parse_string_to_int_message("   ".to_string()).unwrap(), None);
    assert_eq!(parse_string_to_int_message(" 42 ".to_string()).unwrap(), Some(42));
    assert_eq!(parse_string_to_int_message("-7".to_string()).unwrap(), Some(-7));
    assert_eq!(
        parse_string_to_int_message("2147483647".to_string()).unwrap(),
        Some(i32::MAX)
    );
    assert_eq!(
        parse_string_to_int_message("-2147483648".to_string()).unwrap(),
        Some(i32::MIN)
    );
}

#[test]
fn parse_id_refuses_junk_and_overflow() {
    let err = parse_string_to_int_message("abc".to_string()).unwrap_err();
    assert_eq!(err, CommandParseError::InvalidId);
    assert_eq!(err.message(), "Unable to parse the supplied ID.");
    assert!(parse_string_to_int_message("2147483648".to_string()).is_err());
    assert!(parse_string_to_int_message("12 34".to_string()).is_err());
    assert!(parse_string_to_int_message("--3".to_string()).is_err());
}

#[test]
fn check_args_requires_everything() {
    let complete = SubscriptionArgs {
        location: "ullanlinna".to_string(),
        target_yield: Some(10),
        min_size: Some(50),
        max_size: Some(60),
    };
    assert!(check_args(complete.clone()).is_empty());
    let missing = SubscriptionArgs { target_yield: None, ..complete.clone() };
    let errors = check_args(missing);
    assert_eq!(errors, vec!["Missing value in args.".to_string()]);
    let empty_location = SubscriptionArgs { location: "".to_string(), ..complete };
    assert_eq!(check_args(empty_location).len(), 1);
}

fn location_response(card_id: u32) -> LocationResponse {
    LocationResponse {
        card: LocationCard { name: "Ullanlinna".to_string(), card_id, card_type: 4 },
    }
}

#[test]
fn subscribe_creates_then_updates() {
    let mut store = Store::new();
    let locations = vec![location_response(1645)];

    let created = subscribe(
        &mut store,
        99,
        "ullanlinna".to_string(),
        (50, 60),
        100_000,
        &locations,
        1000,
    )
    .unwrap();
    assert_eq!(created.chat_id, 99);
    assert_eq!(created.target_yield, Some(100_000));
    assert_eq!(created.location_id, 1645);
    assert_eq!(store.watchlists.len(), 1);

    // Subscribing again to the same location only updates the threshold.
    let updated = subscribe(
        &mut store,
        99,
        "Ullanlinna".to_string(),
        (50, 60),
        120_000,
        &locations,
        2000,
    )
    .unwrap();
    assert_eq!(updated.id, created.id);
    assert_eq!(updated.target_yield, Some(120_000));
    assert_eq!(store.watchlists.len(), 1);
    let row = watchlist::get_watchlist(&store, created.id).unwrap();
    assert_eq!(row.target_yield, Some(120_000));
}

#[test]
fn subscribe_without_location_is_refused() {
    let mut store = Store::new();
    let locations: Vec<LocationResponse> = Vec::new();
    let err = subscribe(
        &mut store,
        99,
        "nowhere".to_string(),
        (50, 60),
        100_000,
        &locations,
        1000,
    )
    .unwrap_err();
    assert_eq!(err, ServiceError::NoLocationFound);
    assert_eq!(err.message(), "Did not find any location with that query");
    assert!(store.watchlists.is_empty());
}

#[test]
fn delete_requires_ownership() {
    let mut store = Store::new();
    store.watchlists.push(Watchlist {
        id: 5,
        location_id: 1,
        location_level: 1,
        location_name: "x".to_string(),
        chat_id: 99,
        target_yield: Some(1),
        created_at: 0,
        updated_at: 0,
        target_size_min: None,
        target_size_max: None,
    });
    let err = delete(&mut store, 1, 5).unwrap_err();
    assert_eq!(err, ServiceError::WrongChat);
    assert_eq!(store.watchlists.len(), 1);
    delete(&mut store, 99, 5).unwrap();
    assert!(store.watchlists.is_empty());
    assert!(list(&store, 99).is_empty());
}

#[test]
fn apartment_queries_check_the_chat() {
    let store = Store::new();
    let err = get_all_apartments(&store, 99, 5).unwrap_err();
    assert_eq!(err, ServiceError::WrongChat);
}
