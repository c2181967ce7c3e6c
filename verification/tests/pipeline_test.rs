//! Tests of the task queue, the shutdown coordinator and the producer's task
//! planning.

use apato::consumer::apato_consumer::get_target_size;
use apato::db::{apartment, apartment_watchlist, Store};
use apato::models::apartment::InsertableApartment;
use apato::models::watchlist::Watchlist;
use apato::producer::apato_producer::{handle_update_message_tasks, handle_watchlists_tasks};
use apato::producer::pricing_producer::PricingProducer;
use apato::{Coordinator, MessageTask, TaskType};

fn watchlist_fixture(id: i32) -> Watchlist {
    Watchlist {
        id,
        location_id: 1645,
        location_level: 4,
        location_name: "Ullanlinna".to_string(),
        chat_id: 99,
        target_yield: Some(100_000),
        created_at: 0,
        updated_at: 0,
        target_size_min: Some(40),
        target_size_max: Some(70),
    }
}

fn refresh_task(id: i32) -> MessageTask {
    MessageTask { task_type: TaskType::UpdateWatchlist, watchlist: watchlist_fixture(id), apartment: None }
}

/// The shutdown signal mid-stream: tasks already queued still drain, nothing
/// new is accepted, and the process may exit only once drained.
#[test]
fn shutdown_drains_and_refuses_new_tasks() {
    let mut c = Coordinator::new();
    assert!(c.scheduler_should_run());
    assert!(c.submit(refresh_task(1)));
    assert!(c.submit(refresh_task(2)));

    c.signal_shutdown();
    assert!(!c.scheduler_should_run());
    assert!(!c.submit(refresh_task(3)));
    assert!(!c.should_exit());

    let first = c.next_task().unwrap();
    assert_eq!(first.watchlist.id, 1);
    let second = c.next_task().unwrap();
    assert_eq!(second.watchlist.id, 2);
    assert!(c.next_task().is_none());
    assert!(c.drained());
    assert!(c.should_exit());
}

#[test]
fn queue_hands_tasks_out_in_order() {
    let mut c = Coordinator::new();
    assert!(c.submit(refresh_task(5)));
    assert!(c.submit(refresh_task(6)));
    assert_eq!(c.next_task().unwrap().watchlist.id, 5);
    assert!(c.submit(refresh_task(7)));
    assert_eq!(c.next_task().unwrap().watchlist.id, 6);
    assert_eq!(c.next_task().unwrap().watchlist.id, 7);
    assert!(!c.should_exit());
}

#[test]
fn one_refresh_task_per_watchlist() {
    let mut store = Store::new();
    store.watchlists.push(watchlist_fixture(1));
    store.watchlists.push(watchlist_fixture(2));
    let tasks = handle_watchlists_tasks(&store);
    assert_eq!(tasks.len(), 2);
    assert!(matches!(tasks[0].task_type, TaskType::UpdateWatchlist));
    assert_eq!(tasks[0].watchlist.id, 1);
    assert!(tasks[0].apartment.is_none());
    assert_eq!(tasks[1].watchlist.id, 2);
}

#[test]
fn one_send_task_per_unsent_listing() {
    let mut store = Store::new();
    store.watchlists.push(watchlist_fixture(1));
    store.watchlists.push(watchlist_fixture(2));
    apartment::insert(
        &mut store,
        InsertableApartment {
            card_id: 7,
            location_id: Some(1645),
            location_level: Some(4),
            location_name: Some("Ullanlinna".to_string()),
            size: Some(55),
            rooms: Some(2),
            price: Some(100_000),
            additional_costs: Some(200),
            rent: Some(800),
            estimated_yield: Some(120_000),
            url: None,
        },
        1000,
    );
    apartment_watchlist::insert(&mut store, 1, 7, 1000);
    apartment_watchlist::insert(&mut store, 2, 7, 1000);
    let w2 = watchlist_fixture(2);
    apartment_watchlist::set_to_read(&mut store, &w2, 7, 1500);

    let tasks = handle_update_message_tasks(&store);
    assert_eq!(tasks.len(), 1);
    assert!(matches!(tasks[0].task_type, TaskType::SendMessage));
    assert_eq!(tasks[0].watchlist.id, 1);
    assert_eq!(tasks[0].apartment.as_ref().unwrap().card_id, 7);
}

#[test]
fn pricing_plan_lists_every_watchlist() {
    let mut store = Store::new();
    store.watchlists.push(watchlist_fixture(3));
    store.watchlists.push(watchlist_fixture(4));
    let plan = PricingProducer::plan_run(&store);
    assert_eq!(plan.len(), 2);
    assert_eq!(plan[0].id, 3);
    assert_eq!(plan[1].id, 4);
}

#[test]
fn size_target_packs_bounds() {
    let t = get_target_size(Some(40), None);
    assert_eq!(t.min, Some(40));
    assert_eq!(t.max, None);
    let e = apato::models::watchlist::SizeTarget::empty();
    assert_eq!(e.min, None);
    assert_eq!(e.max, None);
}
