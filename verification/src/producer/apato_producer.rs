//! The producer: on each scheduler tick it turns the store's state into
//! queued tasks — one refresh task per watchlist, and one notification task
//! per unsent qualifying listing.

use vstd::prelude::*;

use crate::db::{
    spec_apartment, spec_has_apartment, spec_unsent_cards, Store,
};
use crate::db::apartment::aps_data_eq;
use crate::models::apartment::Apartment;
use crate::models::watchlist::Watchlist;
use crate::{MessageTask, TaskType};

verus! {

/// A marker for the scheduler loop; the work itself is in the free functions.
pub struct Producer;

/// The listings a watchlist's unsent card ids name, in index order; card ids
/// without a listing row are dropped.
pub open spec fn spec_to_send(aps: Seq<Apartment>, cards: Seq<i32>) -> Seq<Apartment>
    decreases cards.len(),
{
    if cards.len() == 0 {
        Seq::empty()
    } else {
        let rest = spec_to_send(aps, cards.drop_last());
        if spec_has_apartment(aps, cards.last()) {
            rest.push(spec_apartment(aps, cards.last()))
        } else {
            rest
        }
    }
}

/// The notification tasks one watchlist is owed: one per unsent listing.
pub open spec fn spec_tasks_for(
    aps: Seq<Apartment>,
    to_send: Seq<Apartment>,
    w: Watchlist,
) -> Seq<MessageTask>
    decreases to_send.len(),
{
    if to_send.len() == 0 {
        Seq::empty()
    } else {
        spec_tasks_for(aps, to_send.drop_last(), w).push(
            MessageTask { task_type: TaskType::SendMessage, watchlist: w, apartment: Some(to_send.last()) },
        )
    }
}

/// Pointwise task equality, up to the identity of the heap-allocated strings.
pub open spec fn tasks_data_eq(a: Seq<MessageTask>, b: Seq<MessageTask>) -> bool {
    &&& a.len() == b.len()
    &&& forall|i: int| 0 <= i < a.len() ==> a[i].data_eq(b[i])
}

/// One refresh task per watchlist, in row order.
pub fn handle_watchlists_tasks(store: &Store) -> (r: Vec<MessageTask>)
    ensures
        r@.len() == store.watchlists@.len(),
        forall|k: int|
            0 <= k < r@.len() ==> (#[trigger] r@[k]).task_type == TaskType::UpdateWatchlist
                && r@[k].watchlist.data_eq(store.watchlists@[k]) && r@[k].apartment is None,
{
    let n = store.watchlists.len();
    let mut r: Vec<MessageTask> = Vec::new();
    let mut i: usize = 0;
    while i < n
        invariant
            n == store.watchlists@.len(),
            0 <= i <= n,
            r@.len() == i,
            forall|k: int|
                0 <= k < i ==> (#[trigger] r@[k]).task_type == TaskType::UpdateWatchlist
                    && r@[k].watchlist.data_eq(store.watchlists@[k]) && r@[k].apartment is None,
        decreases n - i,
    {
        r.push(
            MessageTask {
                task_type: TaskType::UpdateWatchlist,
                watchlist: store.watchlists[i].clone(),
                apartment: None,
            },
        );
        i += 1;
    }
    r
}

/// Finds the watchlist's listings whose notification is still owed: the
/// unsent index rows, resolved to their listing rows.
pub fn find_apartments_to_send(store: &Store, watchlist: &Watchlist) -> (r: Vec<Apartment>)
    requires
        store.wf(),
    ensures
        aps_data_eq(
            r@,
            spec_to_send(store.apartments@, spec_unsent_cards(store.links@, watchlist.id)),
        ),
{
    let new_targets = crate::db::apartment_watchlist::get_unsent_apartments(store, watchlist);
    let n = new_targets.len();
    let mut aps: Vec<Apartment> = Vec::new();
    let mut i: usize = 0;
    while i < n
        invariant
            store.wf(),
            n == new_targets@.len(),
            0 <= i <= n,
            aps_data_eq(aps@, spec_to_send(store.apartments@, new_targets@.take(i as int))),
        decreases n - i,
    {
        proof {
            assert(new_targets@.take(i + 1).drop_last() =~= new_targets@.take(i as int));
            assert(new_targets@.take(i + 1).last() == new_targets@[i as int]);
        }
        let ap = crate::db::apartment::get_apartment_by_card_id(store, new_targets[i]);
        if let Some(apartment) = ap {
            aps.push(apartment);
        }
        i += 1;
    }
    proof {
        assert(new_targets@.take(n as int) =~= new_targets@);
    }
    aps
}

/// One notification task per watchlist and unsent listing, watchlists in row
/// order.
pub fn handle_update_message_tasks(store: &Store) -> (r: Vec<MessageTask>)
    requires
        store.wf(),
    ensures
        tasks_data_eq(r@, spec_all_send_tasks(store, store.watchlists@.len() as int)),
{
    let n = store.watchlists.len();
    let mut r: Vec<MessageTask> = Vec::new();
    let mut i: usize = 0;
    while i < n
        invariant
            store.wf(),
            n == store.watchlists@.len(),
            0 <= i <= n,
            tasks_data_eq(r@, spec_all_send_tasks(store, i as int)),
        decreases n - i,
    {
        let watchlist = store.watchlists[i].clone();
        let to_send = find_apartments_to_send(store, &watchlist);
        let m = to_send.len();
        let ghost ideal_to_send = spec_to_send(
            store.apartments@,
            spec_unsent_cards(store.links@, store.watchlists@[i as int].id),
        );
        let ghost ideal = spec_tasks_for(store.apartments@, ideal_to_send, store.watchlists@[i as int]);
        proof {
            lemma_tasks_for_len(store.apartments@, ideal_to_send, store.watchlists@[i as int]);
        }
        let mut j: usize = 0;
        while j < m
            invariant
                store.wf(),
                m == to_send@.len(),
                ideal.len() == m,
                0 <= j <= m,
                aps_data_eq(to_send@, ideal_to_send),
                ideal == spec_tasks_for(
                    store.apartments@,
                    ideal_to_send,
                    store.watchlists@[i as int],
                ),
                watchlist.data_eq(store.watchlists@[i as int]),
                tasks_data_eq(r@, spec_all_send_tasks(store, i as int) + ideal.take(j as int)),
                0 <= i < n,
                n == store.watchlists@.len(),
            decreases m - j,
        {
            proof {
                lemma_tasks_for_index(store.apartments@, ideal_to_send, store.watchlists@[i as int], j as int);
            }
            r.push(
                MessageTask {
                    task_type: TaskType::SendMessage,
                    watchlist: watchlist.clone(),
                    apartment: Some(to_send[j].clone()),
                },
            );
            proof {
                assert(ideal.take(j + 1).drop_last() =~= ideal.take(j as int));
            }
            j += 1;
        }
        proof {
            assert(ideal.take(m as int) =~= ideal);
            lemma_all_send_tasks_step(store, i as int);
        }
        i += 1;
    }
    r
}

/// The ideal task list over the first `upto` watchlists.
pub open spec fn spec_all_send_tasks(store: &Store, upto: int) -> Seq<MessageTask>
    decreases upto,
{
    if upto <= 0 {
        Seq::empty()
    } else {
        spec_all_send_tasks(store, upto - 1) + spec_tasks_for(
            store.apartments@,
            spec_to_send(
                store.apartments@,
                spec_unsent_cards(store.links@, store.watchlists@[upto - 1].id),
            ),
            store.watchlists@[upto - 1],
        )
    }
}

/// Unfolds one step of the ideal task list.
proof fn lemma_all_send_tasks_step(store: &Store, i: int)
    requires
        0 <= i < store.watchlists@.len(),
    ensures
        spec_all_send_tasks(store, i + 1) == spec_all_send_tasks(store, i) + spec_tasks_for(
            store.apartments@,
            spec_to_send(
                store.apartments@,
                spec_unsent_cards(store.links@, store.watchlists@[i].id),
            ),
            store.watchlists@[i],
        ),
{
}

/// Indexes into the per-watchlist ideal task list.
proof fn lemma_tasks_for_index(aps: Seq<Apartment>, to_send: Seq<Apartment>, w: Watchlist, j: int)
    requires
        0 <= j < to_send.len(),
    ensures
        spec_tasks_for(aps, to_send, w).len() == to_send.len(),
        spec_tasks_for(aps, to_send, w)[j] == (MessageTask {
            task_type: TaskType::SendMessage,
            watchlist: w,
            apartment: Some(to_send[j]),
        }),
        spec_tasks_for(aps, to_send, w).take(j) == spec_tasks_for(aps, to_send.take(j), w),
        spec_tasks_for(aps, to_send, w).take(j + 1) == spec_tasks_for(aps, to_send.take(j + 1), w),
    decreases to_send.len(),
{
    lemma_tasks_for_len(aps, to_send, w);
    if j == to_send.len() - 1 {
        assert(to_send.take(j + 1) =~= to_send);
        lemma_tasks_for_len(aps, to_send.drop_last(), w);
        assert(to_send.take(j) =~= to_send.drop_last());
        assert(spec_tasks_for(aps, to_send, w).take(j) =~= spec_tasks_for(aps, to_send.drop_last(), w));
        assert(spec_tasks_for(aps, to_send, w).take(j + 1) =~= spec_tasks_for(aps, to_send, w));
    } else {
        lemma_tasks_for_index(aps, to_send.drop_last(), w, j);
        lemma_tasks_for_len(aps, to_send.drop_last(), w);
        assert(to_send.drop_last()[j] == to_send[j]);
        assert(to_send.drop_last().take(j) =~= to_send.take(j));
        assert(to_send.drop_last().take(j + 1) =~= to_send.take(j + 1));
        assert(spec_tasks_for(aps, to_send, w).take(j) =~= spec_tasks_for(
            aps,
            to_send.drop_last(),
            w,
        ).take(j));
        assert(spec_tasks_for(aps, to_send, w).take(j + 1) =~= spec_tasks_for(
            aps,
            to_send.drop_last(),
            w,
        ).take(j + 1));
    }
}

/// The ideal task list is as long as the listing list it comes from.
proof fn lemma_tasks_for_len(aps: Seq<Apartment>, to_send: Seq<Apartment>, w: Watchlist)
    ensures
        spec_tasks_for(aps, to_send, w).len() == to_send.len(),
    decreases to_send.len(),
{
    if to_send.len() > 0 {
        lemma_tasks_for_len(aps, to_send.drop_last(), w);
    }
}

} // verus!
