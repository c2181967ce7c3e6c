//! Dedup-index operations: the sole source of truth for "has this listing
//! already triggered a notification for this watchlist".

use vstd::prelude::*;
use vstd::pervasive::VecAdditionalExecFns;

use crate::db::{
    links_unique, spec_has_link, spec_mark_sent, spec_new_link,
    spec_unsent_cards, Store,
};
use crate::models::watchlist::Watchlist;
use crate::models::watchlist_apartment_index_model::WatchlistApartmentIndex;

verus! {

/// The rows that carry one (watchlist, card) pair; at most one in a
/// well-formed store.
pub open spec fn spec_pair_links(
    ls: Seq<WatchlistApartmentIndex>,
    watchlist_id: i32,
    card_id: i32,
) -> Seq<WatchlistApartmentIndex>
    decreases ls.len(),
{
    if ls.len() == 0 {
        Seq::empty()
    } else {
        let rest = spec_pair_links(ls.drop_last(), watchlist_id, card_id);
        if ls.last().watchlist_id == watchlist_id && ls.last().card_id == card_id {
            rest.push(ls.last())
        } else {
            rest
        }
    }
}

/// Creates the index row for a pair that has none yet, with `sent` false.
pub fn insert(store: &mut Store, target_watchlist_id: i32, target_card_id: i32, now: i64)
    requires
        old(store).wf(),
        !spec_has_link(old(store).links@, target_watchlist_id, target_card_id),
        old(store).next_link_id < i32::MAX,
    ensures
        final(store).wf(),
        final(store).links@ == old(store).links@.push(
            spec_new_link(old(store).next_link_id, target_watchlist_id, target_card_id, now),
        ),
        final(store).apartments@ == old(store).apartments@,
        final(store).watchlists@ == old(store).watchlists@,
        final(store).next_link_id == old(store).next_link_id + 1,
        final(store).next_apartment_id == old(store).next_apartment_id,
        final(store).next_watchlist_id == old(store).next_watchlist_id,
{
    let row = WatchlistApartmentIndex {
        id: store.next_link_id,
        watchlist_id: target_watchlist_id,
        card_id: target_card_id,
        has_been_sent: false,
        created_at: now,
        updated_at: now,
    };
    store.links.push(row);
    store.next_link_id = store.next_link_id + 1;
}

/// Whether the index holds a row for this pair, sent or not.
pub fn link_exists(store: &Store, target_watchlist_id: i32, target_card_id: i32) -> (r: bool)
    ensures
        r == spec_has_link(store.links@, target_watchlist_id, target_card_id),
{
    let n = store.links.len();
    let mut i: usize = 0;
    while i < n
        invariant
            n == store.links@.len(),
            0 <= i <= n,
            forall|k: int|
                0 <= k < i ==> !(store.links@[k].watchlist_id == target_watchlist_id
                    && store.links@[k].card_id == target_card_id),
        decreases n - i,
    {
        if store.links[i].watchlist_id == target_watchlist_id && store.links[i].card_id
            == target_card_id {
            return true;
        }
        i += 1;
    }
    false
}

/// Flips the pair's `sent` flag to true and touches its timestamp. The flip
/// is never undone by any store operation.
pub fn set_to_read(store: &mut Store, watchlist: &Watchlist, target_card_id: i32, now: i64)
    requires
        old(store).wf(),
    ensures
        final(store).wf(),
        final(store).links@ == spec_mark_sent(
            old(store).links@,
            watchlist.id,
            target_card_id,
            now,
        ),
        final(store).apartments@ == old(store).apartments@,
        final(store).watchlists@ == old(store).watchlists@,
        final(store).next_apartment_id == old(store).next_apartment_id,
        final(store).next_link_id == old(store).next_link_id,
        final(store).next_watchlist_id == old(store).next_watchlist_id,
{
    let ghost ls0 = store.links@;
    let ghost target = spec_mark_sent(ls0, watchlist.id, target_card_id, now);
    let n = store.links.len();
    let mut i: usize = 0;
    while i < n
        invariant
            n == store.links@.len(),
            0 <= i <= n,
            ls0.len() == n,
            target == spec_mark_sent(ls0, watchlist.id, target_card_id, now),
            forall|k: int| i <= k < n ==> store.links@[k] == ls0[k],
            forall|k: int| 0 <= k < i ==> store.links@[k] == target[k],
            store.apartments@ == old(store).apartments@,
            store.watchlists@ == old(store).watchlists@,
            store.next_apartment_id == old(store).next_apartment_id,
            store.next_link_id == old(store).next_link_id,
            store.next_watchlist_id == old(store).next_watchlist_id,
        decreases n - i,
    {
        if store.links[i].watchlist_id == watchlist.id && store.links[i].card_id == target_card_id {
            let mut row = store.links[i];
            row.has_been_sent = true;
            row.updated_at = now;
            store.links.set(i, row);
        }
        i += 1;
    }
    proof {
        assert(store.links@ =~= target);
        assert(links_unique(store.links@)) by {
            assert(forall|k: int|
                0 <= k < target.len() ==> target[k].watchlist_id == ls0[k].watchlist_id
                    && target[k].card_id == ls0[k].card_id);
        }
    }
}

/// The card ids of the watchlist's index rows that still await a
/// notification, in row order.
pub fn get_unsent_apartments(store: &Store, watchlist: &Watchlist) -> (r: Vec<i32>)
    ensures
        r@ == spec_unsent_cards(store.links@, watchlist.id),
{
    let n = store.links.len();
    let mut r: Vec<i32> = Vec::new();
    let mut i: usize = 0;
    while i < n
        invariant
            n == store.links@.len(),
            0 <= i <= n,
            r@ == spec_unsent_cards(store.links@.take(i as int), watchlist.id),
        decreases n - i,
    {
        proof {
            assert(store.links@.take(i + 1).drop_last() =~= store.links@.take(i as int));
            assert(store.links@.take(i + 1).last() == store.links@[i as int]);
        }
        if store.links[i].watchlist_id == watchlist.id && !store.links[i].has_been_sent {
            r.push(store.links[i].card_id);
        }
        i += 1;
    }
    proof {
        assert(store.links@.take(n as int) =~= store.links@);
    }
    r
}

/// All index rows for one (watchlist, card) pair, in row order.
pub fn get_watchlist_apartment_connector(
    store: &Store,
    watchlist: &Watchlist,
    target_card_id: i32,
) -> (r: Vec<WatchlistApartmentIndex>)
    ensures
        r@ == spec_pair_links(store.links@, watchlist.id, target_card_id),
{
    let n = store.links.len();
    let mut r: Vec<WatchlistApartmentIndex> = Vec::new();
    let mut i: usize = 0;
    while i < n
        invariant
            n == store.links@.len(),
            0 <= i <= n,
            r@ == spec_pair_links(store.links@.take(i as int), watchlist.id, target_card_id),
        decreases n - i,
    {
        proof {
            assert(store.links@.take(i + 1).drop_last() =~= store.links@.take(i as int));
            assert(store.links@.take(i + 1).last() == store.links@[i as int]);
        }
        if store.links[i].watchlist_id == watchlist.id && store.links[i].card_id == target_card_id {
            r.push(store.links[i]);
        }
        i += 1;
    }
    proof {
        assert(store.links@.take(n as int) =~= store.links@);
    }
    r
}

} // verus!
