//! The persistent store, modelled in memory.
//!
//! The store keeps watchlists, listings and the dedup index as plain rows.
//! Well-formedness (`Store::wf`) pins the invariants the pipeline relies on:
//! listings are unique per `card_id`, index rows are unique per
//! `(watchlist_id, card_id)` pair, and watchlists are unique per id.

pub mod apartment;
pub mod apartment_watchlist;
pub mod watchlist;

use vstd::prelude::*;

use crate::models::apartment::Apartment;
use crate::models::watchlist::Watchlist;
use crate::models::watchlist_apartment_index_model::WatchlistApartmentIndex;

verus! {

/// Durable state: watchlists, priced listings, and the dedup index.
/// The `next_*` counters stand in for the database's id sequences.
#[derive(Debug)]
pub struct Store {
    pub watchlists: Vec<Watchlist>,
    pub apartments: Vec<Apartment>,
    pub links: Vec<WatchlistApartmentIndex>,
    pub next_watchlist_id: i32,
    pub next_apartment_id: i32,
    pub next_link_id: i32,
}

/// The part of the store the producer/consumer pass reads and writes:
/// everything but the watchlists themselves.
pub ghost struct StoreModel {
    pub apartments: Seq<Apartment>,
    pub links: Seq<WatchlistApartmentIndex>,
    pub next_apartment_id: int,
    pub next_link_id: int,
}

impl StoreModel {
    pub open spec fn wf(self) -> bool {
        &&& apartments_unique(self.apartments)
        &&& links_unique(self.links)
    }
}

impl Store {
    pub open spec fn index_model(&self) -> StoreModel {
        StoreModel {
            apartments: self.apartments@,
            links: self.links@,
            next_apartment_id: self.next_apartment_id as int,
            next_link_id: self.next_link_id as int,
        }
    }

    pub open spec fn wf(&self) -> bool {
        &&& self.index_model().wf()
        &&& watchlists_unique(self.watchlists@)
        &&& watchlist_ids_bounded(self.watchlists@, self.next_watchlist_id as int)
    }

    /// An empty store, as a fresh deployment starts with.
    pub fn new() -> (s: Store)
        ensures
            s.wf(),
            s.watchlists@.len() == 0,
            s.apartments@.len() == 0,
            s.links@.len() == 0,
            s.next_watchlist_id == 1,
            s.next_apartment_id == 1,
            s.next_link_id == 1,
    {
        Store {
            watchlists: Vec::new(),
            apartments: Vec::new(),
            links: Vec::new(),
            next_watchlist_id: 1,
            next_apartment_id: 1,
            next_link_id: 1,
        }
    }
}

// ---------------------------------------------------------------------------
// Listings
// ---------------------------------------------------------------------------
pub open spec fn apartments_unique(aps: Seq<Apartment>) -> bool {
    forall|i: int, j: int|
        0 <= i < j < aps.len() ==> aps[i].card_id != aps[j].card_id
}

pub open spec fn spec_has_apartment(aps: Seq<Apartment>, card_id: i32) -> bool {
    exists|i: int| 0 <= i < aps.len() && aps[i].card_id == card_id
}

pub open spec fn apartment_index(aps: Seq<Apartment>, card_id: i32) -> int {
    choose|i: int| 0 <= i < aps.len() && aps[i].card_id == card_id
}

/// The row a `card_id` names; meaningful when `spec_has_apartment` holds.
pub open spec fn spec_apartment(aps: Seq<Apartment>, card_id: i32) -> Apartment {
    aps[apartment_index(aps, card_id)]
}

/// A listing is fresh when its last update lies within the freshness window.
pub open spec fn spec_is_fresh(aps: Seq<Apartment>, card_id: i32, now: i64, window: i64) -> bool {
    &&& spec_has_apartment(aps, card_id)
    &&& spec_apartment(aps, card_id).updated_at as int > now as int - window as int
}

/// Re-pricing a listing: new rent, new yield, fresh timestamp; every other
/// field and every other row kept.
pub open spec fn spec_update_rent_yield(
    aps: Seq<Apartment>,
    card_id: i32,
    rent: i32,
    new_yield: i64,
    now: i64,
) -> Seq<Apartment> {
    Seq::new(
        aps.len(),
        |i: int|
            if aps[i].card_id == card_id {
                Apartment {
                    rent: Some(rent),
                    estimated_yield: Some(new_yield),
                    updated_at: now,
                    ..aps[i]
                }
            } else {
                aps[i]
            },
    )
}

/// The stored row a candidate becomes on insertion.
pub open spec fn spec_apartment_row(
    a: crate::models::apartment::InsertableApartment,
    id: i32,
    now: i64,
) -> Apartment {
    Apartment {
        id: id,
        card_id: a.card_id,
        location_id: a.location_id,
        location_level: a.location_level,
        location_name: a.location_name,
        size: a.size,
        rooms: a.rooms,
        price: a.price,
        additional_costs: a.additional_costs,
        rent: a.rent,
        estimated_yield: a.estimated_yield,
        url: a.url,
        created_at: now,
        updated_at: now,
    }
}

// ---------------------------------------------------------------------------
// Dedup index
// ---------------------------------------------------------------------------
pub open spec fn links_unique(ls: Seq<WatchlistApartmentIndex>) -> bool {
    forall|i: int, j: int|
        0 <= i < j < ls.len() ==> !(ls[i].watchlist_id == ls[j].watchlist_id && ls[i].card_id
            == ls[j].card_id)
}

pub open spec fn spec_has_link(
    ls: Seq<WatchlistApartmentIndex>,
    watchlist_id: i32,
    card_id: i32,
) -> bool {
    exists|i: int|
        0 <= i < ls.len() && ls[i].watchlist_id == watchlist_id && ls[i].card_id == card_id
}

pub open spec fn link_index(ls: Seq<WatchlistApartmentIndex>, watchlist_id: i32, card_id: i32) -> int {
    choose|i: int|
        0 <= i < ls.len() && ls[i].watchlist_id == watchlist_id && ls[i].card_id == card_id
}

pub open spec fn spec_link(
    ls: Seq<WatchlistApartmentIndex>,
    watchlist_id: i32,
    card_id: i32,
) -> WatchlistApartmentIndex {
    ls[link_index(ls, watchlist_id, card_id)]
}

/// Has this pair already triggered a notification?
pub open spec fn spec_link_sent(
    ls: Seq<WatchlistApartmentIndex>,
    watchlist_id: i32,
    card_id: i32,
) -> bool {
    spec_has_link(ls, watchlist_id, card_id) && spec_link(ls, watchlist_id, card_id).has_been_sent
}

/// A fresh index row: not sent yet.
pub open spec fn spec_new_link(id: i32, watchlist_id: i32, card_id: i32, now: i64) -> WatchlistApartmentIndex {
    WatchlistApartmentIndex {
        id: id,
        watchlist_id: watchlist_id,
        card_id: card_id,
        has_been_sent: false,
        created_at: now,
        updated_at: now,
    }
}

/// Flipping a pair's `sent` flag to true; every other field and row kept.
pub open spec fn spec_mark_sent(
    ls: Seq<WatchlistApartmentIndex>,
    watchlist_id: i32,
    card_id: i32,
    now: i64,
) -> Seq<WatchlistApartmentIndex> {
    Seq::new(
        ls.len(),
        |i: int|
            if ls[i].watchlist_id == watchlist_id && ls[i].card_id == card_id {
                WatchlistApartmentIndex { has_been_sent: true, updated_at: now, ..ls[i] }
            } else {
                ls[i]
            },
    )
}

/// The card ids of a watchlist's unsent index rows, in row order.
pub open spec fn spec_unsent_cards(ls: Seq<WatchlistApartmentIndex>, watchlist_id: i32) -> Seq<i32>
    decreases ls.len(),
{
    if ls.len() == 0 {
        Seq::empty()
    } else {
        let rest = spec_unsent_cards(ls.drop_last(), watchlist_id);
        if ls.last().watchlist_id == watchlist_id && !ls.last().has_been_sent {
            rest.push(ls.last().card_id)
        } else {
            rest
        }
    }
}

/// How many index rows a (watchlist, card) pair has.
pub open spec fn count_links(ls: Seq<WatchlistApartmentIndex>, watchlist_id: i32, card_id: i32) -> nat
    decreases ls.len(),
{
    if ls.len() == 0 {
        0
    } else {
        count_links(ls.drop_last(), watchlist_id, card_id) + if ls.last().watchlist_id
            == watchlist_id && ls.last().card_id == card_id {
            1nat
        } else {
            0nat
        }
    }
}

// ---------------------------------------------------------------------------
// Watchlists
// ---------------------------------------------------------------------------
/// Every stored watchlist id lies below the id counter, so a fresh id is new.
pub open spec fn watchlist_ids_bounded(ws: Seq<Watchlist>, next: int) -> bool {
    forall|i: int| 0 <= i < ws.len() ==> ws[i].id < next
}

pub open spec fn watchlists_unique(ws: Seq<Watchlist>) -> bool {
    forall|i: int, j: int| 0 <= i < j < ws.len() ==> ws[i].id != ws[j].id
}

pub open spec fn spec_has_watchlist(ws: Seq<Watchlist>, id: i32) -> bool {
    exists|i: int| 0 <= i < ws.len() && ws[i].id == id
}

pub open spec fn watchlist_index(ws: Seq<Watchlist>, id: i32) -> int {
    choose|i: int| 0 <= i < ws.len() && ws[i].id == id
}

pub open spec fn spec_watchlist(ws: Seq<Watchlist>, id: i32) -> Watchlist {
    ws[watchlist_index(ws, id)]
}

// ---------------------------------------------------------------------------
// Supporting lemmas
// ---------------------------------------------------------------------------
/// In a duplicate-free listing table the index of a matching row is the only
/// matching index.
pub proof fn lemma_apartment_index_unique(aps: Seq<Apartment>, card_id: i32, i: int)
    requires
        apartments_unique(aps),
        0 <= i < aps.len(),
        aps[i].card_id == card_id,
    ensures
        spec_has_apartment(aps, card_id),
        apartment_index(aps, card_id) == i,
{
    assert(spec_has_apartment(aps, card_id));
    let j = apartment_index(aps, card_id);
    if j != i {
        if i < j {
            assert(aps[i].card_id != aps[j].card_id);
        } else {
            assert(aps[j].card_id != aps[i].card_id);
        }
    }
}

/// In a duplicate-free index the row of a matching pair is the only match.
pub proof fn lemma_link_index_unique(
    ls: Seq<WatchlistApartmentIndex>,
    watchlist_id: i32,
    card_id: i32,
    i: int,
)
    requires
        links_unique(ls),
        0 <= i < ls.len(),
        ls[i].watchlist_id == watchlist_id,
        ls[i].card_id == card_id,
    ensures
        spec_has_link(ls, watchlist_id, card_id),
        link_index(ls, watchlist_id, card_id) == i,
{
    assert(spec_has_link(ls, watchlist_id, card_id));
    let j = link_index(ls, watchlist_id, card_id);
    if j != i {
        if i < j {
            assert(!(ls[i].watchlist_id == ls[j].watchlist_id && ls[i].card_id == ls[j].card_id));
        } else {
            assert(!(ls[j].watchlist_id == ls[i].watchlist_id && ls[j].card_id == ls[i].card_id));
        }
    }
}

/// A pair that no row carries is counted zero times.
pub proof fn lemma_count_links_zero(ls: Seq<WatchlistApartmentIndex>, watchlist_id: i32, card_id: i32)
    requires
        forall|i: int|
            0 <= i < ls.len() ==> !(ls[i].watchlist_id == watchlist_id && ls[i].card_id == card_id),
    ensures
        count_links(ls, watchlist_id, card_id) == 0,
    decreases ls.len(),
{
    if ls.len() > 0 {
        assert(forall|i: int|
            0 <= i < ls.drop_last().len() ==> ls.drop_last()[i] == ls[i]);
        lemma_count_links_zero(ls.drop_last(), watchlist_id, card_id);
    }
}

/// A pair some row carries is counted at least once.
pub proof fn lemma_count_links_has(ls: Seq<WatchlistApartmentIndex>, watchlist_id: i32, card_id: i32)
    requires
        spec_has_link(ls, watchlist_id, card_id),
    ensures
        count_links(ls, watchlist_id, card_id) >= 1,
    decreases ls.len(),
{
    let i = choose|i: int|
        0 <= i < ls.len() && ls[i].watchlist_id == watchlist_id && ls[i].card_id == card_id;
    if i == ls.len() - 1 {
    } else {
        assert(ls.drop_last()[i] == ls[i]);
        lemma_count_links_has(ls.drop_last(), watchlist_id, card_id);
    }
}

/// The dedup invariant in counting form: a duplicate-free index holds at most
/// one row per (watchlist, card) pair.
pub proof fn lemma_links_unique_count_le_one(
    ls: Seq<WatchlistApartmentIndex>,
    watchlist_id: i32,
    card_id: i32,
)
    requires
        links_unique(ls),
    ensures
        count_links(ls, watchlist_id, card_id) <= 1,
    decreases ls.len(),
{
    if ls.len() > 0 {
        let rest = ls.drop_last();
        assert(forall|i: int| 0 <= i < rest.len() ==> rest[i] == ls[i]);
        lemma_links_unique_count_le_one(rest, watchlist_id, card_id);
        if ls.last().watchlist_id == watchlist_id && ls.last().card_id == card_id {
            let n = ls.len() - 1;
            assert forall|i: int|
                0 <= i < rest.len() implies !(rest[i].watchlist_id == watchlist_id && rest[i].card_id
                == card_id) by {
                assert(!(ls[i].watchlist_id == ls[n].watchlist_id && ls[i].card_id == ls[n].card_id));
            }
            lemma_count_links_zero(rest, watchlist_id, card_id);
        }
    }
}

} // verus!
