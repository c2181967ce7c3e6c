//! Listing-table operations: lookup, freshness, insert and re-pricing.

use vstd::prelude::*;
use vstd::pervasive::VecAdditionalExecFns;

use crate::db::{
    apartments_unique, lemma_apartment_index_unique, spec_apartment,
    spec_apartment_row, spec_has_apartment, spec_is_fresh, spec_update_rent_yield, Store,
};
use crate::models::apartment::{Apartment, InsertableApartment};

verus! {

/// Pointwise row equality of two listing tables, up to string identity.
pub open spec fn aps_data_eq(a: Seq<Apartment>, b: Seq<Apartment>) -> bool {
    &&& a.len() == b.len()
    &&& forall|i: int| 0 <= i < a.len() ==> a[i].data_eq(b[i])
}

/// Looks a listing up by its source card id; `None` when no row carries it.
pub fn get_apartment_by_card_id(store: &Store, target_card_id: i32) -> (r: Option<Apartment>)
    requires
        store.wf(),
    ensures
        r is Some <==> spec_has_apartment(store.apartments@, target_card_id),
        match r {
            Some(a) => a.data_eq(spec_apartment(store.apartments@, target_card_id)),
            None => true,
        },
{
    let n = store.apartments.len();
    let mut i: usize = 0;
    while i < n
        invariant
            store.wf(),
            n == store.apartments@.len(),
            0 <= i <= n,
            forall|k: int| 0 <= k < i ==> store.apartments@[k].card_id != target_card_id,
        decreases n - i,
    {
        if store.apartments[i].card_id == target_card_id {
            proof {
                lemma_apartment_index_unique(store.apartments@, target_card_id, i as int);
            }
            return Some(store.apartments[i].clone());
        }
        i += 1;
    }
    None
}

/// Whether the listing's last update lies within the freshness window
/// (`window` seconds before `now`). A missing listing is never fresh.
pub fn apartment_is_fresh(store: &Store, target_card_id: i32, now: i64, window: i64) -> (r: bool)
    requires
        store.wf(),
        0 <= window,
        now as int - window as int >= i64::MIN,
    ensures
        r == spec_is_fresh(store.apartments@, target_card_id, now, window),
{
    let cutoff = now - window;
    let n = store.apartments.len();
    let mut i: usize = 0;
    while i < n
        invariant
            store.wf(),
            n == store.apartments@.len(),
            0 <= i <= n,
            cutoff == now as int - window as int,
            forall|k: int| 0 <= k < i ==> store.apartments@[k].card_id != target_card_id,
        decreases n - i,
    {
        if store.apartments[i].card_id == target_card_id {
            proof {
                lemma_apartment_index_unique(store.apartments@, target_card_id, i as int);
            }
            return store.apartments[i].updated_at > cutoff;
        }
        i += 1;
    }
    false
}

/// Inserts a priced candidate as a new row with fresh timestamps.
pub fn insert(store: &mut Store, apartment: InsertableApartment, now: i64)
    requires
        old(store).wf(),
        !spec_has_apartment(old(store).apartments@, apartment.card_id),
        old(store).next_apartment_id < i32::MAX,
    ensures
        final(store).wf(),
        final(store).apartments@ == old(store).apartments@.push(
            spec_apartment_row(apartment, old(store).next_apartment_id, now),
        ),
        final(store).links@ == old(store).links@,
        final(store).watchlists@ == old(store).watchlists@,
        final(store).next_apartment_id == old(store).next_apartment_id + 1,
        final(store).next_link_id == old(store).next_link_id,
        final(store).next_watchlist_id == old(store).next_watchlist_id,
{
    let row = Apartment {
        id: store.next_apartment_id,
        card_id: apartment.card_id,
        location_id: apartment.location_id,
        location_level: apartment.location_level,
        location_name: apartment.location_name,
        size: apartment.size,
        rooms: apartment.rooms,
        price: apartment.price,
        additional_costs: apartment.additional_costs,
        rent: apartment.rent,
        estimated_yield: apartment.estimated_yield,
        url: apartment.url,
        created_at: now,
        updated_at: now,
    };
    store.apartments.push(row);
    store.next_apartment_id = store.next_apartment_id + 1;
}

/// Re-prices a listing: stores the new rent and yield and resets its
/// freshness timestamp. Rows with other card ids are untouched; a missing
/// card id makes this a no-op.
pub fn update_yield(store: &mut Store, target_card_id: i32, rent: i32, new_yield: i64, now: i64)
    requires
        old(store).wf(),
    ensures
        final(store).wf(),
        final(store).apartments@ == spec_update_rent_yield(
            old(store).apartments@,
            target_card_id,
            rent,
            new_yield,
            now,
        ),
        final(store).links@ == old(store).links@,
        final(store).watchlists@ == old(store).watchlists@,
        final(store).next_apartment_id == old(store).next_apartment_id,
        final(store).next_link_id == old(store).next_link_id,
        final(store).next_watchlist_id == old(store).next_watchlist_id,
{
    let ghost aps0 = store.apartments@;
    let ghost target = spec_update_rent_yield(aps0, target_card_id, rent, new_yield, now);
    let n = store.apartments.len();
    let mut i: usize = 0;
    while i < n
        invariant
            n == store.apartments@.len(),
            0 <= i <= n,
            aps0.len() == n,
            target == spec_update_rent_yield(aps0, target_card_id, rent, new_yield, now),
            forall|k: int| i <= k < n ==> store.apartments@[k] == aps0[k],
            forall|k: int| 0 <= k < i ==> store.apartments@[k] == target[k],
            store.links@ == old(store).links@,
            store.watchlists@ == old(store).watchlists@,
            store.next_apartment_id == old(store).next_apartment_id,
            store.next_link_id == old(store).next_link_id,
            store.next_watchlist_id == old(store).next_watchlist_id,
        decreases n - i,
    {
        if store.apartments[i].card_id == target_card_id {
            let mut row = placeholder_row();
            store.apartments.set_and_swap(i, &mut row);
            row.rent = Some(rent);
            row.estimated_yield = Some(new_yield);
            row.updated_at = now;
            store.apartments.set_and_swap(i, &mut row);
        }
        i += 1;
    }
    proof {
        assert(store.apartments@ =~= target);
        assert(apartments_unique(store.apartments@)) by {
            assert(forall|k: int|
                0 <= k < target.len() ==> target[k].card_id == aps0[k].card_id);
        }
    }
}

/// The listings a watchlist's index rows name, in index-row order: the inner
/// join of the dedup index (filtered to one watchlist) with the listing table
/// on the card id.
pub open spec fn spec_watchlist_join(
    ls: Seq<crate::models::watchlist_apartment_index_model::WatchlistApartmentIndex>,
    aps: Seq<Apartment>,
    watchlist_id: i32,
) -> Seq<Apartment>
    decreases ls.len(),
{
    if ls.len() == 0 {
        Seq::empty()
    } else {
        let rest = spec_watchlist_join(ls.drop_last(), aps, watchlist_id);
        if ls.last().watchlist_id == watchlist_id && spec_has_apartment(aps, ls.last().card_id) {
            rest.push(spec_apartment(aps, ls.last().card_id))
        } else {
            rest
        }
    }
}

/// As `spec_watchlist_join`, but keeping only listings whose stored yield
/// strictly exceeds the target.
pub open spec fn spec_matching_join(
    ls: Seq<crate::models::watchlist_apartment_index_model::WatchlistApartmentIndex>,
    aps: Seq<Apartment>,
    watchlist_id: i32,
    target: i64,
) -> Seq<Apartment>
    decreases ls.len(),
{
    if ls.len() == 0 {
        Seq::empty()
    } else {
        let rest = spec_matching_join(ls.drop_last(), aps, watchlist_id, target);
        if ls.last().watchlist_id == watchlist_id && spec_has_apartment(aps, ls.last().card_id)
            && spec_yield_above(spec_apartment(aps, ls.last().card_id), target) {
            rest.push(spec_apartment(aps, ls.last().card_id))
        } else {
            rest
        }
    }
}

/// Whether a listing's stored yield strictly exceeds a target; a missing
/// yield never does.
pub open spec fn spec_yield_above(a: Apartment, target: i64) -> bool {
    match a.estimated_yield {
        Some(y) => y > target,
        None => false,
    }
}

/// All listings linked to a watchlist, provided the chat owns it.
pub fn get_all_for_watchlist(store: &Store, chat_id: i64, watchlist_id_: i32) -> (r: Result<
    Vec<Apartment>,
    crate::services::watchlists::ServiceError,
>)
    requires
        store.wf(),
    ensures
        r is Ok <==> exists|i: int|
            0 <= i < store.watchlists@.len() && store.watchlists@[i].id == watchlist_id_
                && store.watchlists@[i].chat_id == chat_id,
        match r {
            Ok(aps) => aps_data_eq(
                aps@,
                spec_watchlist_join(store.links@, store.apartments@, watchlist_id_),
            ),
            Err(e) => e == crate::services::watchlists::ServiceError::WrongChat,
        },
{
    if !crate::db::watchlist::check_chat(store, chat_id, watchlist_id_) {
        return Err(crate::services::watchlists::ServiceError::WrongChat);
    }

    let n = store.links.len();
    let mut r: Vec<Apartment> = Vec::new();
    let mut i: usize = 0;
    while i < n
        invariant
            store.wf(),
            n == store.links@.len(),
            0 <= i <= n,
            aps_data_eq(
                r@,
                spec_watchlist_join(store.links@.take(i as int), store.apartments@, watchlist_id_),
            ),
        decreases n - i,
    {
        proof {
            assert(store.links@.take(i + 1).drop_last() =~= store.links@.take(i as int));
            assert(store.links@.take(i + 1).last() == store.links@[i as int]);
        }
        if store.links[i].watchlist_id == watchlist_id_ {
            let ap = get_apartment_by_card_id(store, store.links[i].card_id);
            if let Some(apartment) = ap {
                r.push(apartment);
            }
        }
        i += 1;
    }
    proof {
        assert(store.links@.take(n as int) =~= store.links@);
    }
    Ok(r)
}

/// The linked listings whose stored yield beats the watchlist's target,
/// provided the chat owns the watchlist. The watchlist must carry a target.
pub fn get_matching_for_watchlist(store: &Store, chat_id: i64, watchlist_id_: i32) -> (r: Result<
    Vec<Apartment>,
    crate::services::watchlists::ServiceError,
>)
    requires
        store.wf(),
        crate::db::spec_has_watchlist(store.watchlists@, watchlist_id_)
            ==> crate::db::spec_watchlist(store.watchlists@, watchlist_id_).target_yield is Some,
    ensures
        r is Ok <==> exists|i: int|
            0 <= i < store.watchlists@.len() && store.watchlists@[i].id == watchlist_id_
                && store.watchlists@[i].chat_id == chat_id,
        match r {
            Ok(aps) => aps_data_eq(
                aps@,
                spec_matching_join(
                    store.links@,
                    store.apartments@,
                    watchlist_id_,
                    crate::db::spec_watchlist(store.watchlists@, watchlist_id_).target_yield->Some_0,
                ),
            ),
            Err(e) => e == crate::services::watchlists::ServiceError::WrongChat || e
                == crate::services::watchlists::ServiceError::NotFound,
        },
{
    if !crate::db::watchlist::check_chat(store, chat_id, watchlist_id_) {
        return Err(crate::services::watchlists::ServiceError::WrongChat);
    }

    let target_watchlist = match crate::db::watchlist::get_watchlist(store, watchlist_id_) {
        Some(w) => w,
        None => {
            proof {
                let i = choose|i: int|
                    0 <= i < store.watchlists@.len() && store.watchlists@[i].id == watchlist_id_
                        && store.watchlists@[i].chat_id == chat_id;
                assert(crate::db::spec_has_watchlist(store.watchlists@, watchlist_id_));
            }
            return Err(crate::services::watchlists::ServiceError::NotFound);
        },
    };
    let target = match target_watchlist.target_yield {
        Some(t) => t,
        None => {
            proof {
                let i = choose|i: int|
                    0 <= i < store.watchlists@.len() && store.watchlists@[i].id == watchlist_id_
                        && store.watchlists@[i].chat_id == chat_id;
                assert(crate::db::spec_has_watchlist(store.watchlists@, watchlist_id_));
            }
            unreached()
        },
    };

    let n = store.links.len();
    let mut r: Vec<Apartment> = Vec::new();
    let mut i: usize = 0;
    while i < n
        invariant
            store.wf(),
            n == store.links@.len(),
            0 <= i <= n,
            target == crate::db::spec_watchlist(store.watchlists@, watchlist_id_).target_yield->Some_0,
            aps_data_eq(
                r@,
                spec_matching_join(
                    store.links@.take(i as int),
                    store.apartments@,
                    watchlist_id_,
                    target,
                ),
            ),
        decreases n - i,
    {
        proof {
            assert(store.links@.take(i + 1).drop_last() =~= store.links@.take(i as int));
            assert(store.links@.take(i + 1).last() == store.links@[i as int]);
        }
        if store.links[i].watchlist_id == watchlist_id_ {
            let ap = get_apartment_by_card_id(store, store.links[i].card_id);
            if let Some(apartment) = ap {
                let above = match apartment.estimated_yield {
                    Some(y) => y > target,
                    None => false,
                };
                if above {
                    r.push(apartment);
                }
            }
        }
        i += 1;
    }
    proof {
        assert(store.links@.take(n as int) =~= store.links@);
    }
    Ok(r)
}

fn placeholder_row() -> Apartment {
    Apartment {
        id: 0,
        card_id: 0,
        location_id: None,
        location_level: None,
        location_name: None,
        size: None,
        rooms: None,
        price: None,
        additional_costs: None,
        rent: None,
        estimated_yield: None,
        url: None,
        created_at: 0,
        updated_at: 0,
    }
}

} // verus!
