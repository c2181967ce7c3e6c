//! Watchlist services: subscribe, list, delete, and the listing queries the
//! front ends call.

use vstd::prelude::*;

use crate::db::apartment::{aps_data_eq, spec_matching_join, spec_watchlist_join};
use crate::db::watchlist::{
    spec_for_chat, spec_update_target_yield, spec_watchlist_row, ws_data_eq,
};
use crate::db::{spec_has_watchlist, spec_watchlist, watchlist_index, Store};
use crate::models::apartment::Apartment;
use crate::models::watchlist::{SizeTarget, Watchlist};
use crate::oikotie::oikotie::{Location, LocationResponse};

verus! {

/// Why a service call was refused.
#[derive(Debug, Clone, Copy, PartialEq, Eq, Structural)]
pub enum ServiceError {
    /// The location query matched nothing.
    NoLocationFound,
    /// The chat does not own the watchlist it named.
    WrongChat,
    /// No watchlist with that id exists.
    NotFound,
}

impl ServiceError {
    /// The user-facing message of this error.
    pub fn message(&self) -> (r: &'static str)
        ensures
            *self is NoLocationFound ==> r@ == "Did not find any location with that query"@,
            *self is WrongChat ==> r@ == "You don't have a watchlist with this ID"@,
            *self is NotFound ==> r@ == "Error: Did not find a watchlist"@,
    {
        match self {
            ServiceError::NoLocationFound => "Did not find any location with that query",
            ServiceError::WrongChat => "You don't have a watchlist with this ID",
            ServiceError::NotFound => "Error: Did not find a watchlist",
        }
    }
}

/// Subscribes a chat to a location.
///
/// A chat that already watches this location gets its yield threshold
/// updated in place; otherwise a watchlist is created from the first location
/// the source returned for the query. With no locations to build from, the
/// subscription is refused and the store kept as it was.
pub fn subscribe(
    store: &mut Store,
    chat_id: i64,
    location_query: String,
    size: (i32, i32),
    target_yield: i64,
    locations: &Vec<LocationResponse>,
    now: i64,
) -> (r: Result<Watchlist, ServiceError>)
    requires
        old(store).wf(),
        old(store).next_watchlist_id < i32::MAX,
        locations@.len() > 0 ==> locations@[0].card.card_id <= i32::MAX
            && locations@[0].card.card_type <= i32::MAX,
    ensures
        final(store).wf(),
        final(store).apartments@ == old(store).apartments@,
        final(store).links@ == old(store).links@,
        ({
            let existing = spec_for_chat_and_location(
                old(store).watchlists@,
                chat_id,
                location_query@,
            );
            if existing.len() > 0 {
                &&& r is Ok
                &&& r->Ok_0.id == existing[0].id
                &&& r->Ok_0.target_yield == Some(target_yield)
                &&& final(store).watchlists@ == spec_update_target_yield(
                    old(store).watchlists@,
                    existing[0].id,
                    target_yield,
                )
            } else if locations@.len() == 0 {
                &&& r == Result::<Watchlist, ServiceError>::Err(ServiceError::NoLocationFound)
                &&& final(store).watchlists@ == old(store).watchlists@
            } else {
                &&& r is Ok
                &&& r->Ok_0.id == old(store).next_watchlist_id
                &&& r->Ok_0.target_yield == Some(target_yield)
                &&& final(store).watchlists@.len() == old(store).watchlists@.len() + 1
                &&& final(store).watchlists@.last().data_eq(
                    spec_watchlist_row(
                        old(store).next_watchlist_id,
                        Location {
                            id: locations@[0].card.card_id as i32,
                            level: locations@[0].card.card_type as i32,
                            name: locations@[0].card.name,
                        },
                        chat_id,
                        Some(target_yield),
                        SizeTarget { min: Some(size.0), max: Some(size.1) },
                        now,
                    ),
                )
                &&& forall|k: int|
                    0 <= k < old(store).watchlists@.len() ==> final(store).watchlists@[k] == old(
                        store,
                    ).watchlists@[k]
            }
        }),
{
    let existing = crate::db::watchlist::get_for_chat_and_location(store, chat_id, &location_query);
    if existing.len() > 0 {
        let current_id = existing[0].id;
        crate::db::watchlist::update_yield(store, current_id, target_yield);
        let mut updated = existing[0].clone();
        updated.target_yield = Some(target_yield);
        return Ok(updated);
    }

    if locations.len() == 0 {
        return Err(ServiceError::NoLocationFound);
    }

    let location_card = &locations[0].card;
    let watchlist_location = Location {
        id: location_card.card_id as i32,
        level: location_card.card_type as i32,
        name: location_card.name.clone(),
    };

    let mut target_size = SizeTarget::empty();
    target_size.min = Some(size.0);
    target_size.max = Some(size.1);

    let id = crate::db::watchlist::insert(
        store,
        watchlist_location,
        chat_id,
        Some(target_yield),
        target_size,
        now,
    );

    proof {
        assert(store.watchlists@[store.watchlists@.len() - 1].id == id);
        assert(spec_has_watchlist(store.watchlists@, id));
        crate::db::watchlist::lemma_watchlist_index_unique(
            store.watchlists@,
            id,
            store.watchlists@.len() - 1,
        );
    }
    match crate::db::watchlist::get_watchlist(store, id) {
        Some(created) => Ok(created),
        None => unreached(),
    }
}

/// The chat's watchlists.
pub fn list(store: &Store, chat_id: i64) -> (r: Vec<Watchlist>)
    ensures
        ws_data_eq(r@, spec_for_chat(store.watchlists@, chat_id)),
{
    crate::db::watchlist::get_for_chat(store, chat_id)
}

/// Deletes a chat's watchlist; refused when the chat does not own it.
pub fn delete(store: &mut Store, chat_id: i64, watchlist_id: i32) -> (r: Result<(), ServiceError>)
    requires
        old(store).wf(),
    ensures
        final(store).wf(),
        final(store).apartments@ == old(store).apartments@,
        final(store).links@ == old(store).links@,
        r is Ok <==> exists|i: int|
            0 <= i < old(store).watchlists@.len() && old(store).watchlists@[i].id == watchlist_id
                && old(store).watchlists@[i].chat_id == chat_id,
        r is Ok ==> final(store).watchlists@ == old(store).watchlists@.remove(
            watchlist_index(old(store).watchlists@, watchlist_id),
        ) && !spec_has_watchlist(final(store).watchlists@, watchlist_id),
        r is Err ==> final(store).watchlists@ == old(store).watchlists@ && r->Err_0
            == ServiceError::WrongChat,
{
    if crate::db::watchlist::check_chat(store, chat_id, watchlist_id) {
        proof {
            let i = choose|i: int|
                0 <= i < store.watchlists@.len() && store.watchlists@[i].id == watchlist_id
                    && store.watchlists@[i].chat_id == chat_id;
            assert(spec_has_watchlist(store.watchlists@, watchlist_id));
        }
        crate::db::watchlist::delete(store, watchlist_id);
        Ok(())
    } else {
        Err(ServiceError::WrongChat)
    }
}

/// All listings linked to the chat's watchlist.
pub fn get_all_apartments(store: &Store, chat_id: i64, watchlist_id: i32) -> (r: Result<
    Vec<Apartment>,
    ServiceError,
>)
    requires
        store.wf(),
    ensures
        r is Ok <==> exists|i: int|
            0 <= i < store.watchlists@.len() && store.watchlists@[i].id == watchlist_id
                && store.watchlists@[i].chat_id == chat_id,
        match r {
            Ok(aps) => aps_data_eq(
                aps@,
                spec_watchlist_join(store.links@, store.apartments@, watchlist_id),
            ),
            Err(e) => e == ServiceError::WrongChat,
        },
{
    crate::db::apartment::get_all_for_watchlist(store, chat_id, watchlist_id)
}

/// The linked listings whose stored yield beats the chat's watchlist target.
pub fn get_matching_apartments(store: &Store, chat_id: i64, watchlist_id: i32) -> (r: Result<
    Vec<Apartment>,
    ServiceError,
>)
    requires
        store.wf(),
        spec_has_watchlist(store.watchlists@, watchlist_id) ==> spec_watchlist(
            store.watchlists@,
            watchlist_id,
        ).target_yield is Some,
    ensures
        r is Ok <==> exists|i: int|
            0 <= i < store.watchlists@.len() && store.watchlists@[i].id == watchlist_id
                && store.watchlists@[i].chat_id == chat_id,
        match r {
            Ok(aps) => aps_data_eq(
                aps@,
                spec_matching_join(
                    store.links@,
                    store.apartments@,
                    watchlist_id,
                    spec_watchlist(store.watchlists@, watchlist_id).target_yield->Some_0,
                ),
            ),
            Err(e) => e == ServiceError::WrongChat || e == ServiceError::NotFound,
        },
{
    crate::db::apartment::get_matching_for_watchlist(store, chat_id, watchlist_id)
}

/// The chat-and-location filter the subscribe path keys on.
pub open spec fn spec_for_chat_and_location(
    ws: Seq<Watchlist>,
    chat_id: i64,
    location: Seq<char>,
) -> Seq<Watchlist> {
    crate::db::watchlist::spec_for_chat_and_location(ws, chat_id, location)
}

} // verus!
