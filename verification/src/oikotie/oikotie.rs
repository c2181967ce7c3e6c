//! Data types of the listing source, the adapter's token state, and the pure
//! candidate-filtering logic of a producer pass.

use vstd::prelude::*;

use crate::db::{spec_has_apartment, spec_link, spec_link_sent, Store};
use crate::models::apartment::InsertableApartment;
use crate::models::watchlist::Watchlist;

use super::tokens::OikotieTokens;

verus! {

/// A place the listing source knows: id, hierarchy level and display name.
#[derive(Debug)]
pub struct Location {
    pub id: i32,
    pub level: i32,
    pub name: String,
}

impl Location {
    pub open spec fn data_eq(self, o: Location) -> bool {
        &&& self.id == o.id
        &&& self.level == o.level
        &&& self.name@ == o.name@
    }
}

impl Clone for Location {
    fn clone(&self) -> (r: Self)
        ensures
            r.data_eq(*self),
    {
        Location { id: self.id, level: self.level, name: self.name.clone() }
    }
}

/// One location the source's search endpoint returned.
#[derive(Debug)]
pub struct LocationCard {
    pub name: String,
    pub card_id: u32,
    pub card_type: u32,
}

/// A search response entry wrapping one location card.
#[derive(Debug)]
pub struct LocationResponse {
    pub card: LocationCard,
}

/// One rental comparable: monthly rent in euros and size in square metres.
/// Ephemeral; lives only for a single pricing call.
#[derive(Debug, Clone, Copy, PartialEq, Eq, Structural)]
pub struct RentalData {
    pub rent: i32,
    pub size: i32,
}

/// The listing-source adapter's state: lazily fetched session tokens.
/// The fetch itself happens outside the library; the adapter decides when a
/// fetch is needed and caches what comes back.
#[derive(Debug)]
pub struct Oikotie {
    pub tokens: Option<Box<OikotieTokens>>,
}

impl Clone for Oikotie {
    fn clone(&self) -> (r: Self)
        ensures
            r.tokens is Some <==> self.tokens is Some,
            r.tokens matches Some(t) ==> t.data_eq(*self.tokens.unwrap()),
    {
        let tokens = match &self.tokens {
            Some(t) => Some(Box::new((**t).clone())),
            None => None,
        };
        Oikotie { tokens }
    }
}

impl Oikotie {
    /// A fresh adapter holding whatever tokens the caller fetched, if any.
    pub fn new(tokens: Option<Box<OikotieTokens>>) -> (r: Oikotie)
        ensures
            r.tokens is Some <==> tokens is Some,
    {
        Oikotie { tokens }
    }

    /// Whether a call must first fetch session tokens.
    pub fn needs_tokens(&self) -> (r: bool)
        ensures
            r == (self.tokens is None),
    {
        self.tokens.is_none()
    }

    /// Caches freshly fetched tokens in the adapter.
    pub fn install_tokens(&mut self, tokens: Box<OikotieTokens>)
        ensures
            final(self).tokens is Some,
            final(self).tokens.unwrap().data_eq(*tokens),
    {
        self.tokens = Some(tokens);
    }
}

/// Whether a notification for this (watchlist, card) pair has already gone
/// out: an index row exists and its `sent` flag is set.
pub fn has_been_sent_to_watchlist(store: &Store, watchlist: &Watchlist, card_id: i32) -> (r: bool)
    requires
        store.wf(),
    ensures
        r == spec_link_sent(store.links@, watchlist.id, card_id),
{
    let connectors = crate::db::apartment_watchlist::get_watchlist_apartment_connector(
        store,
        watchlist,
        card_id,
    );
    if connectors.is_empty() {
        proof {
            lemma_pair_links_has(store.links@, watchlist.id, card_id);
        }
        return false;
    }
    proof {
        lemma_pair_links_has(store.links@, watchlist.id, card_id);
        lemma_pair_links_member(store.links@, watchlist.id, card_id, 0);
    }
    connectors[0].has_been_sent
}

/// A searched card is a new candidate when no listing row carries its card id
/// and no notification for it has gone out to this watchlist yet.
pub open spec fn spec_new_candidate(
    store_apartments: Seq<crate::models::apartment::Apartment>,
    store_links: Seq<crate::models::watchlist_apartment_index_model::WatchlistApartmentIndex>,
    watchlist_id: i32,
    card_id: i32,
) -> bool {
    &&& !spec_has_apartment(store_apartments, card_id)
    &&& !spec_link_sent(store_links, watchlist_id, card_id)
}

/// The searched card ids that are new candidates for this watchlist, in
/// search order.
pub open spec fn spec_new_candidates(
    store_apartments: Seq<crate::models::apartment::Apartment>,
    store_links: Seq<crate::models::watchlist_apartment_index_model::WatchlistApartmentIndex>,
    watchlist_id: i32,
    cards: Seq<i32>,
) -> Seq<i32>
    decreases cards.len(),
{
    if cards.len() == 0 {
        Seq::empty()
    } else {
        let rest = spec_new_candidates(
            store_apartments,
            store_links,
            watchlist_id,
            cards.drop_last(),
        );
        if spec_new_candidate(store_apartments, store_links, watchlist_id, cards.last()) {
            rest.push(cards.last())
        } else {
            rest
        }
    }
}

/// Filters searched card ids down to the new candidates for this watchlist:
/// the fetch-filter step of a producer pass.
pub fn filter_new_cards(store: &Store, watchlist: &Watchlist, card_ids: &Vec<i32>) -> (r: Vec<i32>)
    requires
        store.wf(),
    ensures
        r@ == spec_new_candidates(store.apartments@, store.links@, watchlist.id, card_ids@),
{
    let n = card_ids.len();
    let mut r: Vec<i32> = Vec::new();
    let mut i: usize = 0;
    while i < n
        invariant
            store.wf(),
            n == card_ids@.len(),
            0 <= i <= n,
            r@ == spec_new_candidates(
                store.apartments@,
                store.links@,
                watchlist.id,
                card_ids@.take(i as int),
            ),
        decreases n - i,
    {
        proof {
            assert(card_ids@.take(i + 1).drop_last() =~= card_ids@.take(i as int));
            assert(card_ids@.take(i + 1).last() == card_ids@[i as int]);
        }
        let card_id = card_ids[i];
        let existing = crate::db::apartment::get_apartment_by_card_id(store, card_id);
        let has_been_sent = has_been_sent_to_watchlist(store, watchlist, card_id);
        if existing.is_none() && !has_been_sent {
            r.push(card_id);
        }
        i += 1;
    }
    proof {
        assert(card_ids@.take(n as int) =~= card_ids@);
    }
    r
}

/// Why a searched card could not become a candidate listing.
#[derive(Debug, Clone, Copy, PartialEq, Eq, Structural)]
pub enum CardConversionError {
    /// The source's card id does not fit the store's id type.
    CardIdTooLarge,
}

impl CardConversionError {
    /// The log message of this error.
    pub fn message(&self) -> (r: &'static str)
        ensures
            r@ == "Card id does not fit in i32"@,
    {
        "Card id does not fit in i32"
    }
}

/// A money amount from the source, clamped into the store's field type.
pub open spec fn spec_clamp_u64_i32(v: u64) -> i32 {
    if v > i32::MAX {
        i32::MAX
    } else {
        v as i32
    }
}

/// Assembles a searched card and its detail data into a candidate listing.
///
/// The price and maintenance fee are clamped to the field type's maximum;
/// rent and yield start at zero until a pricing run fills them. A card id too
/// large for the store is refused.
pub fn card_into_complete_apartment(
    card_id: u32,
    card_url: String,
    card_size: i32,
    card_rooms: u32,
    price: u64,
    maintenance_fee: u64,
    location: &Location,
) -> (r: Result<InsertableApartment, CardConversionError>)
    ensures
        r is Ok <==> card_id <= i32::MAX,
        match r {
            Ok(a) => {
                &&& a.card_id == card_id as i32
                &&& a.location_id == Some(location.id)
                &&& a.location_level == Some(location.level)
                &&& crate::models::watchlist::opt_str_view(a.location_name) == Some(location.name@)
                &&& a.size == Some(card_size)
                &&& a.rooms == Some(spec_clamp_u64_i32(card_rooms as u64))
                &&& a.price == Some(spec_clamp_u64_i32(price))
                &&& a.additional_costs == Some(spec_clamp_u64_i32(maintenance_fee))
                &&& a.rent == Some(0i32)
                &&& a.estimated_yield == Some(0i64)
                &&& crate::models::watchlist::opt_str_view(a.url) == Some(card_url@)
            },
            Err(e) => e == CardConversionError::CardIdTooLarge,
        },
{
    if card_id > i32::MAX as u32 {
        return Err(CardConversionError::CardIdTooLarge);
    }

    Ok(
        InsertableApartment {
            card_id: card_id as i32,
            location_id: Some(location.id),
            location_level: Some(location.level),
            location_name: Some(location.name.clone()),
            size: Some(card_size),
            rooms: Some(clamp_u64_to_i32(card_rooms as u64)),
            price: Some(clamp_u64_to_i32(price)),
            additional_costs: Some(clamp_u64_to_i32(maintenance_fee)),
            rent: Some(0),
            estimated_yield: Some(0),
            url: Some(card_url),
        },
    )
}

fn clamp_u64_to_i32(v: u64) -> (r: i32)
    ensures
        r == spec_clamp_u64_i32(v),
{
    if v > i32::MAX as u64 {
        i32::MAX
    } else {
        v as i32
    }
}

/// The size band a pricing run searches rental comparables in: ten percent
/// on either side of the listing's size, rounded toward zero.
pub fn rent_search_band(size: i32) -> (t: crate::models::watchlist::SizeTarget)
    ensures
        t.min == Some(crate::oikotie::helpers::spec_saturate_i32(crate::oikotie::helpers::tdiv(9 * size as int, 10))),
        t.max == Some(crate::oikotie::helpers::spec_saturate_i32(crate::oikotie::helpers::tdiv(11 * size as int, 10))),
{
    let lo_wide: i64 = tdiv_i64(9 * size as i64, 10);
    let hi_wide: i64 = tdiv_i64(11 * size as i64, 10);
    crate::models::watchlist::SizeTarget {
        min: Some(saturate_i64_to_i32(lo_wide)),
        max: Some(saturate_i64_to_i32(hi_wide)),
    }
}

/// Truncating division on `i64`, for operands far from the extremes.
fn tdiv_i64(a: i64, b: i64) -> (r: i64)
    requires
        b != 0,
        -0x4000_0000_0000_0000 < a < 0x4000_0000_0000_0000,
        -0x4000_0000_0000_0000 < b < 0x4000_0000_0000_0000,
    ensures
        r == crate::oikotie::helpers::tdiv(a as int, b as int),
{
    let neg = (a < 0) != (b < 0);
    let ma: i64 = if a < 0 {
        -a
    } else {
        a
    };
    let mb: i64 = if b < 0 {
        -b
    } else {
        b
    };
    let q = ma / mb;
    if neg {
        -q
    } else {
        q
    }
}

fn saturate_i64_to_i32(x: i64) -> (r: i32)
    ensures
        r == crate::oikotie::helpers::spec_saturate_i32(x as int),
{
    if x > i32::MAX as i64 {
        i32::MAX
    } else if x < i32::MIN as i64 {
        i32::MIN
    } else {
        x as i32
    }
}

/// Picks the rent a pricing run works with: a positive prediction from the
/// rent service wins; anything else falls back to the comparables heuristic.
pub fn select_rent_estimate(prediction: Option<i32>, heuristic: i32) -> (r: i32)
    ensures
        r == match prediction {
            Some(p) => if p > 0 {
                p
            } else {
                heuristic
            },
            None => heuristic,
        },
{
    match prediction {
        Some(p) => if p > 0 {
            p
        } else {
            heuristic
        },
        None => heuristic,
    }
}

/// Relates the pair-filtered rows to the index as a whole: the filter is
/// non-empty exactly when the pair has a row, and each filtered row carries
/// the pair.
proof fn lemma_pair_links_has(
    ls: Seq<crate::models::watchlist_apartment_index_model::WatchlistApartmentIndex>,
    watchlist_id: i32,
    card_id: i32,
)
    ensures
        crate::db::apartment_watchlist::spec_pair_links(ls, watchlist_id, card_id).len() > 0
            <==> crate::db::spec_has_link(ls, watchlist_id, card_id),
    decreases ls.len(),
{
    if ls.len() > 0 {
        lemma_pair_links_has(ls.drop_last(), watchlist_id, card_id);
        if crate::db::spec_has_link(ls.drop_last(), watchlist_id, card_id) {
            let i = crate::db::link_index(ls.drop_last(), watchlist_id, card_id);
            assert(ls[i] == ls.drop_last()[i]);
            assert(crate::db::spec_has_link(ls, watchlist_id, card_id));
        }
        if crate::db::spec_has_link(ls, watchlist_id, card_id) && !(ls.last().watchlist_id
            == watchlist_id && ls.last().card_id == card_id) {
            let i = crate::db::link_index(ls, watchlist_id, card_id);
            assert(i < ls.len() - 1);
            assert(ls.drop_last()[i] == ls[i]);
            assert(crate::db::spec_has_link(ls.drop_last(), watchlist_id, card_id));
        }
    }
}

/// Every row the pair filter keeps carries the pair, so under uniqueness its
/// first row is the pair's single index row.
proof fn lemma_pair_links_member(
    ls: Seq<crate::models::watchlist_apartment_index_model::WatchlistApartmentIndex>,
    watchlist_id: i32,
    card_id: i32,
    k: int,
)
    requires
        crate::db::links_unique(ls),
        0 <= k < crate::db::apartment_watchlist::spec_pair_links(ls, watchlist_id, card_id).len(),
    ensures
        crate::db::apartment_watchlist::spec_pair_links(ls, watchlist_id, card_id)[k].watchlist_id
            == watchlist_id,
        crate::db::apartment_watchlist::spec_pair_links(ls, watchlist_id, card_id)[k].card_id
            == card_id,
        crate::db::spec_has_link(ls, watchlist_id, card_id) ==> crate::db::apartment_watchlist::spec_pair_links(
            ls,
            watchlist_id,
            card_id,
        )[k] == crate::db::spec_link(ls, watchlist_id, card_id),
    decreases ls.len(),
{
    let filtered = crate::db::apartment_watchlist::spec_pair_links(ls, watchlist_id, card_id);
    if ls.len() > 0 {
        let rest = ls.drop_last();
        assert(forall|i: int| 0 <= i < rest.len() ==> rest[i] == ls[i]);
        if ls.last().watchlist_id == watchlist_id && ls.last().card_id == card_id {
            if k < filtered.len() - 1 {
                lemma_pair_links_member(rest, watchlist_id, card_id, k);
                lemma_pair_links_has(rest, watchlist_id, card_id);
                let i = crate::db::link_index(rest, watchlist_id, card_id);
                assert(0 <= i < rest.len() && rest[i].watchlist_id == watchlist_id && rest[i].card_id
                    == card_id);
                lemma_link_member_last(ls, watchlist_id, card_id, i);
            } else {
                assert(filtered[k] == ls.last());
                crate::db::lemma_link_index_unique(ls, watchlist_id, card_id, ls.len() - 1);
            }
        } else {
            lemma_pair_links_member(rest, watchlist_id, card_id, k);
            if crate::db::spec_has_link(ls, watchlist_id, card_id) {
                let i = crate::db::link_index(ls, watchlist_id, card_id);
                assert(i < ls.len() - 1);
                assert(crate::db::spec_has_link(rest, watchlist_id, card_id));
                let j = crate::db::link_index(rest, watchlist_id, card_id);
                crate::db::lemma_link_index_unique(ls, watchlist_id, card_id, j);
            }
        }
    }
}

/// A matching row in the prefix contradicts a matching last row, under
/// uniqueness.
proof fn lemma_link_member_last(
    ls: Seq<crate::models::watchlist_apartment_index_model::WatchlistApartmentIndex>,
    watchlist_id: i32,
    card_id: i32,
    i: int,
)
    requires
        crate::db::links_unique(ls),
        ls.len() > 0,
        ls.last().watchlist_id == watchlist_id,
        ls.last().card_id == card_id,
        0 <= i < ls.len() - 1,
    ensures
        !(ls.drop_last()[i].watchlist_id == watchlist_id && ls.drop_last()[i].card_id == card_id),
{
    assert(ls.drop_last()[i] == ls[i]);
    assert(!(ls[i].watchlist_id == ls[ls.len() - 1].watchlist_id && ls[i].card_id == ls[ls.len()
        - 1].card_id));
}

} // verus!
