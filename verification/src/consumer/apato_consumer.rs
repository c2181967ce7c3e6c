//! Processing one candidate listing for one watchlist: the store-changing
//! core of a producer pass, run by the consumer workers.
//!
//! The pricing itself (rent estimation and the IRR solve) happens outside
//! this function and is handed in as a `PricingResult`; this function makes
//! every decision that touches the store.

use vstd::prelude::*;

use crate::db::{
    lemma_apartment_index_unique, spec_apartment, spec_apartment_row, spec_has_apartment,
    spec_has_link, spec_is_fresh, spec_new_link, spec_update_rent_yield, Store, StoreModel,
};
use crate::models::apartment::{Apartment, InsertableApartment};
use crate::models::watchlist::{SizeTarget, Watchlist};

verus! {

/// A marker for the worker pool; the work itself is in the free functions.
pub struct Consumer;

/// What a pricing run produced for one listing: the estimated monthly rent in
/// euros, and the estimated yield as a rate in millionths.
#[derive(Debug, Clone, Copy, PartialEq, Eq, Structural)]
pub struct PricingResult {
    pub rent: i32,
    pub estimated_yield: i64,
}

/// A missing yield or threshold counts as zero.
pub open spec fn yield_or_zero(o: Option<i64>) -> int {
    match o {
        Some(v) => v as int,
        None => 0,
    }
}

/// The qualification rule: a listing qualifies for a watchlist when its
/// estimated yield meets or exceeds the watchlist's target yield.
pub open spec fn spec_qualifies(estimated_yield: Option<i64>, target_yield: Option<i64>) -> bool {
    yield_or_zero(estimated_yield) >= yield_or_zero(target_yield)
}

/// Exec form of the qualification rule.
pub fn qualifies(estimated_yield: Option<i64>, target_yield: Option<i64>) -> (r: bool)
    ensures
        r == spec_qualifies(estimated_yield, target_yield),
{
    let e = match estimated_yield {
        Some(v) => v,
        None => 0,
    };
    let t = match target_yield {
        Some(v) => v,
        None => 0,
    };
    e >= t
}

/// A candidate needs a pricing run when it has no stored row yet, or its row
/// has gone stale.
pub open spec fn spec_pricing_needed(
    aps: Seq<Apartment>,
    card_id: i32,
    now: i64,
    window: i64,
) -> bool {
    !spec_has_apartment(aps, card_id) || !spec_is_fresh(aps, card_id, now, window)
}

/// Exec form of the pricing decision, for the caller that must compute
/// rent and yield before handing them to `process_apartment`.
pub fn pricing_needed(store: &Store, card_id: i32, now: i64, window: i64) -> (r: bool)
    requires
        store.wf(),
        0 <= window,
        now as int - window as int >= i64::MIN,
    ensures
        r == spec_pricing_needed(store.apartments@, card_id, now, window),
{
    let existing = crate::db::apartment::get_apartment_by_card_id(store, card_id);
    if existing.is_none() {
        return true;
    }
    !crate::db::apartment::apartment_is_fresh(store, card_id, now, window)
}

/// A candidate with the pricing run's rent and yield filled in.
pub open spec fn spec_priced_candidate(
    cand: InsertableApartment,
    p: PricingResult,
) -> InsertableApartment {
    InsertableApartment { rent: Some(p.rent), estimated_yield: Some(p.estimated_yield), ..cand }
}

/// What one candidate does to the store's listing table and dedup index.
///
/// An unknown candidate is inserted with its priced terms; a known stale one
/// is re-priced; a known fresh one is left as it is. In every branch, a dedup
/// row (with `sent` false) is created exactly when the pair has none yet and
/// the listing's yield meets the watchlist's target.
pub open spec fn spec_process_apartment(
    m: StoreModel,
    watchlist: Watchlist,
    cand: InsertableApartment,
    priced: Option<PricingResult>,
    now: i64,
    window: i64,
) -> StoreModel {
    let card_id = cand.card_id;
    if spec_has_apartment(m.apartments, card_id) {
        let aps1 = if !spec_is_fresh(m.apartments, card_id, now, window) {
            match priced {
                Some(p) => spec_update_rent_yield(m.apartments, card_id, p.rent, p.estimated_yield, now),
                None => m.apartments,
            }
        } else {
            m.apartments
        };
        let current_yield = spec_apartment(aps1, card_id).estimated_yield;
        if !spec_has_link(m.links, watchlist.id, card_id) && spec_qualifies(
            current_yield,
            watchlist.target_yield,
        ) {
            StoreModel {
                apartments: aps1,
                links: m.links.push(spec_new_link(m.next_link_id as i32, watchlist.id, card_id, now)),
                next_apartment_id: m.next_apartment_id,
                next_link_id: m.next_link_id + 1,
            }
        } else {
            StoreModel { apartments: aps1, ..m }
        }
    } else {
        match priced {
            Some(p) => {
                let row = spec_apartment_row(
                    spec_priced_candidate(cand, p),
                    m.next_apartment_id as i32,
                    now,
                );
                let aps1 = m.apartments.push(row);
                if !spec_has_link(m.links, watchlist.id, card_id) && spec_qualifies(
                    Some(p.estimated_yield),
                    watchlist.target_yield,
                ) {
                    StoreModel {
                        apartments: aps1,
                        links: m.links.push(
                            spec_new_link(m.next_link_id as i32, watchlist.id, card_id, now),
                        ),
                        next_apartment_id: m.next_apartment_id + 1,
                        next_link_id: m.next_link_id + 1,
                    }
                } else {
                    StoreModel {
                        apartments: aps1,
                        links: m.links,
                        next_apartment_id: m.next_apartment_id + 1,
                        next_link_id: m.next_link_id,
                    }
                }
            },
            None => m,
        }
    }
}

/// Processes one candidate listing for one watchlist.
///
/// The caller decides with `pricing_needed` whether a pricing run is due and
/// hands its result in; the store ends up exactly as `spec_process_apartment`
/// describes, and stays well-formed.
pub fn process_apartment(
    store: &mut Store,
    watchlist: &Watchlist,
    apartment: InsertableApartment,
    priced: Option<PricingResult>,
    now: i64,
    window: i64,
)
    requires
        old(store).wf(),
        0 <= window,
        now as int - window as int >= i64::MIN,
        priced is Some <==> spec_pricing_needed(old(store).apartments@, apartment.card_id, now, window),
        old(store).next_apartment_id < i32::MAX,
        old(store).next_link_id < i32::MAX,
    ensures
        final(store).wf(),
        final(store).index_model() == spec_process_apartment(
            old(store).index_model(),
            *watchlist,
            apartment,
            priced,
            now,
            window,
        ),
        final(store).watchlists@ == old(store).watchlists@,
        final(store).next_watchlist_id == old(store).next_watchlist_id,
{
    let ghost m0 = old(store).index_model();
    let card_id = apartment.card_id;
    let existing = crate::db::apartment::get_apartment_by_card_id(store, card_id);
    match existing {
        Some(existing_apartment) => {
            let is_fresh = crate::db::apartment::apartment_is_fresh(store, card_id, now, window);
            let mut current_yield: Option<i64> = existing_apartment.estimated_yield;
            if !is_fresh {
                let p = match priced {
                    Some(p) => p,
                    None => unreached(),
                };
                crate::db::apartment::update_yield(store, card_id, p.rent, p.estimated_yield, now);
                current_yield = Some(p.estimated_yield);
                proof {
                    let aps1 = store.apartments@;
                    let i = crate::db::apartment_index(m0.apartments, card_id);
                    assert(aps1[i].card_id == card_id);
                    lemma_apartment_index_unique(aps1, card_id, i);
                    assert(spec_apartment(aps1, card_id).estimated_yield == Some(p.estimated_yield));
                }
            } else {
                proof {
                    let i = crate::db::apartment_index(m0.apartments, card_id);
                    assert(spec_apartment(m0.apartments, card_id).estimated_yield == current_yield);
                }
            }
            let index_exists = crate::db::apartment_watchlist::link_exists(store, watchlist.id, card_id);
            if !index_exists {
                if qualifies(current_yield, watchlist.target_yield) {
                    crate::db::apartment_watchlist::insert(store, watchlist.id, card_id, now);
                }
            }
        },
        None => {
            let p = match priced {
                Some(p) => p,
                None => unreached(),
            };
            let mut apartment = apartment;
            apartment.rent = Some(p.rent);
            apartment.estimated_yield = Some(p.estimated_yield);
            let will_qualify = qualifies(apartment.estimated_yield, watchlist.target_yield);
            crate::db::apartment::insert(store, apartment, now);
            let index_exists = crate::db::apartment_watchlist::link_exists(store, watchlist.id, card_id);
            if !index_exists && will_qualify {
                crate::db::apartment_watchlist::insert(store, watchlist.id, card_id, now);
            }
        },
    }
}

// ---------------------------------------------------------------------------
// Laws of the pass
// ---------------------------------------------------------------------------
/// One candidate's worth of producer-pass input.
pub ghost struct PassInput {
    pub watchlist: Watchlist,
    pub candidate: InsertableApartment,
    pub priced: Option<PricingResult>,
    pub now: i64,
    pub window: i64,
}

impl PassInput {
    /// The pass's own input contract: a pricing result is handed in exactly
    /// when the candidate has no row or a stale one.
    pub open spec fn valid_for(self, m: StoreModel) -> bool {
        self.priced is Some <==> spec_pricing_needed(
            m.apartments,
            self.candidate.card_id,
            self.now,
            self.window,
        )
    }
}

/// Running one pass step on the model.
pub open spec fn spec_pass_step(m: StoreModel, input: PassInput) -> StoreModel {
    spec_process_apartment(m, input.watchlist, input.candidate, input.priced, input.now, input.window)
}

/// Running any number of pass steps, oldest first.
pub open spec fn spec_run_passes(m: StoreModel, inputs: Seq<PassInput>) -> StoreModel
    decreases inputs.len(),
{
    if inputs.len() == 0 {
        m
    } else {
        spec_pass_step(spec_run_passes(m, inputs.drop_last()), inputs.last())
    }
}

/// Re-pricing a listing keeps the table duplicate-free and keeps its row
/// found at the same place, with only rent, yield and timestamp renewed.
pub proof fn lemma_update_rent_yield_facts(aps: Seq<Apartment>, card_id: i32, rent: i32, new_yield: i64, now: i64)
    requires
        crate::db::apartments_unique(aps),
        spec_has_apartment(aps, card_id),
    ensures
        crate::db::apartments_unique(spec_update_rent_yield(aps, card_id, rent, new_yield, now)),
        spec_has_apartment(spec_update_rent_yield(aps, card_id, rent, new_yield, now), card_id),
        spec_apartment(spec_update_rent_yield(aps, card_id, rent, new_yield, now), card_id)
            == (Apartment {
            rent: Some(rent),
            estimated_yield: Some(new_yield),
            updated_at: now,
            ..spec_apartment(aps, card_id)
        }),
{
    let aps1 = spec_update_rent_yield(aps, card_id, rent, new_yield, now);
    assert(forall|k: int| 0 <= k < aps1.len() ==> aps1[k].card_id == aps[k].card_id);
    let i = crate::db::apartment_index(aps, card_id);
    lemma_apartment_index_unique(aps1, card_id, i);
}

/// A freshly pushed row is the row its card id names afterwards.
pub proof fn lemma_push_apartment_facts(aps: Seq<Apartment>, row: Apartment)
    requires
        crate::db::apartments_unique(aps),
        !spec_has_apartment(aps, row.card_id),
    ensures
        crate::db::apartments_unique(aps.push(row)),
        spec_has_apartment(aps.push(row), row.card_id),
        spec_apartment(aps.push(row), row.card_id) == row,
        forall|cid: i32|
            cid != row.card_id ==> (spec_has_apartment(aps.push(row), cid) <==> spec_has_apartment(
                aps,
                cid,
            )),
{
    let aps1 = aps.push(row);
    assert(forall|k: int| 0 <= k < aps.len() ==> aps1[k] == aps[k]);
    assert(aps1[aps.len() as int] == row);
    lemma_apartment_index_unique(aps1, row.card_id, aps.len() as int);
    assert forall|cid: i32|
        cid != row.card_id && spec_has_apartment(aps1, cid) implies spec_has_apartment(
        aps,
        cid,
    ) by {
        let k = choose|k: int| 0 <= k < aps1.len() && aps1[k].card_id == cid;
        assert(k < aps.len());
        assert(aps[k].card_id == cid);
    }
}

/// A freshly pushed dedup row is the row its pair names afterwards.
pub proof fn lemma_push_link_facts(
    ls: Seq<crate::models::watchlist_apartment_index_model::WatchlistApartmentIndex>,
    row: crate::models::watchlist_apartment_index_model::WatchlistApartmentIndex,
)
    requires
        crate::db::links_unique(ls),
        !spec_has_link(ls, row.watchlist_id, row.card_id),
    ensures
        crate::db::links_unique(ls.push(row)),
        spec_has_link(ls.push(row), row.watchlist_id, row.card_id),
        crate::db::spec_link(ls.push(row), row.watchlist_id, row.card_id) == row,
        forall|wid: i32, cid: i32|
            !(wid == row.watchlist_id && cid == row.card_id) ==> (spec_has_link(ls.push(row), wid, cid)
                <==> spec_has_link(ls, wid, cid)),
        forall|wid: i32, cid: i32|
            spec_has_link(ls, wid, cid) ==> crate::db::spec_link(ls.push(row), wid, cid)
                == crate::db::spec_link(ls, wid, cid),
{
    let ls1 = ls.push(row);
    assert(forall|k: int| 0 <= k < ls.len() ==> ls1[k] == ls[k]);
    assert(ls1[ls.len() as int] == row);
    crate::db::lemma_link_index_unique(ls1, row.watchlist_id, row.card_id, ls.len() as int);
    assert forall|wid: i32, cid: i32|
        !(wid == row.watchlist_id && cid == row.card_id) && spec_has_link(
            ls1,
            wid,
            cid,
        ) implies spec_has_link(ls, wid, cid) by {
        let k = choose|k: int|
            0 <= k < ls1.len() && ls1[k].watchlist_id == wid && ls1[k].card_id == cid;
        assert(k < ls.len());
        assert(ls[k].watchlist_id == wid && ls[k].card_id == cid);
    }
    assert forall|wid: i32, cid: i32|
        spec_has_link(ls, wid, cid) implies crate::db::spec_link(ls1, wid, cid)
        == crate::db::spec_link(ls, wid, cid) by {
        let k = crate::db::link_index(ls, wid, cid);
        assert(ls1[k] == ls[k]);
        crate::db::lemma_link_index_unique(ls1, wid, cid, k);
    }
}

/// The pass preserves the store invariants: listings stay unique per card id
/// and the dedup index stays unique per pair.
pub proof fn lemma_pass_preserves_wf(m: StoreModel, input: PassInput)
    requires
        m.wf(),
    ensures
        spec_pass_step(m, input).wf(),
{
    let cand = input.candidate;
    let card_id = cand.card_id;
    let wl = input.watchlist;
    if spec_has_apartment(m.apartments, card_id) {
        let aps1 = if !spec_is_fresh(m.apartments, card_id, input.now, input.window) {
            match input.priced {
                Some(p) => spec_update_rent_yield(m.apartments, card_id, p.rent, p.estimated_yield, input.now),
                None => m.apartments,
            }
        } else {
            m.apartments
        };
        assert(crate::db::apartments_unique(aps1)) by {
            if aps1 != m.apartments {
                assert(forall|k: int| 0 <= k < aps1.len() ==> aps1[k].card_id == m.apartments[k].card_id);
            }
        }
        if !spec_has_link(m.links, wl.id, card_id) && spec_qualifies(
            spec_apartment(aps1, card_id).estimated_yield,
            wl.target_yield,
        ) {
            lemma_push_link_facts(m.links, spec_new_link(m.next_link_id as i32, wl.id, card_id, input.now));
        }
    } else {
        match input.priced {
            Some(p) => {
                let row = spec_apartment_row(
                    spec_priced_candidate(cand, p),
                    m.next_apartment_id as i32,
                    input.now,
                );
                lemma_push_apartment_facts(m.apartments, row);
                if !spec_has_link(m.links, wl.id, card_id) && spec_qualifies(
                    Some(p.estimated_yield),
                    wl.target_yield,
                ) {
                    lemma_push_link_facts(
                        m.links,
                        spec_new_link(m.next_link_id as i32, wl.id, card_id, input.now),
                    );
                }
            },
            None => {},
        }
    }
}

/// Dedup law: start from a well-formed store and run the producer pass any
/// number of times, with any inputs; no (watchlist, card) pair ever has more
/// than one dedup row.
pub proof fn lemma_passes_never_duplicate_links(
    m: StoreModel,
    inputs: Seq<PassInput>,
    watchlist_id: i32,
    card_id: i32,
)
    requires
        m.wf(),
    ensures
        spec_run_passes(m, inputs).wf(),
        crate::db::count_links(spec_run_passes(m, inputs).links, watchlist_id, card_id) <= 1,
    decreases inputs.len(),
{
    if inputs.len() == 0 {
        crate::db::lemma_links_unique_count_le_one(m.links, watchlist_id, card_id);
    } else {
        lemma_passes_never_duplicate_links(m, inputs.drop_last(), watchlist_id, card_id);
        lemma_pass_preserves_wf(spec_run_passes(m, inputs.drop_last()), inputs.last());
        crate::db::lemma_links_unique_count_le_one(
            spec_run_passes(m, inputs).links,
            watchlist_id,
            card_id,
        );
    }
}

/// Monotone `sent` law, pass half: a pair whose notification has gone out
/// stays sent through any pass step.
pub proof fn lemma_pass_keeps_sent(m: StoreModel, input: PassInput, watchlist_id: i32, card_id: i32)
    requires
        m.wf(),
        crate::db::spec_link_sent(m.links, watchlist_id, card_id),
    ensures
        crate::db::spec_link_sent(spec_pass_step(m, input).links, watchlist_id, card_id),
{
    let m1 = spec_pass_step(m, input);
    if m1.links != m.links {
        lemma_push_link_facts(
            m.links,
            spec_new_link(m.next_link_id as i32, input.watchlist.id, input.candidate.card_id, input.now),
        );
    }
}

/// Monotone `sent` law, delivery half: flipping one pair's flag to true never
/// clears any pair's flag, and the flipped pair is sent afterwards.
pub proof fn lemma_mark_sent_monotone(
    ls: Seq<crate::models::watchlist_apartment_index_model::WatchlistApartmentIndex>,
    watchlist_id: i32,
    card_id: i32,
    now: i64,
)
    requires
        crate::db::links_unique(ls),
    ensures
        forall|wid: i32, cid: i32|
            crate::db::spec_link_sent(ls, wid, cid) ==> crate::db::spec_link_sent(
                crate::db::spec_mark_sent(ls, watchlist_id, card_id, now),
                wid,
                cid,
            ),
        spec_has_link(ls, watchlist_id, card_id) ==> crate::db::spec_link_sent(
            crate::db::spec_mark_sent(ls, watchlist_id, card_id, now),
            watchlist_id,
            card_id,
        ),
{
    let ls1 = crate::db::spec_mark_sent(ls, watchlist_id, card_id, now);
    assert(forall|k: int|
        0 <= k < ls1.len() ==> ls1[k].watchlist_id == ls[k].watchlist_id && ls1[k].card_id
            == ls[k].card_id);
    assert(forall|k: int| 0 <= k < ls1.len() ==> (ls[k].has_been_sent ==> ls1[k].has_been_sent));
    assert forall|wid: i32, cid: i32|
        crate::db::spec_link_sent(ls, wid, cid) implies crate::db::spec_link_sent(
        ls1,
        wid,
        cid,
    ) by {
        let k = crate::db::link_index(ls, wid, cid);
        crate::db::lemma_link_index_unique(ls1, wid, cid, k);
    }
    if spec_has_link(ls, watchlist_id, card_id) {
        let k = crate::db::link_index(ls, watchlist_id, card_id);
        crate::db::lemma_link_index_unique(ls1, watchlist_id, card_id, k);
    }
}

/// The card ids the unsent query hands out are exactly the pairs that have an
/// unsent dedup row.
pub proof fn lemma_unsent_cards_iff(
    ls: Seq<crate::models::watchlist_apartment_index_model::WatchlistApartmentIndex>,
    watchlist_id: i32,
    card_id: i32,
)
    ensures
        crate::db::spec_unsent_cards(ls, watchlist_id).contains(card_id) <==> exists|i: int|
            0 <= i < ls.len() && ls[i].watchlist_id == watchlist_id && ls[i].card_id == card_id
                && !ls[i].has_been_sent,
    decreases ls.len(),
{
    let cards = crate::db::spec_unsent_cards(ls, watchlist_id);
    if ls.len() > 0 {
        let rest = ls.drop_last();
        lemma_unsent_cards_iff(rest, watchlist_id, card_id);
        assert(forall|i: int| 0 <= i < rest.len() ==> rest[i] == ls[i]);
        let rest_cards = crate::db::spec_unsent_cards(rest, watchlist_id);
        if rest_cards.contains(card_id) {
            let k = choose|k: int| 0 <= k < rest_cards.len() && rest_cards[k] == card_id;
            if ls.last().watchlist_id == watchlist_id && !ls.last().has_been_sent {
                assert(cards[k] == card_id);
            } else {
                assert(cards == rest_cards);
            }
            assert(cards.contains(card_id));
        }
        if cards.contains(card_id) {
            let k = choose|k: int| 0 <= k < cards.len() && cards[k] == card_id;
            if k < rest_cards.len() {
                assert(rest_cards[k] == card_id);
                assert(rest_cards.contains(card_id));
            }
        }
        if exists|i: int|
            0 <= i < ls.len() && ls[i].watchlist_id == watchlist_id && ls[i].card_id == card_id
                && !ls[i].has_been_sent {
            let i = choose|i: int|
                0 <= i < ls.len() && ls[i].watchlist_id == watchlist_id && ls[i].card_id == card_id
                    && !ls[i].has_been_sent;
            if i == ls.len() - 1 {
                assert(cards.last() == card_id);
            } else {
                assert(rest[i] == ls[i]);
            }
            assert(cards.contains(card_id));
        }
    }
}

/// No-renotification law: once a pair's notification has gone out, a pass
/// step never puts its card id back on the watchlist's unsent list.
pub proof fn lemma_pass_never_renotifies(m: StoreModel, input: PassInput)
    requires
        m.wf(),
        input.valid_for(m),
        crate::db::spec_link_sent(m.links, input.watchlist.id, input.candidate.card_id),
    ensures
        !crate::db::spec_unsent_cards(spec_pass_step(m, input).links, input.watchlist.id).contains(
            input.candidate.card_id,
        ),
{
    let wid = input.watchlist.id;
    let cid = input.candidate.card_id;
    let m1 = spec_pass_step(m, input);
    assert(m1.links == m.links);
    lemma_unsent_cards_iff(m.links, wid, cid);
    if crate::db::spec_unsent_cards(m.links, wid).contains(cid) {
        let i = choose|i: int|
            0 <= i < m.links.len() && m.links[i].watchlist_id == wid && m.links[i].card_id == cid
                && !m.links[i].has_been_sent;
        crate::db::lemma_link_index_unique(m.links, wid, cid, i);
    }
}

/// Qualification law: a pass step on a new candidate whose priced yield meets
/// the watchlist's target creates exactly one dedup row for the pair, not yet
/// sent, and puts the card id on the watchlist's unsent list — so exactly one
/// notification task follows.
pub proof fn lemma_new_qualifying_candidate_notified(m: StoreModel, input: PassInput)
    requires
        m.wf(),
        input.valid_for(m),
        !spec_has_apartment(m.apartments, input.candidate.card_id),
        !spec_has_link(m.links, input.watchlist.id, input.candidate.card_id),
        spec_qualifies(
            Some(input.priced->Some_0.estimated_yield),
            input.watchlist.target_yield,
        ),
    ensures
        crate::db::count_links(
            spec_pass_step(m, input).links,
            input.watchlist.id,
            input.candidate.card_id,
        ) == 1,
        !crate::db::spec_link_sent(
            spec_pass_step(m, input).links,
            input.watchlist.id,
            input.candidate.card_id,
        ),
        crate::db::spec_unsent_cards(spec_pass_step(m, input).links, input.watchlist.id).contains(
            input.candidate.card_id,
        ),
{
    let wid = input.watchlist.id;
    let cid = input.candidate.card_id;
    let row = spec_new_link(m.next_link_id as i32, wid, cid, input.now);
    let ls1 = spec_pass_step(m, input).links;
    assert(ls1 == m.links.push(row));
    assert(forall|k: int|
        0 <= k < m.links.len() ==> !(m.links[k].watchlist_id == wid && m.links[k].card_id == cid));
    crate::db::lemma_count_links_zero(m.links, wid, cid);
    assert(ls1.drop_last() =~= m.links);
    assert(ls1.last() == row);
    lemma_push_link_facts(m.links, row);
    assert(!crate::db::spec_link(ls1, wid, cid).has_been_sent);
    lemma_unsent_cards_iff(ls1, wid, cid);
    assert(ls1[m.links.len() as int].watchlist_id == wid && ls1[m.links.len() as int].card_id
        == cid && !ls1[m.links.len() as int].has_been_sent);
}

/// Freshness idempotence law, fresh half: a pass step on a candidate whose
/// listing is still fresh leaves the stored rent, yield and timestamp as they
/// were.
pub proof fn lemma_fresh_pass_keeps_pricing(m: StoreModel, input: PassInput)
    requires
        m.wf(),
        input.valid_for(m),
        spec_is_fresh(m.apartments, input.candidate.card_id, input.now, input.window),
    ensures
        spec_pass_step(m, input).apartments == m.apartments,
{
}

/// Freshness idempotence law, stale half: a pass step on a candidate whose
/// listing has gone stale stores the new rent and yield and makes the row
/// fresh again.
pub proof fn lemma_stale_pass_resets_freshness(m: StoreModel, input: PassInput)
    requires
        m.wf(),
        input.valid_for(m),
        spec_has_apartment(m.apartments, input.candidate.card_id),
        !spec_is_fresh(m.apartments, input.candidate.card_id, input.now, input.window),
        input.window > 0,
    ensures
        spec_has_apartment(spec_pass_step(m, input).apartments, input.candidate.card_id),
        spec_apartment(spec_pass_step(m, input).apartments, input.candidate.card_id).rent == Some(
            input.priced->Some_0.rent,
        ),
        spec_apartment(spec_pass_step(m, input).apartments, input.candidate.card_id).estimated_yield
            == Some(input.priced->Some_0.estimated_yield),
        spec_is_fresh(spec_pass_step(m, input).apartments, input.candidate.card_id, input.now, input.window),
{
    let cid = input.candidate.card_id;
    let p = input.priced->Some_0;
    lemma_update_rent_yield_facts(m.apartments, cid, p.rent, p.estimated_yield, input.now);
}

/// Packs the optional bounds of a watchlist into a size band for the search.
pub fn get_target_size(min: Option<i32>, max: Option<i32>) -> (t: SizeTarget)
    ensures
        t.min == min,
        t.max == max,
{
    let mut target_size = SizeTarget::empty();
    if let Some(min_size) = min {
        target_size.min = Some(min_size);
    }
    if let Some(max_size) = max {
        target_size.max = Some(max_size);
    }
    target_size
}

} // verus!
