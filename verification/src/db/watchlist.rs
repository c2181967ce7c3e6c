//! Watchlist-table operations: subscriptions as the store keeps them.

use vstd::prelude::*;
use vstd::pervasive::VecAdditionalExecFns;

use crate::db::{
    spec_has_watchlist, spec_watchlist, watchlist_index,
    watchlists_unique, Store,
};
use crate::models::watchlist::{SizeTarget, Watchlist};
use crate::oikotie::oikotie::Location;

verus! {

/// Pointwise row equality of two watchlist tables, up to string identity.
pub open spec fn ws_data_eq(a: Seq<Watchlist>, b: Seq<Watchlist>) -> bool {
    &&& a.len() == b.len()
    &&& forall|i: int| 0 <= i < a.len() ==> a[i].data_eq(b[i])
}

/// The row a new subscription becomes.
pub open spec fn spec_watchlist_row(
    id: i32,
    location: Location,
    chat_id: i64,
    target_yield: Option<i64>,
    target_size: SizeTarget,
    now: i64,
) -> Watchlist {
    Watchlist {
        id: id,
        location_id: location.id,
        location_level: location.level,
        location_name: location.name,
        chat_id: chat_id,
        target_yield: target_yield,
        created_at: now,
        updated_at: now,
        target_size_min: target_size.min,
        target_size_max: target_size.max,
    }
}

/// Updating one watchlist's yield threshold; every other field and row kept.
pub open spec fn spec_update_target_yield(
    ws: Seq<Watchlist>,
    id: i32,
    new_yield: i64,
) -> Seq<Watchlist> {
    Seq::new(
        ws.len(),
        |i: int|
            if ws[i].id == id {
                Watchlist { target_yield: Some(new_yield), ..ws[i] }
            } else {
                ws[i]
            },
    )
}

/// A chat's watchlists, in row order.
pub open spec fn spec_for_chat(ws: Seq<Watchlist>, chat_id: i64) -> Seq<Watchlist>
    decreases ws.len(),
{
    if ws.len() == 0 {
        Seq::empty()
    } else {
        let rest = spec_for_chat(ws.drop_last(), chat_id);
        if ws.last().chat_id == chat_id {
            rest.push(ws.last())
        } else {
            rest
        }
    }
}

/// A chat's watchlists for one location name, in row order.
pub open spec fn spec_for_chat_and_location(
    ws: Seq<Watchlist>,
    chat_id: i64,
    location: Seq<char>,
) -> Seq<Watchlist>
    decreases ws.len(),
{
    if ws.len() == 0 {
        Seq::empty()
    } else {
        let rest = spec_for_chat_and_location(ws.drop_last(), chat_id, location);
        if ws.last().chat_id == chat_id && ws.last().location_name@ == location {
            rest.push(ws.last())
        } else {
            rest
        }
    }
}

/// Creates a watchlist row for a subscription.
pub fn insert(
    store: &mut Store,
    location: Location,
    new_chat_id: i64,
    new_target_yield: Option<i64>,
    target_size: SizeTarget,
    now: i64,
) -> (id: i32)
    requires
        old(store).wf(),
        old(store).next_watchlist_id < i32::MAX,
    ensures
        final(store).wf(),
        id == old(store).next_watchlist_id,
        final(store).watchlists@ == old(store).watchlists@.push(
            spec_watchlist_row(id, location, new_chat_id, new_target_yield, target_size, now),
        ),
        final(store).apartments@ == old(store).apartments@,
        final(store).links@ == old(store).links@,
        final(store).next_watchlist_id == old(store).next_watchlist_id + 1,
        final(store).next_apartment_id == old(store).next_apartment_id,
        final(store).next_link_id == old(store).next_link_id,
{
    let id = store.next_watchlist_id;
    let row = Watchlist {
        id: id,
        location_id: location.id,
        location_level: location.level,
        location_name: location.name,
        chat_id: new_chat_id,
        target_yield: new_target_yield,
        created_at: now,
        updated_at: now,
        target_size_min: target_size.min,
        target_size_max: target_size.max,
    };
    store.watchlists.push(row);
    store.next_watchlist_id = store.next_watchlist_id + 1;
    id
}

/// Removes a watchlist by id; a missing id makes this a no-op.
pub fn delete(store: &mut Store, watchlist_id: i32)
    requires
        old(store).wf(),
    ensures
        final(store).wf(),
        final(store).watchlists@ == if spec_has_watchlist(old(store).watchlists@, watchlist_id) {
            old(store).watchlists@.remove(watchlist_index(old(store).watchlists@, watchlist_id))
        } else {
            old(store).watchlists@
        },
        !spec_has_watchlist(final(store).watchlists@, watchlist_id),
        final(store).apartments@ == old(store).apartments@,
        final(store).links@ == old(store).links@,
        final(store).next_watchlist_id == old(store).next_watchlist_id,
        final(store).next_apartment_id == old(store).next_apartment_id,
        final(store).next_link_id == old(store).next_link_id,
{
    let n = store.watchlists.len();
    let mut i: usize = 0;
    while i < n
        invariant
            store.wf(),
            store == old(store),
            n == store.watchlists@.len(),
            0 <= i <= n,
            forall|k: int| 0 <= k < i ==> store.watchlists@[k].id != watchlist_id,
        decreases n - i,
    {
        if store.watchlists[i].id == watchlist_id {
            proof {
                lemma_watchlist_index_unique(store.watchlists@, watchlist_id, i as int);
            }
            store.watchlists.remove(i);
            proof {
                let ws1 = store.watchlists@;
                let ws0 = old(store).watchlists@;
                assert forall|k: int| 0 <= k < ws1.len() implies ws1[k].id != watchlist_id by {
                    if k < i {
                        assert(ws1[k] == ws0[k]);
                    } else {
                        assert(ws1[k] == ws0[k + 1]);
                    }
                }
                assert(watchlists_unique(ws1)) by {
                    assert forall|p: int, q: int|
                        0 <= p < q < ws1.len() implies ws1[p].id != ws1[q].id by {
                        let p0: int = if p < i { p } else { p + 1 };
                        let q0: int = if q < i { q } else { q + 1 };
                        assert(ws1[p] == ws0[p0] && ws1[q] == ws0[q0]);
                    }
                }
            }
            return ;
        }
        i += 1;
    }
}

/// Looks a watchlist up by id.
pub fn get_watchlist(store: &Store, watchlist_id: i32) -> (r: Option<Watchlist>)
    requires
        store.wf(),
    ensures
        r is Some <==> spec_has_watchlist(store.watchlists@, watchlist_id),
        match r {
            Some(w) => w.data_eq(spec_watchlist(store.watchlists@, watchlist_id)),
            None => true,
        },
{
    let n = store.watchlists.len();
    let mut i: usize = 0;
    while i < n
        invariant
            store.wf(),
            n == store.watchlists@.len(),
            0 <= i <= n,
            forall|k: int| 0 <= k < i ==> store.watchlists@[k].id != watchlist_id,
        decreases n - i,
    {
        if store.watchlists[i].id == watchlist_id {
            proof {
                lemma_watchlist_index_unique(store.watchlists@, watchlist_id, i as int);
            }
            return Some(store.watchlists[i].clone());
        }
        i += 1;
    }
    None
}

/// Updates a watchlist's yield threshold; a missing id makes this a no-op.
pub fn update_yield(store: &mut Store, target_id: i32, new_yield: i64)
    requires
        old(store).wf(),
    ensures
        final(store).wf(),
        final(store).watchlists@ == spec_update_target_yield(
            old(store).watchlists@,
            target_id,
            new_yield,
        ),
        final(store).apartments@ == old(store).apartments@,
        final(store).links@ == old(store).links@,
        final(store).next_watchlist_id == old(store).next_watchlist_id,
        final(store).next_apartment_id == old(store).next_apartment_id,
        final(store).next_link_id == old(store).next_link_id,
{
    let ghost ws0 = store.watchlists@;
    let ghost target = spec_update_target_yield(ws0, target_id, new_yield);
    let n = store.watchlists.len();
    let mut i: usize = 0;
    while i < n
        invariant
            n == store.watchlists@.len(),
            0 <= i <= n,
            ws0.len() == n,
            target == spec_update_target_yield(ws0, target_id, new_yield),
            forall|k: int| i <= k < n ==> store.watchlists@[k] == ws0[k],
            forall|k: int| 0 <= k < i ==> store.watchlists@[k] == target[k],
            store.apartments@ == old(store).apartments@,
            store.links@ == old(store).links@,
            store.next_apartment_id == old(store).next_apartment_id,
            store.next_link_id == old(store).next_link_id,
            store.next_watchlist_id == old(store).next_watchlist_id,
        decreases n - i,
    {
        if store.watchlists[i].id == target_id {
            let mut row = placeholder_watchlist();
            store.watchlists.set_and_swap(i, &mut row);
            row.target_yield = Some(new_yield);
            store.watchlists.set_and_swap(i, &mut row);
        }
        i += 1;
    }
    proof {
        assert(store.watchlists@ =~= target);
        assert(watchlists_unique(store.watchlists@) && crate::db::watchlist_ids_bounded(
            store.watchlists@,
            store.next_watchlist_id as int,
        )) by {
            assert(forall|k: int| 0 <= k < target.len() ==> target[k].id == ws0[k].id);
        }
    }
}

/// All watchlists, in row order.
pub fn get_all(store: &Store) -> (r: Vec<Watchlist>)
    ensures
        ws_data_eq(r@, store.watchlists@),
{
    let n = store.watchlists.len();
    let mut r: Vec<Watchlist> = Vec::new();
    let mut i: usize = 0;
    while i < n
        invariant
            n == store.watchlists@.len(),
            0 <= i <= n,
            r@.len() == i,
            forall|k: int| 0 <= k < i ==> r@[k].data_eq(store.watchlists@[k]),
        decreases n - i,
    {
        r.push(store.watchlists[i].clone());
        i += 1;
    }
    r
}

/// A chat's watchlists, in row order.
pub fn get_for_chat(store: &Store, id_: i64) -> (r: Vec<Watchlist>)
    ensures
        ws_data_eq(r@, spec_for_chat(store.watchlists@, id_)),
{
    let n = store.watchlists.len();
    let mut r: Vec<Watchlist> = Vec::new();
    let mut i: usize = 0;
    while i < n
        invariant
            n == store.watchlists@.len(),
            0 <= i <= n,
            ws_data_eq(r@, spec_for_chat(store.watchlists@.take(i as int), id_)),
        decreases n - i,
    {
        proof {
            assert(store.watchlists@.take(i + 1).drop_last() =~= store.watchlists@.take(i as int));
            assert(store.watchlists@.take(i + 1).last() == store.watchlists@[i as int]);
        }
        if store.watchlists[i].chat_id == id_ {
            r.push(store.watchlists[i].clone());
        }
        i += 1;
    }
    proof {
        assert(store.watchlists@.take(n as int) =~= store.watchlists@);
    }
    r
}

/// A chat's watchlists whose location name matches, in row order.
pub fn get_for_chat_and_location(store: &Store, id_: i64, location: &String) -> (r: Vec<Watchlist>)
    ensures
        ws_data_eq(r@, spec_for_chat_and_location(store.watchlists@, id_, location@)),
{
    let n = store.watchlists.len();
    let mut r: Vec<Watchlist> = Vec::new();
    let mut i: usize = 0;
    while i < n
        invariant
            n == store.watchlists@.len(),
            0 <= i <= n,
            ws_data_eq(
                r@,
                spec_for_chat_and_location(store.watchlists@.take(i as int), id_, location@),
            ),
        decreases n - i,
    {
        proof {
            assert(store.watchlists@.take(i + 1).drop_last() =~= store.watchlists@.take(i as int));
            assert(store.watchlists@.take(i + 1).last() == store.watchlists@[i as int]);
        }
        if store.watchlists[i].chat_id == id_ && store.watchlists[i].location_name.eq(location) {
            r.push(store.watchlists[i].clone());
        }
        i += 1;
    }
    proof {
        assert(store.watchlists@.take(n as int) =~= store.watchlists@);
    }
    r
}

/// Whether this watchlist id belongs to this chat.
pub fn check_chat(store: &Store, chat_id_to_check: i64, watchlist: i32) -> (r: bool)
    ensures
        r == exists|i: int|
            0 <= i < store.watchlists@.len() && store.watchlists@[i].id == watchlist
                && store.watchlists@[i].chat_id == chat_id_to_check,
{
    let n = store.watchlists.len();
    let mut i: usize = 0;
    while i < n
        invariant
            n == store.watchlists@.len(),
            0 <= i <= n,
            forall|k: int|
                0 <= k < i ==> !(store.watchlists@[k].id == watchlist && store.watchlists@[k].chat_id
                    == chat_id_to_check),
        decreases n - i,
    {
        if store.watchlists[i].id == watchlist && store.watchlists[i].chat_id == chat_id_to_check {
            return true;
        }
        i += 1;
    }
    false
}

/// In a duplicate-free watchlist table a matching row's index is the only
/// matching index.
pub proof fn lemma_watchlist_index_unique(ws: Seq<Watchlist>, id: i32, i: int)
    requires
        watchlists_unique(ws),
        0 <= i < ws.len(),
        ws[i].id == id,
    ensures
        spec_has_watchlist(ws, id),
        watchlist_index(ws, id) == i,
{
    assert(spec_has_watchlist(ws, id));
    let j = watchlist_index(ws, id);
    if j != i {
        if i < j {
            assert(ws[i].id != ws[j].id);
        } else {
            assert(ws[j].id != ws[i].id);
        }
    }
}

fn placeholder_watchlist() -> Watchlist {
    Watchlist {
        id: 0,
        location_id: 0,
        location_level: 0,
        location_name: String::new(),
        chat_id: 0,
        target_yield: None,
        created_at: 0,
        updated_at: 0,
        target_size_min: None,
        target_size_max: None,
    }
}

} // verus!
