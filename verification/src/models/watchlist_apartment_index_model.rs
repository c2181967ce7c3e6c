//! The dedup/freshness index rows: one per (watchlist, listing) pair.

use vstd::prelude::*;

verus! {

/// One row of the dedup index. In a well-formed store there is at most one
/// row per `(watchlist_id, card_id)` pair, and `has_been_sent` only ever
/// moves from `false` to `true`.
#[derive(Debug, Clone, Copy, PartialEq, Eq, Structural)]
pub struct WatchlistApartmentIndex {
    pub id: i32,
    pub watchlist_id: i32,
    pub card_id: i32,
    pub has_been_sent: bool,
    pub created_at: i64,
    pub updated_at: i64,
}

} // verus!
