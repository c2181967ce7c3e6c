//! The pricing pass over all watchlists.

use vstd::prelude::*;

use crate::db::watchlist::ws_data_eq;
use crate::db::Store;
use crate::models::watchlist::Watchlist;

verus! {

/// A marker for the pricing loop; on each tick it prices every watchlist's
/// listings in turn.
pub struct PricingProducer;

impl PricingProducer {
    /// The plan of one pricing tick: every watchlist, in row order. The
    /// caller walks the plan and prices each watchlist's candidates.
    pub fn plan_run(store: &Store) -> (r: Vec<Watchlist>)
        ensures
            ws_data_eq(r@, store.watchlists@),
    {
        crate::db::watchlist::get_all(store)
    }
}

} // verus!
