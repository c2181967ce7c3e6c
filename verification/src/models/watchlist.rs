//! A watchlist: a user's standing query against the listing source.

use vstd::prelude::*;

verus! {

/// A stored watchlist. `target_yield` is a rate in millionths (one percent is
/// 10_000 units), the unit every yield in the library is expressed in.
/// Timestamps are seconds.
#[derive(Debug)]
pub struct Watchlist {
    pub id: i32,
    pub location_id: i32,
    pub location_level: i32,
    pub location_name: String,
    pub chat_id: i64,
    pub target_yield: Option<i64>,
    pub created_at: i64,
    pub updated_at: i64,
    pub target_size_min: Option<i32>,
    pub target_size_max: Option<i32>,
}

/// The contents of an optional string, for contracts that follow a row
/// through a clone.
pub open spec fn opt_str_view(o: Option<String>) -> Option<Seq<char>> {
    match o {
        Some(s) => Some(s@),
        None => None,
    }
}

impl Watchlist {
    /// Row equality up to the identity of the heap-allocated strings.
    pub open spec fn data_eq(self, o: Watchlist) -> bool {
        &&& self.id == o.id
        &&& self.location_id == o.location_id
        &&& self.location_level == o.location_level
        &&& self.location_name@ == o.location_name@
        &&& self.chat_id == o.chat_id
        &&& self.target_yield == o.target_yield
        &&& self.created_at == o.created_at
        &&& self.updated_at == o.updated_at
        &&& self.target_size_min == o.target_size_min
        &&& self.target_size_max == o.target_size_max
    }
}

impl Clone for Watchlist {
    fn clone(&self) -> (r: Self)
        ensures
            r.data_eq(*self),
    {
        Watchlist {
            id: self.id,
            location_id: self.location_id,
            location_level: self.location_level,
            location_name: self.location_name.clone(),
            chat_id: self.chat_id,
            target_yield: self.target_yield,
            created_at: self.created_at,
            updated_at: self.updated_at,
            target_size_min: self.target_size_min,
            target_size_max: self.target_size_max,
        }
    }
}

/// An optional size band, in whole square metres.
#[derive(Debug, Clone, Copy, PartialEq, Eq)]
pub struct SizeTarget {
    pub min: Option<i32>,
    pub max: Option<i32>,
}

impl SizeTarget {
    pub fn empty() -> (t: Self)
        ensures
            t.min is None,
            t.max is None,
    {
        SizeTarget { min: None, max: None }
    }
}

} // verus!
