//! Watchlist services: the operations the front ends call.

pub mod watchlists;
