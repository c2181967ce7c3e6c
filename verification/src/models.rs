//! Data model of the pipeline: watchlists, listings and the dedup index rows.

pub mod apartment;
pub mod watchlist;
pub mod watchlist_apartment_index_model;
