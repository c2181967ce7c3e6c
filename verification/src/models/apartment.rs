//! A listing (apartment) as the store keeps it.

use vstd::prelude::*;

use crate::models::watchlist::opt_str_view;

verus! {

/// A candidate listing before it has a store row: no id, no timestamps.
/// `size` is in whole square metres, money amounts in euros per month or in
/// euros, and `estimated_yield` is a rate in millionths (one percent is
/// 10_000 units).
#[derive(Debug)]
pub struct InsertableApartment {
    pub card_id: i32,
    pub location_id: Option<i32>,
    pub location_level: Option<i32>,
    pub location_name: Option<String>,
    pub size: Option<i32>,
    pub rooms: Option<i32>,
    pub price: Option<i32>,
    pub additional_costs: Option<i32>,
    pub rent: Option<i32>,
    pub estimated_yield: Option<i64>,
    pub url: Option<String>,
}

impl InsertableApartment {
    /// Row equality up to the identity of the heap-allocated strings.
    pub open spec fn data_eq(self, o: InsertableApartment) -> bool {
        &&& self.card_id == o.card_id
        &&& self.location_id == o.location_id
        &&& self.location_level == o.location_level
        &&& opt_str_view(self.location_name) == opt_str_view(o.location_name)
        &&& self.size == o.size
        &&& self.rooms == o.rooms
        &&& self.price == o.price
        &&& self.additional_costs == o.additional_costs
        &&& self.rent == o.rent
        &&& self.estimated_yield == o.estimated_yield
        &&& opt_str_view(self.url) == opt_str_view(o.url)
    }
}

impl Clone for InsertableApartment {
    fn clone(&self) -> (r: Self)
        ensures
            r.data_eq(*self),
    {
        InsertableApartment {
            card_id: self.card_id,
            location_id: self.location_id,
            location_level: self.location_level,
            location_name: clone_opt_string(&self.location_name),
            size: self.size,
            rooms: self.rooms,
            price: self.price,
            additional_costs: self.additional_costs,
            rent: self.rent,
            estimated_yield: self.estimated_yield,
            url: clone_opt_string(&self.url),
        }
    }
}

/// A persisted listing row. Unique per `card_id` in a well-formed store.
#[derive(Debug)]
pub struct Apartment {
    pub id: i32,
    pub card_id: i32,
    pub location_id: Option<i32>,
    pub location_level: Option<i32>,
    pub location_name: Option<String>,
    pub size: Option<i32>,
    pub rooms: Option<i32>,
    pub price: Option<i32>,
    pub additional_costs: Option<i32>,
    pub rent: Option<i32>,
    pub estimated_yield: Option<i64>,
    pub url: Option<String>,
    pub created_at: i64,
    pub updated_at: i64,
}

impl Apartment {
    /// Row equality up to the identity of the heap-allocated strings.
    pub open spec fn data_eq(self, o: Apartment) -> bool {
        &&& self.id == o.id
        &&& self.card_id == o.card_id
        &&& self.location_id == o.location_id
        &&& self.location_level == o.location_level
        &&& opt_str_view(self.location_name) == opt_str_view(o.location_name)
        &&& self.size == o.size
        &&& self.rooms == o.rooms
        &&& self.price == o.price
        &&& self.additional_costs == o.additional_costs
        &&& self.rent == o.rent
        &&& self.estimated_yield == o.estimated_yield
        &&& opt_str_view(self.url) == opt_str_view(o.url)
        &&& self.created_at == o.created_at
        &&& self.updated_at == o.updated_at
    }
}

impl Clone for Apartment {
    fn clone(&self) -> (r: Self)
        ensures
            r.data_eq(*self),
    {
        Apartment {
            id: self.id,
            card_id: self.card_id,
            location_id: self.location_id,
            location_level: self.location_level,
            location_name: clone_opt_string(&self.location_name),
            size: self.size,
            rooms: self.rooms,
            price: self.price,
            additional_costs: self.additional_costs,
            rent: self.rent,
            estimated_yield: self.estimated_yield,
            url: clone_opt_string(&self.url),
            created_at: self.created_at,
            updated_at: self.updated_at,
        }
    }
}

fn clone_opt_string(s: &Option<String>) -> (r: Option<String>)
    ensures
        opt_str_view(r) == opt_str_view(*s),
{
    match s {
        Some(x) => Some(x.clone()),
        None => None,
    }
}

} // verus!
