//! Argument bundles of the subscription command.

use vstd::prelude::*;

verus! {

/// A fully resolved subscription request. Sizes are square metres and
/// `target_yield` is a whole percent value, as the user typed them.
#[derive(Debug, PartialEq, Eq)]
pub struct Subscription {
    pub chat_id: i64,
    pub location: String,
    pub target_yield: u32,
    pub min_size: Option<u32>,
    pub max_size: Option<u32>,
}

/// What the subscription command's text parsed into; any part may be missing.
#[derive(Debug, PartialEq, Eq)]
pub struct SubscriptionArgs {
    pub location: String,
    pub target_yield: Option<u32>,
    pub min_size: Option<u32>,
    pub max_size: Option<u32>,
}

impl Clone for SubscriptionArgs {
    fn clone(&self) -> (r: Self)
        ensures
            r.location@ == self.location@,
            r.target_yield == self.target_yield,
            r.min_size == self.min_size,
            r.max_size == self.max_size,
    {
        SubscriptionArgs {
            location: self.location.clone(),
            target_yield: self.target_yield,
            min_size: self.min_size,
            max_size: self.max_size,
        }
    }
}

} // verus!
