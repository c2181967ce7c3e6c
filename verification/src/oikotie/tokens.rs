//! Session tokens of the listing source.

use vstd::prelude::*;

verus! {

/// The three header values an authenticated listing-source request carries.
/// Fetched lazily and cached inside the adapter instance.
#[derive(Debug)]
pub struct OikotieTokens {
    pub loaded: String,
    pub cuid: String,
    pub token: String,
}

impl OikotieTokens {
    /// Token equality by contents.
    pub open spec fn data_eq(self, o: OikotieTokens) -> bool {
        &&& self.loaded@ == o.loaded@
        &&& self.cuid@ == o.cuid@
        &&& self.token@ == o.token@
    }
}

impl Clone for OikotieTokens {
    fn clone(&self) -> (r: Self)
        ensures
            r.data_eq(*self),
    {
        OikotieTokens {
            loaded: self.loaded.clone(),
            cuid: self.cuid.clone(),
            token: self.token.clone(),
        }
    }
}

} // verus!
