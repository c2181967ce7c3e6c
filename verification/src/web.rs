//! Types of the HTTP front end that reach into the library. The routing and
//! the server itself live outside the library.

use vstd::prelude::*;

use crate::config::Config;

verus! {

/// What the HTTP handlers share: the process configuration.
#[derive(Debug)]
pub struct AppState {
    pub config: Config,
}

/// The query parameter every watchlist route carries.
#[derive(Debug, Clone, Copy, PartialEq, Eq, Structural)]
pub struct QueryChat {
    pub chat_id: i64,
}

} // verus!
