//! The listing-source adapter: its data types, its session-token state, and
//! the pure parts of its logic. The HTTP calls themselves live outside the
//! library and hand these functions plain values.

pub mod helpers;
pub mod oikotie;
pub mod tokens;
