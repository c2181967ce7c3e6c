//! Chat-command front-end types and their argument checks.

pub mod bot;
pub mod bot_types;
pub mod subscribe;
