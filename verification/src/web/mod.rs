//! The web channel: API token checks, SSE events and display helpers.

pub mod auth;
pub mod events;
pub mod api;
