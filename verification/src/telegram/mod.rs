//! Telegram channel: message model, commands, splitting and status text.

pub mod commands;
pub mod split;
pub mod status;
pub mod format;
pub mod api;
pub mod ingress;
pub mod runtime;
pub mod media;
pub mod stream;


