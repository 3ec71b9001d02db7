//! Verified core of the BobaClaw agent: text shaping, turn bookkeeping and
//! channel formatting rules.

pub mod text;
pub mod ids;
pub mod progress;
pub mod cancel;
pub mod context;
pub mod prompt;
pub mod review;
pub mod turn;
pub mod turn_context;
pub mod tools;
pub mod telegram;
pub mod web;
pub mod tool_loop;
pub mod conversation;
pub mod compaction;
pub mod subagent;
pub mod cli_backends;
pub mod channel;
pub mod spawn_completer;
pub mod sources;
pub mod scope_gate;
pub mod channel_delivery;
pub mod response;
