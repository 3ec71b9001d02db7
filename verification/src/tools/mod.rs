//! Tool names, argument validation and result shaping for the agent's tools.

pub mod names;
pub mod paths;
pub mod exec;
pub mod run_view;
pub mod web;
pub mod delegation;
pub mod router;
pub mod skills;
pub mod memory;
pub mod schedule;
pub mod files;
pub mod specs;
