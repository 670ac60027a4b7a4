//! Verified core of a line-oriented Slack command-line client.

pub mod text;
pub mod json;
pub mod error;
pub mod api;
pub mod listing;
pub mod cache;
pub mod resolve;
pub mod digest;
pub mod config;
pub mod version;
pub mod update;
pub mod compose;
