//! Helpers for OpenAI chat completions.
pub mod client;
pub mod helper;
pub mod models;
