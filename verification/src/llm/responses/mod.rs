//! The responses API: its request payload and the reading of its output.
pub mod helper;
pub mod openai_responses;
pub mod request;
