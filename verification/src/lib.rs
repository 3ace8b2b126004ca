//! Verified core of a toolkit for building applications on large language models:
//! output-text repair and extraction, conversation memories, tool-call step buffering,
//! the history of chat sessions, call options, and the aggregation of streamed
//! responses.

pub mod json;
pub mod llm;
pub mod memory;
pub mod pattern;
pub mod schemas;
pub mod text;
pub mod output_parser;
