//! Errors of output parsing.
use vstd::prelude::*;
use crate::schemas::ToolCall;

verus! {

/// Why model output could not be parsed.
#[derive(Debug)]
pub enum OutputParseError {
    /// The output is not the JSON expected: the deserialization error and the
    /// output as the model wrote it.
    Deserialize(serde_json::Error, String),
    /// The model called tools where text was expected.
    UnexpectedToolCall(Vec<ToolCall>),
    /// The input cannot be constructed without an output.
    InputRequired,
    /// Any other error, described by the message.
    Other(String),
}

} // verus!
