//! Errors of model calls.
use vstd::prelude::*;

verus! {

/// Why a model call failed.
#[derive(Debug)]
pub enum LLMError {
    /// The provider's client failed; the message describes how.
    OpenAIError(String),
    /// The network request failed; the message describes how.
    RequestError(String),
    /// The model output could not be parsed; the message describes how.
    ParseError(String),
    /// The response payload could not be (de)serialized; the message
    /// describes how.
    ResponseSerdeError(String),
    /// A header value is invalid: the header and its value.
    InvalidHeader(String, String),
    /// The response does not hold the expected content; the message says
    /// where it was expected.
    ContentNotFound(String),
    /// The model refused to answer; the refusal.
    Refused(String),
    /// The request asks for something the model does not support.
    Unsupported(String),
    /// Any other error.
    Other(String),
}

impl LLMError {
    /// An [`LLMError::InvalidHeader`] for `header` and `value`.
    pub fn invalid_header(header: &str, value: &str) -> (r: Self)
        ensures
            r matches LLMError::InvalidHeader(h, v) && h@ == header@ && v@ == value@,
    {
        LLMError::InvalidHeader(header.to_owned(), value.to_owned())
    }

    /// An [`LLMError::ContentNotFound`] with the given message.
    pub fn content_not_found(msg: &str) -> (r: Self)
        ensures
            r matches LLMError::ContentNotFound(m) && m@ == msg@,
    {
        LLMError::ContentNotFound(msg.to_owned())
    }

    /// An [`LLMError::Other`] with the given message.
    pub fn other(msg: &str) -> (r: Self)
        ensures
            r matches LLMError::Other(m) && m@ == msg@,
    {
        LLMError::Other(msg.to_owned())
    }
}

} // verus!
