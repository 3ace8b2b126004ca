//! Request payloads of chat completions and of the responses API, and how the
//! call options fill them in.
use vstd::prelude::*;
use std::collections::HashMap;
use crate::llm::options::LLMOptions;
use crate::schemas::{ReasoningEffort, ResponseFormat, ToolChoice};

verus! {

/// Options of a streamed response.
#[derive(PartialEq, Eq, Structural, Clone, Copy, Debug)]
pub struct StreamOptions {
    /// Whether the last piece of the stream reports the token usage.
    pub include_usage: bool,
}

/// A chat-completion request for the messages `M` (a list of messages, or a
/// history with a separate system message) and the tool list `T`.
#[derive(Debug)]
pub struct ChatRequest<M, T> {
    pub messages: M,
    pub model: String,
    pub stream: Option<bool>,
    pub stream_options: Option<StreamOptions>,
    pub tools: Option<T>,
    pub tool_choice: Option<ToolChoice>,
    pub parallel_tool_calls: Option<bool>,
    pub n: Option<u8>,
    pub reasoning_effort: Option<ReasoningEffort>,
    /// As `f32` bits.
    pub temperature: Option<u32>,
    /// As `f32` bits.
    pub top_p: Option<u32>,
    pub top_k: Option<u32>,
    /// As `f32` bits.
    pub frequency_penalty: Option<u32>,
    /// As `f32` bits.
    pub presence_penalty: Option<u32>,
    /// As `f32` bits.
    pub repetition_penalty: Option<u32>,
    pub max_tokens: Option<u32>,
    pub max_completion_tokens: Option<u32>,
    pub stop: Option<Vec<String>>,
    pub response_format: Option<ResponseFormat>,
    pub extra_params: HashMap<String, serde_json::Value>,
}

impl<M, T> ChatRequest<M, T> {
    /// A request for `model` with `messages` and the tools `function_specs`,
    /// and no option set.
    pub fn new(model: &str, messages: M, function_specs: Option<T>) -> (r: Self)
        ensures
            r.model@ == model@,
            r.messages == messages,
            r.tools == function_specs,
            r.stream is None,
            r.stream_options is None,
            r.tool_choice is None,
            r.parallel_tool_calls is None,
            r.n is None,
            r.reasoning_effort is None,
            r.temperature is None,
            r.top_p is None,
            r.top_k is None,
            r.frequency_penalty is None,
            r.presence_penalty is None,
            r.repetition_penalty is None,
            r.max_tokens is None,
            r.max_completion_tokens is None,
            r.stop is None,
            r.response_format is None,
            r.extra_params@ == Map::<String, serde_json::Value>::empty(),
    {
        ChatRequest {
            messages,
            model: model.to_owned(),
            stream: None,
            stream_options: None,
            tools: function_specs,
            tool_choice: None,
            parallel_tool_calls: None,
            n: None,
            reasoning_effort: None,
            temperature: None,
            top_p: None,
            top_k: None,
            frequency_penalty: None,
            presence_penalty: None,
            repetition_penalty: None,
            max_tokens: None,
            max_completion_tokens: None,
            stop: None,
            response_format: None,
            extra_params: HashMap::new(),
        }
    }

    /// The request with the call options applied: every option is taken from
    /// `options` (a streamed request asks for the usage; `max_tokens` is left
    /// out when `max_completion_tokens` is set; the extra parameters of the
    /// request stay unless the options give some); messages, model and tools
    /// are kept.
    pub fn with_options(self, options: LLMOptions) -> (r: Self)
        ensures
            r.messages == self.messages,
            r.model == self.model,
            r.tools == self.tools,
            r.stream == options.stream,
            r.stream_options == (if options.stream == Some(true) {
                Some(StreamOptions { include_usage: true })
            } else {
                None
            }),
            r.tool_choice == options.tool_choice,
            r.parallel_tool_calls == options.parallel_tool_calls,
            r.n == options.n,
            r.reasoning_effort == options.reasoning_effort,
            r.temperature == options.temperature,
            r.top_p == options.top_p,
            r.top_k == options.top_k,
            r.frequency_penalty == options.frequency_penalty,
            r.presence_penalty == options.presence_penalty,
            r.repetition_penalty == options.repetition_penalty,
            r.max_tokens == (if options.max_completion_tokens is Some {
                None
            } else {
                options.max_tokens
            }),
            r.max_completion_tokens == options.max_completion_tokens,
            r.stop == options.stop_words,
            r.response_format == options.response_format,
            r.extra_params == (match options.extra_params {
                Some(p) => p,
                None => self.extra_params,
            }),
    {
        let stream_options = match options.stream {
            Some(true) => Some(StreamOptions { include_usage: true }),
            _ => None,
        };
        let max_tokens = match options.max_completion_tokens {
            Some(_) => None,
            None => options.max_tokens,
        };
        let extra_params = match options.extra_params {
            Some(p) => p,
            None => self.extra_params,
        };
        ChatRequest {
            messages: self.messages,
            model: self.model,
            tools: self.tools,
            tool_choice: options.tool_choice,
            parallel_tool_calls: options.parallel_tool_calls,
            stream: options.stream,
            stream_options,
            n: options.n,
            reasoning_effort: options.reasoning_effort,
            temperature: options.temperature,
            top_p: options.top_p,
            top_k: options.top_k,
            frequency_penalty: options.frequency_penalty,
            presence_penalty: options.presence_penalty,
            repetition_penalty: options.repetition_penalty,
            max_tokens,
            max_completion_tokens: options.max_completion_tokens,
            stop: options.stop_words,
            response_format: options.response_format,
            extra_params,
        }
    }
}

} // verus!
