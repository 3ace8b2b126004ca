//! Request payload of the responses API.
use vstd::prelude::*;
use crate::llm::options::LLMOptions;
use crate::schemas::{ReasoningEffort, ResponseFormat, ToolChoice};

verus! {

/// Whether reasoning is summarized.
#[derive(PartialEq, Eq, Structural, Clone, Copy, Debug)]
pub enum ReasoningSummary {
    Auto,
    Concise,
    Detailed,
}

/// Reasoning configuration.
#[derive(PartialEq, Eq, Structural, Clone, Copy, Debug)]
pub struct ReasoningConfig {
    pub effort: Option<ReasoningEffort>,
    pub summary: Option<ReasoningSummary>,
}

/// Configuration of a text response.
#[derive(Debug)]
pub struct TextConfig {
    pub format: ResponseFormat,
}

/// A request of the responses API for the input `I` and the tool list `T`.
#[derive(Debug)]
pub struct ResponsesRequest<I, T> {
    pub input: I,
    pub model: String,
    pub stream: Option<bool>,
    pub tools: Option<T>,
    pub tool_choice: Option<ToolChoice>,
    pub max_tool_calls: Option<u32>,
    pub parallel_tool_calls: Option<bool>,
    /// As `f32` bits.
    pub temperature: Option<u32>,
    /// As `f32` bits.
    pub top_p: Option<u32>,
    pub top_k: Option<u32>,
    /// As `f32` bits.
    pub repetition_penalty: Option<u32>,
    /// As `f32` bits.
    pub frequency_penalty: Option<u32>,
    /// As `f32` bits.
    pub presence_penalty: Option<u32>,
    pub reasoning: Option<ReasoningConfig>,
    pub max_output_tokens: Option<u32>,
    pub stop: Option<Vec<String>>,
    pub text: Option<TextConfig>,
}

impl<I, T> ResponsesRequest<I, T> {
    /// A request for `model` with `input` and `tools`, and no option set.
    pub fn new(model: &str, input: I, tools: Option<T>) -> (r: Self)
        ensures
            r.model@ == model@,
            r.input == input,
            r.tools == tools,
            r.stream is None,
            r.tool_choice is None,
            r.max_tool_calls is None,
            r.parallel_tool_calls is None,
            r.temperature is None,
            r.top_p is None,
            r.top_k is None,
            r.repetition_penalty is None,
            r.frequency_penalty is None,
            r.presence_penalty is None,
            r.reasoning is None,
            r.max_output_tokens is None,
            r.stop is None,
            r.text is None,
    {
        ResponsesRequest {
            input,
            model: model.to_owned(),
            stream: None,
            tools,
            tool_choice: None,
            max_tool_calls: None,
            parallel_tool_calls: None,
            temperature: None,
            top_p: None,
            top_k: None,
            repetition_penalty: None,
            frequency_penalty: None,
            presence_penalty: None,
            reasoning: None,
            max_output_tokens: None,
            stop: None,
            text: None,
        }
    }

    /// The request with the call options applied: streaming, tool choice,
    /// parallel tool calls, sampling parameters, stop words, a reasoning
    /// configuration with the effort (summaries on automatic), the maximum
    /// output tokens (`max_completion_tokens`, which takes precedence, else
    /// `max_tokens`), and the response format; input, model, tools and the
    /// maximum number of tool calls are kept.
    pub fn with_options(self, options: LLMOptions) -> (r: Self)
        ensures
            r.input == self.input,
            r.model == self.model,
            r.tools == self.tools,
            r.max_tool_calls == self.max_tool_calls,
            r.parallel_tool_calls == options.parallel_tool_calls,
            r.stream == options.stream,
            r.tool_choice == options.tool_choice,
            r.reasoning == (match options.reasoning_effort {
                Some(re) => Some(
                    ReasoningConfig { effort: Some(re), summary: Some(ReasoningSummary::Auto) },
                ),
                None => None,
            }),
            r.temperature == options.temperature,
            r.top_p == options.top_p,
            r.top_k == options.top_k,
            r.repetition_penalty == options.repetition_penalty,
            r.frequency_penalty == options.frequency_penalty,
            r.presence_penalty == options.presence_penalty,
            r.max_output_tokens == (match options.max_completion_tokens {
                Some(m) => Some(m),
                None => options.max_tokens,
            }),
            r.stop == options.stop_words,
            r.text == (match options.response_format {
                Some(rf) => Some(TextConfig { format: rf }),
                None => None,
            }),
    {
        let reasoning = match options.reasoning_effort {
            Some(re) => Some(ReasoningConfig { effort: Some(re), summary: Some(ReasoningSummary::Auto) }),
            None => None,
        };
        let text = match options.response_format {
            Some(rf) => Some(TextConfig { format: rf }),
            None => None,
        };
        ResponsesRequest {
            input: self.input,
            model: self.model,
            tools: self.tools,
            max_tool_calls: self.max_tool_calls,
            parallel_tool_calls: options.parallel_tool_calls,
            stream: options.stream,
            tool_choice: options.tool_choice,
            reasoning,
            temperature: options.temperature,
            top_p: options.top_p,
            top_k: options.top_k,
            repetition_penalty: options.repetition_penalty,
            frequency_penalty: options.frequency_penalty,
            presence_penalty: options.presence_penalty,
            max_output_tokens: match options.max_completion_tokens {
                Some(m) => Some(m),
                None => options.max_tokens,
            },
            stop: options.stop_words,
            text,
        }
    }
}

} // verus!
