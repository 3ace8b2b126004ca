//! Options of model calls.
use vstd::prelude::*;
use std::collections::HashMap;
use crate::schemas::{ReasoningEffort, ResponseFormat, ToolChoice};

verus! {

/// `a` when present, else `b`.
pub open spec fn either<T>(a: Option<T>, b: Option<T>) -> Option<T> {
    match a {
        Some(x) => Some(x),
        None => b,
    }
}

fn or_keep<T>(a: Option<T>, b: Option<T>) -> (r: Option<T>)
    ensures
        r == either(a, b),
{
    match a {
        Some(x) => Some(x),
        None => b,
    }
}

/// Options of a model call. Every option is optional; an absent one leaves the
/// provider's default.
///
/// Sampling parameters that are floating-point numbers (temperature, `top_p`
/// and the penalties) are held as the bits of their `f32` value
/// (`f32::to_bits`).
#[derive(Debug, Clone)]
pub struct LLMOptions {
    /// Whether the response is streamed as it is generated.
    pub stream: Option<bool>,
    /// Which (if any) tool the model calls.
    pub tool_choice: Option<ToolChoice>,
    /// Whether tool calls may run in parallel.
    pub parallel_tool_calls: Option<bool>,
    /// How many choices to generate.
    pub n: Option<u8>,
    /// How much a reasoning model may reason.
    pub reasoning_effort: Option<ReasoningEffort>,
    /// The sampling temperature, as `f32` bits.
    pub temperature: Option<u32>,
    /// The `top_p` of nucleus sampling, as `f32` bits.
    pub top_p: Option<u32>,
    /// The `top_k` of top-k sampling.
    pub top_k: Option<u32>,
    /// The frequency penalty, as `f32` bits.
    pub frequency_penalty: Option<u32>,
    /// The presence penalty, as `f32` bits.
    pub presence_penalty: Option<u32>,
    /// The repetition penalty, as `f32` bits.
    pub repetition_penalty: Option<u32>,
    /// The maximum number of tokens to generate; ignored when
    /// `max_completion_tokens` is set.
    pub max_tokens: Option<u32>,
    /// The maximum number of tokens to generate.
    pub max_completion_tokens: Option<u32>,
    /// Sequences that stop the generation.
    pub stop_words: Option<Vec<String>>,
    /// The format of the output.
    pub response_format: Option<ResponseFormat>,
    /// Extra parameters for custom APIs.
    pub extra_params: Option<HashMap<String, serde_json::Value>>,
    /// Whether system messages are sent as assistant messages.
    pub system_is_assistant: Option<bool>,
    /// Whether the "thought" part of responses is left out of later requests.
    pub drop_thought: Option<bool>,
}

impl LLMOptions {
    /// Whether no option is set.
    pub open spec fn is_empty(&self) -> bool {
        &&& self.stream is None
        &&& self.tool_choice is None
        &&& self.parallel_tool_calls is None
        &&& self.n is None
        &&& self.reasoning_effort is None
        &&& self.temperature is None
        &&& self.top_p is None
        &&& self.top_k is None
        &&& self.frequency_penalty is None
        &&& self.presence_penalty is None
        &&& self.repetition_penalty is None
        &&& self.max_tokens is None
        &&& self.max_completion_tokens is None
        &&& self.stop_words is None
        &&& self.response_format is None
        &&& self.extra_params is None
        &&& self.system_is_assistant is None
        &&& self.drop_thought is None
    }

    /// Options with nothing set.
    pub fn new() -> (r: Self)
        ensures
            r.is_empty(),
    {
        LLMOptions {
            stream: None,
            tool_choice: None,
            parallel_tool_calls: None,
            n: None,
            reasoning_effort: None,
            temperature: None,
            top_p: None,
            top_k: None,
            frequency_penalty: None,
            presence_penalty: None,
            repetition_penalty: None,
            max_tokens: None,
            max_completion_tokens: None,
            stop_words: None,
            response_format: None,
            system_is_assistant: None,
            drop_thought: None,
            extra_params: None,
        }
    }
}

impl Default for LLMOptions {
    fn default() -> (r: Self)
        ensures
            r.is_empty(),
    {
        LLMOptions::new()
    }
}

impl LLMOptions {
    /// Sets whether the response is streamed.
    pub fn with_stream(self, stream: bool) -> (r: Self)
        ensures
            r == (LLMOptions { stream: Some(stream), ..self }),
    {
        LLMOptions { stream: Some(stream), ..self }
    }

    /// Sets which (if any) tool the model calls.
    pub fn with_tool_choice(self, tool_choice: ToolChoice) -> (r: Self)
        ensures
            r == (LLMOptions { tool_choice: Some(tool_choice), ..self }),
    {
        LLMOptions { tool_choice: Some(tool_choice), ..self }
    }

    /// Sets whether tool calls may run in parallel.
    pub fn with_parallel_tool_calls(self, parallel_tool_calls: bool) -> (r: Self)
        ensures
            r == (LLMOptions { parallel_tool_calls: Some(parallel_tool_calls), ..self }),
    {
        LLMOptions { parallel_tool_calls: Some(parallel_tool_calls), ..self }
    }

    /// Sets how many choices to generate.
    pub fn with_n(self, n: u8) -> (r: Self)
        ensures
            r == (LLMOptions { n: Some(n), ..self }),
    {
        LLMOptions { n: Some(n), ..self }
    }

    /// Sets how much a reasoning model may reason.
    pub fn with_reasoning_effort(self, reasoning_effort: ReasoningEffort) -> (r: Self)
        ensures
            r == (LLMOptions { reasoning_effort: Some(reasoning_effort), ..self }),
    {
        LLMOptions { reasoning_effort: Some(reasoning_effort), ..self }
    }

    /// Sets the maximum number of tokens to generate (ignored when `max_completion_tokens` is set).
    pub fn with_max_tokens(self, max_tokens: u32) -> (r: Self)
        ensures
            r == (LLMOptions { max_tokens: Some(max_tokens), ..self }),
    {
        LLMOptions { max_tokens: Some(max_tokens), ..self }
    }

    /// Sets the maximum number of tokens to generate.
    pub fn with_max_completion_tokens(self, max_completion_tokens: u32) -> (r: Self)
        ensures
            r == (LLMOptions { max_completion_tokens: Some(max_completion_tokens), ..self }),
    {
        LLMOptions { max_completion_tokens: Some(max_completion_tokens), ..self }
    }

    /// Sets the `top_p` of nucleus sampling, given as the bits of an `f32`.
    pub fn with_top_p(self, top_p: u32) -> (r: Self)
        ensures
            r == (LLMOptions { top_p: Some(top_p), ..self }),
    {
        LLMOptions { top_p: Some(top_p), ..self }
    }

    /// Sets the `top_k` of top-k sampling.
    pub fn with_top_k(self, top_k: u32) -> (r: Self)
        ensures
            r == (LLMOptions { top_k: Some(top_k), ..self }),
    {
        LLMOptions { top_k: Some(top_k), ..self }
    }

    /// Sets the frequency penalty, given as the bits of an `f32`.
    pub fn with_frequency_penalty(self, frequency_penalty: u32) -> (r: Self)
        ensures
            r == (LLMOptions { frequency_penalty: Some(frequency_penalty), ..self }),
    {
        LLMOptions { frequency_penalty: Some(frequency_penalty), ..self }
    }

    /// Sets the presence penalty, given as the bits of an `f32`.
    pub fn with_presence_penalty(self, presence_penalty: u32) -> (r: Self)
        ensures
            r == (LLMOptions { presence_penalty: Some(presence_penalty), ..self }),
    {
        LLMOptions { presence_penalty: Some(presence_penalty), ..self }
    }

    /// Sets the repetition penalty, given as the bits of an `f32`.
    pub fn with_repetition_penalty(self, repetition_penalty: u32) -> (r: Self)
        ensures
            r == (LLMOptions { repetition_penalty: Some(repetition_penalty), ..self }),
    {
        LLMOptions { repetition_penalty: Some(repetition_penalty), ..self }
    }

    /// Sets the sampling temperature, given as the bits of an `f32`.
    pub fn with_temperature(self, temperature: u32) -> (r: Self)
        ensures
            r == (LLMOptions { temperature: Some(temperature), ..self }),
    {
        LLMOptions { temperature: Some(temperature), ..self }
    }

    /// Sets the sequences that stop the generation.
    pub fn with_stop_words(self, stop_words: Vec<String>) -> (r: Self)
        ensures
            r == (LLMOptions { stop_words: Some(stop_words), ..self }),
    {
        LLMOptions { stop_words: Some(stop_words), ..self }
    }

    /// Sets the format of the output.
    pub fn with_response_format(self, response_format: ResponseFormat) -> (r: Self)
        ensures
            r == (LLMOptions { response_format: Some(response_format), ..self }),
    {
        LLMOptions { response_format: Some(response_format), ..self }
    }

    /// Sets whether system messages are sent as assistant messages.
    pub fn with_system_is_assistant(self, system_is_assistant: bool) -> (r: Self)
        ensures
            r == (LLMOptions { system_is_assistant: Some(system_is_assistant), ..self }),
    {
        LLMOptions { system_is_assistant: Some(system_is_assistant), ..self }
    }

    /// Sets whether the "thought" part of responses is left out of later requests.
    pub fn with_drop_thought(self, drop_thought: bool) -> (r: Self)
        ensures
            r == (LLMOptions { drop_thought: Some(drop_thought), ..self }),
    {
        LLMOptions { drop_thought: Some(drop_thought), ..self }
    }

    /// Sets extra parameters for custom APIs.
    pub fn with_extra_params(self, extra_params: HashMap<String, serde_json::Value>) -> (r: Self)
        ensures
            r == (LLMOptions { extra_params: Some(extra_params), ..self }),
    {
        LLMOptions { extra_params: Some(extra_params), ..self }
    }
}

/// The options `a` once `b` is merged into them: every option that `b` sets
/// replaces the one of `a`; the others keep the value of `a`.
pub open spec fn options_merged(a: LLMOptions, b: LLMOptions) -> LLMOptions {
    LLMOptions {
        stream: either(b.stream, a.stream),
        tool_choice: either(b.tool_choice, a.tool_choice),
        parallel_tool_calls: either(b.parallel_tool_calls, a.parallel_tool_calls),
        n: either(b.n, a.n),
        reasoning_effort: either(b.reasoning_effort, a.reasoning_effort),
        temperature: either(b.temperature, a.temperature),
        top_p: either(b.top_p, a.top_p),
        top_k: either(b.top_k, a.top_k),
        frequency_penalty: either(b.frequency_penalty, a.frequency_penalty),
        presence_penalty: either(b.presence_penalty, a.presence_penalty),
        repetition_penalty: either(b.repetition_penalty, a.repetition_penalty),
        max_tokens: either(b.max_tokens, a.max_tokens),
        max_completion_tokens: either(b.max_completion_tokens, a.max_completion_tokens),
        stop_words: either(b.stop_words, a.stop_words),
        response_format: either(b.response_format, a.response_format),
        extra_params: either(b.extra_params, a.extra_params),
        system_is_assistant: either(b.system_is_assistant, a.system_is_assistant),
        drop_thought: either(b.drop_thought, a.drop_thought),
    }
}

impl LLMOptions {
    /// Merges another [`LLMOptions`] into this one: for each option, one that
    /// `other` sets replaces the existing value, and an unset one keeps it.
    pub fn merge_inplace(&mut self, other: LLMOptions)
        ensures
            *final(self) == options_merged(*old(self), other),
    {
        let mut current = LLMOptions::new();
        std::mem::swap(&mut current, self);
        let LLMOptions {
            stream,
            tool_choice,
            parallel_tool_calls,
            n,
            reasoning_effort,
            temperature,
            top_p,
            top_k,
            frequency_penalty,
            presence_penalty,
            repetition_penalty,
            max_tokens,
            max_completion_tokens,
            stop_words,
            response_format,
            extra_params,
            system_is_assistant,
            drop_thought,
        } = other;
        *self = LLMOptions {
            stream: or_keep(stream, current.stream),
            tool_choice: or_keep(tool_choice, current.tool_choice),
            parallel_tool_calls: or_keep(parallel_tool_calls, current.parallel_tool_calls),
            n: or_keep(n, current.n),
            reasoning_effort: or_keep(reasoning_effort, current.reasoning_effort),
            temperature: or_keep(temperature, current.temperature),
            top_p: or_keep(top_p, current.top_p),
            top_k: or_keep(top_k, current.top_k),
            frequency_penalty: or_keep(frequency_penalty, current.frequency_penalty),
            presence_penalty: or_keep(presence_penalty, current.presence_penalty),
            repetition_penalty: or_keep(repetition_penalty, current.repetition_penalty),
            max_tokens: or_keep(max_tokens, current.max_tokens),
            max_completion_tokens: or_keep(max_completion_tokens, current.max_completion_tokens),
            stop_words: or_keep(stop_words, current.stop_words),
            response_format: or_keep(response_format, current.response_format),
            extra_params: or_keep(extra_params, current.extra_params),
            system_is_assistant: or_keep(system_is_assistant, current.system_is_assistant),
            drop_thought: or_keep(drop_thought, current.drop_thought),
        };
    }

    /// These options with `other` merged into them (see [`options_merged`]).
    pub fn merge(self, other: Self) -> (r: Self)
        ensures
            r == options_merged(self, other),
    {
        let mut s = self;
        s.merge_inplace(other);
        s
    }
}

/// Merging lets the incoming options win, option by option: every option that
/// `b` sets is taken from `b`, and every option that `b` leaves unset keeps
/// the value it has in `a`.
pub proof fn lemma_merge_incoming_wins(a: LLMOptions, b: LLMOptions)
    ensures
        b.stream is Some ==> options_merged(a, b).stream == b.stream,
        b.stream is None ==> options_merged(a, b).stream == a.stream,
        b.tool_choice is Some ==> options_merged(a, b).tool_choice == b.tool_choice,
        b.tool_choice is None ==> options_merged(a, b).tool_choice == a.tool_choice,
        b.parallel_tool_calls is Some ==> options_merged(a, b).parallel_tool_calls == b.parallel_tool_calls,
        b.parallel_tool_calls is None ==> options_merged(a, b).parallel_tool_calls == a.parallel_tool_calls,
        b.n is Some ==> options_merged(a, b).n == b.n,
        b.n is None ==> options_merged(a, b).n == a.n,
        b.reasoning_effort is Some ==> options_merged(a, b).reasoning_effort == b.reasoning_effort,
        b.reasoning_effort is None ==> options_merged(a, b).reasoning_effort == a.reasoning_effort,
        b.temperature is Some ==> options_merged(a, b).temperature == b.temperature,
        b.temperature is None ==> options_merged(a, b).temperature == a.temperature,
        b.top_p is Some ==> options_merged(a, b).top_p == b.top_p,
        b.top_p is None ==> options_merged(a, b).top_p == a.top_p,
        b.top_k is Some ==> options_merged(a, b).top_k == b.top_k,
        b.top_k is None ==> options_merged(a, b).top_k == a.top_k,
        b.frequency_penalty is Some ==> options_merged(a, b).frequency_penalty == b.frequency_penalty,
        b.frequency_penalty is None ==> options_merged(a, b).frequency_penalty == a.frequency_penalty,
        b.presence_penalty is Some ==> options_merged(a, b).presence_penalty == b.presence_penalty,
        b.presence_penalty is None ==> options_merged(a, b).presence_penalty == a.presence_penalty,
        b.repetition_penalty is Some ==> options_merged(a, b).repetition_penalty == b.repetition_penalty,
        b.repetition_penalty is None ==> options_merged(a, b).repetition_penalty == a.repetition_penalty,
        b.max_tokens is Some ==> options_merged(a, b).max_tokens == b.max_tokens,
        b.max_tokens is None ==> options_merged(a, b).max_tokens == a.max_tokens,
        b.max_completion_tokens is Some ==> options_merged(a, b).max_completion_tokens == b.max_completion_tokens,
        b.max_completion_tokens is None ==> options_merged(a, b).max_completion_tokens == a.max_completion_tokens,
        b.stop_words is Some ==> options_merged(a, b).stop_words == b.stop_words,
        b.stop_words is None ==> options_merged(a, b).stop_words == a.stop_words,
        b.response_format is Some ==> options_merged(a, b).response_format == b.response_format,
        b.response_format is None ==> options_merged(a, b).response_format == a.response_format,
        b.extra_params is Some ==> options_merged(a, b).extra_params == b.extra_params,
        b.extra_params is None ==> options_merged(a, b).extra_params == a.extra_params,
        b.system_is_assistant is Some ==> options_merged(a, b).system_is_assistant == b.system_is_assistant,
        b.system_is_assistant is None ==> options_merged(a, b).system_is_assistant == a.system_is_assistant,
        b.drop_thought is Some ==> options_merged(a, b).drop_thought == b.drop_thought,
        b.drop_thought is None ==> options_merged(a, b).drop_thought == a.drop_thought,
{
}

/// Merging options that set nothing changes nothing.
pub proof fn lemma_merge_empty(a: LLMOptions, b: LLMOptions)
    requires
        b.is_empty(),
    ensures
        options_merged(a, b) == a,
{
}

/// Merging into options that set nothing gives the merged options.
pub proof fn lemma_merge_into_empty(a: LLMOptions, b: LLMOptions)
    requires
        a.is_empty(),
    ensures
        options_merged(a, b) == b,
{
}

/// Merging the same options twice gives what merging them once gives.
pub proof fn lemma_merge_twice(a: LLMOptions, b: LLMOptions)
    ensures
        options_merged(options_merged(a, b), b) == options_merged(a, b),
{
}

/// Merging is associative: merging `b` then `c` into `a` is merging into `a`
/// the options `b` with `c` merged into them.
#[verifier::spinoff_prover]
#[verifier::rlimit(40)]
pub proof fn lemma_merge_associative(a: LLMOptions, b: LLMOptions, c: LLMOptions)
    ensures
        options_merged(options_merged(a, b), c) == options_merged(a, options_merged(b, c)),
{
}

} // verus!
