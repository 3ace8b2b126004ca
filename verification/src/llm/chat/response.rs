//! The parts of a chat-completion response that the aggregation and the choice
//! selection read. Payloads the logic only carries (log probabilities, audio,
//! service tier) are type parameters.
use vstd::prelude::*;

verus! {

/// The optional text `s` by value.
pub open spec fn opt_text(s: Option<String>) -> Option<Seq<char>> {
    match s {
        Some(t) => Some(t@),
        None => None,
    }
}

/// Why a model stopped generating.
#[derive(PartialEq, Eq, Structural, Clone, Copy, Debug)]
pub enum FinishReason {
    Stop,
    Length,
    ToolCalls,
    ContentFilter,
    FunctionCall,
}

/// The author of a response message.
#[derive(PartialEq, Eq, Structural, Clone, Copy, Debug)]
pub enum ChatRole {
    System,
    User,
    Assistant,
    Tool,
    Function,
}

/// The kind of a tool; only functions exist.
#[derive(PartialEq, Eq, Structural, Clone, Copy, Debug)]
pub enum ToolType {
    Function,
}

/// A function call: the function's name and its arguments as JSON text.
#[derive(Debug)]
pub struct FunctionCall {
    pub name: String,
    pub arguments: String,
}

/// A [`FunctionCall`] by value.
pub struct FunctionCallV {
    pub name: Seq<char>,
    pub arguments: Seq<char>,
}

impl View for FunctionCall {
    type V = FunctionCallV;

    open spec fn view(&self) -> FunctionCallV {
        FunctionCallV { name: self.name@, arguments: self.arguments@ }
    }
}

/// A tool call in a response message.
#[derive(Debug)]
pub struct MessageToolCall {
    pub id: String,
    pub kind: ToolType,
    pub function: FunctionCall,
}

/// A [`MessageToolCall`] by value.
pub struct MessageToolCallV {
    pub id: Seq<char>,
    pub kind: ToolType,
    pub function: FunctionCallV,
}

impl View for MessageToolCall {
    type V = MessageToolCallV;

    open spec fn view(&self) -> MessageToolCallV {
        MessageToolCallV { id: self.id@, kind: self.kind, function: self.function@ }
    }
}

/// The tool calls by value.
pub open spec fn calls_view(calls: Seq<MessageToolCall>) -> Seq<MessageToolCallV> {
    calls.map_values(|c: MessageToolCall| c@)
}

/// A message of a response, with its audio payload of type `A`.
#[derive(Debug)]
pub struct ResponseMessage<A> {
    pub role: ChatRole,
    pub content: Option<String>,
    pub refusal: Option<String>,
    pub tool_calls: Option<Vec<MessageToolCall>>,
    pub function_call: Option<FunctionCall>,
    pub audio: Option<A>,
}

/// A [`ResponseMessage`] by value.
pub struct ResponseMessageV<A> {
    pub role: ChatRole,
    pub content: Option<Seq<char>>,
    pub refusal: Option<Seq<char>>,
    pub tool_calls: Option<Seq<MessageToolCallV>>,
    pub function_call: Option<FunctionCallV>,
    pub audio: Option<A>,
}

impl<A> View for ResponseMessage<A> {
    type V = ResponseMessageV<A>;

    open spec fn view(&self) -> ResponseMessageV<A> {
        ResponseMessageV {
            role: self.role,
            content: opt_text(self.content),
            refusal: opt_text(self.refusal),
            tool_calls: match self.tool_calls {
                Some(c) => Some(calls_view(c@)),
                None => None,
            },
            function_call: match self.function_call {
                Some(f) => Some(f@),
                None => None,
            },
            audio: self.audio,
        }
    }
}

/// A choice of a response, with log probabilities of type `L` and audio of
/// type `A`.
#[derive(Debug)]
pub struct ChatChoice<L, A> {
    pub index: u32,
    pub message: ResponseMessage<A>,
    pub finish_reason: Option<FinishReason>,
    pub logprobs: Option<L>,
}

/// A [`ChatChoice`] by value.
pub struct ChatChoiceV<L, A> {
    pub index: u32,
    pub message: ResponseMessageV<A>,
    pub finish_reason: Option<FinishReason>,
    pub logprobs: Option<L>,
}

impl<L, A> View for ChatChoice<L, A> {
    type V = ChatChoiceV<L, A>;

    open spec fn view(&self) -> ChatChoiceV<L, A> {
        ChatChoiceV {
            index: self.index,
            message: self.message@,
            finish_reason: self.finish_reason,
            logprobs: self.logprobs,
        }
    }
}

/// The choices by value.
pub open spec fn choices_view<L, A>(cs: Seq<ChatChoice<L, A>>) -> Seq<ChatChoiceV<L, A>> {
    cs.map_values(|c: ChatChoice<L, A>| c@)
}

/// A piece of a streamed function call.
#[derive(Debug)]
pub struct FunctionCallStream {
    pub name: Option<String>,
    pub arguments: Option<String>,
}

/// A piece of a streamed tool call: it updates the call at `index`.
#[derive(Debug)]
pub struct ToolCallChunk {
    pub index: u32,
    pub id: Option<String>,
    pub kind: Option<ToolType>,
    pub function: Option<FunctionCallStream>,
}

/// The change a streamed chunk brings to a message.
#[derive(Debug)]
pub struct StreamDelta {
    pub content: Option<String>,
    pub function_call: Option<FunctionCallStream>,
    pub tool_calls: Option<Vec<ToolCallChunk>>,
    pub role: Option<ChatRole>,
    pub refusal: Option<String>,
}

/// A streamed piece of the choice at `index`.
#[derive(Debug)]
pub struct ChatChoiceStream<L> {
    pub index: u32,
    pub delta: StreamDelta,
    pub finish_reason: Option<FinishReason>,
    pub logprobs: Option<L>,
}

/// Token counts of the prompt.
#[derive(PartialEq, Eq, Structural, Clone, Copy, Debug)]
pub struct PromptTokensDetails {
    pub audio_tokens: Option<u32>,
    pub cached_tokens: Option<u32>,
}

/// Token counts of the completion.
#[derive(PartialEq, Eq, Structural, Clone, Copy, Debug)]
pub struct CompletionTokensDetails {
    pub accepted_prediction_tokens: Option<u32>,
    pub audio_tokens: Option<u32>,
    pub reasoning_tokens: Option<u32>,
    pub rejected_prediction_tokens: Option<u32>,
}

/// Token usage of a request.
#[derive(PartialEq, Eq, Structural, Clone, Copy, Debug)]
pub struct CompletionUsage {
    pub prompt_tokens: u32,
    pub completion_tokens: u32,
    pub total_tokens: u32,
    pub prompt_tokens_details: Option<PromptTokensDetails>,
    pub completion_tokens_details: Option<CompletionTokensDetails>,
}

/// A streamed piece of a response, with service tier of type `S`.
#[derive(Debug)]
pub struct ChatStreamChunk<L, S> {
    pub id: String,
    pub choices: Vec<ChatChoiceStream<L>>,
    pub created: u32,
    pub model: String,
    pub service_tier: Option<S>,
    pub system_fingerprint: Option<String>,
    pub object: String,
    pub usage: Option<CompletionUsage>,
}

/// A full response.
#[derive(Debug)]
pub struct ChatResponse<L, A, S> {
    pub id: String,
    pub created: u32,
    pub model: String,
    pub service_tier: Option<S>,
    pub system_fingerprint: Option<String>,
    pub object: String,
    pub choices: Vec<ChatChoice<L, A>>,
    pub usage: Option<CompletionUsage>,
}

} // verus!
