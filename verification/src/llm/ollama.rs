//! What the Ollama chat model reads of a message and of a reply.
use vstd::prelude::*;
use crate::schemas::Role;

verus! {

/// The roles of an Ollama chat message.
#[derive(PartialEq, Eq, Structural, Clone, Copy, Debug)]
pub enum OllamaRole {
    User,
    Assistant,
    System,
    Tool,
}

/// The role under which a message of `role` is sent to an Ollama model: AI
/// and tool messages are sent as the assistant's, system messages as the
/// system's, human messages as the user's.
pub open spec fn ollama_role_of(role: Role) -> OllamaRole {
    match role {
        Role::Ai => OllamaRole::Assistant,
        Role::Tool => OllamaRole::Assistant,
        Role::System => OllamaRole::System,
        Role::Human => OllamaRole::User,
    }
}

/// The role under which a message of `role` is sent to an Ollama model (see
/// [`ollama_role_of`]).
pub fn ollama_role(role: Role) -> (r: OllamaRole)
    ensures
        r == ollama_role_of(role),
{
    match role {
        Role::Ai => OllamaRole::Assistant,
        Role::Tool => OllamaRole::Assistant,
        Role::System => OllamaRole::System,
        Role::Human => OllamaRole::User,
    }
}

/// The token usage of an Ollama reply.
#[derive(PartialEq, Eq, Structural, Clone, Copy, Debug)]
pub struct OllamaUsage {
    pub prompt_tokens: u32,
    pub completion_tokens: u32,
    pub total_tokens: u32,
}

/// The token usage of a reply whose final data counted `prompt_eval_count`
/// prompt tokens and `eval_count` generated ones: the total is their sum.
pub fn ollama_usage(prompt_eval_count: u16, eval_count: u16) -> (r: OllamaUsage)
    ensures
        r.prompt_tokens == prompt_eval_count,
        r.completion_tokens == eval_count,
        r.total_tokens == prompt_eval_count + eval_count,
{
    let prompt_tokens = prompt_eval_count as u32;
    let completion_tokens = eval_count as u32;
    OllamaUsage { prompt_tokens, completion_tokens, total_tokens: prompt_tokens + completion_tokens }
}

} // verus!
