//! The OpenAI chat model of the first API generation: how a prompt is prepared
//! for it, and what each chunk of a streamed completion gives.
use vstd::prelude::*;
use crate::llm::error::LLMError;
use crate::llm::options::LLMOptions;
use crate::schemas::{Message, MessageView, Role};

verus! {

/// A message of a prompt once prepared: when system messages are sent as
/// assistant messages, a system message is replaced by an AI message with its
/// text (and nothing else).
pub open spec fn legacy_prepared(options: LLMOptions, m: MessageView) -> MessageView {
    if options.system_is_assistant == Some(true) && m.role == Role::System {
        MessageView { role: Role::Ai, content: m.content, tool_calls: None, id: None }
    } else {
        m
    }
}

/// What preparing a message keeps and changes: a message that is not a
/// system message, or any message when system messages are not sent as
/// assistant messages, is kept whole; with system messages sent as assistant
/// messages no system message is left, and each becomes an AI message with
/// the same text.
pub proof fn lemma_legacy_prepared_effects(options: LLMOptions, m: MessageView)
    ensures
        ({
            let r = legacy_prepared(options, m);
            &&& (m.role != Role::System || options.system_is_assistant != Some(true)) ==> r == m
            &&& options.system_is_assistant == Some(true) ==> r.role != Role::System
            &&& r.content == m.content
        }),
{
}

/// Prepares the messages of a prompt (see [`legacy_prepared`]).
pub fn process_prompt(options: &LLMOptions, prompt: Vec<Message>) -> (r: Vec<Message>)
    ensures
        r@.len() == prompt@.len(),
        forall|i: int|
            0 <= i < prompt@.len() ==> (#[trigger] r@[i])@ == legacy_prepared(
                *options,
                prompt@[i]@,
            ),
{
    let as_assistant = match options.system_is_assistant {
        Some(b) => b,
        None => false,
    };
    if !as_assistant {
        return prompt;
    }
    let mut out: Vec<Message> = Vec::new();
    for message in it: prompt
        invariant
            it.seq() == prompt@,
            options.system_is_assistant == Some(true),
            out@.len() == it.index(),
            forall|i: int|
                0 <= i < it.index() ==> (#[trigger] out@[i])@ == legacy_prepared(
                    *options,
                    prompt@[i]@,
                ),
    {
        if message.role == Role::System {
            out.push(Message::new_ai_message(message.content));
        } else {
            out.push(message);
        }
    }
    out
}

/// Where the text of a streamed chunk is read: the content of the first
/// choice's delta.
pub open spec fn delta_content_path() -> Seq<char> {
    "/choices/0/delta/content"@
}

/// What one chunk of a streamed completion gives, read from its `usage` (when
/// present and not null) and from the content of its first choice's delta
/// (`None` when the chunk has no such field, `Some(None)` when it is null or
/// not a string): a chunk with usage gives the usage and no text; any other
/// gives its text (empty for a null content) and no usage, or an error naming
/// the missing field.
pub fn stream_piece<U>(usage: Option<U>, content: Option<Option<String>>) -> (r: Result<
    (Option<U>, String),
    LLMError,
>)
    ensures
        usage is Some ==> (r matches Ok((u, t)) && u == usage && t@.len() == 0),
        usage is None ==> (content matches Some(Some(c)) ==> (r matches Ok((u, t)) && u is None
            && t == c)),
        usage is None ==> (content matches Some(None) ==> (r matches Ok((u, t)) && u is None
            && t@.len() == 0)),
        usage is None && content is None ==> (r matches Err(LLMError::ContentNotFound(m)) && m@
            == delta_content_path()),
{
    if usage.is_some() {
        return Ok((usage, String::new()));
    }
    match content {
        Some(Some(c)) => Ok((None, c)),
        Some(None) => Ok((None, String::new())),
        None => Err(LLMError::content_not_found("/choices/0/delta/content")),
    }
}

} // verus!
