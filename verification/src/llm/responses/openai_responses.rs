//! Models served through the responses API: how a prompt is prepared for them.
use vstd::prelude::*;
use crate::llm::options::LLMOptions;
use crate::schemas::{Message, MessageView, Role};

verus! {

/// A message of a prompt once prepared: a system message becomes an AI message
/// when system messages are sent as assistant messages.
pub open spec fn responses_prepared(options: LLMOptions, m: MessageView) -> MessageView {
    if options.system_is_assistant == Some(true) && m.role == Role::System {
        MessageView { role: Role::Ai, ..m }
    } else {
        m
    }
}

/// What preparing a message keeps and changes: with system messages sent as
/// assistant messages every system message becomes an AI message and no
/// system message is left; otherwise every role is kept; the text, the tool
/// calls and the id are never touched.
pub proof fn lemma_responses_prepared_effects(options: LLMOptions, m: MessageView)
    ensures
        ({
            let r = responses_prepared(options, m);
            &&& options.system_is_assistant == Some(true) ==> r.role != Role::System
            &&& options.system_is_assistant != Some(true) ==> r.role == m.role
            &&& m.role != Role::System ==> r.role == m.role
            &&& m.role == Role::System && options.system_is_assistant == Some(true) ==> r.role == Role::Ai
            &&& r.content == m.content
            &&& r.tool_calls == m.tool_calls
            &&& r.id == m.id
        }),
{
}

/// Preparing a prepared message again changes nothing.
pub proof fn lemma_responses_prepared_idempotent(options: LLMOptions, m: MessageView)
    ensures
        responses_prepared(options, responses_prepared(options, m)) == responses_prepared(options, m),
{
}

/// Prepares the messages of a prompt (see [`responses_prepared`]).
pub fn process_prompt(options: &LLMOptions, prompt: Vec<Message>) -> (r: Vec<Message>)
    ensures
        r@.len() == prompt@.len(),
        forall|i: int|
            0 <= i < prompt@.len() ==> (#[trigger] r@[i])@ == responses_prepared(
                *options,
                prompt@[i]@,
            ),
{
    let as_assistant = match options.system_is_assistant {
        Some(b) => b,
        None => false,
    };
    let mut messages = prompt;
    let mut i: usize = 0;
    while i < messages.len()
        invariant
            i <= messages@.len(),
            messages@.len() == prompt@.len(),
            as_assistant == (options.system_is_assistant == Some(true)),
            forall|j: int|
                0 <= j < i ==> (#[trigger] messages@[j])@ == responses_prepared(
                    *options,
                    prompt@[j]@,
                ),
            forall|j: int| i <= j < messages@.len() ==> #[trigger] messages@[j] == prompt@[j],
        decreases messages@.len() - i,
    {
        if as_assistant && messages[i].role == Role::System {
            let mut m = messages.remove(i);
            m.role = Role::Ai;
            messages.insert(i, m);
        }
        i = i + 1;
    }
    messages
}

} // verus!
