//! The messages of a request as they are sent: the system message, under the
//! role that the model accepts, then the others.
use vstd::prelude::*;
use crate::llm::chat::messages::{RequestMessage, SystemMessage};

verus! {

/// The role under which the system message is sent.
#[derive(PartialEq, Eq, Structural, Clone, Copy, Debug)]
pub enum SystemRole {
    /// As a system message.
    System,
    /// As an assistant message, for models that take no system message.
    Assistant,
}

impl SystemRole {
    /// The name of the role on the wire: `system` or `assistant`.
    pub fn name(&self) -> (r: &'static str)
        ensures
            *self == SystemRole::System ==> r@ == seq!['s', 'y', 's', 't', 'e', 'm'],
            *self == SystemRole::Assistant ==> r@ == seq![
                'a',
                's',
                's',
                'i',
                's',
                't',
                'a',
                'n',
                't',
            ],
    {
        match self {
            SystemRole::System => {
                proof {
                    reveal_strlit("system");
                }
                "system"
            },
            SystemRole::Assistant => {
                proof {
                    reveal_strlit("assistant");
                }
                "assistant"
            },
        }
    }
}

/// The messages of a request, without copying them: the system message (sent
/// under `role`) and the others.
#[derive(Debug)]
pub struct ChatHistory<'b> {
    pub role: SystemRole,
    pub system: &'b SystemMessage,
    pub messages: &'b [RequestMessage],
}

impl<'b> ChatHistory<'b> {
    /// A history whose system message is sent as a system message.
    pub fn new(system: &'b SystemMessage, messages: &'b [RequestMessage]) -> (r: Self)
        ensures
            r.role == SystemRole::System,
            r.system == system,
            r.messages@ == messages@,
    {
        ChatHistory { role: SystemRole::System, system, messages }
    }

    /// A history whose system message is sent as an assistant message.
    pub fn as_assistant(system: &'b SystemMessage, messages: &'b [RequestMessage]) -> (r: Self)
        ensures
            r.role == SystemRole::Assistant,
            r.system == system,
            r.messages@ == messages@,
    {
        ChatHistory { role: SystemRole::Assistant, system, messages }
    }
}

} // verus!
