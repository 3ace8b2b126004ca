//! The interface of conversation memories.
use vstd::prelude::*;
use crate::schemas::{message_views, transcript, Message, MessageView, Role, ToolCall};

verus! {

/// Long-term memory to store and retrieve the messages of a conversation.
///
/// A memory holds a sequence of messages, oldest first ([`Memory::stored`]);
/// what adding a message does to it is up to the memory (each implementation
/// states it). Every memory renders its messages the same way.
pub trait Memory {
    /// The messages the memory holds, oldest first.
    spec fn stored(&self) -> Seq<MessageView>;

    /// The messages the memory holds once `m` is added.
    spec fn with_message(&self, m: MessageView) -> Seq<MessageView>;

    /// The messages the memory holds once `ms` are added, in order.
    spec fn with_messages(&self, ms: Seq<MessageView>) -> Seq<MessageView>;

    /// Adding no message leaves the memory as it is.
    proof fn lemma_with_no_messages(&self)
        ensures
            self.with_messages(Seq::empty()) == self.stored(),
    ;

    /// Returns all messages stored in memory.
    fn messages(&self) -> (r: Vec<Message>)
        ensures
            message_views(r@) == self.stored(),
    ;

    /// Adds a message to the memory.
    fn add_message(&mut self, message: Message)
        ensures
            final(self).stored() == old(self).with_message(message@),
            forall|ms: Seq<MessageView>| #[trigger]
                final(self).with_messages(ms) == old(self).with_messages(seq![message@] + ms),
    ;

    /// Adds multiple messages to the memory, in order.
    fn add_messages(&mut self, messages: Vec<Message>)
        ensures
            final(self).stored() == old(self).with_messages(message_views(messages@)),
    {
        let ghost all = message_views(messages@);
        let ghost target = self.with_messages(all);
        proof {
            assert(all.skip(0) =~= all);
        }
        for message in it: messages
            invariant
                it.seq() == messages@,
                all == message_views(messages@),
                self.with_messages(all.skip(it.index() as int)) == target,
        {
            let ghost k = it.index() as int;
            proof {
                assert(all[k] == message@);
                assert(seq![message@] + all.skip(k + 1) =~= all.skip(k));
            }
            self.add_message(message);
            proof {
                assert(self.with_messages(all.skip(k + 1)) == target);
            }
        }
        proof {
            assert(all.skip(all.len() as int) =~= Seq::<MessageView>::empty());
            self.lemma_with_no_messages();
        }
    }

    /// Clears all messages from the memory.
    fn clear(&mut self)
        ensures
            final(self).stored() == Seq::<MessageView>::empty(),
    ;

    /// The transcript of the memory: each message as `role: content`, one per
    /// line.
    fn to_string(&self) -> (r: String)
        ensures
            r@ == transcript(self.stored()),
    ;

    /// Adds a human message to the memory.
    fn add_human_message(&mut self, content: String)
        ensures
            final(self).stored() == old(self).with_message(
                (MessageView { role: Role::Human, content: content@, tool_calls: None, id: None }),
            ),
    {
        self.add_message(Message::new_human_message(content))
    }

    /// Adds an AI message to the memory.
    fn add_ai_message(&mut self, content: String)
        ensures
            final(self).stored() == old(self).with_message(
                (MessageView { role: Role::Ai, content: content@, tool_calls: None, id: None }),
            ),
    {
        self.add_message(Message::new_ai_message(content))
    }

    /// Adds a tool call message to the memory.
    fn add_tool_call_message(&mut self, thought: Option<String>, tool_calls: Vec<ToolCall>)
        ensures
            final(self).stored() == old(self).with_message(
                (MessageView {
                    role: Role::Ai,
                    content: match thought {
                        Some(t) => t@,
                        None => Seq::empty(),
                    },
                    tool_calls: Some(tool_calls@),
                    id: None,
                }),
            ),
    {
        self.add_message(Message::new_tool_call_message(thought, tool_calls))
    }

    /// Adds a tool message to the memory.
    fn add_tool_message(&mut self, id: Option<String>, content: String)
        ensures
            final(self).stored() == old(self).with_message(
                (MessageView {
                    role: Role::Tool,
                    content: content@,
                    tool_calls: None,
                    id: match id {
                        Some(i) => Some(i@),
                        None => None,
                    },
                }),
            ),
    {
        self.add_message(Message::new_tool_message(id, content))
    }
}

} // verus!
