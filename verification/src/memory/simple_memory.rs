//! A memory that keeps every message.
use vstd::prelude::*;
use crate::memory::memory::Memory;
use crate::schemas::{message_views, render_transcript, Message, MessageView};

verus! {

/// Copies of the messages of `v`, equal in value.
pub fn clone_messages(v: &Vec<Message>) -> (r: Vec<Message>)
    ensures
        message_views(r@) == message_views(v@),
{
    let mut r: Vec<Message> = Vec::new();
    let mut i: usize = 0;
    while i < v.len()
        invariant
            i <= v@.len(),
            r@.len() == i,
            forall|j: int| 0 <= j < i ==> r@[j]@ == v@[j]@,
        decreases v@.len() - i,
    {
        r.push(v[i].clone());
        i = i + 1;
    }
    assert(message_views(r@) =~= message_views(v@));
    r
}

/// A memory that saves all messages as they are.
#[derive(Debug)]
pub struct SimpleMemory {
    /// The messages stored in the memory.
    messages: Vec<Message>,
}

impl SimpleMemory {
    /// Constructs a new, empty [`SimpleMemory`].
    pub fn new() -> (r: Self)
        ensures
            r.stored() == Seq::<MessageView>::empty(),
    {
        let r = SimpleMemory { messages: Vec::new() };
        assert(message_views(r.messages@) =~= Seq::<MessageView>::empty());
        r
    }
}

impl Default for SimpleMemory {
    fn default() -> (r: Self)
        ensures
            r.stored() == Seq::<MessageView>::empty(),
    {
        Self::new()
    }
}

impl Clone for SimpleMemory {
    fn clone(&self) -> (r: Self)
        ensures
            r.stored() == self.stored(),
    {
        SimpleMemory { messages: clone_messages(&self.messages) }
    }
}

impl Memory for SimpleMemory {
    closed spec fn stored(&self) -> Seq<MessageView> {
        message_views(self.messages@)
    }

    open spec fn with_message(&self, m: MessageView) -> Seq<MessageView> {
        self.stored().push(m)
    }

    open spec fn with_messages(&self, ms: Seq<MessageView>) -> Seq<MessageView> {
        self.stored() + ms
    }

    proof fn lemma_with_no_messages(&self) {
        assert(self.stored() + Seq::<MessageView>::empty() =~= self.stored());
    }

    fn messages(&self) -> (r: Vec<Message>) {
        clone_messages(&self.messages)
    }

    fn add_message(&mut self, message: Message)
        ensures
            final(self).stored() == old(self).stored().push(message@),
    {
        self.messages.push(message);
        assert(message_views(self.messages@) =~= message_views(old(self).messages@).push(
            message@,
        ));
        assert forall|ms: Seq<MessageView>| #[trigger]
            self.with_messages(ms) == old(self).with_messages(seq![message@] + ms) by {
            assert(self.stored() + ms =~= old(self).stored() + (seq![message@] + ms));
        }
    }

    fn add_messages(&mut self, messages: Vec<Message>)
        ensures
            final(self).stored() == old(self).stored() + message_views(messages@),
    {
        let mut messages = messages;
        let ghost added = messages@;
        self.messages.append(&mut messages);
        assert(message_views(self.messages@) =~= message_views(old(self).messages@)
            + message_views(added));
    }

    fn clear(&mut self) {
        self.messages.clear();
        assert(message_views(self.messages@) =~= Seq::<MessageView>::empty());
    }

    fn to_string(&self) -> (r: String) {
        render_transcript(&self.messages)
    }
}

} // verus!
