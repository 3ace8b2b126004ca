//! A memory that forgets everything.
use vstd::prelude::*;
use crate::memory::memory::Memory;
use crate::schemas::{message_views, transcript, Message, MessageView};

verus! {

/// A memory that keeps no message.
pub struct DummyMemory {}

impl DummyMemory {
    /// Constructs a new [`DummyMemory`].
    pub fn new() -> (r: Self)
        ensures
            r.stored() == Seq::<MessageView>::empty(),
    {
        DummyMemory {}
    }
}

impl Default for DummyMemory {
    fn default() -> (r: Self)
        ensures
            r.stored() == Seq::<MessageView>::empty(),
    {
        Self::new()
    }
}

impl Memory for DummyMemory {
    open spec fn stored(&self) -> Seq<MessageView> {
        Seq::empty()
    }

    open spec fn with_message(&self, m: MessageView) -> Seq<MessageView> {
        Seq::empty()
    }

    open spec fn with_messages(&self, ms: Seq<MessageView>) -> Seq<MessageView> {
        Seq::empty()
    }

    proof fn lemma_with_no_messages(&self) {
    }

    fn messages(&self) -> (r: Vec<Message>) {
        let r: Vec<Message> = Vec::new();
        assert(message_views(r@) =~= Seq::<MessageView>::empty());
        r
    }

    fn add_message(&mut self, message: Message) {
        assert(self.stored() =~= self.with_message(message@));
    }

    fn clear(&mut self) {
    }

    fn to_string(&self) -> (r: String) {
        let r = String::new();
        assert(transcript(Seq::<MessageView>::empty()) =~= Seq::<char>::empty()) by {
            assert(Seq::<MessageView>::empty().map_values(
                |m: MessageView| crate::schemas::rendered_message(m),
            ).len() == 0);
        }
        r
    }
}

} // verus!
