//! A memory that keeps only the latest messages.
use vstd::prelude::*;
use crate::memory::memory::Memory;
use crate::memory::simple_memory::clone_messages;
use crate::schemas::{message_views, render_transcript, Message, MessageView};

verus! {

/// The last `w` elements of `s` (all of `s` when it is shorter).
pub open spec fn latest<A>(s: Seq<A>, w: nat) -> Seq<A> {
    if s.len() > w {
        s.skip(s.len() - w)
    } else {
        s
    }
}

/// The messages a window of size `w` holding `h` holds once `m` is added: the
/// oldest one is dropped when the window is full, and a window of size zero
/// holds nothing.
pub open spec fn window_push(h: Seq<MessageView>, m: MessageView, w: nat) -> Seq<MessageView> {
    if w == 0 {
        Seq::empty()
    } else if h.len() >= w {
        h.drop_first().push(m)
    } else {
        h.push(m)
    }
}

/// A memory implementation that retains only the most recent messages up to a
/// specified window size.
pub struct WindowBufferMemory {
    /// The maximum number of messages to retain in the memory.
    window_size: usize,
    /// The messages stored in the memory.
    messages: Vec<Message>,
}

impl WindowBufferMemory {
    /// Constructs a new, empty [`WindowBufferMemory`] with the specified
    /// window size.
    pub fn new(window_size: usize) -> (r: Self)
        ensures
            r.window() == window_size,
            r.stored() == Seq::<MessageView>::empty(),
    {
        let r = WindowBufferMemory { messages: Vec::new(), window_size };
        assert(message_views(r.messages@) =~= Seq::<MessageView>::empty());
        r
    }

    /// The maximum number of messages retained.
    pub closed spec fn window(&self) -> nat {
        self.window_size as nat
    }

    /// The memory never holds more messages than its window.
    #[verifier::type_invariant]
    closed spec fn within_window(&self) -> bool {
        self.messages@.len() <= self.window_size
    }
}

impl Default for WindowBufferMemory {
    /// A memory retaining the last 10 messages.
    fn default() -> (r: Self)
        ensures
            r.window() == 10,
            r.stored() == Seq::<MessageView>::empty(),
    {
        Self::new(10)
    }
}

impl Memory for WindowBufferMemory {
    closed spec fn stored(&self) -> Seq<MessageView> {
        message_views(self.messages@)
    }

    open spec fn with_message(&self, m: MessageView) -> Seq<MessageView> {
        window_push(self.stored(), m, self.window())
    }

    open spec fn with_messages(&self, ms: Seq<MessageView>) -> Seq<MessageView> {
        if ms.len() == 0 {
            self.stored()
        } else {
            latest(self.stored() + ms, self.window())
        }
    }

    proof fn lemma_with_no_messages(&self) {
    }

    fn messages(&self) -> (r: Vec<Message>) {
        clone_messages(&self.messages)
    }

    fn add_message(&mut self, message: Message)
        ensures
            final(self).stored() == window_push(old(self).stored(), message@, old(self).window()),
            final(self).window() == old(self).window(),
            final(self).stored().len() <= final(self).window(),
    {
        proof {
            use_type_invariant(&*self);
        }
        let mut messages: Vec<Message> = Vec::new();
        std::mem::swap(&mut messages, &mut self.messages);
        let ghost h = message_views(messages@);
        if self.window_size == 0 {
            assert(message_views(messages@) =~= Seq::<MessageView>::empty());
            proof {
                assert forall|ms: Seq<MessageView>| #[trigger]
                    self.with_messages(ms) == old(self).with_messages(seq![message@] + ms) by {
                    assert(latest(h + ms, 0) =~= Seq::<MessageView>::empty());
                    assert(latest(h + (seq![message@] + ms), 0) =~= Seq::<MessageView>::empty());
                }
            }
            return;
        }
        if messages.len() >= self.window_size {
            messages.remove(0);
        }
        messages.push(message);
        proof {
            if h.len() >= old(self).window() {
                assert(message_views(messages@) =~= h.drop_first().push(message@));
            } else {
                assert(message_views(messages@) =~= h.push(message@));
            }
        }
        self.messages = messages;
        proof {
            let w = old(self).window();
            assert(latest(h, w) =~= h);
            lemma_window_keeps_latest(h, message@, w);
            assert forall|ms: Seq<MessageView>| #[trigger]
                self.with_messages(ms) == old(self).with_messages(seq![message@] + ms) by {
                assert(h.push(message@) + ms =~= h + (seq![message@] + ms));
                if ms.len() > 0 {
                    lemma_latest_concat(h.push(message@), ms, w);
                } else {
                    assert(h + (seq![message@] + ms) =~= h.push(message@));
                }
            }
        }
    }

    fn add_messages(&mut self, messages: Vec<Message>)
        ensures
            final(self).stored() == latest(
                old(self).stored() + message_views(messages@),
                old(self).window(),
            ),
            final(self).window() == old(self).window(),
            final(self).stored().len() <= final(self).window(),
    {
        proof {
            use_type_invariant(&*self);
        }
        let ghost start = self.stored();
        let ghost all = messages@;
        let ghost w = self.window();
        proof {
            assert(start + message_views(all.take(0)) =~= start);
        }
        for message in it: messages
            invariant
                self.window() == w,
                it.seq() == all,
                start.len() <= w,
                self.stored() == latest(start + message_views(all.take(it.index() as int)), w),
        {
            let ghost before = start + message_views(all.take(it.index() as int));
            self.add_message(message);
            proof {
                lemma_window_keeps_latest(before, message@, w);
                assert(before.push(message@) =~= start + message_views(
                    all.take(it.index() + 1),
                ));
            }
        }
        proof {
            assert(all.take(all.len() as int) =~= all);
        }
    }

    fn clear(&mut self) {
        self.messages = Vec::new();
        assert(message_views(self.messages@) =~= Seq::<MessageView>::empty());
    }

    fn to_string(&self) -> (r: String) {
        render_transcript(&self.messages)
    }
}

/// The latest messages of a history extended by `b` do not depend on more of
/// the history than its latest messages.
proof fn lemma_latest_concat(a: Seq<MessageView>, b: Seq<MessageView>, w: nat)
    ensures
        latest(latest(a, w) + b, w) == latest(a + b, w),
{
    let x = latest(a, w) + b;
    let y = a + b;
    if a.len() <= w {
        assert(latest(a, w) =~= a);
        assert(x =~= y);
    } else if x.len() > w {
        assert(y.len() > w);
        assert(latest(x, w) =~= latest(y, w)) by {
            assert forall|i: int| 0 <= i < w implies #[trigger] latest(x, w)[i] == latest(y, w)[i] by {
                let j = x.len() - w + i;
                let k = y.len() - w + i;
                if j < w {
                    assert(x[j] == a[a.len() - w + j]);
                    assert(k == a.len() - w + j);
                } else {
                    assert(x[j] == b[j - w]);
                    assert(k - a.len() == j - w);
                }
            }
        }
    } else {
        assert(b.len() == 0);
        assert(x =~= latest(a, w));
        assert(y =~= a);
    }
}

/// Adding a message to a window holding the latest messages of a history
/// leaves it holding the latest messages of the extended history: the window
/// always retains exactly the most recent `w` messages.
pub proof fn lemma_window_keeps_latest(h: Seq<MessageView>, m: MessageView, w: nat)
    ensures
        window_push(latest(h, w), m, w) == latest(h.push(m), w),
{
    if w == 0 {
        assert(latest(h.push(m), w) =~= Seq::<MessageView>::empty());
    } else if h.len() >= w {
        assert(latest(h, w).drop_first().push(m) =~= h.push(m).skip(h.len() + 1 - w));
    } else {
        assert(latest(h.push(m), w) =~= h.push(m));
    }
}

/// The messages a window of size `w` holds once the messages of `ms` are
/// added to it one by one, starting empty.
pub open spec fn window_after(ms: Seq<MessageView>, w: nat) -> Seq<MessageView>
    decreases ms.len(),
{
    if ms.len() == 0 {
        Seq::empty()
    } else {
        window_push(window_after(ms.drop_last(), w), ms.last(), w)
    }
}

/// A window memory holds the most recent messages of everything added to it
/// since it was made or cleared, in order, the oldest dropped first: after the
/// messages `ms` are added one by one to an empty window of size `w`, it holds
/// the last `w` of them (all of them when there are fewer), and so never more
/// than `w` messages.
pub proof fn lemma_window_history(ms: Seq<MessageView>, w: nat)
    ensures
        window_after(ms, w) == latest(ms, w),
        window_after(ms, w).len() <= w,
    decreases ms.len(),
{
    if ms.len() == 0 {
        assert(latest(ms, w) =~= Seq::<MessageView>::empty());
    } else {
        lemma_window_history(ms.drop_last(), w);
        lemma_window_keeps_latest(ms.drop_last(), ms.last(), w);
        assert(ms.drop_last().push(ms.last()) =~= ms);
    }
}

} // verus!
