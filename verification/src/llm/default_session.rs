//! The history-keeping part of a session with a model: what is sent to the
//! model at each step, and how tool calls and their results enter the history.
//!
//! Calling the model is left to the caller: it asks [`DefaultSession::prompt`]
//! for the messages to send, calls the model, and hands the output back with
//! [`DefaultSession::record_output`].
use vstd::prelude::*;
use crate::llm::options::LLMOptions;
use crate::llm::step_buffer::{results_view, CallId, BufferedStep, StepBuffer, ToolResult, ToolResultView};
use crate::memory::memory::Memory;
use crate::memory::simple_memory::clone_messages;
use crate::schemas::{
    clone_calls, clone_opt_string, data_text, message_views, LLMEvent, LLMOutput, Message,
    MessageView, Role, ToolCall, ToolError, ToolOutput,
};

verus! {

/// The message that asks the model for its final answer.
pub const FORCE_FINAL_ANSWER: &'static str = "Stop using tools now and give your final answer to the original question.";

/// The history message that holds the result of a tool call.
pub open spec fn result_message(r: ToolResultView) -> MessageView {
    MessageView { role: Role::Tool, content: data_text(r.2), tool_calls: None, id: Some(r.0) }
}

/// The history messages of a completed step: the calls that have a result,
/// then one message per result.
pub open spec fn step_messages(calls: Seq<ToolCall>, results: Seq<ToolResultView>) -> Seq<MessageView> {
    seq![MessageView { role: Role::Ai, content: Seq::empty(), tool_calls: Some(calls), id: None }]
        + results.map_values(|r: ToolResultView| result_message(r))
}

/// The history once the final answer is forced: a pending tool-call message
/// loses its calls and text (an AI message is added when the history does not
/// end with one), then the request for the final answer is added.
pub open spec fn forced_history(h: Seq<MessageView>) -> Seq<MessageView> {
    let closed = if h.len() > 0 && h.last().role == Role::Ai {
        if h.last().tool_calls is Some {
            h.update(
                h.len() - 1,
                MessageView { tool_calls: None, content: Seq::empty(), ..h.last() },
            )
        } else {
            h
        }
    } else {
        h.push(MessageView { role: Role::Ai, content: Seq::empty(), tool_calls: None, id: None })
    };
    closed.push(
        MessageView { role: Role::Human, content: FORCE_FINAL_ANSWER@, tool_calls: None, id: None },
    )
}

/// The state of a session: the history, the buffered step and the options.
pub struct DefaultSession<T> {
    /// The messages exchanged during the session.
    messages: Vec<Message>,
    /// The specifications of the tools available in the session.
    tool_spec: Option<T>,
    /// The buffer of the current step.
    step_buffer: StepBuffer<ToolCall>,
    /// The call options of the session.
    options: LLMOptions,
}

impl<T> DefaultSession<T> {
    /// The history.
    pub closed spec fn history(&self) -> Seq<MessageView> {
        message_views(self.messages@)
    }

    /// The buffered step.
    pub closed spec fn step(&self) -> Option<BufferedStep<ToolCall>> {
        self.step_buffer.step()
    }

    /// The tool specifications.
    pub closed spec fn tools(&self) -> Option<T> {
        self.tool_spec
    }

    /// The call options.
    pub closed spec fn call_options(&self) -> LLMOptions {
        self.options
    }

    /// Starts a session with the given prompt, tools and options.
    pub fn new(prompt: Vec<Message>, tool_spec: Option<T>, options: LLMOptions) -> (r: Self)
        ensures
            r.history() == message_views(prompt@),
            r.tools() == tool_spec,
            r.call_options() == options,
            r.step() is None,
    {
        DefaultSession { messages: prompt, tool_spec, step_buffer: StepBuffer::new(), options }
    }

    /// The tool specifications of the session.
    pub fn tool_spec(&self) -> (r: &Option<T>)
        ensures
            *r == self.tools(),
    {
        &self.tool_spec
    }

    /// The call options of the session.
    pub fn options(&self) -> (r: &LLMOptions)
        ensures
            *r == self.call_options(),
    {
        &self.options
    }

    /// Puts the messages of `memory` before the history.
    pub fn load_memory<M: Memory>(&mut self, memory: &M)
        ensures
            final(self).history() == memory.stored() + old(self).history(),
            final(self).step() == old(self).step(),
            final(self).tools() == old(self).tools(),
            final(self).call_options() == old(self).call_options(),
    {
        let mut memory_messages = memory.messages();
        let ghost mv = memory_messages@;
        let ghost hv = self.messages@;
        let mut rest = Vec::new();
        std::mem::swap(&mut rest, &mut self.messages);
        let ghost rv = rest@;
        memory_messages.append(&mut rest);
        self.messages = memory_messages;
        assert(message_views(mv + hv) =~= message_views(mv) + message_views(hv));
    }

    /// Moves the buffered step into the history: the calls that have a result
    /// (as one AI message), then one tool message per result. Nothing changes
    /// when no step (or a step without calls) is buffered; an error is returned,
    /// and the history left alone, when no call has a result. The buffer is
    /// empty afterwards.
    pub fn flush_step_buffer(&mut self) -> (r: Result<(), ToolError>)
        ensures
            final(self).step() is None,
            final(self).tools() == old(self).tools(),
            final(self).call_options() == old(self).call_options(),
            match old(self).step() {
                Some(s) if s.calls@.len() > 0 => {
                    let kept = s.calls@.filter(
                        |c: ToolCall| crate::llm::step_buffer::has_result(s.results_v(), c.call_id()),
                    );
                    if kept.len() == 0 {
                        r == Err::<(), ToolError>(ToolError::AllToolsFailed) && final(self).history()
                            == old(self).history()
                    } else {
                        r == Ok::<(), ToolError>(()) && final(self).history() == old(self).history()
                            + step_messages(kept, s.results_v())
                    }
                },
                _ => r == Ok::<(), ToolError>(()) && final(self).history() == old(self).history(),
            },
    {
        let step = match self.step_buffer.try_take() {
            Err(e) => {
                return Err(e);
            },
            Ok(None) => {
                return Ok(());
            },
            Ok(Some(step)) => step,
        };
        let BufferedStep { thought: _, calls, results } = step;
        let ghost rv = results_view(results@);
        let ghost h0 = self.history();
        let ghost kept = calls@;
        self.messages.push(Message::new_tool_call_message(None, calls));
        assert(self.history() =~= h0 + step_messages(kept, rv).take(1));
        let mut k: usize = 0;
        while k < results.len()
            invariant
                k <= results@.len(),
                rv == results_view(results@),
                self.history() == h0 + step_messages(kept, rv).take(k + 1),
                step_messages(kept, rv).len() == rv.len() + 1,
                self.step() is None,
                self.tools() == old(self).tools(),
                self.call_options() == old(self).call_options(),
            decreases results@.len() - k,
        {
            let entry: &ToolResult = &results[k];
            let content = entry.1.1.to_text();
            let id = entry.0.clone();
            let ghost before = self.history();
            let m = Message::new_tool_message(Some(id), content);
            assert(m@ == result_message(rv[k as int]));
            assert(step_messages(kept, rv)[k + 1] == result_message(rv[k as int]));
            self.messages.push(m);
            assert(self.history() =~= before.push(m@));
            assert(step_messages(kept, rv).take(k + 2) =~= step_messages(kept, rv).take(k + 1).push(
                step_messages(kept, rv)[k + 1],
            ));
            k = k + 1;
        }
        assert(step_messages(kept, rv).take(rv.len() as int + 1) =~= step_messages(kept, rv));
        Ok(())
    }

    /// The messages to send to the model.
    pub fn prompt(&self) -> (r: Vec<Message>)
        ensures
            message_views(r@) == self.history(),
    {
        clone_messages(&self.messages)
    }

    /// Records what the model produced: tool calls start a new step with the
    /// model's thought.
    pub fn record_output(&mut self, output: &LLMOutput)
        ensures
            final(self).history() == old(self).history(),
            final(self).tools() == old(self).tools(),
            final(self).call_options() == old(self).call_options(),
            output.event matches LLMEvent::ToolCall(calls) ==> (final(self).step() matches Some(s)
                && s.thought == output.thought && s.calls@ == calls@ && s.results@.len() == 0),
            output.event is Text ==> final(self).step() == old(self).step(),
    {
        if let LLMEvent::ToolCall(calls) = &output.event {
            self.step_buffer.init_step(clone_opt_string(&output.thought), clone_calls(calls));
        }
    }

    /// Records the result of a tool call of the current step.
    pub fn add_tool_result(&mut self, id: &str, tool_name: &str, result: Result<ToolOutput, ToolError>)
        ensures
            final(self).history() == old(self).history(),
            final(self).tools() == old(self).tools(),
            final(self).call_options() == old(self).call_options(),
            result is Err ==> final(self).step() == old(self).step(),
            result matches Ok(output) ==> {
                let before = match old(self).step() {
                    Some(s) => s.results_v(),
                    None => Seq::empty(),
                };
                final(self).step() matches Some(s) && s.results_v()
                    == crate::llm::step_buffer::results_with(before, id@, tool_name@, output.data)
            },
    {
        self.step_buffer.push_result(id, tool_name, result);
    }

    /// Forces the model to give its final answer: a pending tool-call message
    /// loses its calls, and the request for the final answer is added.
    pub fn force_final_answer(&mut self)
        ensures
            final(self).history() == forced_history(old(self).history()),
            final(self).step() == old(self).step(),
            final(self).tools() == old(self).tools(),
            final(self).call_options() == old(self).call_options(),
    {
        let ghost h = self.history();
        let n = self.messages.len();
        let last_is_ai = n > 0 && self.messages[n - 1].role == Role::Ai;
        if last_is_ai {
            if self.messages[n - 1].tool_calls.is_some() {
                let mut m = self.messages.pop().unwrap();
                m.tool_calls = None;
                m.content = String::new();
                self.messages.push(m);
                assert(self.history() =~= h.update(
                    h.len() - 1,
                    MessageView { tool_calls: None, content: Seq::empty(), ..h.last() },
                ));
            }
        } else {
            self.messages.push(Message::new_ai_message(String::new()));
            assert(self.history() =~= h.push(
                MessageView { role: Role::Ai, content: Seq::empty(), tool_calls: None, id: None },
            ));
        }
        let ghost closed = self.history();
        self.messages.push(Message::new_human_message(FORCE_FINAL_ANSWER.to_owned()));
        assert(self.history() =~= closed.push(
            MessageView {
                role: Role::Human,
                content: FORCE_FINAL_ANSWER@,
                tool_calls: None,
                id: None,
            },
        ));
    }
}

/// Forcing the final answer always ends the history with the request for it,
/// preceded by an AI message without tool calls.
pub proof fn lemma_forced_history_ends_with_request(h: Seq<MessageView>)
    ensures
        forced_history(h).len() >= 2,
        forced_history(h).last().role == Role::Human,
        forced_history(h).last().content == FORCE_FINAL_ANSWER@,
        forced_history(h)[forced_history(h).len() - 2].role == Role::Ai,
        forced_history(h)[forced_history(h).len() - 2].tool_calls is None,
{
}

} // verus!
