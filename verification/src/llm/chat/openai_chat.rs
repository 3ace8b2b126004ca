//! Chat completions with models that request tool calls natively: how a prompt
//! is prepared, and the history-keeping part of a session.
//!
//! Calling the model is left to the caller. A session step goes: flush the
//! previous step ([`OpenAiChatSession::flush_step_buffer`]), build the request
//! ([`OpenAiChatSession::build_request`]), call the model and select a choice,
//! read it ([`choice_outcome`]) and, for tool calls, start a step
//! ([`OpenAiChatSession::begin_step`]).
use vstd::prelude::*;
use crate::llm::chat::chat_history::{ChatHistory, SystemRole};
use crate::llm::chat::messages::{
    add_force_final_answer_message, forced_requests, request_message, request_message_of,
    request_views, system_message, system_message_of, texts_view, tool_call_message,
    tool_content, tool_message, RequestMessage, RequestMessageV, SystemMessage, SystemMessageV,
};
use crate::llm::chat::response::{calls_view, opt_text, MessageToolCall, MessageToolCallV, ResponseMessage, ToolType};
use crate::llm::chat::helper::named_in;
use crate::llm::error::LLMError;
use crate::llm::options::LLMOptions;
use crate::llm::step_buffer::{
    buffered_results, has_result, results_after, results_view, results_with, BufferedStep, CallId,
    StepBuffer, ToolOutcome, ToolResult, ToolResultView,
};
use crate::memory::memory::Memory;
use crate::schemas::{
    message_views, LLMEvent, LLMOutput, Message, MessageView, Role, ToolCall, ToolError,
    ToolOutput,
};

verus! {

/// A message of a prompt once prepared for a model that takes tool calls
/// natively: a system message becomes an AI message when system messages are
/// sent as assistant messages, and a message with tool calls loses its text
/// unless the thought is kept.
pub open spec fn prepared_message(options: LLMOptions, m: MessageView) -> MessageView {
    let m1 = if options.system_is_assistant == Some(true) && m.role == Role::System {
        MessageView { role: Role::Ai, ..m }
    } else {
        m
    };
    if options.drop_thought != Some(false) && (m1.tool_calls matches Some(cs) && cs.len() > 0) {
        MessageView { content: Seq::empty(), ..m1 }
    } else {
        m1
    }
}

/// Prepares the messages of a prompt (see [`prepared_message`]).
pub fn process_prompt(options: &LLMOptions, prompt: Vec<Message>) -> (r: Vec<Message>)
    ensures
        r@.len() == prompt@.len(),
        forall|i: int|
            0 <= i < prompt@.len() ==> (#[trigger] r@[i])@ == prepared_message(*options, prompt@[i]@),
{
    let as_assistant = match options.system_is_assistant {
        Some(b) => b,
        None => false,
    };
    let drop_thought = match options.drop_thought {
        Some(b) => b,
        None => true,
    };
    let mut out: Vec<Message> = Vec::new();
    for message in it: prompt
        invariant
            it.seq() == prompt@,
            as_assistant == (options.system_is_assistant == Some(true)),
            drop_thought == (options.drop_thought != Some(false)),
            out@.len() == it.index(),
            forall|i: int|
                0 <= i < it.index() ==> (#[trigger] out@[i])@ == prepared_message(
                    *options,
                    prompt@[i]@,
                ),
    {
        let mut message = message;
        if as_assistant && message.role == Role::System {
            message.role = Role::Ai;
        }
        let has_calls = match &message.tool_calls {
            Some(cs) => cs.len() > 0,
            None => false,
        };
        if drop_thought && has_calls {
            message.content = String::new();
        }
        out.push(message);
    }
    out
}

/// What preparing a message keeps and changes: with system messages sent as
/// assistant messages no system message is left, and otherwise every role is
/// kept; messages of other roles keep theirs; the tool calls and the id are
/// never touched; the text is kept unless the message holds tool calls and the
/// thought is dropped (which it is unless the options keep it), and then it
/// is emptied.
pub proof fn lemma_prepared_message_effects(options: LLMOptions, m: MessageView)
    ensures
        ({
            let r = prepared_message(options, m);
            let has_calls = m.tool_calls matches Some(cs) && cs.len() > 0;
            &&& options.system_is_assistant == Some(true) ==> r.role != Role::System
            &&& options.system_is_assistant != Some(true) ==> r.role == m.role
            &&& m.role != Role::System ==> r.role == m.role
            &&& m.role == Role::System && options.system_is_assistant == Some(true) ==> r.role == Role::Ai
            &&& r.tool_calls == m.tool_calls
            &&& r.id == m.id
            &&& (!has_calls || options.drop_thought == Some(false)) ==> r.content == m.content
            &&& (has_calls && options.drop_thought != Some(false)) ==> r.content.len() == 0
        }),
{
}

/// Preparing a prepared message again changes nothing.
pub proof fn lemma_prepared_message_idempotent(options: LLMOptions, m: MessageView)
    ensures
        prepared_message(options, prepared_message(options, m)) == prepared_message(options, m),
{
}

/// The contents of the system messages of a prompt, in order.
pub open spec fn prompt_system_contents(p: Seq<MessageView>) -> Seq<Seq<char>> {
    p.filter(|m: MessageView| m.role == Role::System).map_values(|m: MessageView| m.content)
}

/// The other messages of a prompt, in order, as request messages.
pub open spec fn prompt_requests(p: Seq<MessageView>) -> Seq<RequestMessageV> {
    p.filter(|m: MessageView| m.role != Role::System).map_values(
        |m: MessageView| request_message_of(m),
    )
}

/// Splits a prompt into the contents of its system messages and its other
/// messages as request messages.
pub fn split_prompt(prompt: Vec<Message>) -> (r: (Vec<String>, Vec<RequestMessage>))
    ensures
        texts_view(r.0@) == prompt_system_contents(message_views(prompt@)),
        request_views(r.1@) == prompt_requests(message_views(prompt@)),
{
    let ghost pv = message_views(prompt@);
    let ghost is_sys = |m: MessageView| m.role == Role::System;
    let ghost not_sys = |m: MessageView| m.role != Role::System;
    let mut system: Vec<String> = Vec::new();
    let mut rest: Vec<RequestMessage> = Vec::new();
    proof {
        assert(pv.take(0) =~= Seq::<MessageView>::empty());
        reveal_with_fuel(Seq::filter, 1);
    }
    for message in it: prompt
        invariant
            it.seq() == prompt@,
            pv == message_views(prompt@),
            is_sys == (|m: MessageView| m.role == Role::System),
            not_sys == (|m: MessageView| m.role != Role::System),
            texts_view(system@) == pv.take(it.index() as int).filter(is_sys).map_values(
                |m: MessageView| m.content,
            ),
            request_views(rest@) == pv.take(it.index() as int).filter(not_sys).map_values(
                |m: MessageView| request_message_of(m),
            ),
    {
        let ghost k = it.index() as int;
        let ghost mv = message@;
        proof {
            reveal_with_fuel(Seq::filter, 1);
            assert(pv.take(k + 1).drop_last() =~= pv.take(k));
            assert(pv.take(k + 1).last() == mv);
        }
        if message.role == Role::System {
            let ghost before = system@;
            system.push(message.content);
            proof {
                assert(texts_view(system@) =~= texts_view(before).push(mv.content));
                assert(pv.take(k + 1).filter(is_sys) =~= pv.take(k).filter(is_sys).push(mv));
                assert(pv.take(k + 1).filter(not_sys) =~= pv.take(k).filter(not_sys));
                assert(pv.take(k + 1).filter(is_sys).map_values(|m: MessageView| m.content)
                    =~= pv.take(k).filter(is_sys).map_values(|m: MessageView| m.content).push(
                    mv.content,
                ));
            }
        } else {
            let ghost before = rest@;
            let r = request_message(message);
            rest.push(r);
            proof {
                assert(request_views(rest@) =~= request_views(before).push(request_message_of(mv)));
                assert(pv.take(k + 1).filter(not_sys) =~= pv.take(k).filter(not_sys).push(mv));
                assert(pv.take(k + 1).filter(is_sys) =~= pv.take(k).filter(is_sys));
                assert(pv.take(k + 1).filter(not_sys).map_values(
                    |m: MessageView| request_message_of(m),
                ) =~= pv.take(k).filter(not_sys).map_values(
                    |m: MessageView| request_message_of(m),
                ).push(request_message_of(mv)));
            }
        }
    }
    proof {
        assert(pv.take(pv.len() as int) =~= pv);
    }
    (system, rest)
}

/// The request messages standing for `messages`, in order.
pub fn request_messages(messages: Vec<Message>) -> (r: Vec<RequestMessage>)
    ensures
        request_views(r@) == message_views(messages@).map_values(
            |m: MessageView| request_message_of(m),
        ),
{
    let ghost sv = message_views(messages@);
    let mut converted: Vec<RequestMessage> = Vec::new();
    for m in it: messages
        invariant
            it.seq() == messages@,
            sv == message_views(messages@),
            request_views(converted@) == sv.take(it.index() as int).map_values(
                |m: MessageView| request_message_of(m),
            ),
    {
        let ghost k = it.index() as int;
        let ghost before = converted@;
        let ghost mv = m@;
        converted.push(request_message(m));
        proof {
            assert(request_views(converted@) =~= request_views(before).push(request_message_of(mv)));
            assert(sv.take(k + 1).map_values(|m: MessageView| request_message_of(m)) =~= sv.take(
                k,
            ).map_values(|m: MessageView| request_message_of(m)).push(request_message_of(mv)));
        }
    }
    proof {
        assert(sv.take(sv.len() as int) =~= sv);
    }
    converted
}

/// How a model's message is read once a choice is selected.
#[derive(Debug)]
pub enum ChoiceOutcome {
    /// The model answered with this text.
    Answer(String),
    /// The model requested these tool calls, with this text (if any) beside
    /// them.
    Calls(Option<String>, Vec<MessageToolCall>),
}

/// The error message for a model message that holds neither text nor calls.
pub open spec fn unreadable_message() -> Seq<char> {
    "Cannot convert LLM generation result to LLMOutput"@
}

/// Reads a model's message: a refusal is an error; otherwise the tool calls it
/// requested (or its single function call, given the identifier `fresh_id`)
/// with its text; otherwise its text as the answer; otherwise an error.
pub fn choice_outcome<A>(message: ResponseMessage<A>, fresh_id: String) -> (r: Result<
    ChoiceOutcome,
    LLMError,
>)
    ensures
        message.refusal matches Some(t) ==> (r matches Err(LLMError::Refused(e)) && e == t),
        message.refusal is None && message.tool_calls is Some ==> (r matches Ok(
            ChoiceOutcome::Calls(c, cs),
        ) && c == message.content && cs == message.tool_calls->0),
        message.refusal is None && message.tool_calls is None && message.function_call is Some
            ==> (r matches Ok(ChoiceOutcome::Calls(c, cs)) && c == message.content && cs@.len()
            == 1 && cs@[0]@ == (MessageToolCallV {
            id: fresh_id@,
            kind: ToolType::Function,
            function: message.function_call->0@,
        })),
        message.refusal is None && message.tool_calls is None && message.function_call is None
            && message.content is Some ==> (r matches Ok(ChoiceOutcome::Answer(t)) && t
            == message.content->0),
        message.refusal is None && message.tool_calls is None && message.function_call is None
            && message.content is None ==> (r matches Err(LLMError::Other(m)) && m@
            == unreadable_message()),
{
    let ResponseMessage { role: _, content, refusal, tool_calls, function_call, audio: _ } = message;
    if let Some(t) = refusal {
        return Err(LLMError::Refused(t));
    }
    if let Some(calls) = tool_calls {
        return Ok(ChoiceOutcome::Calls(content, calls));
    }
    if let Some(function) = function_call {
        let call = MessageToolCall { id: fresh_id, kind: ToolType::Function, function };
        let mut calls: Vec<MessageToolCall> = Vec::new();
        calls.push(call);
        return Ok(ChoiceOutcome::Calls(content, calls));
    }
    match content {
        Some(t) => Ok(ChoiceOutcome::Answer(t)),
        None => Err(LLMError::other("Cannot convert LLM generation result to LLMOutput")),
    }
}

/// Whether `c` is the call `m` requested, as a [`ToolCall`]: the same id, the
/// function's name and its arguments.
pub open spec fn call_from(c: ToolCall, m: MessageToolCallV) -> bool {
    c.id@ == m.id && c.name@ == m.function.name && c.arguments@ == m.function.arguments
}

/// The call `m` as a [`ToolCall`].
pub fn tool_call_from(m: &MessageToolCall) -> (r: ToolCall)
    ensures
        call_from(r, m@),
{
    ToolCall::new(m.id.clone(), m.function.name.clone(), m.function.arguments.clone())
}

/// The history messages of a completed step: the assistant message with the
/// calls that have a result (and the thought, when kept), then one tool
/// message per result.
pub open spec fn step_requests(
    thought: Option<Seq<char>>,
    calls: Seq<MessageToolCallV>,
    results: Seq<ToolResultView>,
) -> Seq<RequestMessageV> {
    seq![RequestMessageV::Assistant { content: thought, tool_calls: Some(calls) }]
        + results.map_values(
        |r: ToolResultView| RequestMessageV::Tool { tool_call_id: r.0, content: tool_content(r.2) },
    )
}

/// The state of a chat session with a model that requests tool calls natively:
/// the system message, the other messages, the tools (of type `T`), the
/// buffered step, whether tools are withheld, and the call options.
pub struct OpenAiChatSession<T> {
    system: SystemMessage,
    messages: Vec<RequestMessage>,
    function_specs: Option<Vec<T>>,
    step_buffer: StepBuffer<MessageToolCall>,
    force_final_answer: bool,
    options: LLMOptions,
}

impl<T> OpenAiChatSession<T> {
    /// The system message.
    pub closed spec fn system(&self) -> SystemMessageV {
        self.system@
    }

    /// The messages after the system message.
    pub closed spec fn history(&self) -> Seq<RequestMessageV> {
        request_views(self.messages@)
    }

    /// The tools offered to the model, if any.
    pub closed spec fn tools(&self) -> Option<Seq<T>> {
        match self.function_specs {
            Some(v) => Some(v@),
            None => None,
        }
    }

    /// The buffered step.
    pub closed spec fn step(&self) -> Option<BufferedStep<MessageToolCall>> {
        self.step_buffer.step()
    }

    /// Whether tools are withheld from requests.
    pub closed spec fn tools_withheld(&self) -> bool {
        self.force_final_answer
    }

    /// The call options.
    pub closed spec fn call_options(&self) -> LLMOptions {
        self.options
    }

    /// Starts a session: the system messages of the prompt make the system
    /// message, its other messages the history; the tools are offered when
    /// there is at least one.
    pub fn new(prompt: Vec<Message>, function_specs: Vec<T>, options: LLMOptions) -> (r: Self)
        ensures
            r.system() == system_message_of(prompt_system_contents(message_views(prompt@))),
            r.history() == prompt_requests(message_views(prompt@)),
            r.tools() == (if function_specs@.len() == 0 {
                None
            } else {
                Some(function_specs@)
            }),
            r.step() is None,
            !r.tools_withheld(),
            r.call_options() == options,
    {
        let (contents, messages) = split_prompt(prompt);
        let system = system_message(contents);
        let function_specs = if function_specs.len() == 0 {
            None
        } else {
            Some(function_specs)
        };
        OpenAiChatSession {
            system,
            messages,
            function_specs,
            step_buffer: StepBuffer::new(),
            force_final_answer: false,
            options,
        }
    }

    /// The call options of the session.
    pub fn options(&self) -> (r: &LLMOptions)
        ensures
            *r == self.call_options(),
    {
        &self.options
    }

    /// The messages and tools of the next request: the system message is sent
    /// as an assistant message when the model's default options say so; the
    /// tools are left out once they are withheld.
    pub fn build_request(&self, default_options: &LLMOptions) -> (r: (
        ChatHistory<'_>,
        Option<&Vec<T>>,
    ))
        ensures
            r.0.role == (if default_options.system_is_assistant == Some(true) {
                SystemRole::Assistant
            } else {
                SystemRole::System
            }),
            r.0.system@ == self.system(),
            request_views(r.0.messages@) == self.history(),
            r.1 is Some <==> (!self.tools_withheld() && self.tools() is Some),
            r.1 matches Some(v) ==> Some(v@) == self.tools(),
    {
        let tools = if !self.force_final_answer {
            self.function_specs.as_ref()
        } else {
            None
        };
        let as_assistant = match default_options.system_is_assistant {
            Some(b) => b,
            None => false,
        };
        let history = if as_assistant {
            ChatHistory::as_assistant(&self.system, self.messages.as_slice())
        } else {
            ChatHistory::new(&self.system, self.messages.as_slice())
        };
        (history, tools)
    }

    /// Puts the messages of `memory` (as request messages) before the history.
    pub fn load_memory<M: Memory>(&mut self, memory: &M)
        ensures
            final(self).history() == memory.stored().map_values(
                |m: MessageView| request_message_of(m),
            ) + old(self).history(),
            final(self).system() == old(self).system(),
            final(self).tools() == old(self).tools(),
            final(self).step() == old(self).step(),
            final(self).tools_withheld() == old(self).tools_withheld(),
            final(self).call_options() == old(self).call_options(),
    {
        let mut converted = request_messages(memory.messages());
        let ghost cv = request_views(converted@);
        let ghost hv = request_views(self.messages@);
        let mut rest = Vec::new();
        std::mem::swap(&mut rest, &mut self.messages);
        converted.append(&mut rest);
        self.messages = converted;
        assert(request_views(self.messages@) =~= cv + hv);
    }

    /// Moves the buffered step into the history: an assistant message with the
    /// calls that have a result (and the step's thought, when the model's
    /// default options keep thoughts), then one tool message per result.
    /// Nothing changes when no step (or a step without calls) is buffered; an
    /// error is returned, and the history left alone, when no call has a
    /// result. The buffer is empty afterwards.
    pub fn flush_step_buffer(&mut self, default_options: &LLMOptions) -> (r: Result<(), ToolError>)
        ensures
            final(self).step() is None,
            final(self).system() == old(self).system(),
            final(self).tools() == old(self).tools(),
            final(self).tools_withheld() == old(self).tools_withheld(),
            final(self).call_options() == old(self).call_options(),
            match old(self).step() {
                Some(s) if s.calls@.len() > 0 => {
                    let kept = s.calls@.filter(
                        |c: MessageToolCall| has_result(s.results_v(), c.call_id()),
                    );
                    let thought = if default_options.drop_thought == Some(false) {
                        opt_text(s.thought)
                    } else {
                        None
                    };
                    if kept.len() == 0 {
                        r == Err::<(), ToolError>(ToolError::AllToolsFailed) && final(self).history()
                            == old(self).history()
                    } else {
                        r == Ok::<(), ToolError>(()) && final(self).history() == old(self).history()
                            + step_requests(thought, calls_view(kept), s.results_v())
                    }
                },
                _ => r == Ok::<(), ToolError>(()) && final(self).history() == old(self).history(),
            },
    {
        let step = match self.step_buffer.try_take() {
            Err(e) => {
                return Err(e);
            },
            Ok(None) => {
                return Ok(());
            },
            Ok(Some(step)) => step,
        };
        let BufferedStep { thought, calls, results } = step;
        let keep_thought = match default_options.drop_thought {
            Some(b) => !b,
            None => false,
        };
        let thought = if keep_thought {
            thought
        } else {
            None
        };
        let ghost tv = opt_text(thought);
        let ghost rv = results_view(results@);
        let ghost cv = calls_view(calls@);
        let ghost h0 = self.history();
        let ghost expected = step_requests(tv, cv, rv);
        self.messages.push(tool_call_message(thought, calls));
        assert(self.history() =~= h0 + expected.take(1));
        let mut k: usize = 0;
        while k < results.len()
            invariant
                k <= results@.len(),
                rv == results_view(results@),
                expected == step_requests(tv, cv, rv),
                self.history() == h0 + expected.take(k + 1),
                expected.len() == rv.len() + 1,
                self.step() is None,
                self.system() == old(self).system(),
                self.tools() == old(self).tools(),
                self.tools_withheld() == old(self).tools_withheld(),
                self.call_options() == old(self).call_options(),
            decreases results@.len() - k,
        {
            let entry: &ToolResult = &results[k];
            let data = entry.1.1.clone();
            let ghost before = self.history();
            let m = tool_message(entry.0.as_str(), data);
            assert(expected[k + 1] == m@);
            self.messages.push(m);
            assert(self.history() =~= before.push(m@));
            assert(expected.take(k + 2) =~= expected.take(k + 1).push(expected[k + 1]));
            k = k + 1;
        }
        assert(expected.take(rv.len() as int + 1) =~= expected);
        Ok(())
    }

    /// Starts a step with the tool calls the model requested and its text. The
    /// calls of tools named in `mcp_names` (served by MCP servers) are handed
    /// back to be run, each once, with their results recorded through
    /// [`Self::add_tool_result`]; the other calls, in order, are returned with
    /// the text as the model's output. The step holds every call.
    pub fn begin_step(
        &mut self,
        content: Option<String>,
        calls: Vec<MessageToolCall>,
        mcp_names: &Vec<String>,
    ) -> (r: (LLMOutput, Vec<ToolCall>))
        ensures
            final(self).step() matches Some(s) && s.thought == content && s.calls == calls
                && s.results@.len() == 0,
            r.0.thought == content,
            r.0.event matches LLMEvent::ToolCall(out) && {
                let local = calls@.filter(
                    |c: MessageToolCall| !named_in(mcp_names@, c.function.name@),
                );
                &&& out@.len() == local.len()
                &&& forall|i: int| 0 <= i < local.len() ==> call_from(#[trigger] out@[i], local[i]@)
            },
            ({
                let remote = calls@.filter(
                    |c: MessageToolCall| named_in(mcp_names@, c.function.name@),
                );
                &&& r.1@.len() == remote.len()
                &&& forall|i: int| 0 <= i < remote.len() ==> call_from(#[trigger] r.1@[i], remote[i]@)
            }),
            final(self).history() == old(self).history(),
            final(self).system() == old(self).system(),
            final(self).tools() == old(self).tools(),
            final(self).tools_withheld() == old(self).tools_withheld(),
            final(self).call_options() == old(self).call_options(),
    {
        let ghost all = calls@;
        let ghost is_mcp = |c: MessageToolCall| named_in(mcp_names@, c.function.name@);
        let ghost not_mcp = |c: MessageToolCall| !named_in(mcp_names@, c.function.name@);
        let mut local: Vec<ToolCall> = Vec::new();
        let mut remote: Vec<ToolCall> = Vec::new();
        proof {
            reveal_with_fuel(Seq::filter, 1);
            assert(all.take(0) =~= Seq::<MessageToolCall>::empty());
        }
        let mut i: usize = 0;
        while i < calls.len()
            invariant
                i <= calls@.len(),
                all == calls@,
                is_mcp == (|c: MessageToolCall| named_in(mcp_names@, c.function.name@)),
                not_mcp == (|c: MessageToolCall| !named_in(mcp_names@, c.function.name@)),
                local@.len() == all.take(i as int).filter(not_mcp).len(),
                forall|j: int|
                    0 <= j < local@.len() ==> call_from(
                        #[trigger] local@[j],
                        all.take(i as int).filter(not_mcp)[j]@,
                    ),
                remote@.len() == all.take(i as int).filter(is_mcp).len(),
                forall|j: int|
                    0 <= j < remote@.len() ==> call_from(
                        #[trigger] remote@[j],
                        all.take(i as int).filter(is_mcp)[j]@,
                    ),
            decreases calls@.len() - i,
        {
            let ghost c = all[i as int];
            proof {
                reveal_with_fuel(Seq::filter, 1);
                assert(all.take(i + 1).drop_last() =~= all.take(i as int));
                assert(all.take(i + 1).last() == c);
            }
            let found = crate::llm::chat::helper::is_named_in(
                mcp_names,
                calls[i].function.name.as_str(),
            );
            let t = tool_call_from(&calls[i]);
            if found {
                remote.push(t);
                assert(all.take(i + 1).filter(is_mcp) == all.take(i as int).filter(is_mcp).push(c));
                assert(all.take(i + 1).filter(not_mcp) == all.take(i as int).filter(not_mcp));
            } else {
                local.push(t);
                assert(all.take(i + 1).filter(not_mcp) == all.take(i as int).filter(not_mcp).push(
                    c,
                ));
                assert(all.take(i + 1).filter(is_mcp) == all.take(i as int).filter(is_mcp));
            }
            i = i + 1;
        }
        proof {
            assert(all.take(all.len() as int) =~= all);
        }
        let thought = crate::schemas::clone_opt_string(&content);
        self.step_buffer.init_step(content, calls);
        (LLMOutput { event: LLMEvent::ToolCall(local), thought }, remote)
    }

    /// Records the result of a tool call of the current step.
    pub fn add_tool_result(&mut self, id: &str, tool_name: &str, result: Result<ToolOutput, ToolError>)
        ensures
            final(self).history() == old(self).history(),
            final(self).system() == old(self).system(),
            final(self).tools() == old(self).tools(),
            final(self).tools_withheld() == old(self).tools_withheld(),
            final(self).call_options() == old(self).call_options(),
            result is Err ==> final(self).step() == old(self).step(),
            result matches Ok(output) ==> {
                let before = match old(self).step() {
                    Some(s) => s.results_v(),
                    None => Seq::empty(),
                };
                final(self).step() matches Some(s) && s.results_v() == results_with(
                    before,
                    id@,
                    tool_name@,
                    output.data,
                )
            },
    {
        self.step_buffer.push_result(id, tool_name, result);
    }

    /// Records the outcomes of tool calls of the current step, in order (the
    /// calls run on MCP servers, for instance): each result is buffered as by
    /// [`Self::add_tool_result`], and a failed one is left out.
    pub fn record_tool_results(&mut self, outcomes: Vec<ToolOutcome>)
        ensures
            buffered_results(final(self).step()) == results_after(
                buffered_results(old(self).step()),
                outcomes@,
            ),
            old(self).step() matches Some(s) ==> (final(self).step() matches Some(t) && t.thought
                == s.thought && t.calls@ == s.calls@),
            final(self).history() == old(self).history(),
            final(self).system() == old(self).system(),
            final(self).tools_withheld() == old(self).tools_withheld(),
            final(self).call_options() == old(self).call_options(),
    {
        let ghost outs = outcomes@;
        let ghost start = buffered_results(self.step());
        for outcome in it: outcomes
            invariant
                it.seq() == outs,
                buffered_results(self.step()) == results_after(start, outs.take(it.index() as int)),
                old(self).step() matches Some(s) ==> (self.step() matches Some(t) && t.thought
                    == s.thought && t.calls@ == s.calls@),
                self.history() == old(self).history(),
                self.system() == old(self).system(),
                self.tools_withheld() == old(self).tools_withheld(),
                self.call_options() == old(self).call_options(),
        {
            let ghost i = it.index() as int;
            proof {
                assert(outs.take(i + 1).drop_last() =~= outs.take(i));
                assert(outs.take(i + 1).last() == outcome);
            }
            let (id, name, result) = outcome;
            self.step_buffer.push_result(id.as_str(), name.as_str(), result);
        }
        proof {
            assert(outs.take(outs.len() as int) =~= outs);
        }
    }

    /// Forces the model to give its final answer: the history asks for it
    /// (see [`forced_requests`]), and from then on no tools are sent.
    pub fn force_final_answer(&mut self)
        ensures
            final(self).history() == forced_requests(old(self).history()),
            final(self).system() == old(self).system(),
            final(self).tools() == old(self).tools(),
            final(self).step() == old(self).step(),
            final(self).tools_withheld(),
            final(self).call_options() == old(self).call_options(),
    {
        add_force_final_answer_message(&mut self.messages);
        self.force_final_answer = true;
    }
}

} // verus!
