//! Chat completions with models that are told in the prompt how to call tools
//! and write the calls as plain text: how a prompt is prepared for them, and
//! the history-keeping part of a session.
//!
//! Calling the model, and reading its text into an [`LLMOutput`] (which the
//! model's instructor does), is left to the caller. A session step goes: flush
//! the previous step ([`GenericChatSession::flush_step_buffer`]), build the
//! request ([`GenericChatSession::build_request`]), call the model, read its
//! text and hand the output back ([`GenericChatSession::record_output`]).
use vstd::prelude::*;
use vstd::string::StringExecFns;
use crate::llm::chat::chat_history::{ChatHistory, SystemRole};
use crate::llm::chat::messages::{
    add_force_final_answer_message, append_system, forced_requests, request_message_of,
    request_views, system_appended, system_message, system_message_of, user_message,
    MessageContent, RequestMessage, RequestMessageV, SystemMessage, SystemMessageV,
};
use crate::llm::chat::openai_chat::{prompt_requests, prompt_system_contents, split_prompt};
use crate::llm::chat::helper::{named_in, partition_mcp_calls};
use crate::llm::options::LLMOptions;
use crate::llm::step_buffer::{
    buffered_results, has_result, results_after, results_view, results_with, BufferedStep, CallId,
    StepBuffer, ToolOutcome, ToolResult, ToolResultView,
};
use crate::memory::memory::Memory;
use crate::schemas::{
    call_text, clone_calls, clone_opt_string, clone_strings, data_text, joined_lines,
    message_views, LLMEvent, LLMOutput, Message, MessageView, Role, ToolCall, ToolError,
    ToolOutput,
};
use crate::text::{chars_of, string_of};

verus! {

/// The opening line of a JSON code block.
pub open spec fn json_fence() -> Seq<char> {
    "```json\n"@
}

/// The closing line of a code block.
pub open spec fn end_fence() -> Seq<char> {
    "```\n"@
}

/// The texts of `calls`, one per line.
pub open spec fn calls_block(calls: Seq<ToolCall>) -> Seq<char>
    decreases calls.len(),
{
    if calls.len() == 0 {
        Seq::empty()
    } else {
        calls_block(calls.drop_last()) + call_text(calls.last()) + seq!['\n']
    }
}

/// The block of a prepared tool-call message holds every call, in order, each
/// on a line of its own: one call gives its text and a newline, and the block
/// of calls `a` followed by calls `b` is the block of `a` followed by the block
/// of `b`.
pub proof fn lemma_calls_block_lines(a: Seq<ToolCall>, b: Seq<ToolCall>, c: ToolCall)
    ensures
        calls_block(Seq::empty()) == Seq::<char>::empty(),
        calls_block(seq![c]) == call_text(c) + seq!['\n'],
        calls_block(a + b) == calls_block(a) + calls_block(b),
    decreases b.len(),
{
    assert(seq![c].drop_last() =~= Seq::<ToolCall>::empty());
    assert(calls_block(seq![c]) == calls_block(Seq::empty()) + call_text(c) + seq!['\n']);
    assert(Seq::<char>::empty() + call_text(c) + seq!['\n'] =~= call_text(c) + seq!['\n']);
    if b.len() == 0 {
        assert(a + b =~= a);
        assert(calls_block(a) + Seq::<char>::empty() =~= calls_block(a));
    } else {
        lemma_calls_block_lines(a, b.drop_last(), c);
        assert((a + b).drop_last() =~= a + b.drop_last());
        assert((a + b).last() == b.last());
        assert(calls_block(a) + calls_block(b.drop_last()) + call_text(b.last()) + seq!['\n']
            =~= calls_block(a) + (calls_block(b.drop_last()) + call_text(b.last()) + seq!['\n']));
    }
}

/// Whether the message at `i` is the first system message of `p`.
pub open spec fn is_first_system(p: Seq<MessageView>, i: int) -> bool {
    &&& p[i].role == Role::System
    &&& forall|j: int| 0 <= j < i ==> p[j].role != Role::System
}

/// A message of a prompt once prepared: the tool-use `instruction` is appended
/// to the first system message; a system message becomes an AI message when
/// system messages are sent as assistant messages; tool calls become a JSON
/// code block with one call per line, after the text and a line break (or in
/// place of the text, when there are calls and the thought is dropped); a tool
/// message becomes a human message.
pub open spec fn generic_prepared(
    options: LLMOptions,
    instruction: Option<Seq<char>>,
    first_system: bool,
    m: MessageView,
) -> MessageView {
    let content = if first_system && instruction is Some {
        m.content + instruction->0
    } else {
        m.content
    };
    let role = if options.system_is_assistant == Some(true) && m.role == Role::System {
        Role::Ai
    } else {
        m.role
    };
    let content = match m.tool_calls {
        Some(cs) => {
            let head = if options.drop_thought != Some(false) && cs.len() > 0 {
                Seq::empty()
            } else {
                content + seq!['\n']
            };
            head + json_fence() + calls_block(cs) + end_fence()
        },
        None => content,
    };
    MessageView {
        role: if role == Role::Tool {
            Role::Human
        } else {
            role
        },
        content,
        tool_calls: None,
        id: m.id,
    }
}

/// The tool-use instruction goes to one message at most: no two messages of a
/// prompt are both its first system message, and a prompt with a system
/// message has one.
pub proof fn lemma_first_system_unique(p: Seq<MessageView>, i: int, j: int)
    ensures
        is_first_system(p, i) && is_first_system(p, j) && 0 <= i < p.len() && 0 <= j < p.len()
            ==> i == j,
        0 <= i < p.len() && p[i].role == Role::System ==> exists|k: int|
            0 <= k <= i && #[trigger] is_first_system(p, k),
    decreases i,
{
    if 0 <= i < p.len() && p[i].role == Role::System {
        if exists|k: int| 0 <= k < i && p[k].role == Role::System {
            let k = choose|k: int| 0 <= k < i && p[k].role == Role::System;
            lemma_first_system_unique(p, k, j);
        } else {
            assert(is_first_system(p, i));
        }
    }
}

/// What preparing a message for a model that writes its calls as text keeps
/// and changes: the message carries no structured tool calls any more and
/// keeps its id; a tool message becomes a human message, a system message an
/// AI message when system messages are sent as assistant messages, and other
/// roles are kept; a message without tool calls keeps its text, followed by
/// the instruction when it is the first system message; a message with tool
/// calls ends with the JSON code block of all its calls, after its text and a
/// line break unless the thought is dropped.
pub proof fn lemma_generic_prepared_effects(
    options: LLMOptions,
    instruction: Option<Seq<char>>,
    first_system: bool,
    m: MessageView,
)
    ensures
        ({
            let r = generic_prepared(options, instruction, first_system, m);
            let text = if first_system && instruction is Some {
                m.content + instruction->0
            } else {
                m.content
            };
            &&& r.tool_calls is None
            &&& r.id == m.id
            &&& r.role != Role::Tool
            &&& m.role == Role::Tool ==> r.role == Role::Human
            &&& m.role == Role::System && options.system_is_assistant == Some(true) ==> r.role
                == Role::Ai
            &&& (m.role == Role::Human || m.role == Role::Ai || (m.role == Role::System
                && options.system_is_assistant != Some(true))) ==> r.role == m.role
            &&& m.tool_calls is None ==> r.content == text
            &&& m.tool_calls matches Some(cs) ==> {
                let block = json_fence() + calls_block(cs) + end_fence();
                &&& r.content.len() >= block.len()
                &&& r.content.skip(r.content.len() - block.len()) == block
                &&& (options.drop_thought == Some(false) || cs.len() == 0) ==> r.content == text
                    + seq!['\n'] + block
                &&& (options.drop_thought != Some(false) && cs.len() > 0) ==> r.content == block
            }
        }),
{
    if let Some(cs) = m.tool_calls {
        let block = json_fence() + calls_block(cs) + end_fence();
        let r = generic_prepared(options, instruction, first_system, m);
        assert(r.content.skip(r.content.len() - block.len()) =~= block);
    }
}

/// Appends the JSON code block of `calls` to `out`.
fn push_calls_block(out: &mut String, calls: &Vec<ToolCall>)
    ensures
        final(out)@ == old(out)@ + json_fence() + calls_block(calls@) + end_fence(),
{
    proof {
        reveal_strlit("```json\n");
        reveal_strlit("```\n");
        reveal_strlit("\n");
    }
    out.append("```json\n");
    let ghost start = out@;
    let mut i: usize = 0;
    while i < calls.len()
        invariant
            i <= calls@.len(),
            out@ == start + calls_block(calls@.take(i as int)),
            "\n"@ == seq!['\n'],
        decreases calls@.len() - i,
    {
        let text = calls[i].to_string();
        out.append(text.as_str());
        out.append("\n");
        assert(calls@.take(i + 1).drop_last() =~= calls@.take(i as int));
        assert(calls@.take(i + 1).last() == calls@[i as int]);
        assert(out@ =~= start + calls_block(calls@.take(i + 1)));
        i = i + 1;
    }
    assert(calls@.take(calls@.len() as int) =~= calls@);
    out.append("```\n");
}

/// Prepares the messages of a prompt (see [`generic_prepared`]); the
/// instruction is the tool-use instruction of the model, when tools are
/// offered.
pub fn process_prompt(options: &LLMOptions, instruction: Option<&str>, prompt: Vec<Message>) -> (r:
    Vec<Message>)
    ensures
        r@.len() == prompt@.len(),
        forall|i: int|
            0 <= i < prompt@.len() ==> (#[trigger] r@[i])@ == generic_prepared(
                *options,
                match instruction {
                    Some(s) => Some(s@),
                    None => None,
                },
                is_first_system(crate::schemas::message_views(prompt@), i),
                prompt@[i]@,
            ),
{
    let ghost pv = crate::schemas::message_views(prompt@);
    let ghost iv = match instruction {
        Some(s) => Some(s@),
        None => None,
    };
    let as_assistant = match options.system_is_assistant {
        Some(b) => b,
        None => false,
    };
    let drop_thought = match options.drop_thought {
        Some(b) => b,
        None => true,
    };
    let mut first_system = true;
    let mut out: Vec<Message> = Vec::new();
    for message in it: prompt
        invariant
            it.seq() == prompt@,
            pv == crate::schemas::message_views(prompt@),
            iv == (match instruction {
                Some(s) => Some(s@),
                None => None,
            }),
            as_assistant == (options.system_is_assistant == Some(true)),
            drop_thought == (options.drop_thought != Some(false)),
            first_system == (forall|j: int| 0 <= j < it.index() ==> pv[j].role != Role::System),
            out@.len() == it.index(),
            forall|i: int|
                0 <= i < it.index() ==> (#[trigger] out@[i])@ == generic_prepared(
                    *options,
                    iv,
                    is_first_system(pv, i),
                    pv[i],
                ),
    {
        let ghost k = it.index() as int;
        let ghost mv = message@;
        assert(pv[k] == mv);
        let mut message = message;
        let is_first = first_system && message.role == Role::System;
        assert(is_first == is_first_system(pv, k));
        if is_first {
            if let Some(ins) = instruction {
                message.content.append(ins);
            }
        }
        let ghost c0 = message.content@;
        assert(c0 =~= (if is_first_system(pv, k) && iv is Some {
            mv.content + iv->0
        } else {
            mv.content
        }));
        if message.role == Role::System {
            first_system = false;
        }
        if as_assistant && message.role == Role::System {
            message.role = Role::Ai;
        }
        let calls = message.tool_calls.take();
        if let Some(tool_calls) = calls {
            if drop_thought && tool_calls.len() > 0 {
                message.content = String::new();
            } else {
                proof {
                    reveal_strlit("\n");
                }
                message.content.append("\n");
            }
            let ghost head = message.content@;
            assert(head =~= (if drop_thought && tool_calls@.len() > 0 {
                Seq::empty()
            } else {
                c0 + seq!['\n']
            }));
            push_calls_block(&mut message.content, &tool_calls);
            assert(mv.tool_calls == Some(tool_calls@));
        } else {
            assert(mv.tool_calls is None);
        }
        if message.role == Role::Tool {
            message.role = Role::Human;
        }
        assert(message@ == generic_prepared(*options, iv, is_first_system(pv, k), mv));
        out.push(message);
    }
    out
}

// ---------------------------------------------------------------------------
// Sessions
// ---------------------------------------------------------------------------

/// The text added for the character `c` when a text is indented: a line
/// break is followed by the indentation of the next line.
pub open spec fn indent_piece(c: char) -> Seq<char> {
    if c == '\n' {
        seq!['\n', ' ', ' ', ' ', ' ']
    } else {
        seq![c]
    }
}

/// The characters of `s` with the indentation of every line after the first.
pub open spec fn indent_rest(s: Seq<char>) -> Seq<char>
    decreases s.len(),
{
    if s.len() == 0 {
        Seq::empty()
    } else {
        indent_rest(s.drop_last()) + indent_piece(s.last())
    }
}

/// `s` with every line indented by four spaces.
pub open spec fn indented(s: Seq<char>) -> Seq<char> {
    seq![' ', ' ', ' ', ' '] + indent_rest(s)
}

/// Indents every line of `s` by four spaces.
fn indent(s: &str) -> (r: String)
    ensures
        r@ == indented(s@),
{
    let v = chars_of(s);
    let mut out: Vec<char> = Vec::new();
    out.push(' ');
    out.push(' ');
    out.push(' ');
    out.push(' ');
    let mut i: usize = 0;
    while i < v.len()
        invariant
            i <= v@.len(),
            v@ == s@,
            out@ == seq![' ', ' ', ' ', ' '] + indent_rest(v@.take(i as int)),
        decreases v@.len() - i,
    {
        let c = v[i];
        assert(v@.take(i + 1).drop_last() =~= v@.take(i as int));
        assert(v@.take(i + 1).last() == c);
        if c == '\n' {
            out.push('\n');
            out.push(' ');
            out.push(' ');
            out.push(' ');
            out.push(' ');
        } else {
            out.push(c);
        }
        assert(out@ =~= seq![' ', ' ', ' ', ' '] + indent_rest(v@.take(i + 1)));
        i = i + 1;
    }
    assert(v@.take(v@.len() as int) =~= v@);
    string_of(out.as_slice())
}

/// The text of the tool calls of a step: a single call as it is, several as
/// a bracketed list with one indented call per line.
pub open spec fn calls_text(calls: Seq<ToolCall>) -> Seq<char> {
    if calls.len() == 1 {
        call_text(calls[0])
    } else {
        seq!['[', '\n'] + joined_lines(calls.map_values(|c: ToolCall| indented(call_text(c))))
            + seq!['\n', ']']
    }
}

/// The text of the tool calls of a step (see [`calls_text`]).
fn calls_text_of(calls: &Vec<ToolCall>) -> (r: String)
    ensures
        r@ == calls_text(calls@),
{
    if calls.len() == 1 {
        return calls[0].to_string();
    }
    let ghost lines = calls@.map_values(|c: ToolCall| indented(call_text(c)));
    let mut out: Vec<char> = Vec::new();
    out.push('[');
    out.push('\n');
    let mut i: usize = 0;
    while i < calls.len()
        invariant
            i <= calls@.len(),
            lines == calls@.map_values(|c: ToolCall| indented(call_text(c))),
            out@ == seq!['[', '\n'] + joined_lines(lines.take(i as int)),
        decreases calls@.len() - i,
    {
        let ghost before = out@;
        assert(lines.take(i + 1).drop_last() =~= lines.take(i as int));
        let line = indent(calls[i].to_string().as_str());
        if i > 0 {
            out.push('\n');
        }
        crate::schemas::push_str(&mut out, line.as_str());
        if i == 0 {
            assert(out@ =~= seq!['[', '\n'] + joined_lines(lines.take(1)));
        } else {
            assert(out@ =~= seq!['[', '\n'] + joined_lines(lines.take(i + 1)));
        }
        i = i + 1;
    }
    assert(lines.take(lines.len() as int) =~= lines);
    out.push('\n');
    out.push(']');
    string_of(out.as_slice())
}

/// The text of the assistant message of a step: the thought (when kept) on
/// its own line, then the calls in a JSON code block.
pub open spec fn step_text(thought: Option<Seq<char>>, calls: Seq<ToolCall>) -> Seq<char> {
    let block = "```json\n"@ + calls_text(calls) + "\n```"@;
    match thought {
        Some(t) => t + seq!['\n'] + block,
        None => block,
    }
}

/// Constructs the assistant message of a step, with its tool calls written
/// out as text (see [`step_text`]).
pub fn tool_call_message(thought: Option<String>, tool_calls: Vec<ToolCall>) -> (r: RequestMessage)
    ensures
        r@ == (RequestMessageV::Assistant {
            content: Some(step_text(crate::llm::chat::response::opt_text(thought), tool_calls@)),
            tool_calls: None,
        }),
{
    proof {
        reveal_strlit("```json\n");
        reveal_strlit("\n```");
        reveal_strlit("\n");
    }
    let ghost tv = crate::llm::chat::response::opt_text(thought);
    let text = calls_text_of(&tool_calls);
    let mut content = match thought {
        Some(t) => {
            let mut c = t;
            c.append("\n");
            c
        },
        None => String::new(),
    };
    let ghost head = content@;
    assert(head =~= (match tv {
        Some(t) => t + seq!['\n'],
        None => Seq::<char>::empty(),
    }));
    content.append("```json\n");
    content.append(text.as_str());
    content.append("\n```");
    assert(content@ =~= head + ("```json\n"@ + calls_text(tool_calls@) + "\n```"@));
    assert(content@ =~= step_text(tv, tool_calls@));
    RequestMessage::Assistant { content: Some(content), tool_calls: None }
}

/// A copy of a system message.
fn clone_system(s: &SystemMessage) -> (r: SystemMessage)
    ensures
        r@ == s@,
{
    let content = match &s.content {
        MessageContent::Text(t) => MessageContent::Text(t.clone()),
        MessageContent::Array(parts) => MessageContent::Array(clone_strings(parts)),
    };
    SystemMessage { name: clone_opt_string(&s.name), content }
}

/// The history messages of a completed step: the assistant message with the
/// calls that have a result written out (and the thought, when kept), then
/// one user message per result with its text.
pub open spec fn generic_step_requests(
    thought: Option<Seq<char>>,
    calls: Seq<ToolCall>,
    results: Seq<ToolResultView>,
) -> Seq<RequestMessageV> {
    seq![RequestMessageV::Assistant { content: Some(step_text(thought, calls)), tool_calls: None }]
        + results.map_values(|r: ToolResultView| RequestMessageV::User(data_text(r.2)))
}

/// The state of a chat session with a model that writes its tool calls as
/// text: the system message with the tool-use instruction, the one without
/// it, the other messages, the buffered step, whether tools are withheld, and
/// the call options.
pub struct GenericChatSession {
    system: SystemMessage,
    system_without_tools: SystemMessage,
    messages: Vec<RequestMessage>,
    step_buffer: StepBuffer<ToolCall>,
    force_final_answer: bool,
    options: LLMOptions,
}

impl GenericChatSession {
    /// The system message with the tool-use instruction.
    pub closed spec fn system(&self) -> SystemMessageV {
        self.system@
    }

    /// The system message without the tool-use instruction.
    pub closed spec fn system_without_tools(&self) -> SystemMessageV {
        self.system_without_tools@
    }

    /// The messages after the system message.
    pub closed spec fn history(&self) -> Seq<RequestMessageV> {
        request_views(self.messages@)
    }

    /// The buffered step.
    pub closed spec fn step(&self) -> Option<BufferedStep<ToolCall>> {
        self.step_buffer.step()
    }

    /// Whether tools are withheld from requests.
    pub closed spec fn tools_withheld(&self) -> bool {
        self.force_final_answer
    }

    /// The call options.
    pub closed spec fn call_options(&self) -> LLMOptions {
        self.options
    }

    /// Starts a session: the system messages of the prompt make the system
    /// message, to which the tool-use instruction (given when tools are
    /// offered) is appended; the other messages make the history.
    pub fn new(prompt: Vec<Message>, tool_use_instruction: Option<String>, options: LLMOptions) -> (r:
        Self)
        ensures
            r.system_without_tools() == system_message_of(
                prompt_system_contents(message_views(prompt@)),
            ),
            r.system() == (match tool_use_instruction {
                Some(i) => system_appended(r.system_without_tools(), i@),
                None => r.system_without_tools(),
            }),
            r.history() == prompt_requests(message_views(prompt@)),
            r.step() is None,
            !r.tools_withheld(),
            r.call_options() == options,
    {
        let (contents, messages) = split_prompt(prompt);
        let system_without_tools = system_message(contents);
        let system = match tool_use_instruction {
            Some(instruction) => append_system(clone_system(&system_without_tools), instruction),
            None => clone_system(&system_without_tools),
        };
        GenericChatSession {
            system,
            system_without_tools,
            messages,
            step_buffer: StepBuffer::new(),
            force_final_answer: false,
            options,
        }
    }

    /// The call options of the session.
    pub fn options(&self) -> (r: &LLMOptions)
        ensures
            *r == self.call_options(),
    {
        &self.options
    }

    /// The messages of the next request: the system message without the
    /// tool-use instruction once tools are withheld, sent as an assistant
    /// message when the model's default options say so, then the history.
    pub fn build_request(&self, default_options: &LLMOptions) -> (r: ChatHistory<'_>)
        ensures
            r.role == (if default_options.system_is_assistant == Some(true) {
                SystemRole::Assistant
            } else {
                SystemRole::System
            }),
            r.system@ == (if self.tools_withheld() {
                self.system_without_tools()
            } else {
                self.system()
            }),
            request_views(r.messages@) == self.history(),
    {
        let system = if self.force_final_answer {
            &self.system_without_tools
        } else {
            &self.system
        };
        let as_assistant = match default_options.system_is_assistant {
            Some(b) => b,
            None => false,
        };
        if as_assistant {
            ChatHistory::as_assistant(system, self.messages.as_slice())
        } else {
            ChatHistory::new(system, self.messages.as_slice())
        }
    }

    /// Puts the messages of `memory` (as request messages) before the history.
    pub fn load_memory<M: Memory>(&mut self, memory: &M)
        ensures
            final(self).history() == memory.stored().map_values(
                |m: MessageView| request_message_of(m),
            ) + old(self).history(),
            final(self).system() == old(self).system(),
            final(self).system_without_tools() == old(self).system_without_tools(),
            final(self).step() == old(self).step(),
            final(self).tools_withheld() == old(self).tools_withheld(),
            final(self).call_options() == old(self).call_options(),
    {
        let mut converted = crate::llm::chat::openai_chat::request_messages(memory.messages());
        let ghost cv = request_views(converted@);
        let ghost hv = request_views(self.messages@);
        let mut rest = Vec::new();
        std::mem::swap(&mut rest, &mut self.messages);
        converted.append(&mut rest);
        self.messages = converted;
        assert(request_views(self.messages@) =~= cv + hv);
    }

    /// Moves the buffered step into the history: an assistant message with the
    /// calls that have a result written out (and the step's thought, when the
    /// model's default options keep thoughts), then one user message per
    /// result. Nothing changes when no step (or a step without calls) is
    /// buffered; an error is returned, and the history left alone, when no call
    /// has a result. The buffer is empty afterwards.
    pub fn flush_step_buffer(&mut self, default_options: &LLMOptions) -> (r: Result<(), ToolError>)
        ensures
            final(self).step() is None,
            final(self).system() == old(self).system(),
            final(self).system_without_tools() == old(self).system_without_tools(),
            final(self).tools_withheld() == old(self).tools_withheld(),
            final(self).call_options() == old(self).call_options(),
            match old(self).step() {
                Some(s) if s.calls@.len() > 0 => {
                    let kept = s.calls@.filter(|c: ToolCall| has_result(s.results_v(), c.call_id()));
                    let thought = if default_options.drop_thought == Some(false) {
                        crate::llm::chat::response::opt_text(s.thought)
                    } else {
                        None
                    };
                    if kept.len() == 0 {
                        r == Err::<(), ToolError>(ToolError::AllToolsFailed) && final(self).history()
                            == old(self).history()
                    } else {
                        r == Ok::<(), ToolError>(()) && final(self).history() == old(self).history()
                            + generic_step_requests(thought, kept, s.results_v())
                    }
                },
                _ => r == Ok::<(), ToolError>(()) && final(self).history() == old(self).history(),
            },
    {
        let step = match self.step_buffer.try_take() {
            Err(e) => {
                return Err(e);
            },
            Ok(None) => {
                return Ok(());
            },
            Ok(Some(step)) => step,
        };
        let BufferedStep { thought, calls, results } = step;
        let keep_thought = match default_options.drop_thought {
            Some(b) => !b,
            None => false,
        };
        let thought = if keep_thought {
            thought
        } else {
            None
        };
        let ghost tv = crate::llm::chat::response::opt_text(thought);
        let ghost rv = results_view(results@);
        let ghost kept = calls@;
        let ghost h0 = self.history();
        let ghost expected = generic_step_requests(tv, kept, rv);
        self.messages.push(tool_call_message(thought, calls));
        assert(self.history() =~= h0 + expected.take(1));
        let mut k: usize = 0;
        while k < results.len()
            invariant
                k <= results@.len(),
                rv == results_view(results@),
                expected == generic_step_requests(tv, kept, rv),
                self.history() == h0 + expected.take(k + 1),
                expected.len() == rv.len() + 1,
                self.step() is None,
                self.system() == old(self).system(),
                self.system_without_tools() == old(self).system_without_tools(),
                self.tools_withheld() == old(self).tools_withheld(),
                self.call_options() == old(self).call_options(),
            decreases results@.len() - k,
        {
            let entry: &ToolResult = &results[k];
            let text = entry.1.1.to_text();
            let ghost before = self.history();
            let m = user_message(text);
            assert(expected[k + 1] == m@);
            self.messages.push(m);
            assert(self.history() =~= before.push(m@));
            assert(expected.take(k + 2) =~= expected.take(k + 1).push(expected[k + 1]));
            k = k + 1;
        }
        assert(expected.take(rv.len() as int + 1) =~= expected);
        Ok(())
    }

    /// Records what the model produced, read into an output. Tool calls start a
    /// new step with the model's thought; the calls of tools named in
    /// `mcp_names` (served by MCP servers) are handed back to be run, each once,
    /// with their outcomes recorded through [`Self::record_tool_results`], and
    /// the output keeps the other calls, in order. Text is returned as it is.
    pub fn record_output(&mut self, output: LLMOutput, mcp_names: &Vec<String>) -> (r: (
        LLMOutput,
        Vec<ToolCall>,
    ))
        ensures
            final(self).history() == old(self).history(),
            final(self).system() == old(self).system(),
            final(self).system_without_tools() == old(self).system_without_tools(),
            final(self).tools_withheld() == old(self).tools_withheld(),
            final(self).call_options() == old(self).call_options(),
            output.event matches LLMEvent::ToolCall(calls) ==> {
                &&& final(self).step() matches Some(s) && s.thought == output.thought && s.calls@
                    == calls@ && s.results@.len() == 0
                &&& r.0.thought == output.thought
                &&& r.0.event matches LLMEvent::ToolCall(rest) && rest@ == calls@.filter(
                    |c: ToolCall| !named_in(mcp_names@, c.name@),
                )
                &&& r.1@ == calls@.filter(|c: ToolCall| named_in(mcp_names@, c.name@))
            },
            output.event is Text ==> final(self).step() == old(self).step() && r.0 == output
                && r.1@.len() == 0,
    {
        let LLMOutput { event, thought } = output;
        match event {
            LLMEvent::ToolCall(calls) => {
                self.step_buffer.init_step(clone_opt_string(&thought), clone_calls(&calls));
                let (mcp, rest) = partition_mcp_calls(calls, mcp_names);
                (LLMOutput { event: LLMEvent::ToolCall(rest), thought }, mcp)
            },
            LLMEvent::Text(t) => (LLMOutput { event: LLMEvent::Text(t), thought }, Vec::new()),
        }
    }

    /// Records the result of a tool call of the current step.
    pub fn add_tool_result(&mut self, id: &str, tool_name: &str, result: Result<ToolOutput, ToolError>)
        ensures
            final(self).history() == old(self).history(),
            final(self).system() == old(self).system(),
            final(self).system_without_tools() == old(self).system_without_tools(),
            final(self).tools_withheld() == old(self).tools_withheld(),
            final(self).call_options() == old(self).call_options(),
            result is Err ==> final(self).step() == old(self).step(),
            result matches Ok(output) ==> {
                let before = match old(self).step() {
                    Some(s) => s.results_v(),
                    None => Seq::empty(),
                };
                final(self).step() matches Some(s) && s.results_v() == results_with(
                    before,
                    id@,
                    tool_name@,
                    output.data,
                )
            },
    {
        self.step_buffer.push_result(id, tool_name, result);
    }

    /// Records the outcomes of tool calls of the current step, in order (the
    /// calls run on MCP servers, for instance): each result is buffered as by
    /// [`Self::add_tool_result`], and a failed one is left out.
    pub fn record_tool_results(&mut self, outcomes: Vec<ToolOutcome>)
        ensures
            buffered_results(final(self).step()) == results_after(
                buffered_results(old(self).step()),
                outcomes@,
            ),
            old(self).step() matches Some(s) ==> (final(self).step() matches Some(t) && t.thought
                == s.thought && t.calls@ == s.calls@),
            final(self).history() == old(self).history(),
            final(self).system() == old(self).system(),
            final(self).system_without_tools() == old(self).system_without_tools(),
            final(self).tools_withheld() == old(self).tools_withheld(),
            final(self).call_options() == old(self).call_options(),
    {
        let ghost outs = outcomes@;
        let ghost start = buffered_results(self.step());
        for outcome in it: outcomes
            invariant
                it.seq() == outs,
                buffered_results(self.step()) == results_after(start, outs.take(it.index() as int)),
                old(self).step() matches Some(s) ==> (self.step() matches Some(t) && t.thought
                    == s.thought && t.calls@ == s.calls@),
                self.history() == old(self).history(),
                self.system() == old(self).system(),
                self.system_without_tools() == old(self).system_without_tools(),
                self.tools_withheld() == old(self).tools_withheld(),
                self.call_options() == old(self).call_options(),
        {
            let ghost i = it.index() as int;
            proof {
                assert(outs.take(i + 1).drop_last() =~= outs.take(i));
                assert(outs.take(i + 1).last() == outcome);
            }
            let (id, name, result) = outcome;
            self.step_buffer.push_result(id.as_str(), name.as_str(), result);
        }
        proof {
            assert(outs.take(outs.len() as int) =~= outs);
        }
    }

    /// Forces the model to give its final answer: the history asks for it
    /// (see [`forced_requests`]), and from then on the system message without the tool-use instruction is sent.
    pub fn force_final_answer(&mut self)
        ensures
            final(self).history() == forced_requests(old(self).history()),
            final(self).system() == old(self).system(),
            final(self).system_without_tools() == old(self).system_without_tools(),
            final(self).step() == old(self).step(),
            final(self).tools_withheld(),
            final(self).call_options() == old(self).call_options(),
    {
        add_force_final_answer_message(&mut self.messages);
        self.force_final_answer = true;
    }
}

} // verus!
