//! The messages of a chat-completion request, and the helpers that build them.
use vstd::prelude::*;
use vstd::string::StringExecFns;
use crate::llm::chat::response::{
    calls_view, FunctionCall, FunctionCallV, MessageToolCall, MessageToolCallV, ToolType,
};
use crate::llm::default_session::FORCE_FINAL_ANSWER;
use crate::llm::step_buffer::CallId;
use crate::schemas::{Message, MessageView, Role, ToolCall, ToolData};

verus! {

/// The texts of `v` by value.
pub open spec fn texts_view(v: Seq<String>) -> Seq<Seq<char>> {
    v.map_values(|s: String| s@)
}

/// The content of a system or tool message: one text, or a list of text parts.
#[derive(Debug)]
pub enum MessageContent {
    Text(String),
    Array(Vec<String>),
}

/// A [`MessageContent`] by value.
pub enum MessageContentV {
    Text(Seq<char>),
    Array(Seq<Seq<char>>),
}

impl View for MessageContent {
    type V = MessageContentV;

    open spec fn view(&self) -> MessageContentV {
        match self {
            MessageContent::Text(t) => MessageContentV::Text(t@),
            MessageContent::Array(items) => MessageContentV::Array(texts_view(items@)),
        }
    }
}

/// A system message, with an optional name of its author.
#[derive(Debug)]
pub struct SystemMessage {
    pub name: Option<String>,
    pub content: MessageContent,
}

/// A [`SystemMessage`] by value.
pub struct SystemMessageV {
    pub name: Option<Seq<char>>,
    pub content: MessageContentV,
}

impl View for SystemMessage {
    type V = SystemMessageV;

    open spec fn view(&self) -> SystemMessageV {
        SystemMessageV {
            name: match self.name {
                Some(n) => Some(n@),
                None => None,
            },
            content: self.content@,
        }
    }
}

/// A message of a chat-completion request.
#[derive(Debug)]
pub enum RequestMessage {
    /// Instructions to the model.
    System(SystemMessage),
    /// A message of the user.
    User(String),
    /// A message of the model: its text, and the tool calls it requested.
    Assistant { content: Option<String>, tool_calls: Option<Vec<MessageToolCall>> },
    /// The result of the tool call `tool_call_id`.
    Tool { tool_call_id: String, content: MessageContent },
}

/// A [`RequestMessage`] by value.
pub enum RequestMessageV {
    System(SystemMessageV),
    User(Seq<char>),
    Assistant { content: Option<Seq<char>>, tool_calls: Option<Seq<MessageToolCallV>> },
    Tool { tool_call_id: Seq<char>, content: MessageContentV },
}

impl View for RequestMessage {
    type V = RequestMessageV;

    open spec fn view(&self) -> RequestMessageV {
        match self {
            RequestMessage::System(s) => RequestMessageV::System(s@),
            RequestMessage::User(t) => RequestMessageV::User(t@),
            RequestMessage::Assistant { content, tool_calls } => RequestMessageV::Assistant {
                content: match content {
                    Some(c) => Some(c@),
                    None => None,
                },
                tool_calls: match tool_calls {
                    Some(c) => Some(calls_view(c@)),
                    None => None,
                },
            },
            RequestMessage::Tool { tool_call_id, content } => RequestMessageV::Tool {
                tool_call_id: tool_call_id@,
                content: content@,
            },
        }
    }
}

/// The messages by value.
pub open spec fn request_views(ms: Seq<RequestMessage>) -> Seq<RequestMessageV> {
    ms.map_values(|m: RequestMessage| m@)
}

impl CallId for MessageToolCall {
    open spec fn call_id(&self) -> Seq<char> {
        self.id@
    }

    fn id(&self) -> (r: &str) {
        self.id.as_str()
    }
}

/// The request tool call standing for `call`: a function call with the same
/// id, name and arguments.
pub open spec fn request_call(call: ToolCall) -> MessageToolCallV {
    MessageToolCallV {
        id: call.id@,
        kind: ToolType::Function,
        function: FunctionCallV { name: call.name@, arguments: call.arguments@ },
    }
}

/// The request message standing for a conversation message: a system message
/// with its text, a user message for a human one, an assistant message with
/// its text and tool calls for an AI one, and a tool message (answering its
/// call id, or the empty id when it has none) for a tool one.
pub open spec fn request_message_of(m: MessageView) -> RequestMessageV {
    match m.role {
        Role::System => RequestMessageV::System(
            SystemMessageV { name: None, content: MessageContentV::Text(m.content) },
        ),
        Role::Human => RequestMessageV::User(m.content),
        Role::Ai => RequestMessageV::Assistant {
            content: Some(m.content),
            tool_calls: match m.tool_calls {
                Some(cs) => Some(cs.map_values(|c: ToolCall| request_call(c))),
                None => None,
            },
        },
        Role::Tool => RequestMessageV::Tool {
            tool_call_id: match m.id {
                Some(id) => id,
                None => Seq::empty(),
            },
            content: MessageContentV::Text(m.content),
        },
    }
}

/// The request tool call standing for `call` (see [`request_call`]).
pub fn to_request_call(call: &ToolCall) -> (r: MessageToolCall)
    ensures
        r@ == request_call(*call),
{
    MessageToolCall {
        id: call.id.clone(),
        kind: ToolType::Function,
        function: FunctionCall { name: call.name.clone(), arguments: call.arguments.clone() },
    }
}

/// The request message standing for `message` (see [`request_message_of`]).
pub fn request_message(message: Message) -> (r: RequestMessage)
    ensures
        r@ == request_message_of(message@),
{
    let Message { role, content, tool_calls, id } = message;
    match role {
        Role::System => RequestMessage::System(
            SystemMessage { name: None, content: MessageContent::Text(content) },
        ),
        Role::Human => RequestMessage::User(content),
        Role::Ai => {
            let calls = match tool_calls {
                Some(cs) => {
                    let mut out: Vec<MessageToolCall> = Vec::new();
                    let mut i: usize = 0;
                    while i < cs.len()
                        invariant
                            i <= cs@.len(),
                            calls_view(out@) == cs@.take(i as int).map_values(
                                |c: ToolCall| request_call(c),
                            ),
                        decreases cs@.len() - i,
                    {
                        let c = to_request_call(&cs[i]);
                        let ghost before = out@;
                        out.push(c);
                        assert(calls_view(out@) =~= calls_view(before).push(c@));
                        assert(cs@.take(i + 1).map_values(|c: ToolCall| request_call(c))
                            =~= cs@.take(i as int).map_values(|c: ToolCall| request_call(c)).push(
                            request_call(cs@[i as int]),
                        ));
                        i = i + 1;
                    }
                    assert(cs@.take(cs@.len() as int) =~= cs@);
                    Some(out)
                },
                None => None,
            };
            RequestMessage::Assistant { content: Some(content), tool_calls: calls }
        },
        Role::Tool => RequestMessage::Tool {
            tool_call_id: match id {
                Some(i) => i,
                None => String::new(),
            },
            content: MessageContent::Text(content),
        },
    }
}

/// The system message made of `contents`: their only element as its text, or
/// all of them (none, or more than one) as its parts.
pub open spec fn system_message_of(contents: Seq<Seq<char>>) -> SystemMessageV {
    SystemMessageV {
        name: None,
        content: if contents.len() == 1 {
            MessageContentV::Text(contents[0])
        } else {
            MessageContentV::Array(contents)
        },
    }
}

/// Constructs a system message from its contents (see [`system_message_of`]).
pub fn system_message(contents: Vec<String>) -> (r: SystemMessage)
    ensures
        r@ == system_message_of(texts_view(contents@)),
{
    let content = if contents.len() == 1 {
        let mut contents = contents;
        let c = contents.remove(0);
        MessageContent::Text(c)
    } else {
        MessageContent::Array(contents)
    };
    SystemMessage { name: None, content }
}

/// Constructs a user message with the given text.
pub fn user_message(content: String) -> (r: RequestMessage)
    ensures
        r@ == RequestMessageV::User(content@),
{
    RequestMessage::User(content)
}

/// Constructs an assistant message with the given text and no tool call.
pub fn assistant_message(content: String) -> (r: RequestMessage)
    ensures
        r@ == (RequestMessageV::Assistant { content: Some(content@), tool_calls: None }),
{
    RequestMessage::Assistant { content: Some(content), tool_calls: None }
}

/// The content of a tool message holding `data`: its text, or its parts.
pub open spec fn tool_content(data: ToolData) -> MessageContentV {
    match data {
        ToolData::Text(t) => MessageContentV::Text(t@),
        ToolData::List(items) => MessageContentV::Array(texts_view(items@)),
    }
}

/// Constructs the tool message answering the call `id` with `data`.
pub fn tool_message(id: &str, data: ToolData) -> (r: RequestMessage)
    ensures
        r@ == (RequestMessageV::Tool { tool_call_id: id@, content: tool_content(data) }),
{
    let content = match data {
        ToolData::Text(t) => MessageContent::Text(t),
        ToolData::List(items) => MessageContent::Array(items),
    };
    RequestMessage::Tool { tool_call_id: id.to_owned(), content }
}

/// The system message `s` with `extra` appended: after a line break for a
/// text, as a new last part for a list of parts.
pub open spec fn system_appended(s: SystemMessageV, extra: Seq<char>) -> SystemMessageV {
    SystemMessageV {
        name: s.name,
        content: match s.content {
            MessageContentV::Text(t) => MessageContentV::Text(t + seq!['\n'] + extra),
            MessageContentV::Array(items) => MessageContentV::Array(items.push(extra)),
        },
    }
}

/// Appends additional content to a system message (see [`system_appended`]).
pub fn append_system(system: SystemMessage, content: String) -> (r: SystemMessage)
    ensures
        r@ == system_appended(system@, content@),
{
    let SystemMessage { name, content: current } = system;
    let updated = match current {
        MessageContent::Text(mut text) => {
            let ghost t0 = text@;
            proof {
                reveal_strlit("\n");
            }
            text.append("\n");
            text.append(content.as_str());
            assert(text@ =~= t0 + seq!['\n'] + content@);
            MessageContent::Text(text)
        },
        MessageContent::Array(mut items) => {
            let ghost before = items@;
            items.push(content);
            assert(texts_view(items@) =~= texts_view(before).push(content@));
            MessageContent::Array(items)
        },
    };
    SystemMessage { name, content: updated }
}

/// Constructs the assistant message of a step: the model's thought as its
/// text, and the tool calls it requested.
pub fn tool_call_message(thought: Option<String>, tool_calls: Vec<MessageToolCall>) -> (r:
    RequestMessage)
    ensures
        r@ == (RequestMessageV::Assistant {
            content: match thought {
                Some(t) => Some(t@),
                None => None,
            },
            tool_calls: Some(calls_view(tool_calls@)),
        }),
{
    RequestMessage::Assistant { content: thought, tool_calls: Some(tool_calls) }
}

/// The messages once the final answer is forced: a last assistant message with
/// tool calls loses them and its text becomes empty (an empty assistant message
/// is added when the messages do not end with one), then the request for the
/// final answer is added as a user message.
pub open spec fn forced_requests(h: Seq<RequestMessageV>) -> Seq<RequestMessageV> {
    let closed = if h.len() > 0 && h.last() is Assistant {
        if h.last()->Assistant_tool_calls is Some {
            h.update(
                h.len() - 1,
                RequestMessageV::Assistant { content: Some(Seq::empty()), tool_calls: None },
            )
        } else {
            h
        }
    } else {
        h.push(RequestMessageV::Assistant { content: Some(Seq::empty()), tool_calls: None })
    };
    closed.push(RequestMessageV::User(FORCE_FINAL_ANSWER@))
}

/// Adds the request for the final answer to `messages` (see
/// [`forced_requests`]).
pub fn add_force_final_answer_message(messages: &mut Vec<RequestMessage>)
    ensures
        request_views(final(messages)@) == forced_requests(request_views(old(messages)@)),
{
    let ghost h = request_views(messages@);
    let n = messages.len();
    let last_is_assistant = n > 0 && matches!(messages[n - 1], RequestMessage::Assistant { .. });
    if last_is_assistant {
        let has_calls = match &messages[n - 1] {
            RequestMessage::Assistant { tool_calls, .. } => tool_calls.is_some(),
            _ => false,
        };
        if has_calls {
            messages.set(
                n - 1,
                RequestMessage::Assistant { content: Some(String::new()), tool_calls: None },
            );
            assert(request_views(messages@) =~= h.update(
                h.len() - 1,
                RequestMessageV::Assistant { content: Some(Seq::empty()), tool_calls: None },
            ));
        }
    } else {
        messages.push(assistant_message(String::new()));
        assert(request_views(messages@) =~= h.push(
            RequestMessageV::Assistant { content: Some(Seq::empty()), tool_calls: None },
        ));
    }
    let ghost closed = request_views(messages@);
    messages.push(user_message(FORCE_FINAL_ANSWER.to_owned()));
    assert(request_views(messages@) =~= closed.push(RequestMessageV::User(FORCE_FINAL_ANSWER@)));
}

/// Forcing the final answer always ends the messages with the request for it,
/// preceded by an assistant message without tool calls.
pub proof fn lemma_forced_requests_end_with_request(h: Seq<RequestMessageV>)
    ensures
        forced_requests(h).len() >= 2,
        forced_requests(h).last() == RequestMessageV::User(FORCE_FINAL_ANSWER@),
        forced_requests(h)[forced_requests(h).len() - 2] is Assistant,
        forced_requests(h)[forced_requests(h).len() - 2]->Assistant_tool_calls is None,
        forall|i: int| 0 <= i < h.len() - 1 ==> #[trigger] forced_requests(h)[i] == h[i],
{
}

} // verus!
