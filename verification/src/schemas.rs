//! The message and tool-call types exchanged with models and memories.
use vstd::prelude::*;
use vstd::string::StringExecFns;

verus! {

/// The author of a message.
#[derive(PartialEq, Eq, Structural, Clone, Copy, Debug)]
pub enum Role {
    System,
    Ai,
    Human,
    Tool,
}

/// The name of a role as it appears in a rendered conversation.
pub open spec fn role_name(role: Role) -> Seq<char> {
    match role {
        Role::System => seq!['s', 'y', 's', 't', 'e', 'm'],
        Role::Ai => seq!['a', 'i'],
        Role::Human => seq!['h', 'u', 'm', 'a', 'n'],
        Role::Tool => seq!['t', 'o', 'o', 'l'],
    }
}

/// A call of a tool requested by a model.
#[derive(Debug)]
pub struct ToolCall {
    /// The identifier of the call, which its result refers to.
    pub id: String,
    /// The name of the tool to call.
    pub name: String,
    /// The arguments, as JSON text.
    pub arguments: String,
}

impl Clone for ToolCall {
    fn clone(&self) -> (r: Self)
        ensures
            r == *self,
    {
        ToolCall { id: self.id.clone(), name: self.name.clone(), arguments: self.arguments.clone() }
    }
}

impl ToolCall {
    /// Constructs a new [`ToolCall`].
    pub fn new(id: String, name: String, arguments: String) -> (r: Self)
        ensures
            r.id == id,
            r.name == name,
            r.arguments == arguments,
    {
        ToolCall { id, name, arguments }
    }

    /// The call as the JSON object that tool-use instructions ask a model to
    /// write: `{"name": "<name>", "arguments": <arguments>}`.
    pub fn to_string(&self) -> (r: String)
        ensures
            r@ == call_text(*self),
    {
        proof {
            reveal_strlit("{\"name\": \"");
            reveal_strlit("\", \"arguments\": ");
            reveal_strlit("}");
        }
        let mut out = String::from_str("{\"name\": \"");
        out.append(self.name.as_str());
        out.append("\", \"arguments\": ");
        out.append(self.arguments.as_str());
        out.append("}");
        out
    }
}

/// The text of a tool call (see [`ToolCall::to_string`]).
pub open spec fn call_text(c: ToolCall) -> Seq<char> {
    "{\"name\": \""@ + c.name@ + "\", \"arguments\": "@ + c.arguments@ + "}"@
}

/// A copy of `calls` equal to it.
pub fn clone_calls(calls: &Vec<ToolCall>) -> (r: Vec<ToolCall>)
    ensures
        r@ == calls@,
{
    let mut r: Vec<ToolCall> = Vec::new();
    let mut i: usize = 0;
    while i < calls.len()
        invariant
            i <= calls@.len(),
            r@ == calls@.take(i as int),
        decreases calls@.len() - i,
    {
        r.push(calls[i].clone());
        assert(r@ =~= calls@.take(i + 1));
        i = i + 1;
    }
    assert(calls@.take(calls@.len() as int) =~= calls@);
    r
}

/// A copy of `s` equal to it.
pub fn clone_opt_string(s: &Option<String>) -> (r: Option<String>)
    ensures
        r == *s,
{
    match s {
        Some(x) => Some(x.clone()),
        None => None,
    }
}

/// A message of a conversation.
#[derive(Debug)]
pub struct Message {
    /// Who wrote the message.
    pub role: Role,
    /// The text of the message.
    pub content: String,
    /// The tool calls the message requests, for an AI message.
    pub tool_calls: Option<Vec<ToolCall>>,
    /// The identifier of the tool call that a tool message answers.
    pub id: Option<String>,
}

/// The value of a message: its fields with texts as character sequences.
pub struct MessageView {
    pub role: Role,
    pub content: Seq<char>,
    pub tool_calls: Option<Seq<ToolCall>>,
    pub id: Option<Seq<char>>,
}

impl View for Message {
    type V = MessageView;

    open spec fn view(&self) -> MessageView {
        MessageView {
            role: self.role,
            content: self.content@,
            tool_calls: match self.tool_calls {
                Some(c) => Some(c@),
                None => None,
            },
            id: match self.id {
                Some(i) => Some(i@),
                None => None,
            },
        }
    }
}

/// The values of `messages`.
pub open spec fn message_views(messages: Seq<Message>) -> Seq<MessageView> {
    messages.map_values(|m: Message| m@)
}

impl Clone for Message {
    fn clone(&self) -> (r: Self)
        ensures
            r@ == self@,
    {
        let tool_calls = match &self.tool_calls {
            Some(calls) => Some(clone_calls(calls)),
            None => None,
        };
        Message {
            role: self.role,
            content: self.content.clone(),
            tool_calls,
            id: clone_opt_string(&self.id),
        }
    }
}

impl Message {
    /// A message of `role` with `content` and nothing else.
    pub fn new(role: Role, content: String) -> (r: Self)
        ensures
            r == (Message { role, content, tool_calls: None, id: None }),
    {
        Message { role, content, tool_calls: None, id: None }
    }

    /// A system message.
    pub fn new_system_message(content: String) -> (r: Self)
        ensures
            r == (Message { role: Role::System, content, tool_calls: None, id: None }),
    {
        Message::new(Role::System, content)
    }

    /// A message from the user.
    pub fn new_human_message(content: String) -> (r: Self)
        ensures
            r == (Message { role: Role::Human, content, tool_calls: None, id: None }),
    {
        Message::new(Role::Human, content)
    }

    /// A message from the model.
    pub fn new_ai_message(content: String) -> (r: Self)
        ensures
            r == (Message { role: Role::Ai, content, tool_calls: None, id: None }),
    {
        Message::new(Role::Ai, content)
    }

    /// A message from the model that requests tool calls, with the model's
    /// thought (if any) as its text.
    pub fn new_tool_call_message(thought: Option<String>, tool_calls: Vec<ToolCall>) -> (r: Self)
        ensures
            r.role == Role::Ai,
            r.content@ == (match thought {
                Some(t) => t@,
                None => Seq::<char>::empty(),
            }),
            r.tool_calls == Some(tool_calls),
            r.id == None::<String>,
    {
        let content = match thought {
            Some(t) => t,
            None => String::new(),
        };
        Message { role: Role::Ai, content, tool_calls: Some(tool_calls), id: None }
    }

    /// The result of the tool call `id`.
    pub fn new_tool_message(id: Option<String>, content: String) -> (r: Self)
        ensures
            r == (Message { role: Role::Tool, content, tool_calls: None, id }),
    {
        Message { role: Role::Tool, content, tool_calls: None, id }
    }
}

/// The rendering of a message in a conversation transcript: `role: content`.
pub open spec fn rendered_message(m: MessageView) -> Seq<char> {
    role_name(m.role) + seq![':', ' '] + m.content
}

/// The lines of `lines` joined with newlines.
pub open spec fn joined_lines(lines: Seq<Seq<char>>) -> Seq<char>
    decreases lines.len(),
{
    if lines.len() == 0 {
        Seq::empty()
    } else if lines.len() == 1 {
        lines[0]
    } else {
        joined_lines(lines.drop_last()) + seq!['\n'] + lines.last()
    }
}

/// The transcript of a conversation: one rendered message per line.
pub open spec fn transcript(messages: Seq<MessageView>) -> Seq<char> {
    joined_lines(messages.map_values(|m: MessageView| rendered_message(m)))
}

/// Appends the name of `role` to `out`.
fn push_role_name(out: &mut Vec<char>, role: Role)
    ensures
        final(out)@ == old(out)@ + role_name(role),
{
    match role {
        Role::System => {
            out.push('s');
            out.push('y');
            out.push('s');
            out.push('t');
            out.push('e');
            out.push('m');
        },
        Role::Ai => {
            out.push('a');
            out.push('i');
        },
        Role::Human => {
            out.push('h');
            out.push('u');
            out.push('m');
            out.push('a');
            out.push('n');
        },
        Role::Tool => {
            out.push('t');
            out.push('o');
            out.push('o');
            out.push('l');
        },
    }
    assert(final(out)@ =~= old(out)@ + role_name(role));
}

/// Appends the characters of `s` to `out`.
pub fn push_str(out: &mut Vec<char>, s: &str)
    ensures
        final(out)@ == old(out)@ + s@,
{
    let v = crate::text::chars_of(s);
    let mut i: usize = 0;
    while i < v.len()
        invariant
            i <= v@.len(),
            v@ == s@,
            out@ == old(out)@ + v@.take(i as int),
        decreases v@.len() - i,
    {
        out.push(v[i]);
        assert(out@ =~= old(out)@ + v@.take(i + 1));
        i = i + 1;
    }
    assert(v@.take(v@.len() as int) =~= v@);
}

/// The transcript of `messages`: each message as `role: content`, one per line.
pub fn render_transcript(messages: &Vec<Message>) -> (r: String)
    ensures
        r@ == transcript(message_views(messages@)),
{
    let mut out: Vec<char> = Vec::new();
    let mut i: usize = 0;
    while i < messages.len()
        invariant
            i <= messages@.len(),
            out@ == transcript(message_views(messages@.take(i as int))),
        decreases messages@.len() - i,
    {
        let ghost before = out@;
        let ghost lines = message_views(messages@.take(i + 1)).map_values(
            |m: MessageView| rendered_message(m),
        );
        assert(lines.drop_last() =~= message_views(messages@.take(i as int)).map_values(
            |m: MessageView| rendered_message(m),
        ));
        if i > 0 {
            out.push('\n');
        }
        push_role_name(&mut out, messages[i].role);
        out.push(':');
        out.push(' ');
        push_str(&mut out, messages[i].content.as_str());
        assert(lines.last() == rendered_message(messages@[i as int]@));
        if i == 0 {
            assert(out@ =~= lines[0]);
        } else {
            assert(out@ =~= before + seq!['\n'] + lines.last());
        }
        i = i + 1;
    }
    assert(messages@.take(messages@.len() as int) =~= messages@);
    crate::text::string_of(out.as_slice())
}

/// The data a tool returned.
#[derive(Debug)]
pub enum ToolData {
    /// A single text.
    Text(String),
    /// Several texts.
    List(Vec<String>),
}

/// A copy of `items` equal to it.
pub fn clone_strings(items: &Vec<String>) -> (r: Vec<String>)
    ensures
        r@ == items@,
{
    let mut r: Vec<String> = Vec::new();
    let mut i: usize = 0;
    while i < items.len()
        invariant
            i <= items@.len(),
            r@ == items@.take(i as int),
        decreases items@.len() - i,
    {
        r.push(items[i].clone());
        assert(r@ =~= items@.take(i + 1));
        i = i + 1;
    }
    assert(items@.take(items@.len() as int) =~= items@);
    r
}

/// Whether `a` and `b` hold the same texts.
pub open spec fn same_data(a: ToolData, b: ToolData) -> bool {
    match (a, b) {
        (ToolData::Text(x), ToolData::Text(y)) => x == y,
        (ToolData::List(x), ToolData::List(y)) => x@ == y@,
        _ => false,
    }
}

impl Clone for ToolData {
    fn clone(&self) -> (r: Self)
        ensures
            same_data(r, *self),
    {
        match self {
            ToolData::Text(t) => ToolData::Text(t.clone()),
            ToolData::List(items) => ToolData::List(clone_strings(items)),
        }
    }
}

/// The text of tool data: the text itself, or the texts one per line.
pub open spec fn data_text(d: ToolData) -> Seq<char> {
    match d {
        ToolData::Text(t) => t@,
        ToolData::List(items) => joined_lines(items@.map_values(|s: String| s@)),
    }
}

impl ToolData {
    /// The text of the data: the text itself, or the texts one per line.
    pub fn to_text(&self) -> (r: String)
        ensures
            r@ == data_text(*self),
    {
        match self {
            ToolData::Text(t) => t.clone(),
            ToolData::List(items) => {
                let mut out: Vec<char> = Vec::new();
                let mut i: usize = 0;
                while i < items.len()
                    invariant
                        i <= items@.len(),
                        out@ == joined_lines(items@.take(i as int).map_values(|s: String| s@)),
                    decreases items@.len() - i,
                {
                    let ghost before = out@;
                    let ghost lines = items@.take(i + 1).map_values(|s: String| s@);
                    assert(lines.drop_last() =~= items@.take(i as int).map_values(|s: String| s@));
                    if i > 0 {
                        out.push('\n');
                    }
                    push_str(&mut out, items[i].as_str());
                    if i == 0 {
                        assert(out@ =~= lines[0]);
                    } else {
                        assert(out@ =~= before + seq!['\n'] + lines.last());
                    }
                    i = i + 1;
                }
                assert(items@.take(items@.len() as int) =~= items@);
                crate::text::string_of(out.as_slice())
            },
        }
    }
}

/// What a model produced: text, or calls of tools.
#[derive(Debug)]
pub enum LLMEvent {
    Text(String),
    ToolCall(Vec<ToolCall>),
}

/// The parsed output of a model: the event and the model's thought, if any.
#[derive(Debug)]
pub struct LLMOutput {
    pub event: LLMEvent,
    pub thought: Option<String>,
}

/// The output of a successful tool call.
#[derive(Debug)]
pub struct ToolOutput {
    /// What the tool returned.
    pub data: ToolData,
}

/// Why a tool call, or a step of tool calls, failed.
#[derive(Debug, PartialEq, Eq, Structural)]
pub enum ToolError {
    /// Every tool call of a step failed.
    AllToolsFailed,
    /// The tool does not exist.
    ToolNotFound,
    /// The tool failed with the given reason.
    Failed,
}


/// How much a reasoning model may reason.
#[derive(PartialEq, Eq, Structural, Clone, Copy, Debug)]
pub enum ReasoningEffort {
    Low,
    Medium,
    High,
}

/// Which tool, if any, the model must call.
#[derive(Debug, Clone)]
pub enum ToolChoice {
    /// The model calls no tool.
    Disabled,
    /// The model decides.
    Auto,
    /// The model calls some tool.
    Required,
    /// The model calls the function of that name.
    Function(String),
}

/// The format the model must give its output in.
#[derive(Debug, Clone)]
pub enum ResponseFormat {
    /// Plain text.
    Text,
    /// Any JSON object.
    JsonObject,
    /// JSON conforming to a schema.
    JsonSchema {
        name: String,
        description: Option<String>,
        schema: Option<serde_json::Value>,
        strict: Option<bool>,
    },
}

} // verus!
