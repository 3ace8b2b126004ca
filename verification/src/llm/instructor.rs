//! Instructors: how a model that writes its tool calls as text is told about
//! the tools, and how its reply is read back into an event.
//!
//! A reply is read in stages: the text that should hold the JSON object is
//! cut out of it ([`DefaultInstructor::reply_json_text`],
//! [`Qwen3Instructor::tool_call_text`]); the JSON is read into an
//! [`OutputHelp`], which the caller does with `serde`; and the event is made
//! of it ([`event_of_output`]). When the JSON cannot be read, the default
//! instructor falls back to regular expressions
//! ([`DefaultInstructor::parse_with_regex`]).
use vstd::prelude::*;
use crate::output_parser::parse_helper::extract_text::{
    json_extracted, json_start, json_end, matches_at, region_between, region_ok, remove_thought,
    tag_pattern, thought_removed, try_extract_from_codeblock, try_extract_from_tag,
    try_extract_json, CODEBLOCK_CLOSE, CODEBLOCK_OPEN,
};
use crate::output_parser::parse_helper::fix::{escapes_fixed, fix_text, push_range};
use crate::output_parser::parse_helper::flatten_final_answer::{
    flatten_final_answer, json_pretty, to_serde_value, unwrapped, JsonValue,
};
use crate::pattern::{first_captures, groups_view, regex_first_captures};
use crate::schemas::{LLMEvent, ToolCall};
use crate::text::{chars_of, string_of};

verus! {

// ---------------------------------------------------------------------------
// Text helpers
// ---------------------------------------------------------------------------

/// `parts` joined with `sep` between each two of them.
pub open spec fn joined(parts: Seq<Seq<char>>, sep: Seq<char>) -> Seq<char>
    decreases parts.len(),
{
    if parts.len() == 0 {
        Seq::empty()
    } else if parts.len() == 1 {
        parts[0]
    } else {
        joined(parts.drop_last(), sep) + sep + parts.last()
    }
}

/// The texts of `parts`.
pub open spec fn texts(parts: Seq<String>) -> Seq<Seq<char>> {
    parts.map_values(|p: String| p@)
}

/// `parts` joined with `sep` between each two of them.
pub fn join(parts: &Vec<String>, sep: &str) -> (r: String)
    ensures
        r@ == joined(texts(parts@), sep@),
{
    let sv = chars_of(sep);
    let ghost ps = texts(parts@);
    let mut out: Vec<char> = Vec::new();
    let mut i: usize = 0;
    while i < parts.len()
        invariant
            i <= parts@.len(),
            sv@ == sep@,
            ps == texts(parts@),
            out@ == joined(ps.take(i as int), sep@),
        decreases parts@.len() - i,
    {
        proof {
            assert(ps.take(i + 1).drop_last() =~= ps.take(i as int));
        }
        if i > 0 {
            push_range(&mut out, sv.as_slice(), 0, sv.len());
            assert(sv@.subrange(0, sv@.len() as int) =~= sv@);
        }
        let pv = chars_of(parts[i].as_str());
        push_range(&mut out, pv.as_slice(), 0, pv.len());
        proof {
            assert(pv@.subrange(0, pv@.len() as int) =~= pv@);
            assert(ps.take(i + 1).last() == pv@);
            if i == 0 {
                assert(out@ =~= ps.take(1)[0]);
            }
        }
        i = i + 1;
    }
    assert(ps.take(parts@.len() as int) =~= ps);
    string_of(out.as_slice())
}

/// `s` with each occurrence of `p`, from left to right and not overlapping,
/// replaced by `w`.
pub open spec fn replaced(s: Seq<char>, p: Seq<char>, w: Seq<char>) -> Seq<char>
    decreases s.len(),
{
    if s.len() == 0 || p.len() == 0 {
        s
    } else if p.len() <= s.len() && s.take(p.len() as int) == p {
        w + replaced(s.skip(p.len() as int), p, w)
    } else {
        seq![s[0]] + replaced(s.skip(1), p, w)
    }
}

/// `s` with each occurrence of `p` replaced by `w`, as `str::replace` does.
fn replace_all(s: &str, p: &str, w: &str) -> (r: String)
    requires
        p@.len() > 0,
    ensures
        r@ == replaced(s@, p@, w@),
{
    let v = chars_of(s);
    let pv = chars_of(p);
    let wv = chars_of(w);
    let n = v.len();
    let m = pv.len();
    let mut out: Vec<char> = Vec::new();
    let mut i: usize = 0;
    assert(v@.skip(0) =~= v@);
    while i < n
        invariant
            n == v@.len(),
            m == pv@.len(),
            i <= n,
            v@ == s@,
            pv@ == p@,
            wv@ == w@,
            m > 0,
            out@ + replaced(v@.skip(i as int), p@, w@) == replaced(s@, p@, w@),
        decreases n - i,
    {
        let ghost rest = v@.skip(i as int);
        let ghost before = out@;
        if m <= n - i && matches_at(v.as_slice(), pv.as_slice(), i) {
            proof {
                assert(rest.take(m as int) =~= v@.subrange(i as int, i + m));
                assert(rest.skip(m as int) =~= v@.skip(i + m));
            }
            push_range(&mut out, wv.as_slice(), 0, wv.len());
            proof {
                assert(wv@.subrange(0, wv@.len() as int) =~= wv@);
                assert(before + (w@ + replaced(rest.skip(m as int), p@, w@)) =~= out@ + replaced(
                    rest.skip(m as int),
                    p@,
                    w@,
                ));
            }
            i = i + m;
        } else {
            proof {
                assert(rest[0] == v@[i as int]);
                assert(rest.skip(1) =~= v@.skip(i + 1));
                if m <= n - i {
                    assert(rest.take(m as int) =~= v@.subrange(i as int, i + m));
                }
            }
            out.push(v[i]);
            proof {
                assert(before + (seq![rest[0]] + replaced(rest.skip(1), p@, w@)) =~= out@
                    + replaced(rest.skip(1), p@, w@));
            }
            i = i + 1;
        }
    }
    assert(out@ + replaced(v@.skip(n as int), p@, w@) =~= out@);
    string_of(out.as_slice())
}

// ---------------------------------------------------------------------------
// Tool-use instructions
// ---------------------------------------------------------------------------

/// What an instructor reads of a tool: its name as a model should write it,
/// its description, and its JSON form.
#[derive(Debug, Clone)]
pub struct ToolDescription {
    /// The tool's name, made fit for a model to write.
    pub name: String,
    /// The tool described in prose.
    pub description: String,
    /// The tool's specification as JSON text.
    pub json: String,
}

/// The names of `tools`.
pub open spec fn tool_names(tools: Seq<ToolDescription>) -> Seq<Seq<char>> {
    tools.map_values(|t: ToolDescription| t.name@)
}

/// The descriptions of `tools`.
pub open spec fn tool_descriptions(tools: Seq<ToolDescription>) -> Seq<Seq<char>> {
    tools.map_values(|t: ToolDescription| t.description@)
}

/// The JSON forms of `tools`.
pub open spec fn tool_jsons(tools: Seq<ToolDescription>) -> Seq<Seq<char>> {
    tools.map_values(|t: ToolDescription| t.json@)
}

/// Tells a model which tools it has and how to call them.
pub trait Instructor {
    /// The instruction for `tools`.
    spec fn instruction(&self, tools: Seq<ToolDescription>) -> Seq<char>;

    /// The instruction that tells a model how to use `tools`.
    fn tool_use_instruction(&self, tools: &Vec<ToolDescription>) -> (r: String)
        ensures
            r@ == self.instruction(tools@),
    ;
}

/// The placeholder for the tools' descriptions in an instruction template.
pub const TOOLS_PLACEHOLDER: &'static str = "{{?tools}}";

/// The placeholder for the tools' names in an instruction template.
pub const TOOL_NAMES_PLACEHOLDER: &'static str = "{{?tool_names}}";

/// The instruction template of the default instructor.
pub const DEFAULT_TOOL_PROMPT: &'static str = r#"<TOOL_INTEGRATION>
- You have access to a set of tools to help you answer questions.
- You can either use a tool or provide your final answer.
- You may use the tools iteratively as many times as needed.
</TOOL_INTEGRATION>

<TOOL_INSTRUCTIONS>
Available tools are described below:
{{?tools}}

To use a tool, return a JSON object with the following structure:
  - "name": The name of the tool to use (must be one of: [{{?tool_names}}])
  - "arguments": The arguments to pass to the tool (must conform to the tool's schema)

Format:
```json
{
    "name": (string),
    "arguments": (JSON-serializable value)
}
```
</TOOL_INSTRUCTIONS>"#;

/// The instruction template of the instructor for Qwen3 models.
pub const QWEN3_TOOL_PROMPT: &'static str = r#"

# Tools

You may call one or more functions to assist with the user query.

You are provided with function signatures within <tools></tools> XML tags:
<tools>
{{?tools}}
</tools>

For each function call, return a json object with function name and arguments within <tool_call></tool-call> XML tags:
<tool_call>
{"name": <function-name>, "arguments": <args-json-object>}
</tool_call>"#;

/// The default instructor: tools are listed by description and by name, and
/// the model answers with a JSON object naming the tool and its arguments.
pub struct DefaultInstructor;

/// The instructor for Qwen3 models, following their chat template: tools are
/// listed by their JSON form, and calls come inside `<tool_call>` tags.
pub struct Qwen3Instructor;

/// The default instruction: the template with the tools' names, joined by
/// commas, in place of the names placeholder, then the tools' descriptions,
/// one per line, in place of the tools placeholder.
pub open spec fn default_instruction(tools: Seq<ToolDescription>) -> Seq<char> {
    replaced(
        replaced(DEFAULT_TOOL_PROMPT@, TOOL_NAMES_PLACEHOLDER@, joined(tool_names(tools), ", "@)),
        TOOLS_PLACEHOLDER@,
        joined(tool_descriptions(tools), "\n"@),
    )
}

/// The Qwen3 instruction: the template with the tools' JSON forms, one per
/// line, in place of the tools placeholder.
pub open spec fn qwen3_instruction(tools: Seq<ToolDescription>) -> Seq<char> {
    replaced(QWEN3_TOOL_PROMPT@, TOOLS_PLACEHOLDER@, joined(tool_jsons(tools), "\n"@))
}

/// The names of `tools`, in order.
fn names_of(tools: &Vec<ToolDescription>) -> (r: Vec<String>)
    ensures
        texts(r@) == tool_names(tools@),
{
    let mut r: Vec<String> = Vec::new();
    let mut i: usize = 0;
    while i < tools.len()
        invariant
            i <= tools@.len(),
            texts(r@) == tool_names(tools@.take(i as int)),
        decreases tools@.len() - i,
    {
        let x = tools[i].name.clone();
        let ghost before = r@;
        r.push(x);
        proof {
            assert(texts(r@) =~= texts(before).push(x@));
            assert(tool_names(tools@.take(i + 1)) =~= tool_names(tools@.take(i as int)).push(tools@[i as int].name@));
        }
        i = i + 1;
    }
    assert(tools@.take(tools@.len() as int) =~= tools@);
    r
}

/// The descriptions of `tools`, in order.
fn descriptions_of(tools: &Vec<ToolDescription>) -> (r: Vec<String>)
    ensures
        texts(r@) == tool_descriptions(tools@),
{
    let mut r: Vec<String> = Vec::new();
    let mut i: usize = 0;
    while i < tools.len()
        invariant
            i <= tools@.len(),
            texts(r@) == tool_descriptions(tools@.take(i as int)),
        decreases tools@.len() - i,
    {
        let x = tools[i].description.clone();
        let ghost before = r@;
        r.push(x);
        proof {
            assert(texts(r@) =~= texts(before).push(x@));
            assert(tool_descriptions(tools@.take(i + 1)) =~= tool_descriptions(tools@.take(i as int)).push(tools@[i as int].description@));
        }
        i = i + 1;
    }
    assert(tools@.take(tools@.len() as int) =~= tools@);
    r
}

/// The JSON forms of `tools`, in order.
fn jsons_of(tools: &Vec<ToolDescription>) -> (r: Vec<String>)
    ensures
        texts(r@) == tool_jsons(tools@),
{
    let mut r: Vec<String> = Vec::new();
    let mut i: usize = 0;
    while i < tools.len()
        invariant
            i <= tools@.len(),
            texts(r@) == tool_jsons(tools@.take(i as int)),
        decreases tools@.len() - i,
    {
        let x = tools[i].json.clone();
        let ghost before = r@;
        r.push(x);
        proof {
            assert(texts(r@) =~= texts(before).push(x@));
            assert(tool_jsons(tools@.take(i + 1)) =~= tool_jsons(tools@.take(i as int)).push(tools@[i as int].json@));
        }
        i = i + 1;
    }
    assert(tools@.take(tools@.len() as int) =~= tools@);
    r
}

impl Instructor for DefaultInstructor {
    open spec fn instruction(&self, tools: Seq<ToolDescription>) -> Seq<char> {
        default_instruction(tools)
    }

    fn tool_use_instruction(&self, tools: &Vec<ToolDescription>) -> (r: String) {
        let names = join(&names_of(tools), ", ");
        let descriptions = join(&descriptions_of(tools), "\n");
        proof {
            reveal_strlit("{{?tool_names}}");
            reveal_strlit("{{?tools}}");
        }
        let with_names = replace_all(DEFAULT_TOOL_PROMPT, TOOL_NAMES_PLACEHOLDER, names.as_str());
        replace_all(with_names.as_str(), TOOLS_PLACEHOLDER, descriptions.as_str())
    }
}

impl Instructor for Qwen3Instructor {
    open spec fn instruction(&self, tools: Seq<ToolDescription>) -> Seq<char> {
        qwen3_instruction(tools)
    }

    fn tool_use_instruction(&self, tools: &Vec<ToolDescription>) -> (r: String) {
        let jsons = join(&jsons_of(tools), "\n");
        proof {
            reveal_strlit("{{?tools}}");
        }
        replace_all(QWEN3_TOOL_PROMPT, TOOLS_PLACEHOLDER, jsons.as_str())
    }
}

// ---------------------------------------------------------------------------
// Reading a reply
// ---------------------------------------------------------------------------

/// The two shapes of a model's JSON reply: a tool call (its `name` may also
/// be written `action`, and its `arguments` `action_input`), or a final
/// answer.
#[derive(Debug)]
pub enum OutputHelp {
    Action { id: Option<String>, name: String, arguments: Option<JsonValue> },
    FinalAnswer { final_answer: JsonValue },
}

/// The compact JSON text of `v`, as `serde_json::to_string` writes it.
pub uninterp spec fn json_text(v: JsonValue) -> Seq<char>;

/// The JSON value `text` holds, as `serde_json::from_str` reads it; `None`
/// when it is not JSON.
pub uninterp spec fn json_parsed(text: Seq<char>) -> Option<JsonValue>;

/// A `serde_json::Value` as a [`JsonValue`], members in the order of the
/// value's map.
#[verifier::external_body]
fn from_serde_value(v: serde_json::Value) -> JsonValue {
    match v {
        serde_json::Value::Null => JsonValue::Null,
        serde_json::Value::Bool(b) => JsonValue::Bool(b),
        serde_json::Value::Number(n) => JsonValue::Number(n),
        serde_json::Value::String(s) => JsonValue::String(s),
        serde_json::Value::Array(items) => JsonValue::Array(items.into_iter().map(from_serde_value).collect()),
        serde_json::Value::Object(m) => JsonValue::Object(m.into_iter().map(|(k, e)| (k, from_serde_value(e))).collect()),
    }
}

/// `serde_json::to_string` on `v`: the contract names the text, and says that
/// writing a JSON value (whose object keys are all strings) into memory does
/// not fail.
#[verifier::external_body]
fn to_json_text(v: &JsonValue) -> (r: Result<String, serde_json::Error>)
    ensures
        r is Ok,
        r matches Ok(s) ==> s@ == json_text(*v),
{
    serde_json::to_string(&to_serde_value(v))
}

/// `serde_json::from_str` into a JSON value: the contract names the value
/// read, and says that it is read exactly when the text is JSON.
#[verifier::external_body]
fn parse_json(text: &str) -> (r: Result<JsonValue, serde_json::Error>)
    ensures
        r is Ok <==> json_parsed(text@) is Some,
        r matches Ok(v) ==> json_parsed(text@) == Some(v),
{
    match serde_json::from_str::<serde_json::Value>(text) {
        Ok(v) => Ok(from_serde_value(v)),
        Err(e) => Err(e),
    }
}

/// Whether `t` is the text of the final answer `v`: once its `final_answer`
/// wrappers are removed, a string stands for itself, and any other value is
/// written as pretty-printed JSON.
pub open spec fn answer_text(v: JsonValue, t: String) -> bool {
    match unwrapped(v) {
        JsonValue::String(s) => t == s,
        other => t@ == json_pretty(other),
    }
}

/// Whether `c` is the call that an action with `id`, `name` and `arguments`
/// asks for: a call without an id gets `fresh_id`, and absent arguments are
/// JSON `null`.
pub open spec fn action_call(
    c: ToolCall,
    id: Option<String>,
    name: String,
    arguments: Option<JsonValue>,
    fresh_id: String,
) -> bool {
    &&& c.id == (match id {
        Some(i) => i,
        None => fresh_id,
    })
    &&& c.name == name
    &&& c.arguments@ == json_text(
        match arguments {
            Some(a) => a,
            None => JsonValue::Null,
        },
    )
}

/// The event a model's JSON reply stands for: an action is a single tool call
/// (given the identifier `fresh_id` when it names none), and a final answer
/// is its text. It always succeeds.
pub fn event_of_output(help: OutputHelp, fresh_id: String) -> (r: Result<LLMEvent, serde_json::Error>)
    ensures
        r is Ok,
        help matches OutputHelp::Action { id, name, arguments } ==> (r matches Ok(
            LLMEvent::ToolCall(calls),
        ) && calls@.len() == 1 && action_call(calls@[0], id, name, arguments, fresh_id)),
        help matches OutputHelp::FinalAnswer { final_answer } ==> (r matches Ok(
            LLMEvent::Text(t),
        ) && answer_text(final_answer, t)),
{
    match help {
        OutputHelp::Action { id, name, arguments } => {
            let id = match id {
                Some(i) => i,
                None => fresh_id,
            };
            let arguments = match arguments {
                Some(a) => a,
                None => JsonValue::Null,
            };
            let text = match to_json_text(&arguments) {
                Ok(t) => t,
                Err(e) => {
                    return Err(e);
                },
            };
            let mut calls: Vec<ToolCall> = Vec::new();
            calls.push(ToolCall::new(id, name, text));
            Ok(LLMEvent::ToolCall(calls))
        },
        OutputHelp::FinalAnswer { final_answer } => {
            match flatten_final_answer(final_answer) {
                Ok(t) => Ok(LLMEvent::Text(t)),
                Err(e) => Err(e),
            }
        },
    }
}

/// The pattern of a final answer written out as a JSON member.
pub const FINAL_ANSWER_PATTERN: &'static str = r#"(?m)"final_answer"\s*:\s*"(.*)"\s*\n"#;

/// The pattern of an action name written out as a JSON member.
pub const ACTION_PATTERN: &'static str = r#"(?m)"action"\s*:\s*"(.*)"\s*\n"#;

/// The pattern of an action's input written out as a JSON member.
pub const ACTION_INPUT_PATTERN: &'static str = r#"(?m)"action_input"\s*:\s*"(.*)"\s*\n"#;

/// The first capture group of the first match of `pattern` in `text`:
/// `Some(Some(g))` for its text, `Some(None)` when the match has no such
/// group, `None` when nothing matches (or the pattern does not compile).
pub open spec fn first_group(pattern: Seq<char>, text: Seq<char>) -> Option<Option<Seq<char>>> {
    match regex_first_captures(pattern, text) {
        Some(Some(groups)) => Some(
            if groups.len() > 1 && groups[1] is Some {
                let span = groups[1]->0;
                Some(text.subrange(span.0, span.1))
            } else {
                None
            },
        ),
        _ => None,
    }
}

/// The first capture group of the first match of `pattern` in `text` (see
/// [`first_group`]).
fn capture_group<'a>(pattern: &str, text: &'a str) -> (r: Option<Option<&'a str>>)
    ensures
        r is None <==> first_group(pattern@, text@) is None,
        r matches Some(None) <==> first_group(pattern@, text@) matches Some(None),
        r matches Some(Some(g)) ==> first_group(pattern@, text@) == Some(Some(g@)),
{
    let groups = match first_captures(pattern, text) {
        Some(Some(g)) => g,
        _ => {
            return None;
        },
    };
    if groups.len() < 2 {
        return Some(None);
    }
    match groups[1] {
        Some((start, end)) => {
            proof {
                assert(groups_view(groups@)[1] == Some((start as int, end as int)));
            }
            Some(Some(text.substring_char(start, end)))
        },
        None => Some(None),
    }
}

/// What the fallback reading of `text` by regular expressions finds, given
/// the first groups of the final-answer, action and action-input patterns:
/// a final answer first; otherwise an action with its input.
pub open spec fn regex_reading(
    final_answer: Option<Option<Seq<char>>>,
    action: Option<Option<Seq<char>>>,
    action_input: Option<Option<Seq<char>>>,
) -> Option<Result<Seq<char>, (Seq<char>, Seq<char>)>> {
    match final_answer {
        Some(Some(a)) => Some(Ok(a)),
        Some(None) => None,
        None => match (action, action_input) {
            (Some(Some(a)), Some(Some(i))) => Some(Err((a, i))),
            _ => None,
        },
    }
}

impl DefaultInstructor {
    /// The event of a model's JSON reply (see [`event_of_output`]).
    pub fn deserialize_llm_output(&self, help: OutputHelp, fresh_id: String) -> (r: Result<
        LLMEvent,
        serde_json::Error,
    >)
        ensures
            r is Ok,
            help matches OutputHelp::Action { id, name, arguments } ==> (r matches Ok(
                LLMEvent::ToolCall(calls),
            ) && calls@.len() == 1 && action_call(calls@[0], id, name, arguments, fresh_id)),
            help matches OutputHelp::FinalAnswer { final_answer } ==> (r matches Ok(
                LLMEvent::Text(t),
            ) && answer_text(final_answer, t)),
    {
        event_of_output(help, fresh_id)
    }

    /// Reads `text` with regular expressions, the fallback when it is not
    /// JSON: a `"final_answer": "..."` line gives its text with escape
    /// sequences resolved; otherwise `"action": "..."` and
    /// `"action_input": "..."` lines give a call of the named tool (escape
    /// sequences resolved, identifier `fresh_id`) when the input is JSON.
    /// Anything else gives nothing.
    pub fn parse_with_regex(&self, text: &str, fresh_id: String) -> (r: Option<LLMEvent>)
        ensures
            ({
                let fa = first_group(FINAL_ANSWER_PATTERN@, text@);
                let ac = first_group(ACTION_PATTERN@, text@);
                let ai = first_group(ACTION_INPUT_PATTERN@, text@);
                match regex_reading(fa, ac, ai) {
                    Some(Ok(a)) => r matches Some(LLMEvent::Text(t)) && t@ == escapes_fixed(a),
                    Some(Err((a, i))) => match json_parsed(i) {
                        Some(v) => r matches Some(LLMEvent::ToolCall(calls)) && calls@.len() == 1
                            && calls@[0].id == fresh_id && calls@[0].name@ == escapes_fixed(a)
                            && calls@[0].arguments@ == json_text(v),
                        None => r is None,
                    },
                    None => r is None,
                }
            }),
    {
        match capture_group(FINAL_ANSWER_PATTERN, text) {
            Some(Some(a)) => {
                return Some(LLMEvent::Text(fix_text(a)));
            },
            Some(None) => {
                return None;
            },
            None => {},
        }
        let action = match capture_group(ACTION_PATTERN, text) {
            Some(Some(a)) => a,
            _ => {
                return None;
            },
        };
        let action_input = match capture_group(ACTION_INPUT_PATTERN, text) {
            Some(Some(i)) => i,
            _ => {
                return None;
            },
        };
        let name = fix_text(action);
        let value = match parse_json(action_input) {
            Ok(v) => v,
            Err(_) => {
                return None;
            },
        };
        let arguments = match to_json_text(&value) {
            Ok(t) => t,
            Err(_) => {
                return None;
            },
        };
        let mut calls: Vec<ToolCall> = Vec::new();
        calls.push(ToolCall::new(fresh_id, name, arguments));
        Some(LLMEvent::ToolCall(calls))
    }

    /// The part of a reply that should hold its JSON object: the text after
    /// the model's thinking, out of its code block, from its first `{` to its
    /// last `}`. `None` when the code block's fences, or the braces, cross.
    pub fn reply_json_text(output: &str) -> (r: Option<&str>)
        ensures
            ({
                let t = thought_removed(output@);
                let b = region_between(t, CODEBLOCK_OPEN@, CODEBLOCK_CLOSE@);
                &&& r is Some <==> (region_ok(t, CODEBLOCK_OPEN@, CODEBLOCK_CLOSE@) && (b.len() == 0
                    || json_start(b) <= json_end(b)))
                &&& r matches Some(x) ==> x@ == json_extracted(b)
            }),
    {
        let text = remove_thought(output);
        let block = match try_extract_from_codeblock(text) {
            Some(b) => b,
            None => {
                return None;
            },
        };
        try_extract_json(block)
    }
}

impl Qwen3Instructor {
    /// The event of a model's JSON reply (see [`event_of_output`]).
    pub fn deserialize_tool_call(&self, help: OutputHelp, fresh_id: String) -> (r: Result<
        LLMEvent,
        serde_json::Error,
    >)
        ensures
            r is Ok,
            help matches OutputHelp::Action { id, name, arguments } ==> (r matches Ok(
                LLMEvent::ToolCall(calls),
            ) && calls@.len() == 1 && action_call(calls@[0], id, name, arguments, fresh_id)),
            help matches OutputHelp::FinalAnswer { final_answer } ==> (r matches Ok(
                LLMEvent::Text(t),
            ) && answer_text(final_answer, t)),
    {
        event_of_output(help, fresh_id)
    }

    /// The part of a reply that should hold its tool call: the text after the
    /// model's thinking, out of its `tool_call` element, out of its code
    /// block. `None` when the tags, or the code block's fences, cross.
    pub fn tool_call_text(output: &str) -> (r: Option<&str>)
        ensures
            ({
                let t = thought_removed(output@);
                let open = tag_pattern("tool_call"@, false);
                let close = tag_pattern("tool_call"@, true);
                let e = region_between(t, open, close);
                &&& r is Some <==> (region_ok(t, open, close) && region_ok(
                    e,
                    CODEBLOCK_OPEN@,
                    CODEBLOCK_CLOSE@,
                ))
                &&& r matches Some(x) ==> x@ == region_between(e, CODEBLOCK_OPEN@, CODEBLOCK_CLOSE@)
            }),
    {
        let text = remove_thought(output);
        let element = match try_extract_from_tag(text, "tool_call") {
            Some(e) => e,
            None => {
                return None;
            },
        };
        try_extract_from_codeblock(element)
    }
}

} // verus!
