//! The final answer of a model that wrapped it in `final_answer` objects.
use vstd::prelude::*;

verus! {

/// `serde_json::Number`, carried through unread.
#[verifier::external_type_specification]
#[verifier::external_body]
pub struct ExJsonNumber(serde_json::Number);

/// A JSON value: object members are kept in their order.
#[derive(Debug)]
pub enum JsonValue {
    Null,
    Bool(bool),
    Number(serde_json::Number),
    String(String),
    Array(Vec<JsonValue>),
    Object(Vec<(String, JsonValue)>),
}

/// The key of a wrapped final answer.
pub open spec fn final_answer_key() -> Seq<char> {
    "final_answer"@
}

/// Whether position `i` of `entries` is the first with the key `k`.
pub open spec fn is_first_key(entries: Seq<(String, JsonValue)>, k: Seq<char>, i: int) -> bool {
    &&& 0 <= i < entries.len()
    &&& entries[i].0@ == k
    &&& forall|j: int| 0 <= j < i ==> entries[j].0@ != k
}

/// Whether some member of `entries` has the key `k`.
pub open spec fn has_key(entries: Seq<(String, JsonValue)>, k: Seq<char>) -> bool {
    exists|i: int| 0 <= i < entries.len() && entries[i].0@ == k
}

/// The position of the first member of `entries` with the key `k`
/// (meaningful when there is one).
pub open spec fn first_key(entries: Seq<(String, JsonValue)>, k: Seq<char>) -> int {
    choose|i: int| is_first_key(entries, k, i)
}

/// A member with the key `k` makes a first such member.
proof fn lemma_first_key_exists(entries: Seq<(String, JsonValue)>, k: Seq<char>, i: int)
    requires
        0 <= i < entries.len(),
        entries[i].0@ == k,
    ensures
        exists|f: int| is_first_key(entries, k, f),
    decreases i,
{
    if exists|j: int| 0 <= j < i && entries[j].0@ == k {
        let j = choose|j: int| 0 <= j < i && entries[j].0@ == k;
        lemma_first_key_exists(entries, k, j);
    } else {
        assert(is_first_key(entries, k, i));
    }
}

/// `v` with its `final_answer` wrappers removed: while it is an object with a
/// `final_answer` member, it is replaced by that member's value.
pub open spec fn unwrapped(v: JsonValue) -> JsonValue
    decreases v,
{
    match v {
        JsonValue::Object(entries) => if has_key(entries@, final_answer_key()) {
            let i = first_key(entries@, final_answer_key());
            if 0 <= i < entries@.len() {
                proof {
                    assert(decreases_to!(entries => entries@));
                }
                unwrapped(entries@[i].1)
            } else {
                v
            }
        } else {
            v
        },
        _ => v,
    }
}

/// The position of the first member of `entries` with the key `key`.
fn find_key(entries: &Vec<(String, JsonValue)>, key: &str) -> (r: Option<usize>)
    ensures
        r is None <==> !has_key(entries@, key@),
        r matches Some(i) ==> is_first_key(entries@, key@, i as int),
{
    let k = key.to_owned();
    let mut i: usize = 0;
    while i < entries.len()
        invariant
            i <= entries@.len(),
            k@ == key@,
            forall|j: int| 0 <= j < i ==> entries@[j].0@ != key@,
        decreases entries@.len() - i,
    {
        if entries[i].0 == k {
            return Some(i);
        }
        i = i + 1;
    }
    None
}

/// Removes the `final_answer` wrappers of `v` (see [`unwrapped`]).
pub fn unwrap_final_answer(v: JsonValue) -> (r: JsonValue)
    ensures
        r == unwrapped(v),
    decreases v,
{
    proof {
        reveal_strlit("final_answer");
    }
    match v {
        JsonValue::Object(entries) => {
            let ghost all = entries@;
            match find_key(&entries, "final_answer") {
                Some(i) => {
                    proof {
                        lemma_first_key_exists(all, final_answer_key(), i as int);
                        assert(first_key(all, final_answer_key()) == i as int);
                        assert(decreases_to!(entries => entries@));
                    }
                    let mut entries = entries;
                    let (_, inner) = entries.remove(i);
                    assert(inner == all[i as int].1);
                    unwrap_final_answer(inner)
                },
                None => JsonValue::Object(entries),
            }
        },
        other => other,
    }
}

/// The pretty-printed JSON text of `v`, as `serde_json::to_string_pretty`
/// writes it.
pub uninterp spec fn json_pretty(v: JsonValue) -> Seq<char>;

/// `v` as a `serde_json::Value`.
#[verifier::external_body]
pub(crate) fn to_serde_value(v: &JsonValue) -> serde_json::Value {
    match v {
        JsonValue::Null => serde_json::Value::Null,
        JsonValue::Bool(b) => serde_json::Value::Bool(*b),
        JsonValue::Number(n) => serde_json::Value::Number(n.clone()),
        JsonValue::String(s) => serde_json::Value::String(s.clone()),
        JsonValue::Array(items) => serde_json::Value::Array(items.iter().map(to_serde_value).collect()),
        JsonValue::Object(entries) => serde_json::Value::Object(
            entries.iter().map(|(k, e)| (k.clone(), to_serde_value(e))).collect(),
        ),
    }
}

/// `serde_json::to_string_pretty` on `v`: the contract names the text, and
/// says that writing a JSON value (whose object keys are all strings) into
/// memory does not fail.
#[verifier::external_body]
fn to_string_pretty(v: &JsonValue) -> (r: Result<String, serde_json::Error>)
    ensures
        r is Ok,
        r matches Ok(s) ==> s@ == json_pretty(*v),
{
    serde_json::to_string_pretty(&to_serde_value(v))
}

/// The text of a final answer: once its `final_answer` wrappers are removed,
/// a string stands for itself; any other value is written as pretty-printed
/// JSON. It always succeeds.
pub fn flatten_final_answer(final_answer: JsonValue) -> (r: Result<String, serde_json::Error>)
    ensures
        r is Ok,
        unwrapped(final_answer) matches JsonValue::String(s) ==> (r matches Ok(t) && t == s),
        !(unwrapped(final_answer) is String) ==> (r matches Ok(t) && t@ == json_pretty(
            unwrapped(final_answer),
        )),
{
    match unwrap_final_answer(final_answer) {
        JsonValue::String(s) => Ok(s),
        other => to_string_pretty(&other),
    }
}

} // verus!
