use langchain_rust::output_parser::{
    balance_parenthesis, flatten_final_answer, JsonValue, extract_from_codeblock, extract_from_tag, extract_json, fix_text,
    remove_multiline, remove_thought, remove_trailing_commas, try_extract_from_codeblock,
    try_extract_from_tag,
};

#[test]
fn test_extract_from_codeblock() {
    let text = "```json\n{\n    \"key\": \"value\"\n}\n```\n";
    let result = extract_from_codeblock(text);
    let expected = "{\n    \"key\": \"value\"\n}";
    assert_eq!(result, expected);

    let text = "```json\n{\n    \"key\": \"value\"\n}\n";
    let result = extract_from_codeblock(text);
    let expected = "{\n    \"key\": \"value\"\n}";
    assert_eq!(result, expected);

    let text = "{\n    \"key\": \"value\"\n}\n```";
    let expected = "{\n    \"key\": \"value\"\n}";
    let result = extract_from_codeblock(text);
    assert_eq!(result, expected);
}

#[test]
fn test_extract_from_tag() {
    let text = r#"<tool_call> {"name": "test_tool", "arguments": {"arg1": "value1"}}</tool_call>"#;
    let result = extract_from_tag(text, "tool_call");
    assert_eq!(result, r#"{"name": "test_tool", "arguments": {"arg1": "value1"}}"#);

    let text = r#"<tool_call> {"name": "test_tool", "arguments": {"arg1": "value1"}}"#;
    let result = extract_from_tag(text, "tool_call");
    assert_eq!(result, r#"{"name": "test_tool", "arguments": {"arg1": "value1"}}"#);

    let text = r#"{"name": "test_tool", "arguments": {"arg1": "value1"}}</tool_call>"#;
    let result = extract_from_tag(text, "tool_call");
    assert_eq!(result, r#"{"name": "test_tool", "arguments": {"arg1": "value1"}}"#);

    let text = r#"{"name": "test_tool", "arguments": {"arg1": "value1"}}"#;
    let result = extract_from_tag(text, "tool_call");
    assert_eq!(result, r#"{"name": "test_tool", "arguments": {"arg1": "value1"}}"#);

    let text = r#"{"name": "test_tool", "arguments": {"arg1": "value1"}}</tool_call> <FINAL_ANSWER_FORMAT>final answer"#;
    let result = extract_from_tag(text, "tool_call");
    assert_eq!(result, r#"{"name": "test_tool", "arguments": {"arg1": "value1"}}"#);

    let text = "<tool_call> \n{\n    \"name\": \"test_tool\",\n    \"arguments\": {\n        \"arg1\": \"value1\"\n    }\n}\n</tool_call>";
    let result = extract_from_tag(text, "tool_call");
    assert_eq!(
        result,
        "{\n    \"name\": \"test_tool\",\n    \"arguments\": {\n        \"arg1\": \"value1\"\n    }\n}"
    );
}

#[test]
fn test_extract_json() {
    let text = "So I decided to call this because of that:\n\n{\n    \"name\": \"test_tool\",\n    \"arguments\": {\n        \"arg1\": \"value1\"\n    }\n}";
    let result = extract_json(text);
    assert_eq!(
        result,
        "{\n    \"name\": \"test_tool\",\n    \"arguments\": {\n        \"arg1\": \"value1\"\n    }\n}"
    );
}

#[test]
fn extract_json_edges() {
    assert_eq!(extract_json(""), "");
    assert_eq!(extract_json("no braces here"), "no braces here");
    assert_eq!(extract_json("prefix {\"a\": 1"), "{\"a\": 1");
    assert_eq!(extract_json("\"a\": 1} suffix"), "\"a\": 1}");
    assert_eq!(extract_json("x {\"a\": {\"b\": 2}} y"), "{\"a\": {\"b\": 2}}");
}

#[test]
fn extract_json_is_idempotent() {
    let once = extract_json("text {\"k\": [1, 2]} more");
    assert_eq!(extract_json(once), once);
}

#[test]
fn extract_from_tag_escapes_the_tag() {
    // A tag with regular-expression meta characters matches only literally.
    assert_eq!(extract_from_tag("<a.b> inner </a.b>", "a.b"), "inner");
    assert_eq!(extract_from_tag("<axb> inner </axb>", "a.b"), "<axb> inner </axb>");
}

#[test]
fn crossing_fences_and_tags_are_refused() {
    assert_eq!(try_extract_from_tag("</t> x <t>", "t"), None);
    assert_eq!(try_extract_from_tag("<t> x </t>", "t"), Some("x"));
    assert_eq!(try_extract_from_codeblock("```"), None);
    assert_eq!(try_extract_from_codeblock("```rust\nfn f() {}\n```"), Some("fn f() {}"));
}

#[test]
fn remove_thought_keeps_text_after_the_last_think_tag() {
    assert_eq!(remove_thought("plain answer"), "plain answer");
    assert_eq!(remove_thought("<think>pondering</think>  answer \n"), "answer");
    assert_eq!(remove_thought("a</think>b</think> c "), "c");
    assert_eq!(remove_thought("</think>"), "");
}

#[test]
fn remove_thought_is_idempotent() {
    let once = remove_thought("<think>x</think> y </think> z");
    assert_eq!(remove_thought(once), once);
}

#[test]
fn test_fix_text() {
    let input = r#"This is a test\nNew line\tTabbed\rCarriage return"#;
    assert_eq!(fix_text(input), "This is a test\nNew line\tTabbed\rCarriage return");
}

#[test]
fn fix_text_other_escapes() {
    assert_eq!(fix_text(r#"say \"hi\" \\ done"#), "say \"hi\" \\ done");
    // The backslash of any other escape sequence is dropped.
    assert_eq!(fix_text(r#"\q stays"#), "q stays");
    assert_eq!(fix_text("no escapes"), "no escapes");
}

#[test]
fn test_remove_multiline() {
    let input = "{\n    \"key1\": \"This is a malformed JSON string.\nThe newline within the string is incorrectly parsed as an actual newline.\",\n    \"key2\": \"value2\"\n}";
    let expected = "{\n    \"key1\": \"This is a malformed JSON string.\\nThe newline within the string is incorrectly parsed as an actual newline.\",\n    \"key2\": \"value2\"\n}";
    assert_eq!(remove_multiline(input), expected);
}

#[test]
fn remove_multiline_keeps_single_line_text() {
    let s = r#"{"a": "b", "c": [1, 2]}"#;
    assert_eq!(remove_multiline(s), s);
}

#[test]
fn test_remove_trailing_commas_object() {
    let input = "{\n    \"key1\": \"value1\",\n    \"key2\": \"value2\",\n}";
    let expected = "{\n    \"key1\": \"value1\",\n    \"key2\": \"value2\"\n}";
    assert_eq!(remove_trailing_commas(input), expected);
}

#[test]
fn test_remove_trailing_commas_array() {
    assert_eq!(remove_trailing_commas(r#"["item1", "item2",]"#), r#"["item1", "item2"]"#);
}

#[test]
fn remove_trailing_commas_keeps_commas_in_strings() {
    assert_eq!(remove_trailing_commas(r#"{"a": "x,}"}"#), r#"{"a": "x,}"}"#);
    assert_eq!(remove_trailing_commas("no commas"), "no commas");
}

#[test]
fn test_balance_parenthesis() {
    let input = r#"{"key1": "value1", "key2": ["item1", "item2""#;
    assert_eq!(balance_parenthesis(input), r#"{"key1": "value1", "key2": ["item1", "item2"]}"#);
}

#[test]
fn balance_parenthesis_is_idempotent_and_extends() {
    let input = r#"{"a": [1, {"b": 2"#;
    let once = balance_parenthesis(input);
    assert_eq!(once, r#"{"a": [1, {"b": 2}]}"#);
    assert!(once.starts_with(input));
    assert_eq!(balance_parenthesis(&once), once);
    assert_eq!(balance_parenthesis(r#"{"s": "[{"}"#), r#"{"s": "[{"}"#);
}

fn object(entries: Vec<(&str, JsonValue)>) -> JsonValue {
    JsonValue::Object(entries.into_iter().map(|(k, v)| (k.to_string(), v)).collect())
}

#[test]
fn flatten_final_answer_unwraps_nested_answers() {
    let nested = object(vec![(
        "final_answer",
        object(vec![("final_answer", JsonValue::String("The capital of France is Paris.".into()))]),
    )]);
    assert_eq!(flatten_final_answer(nested).unwrap(), "The capital of France is Paris.");
    let plain = JsonValue::String("just text".into());
    assert_eq!(flatten_final_answer(plain).unwrap(), "just text");
}

#[test]
fn flatten_final_answer_prints_other_values_as_json() {
    let value = object(vec![(
        "final_answer",
        object(vec![
            ("b", JsonValue::Number(serde_json::Number::from(2))),
            ("a", JsonValue::Array(vec![JsonValue::Bool(true), JsonValue::Null])),
        ]),
    )]);
    assert_eq!(
        flatten_final_answer(value).unwrap(),
        "{\n  \"a\": [\n    true,\n    null\n  ],\n  \"b\": 2\n}"
    );
    let other = object(vec![("answer", JsonValue::String("x".into()))]);
    assert_eq!(flatten_final_answer(other).unwrap(), "{\n  \"answer\": \"x\"\n}");
}

#[test]
fn tags_are_matched_literally() {
    assert_eq!(extract_from_tag("<aa>no</aa><a+>yes</a+>", "a+"), "yes");
    assert_eq!(extract_from_tag("<x.y> inside </x.y>", "x.y"), "inside");
}
