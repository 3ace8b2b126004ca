use langchain_rust::llm::instructor::{
    event_of_output, join, OutputHelp, ToolDescription, DEFAULT_TOOL_PROMPT, QWEN3_TOOL_PROMPT,
};
use langchain_rust::llm::{DefaultInstructor, Instructor, Qwen3Instructor};
use langchain_rust::output_parser::parse_helper::flatten_final_answer::JsonValue;
use langchain_rust::schemas::LLMEvent;

fn tool(name: &str, description: &str, json: &str) -> ToolDescription {
    ToolDescription { name: name.to_string(), description: description.to_string(), json: json.to_string() }
}

fn tools() -> Vec<ToolDescription> {
    vec![
        tool("search", "search: looks things up", "{\"name\":\"search\"}"),
        tool("calculator", "calculator: does sums", "{\"name\":\"calculator\"}"),
    ]
}

#[test]
fn join_puts_the_separator_between_parts() {
    assert_eq!(join(&vec![], ", "), "");
    assert_eq!(join(&vec!["a".to_string()], ", "), "a");
    assert_eq!(join(&vec!["a".to_string(), "b".to_string(), "c".to_string()], ", "), "a, b, c");
}

#[test]
fn default_instruction_lists_names_and_descriptions() {
    let text = DefaultInstructor.tool_use_instruction(&tools());
    let expected = DEFAULT_TOOL_PROMPT
        .replace("{{?tool_names}}", "search, calculator")
        .replace("{{?tools}}", "search: looks things up\ncalculator: does sums");
    assert_eq!(text, expected);
    assert!(text.contains("(must be one of: [search, calculator])"));
    assert!(!text.contains("{{?"));
}

#[test]
fn qwen3_instruction_lists_the_json_forms() {
    let text = Qwen3Instructor.tool_use_instruction(&tools());
    let expected = QWEN3_TOOL_PROMPT.replace("{{?tools}}", "{\"name\":\"search\"}\n{\"name\":\"calculator\"}");
    assert_eq!(text, expected);
    assert!(text.contains("<tools>\n{\"name\":\"search\"}\n{\"name\":\"calculator\"}\n</tools>"));
    // With no tools the placeholder is emptied.
    let empty = Qwen3Instructor.tool_use_instruction(&vec![]);
    assert!(empty.contains("<tools>\n\n</tools>"));
}

#[test]
fn an_action_becomes_one_tool_call() {
    let help = OutputHelp::Action {
        id: Some("call-7".to_string()),
        name: "get_weather".to_string(),
        arguments: Some(JsonValue::Object(vec![(
            "location".to_string(),
            JsonValue::String("New York".to_string()),
        )])),
    };
    match event_of_output(help, "fresh".to_string()).unwrap() {
        LLMEvent::ToolCall(calls) => {
            assert_eq!(calls.len(), 1);
            assert_eq!(calls[0].id, "call-7");
            assert_eq!(calls[0].name, "get_weather");
            assert_eq!(calls[0].arguments, "{\"location\":\"New York\"}");
        }
        other => panic!("unexpected {other:?}"),
    }

    let bare = OutputHelp::Action { id: None, name: "generate".to_string(), arguments: None };
    match DefaultInstructor.deserialize_llm_output(bare, "fresh".to_string()).unwrap() {
        LLMEvent::ToolCall(calls) => {
            assert_eq!(calls[0].id, "fresh");
            assert_eq!(calls[0].arguments, "null");
        }
        other => panic!("unexpected {other:?}"),
    }

    let text_argument = OutputHelp::Action {
        id: None,
        name: "generate".to_string(),
        arguments: Some(JsonValue::String("Hello, world!".to_string())),
    };
    match Qwen3Instructor.deserialize_tool_call(text_argument, "x".to_string()).unwrap() {
        LLMEvent::ToolCall(calls) => assert_eq!(calls[0].arguments, "\"Hello, world!\""),
        other => panic!("unexpected {other:?}"),
    }
}

#[test]
fn a_final_answer_becomes_text() {
    let nested = OutputHelp::FinalAnswer {
        final_answer: JsonValue::Object(vec![(
            "final_answer".to_string(),
            JsonValue::String("The capital of France is Paris.".to_string()),
        )]),
    };
    assert!(matches!(
        event_of_output(nested, "id".to_string()),
        Ok(LLMEvent::Text(t)) if t == "The capital of France is Paris."
    ));
    let list = OutputHelp::FinalAnswer {
        final_answer: JsonValue::Array(vec![JsonValue::Bool(true), JsonValue::Null]),
    };
    assert!(matches!(
        event_of_output(list, "id".to_string()),
        Ok(LLMEvent::Text(t)) if t == "[\n  true,\n  null\n]"
    ));
}

#[test]
fn regex_fallback_reads_a_final_answer() {
    let text = "{\n  \"final_answer\": \"Line one\\nLine two\"\n}";
    match DefaultInstructor.parse_with_regex(text, "id".to_string()) {
        Some(LLMEvent::Text(t)) => assert_eq!(t, "Line one\nLine two"),
        other => panic!("unexpected {other:?}"),
    }
}

#[test]
fn regex_fallback_reads_an_action() {
    let text = "{\n  \"action\": \"calc\\u\",\n  \"action_input\": \"5\"\n}";
    assert!(DefaultInstructor.parse_with_regex(text, "id".to_string()).is_none());
    let text = "{\n  \"action\": \"calc\"\n  \"action_input\": \"[1, 2]\"\n}";
    match DefaultInstructor.parse_with_regex(text, "id-1".to_string()) {
        Some(LLMEvent::ToolCall(calls)) => {
            assert_eq!(calls.len(), 1);
            assert_eq!(calls[0].id, "id-1");
            assert_eq!(calls[0].name, "calc");
            assert_eq!(calls[0].arguments, "[1,2]");
        }
        other => panic!("unexpected {other:?}"),
    }
    // An input that is not JSON gives nothing, and so does plain text.
    let text = "\"action\": \"calc\"\n\"action_input\": \"oops\"\n";
    assert!(DefaultInstructor.parse_with_regex(text, "id".to_string()).is_none());
    assert!(DefaultInstructor.parse_with_regex("Goodbye, world!", "id".to_string()).is_none());
}

#[test]
fn the_reply_json_is_cut_out() {
    let reply = "<think>hmm</think>\n```json\n{\"name\": \"generate\", \"arguments\": \"Hello\"}\n```";
    assert_eq!(DefaultInstructor::reply_json_text(reply), Some("{\"name\": \"generate\", \"arguments\": \"Hello\"}"));
    assert_eq!(DefaultInstructor::reply_json_text("Goodbye, world!"), Some("Goodbye, world!"));
    assert_eq!(DefaultInstructor::reply_json_text("a } b { c"), None);
}

#[test]
fn the_qwen3_tool_call_is_cut_out() {
    let reply = "Let me look.\n<tool_call>\n{\"name\": \"search\", \"arguments\": {}}\n</tool_call>";
    assert_eq!(Qwen3Instructor::tool_call_text(reply), Some("{\"name\": \"search\", \"arguments\": {}}"));
    let fenced = "<tool_call>\n```json\n{\"name\": \"f\"}\n```\n</tool_call>";
    assert_eq!(Qwen3Instructor::tool_call_text(fenced), Some("{\"name\": \"f\"}"));
}
