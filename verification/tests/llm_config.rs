use std::collections::HashMap;

use langchain_rust::llm::chat::generic_chat::process_prompt as generic_process_prompt;
use langchain_rust::llm::chat::openai_chat::process_prompt as chat_process_prompt;
use langchain_rust::llm::chat::request::{ChatRequest, StreamOptions};
use langchain_rust::llm::openai::client::process_prompt as legacy_process_prompt;
use langchain_rust::llm::openai::client::stream_piece;
use langchain_rust::llm::ollama::{ollama_role, ollama_usage, OllamaRole};
use langchain_rust::llm::responses::helper::{construct_output, Content, OutputContent};
use langchain_rust::llm::responses::openai_responses::process_prompt as responses_process_prompt;
use langchain_rust::llm::responses::request::{ReasoningConfig, ReasoningSummary, ResponsesRequest};
use langchain_rust::llm::{LLMError, LLMOptions, OpenAIModel};
use langchain_rust::schemas::{
    LLMEvent, Message, ReasoningEffort, ResponseFormat, Role, ToolCall, ToolChoice,
};

#[test]
fn builders_set_one_option_each() {
    let o = LLMOptions::new()
        .with_stream(true)
        .with_tool_choice(ToolChoice::Required)
        .with_parallel_tool_calls(false)
        .with_n(2)
        .with_reasoning_effort(ReasoningEffort::High)
        .with_max_tokens(100)
        .with_max_completion_tokens(50)
        .with_top_p(0.5f32.to_bits())
        .with_top_k(40)
        .with_frequency_penalty(0.1f32.to_bits())
        .with_presence_penalty(0.2f32.to_bits())
        .with_repetition_penalty(1.1f32.to_bits())
        .with_temperature(0.7f32.to_bits())
        .with_stop_words(vec!["END".to_string()])
        .with_response_format(ResponseFormat::JsonObject)
        .with_system_is_assistant(true)
        .with_drop_thought(false)
        .with_extra_params(HashMap::new());
    assert_eq!(o.stream, Some(true));
    assert!(matches!(o.tool_choice, Some(ToolChoice::Required)));
    assert_eq!(o.parallel_tool_calls, Some(false));
    assert_eq!(o.n, Some(2));
    assert_eq!(o.reasoning_effort, Some(ReasoningEffort::High));
    assert_eq!(o.max_tokens, Some(100));
    assert_eq!(o.max_completion_tokens, Some(50));
    assert_eq!(o.top_p.map(f32::from_bits), Some(0.5));
    assert_eq!(o.top_k, Some(40));
    assert_eq!(o.frequency_penalty.map(f32::from_bits), Some(0.1));
    assert_eq!(o.presence_penalty.map(f32::from_bits), Some(0.2));
    assert_eq!(o.repetition_penalty.map(f32::from_bits), Some(1.1));
    assert_eq!(o.temperature.map(f32::from_bits), Some(0.7));
    assert_eq!(o.stop_words, Some(vec!["END".to_string()]));
    assert!(matches!(o.response_format, Some(ResponseFormat::JsonObject)));
    assert_eq!(o.system_is_assistant, Some(true));
    assert_eq!(o.drop_thought, Some(false));
    assert!(o.extra_params.is_some());
}

#[test]
fn merge_lets_set_options_replace_the_old_ones() {
    let base = LLMOptions::new()
        .with_temperature(1)
        .with_max_tokens(10)
        .with_stream(true)
        .with_stop_words(vec!["a".to_string()])
        .with_drop_thought(true);
    let other = LLMOptions::new()
        .with_temperature(2)
        .with_n(3)
        .with_stream(false)
        .with_stop_words(vec!["b".to_string()]);
    let merged = base.merge(other);
    assert_eq!(merged.temperature, Some(2));
    assert_eq!(merged.max_tokens, Some(10));
    assert_eq!(merged.n, Some(3));
    assert_eq!(merged.stream, Some(false));
    assert_eq!(merged.stop_words, Some(vec!["b".to_string()]));
    assert_eq!(merged.drop_thought, Some(true));

    let mut in_place = LLMOptions::new().with_drop_thought(true);
    in_place.merge_inplace(LLMOptions::new().with_drop_thought(false));
    assert_eq!(in_place.drop_thought, Some(false));
}

#[test]
fn merge_inplace_example() {
    let mut options = LLMOptions::new().with_max_tokens(100).with_drop_thought(false);
    options.merge_inplace(LLMOptions::new().with_max_tokens(50).with_stream(true));
    assert_eq!(options.max_tokens, Some(50));
    assert_eq!(options.drop_thought, Some(false));
    assert_eq!(options.stream, Some(true));
}

#[test]
fn merging_empty_options_changes_nothing() {
    let base = LLMOptions::new()
        .with_top_k(5)
        .with_drop_thought(false)
        .with_stop_words(vec!["x".into()])
        .with_parallel_tool_calls(true)
        .with_reasoning_effort(ReasoningEffort::High);
    let merged = base.merge(LLMOptions::default());
    assert_eq!(merged.top_k, Some(5));
    assert_eq!(merged.stop_words, Some(vec!["x".to_string()]));
    assert_eq!(merged.drop_thought, Some(false));
    assert_eq!(merged.parallel_tool_calls, Some(true));
    assert_eq!(merged.reasoning_effort, Some(ReasoningEffort::High));

    let into_empty = LLMOptions::new().merge(LLMOptions::new().with_max_completion_tokens(7).with_repetition_penalty(2));
    assert_eq!(into_empty.max_completion_tokens, Some(7));
    assert_eq!(into_empty.repetition_penalty, Some(2));
}

#[test]
fn chat_request_takes_the_call_options() {
    let request: ChatRequest<Vec<u8>, Vec<u8>> = ChatRequest::new("gpt-4o", vec![1, 2], None);
    assert_eq!(request.model, "gpt-4o");
    assert!(request.stream.is_none() && request.extra_params.is_empty());
    let options = LLMOptions::new()
        .with_stream(true)
        .with_max_tokens(100)
        .with_max_completion_tokens(20)
        .with_n(2);
    let request = request.with_options(options);
    assert_eq!(request.messages, vec![1, 2]);
    assert_eq!(request.stream, Some(true));
    assert_eq!(request.stream_options, Some(StreamOptions { include_usage: true }));
    assert_eq!(request.max_tokens, None);
    assert_eq!(request.max_completion_tokens, Some(20));
    assert_eq!(request.n, Some(2));

    let plain: ChatRequest<(), ()> =
        ChatRequest::new("m", (), None).with_options(LLMOptions::new().with_max_tokens(9).with_stream(false));
    assert_eq!(plain.max_tokens, Some(9));
    assert_eq!(plain.stream_options, None);
}

#[test]
fn responses_request_takes_the_call_options() {
    let request: ResponsesRequest<&str, ()> = ResponsesRequest::new("o3", "input", None);
    let request = request.with_options(
        LLMOptions::new()
            .with_reasoning_effort(ReasoningEffort::Low)
            .with_max_tokens(64)
            .with_response_format(ResponseFormat::Text),
    );
    assert_eq!(request.model, "o3");
    assert_eq!(request.input, "input");
    assert_eq!(
        request.reasoning,
        Some(ReasoningConfig { effort: Some(ReasoningEffort::Low), summary: Some(ReasoningSummary::Auto) })
    );
    assert_eq!(request.max_output_tokens, Some(64));
    assert_eq!(request.parallel_tool_calls, None);
    assert!(matches!(request.text.map(|t| t.format), Some(ResponseFormat::Text)));

    // The completion limit takes precedence, and parallel tool calls carry over.
    let request: ResponsesRequest<&str, ()> = ResponsesRequest::new("o3", "input", None).with_options(
        LLMOptions::new().with_max_tokens(64).with_max_completion_tokens(32).with_parallel_tool_calls(false),
    );
    assert_eq!(request.max_output_tokens, Some(32));
    assert_eq!(request.parallel_tool_calls, Some(false));
}

#[test]
fn responses_output_is_read_in_order() {
    let out = construct_output(vec![
        OutputContent::Other,
        OutputContent::Message(vec![Content::OutputText("first".into())]),
        OutputContent::Message(vec![Content::OutputText("second".into())]),
    ])
    .unwrap();
    assert!(matches!(out.event, LLMEvent::Text(t) if t == "second"));
    assert!(out.thought.is_none());

    let out = construct_output(vec![
        OutputContent::Message(vec![Content::OutputText("text".into())]),
        OutputContent::FunctionCall(Ok(ToolCall::new("1".into(), "f".into(), "{}".into()))),
    ])
    .unwrap();
    assert!(matches!(out.event, LLMEvent::ToolCall(cs) if cs.len() == 1));

    let refused = construct_output(vec![OutputContent::Message(vec![Content::Refusal("no".into())])]);
    assert!(matches!(refused, Err(LLMError::Refused(r)) if r == "no"));

    let failed = construct_output(vec![OutputContent::FunctionCall(Err(LLMError::ParseError("bad".into())))]);
    assert!(matches!(failed, Err(LLMError::ParseError(m)) if m == "bad"));

    let empty = construct_output(vec![OutputContent::Other]);
    assert!(matches!(empty, Err(LLMError::ContentNotFound(m)) if m == "No text or tool call found in output"));
}

fn tool_call_message() -> Message {
    Message::new_tool_call_message(
        Some("thinking".to_string()),
        vec![ToolCall::new("c1".into(), "search".into(), "{\"q\":\"rust\"}".into())],
    )
}

#[test]
fn chat_prompt_preparation() {
    let prompt = vec![Message::new_system_message("sys".into()), tool_call_message()];
    let out = chat_process_prompt(&LLMOptions::new(), prompt);
    assert_eq!(out[0].role, Role::System);
    assert_eq!(out[1].content, "");
    assert!(out[1].tool_calls.is_some());

    let prompt = vec![Message::new_system_message("sys".into()), tool_call_message()];
    let options = LLMOptions::new().with_system_is_assistant(true).with_drop_thought(false);
    let out = chat_process_prompt(&options, prompt);
    assert_eq!(out[0].role, Role::Ai);
    assert_eq!(out[0].content, "sys");
    assert_eq!(out[1].content, "thinking");
}

#[test]
fn generic_prompt_preparation() {
    let prompt = vec![
        Message::new_human_message("hi".into()),
        Message::new_system_message("sys".into()),
        Message::new_system_message("second".into()),
        tool_call_message(),
        Message::new_tool_message(Some("c1".into()), "result".into()),
    ];
    let out = generic_process_prompt(&LLMOptions::new(), Some("\nUse tools."), prompt);
    assert_eq!(out.len(), 5);
    assert_eq!(out[0].content, "hi");
    assert_eq!(out[1].content, "sys\nUse tools.");
    assert_eq!(out[1].role, Role::System);
    assert_eq!(out[2].content, "second");
    assert_eq!(out[3].role, Role::Ai);
    assert!(out[3].tool_calls.is_none());
    assert_eq!(
        out[3].content,
        "```json\n{\"name\": \"search\", \"arguments\": {\"q\":\"rust\"}}\n```\n"
    );
    assert_eq!(out[4].role, Role::Human);
    assert_eq!(out[4].content, "result");

    let options = LLMOptions::new().with_drop_thought(false).with_system_is_assistant(true);
    let out = generic_process_prompt(
        &options,
        None,
        vec![Message::new_system_message("sys".into()), tool_call_message()],
    );
    assert_eq!(out[0].role, Role::Ai);
    assert_eq!(out[0].content, "sys");
    assert_eq!(
        out[1].content,
        "thinking\n```json\n{\"name\": \"search\", \"arguments\": {\"q\":\"rust\"}}\n```\n"
    );
}

#[test]
fn responses_and_legacy_prompt_preparation() {
    let options = LLMOptions::new().with_system_is_assistant(true);
    let out = responses_process_prompt(&options, vec![Message::new_system_message("s".into()), tool_call_message()]);
    assert_eq!(out[0].role, Role::Ai);
    assert_eq!(out[0].content, "s");
    assert_eq!(out[1].content, "thinking");
    let out = responses_process_prompt(&LLMOptions::new(), vec![Message::new_system_message("s".into())]);
    assert_eq!(out[0].role, Role::System);

    let mut system = Message::new_system_message("s".into());
    system.id = Some("x".into());
    let out = legacy_process_prompt(&options, vec![system]);
    assert_eq!(out[0].role, Role::Ai);
    assert_eq!(out[0].content, "s");
    assert!(out[0].id.is_none());
    let out = legacy_process_prompt(&LLMOptions::new(), vec![Message::new_system_message("s".into())]);
    assert_eq!(out[0].role, Role::System);
}

#[test]
fn model_names() {
    assert_eq!(OpenAIModel::Gpt35.as_str(), "gpt-3.5-turbo");
    assert_eq!(OpenAIModel::Gpt4.as_str(), "gpt-4");
    assert_eq!(OpenAIModel::Gpt4Turbo.as_str(), "gpt-4-turbo-preview");
    assert_eq!(OpenAIModel::Gpt4o.to_string(), "gpt-4o");
    assert_eq!(OpenAIModel::Gpt4oMini.to_string(), "gpt-4o-mini");
    for m in [OpenAIModel::Gpt35, OpenAIModel::Gpt4, OpenAIModel::Gpt4Turbo, OpenAIModel::Gpt4o, OpenAIModel::Gpt4oMini] {
        assert_eq!(String::from(m), m.to_string());
    }
    assert_eq!(String::from(OpenAIModel::Gpt4Turbo), "gpt-4-turbo-preview");
}

#[test]
fn error_constructors() {
    assert!(matches!(LLMError::invalid_header("h", "v"), LLMError::InvalidHeader(h, v) if h == "h" && v == "v"));
    assert!(matches!(LLMError::content_not_found("/x"), LLMError::ContentNotFound(m) if m == "/x"));
    assert!(matches!(LLMError::other("oops"), LLMError::Other(m) if m == "oops"));
}

#[test]
fn tool_call_text() {
    let call = ToolCall::new("1".into(), "f".into(), "[1, 2]".into());
    assert_eq!(call.to_string(), "{\"name\": \"f\", \"arguments\": [1, 2]}");
}

#[test]
fn preparing_a_prompt_twice_changes_nothing_more() {
    let options = LLMOptions::new().with_system_is_assistant(true);
    let once = chat_process_prompt(&options, vec![Message::new_system_message("s".into()), tool_call_message()]);
    let twice = chat_process_prompt(&options, chat_process_prompt(&options, vec![Message::new_system_message("s".into()), tool_call_message()]));
    assert_eq!(once.len(), twice.len());
    for (a, b) in once.iter().zip(twice.iter()) {
        assert_eq!(a.role, b.role);
        assert_eq!(a.content, b.content);
    }
}

#[test]
fn stream_pieces_give_usage_or_text() {
    let with_usage = stream_piece(Some(7u32), Some(Some("ignored".to_string()))).unwrap();
    assert_eq!(with_usage, (Some(7), String::new()));
    let text = stream_piece::<u32>(None, Some(Some("Hel".to_string()))).unwrap();
    assert_eq!(text, (None, "Hel".to_string()));
    let null = stream_piece::<u32>(None, Some(None)).unwrap();
    assert_eq!(null, (None, String::new()));
    let missing = stream_piece::<u32>(None, None);
    assert!(matches!(missing, Err(LLMError::ContentNotFound(m)) if m == "/choices/0/delta/content"));
}

#[test]
fn ollama_roles_and_usage() {
    assert_eq!(ollama_role(Role::Ai), OllamaRole::Assistant);
    assert_eq!(ollama_role(Role::Tool), OllamaRole::Assistant);
    assert_eq!(ollama_role(Role::System), OllamaRole::System);
    assert_eq!(ollama_role(Role::Human), OllamaRole::User);
    let usage = ollama_usage(65535, 65535);
    assert_eq!((usage.prompt_tokens, usage.completion_tokens, usage.total_tokens), (65535, 65535, 131070));
}
