use langchain_rust::llm::chat::chat_history::SystemRole;
use langchain_rust::llm::chat::generic_chat::tool_call_message as generic_tool_call_message;
use langchain_rust::llm::chat::messages::{MessageContent, RequestMessage};
use langchain_rust::llm::chat::openai_chat::{choice_outcome, ChoiceOutcome};
use langchain_rust::llm::chat::response::{
    ChatRole, FunctionCall, MessageToolCall, ResponseMessage, ToolType,
};
use langchain_rust::llm::default_session::FORCE_FINAL_ANSWER;
use langchain_rust::llm::{
    DefaultSession, GenericChatSession, LLMError, LLMOptions, OpenAiChatSession, StepBuffer,
};
use langchain_rust::memory::{Memory, SimpleMemory};
use langchain_rust::schemas::{
    LLMEvent, LLMOutput, Message, Role, ToolCall, ToolData, ToolError, ToolOutput,
};

fn call(id: &str, name: &str) -> ToolCall {
    ToolCall::new(id.to_string(), name.to_string(), "{}".to_string())
}

fn text(t: &str) -> Result<ToolOutput, ToolError> {
    Ok(ToolOutput { data: ToolData::Text(t.to_string()) })
}

#[test]
fn step_buffer_keeps_only_answered_calls() {
    let mut buffer: StepBuffer<ToolCall> = StepBuffer::new();
    assert!(matches!(buffer.try_take(), Ok(None)));

    buffer.init_step(Some("thinking".to_string()), vec![call("a", "x"), call("b", "y"), call("c", "z")]);
    buffer.push_result("c", "z", text("third"));
    buffer.push_result("a", "x", text("first"));
    buffer.push_result("b", "y", Err(ToolError::Failed));
    buffer.push_result("a", "x", text("first again"));
    let step = buffer.try_take().unwrap().unwrap();
    assert_eq!(step.thought.as_deref(), Some("thinking"));
    let ids: Vec<&str> = step.calls.iter().map(|c| c.id.as_str()).collect();
    assert_eq!(ids, vec!["a", "c"]);
    assert_eq!(step.results.len(), 2);
    assert_eq!(step.results[0].0, "c");
    assert_eq!(step.results[1].0, "a");
    assert!(matches!(&step.results[1].1 .1, ToolData::Text(t) if t == "first again"));
    // The buffer is empty afterwards.
    assert!(matches!(buffer.try_take(), Ok(None)));
}

#[test]
fn step_buffer_fails_when_every_call_failed() {
    let mut buffer: StepBuffer<ToolCall> = StepBuffer::new();
    buffer.init_step(None, vec![call("a", "x")]);
    buffer.push_result("a", "x", Err(ToolError::ToolNotFound));
    assert_eq!(buffer.try_take().unwrap_err(), ToolError::AllToolsFailed);
    assert!(matches!(buffer.try_take(), Ok(None)));

    // A step without calls gives nothing.
    buffer.init_step(Some("t".to_string()), vec![]);
    assert!(matches!(buffer.try_take(), Ok(None)));
}

#[test]
fn default_session_moves_answered_steps_into_the_history() {
    let prompt = vec![
        Message::new_system_message("be brief".to_string()),
        Message::new_human_message("what is 2+2?".to_string()),
    ];
    let mut session: DefaultSession<()> = DefaultSession::new(prompt, None, LLMOptions::new());
    let output = LLMOutput {
        event: LLMEvent::ToolCall(vec![call("c1", "calc"), call("c2", "calc")]),
        thought: Some("use the calculator".to_string()),
    };
    session.record_output(&output);
    session.add_tool_result("c2", "calc", text("4"));
    session.flush_step_buffer().unwrap();
    let history = session.prompt();
    assert_eq!(history.len(), 4);
    assert_eq!(history[2].role, Role::Ai);
    assert_eq!(history[2].content, "");
    let kept: Vec<&str> =
        history[2].tool_calls.as_ref().unwrap().iter().map(|c| c.id.as_str()).collect();
    assert_eq!(kept, vec!["c2"]);
    assert_eq!(history[3].role, Role::Tool);
    assert_eq!(history[3].id.as_deref(), Some("c2"));
    assert_eq!(history[3].content, "4");

    // Nothing is buffered any more.
    session.flush_step_buffer().unwrap();
    assert_eq!(session.prompt().len(), 4);
}

#[test]
fn default_session_reports_a_step_without_results() {
    let mut session: DefaultSession<()> = DefaultSession::new(vec![], None, LLMOptions::new());
    let output = LLMOutput { event: LLMEvent::ToolCall(vec![call("c1", "calc")]), thought: None };
    session.record_output(&output);
    assert_eq!(session.flush_step_buffer().unwrap_err(), ToolError::AllToolsFailed);
    assert!(session.prompt().is_empty());
}

#[test]
fn default_session_forces_the_final_answer() {
    let mut session: DefaultSession<()> = DefaultSession::new(
        vec![Message::new_tool_call_message(None, vec![call("c", "x")])],
        None,
        LLMOptions::new(),
    );
    session.force_final_answer();
    let history = session.prompt();
    assert_eq!(history.len(), 2);
    assert_eq!(history[0].role, Role::Ai);
    assert!(history[0].tool_calls.is_none());
    assert_eq!(history[1].role, Role::Human);
    assert_eq!(history[1].content, FORCE_FINAL_ANSWER);

    // After a human message an empty AI message is added first.
    session.force_final_answer();
    let history = session.prompt();
    assert_eq!(history.len(), 4);
    assert_eq!(history[2].role, Role::Ai);
    assert_eq!(history[2].content, "");
    assert_eq!(history[3].content, FORCE_FINAL_ANSWER);
}

#[test]
fn default_session_loads_memory_first() {
    let mut memory = SimpleMemory::new();
    memory.add_human_message("earlier".to_string());
    let mut session: DefaultSession<()> = DefaultSession::new(
        vec![Message::new_human_message("now".to_string())],
        None,
        LLMOptions::new(),
    );
    session.load_memory(&memory);
    let history = session.prompt();
    assert_eq!(history.len(), 2);
    assert_eq!(history[0].content, "earlier");
    assert_eq!(history[1].content, "now");
}

fn message_call(id: &str, name: &str, args: &str) -> MessageToolCall {
    MessageToolCall {
        id: id.to_string(),
        kind: ToolType::Function,
        function: FunctionCall { name: name.to_string(), arguments: args.to_string() },
    }
}

fn response_message(
    content: Option<&str>,
    refusal: Option<&str>,
    tool_calls: Option<Vec<MessageToolCall>>,
    function_call: Option<FunctionCall>,
) -> ResponseMessage<()> {
    ResponseMessage {
        role: ChatRole::Assistant,
        content: content.map(str::to_string),
        refusal: refusal.map(str::to_string),
        tool_calls,
        function_call,
        audio: None,
    }
}

#[test]
fn choice_outcome_reads_each_kind_of_message() {
    let refused = choice_outcome(response_message(Some("x"), Some("no"), None, None), "id".into());
    assert!(matches!(refused, Err(LLMError::Refused(r)) if r == "no"));

    let calls = choice_outcome(
        response_message(Some("thinking"), None, Some(vec![message_call("1", "f", "{}")]), None),
        "id".into(),
    );
    match calls {
        Ok(ChoiceOutcome::Calls(content, cs)) => {
            assert_eq!(content.as_deref(), Some("thinking"));
            assert_eq!(cs.len(), 1);
            assert_eq!(cs[0].id, "1");
        }
        other => panic!("unexpected {other:?}"),
    }

    let function = choice_outcome(
        response_message(
            None,
            None,
            None,
            Some(FunctionCall { name: "g".into(), arguments: "{\"a\":1}".into() }),
        ),
        "fresh".into(),
    );
    match function {
        Ok(ChoiceOutcome::Calls(None, cs)) => {
            assert_eq!(cs.len(), 1);
            assert_eq!(cs[0].id, "fresh");
            assert_eq!(cs[0].function.name, "g");
            assert_eq!(cs[0].function.arguments, "{\"a\":1}");
        }
        other => panic!("unexpected {other:?}"),
    }

    let answer = choice_outcome(response_message(Some("42"), None, None, None), "id".into());
    assert!(matches!(answer, Ok(ChoiceOutcome::Answer(t)) if t == "42"));

    let empty = choice_outcome(response_message(None, None, None, None), "id".into());
    assert!(matches!(
        empty,
        Err(LLMError::Other(m)) if m == "Cannot convert LLM generation result to LLMOutput"
    ));
}

#[test]
fn openai_chat_session_splits_the_prompt() {
    let prompt = vec![
        Message::new_system_message("rule one".to_string()),
        Message::new_human_message("question".to_string()),
        Message::new_system_message("rule two".to_string()),
    ];
    let session = OpenAiChatSession::new(prompt, vec!["tool-a"], LLMOptions::new());
    let (history, tools) = session.build_request(&LLMOptions::new());
    assert_eq!(history.role, SystemRole::System);
    assert_eq!(history.role.name(), "system");
    match &history.system.content {
        MessageContent::Array(parts) => assert_eq!(parts, &vec!["rule one", "rule two"]),
        other => panic!("unexpected {other:?}"),
    }
    assert_eq!(history.messages.len(), 1);
    assert!(matches!(&history.messages[0], RequestMessage::User(t) if t == "question"));
    assert_eq!(tools.map(|t| t.len()), Some(1));

    let as_assistant = LLMOptions::new().with_system_is_assistant(true);
    let (history, _) = session.build_request(&as_assistant);
    assert_eq!(history.role, SystemRole::Assistant);
    assert_eq!(history.role.name(), "assistant");

    let no_tools: OpenAiChatSession<&str> = OpenAiChatSession::new(vec![], vec![], LLMOptions::new());
    assert!(no_tools.build_request(&LLMOptions::new()).1.is_none());
}

#[test]
fn openai_chat_session_runs_a_step() {
    let mut session: OpenAiChatSession<&str> = OpenAiChatSession::new(
        vec![Message::new_human_message("weather?".to_string())],
        vec!["weather"],
        LLMOptions::new(),
    );
    let (output, mcp) = session.begin_step(
        Some("checking".to_string()),
        vec![message_call("w1", "weather", "{\"city\":\"Oslo\"}"), message_call("w2", "weather", "{}")],
        &vec![],
    );
    assert!(mcp.is_empty());
    assert_eq!(output.thought.as_deref(), Some("checking"));
    match &output.event {
        LLMEvent::ToolCall(calls) => {
            assert_eq!(calls.len(), 2);
            assert_eq!(calls[0].id, "w1");
            assert_eq!(calls[0].name, "weather");
            assert_eq!(calls[0].arguments, "{\"city\":\"Oslo\"}");
        }
        other => panic!("unexpected {other:?}"),
    }
    session.add_tool_result("w1", "weather", text("sunny"));
    session.add_tool_result("w2", "weather", Err(ToolError::Failed));

    // Thoughts are dropped unless the options keep them.
    let keep = LLMOptions::new().with_drop_thought(false);
    session.flush_step_buffer(&keep).unwrap();
    let (history, _) = session.build_request(&LLMOptions::new());
    assert_eq!(history.messages.len(), 3);
    match &history.messages[1] {
        RequestMessage::Assistant { content, tool_calls } => {
            assert_eq!(content.as_deref(), Some("checking"));
            let ids: Vec<&str> = tool_calls.as_ref().unwrap().iter().map(|c| c.id.as_str()).collect();
            assert_eq!(ids, vec!["w1"]);
        }
        other => panic!("unexpected {other:?}"),
    }
    match &history.messages[2] {
        RequestMessage::Tool { tool_call_id, content: MessageContent::Text(t) } => {
            assert_eq!(tool_call_id, "w1");
            assert_eq!(t, "sunny");
        }
        other => panic!("unexpected {other:?}"),
    }
}

#[test]
fn openai_chat_session_drops_thoughts_by_default() {
    let mut session: OpenAiChatSession<&str> = OpenAiChatSession::new(vec![], vec![], LLMOptions::new());
    session.begin_step(Some("hmm".to_string()), vec![message_call("1", "f", "{}")], &vec![]);
    session.add_tool_result("1", "f", Ok(ToolOutput { data: ToolData::List(vec!["a".into(), "b".into()]) }));
    session.flush_step_buffer(&LLMOptions::new()).unwrap();
    let (history, _) = session.build_request(&LLMOptions::new());
    assert!(matches!(&history.messages[0], RequestMessage::Assistant { content: None, .. }));
    match &history.messages[1] {
        RequestMessage::Tool { content: MessageContent::Array(parts), .. } => {
            assert_eq!(parts, &vec!["a", "b"]);
        }
        other => panic!("unexpected {other:?}"),
    }
}

#[test]
fn openai_chat_session_forces_the_final_answer() {
    let mut session: OpenAiChatSession<&str> = OpenAiChatSession::new(vec![], vec![], LLMOptions::new());
    session.begin_step(None, vec![message_call("1", "f", "{}")], &vec![]);
    session.add_tool_result("1", "f", text("done"));
    session.flush_step_buffer(&LLMOptions::new()).unwrap();
    session.force_final_answer();
    let (history, _) = session.build_request(&LLMOptions::new());
    assert_eq!(history.messages.len(), 4);
    assert!(matches!(&history.messages[2], RequestMessage::Assistant { content: Some(c), tool_calls: None } if c.is_empty()));
    assert!(matches!(&history.messages[3], RequestMessage::User(t) if t == FORCE_FINAL_ANSWER));
}

#[test]
fn openai_chat_session_withholds_tools_once_the_answer_is_forced() {
    let mut session: OpenAiChatSession<&str> = OpenAiChatSession::new(vec![], vec!["tool-a"], LLMOptions::new());
    assert!(session.build_request(&LLMOptions::new()).1.is_some());
    session.force_final_answer();
    assert!(session.build_request(&LLMOptions::new()).1.is_none());
}

#[test]
fn openai_chat_session_runs_mcp_calls_apart() {
    let mut session: OpenAiChatSession<&str> = OpenAiChatSession::new(vec![], vec!["weather"], LLMOptions::new());
    let (output, mcp) = session.begin_step(
        None,
        vec![
            message_call("w1", "weather", "{}"),
            message_call("s1", "search", "{\"q\":\"x\"}"),
            message_call("w2", "weather", "{}"),
        ],
        &vec!["search".to_string()],
    );
    let local: Vec<&str> = match &output.event {
        LLMEvent::ToolCall(calls) => calls.iter().map(|c| c.id.as_str()).collect(),
        other => panic!("unexpected {other:?}"),
    };
    assert_eq!(local, vec!["w1", "w2"]);
    assert_eq!(mcp.len(), 1);
    assert_eq!(mcp[0].id, "s1");
    assert_eq!(mcp[0].name, "search");
    assert_eq!(mcp[0].arguments, "{\"q\":\"x\"}");
    session.record_tool_results(vec![("s1".to_string(), "search".to_string(), text("found"))]);
    session.add_tool_result("w1", "weather", text("sunny"));
    session.flush_step_buffer(&LLMOptions::new()).unwrap();
    let (history, _) = session.build_request(&LLMOptions::new());
    assert_eq!(history.messages.len(), 3);
    match &history.messages[0] {
        RequestMessage::Assistant { tool_calls, .. } => {
            let ids: Vec<&str> = tool_calls.as_ref().unwrap().iter().map(|c| c.id.as_str()).collect();
            assert_eq!(ids, vec!["w1", "s1"]);
        }
        other => panic!("unexpected {other:?}"),
    }
    assert!(matches!(&history.messages[1], RequestMessage::Tool { tool_call_id, .. } if tool_call_id == "s1"));
    assert!(matches!(&history.messages[2], RequestMessage::Tool { tool_call_id, .. } if tool_call_id == "w1"));
}

#[test]
fn openai_chat_session_loads_memory_first() {
    let mut memory = SimpleMemory::new();
    memory.add_ai_message("from before".to_string());
    let mut session: OpenAiChatSession<&str> = OpenAiChatSession::new(
        vec![Message::new_human_message("now".to_string())],
        vec![],
        LLMOptions::new(),
    );
    session.load_memory(&memory);
    let (history, _) = session.build_request(&LLMOptions::new());
    assert_eq!(history.messages.len(), 2);
    assert!(matches!(&history.messages[0], RequestMessage::Assistant { content: Some(c), tool_calls: None } if c == "from before"));
    assert!(matches!(&history.messages[1], RequestMessage::User(t) if t == "now"));
}

#[test]
fn generic_tool_call_message_writes_the_calls_out() {
    let one = generic_tool_call_message(Some("thinking".into()), vec![call("1", "f")]);
    assert!(matches!(
        one,
        RequestMessage::Assistant { content: Some(c), tool_calls: None }
            if c == "thinking\n```json\n{\"name\": \"f\", \"arguments\": {}}\n```"
    ));
    let two = generic_tool_call_message(None, vec![call("1", "f"), call("2", "g")]);
    assert!(matches!(
        two,
        RequestMessage::Assistant { content: Some(c), tool_calls: None }
            if c == "```json\n[\n    {\"name\": \"f\", \"arguments\": {}}\n    {\"name\": \"g\", \"arguments\": {}}\n]\n```"
    ));
}

#[test]
fn generic_chat_session_runs_a_step() {
    let prompt = vec![
        Message::new_system_message("rules".to_string()),
        Message::new_human_message("q".to_string()),
    ];
    let mut session = GenericChatSession::new(prompt, Some("TOOLS".to_string()), LLMOptions::new());
    let history = session.build_request(&LLMOptions::new());
    assert!(matches!(&history.system.content, MessageContent::Text(t) if t == "rules\nTOOLS"));
    assert_eq!(history.messages.len(), 1);

    let output = LLMOutput {
        event: LLMEvent::ToolCall(vec![call("c1", "f"), call("c2", "g")]),
        thought: Some("plan".to_string()),
    };
    let (output, mcp) = session.record_output(output, &vec![]);
    assert!(mcp.is_empty());
    assert!(matches!(&output.event, LLMEvent::ToolCall(calls) if calls.len() == 2));
    session.add_tool_result("c1", "f", text("one"));
    session.add_tool_result("c2", "g", Err(ToolError::Failed));
    session.flush_step_buffer(&LLMOptions::new()).unwrap();
    let history = session.build_request(&LLMOptions::new());
    assert_eq!(history.messages.len(), 3);
    assert!(matches!(
        &history.messages[1],
        RequestMessage::Assistant { content: Some(c), tool_calls: None }
            if c == "```json\n{\"name\": \"f\", \"arguments\": {}}\n```"
    ));
    assert!(matches!(&history.messages[2], RequestMessage::User(t) if t == "one"));

    session.force_final_answer();
    let history = session.build_request(&LLMOptions::new());
    assert_eq!(history.messages.len(), 5);
    assert!(matches!(&history.messages[4], RequestMessage::User(t) if t == FORCE_FINAL_ANSWER));
    // Once the final answer is forced, the tool-use instruction is left out.
    assert!(matches!(&history.system.content, MessageContent::Text(t) if t == "rules"));
}

#[test]
fn generic_chat_session_hands_mcp_calls_back() {
    let mut session = GenericChatSession::new(vec![], Some("TOOLS".to_string()), LLMOptions::new());
    let output = LLMOutput {
        event: LLMEvent::ToolCall(vec![call("c1", "search"), call("c2", "f"), call("c3", "search")]),
        thought: None,
    };
    let (output, mcp) = session.record_output(output, &vec!["search".to_string()]);
    let local: Vec<&str> = match &output.event {
        LLMEvent::ToolCall(calls) => calls.iter().map(|c| c.id.as_str()).collect(),
        other => panic!("unexpected {other:?}"),
    };
    assert_eq!(local, vec!["c2"]);
    let remote: Vec<&str> = mcp.iter().map(|c| c.id.as_str()).collect();
    assert_eq!(remote, vec!["c1", "c3"]);
    session.record_tool_results(vec![
        ("c1".to_string(), "search".to_string(), text("found")),
        ("c3".to_string(), "search".to_string(), Err(ToolError::Failed)),
    ]);
    session.flush_step_buffer(&LLMOptions::new()).unwrap();
    let history = session.build_request(&LLMOptions::new());
    assert_eq!(history.messages.len(), 2);
    assert!(matches!(&history.messages[1], RequestMessage::User(t) if t == "found"));

    // Text is handed back as it is.
    let answer = LLMOutput { event: LLMEvent::Text("done".to_string()), thought: None };
    let (answer, mcp) = session.record_output(answer, &vec!["search".to_string()]);
    assert!(mcp.is_empty());
    assert!(matches!(answer.event, LLMEvent::Text(t) if t == "done"));
}

#[test]
fn generic_chat_session_without_tools_keeps_the_plain_system_message() {
    let session = GenericChatSession::new(
        vec![Message::new_system_message("a".into()), Message::new_system_message("b".into())],
        None,
        LLMOptions::new(),
    );
    let history = session.build_request(&LLMOptions::new().with_system_is_assistant(true));
    assert_eq!(history.role, SystemRole::Assistant);
    assert!(matches!(&history.system.content, MessageContent::Array(v) if v == &vec!["a", "b"]));
    assert!(history.messages.is_empty());
}
