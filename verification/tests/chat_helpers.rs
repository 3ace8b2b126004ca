use langchain_rust::llm::chat::helper::{
    add_option_numbers, aggregate_choice, best_choice_position, merge_usage, partition_mcp_calls,
    select_choice, ChoiceRanking, ResponseAccumulator,
};
use langchain_rust::llm::chat::messages::{
    add_force_final_answer_message, append_system, assistant_message, system_message,
    tool_call_message, tool_message, user_message, MessageContent, RequestMessage,
};
use langchain_rust::llm::chat::response::{
    ChatChoice, ChatChoiceStream, ChatRole, ChatStreamChunk, CompletionTokensDetails,
    CompletionUsage, FinishReason, FunctionCall, FunctionCallStream, MessageToolCall,
    PromptTokensDetails, ResponseMessage, StreamDelta, ToolCallChunk, ToolType,
};
use langchain_rust::llm::default_session::FORCE_FINAL_ANSWER;
use langchain_rust::llm::openai::helper::select_choice as pick;
use langchain_rust::llm::LLMError;
use langchain_rust::schemas::{ToolCall, ToolData};

fn usage(p: u32, c: u32, cached: Option<u32>) -> CompletionUsage {
    CompletionUsage {
        prompt_tokens: p,
        completion_tokens: c,
        total_tokens: p + c,
        prompt_tokens_details: Some(PromptTokensDetails { audio_tokens: None, cached_tokens: cached }),
        completion_tokens_details: None,
    }
}

#[test]
fn option_numbers_add_present_counts() {
    assert_eq!(add_option_numbers(Some(2), Some(3)), Some(5));
    assert_eq!(add_option_numbers(None, Some(3)), Some(3));
    assert_eq!(add_option_numbers(Some(4), None), Some(4));
    assert_eq!(add_option_numbers(None, None), None);
}

#[test]
fn usages_are_summed_field_by_field() {
    let a = usage(10, 5, Some(2));
    let b = usage(1, 2, None);
    let merged = merge_usage(Some(a), Some(b)).unwrap();
    assert_eq!(merged.prompt_tokens, 11);
    assert_eq!(merged.completion_tokens, 7);
    assert_eq!(merged.total_tokens, 18);
    assert_eq!(
        merged.prompt_tokens_details,
        Some(PromptTokensDetails { audio_tokens: None, cached_tokens: Some(2) })
    );
    assert_eq!(merge_usage(None, Some(b)), Some(b));
    assert_eq!(merge_usage(Some(a), None), Some(a));
    assert_eq!(merge_usage(None, None), None);
    // Merging is commutative.
    assert_eq!(merge_usage(Some(a), Some(b)), merge_usage(Some(b), Some(a)));
    let details = CompletionTokensDetails {
        accepted_prediction_tokens: Some(1),
        audio_tokens: None,
        reasoning_tokens: Some(3),
        rejected_prediction_tokens: None,
    };
    let c = CompletionUsage { completion_tokens_details: Some(details), ..a };
    let merged = merge_usage(Some(c), Some(c)).unwrap();
    assert_eq!(
        merged.completion_tokens_details,
        Some(CompletionTokensDetails {
            accepted_prediction_tokens: Some(2),
            audio_tokens: None,
            reasoning_tokens: Some(6),
            rejected_prediction_tokens: None,
        })
    );
}

fn empty_choice(index: u32) -> ChatChoice<(), ()> {
    ChatChoice {
        index,
        message: ResponseMessage {
            role: ChatRole::Assistant,
            content: None,
            refusal: None,
            tool_calls: None,
            function_call: None,
            audio: None,
        },
        finish_reason: None,
        logprobs: None,
    }
}

fn delta() -> StreamDelta {
    StreamDelta { content: None, function_call: None, tool_calls: None, role: None, refusal: None }
}

#[test]
fn streamed_pieces_build_up_a_choice() {
    let mut choice = empty_choice(0);
    aggregate_choice(
        &mut choice,
        ChatChoiceStream {
            index: 0,
            delta: StreamDelta { content: Some("Hel".into()), role: Some(ChatRole::Assistant), ..delta() },
            finish_reason: None,
            logprobs: None,
        },
    );
    aggregate_choice(
        &mut choice,
        ChatChoiceStream {
            index: 0,
            delta: StreamDelta {
                content: Some("lo".into()),
                tool_calls: Some(vec![ToolCallChunk {
                    index: 1,
                    id: Some("call-1".into()),
                    kind: Some(ToolType::Function),
                    function: Some(FunctionCallStream { name: Some("f".into()), arguments: Some("{\"a\"".into()) }),
                }]),
                ..delta()
            },
            finish_reason: None,
            logprobs: None,
        },
    );
    aggregate_choice(
        &mut choice,
        ChatChoiceStream {
            index: 0,
            delta: StreamDelta {
                tool_calls: Some(vec![ToolCallChunk {
                    index: 1,
                    id: None,
                    kind: None,
                    function: Some(FunctionCallStream { name: None, arguments: Some(": 1}".into()) }),
                }]),
                refusal: Some("no".into()),
                ..delta()
            },
            finish_reason: Some(FinishReason::ToolCalls),
            logprobs: None,
        },
    );
    assert_eq!(choice.message.content.as_deref(), Some("Hello"));
    assert_eq!(choice.message.refusal.as_deref(), Some("no"));
    assert_eq!(choice.finish_reason, Some(FinishReason::ToolCalls));
    let calls = choice.message.tool_calls.as_ref().unwrap();
    assert_eq!(calls.len(), 2);
    assert_eq!(calls[0].id, "");
    assert_eq!(calls[0].function.name, "");
    assert_eq!(calls[1].id, "call-1");
    assert_eq!(calls[1].function.name, "f");
    assert_eq!(calls[1].function.arguments, "{\"a\": 1}");
}

fn finished(index: u32, reason: Option<FinishReason>) -> ChatChoice<(), ()> {
    ChatChoice { finish_reason: reason, ..empty_choice(index) }
}

#[test]
fn select_choice_prefers_complete_answers() {
    let choices = vec![
        finished(0, Some(FinishReason::Length)),
        finished(1, None),
        finished(2, Some(FinishReason::Stop)),
        finished(3, Some(FinishReason::Stop)),
    ];
    assert_eq!(select_choice(choices).unwrap().index, 2);

    let mut with_calls = finished(5, Some(FinishReason::ToolCalls));
    with_calls.message.tool_calls = Some(vec![MessageToolCall {
        id: "c".into(),
        kind: ToolType::Function,
        function: FunctionCall { name: "f".into(), arguments: "{}".into() },
    }]);
    let choices = vec![finished(0, Some(FinishReason::ContentFilter)), with_calls, finished(1, Some(FinishReason::ToolCalls))];
    assert_eq!(select_choice(choices).unwrap().index, 5);

    // Equal ranks go to the lowest index.
    let choices = vec![finished(4, None), finished(1, None)];
    assert_eq!(select_choice(choices).unwrap().index, 1);
    assert_eq!(
        best_choice_position(ChoiceRanking::AvoidTruncated, &vec![finished(0, Some(FinishReason::Length)), finished(1, None)]),
        1
    );
}

#[test]
fn select_choice_fails_without_choices() {
    match select_choice::<(), ()>(vec![]) {
        Err(LLMError::ContentNotFound(m)) => assert_eq!(m, "No choices."),
        other => panic!("unexpected {other:?}"),
    }
}

#[test]
fn select_choice_without_error_gives_none_for_no_choices() {
    assert!(pick::<(), ()>(vec![]).is_none());
    let picked = pick(vec![finished(0, Some(FinishReason::Length)), finished(1, Some(FinishReason::Stop))]);
    assert_eq!(picked.unwrap().index, 1);
}

fn chunk(id: &str, choices: Vec<ChatChoiceStream<()>>, usage: Option<CompletionUsage>) -> ChatStreamChunk<(), ()> {
    ChatStreamChunk {
        id: id.into(),
        choices,
        created: 7,
        model: "m".into(),
        service_tier: None,
        system_fingerprint: None,
        object: "chat.completion.chunk".into(),
        usage,
    }
}

fn piece(index: u32, text: &str, finish: Option<FinishReason>) -> ChatChoiceStream<()> {
    ChatChoiceStream {
        index,
        delta: StreamDelta { content: Some(text.into()), ..delta() },
        finish_reason: finish,
        logprobs: None,
    }
}

#[test]
fn accumulator_rebuilds_a_streamed_response() {
    let mut acc: ResponseAccumulator<(), (), ()> = ResponseAccumulator::new();
    acc.add_chunk(chunk("r1", vec![piece(0, "Hi", None), piece(1, "Yo", None)], None));
    acc.add_chunk(chunk("ignored", vec![piece(0, " there", Some(FinishReason::Stop))], None));
    acc.add_chunk(chunk("ignored", vec![], Some(usage(3, 4, None))));
    let response = acc.finish();
    assert_eq!(response.id, "r1");
    assert_eq!(response.created, 7);
    assert_eq!(response.model, "m");
    assert_eq!(response.choices.len(), 2);
    assert_eq!(response.choices[0].index, 0);
    assert_eq!(response.choices[0].message.content.as_deref(), Some("Hi there"));
    assert_eq!(response.choices[0].finish_reason, Some(FinishReason::Stop));
    assert_eq!(response.choices[1].message.content.as_deref(), Some("Yo"));
    assert_eq!(response.usage.map(|u| u.total_tokens), Some(7));
}

#[test]
fn request_messages_are_built_as_documented() {
    let single = system_message(vec!["only".to_string()]);
    assert!(matches!(&single.content, MessageContent::Text(t) if t == "only"));
    assert!(single.name.is_none());
    let several = system_message(vec!["a".to_string(), "b".to_string()]);
    assert!(matches!(&several.content, MessageContent::Array(v) if v == &vec!["a", "b"]));
    let none = system_message(vec![]);
    assert!(matches!(&none.content, MessageContent::Array(v) if v.is_empty()));

    let appended = append_system(single, "more".to_string());
    assert!(matches!(&appended.content, MessageContent::Text(t) if t == "only\nmore"));
    let appended = append_system(several, "c".to_string());
    assert!(matches!(&appended.content, MessageContent::Array(v) if v == &vec!["a", "b", "c"]));

    assert!(matches!(user_message("u".into()), RequestMessage::User(t) if t == "u"));
    assert!(matches!(
        assistant_message("x".into()),
        RequestMessage::Assistant { content: Some(t), tool_calls: None } if t == "x"
    ));
    assert!(matches!(
        tool_message("id-1", ToolData::Text("out".into())),
        RequestMessage::Tool { tool_call_id, content: MessageContent::Text(t) } if tool_call_id == "id-1" && t == "out"
    ));
    let calls = vec![MessageToolCall {
        id: "c".into(),
        kind: ToolType::Function,
        function: FunctionCall { name: "f".into(), arguments: "{}".into() },
    }];
    assert!(matches!(
        tool_call_message(None, calls),
        RequestMessage::Assistant { content: None, tool_calls: Some(cs) } if cs.len() == 1
    ));
}

#[test]
fn forcing_the_final_answer_closes_a_pending_step() {
    let mut messages = vec![user_message("q".into())];
    add_force_final_answer_message(&mut messages);
    assert_eq!(messages.len(), 3);
    assert!(matches!(&messages[1], RequestMessage::Assistant { content: Some(c), tool_calls: None } if c.is_empty()));
    assert!(matches!(&messages[2], RequestMessage::User(t) if t == FORCE_FINAL_ANSWER));

    let mut messages = vec![assistant_message("done".into())];
    add_force_final_answer_message(&mut messages);
    assert_eq!(messages.len(), 2);
    assert!(matches!(&messages[0], RequestMessage::Assistant { content: Some(c), .. } if c == "done"));

    let mut messages = vec![tool_call_message(Some("t".into()), vec![])];
    add_force_final_answer_message(&mut messages);
    assert_eq!(messages.len(), 2);
    assert!(matches!(&messages[0], RequestMessage::Assistant { content: Some(c), tool_calls: None } if c.is_empty()));
}

#[test]
fn mcp_calls_are_split_from_local_calls() {
    let calls = vec![
        ToolCall::new("1".into(), "remote".into(), "{}".into()),
        ToolCall::new("2".into(), "local".into(), "{}".into()),
        ToolCall::new("3".into(), "remote".into(), "{}".into()),
    ];
    let (mcp, rest) = partition_mcp_calls(calls, &vec!["remote".to_string(), "other".to_string()]);
    let ids = |v: &Vec<ToolCall>| v.iter().map(|c| c.id.clone()).collect::<Vec<_>>();
    assert_eq!(ids(&mcp), vec!["1", "3"]);
    assert_eq!(ids(&rest), vec!["2"]);
}

#[test]
fn merging_usages_does_not_depend_on_grouping() {
    let a = usage(1, 2, Some(1));
    let b = usage(3, 4, None);
    let c = usage(5, 6, Some(2));
    let left = merge_usage(merge_usage(Some(a), Some(b)), Some(c));
    let right = merge_usage(Some(a), merge_usage(Some(b), Some(c)));
    assert_eq!(left, right);
    assert_eq!(left.unwrap().total_tokens, 21);
}
