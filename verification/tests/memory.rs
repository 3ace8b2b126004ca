use langchain_rust::memory::{DummyMemory, Memory, SimpleMemory, WindowBufferMemory};
use langchain_rust::schemas::{Message, Role, ToolCall};

fn contents(messages: &[Message]) -> Vec<String> {
    messages.iter().map(|m| m.content.clone()).collect()
}

#[test]
fn simple_memory_keeps_every_message_in_order() {
    let mut memory = SimpleMemory::new();
    memory.add_human_message("hello".to_string());
    memory.add_ai_message("hi there".to_string());
    memory.add_messages(vec![
        Message::new_human_message("how are you?".to_string()),
        Message::new_ai_message("fine".to_string()),
    ]);
    let stored = memory.messages();
    assert_eq!(contents(&stored), vec!["hello", "hi there", "how are you?", "fine"]);
    assert_eq!(stored[0].role, Role::Human);
    assert_eq!(stored[1].role, Role::Ai);
    assert_eq!(memory.to_string(), "human: hello\nai: hi there\nhuman: how are you?\nai: fine");
    memory.clear();
    assert!(memory.messages().is_empty());
    assert_eq!(memory.to_string(), "");
}

#[test]
fn simple_memory_records_tool_messages() {
    let mut memory = SimpleMemory::default();
    let call = ToolCall::new("call-1".to_string(), "search".to_string(), "{}".to_string());
    memory.add_tool_call_message(Some("let me look".to_string()), vec![call]);
    memory.add_tool_message(Some("call-1".to_string()), "found it".to_string());
    let stored = memory.messages();
    assert_eq!(stored[0].role, Role::Ai);
    assert_eq!(stored[0].content, "let me look");
    assert_eq!(stored[0].tool_calls.as_ref().map(|c| c.len()), Some(1));
    assert_eq!(stored[1].role, Role::Tool);
    assert_eq!(stored[1].id.as_deref(), Some("call-1"));
    assert_eq!(memory.to_string(), "ai: let me look\ntool: found it");
}

#[test]
fn window_memory_keeps_the_latest_messages() {
    let mut memory = WindowBufferMemory::new(2);
    memory.add_human_message("one".to_string());
    memory.add_ai_message("two".to_string());
    memory.add_human_message("three".to_string());
    assert_eq!(contents(&memory.messages()), vec!["two", "three"]);
    memory.add_messages(vec![
        Message::new_ai_message("four".to_string()),
        Message::new_human_message("five".to_string()),
        Message::new_ai_message("six".to_string()),
    ]);
    assert_eq!(contents(&memory.messages()), vec!["five", "six"]);
    assert_eq!(memory.to_string(), "human: five\nai: six");
    memory.clear();
    assert!(memory.messages().is_empty());
}

#[test]
fn window_memory_never_exceeds_its_size() {
    let mut memory = WindowBufferMemory::default();
    for i in 0..25 {
        memory.add_human_message(format!("message {i}"));
        assert!(memory.messages().len() <= 10);
    }
    let stored = memory.messages();
    assert_eq!(stored.len(), 10);
    assert_eq!(stored[0].content, "message 15");
    assert_eq!(stored[9].content, "message 24");
}

#[test]
fn dummy_memory_holds_nothing() {
    let mut memory = DummyMemory::new();
    memory.add_human_message("ignored".to_string());
    memory.add_messages(vec![Message::new_system_message("also ignored".to_string())]);
    assert!(memory.messages().is_empty());
    assert_eq!(memory.to_string(), "");
    let other = DummyMemory::default();
    assert!(other.messages().is_empty());
}

#[test]
fn window_memory_of_size_zero_keeps_nothing() {
    let mut memory = WindowBufferMemory::new(0);
    memory.add_message(Message::new_human_message("hi".to_string()));
    assert!(memory.messages().is_empty());
    memory.add_messages(vec![Message::new_ai_message("a".to_string()), Message::new_ai_message("b".to_string())]);
    assert!(memory.messages().is_empty());
    assert_eq!(memory.to_string(), "");
}

#[test]
fn window_memory_holds_the_latest_since_it_was_cleared() {
    let mut memory = WindowBufferMemory::new(3);
    memory.add_human_message("old".to_string());
    memory.clear();
    let added: Vec<String> = (0..5).map(|i| format!("m{i}")).collect();
    for m in &added {
        memory.add_human_message(m.clone());
    }
    assert_eq!(contents(&memory.messages()), added[added.len().saturating_sub(3)..].to_vec());
}
