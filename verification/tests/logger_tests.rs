use jean::logger::{encode_entry, entry_for_chunk, entry_for_connection_status, entry_for_message,
    tool_execution_entry, ConversationEntry, EntryType};
use jean::msg::{ChatMessage, MessageRole, StreamChunk};

fn turn(role: MessageRole, content: &str) -> ChatMessage {
    ChatMessage { role, content: content.to_string(), tool_call_id: None, tool_calls: None }
}

#[test]
fn classification_by_role_and_marker() {
    assert!(matches!(
        entry_for_message(&turn(MessageRole::User, "hi")),
        EntryType::UserMessage { .. }
    ));
    assert!(matches!(
        entry_for_message(&turn(MessageRole::Assistant, "ok")),
        EntryType::AssistantMessage { .. }
    ));
    assert!(matches!(
        entry_for_message(&turn(MessageRole::System, "plain note")),
        EntryType::SystemMessage { .. }
    ));
    assert!(matches!(
        entry_for_message(&turn(MessageRole::System, "[ToolInfo] calling")),
        EntryType::ToolInfo { .. }
    ));
    let mut tool = turn(MessageRole::Tool, "result");
    tool.tool_call_id = Some("t1".to_string());
    match entry_for_message(&tool) {
        EntryType::ToolResult { id, content } => {
            assert_eq!(id, "t1");
            assert_eq!(content, "result");
        },
        _ => panic!("expected a tool result record"),
    }
    // an unlinked tool turn records the empty identifier
    let unlinked = turn(MessageRole::Tool, "r");
    match entry_for_message(&unlinked) {
        EntryType::ToolResult { id, .. } => assert_eq!(id, ""),
        _ => panic!("expected a tool result record"),
    }
}

#[test]
fn streamed_text_is_not_recorded() {
    assert!(entry_for_chunk(&StreamChunk::Text { delta: "x".to_string(), done: false }).is_none());
    assert!(entry_for_chunk(&StreamChunk::ToolCall {
        id: "1".to_string(),
        name: "grep".to_string(),
        arguments: "{}".to_string(),
    })
    .is_some());
    assert!(entry_for_chunk(&StreamChunk::ToolResult {
        id: "1".to_string(),
        content: "x".to_string(),
    })
    .is_some());
}

#[test]
fn statuses_leave_no_record() {
    assert!(entry_for_connection_status("Connected").is_none());
}

#[test]
fn tool_execution_record_tags_the_name() {
    match tool_execution_entry("t1", "read_file", "contents") {
        EntryType::ToolResult { id, content } => {
            assert_eq!(id, "t1");
            assert_eq!(content, "[read_file] contents");
        },
        _ => panic!("expected a tool result record"),
    }
}

#[test]
fn entry_line_rendering() {
    let e = ConversationEntry {
        timestamp: "2024-01-02T03:04:05Z".to_string(),
        entry_type: EntryType::UserMessage { content: "say \"hi\"".to_string() },
    };
    assert_eq!(
        encode_entry(&e),
        "{\"timestamp\":\"2024-01-02T03:04:05Z\",\"entry_type\":{\"type\":\"UserMessage\",\"content\":\"say \\\"hi\\\"\"}}"
    );
    let e = ConversationEntry {
        timestamp: "t".to_string(),
        entry_type: EntryType::ToolCall {
            id: "1".to_string(),
            name: "grep".to_string(),
            arguments: "{}".to_string(),
        },
    };
    assert_eq!(
        encode_entry(&e),
        "{\"timestamp\":\"t\",\"entry_type\":{\"type\":\"ToolCall\",\"id\":\"1\",\"name\":\"grep\",\"arguments\":\"{}\"}}"
    );
}
