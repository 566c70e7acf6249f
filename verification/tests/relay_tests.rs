use jean::msg::{ChatMessage, ClientChatRequest, MessageRole, StreamChunk};
use jean::relay::{collect_response_text, RelaySession, RelayState};

fn user_turn(content: &str) -> ChatMessage {
    ChatMessage {
        role: MessageRole::User,
        content: content.to_string(),
        tool_call_id: None,
        tool_calls: None,
    }
}

fn text(delta: &str, done: bool) -> StreamChunk {
    StreamChunk::Text { delta: delta.to_string(), done }
}

#[test]
fn happy_path_round() {
    let mut s = RelaySession::new();
    let out = s.on_chat_request(ClientChatRequest { messages: vec![user_turn("hi")] });
    assert!(out.invoke_completion);
    assert!(out.frames.is_empty());
    assert!(matches!(s.state, RelayState::Streaming));
    assert_eq!(s.transcript.len(), 1);

    for chunk in [text("Hel", false), text("lo", false), text("", true)] {
        let out = s.on_completion_event(chunk);
        assert_eq!(out.frames.len(), 1);
        assert!(!out.invoke_completion);
    }
    assert!(matches!(s.state, RelayState::Idle));
    assert_eq!(s.transcript.len(), 2);
    assert!(matches!(s.transcript[1].role, MessageRole::Assistant));
    assert_eq!(s.transcript[1].content, "Hello");
    assert!(s.transcript[1].tool_calls.is_none());
}

#[test]
fn empty_round_appends_nothing() {
    let mut s = RelaySession::new();
    s.on_chat_request(ClientChatRequest { messages: vec![user_turn("hi")] });
    s.on_completion_event(text("", true));
    assert!(matches!(s.state, RelayState::Idle));
    assert_eq!(s.transcript.len(), 1);
}

#[test]
fn tool_round_trip_ordering() {
    let mut s = RelaySession::new();
    s.on_chat_request(ClientChatRequest { messages: vec![user_turn("read a.txt")] });
    s.on_completion_event(StreamChunk::ToolCall {
        id: "t1".to_string(),
        name: "read_file".to_string(),
        arguments: "{\"filename\":\"a.txt\"}".to_string(),
    });
    s.on_completion_event(text("", true));
    assert!(matches!(s.state, RelayState::AwaitingToolResults));
    assert_eq!(s.transcript.len(), 2);
    assert!(matches!(s.transcript[1].role, MessageRole::Assistant));
    assert_eq!(s.transcript[1].content, "");
    let calls = s.transcript[1].tool_calls.as_ref().unwrap();
    assert_eq!(calls.len(), 1);
    assert_eq!(calls[0].id, "t1");

    let out = s.on_tool_result("t1".to_string(), "R".to_string());
    assert!(out.invoke_completion);
    assert!(matches!(s.state, RelayState::Streaming));
    assert_eq!(s.transcript.len(), 3);
    assert!(matches!(s.transcript[2].role, MessageRole::Tool));
    assert_eq!(s.transcript[2].tool_call_id.as_deref(), Some("t1"));
    assert_eq!(s.transcript[2].content, "R");

    for chunk in [text("done!", false), text("", true)] {
        s.on_completion_event(chunk);
    }
    assert!(matches!(s.state, RelayState::Idle));
    assert_eq!(s.transcript.len(), 4);
    assert_eq!(s.transcript[3].content, "done!");
}

#[test]
fn tool_calls_win_over_buffered_text() {
    let mut s = RelaySession::new();
    s.on_chat_request(ClientChatRequest { messages: vec![user_turn("go")] });
    s.on_completion_event(text("thinking", false));
    s.on_completion_event(StreamChunk::ToolCall {
        id: "a".to_string(),
        name: "grep".to_string(),
        arguments: "{}".to_string(),
    });
    s.on_completion_event(text("", true));
    assert_eq!(s.transcript.len(), 2);
    assert_eq!(s.transcript[1].content, "");
    assert!(s.transcript[1].tool_calls.is_some());
}

#[test]
fn malformed_frame_is_answered_and_session_survives() {
    let mut s = RelaySession::new();
    let out = s.on_client_text("this is not a frame");
    assert!(!out.invoke_completion);
    assert_eq!(out.frames.len(), 1);
    match &out.frames[0] {
        StreamChunk::Text { delta, done } => {
            assert!(delta.starts_with("Invalid request format"));
            assert!(*done);
        },
        _ => panic!("expected a text frame"),
    }
    assert!(s.transcript.is_empty());
    assert!(matches!(s.state, RelayState::Idle));

    let out = s.on_client_text(
        "{\"type\":\"chat_request\",\"messages\":[{\"role\":\"user\",\"content\":\"hi\",\"tool_call_id\":null,\"tool_calls\":null}]}",
    );
    assert!(out.invoke_completion);
    assert_eq!(s.transcript.len(), 1);
    assert_eq!(s.transcript[0].content, "hi");
}

#[test]
fn completion_error_prefixes() {
    let mut s = RelaySession::new();
    s.on_chat_request(ClientChatRequest { messages: vec![user_turn("hi")] });
    let out = s.on_completion_error("service down");
    assert_eq!(out.frames.len(), 1);
    match &out.frames[0] {
        StreamChunk::Text { delta, done } => {
            assert_eq!(delta, "Error: service down");
            assert!(*done);
        },
        _ => panic!("expected a text frame"),
    }
    assert!(matches!(s.state, RelayState::Idle));
    assert_eq!(s.transcript.len(), 1);

    s.on_chat_request(ClientChatRequest { messages: vec![user_turn("hi")] });
    s.on_completion_event(StreamChunk::ToolCall {
        id: "t".to_string(),
        name: "grep".to_string(),
        arguments: "{}".to_string(),
    });
    s.on_completion_event(text("", true));
    s.on_tool_result("t".to_string(), "out".to_string());
    let out = s.on_completion_error("service down");
    match &out.frames[0] {
        StreamChunk::Text { delta, .. } => {
            assert_eq!(delta, "Error continuing conversation: service down");
        },
        _ => panic!("expected a text frame"),
    }
}

#[test]
fn chat_request_replaces_transcript() {
    let mut s = RelaySession::new();
    s.on_chat_request(ClientChatRequest { messages: vec![user_turn("one")] });
    s.on_completion_event(text("a", false));
    s.on_completion_event(text("", true));
    assert_eq!(s.transcript.len(), 2);
    s.on_chat_request(ClientChatRequest {
        messages: vec![user_turn("one"), user_turn("two")],
    });
    assert_eq!(s.transcript.len(), 2);
    assert_eq!(s.transcript[1].content, "two");
}

#[test]
fn collect_response_stops_at_done() {
    let chunks = vec![
        text("He", false),
        StreamChunk::ToolResult { id: "x".to_string(), content: "ignored".to_string() },
        text("llo", false),
        text("", true),
        text("later", false),
    ];
    assert_eq!(collect_response_text(&chunks), "Hello");
    let none: Vec<StreamChunk> = Vec::new();
    assert_eq!(collect_response_text(&none), "");
}

#[test]
fn happy_path_frame_without_optional_members() {
    // the optional turn members may be absent from a wire frame
    let mut s = RelaySession::new();
    let out = s.on_client_text(
        "{\"type\":\"chat_request\",\"messages\":[{\"role\":\"user\",\"content\":\"hi\"}]}",
    );
    assert!(out.invoke_completion);
    assert!(out.frames.is_empty());
    assert!(matches!(s.state, RelayState::Streaming));
    assert_eq!(s.transcript.len(), 1);
    assert!(matches!(s.transcript[0].role, MessageRole::User));
    assert_eq!(s.transcript[0].content, "hi");
    assert!(s.transcript[0].tool_call_id.is_none());
    assert!(s.transcript[0].tool_calls.is_none());

    for chunk in [text("Hel", false), text("lo", false), text("", true)] {
        let out = s.on_completion_event(chunk);
        assert_eq!(out.frames.len(), 1);
    }
    assert_eq!(s.transcript.len(), 2);
    assert_eq!(s.transcript[1].content, "Hello");
}

#[test]
fn frames_tolerate_whitespace() {
    let mut s = RelaySession::new();
    let out = s.on_client_text(
        " {\n  \"type\" : \"chat_request\" ,\n  \"messages\" : [ { \"role\" : \"user\" , \"content\" : \"hi\" } ]\n} ",
    );
    assert!(out.invoke_completion);
    assert_eq!(s.transcript.len(), 1);
    assert_eq!(s.transcript[0].content, "hi");
}
