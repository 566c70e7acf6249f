use jean::client::App;
use jean::conn::ConnectionStatus;
use jean::msg::{ClientMessage, MessageRole};

#[test]
fn streamed_turn_materializes_once() {
    let mut app = App::new();
    app.add_user_message("hi".to_string());
    app.start_streaming();
    app.on_text_chunk("Hel", false);
    app.on_text_chunk("lo", false);
    app.on_text_chunk("", true);
    assert!(app.streaming_message.is_none());
    assert_eq!(app.messages.len(), 2);
    assert!(matches!(app.messages[1].role, MessageRole::Assistant));
    assert_eq!(app.messages[1].content, "Hello");
}

#[test]
fn empty_stream_materializes_nothing() {
    let mut app = App::new();
    app.start_streaming();
    app.on_text_chunk("", true);
    assert!(app.streaming_message.is_none());
    assert!(app.messages.is_empty());
}

#[test]
fn error_chunk_becomes_system_turn() {
    let mut app = App::new();
    app.start_streaming();
    app.on_text_chunk("partial", false);
    app.on_text_chunk("Error: upstream failed", true);
    assert_eq!(app.messages.len(), 2);
    assert!(matches!(app.messages[0].role, MessageRole::Assistant));
    assert_eq!(app.messages[0].content, "partial");
    assert!(matches!(app.messages[1].role, MessageRole::System));
    assert_eq!(app.messages[1].content, "Error: upstream failed");
}

#[test]
fn guard_swallows_the_pre_tool_close() {
    let mut app = App::new();
    app.start_streaming();
    app.on_tool_call("read_file", "{\"filename\":\"a.txt\"}");
    let msg = app.on_tool_result_computed("1".to_string(), "read_file", "X".to_string());
    match msg {
        ClientMessage::ToolResult { id, content } => {
            assert_eq!(id, "1");
            assert_eq!(content, "X");
        },
        _ => panic!("expected a tool result message"),
    }
    assert!(app.expecting_tool_response);
    // the close of the pre-tool round must not finalize a turn
    let before = app.messages.len();
    app.on_text_chunk("", true);
    assert_eq!(app.messages.len(), before);
    assert!(!app.expecting_tool_response);
    assert!(app.streaming_message.is_some());
    // the real answer now streams and finalizes
    app.on_text_chunk("done", false);
    app.on_text_chunk("", true);
    assert_eq!(app.messages.len(), before + 1);
    assert_eq!(app.messages[before].content, "done");
}

#[test]
fn tool_round_transcript_order() {
    let mut app = App::new();
    app.add_user_message("read a.txt".to_string());
    app.start_streaming();
    app.on_tool_call("read_file", "{\"filename\":\"a.txt\"}");
    app.on_tool_result_computed("1".to_string(), "read_file", "X".to_string());
    app.on_text_chunk("", true);
    app.on_text_chunk("the file holds X", false);
    app.on_text_chunk("", true);

    assert_eq!(app.messages.len(), 4);
    assert!(matches!(app.messages[0].role, MessageRole::User));
    assert!(matches!(app.messages[1].role, MessageRole::Assistant));
    assert!(app.messages[1].content.starts_with("[ToolInfo] "));
    assert!(app.messages[1].content.contains("read_file"));
    assert!(matches!(app.messages[2].role, MessageRole::System));
    assert!(app.messages[2].content.starts_with("[ToolInfo] "));
    assert!(app.messages[2].content.contains("X"));
    assert!(matches!(app.messages[3].role, MessageRole::Assistant));
    assert_eq!(app.messages[3].content, "the file holds X");
}

#[test]
fn outbound_request_filters_annotations() {
    let mut app = App::new();
    app.add_user_message("read a.txt".to_string());
    app.start_streaming();
    app.on_tool_call("read_file", "{}");
    app.on_tool_result_computed("1".to_string(), "read_file", "X".to_string());
    app.on_text_chunk("", true);
    app.on_text_chunk("answer", false);
    app.on_text_chunk("", true);
    let req = app.outbound_request();
    assert_eq!(req.messages.len(), 2);
    assert!(matches!(req.messages[0].role, MessageRole::User));
    assert_eq!(req.messages[1].content, "answer");
}

#[test]
fn long_tool_results_are_truncated_in_the_annotation() {
    let mut app = App::new();
    let long = "x".repeat(1500);
    app.on_tool_result_computed("1".to_string(), "read_file", long.clone());
    assert_eq!(app.messages.len(), 1);
    let shown = &app.messages[0].content;
    assert!(shown.contains("... (truncated, 1500 total chars)"));
    // but the wire message carries the full result
    let mut app2 = App::new();
    match app2.on_tool_result_computed("1".to_string(), "read_file", long.clone()) {
        ClientMessage::ToolResult { content, .. } => assert_eq!(content.len(), 1500),
        _ => panic!("expected a tool result message"),
    }
}

#[test]
fn input_editing_and_submit() {
    let mut app = App::new();
    app.insert_char('h');
    app.insert_char('j');
    app.move_cursor_left();
    app.delete_char();
    app.insert_char('i');
    app.move_cursor_right();
    app.insert_char('!');
    assert_eq!(app.input, vec!['i', 'j', '!']);
    let req = app.submit_input().expect("non-empty input sends");
    assert_eq!(req.messages.len(), 1);
    assert_eq!(req.messages[0].content, "ij!");
    assert!(app.input.is_empty());
    assert_eq!(app.cursor_position, 0);
    assert!(app.submit_input().is_none());
}

#[test]
fn scrolling_saturates() {
    let mut app = App::new();
    app.scroll_down(5);
    assert_eq!(app.scroll_offset, 0);
    app.scroll_up(3);
    app.scroll_up(10);
    assert_eq!(app.scroll_offset, 13);
    app.scroll_down(4);
    assert_eq!(app.scroll_offset, 9);
    app.scroll_to_bottom();
    assert_eq!(app.scroll_offset, 0);
}

#[test]
fn repeated_connected_status_changes_nothing() {
    let mut app = App::new();
    app.add_user_message("hi".to_string());
    app.on_status(ConnectionStatus::Connected);
    let messages_before = app.messages.len();
    let scroll_before = app.scroll_offset;
    app.on_status(ConnectionStatus::Connected);
    app.on_status(ConnectionStatus::Connected);
    assert!(matches!(app.connection_status, ConnectionStatus::Connected));
    assert_eq!(app.messages.len(), messages_before);
    assert_eq!(app.scroll_offset, scroll_before);
}

#[test]
fn send_failures_become_system_turns() {
    let mut app = App::new();
    app.on_send_failed("pipe closed");
    assert_eq!(app.messages[0].content, "Failed to send message: pipe closed");
    app.start_streaming();
    app.expecting_tool_response = true;
    app.on_tool_result_send_failed("pipe closed");
    assert!(!app.expecting_tool_response);
    assert!(app.streaming_message.is_none());
    assert_eq!(
        app.messages[1].content,
        "Failed to send tool result: pipe closed"
    );
}
