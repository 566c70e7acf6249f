use jean::codec::{decode_client_message, decode_stream_chunk, encode_client_message,
    encode_stream_chunk};
use jean::msg::{ChatMessage, ClientChatRequest, ClientMessage, MessageRole, StreamChunk, ToolCall};

fn user_turn(content: &str) -> ChatMessage {
    ChatMessage {
        role: MessageRole::User,
        content: content.to_string(),
        tool_call_id: None,
        tool_calls: None,
    }
}

#[test]
fn encode_text_chunk_exact() {
    let c = StreamChunk::Text { delta: "Hel".to_string(), done: false };
    assert_eq!(encode_stream_chunk(&c), "{\"type\":\"text\",\"delta\":\"Hel\",\"done\":false}");
    let c = StreamChunk::Text { delta: String::new(), done: true };
    assert_eq!(encode_stream_chunk(&c), "{\"type\":\"text\",\"delta\":\"\",\"done\":true}");
}

#[test]
fn encode_tool_call_chunk_exact() {
    let c = StreamChunk::ToolCall {
        id: "1".to_string(),
        name: "read_file".to_string(),
        arguments: "{\"filename\":\"a.txt\"}".to_string(),
    };
    assert_eq!(
        encode_stream_chunk(&c),
        "{\"type\":\"tool_call\",\"id\":\"1\",\"name\":\"read_file\",\"arguments\":\"{\\\"filename\\\":\\\"a.txt\\\"}\"}"
    );
}

#[test]
fn encode_chat_request_exact() {
    let m = ClientMessage::ChatRequest(ClientChatRequest { messages: vec![user_turn("hi")] });
    assert_eq!(
        encode_client_message(&m),
        "{\"type\":\"chat_request\",\"messages\":[{\"role\":\"user\",\"content\":\"hi\",\"tool_call_id\":null,\"tool_calls\":null}]}"
    );
}

#[test]
fn encode_tool_result_exact() {
    let m = ClientMessage::ToolResult { id: "t1".to_string(), content: "R".to_string() };
    assert_eq!(
        encode_client_message(&m),
        "{\"type\":\"tool_result\",\"id\":\"t1\",\"content\":\"R\"}"
    );
}

#[test]
fn escape_controls_and_specials() {
    let c = StreamChunk::Text { delta: "a\"b\\c\nd\te\u{1}".to_string(), done: false };
    assert_eq!(
        encode_stream_chunk(&c),
        "{\"type\":\"text\",\"delta\":\"a\\\"b\\\\c\\nd\\te\\u0001\",\"done\":false}"
    );
}

#[test]
fn round_trip_client_message_with_tools() {
    let assistant = ChatMessage {
        role: MessageRole::Assistant,
        content: String::new(),
        tool_call_id: None,
        tool_calls: Some(vec![ToolCall {
            id: "t1".to_string(),
            name: "grep".to_string(),
            arguments: "{\"search_term\":\"x\",\"filter\":\"*.rs\"}".to_string(),
        }]),
    };
    let tool = ChatMessage {
        role: MessageRole::Tool,
        content: "R\u{1f600}".to_string(),
        tool_call_id: Some("t1".to_string()),
        tool_calls: None,
    };
    let m = ClientMessage::ChatRequest(ClientChatRequest {
        messages: vec![user_turn("hi"), assistant, tool],
    });
    let text = encode_client_message(&m);
    let back = decode_client_message(&text).expect("round trip should decode");
    match back {
        ClientMessage::ChatRequest(req) => {
            assert_eq!(req.messages.len(), 3);
            assert!(matches!(req.messages[0].role, MessageRole::User));
            assert_eq!(req.messages[0].content, "hi");
            assert!(matches!(req.messages[1].role, MessageRole::Assistant));
            let calls = req.messages[1].tool_calls.as_ref().unwrap();
            assert_eq!(calls.len(), 1);
            assert_eq!(calls[0].id, "t1");
            assert_eq!(calls[0].name, "grep");
            assert_eq!(calls[0].arguments, "{\"search_term\":\"x\",\"filter\":\"*.rs\"}");
            assert!(matches!(req.messages[2].role, MessageRole::Tool));
            assert_eq!(req.messages[2].tool_call_id.as_deref(), Some("t1"));
            assert_eq!(req.messages[2].content, "R\u{1f600}");
        },
        _ => panic!("wrong variant"),
    }
}

#[test]
fn round_trip_every_chunk_variant() {
    let chunks = vec![
        StreamChunk::Text { delta: "He\"llo\n".to_string(), done: false },
        StreamChunk::Text { delta: String::new(), done: true },
        StreamChunk::ToolCall {
            id: "1".to_string(),
            name: "read_file".to_string(),
            arguments: "{}".to_string(),
        },
        StreamChunk::ToolResult { id: "1".to_string(), content: "X".to_string() },
    ];
    for c in &chunks {
        let text = encode_stream_chunk(c);
        let back = decode_stream_chunk(&text).expect("chunk should decode");
        assert_eq!(encode_stream_chunk(&back), text);
    }
}

#[test]
fn decode_unicode_escape() {
    let text = "{\"type\":\"text\",\"delta\":\"\\u0041\",\"done\":false}";
    match decode_stream_chunk(text) {
        Some(StreamChunk::Text { delta, done }) => {
            assert_eq!(delta, "A");
            assert!(!done);
        },
        _ => panic!("should decode"),
    }
}

#[test]
fn decode_rejects_unknown_tag() {
    assert!(decode_client_message("{\"type\":\"mystery\",\"messages\":[]}").is_none());
    assert!(decode_stream_chunk("{\"type\":\"mystery\",\"delta\":\"\",\"done\":true}").is_none());
}

#[test]
fn decode_rejects_garbage_and_trailing_text() {
    assert!(decode_client_message("not json at all").is_none());
    assert!(decode_client_message("").is_none());
    assert!(decode_client_message(
        "{\"type\":\"tool_result\",\"id\":\"a\",\"content\":\"b\"}garbage"
    )
    .is_none());
}

#[test]
fn decode_empty_history() {
    let text = "{\"type\":\"chat_request\",\"messages\":[]}";
    match decode_client_message(text) {
        Some(ClientMessage::ChatRequest(req)) => assert!(req.messages.is_empty()),
        _ => panic!("should decode"),
    }
}

#[test]
fn decode_turn_with_members_absent() {
    // both optional members absent
    let text = "{\"type\":\"chat_request\",\"messages\":[{\"role\":\"user\",\"content\":\"hi\"}]}";
    match decode_client_message(text) {
        Some(ClientMessage::ChatRequest(req)) => {
            assert_eq!(req.messages.len(), 1);
            assert!(req.messages[0].tool_call_id.is_none());
            assert!(req.messages[0].tool_calls.is_none());
        },
        _ => panic!("should decode"),
    }
    // only the call link present
    let text = "{\"type\":\"chat_request\",\"messages\":[{\"role\":\"tool\",\"content\":\"R\",\"tool_call_id\":\"t1\"}]}";
    match decode_client_message(text) {
        Some(ClientMessage::ChatRequest(req)) => {
            assert_eq!(req.messages[0].tool_call_id.as_deref(), Some("t1"));
            assert!(req.messages[0].tool_calls.is_none());
        },
        _ => panic!("should decode"),
    }
    // only the call list present
    let text = "{\"type\":\"chat_request\",\"messages\":[{\"role\":\"assistant\",\"content\":\"\",\"tool_calls\":[{\"id\":\"1\",\"name\":\"grep\",\"arguments\":\"{}\"}]}]}";
    match decode_client_message(text) {
        Some(ClientMessage::ChatRequest(req)) => {
            assert!(req.messages[0].tool_call_id.is_none());
            let calls = req.messages[0].tool_calls.as_ref().unwrap();
            assert_eq!(calls[0].name, "grep");
        },
        _ => panic!("should decode"),
    }
}

#[test]
fn decode_tolerates_whitespace() {
    let text = "\n{ \"type\" : \"text\" , \"delta\" : \"hi\" , \"done\" : false }\n";
    match decode_stream_chunk(text) {
        Some(StreamChunk::Text { delta, done }) => {
            assert_eq!(delta, "hi");
            assert!(!done);
        },
        _ => panic!("should decode"),
    }
    let text = "{ \"type\" : \"tool_result\" , \"id\" : \"a\" , \"content\" : \"b\" } ";
    assert!(decode_client_message(text).is_some());
}

#[test]
fn decode_keeps_member_order_fixed() {
    // the wire schema fixes member order; a reordered frame is refused
    assert!(decode_stream_chunk("{\"delta\":\"hi\",\"type\":\"text\",\"done\":false}").is_none());
    assert!(decode_client_message(
        "{\"type\":\"chat_request\",\"messages\":[{\"content\":\"hi\",\"role\":\"user\"}]}"
    )
    .is_none());
}
