//! The shared message schema: conversation turns and the tagged wire
//! messages exchanged between the client and the relay.

use vstd::prelude::*;

verus! {

/// Who contributed a turn to the conversation.
#[derive(Debug, Clone, Copy, PartialEq, Eq, Structural)]
pub enum MessageRole {
    System,
    User,
    Assistant,
    Tool,
}

/// A model request to run one local tool: an identifier unique within the
/// assistant turn that carries it, the tool's name, and an opaque
/// serialized argument blob.
#[derive(Debug, Clone)]
pub struct ToolCall {
    pub id: String,
    pub name: String,
    pub arguments: String,
}

/// Mathematical image of a [`ToolCall`].
#[verifier::ext_equal]
pub struct ToolCallV {
    pub id: Seq<char>,
    pub name: Seq<char>,
    pub arguments: Seq<char>,
}

impl View for ToolCall {
    type V = ToolCallV;

    open spec fn view(&self) -> ToolCallV {
        ToolCallV { id: self.id@, name: self.name@, arguments: self.arguments@ }
    }
}

impl DeepView for ToolCall {
    type V = ToolCallV;

    open spec fn deep_view(&self) -> ToolCallV {
        self.view()
    }
}

/// One conversational turn. `tool_call_id` links a `Tool` turn to the call
/// it answers; `tool_calls` is present only when an `Assistant` turn elected
/// to call tools.
#[derive(Debug, Clone)]
pub struct ChatMessage {
    pub role: MessageRole,
    pub content: String,
    pub tool_call_id: Option<String>,
    pub tool_calls: Option<Vec<ToolCall>>,
}

/// Mathematical image of a [`ChatMessage`].
#[verifier::ext_equal]
pub struct ChatMessageV {
    pub role: MessageRole,
    pub content: Seq<char>,
    pub tool_call_id: Option<Seq<char>>,
    pub tool_calls: Option<Seq<ToolCallV>>,
}

impl View for ChatMessage {
    type V = ChatMessageV;

    open spec fn view(&self) -> ChatMessageV {
        ChatMessageV {
            role: self.role,
            content: self.content@,
            tool_call_id: match self.tool_call_id {
                Some(id) => Some(id@),
                None => None,
            },
            tool_calls: match self.tool_calls {
                Some(calls) => Some(calls.deep_view()),
                None => None,
            },
        }
    }
}

impl DeepView for ChatMessage {
    type V = ChatMessageV;

    open spec fn deep_view(&self) -> ChatMessageV {
        self.view()
    }
}

/// The turn invariant: an `Assistant` turn carries non-empty content or a
/// non-empty tool-call list but never both and never neither; a `Tool` turn
/// always names the call it answers; no other role carries either field.
pub open spec fn wf_turn(m: ChatMessageV) -> bool {
    &&& m.role == MessageRole::Assistant ==> {
        let has_text = m.content.len() > 0;
        let has_calls = m.tool_calls is Some && m.tool_calls->0.len() > 0;
        has_text != has_calls
    }
    &&& m.role == MessageRole::Tool ==> m.tool_call_id is Some
    &&& m.role != MessageRole::Tool ==> m.tool_call_id is None
    &&& m.role != MessageRole::Assistant ==> m.tool_calls is None
}

/// The assistant turn that closes a round of plain text.
pub open spec fn assistant_text_turn(content: Seq<char>) -> ChatMessageV {
    ChatMessageV { role: MessageRole::Assistant, content, tool_call_id: None, tool_calls: None }
}

/// The assistant turn that closes a round of tool calls: no text content,
/// the calls in the order the model emitted them.
pub open spec fn assistant_tool_turn(calls: Seq<ToolCallV>) -> ChatMessageV {
    ChatMessageV {
        role: MessageRole::Assistant,
        content: Seq::empty(),
        tool_call_id: None,
        tool_calls: Some(calls),
    }
}

/// The tool turn that folds one tool result into the transcript.
pub open spec fn tool_turn(id: Seq<char>, content: Seq<char>) -> ChatMessageV {
    ChatMessageV {
        role: MessageRole::Tool,
        content,
        tool_call_id: Some(id),
        tool_calls: None,
    }
}

/// A user turn.
pub open spec fn user_turn(content: Seq<char>) -> ChatMessageV {
    ChatMessageV { role: MessageRole::User, content, tool_call_id: None, tool_calls: None }
}

/// A system turn: diagnostics and, on the client, UI-only annotations.
pub open spec fn system_turn(content: Seq<char>) -> ChatMessageV {
    ChatMessageV { role: MessageRole::System, content, tool_call_id: None, tool_calls: None }
}

/// A message from the client to the relay.
#[derive(Debug, Clone)]
pub enum ClientMessage {
    ChatRequest(ClientChatRequest),
    ToolResult { id: String, content: String },
}

/// Mathematical image of a [`ClientMessage`].
#[verifier::ext_equal]
pub enum ClientMessageV {
    ChatRequest(Seq<ChatMessageV>),
    ToolResult { id: Seq<char>, content: Seq<char> },
}

impl View for ClientMessage {
    type V = ClientMessageV;

    open spec fn view(&self) -> ClientMessageV {
        match self {
            ClientMessage::ChatRequest(req) => ClientMessageV::ChatRequest(
                req.messages.deep_view(),
            ),
            ClientMessage::ToolResult { id, content } => ClientMessageV::ToolResult {
                id: id@,
                content: content@,
            },
        }
    }
}

impl DeepView for ClientMessage {
    type V = ClientMessageV;

    open spec fn deep_view(&self) -> ClientMessageV {
        self.view()
    }
}

/// The history a chat request hands to the relay: the relay adopts it
/// verbatim as the new authoritative transcript prefix.
#[derive(Debug, Clone)]
pub struct ClientChatRequest {
    pub messages: Vec<ChatMessage>,
}

impl View for ClientChatRequest {
    type V = Seq<ChatMessageV>;

    open spec fn view(&self) -> Seq<ChatMessageV> {
        self.messages.deep_view()
    }
}

/// A direct completion request: a history plus the model to route it to.
#[derive(Debug, Clone)]
pub struct ChatRequest {
    pub messages: Vec<ChatMessage>,
    pub model: String,
    pub stream: bool,
}

/// The answer of the non-streaming endpoint: the concatenated text of one
/// completed round and the model that produced it.
#[derive(Debug, Clone)]
pub struct ChatResponse {
    pub content: String,
    pub model: String,
}

/// One transient wire unit from the relay to the client. A `Text` chunk
/// with `done == true` closes the current model turn.
#[derive(Debug, Clone)]
pub enum StreamChunk {
    Text { delta: String, done: bool },
    ToolCall { id: String, name: String, arguments: String },
    ToolResult { id: String, content: String },
}

/// Mathematical image of a [`StreamChunk`].
#[verifier::ext_equal]
pub enum StreamChunkV {
    Text { delta: Seq<char>, done: bool },
    ToolCall { id: Seq<char>, name: Seq<char>, arguments: Seq<char> },
    ToolResult { id: Seq<char>, content: Seq<char> },
}

impl View for StreamChunk {
    type V = StreamChunkV;

    open spec fn view(&self) -> StreamChunkV {
        match self {
            StreamChunk::Text { delta, done } => StreamChunkV::Text { delta: delta@, done: *done },
            StreamChunk::ToolCall { id, name, arguments } => StreamChunkV::ToolCall {
                id: id@,
                name: name@,
                arguments: arguments@,
            },
            StreamChunk::ToolResult { id, content } => StreamChunkV::ToolResult {
                id: id@,
                content: content@,
            },
        }
    }
}

impl DeepView for StreamChunk {
    type V = StreamChunkV;

    open spec fn deep_view(&self) -> StreamChunkV {
        self.view()
    }
}

} // verus!
