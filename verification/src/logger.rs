//! The conversation trail: how a turn, a forwarded chunk or a local
//! tool execution is classified into a trail record, and the one-line
//! rendering of a record. Writing the lines to disk is the outside's
//! job; statuses of the connection are deliberately not recorded.

use vstd::prelude::*;
use vstd::string::StringExecFns;

use crate::codec::{push_quoted, spec_quote};
use crate::msg::{ChatMessage, ChatMessageV, MessageRole, StreamChunk, StreamChunkV};
use crate::strutil::{spec_starts_with, starts_with};

verus! {

/// One kind of trail record, with what it needs to reconstruct the
/// turn.
#[derive(Debug, Clone)]
pub enum EntryType {
    UserMessage { content: String },
    AssistantMessage { content: String },
    ToolInfo { content: String },
    SystemMessage { content: String },
    ToolCall { id: String, name: String, arguments: String },
    ToolResult { id: String, content: String },
}

/// Mathematical image of an [`EntryType`].
#[verifier::ext_equal]
pub enum EntryTypeV {
    UserMessage { content: Seq<char> },
    AssistantMessage { content: Seq<char> },
    ToolInfo { content: Seq<char> },
    SystemMessage { content: Seq<char> },
    ToolCall { id: Seq<char>, name: Seq<char>, arguments: Seq<char> },
    ToolResult { id: Seq<char>, content: Seq<char> },
}

impl View for EntryType {
    type V = EntryTypeV;

    open spec fn view(&self) -> EntryTypeV {
        match self {
            EntryType::UserMessage { content } => EntryTypeV::UserMessage { content: content@ },
            EntryType::AssistantMessage { content } => EntryTypeV::AssistantMessage {
                content: content@,
            },
            EntryType::ToolInfo { content } => EntryTypeV::ToolInfo { content: content@ },
            EntryType::SystemMessage { content } => EntryTypeV::SystemMessage {
                content: content@,
            },
            EntryType::ToolCall { id, name, arguments } => EntryTypeV::ToolCall {
                id: id@,
                name: name@,
                arguments: arguments@,
            },
            EntryType::ToolResult { id, content } => EntryTypeV::ToolResult {
                id: id@,
                content: content@,
            },
        }
    }
}

/// One trail record: when, and what.
#[derive(Debug, Clone)]
pub struct ConversationEntry {
    /// The moment of the record, already rendered as text.
    pub timestamp: String,
    pub entry_type: EntryType,
}

/// Mathematical image of a [`ConversationEntry`].
#[verifier::ext_equal]
pub struct ConversationEntryV {
    pub timestamp: Seq<char>,
    pub entry_type: EntryTypeV,
}

impl View for ConversationEntry {
    type V = ConversationEntryV;

    open spec fn view(&self) -> ConversationEntryV {
        ConversationEntryV { timestamp: self.timestamp@, entry_type: self.entry_type@ }
    }
}

/// How a turn is classified: by its role, except that a system turn
/// opening with the annotation marker is tool information, and a tool
/// turn records the call it answers — an absent link becomes the empty
/// identifier.
pub open spec fn spec_entry_for_message(m: ChatMessageV) -> EntryTypeV {
    match m.role {
        MessageRole::User => EntryTypeV::UserMessage { content: m.content },
        MessageRole::Assistant => EntryTypeV::AssistantMessage { content: m.content },
        MessageRole::System => {
            if spec_starts_with(m.content, "[ToolInfo]"@) {
                EntryTypeV::ToolInfo { content: m.content }
            } else {
                EntryTypeV::SystemMessage { content: m.content }
            }
        },
        MessageRole::Tool => EntryTypeV::ToolResult {
            id: match m.tool_call_id {
                Some(id) => id,
                None => Seq::empty(),
            },
            content: m.content,
        },
    }
}

/// Classify one turn into its trail record.
pub fn entry_for_message(m: &ChatMessage) -> (r: EntryType)
    ensures
        r@ == spec_entry_for_message(m@),
{
    match m.role {
        MessageRole::User => EntryType::UserMessage { content: m.content.clone() },
        MessageRole::Assistant => EntryType::AssistantMessage { content: m.content.clone() },
        MessageRole::System => {
            if starts_with(m.content.as_str(), "[ToolInfo]") {
                EntryType::ToolInfo { content: m.content.clone() }
            } else {
                EntryType::SystemMessage { content: m.content.clone() }
            }
        },
        MessageRole::Tool => {
            let id = match &m.tool_call_id {
                Some(id) => id.clone(),
                None => String::new(),
            };
            let r = EntryType::ToolResult { id, content: m.content.clone() };
            proof {
                assert(r@ =~~= spec_entry_for_message(m@));
            }
            r
        },
    }
}

/// Which chunks are recorded: tool calls and tool results; streamed
/// text is not, since the finished turn is recorded later.
pub open spec fn spec_entry_for_chunk(c: StreamChunkV) -> Option<EntryTypeV> {
    match c {
        StreamChunkV::Text { .. } => None,
        StreamChunkV::ToolCall { id, name, arguments } => Some(
            EntryTypeV::ToolCall { id, name, arguments },
        ),
        StreamChunkV::ToolResult { id, content } => Some(EntryTypeV::ToolResult { id, content }),
    }
}

/// Classify one forwarded chunk into its trail record, if it gets one.
pub fn entry_for_chunk(c: &StreamChunk) -> (r: Option<EntryType>)
    ensures
        match r {
            Some(e) => spec_entry_for_chunk(c@) == Some(e@),
            None => spec_entry_for_chunk(c@) is None,
        },
{
    match c {
        StreamChunk::Text { .. } => None,
        StreamChunk::ToolCall { id, name, arguments } => Some(
            EntryType::ToolCall {
                id: id.clone(),
                name: name.clone(),
                arguments: arguments.clone(),
            },
        ),
        StreamChunk::ToolResult { id, content } => Some(
            EntryType::ToolResult { id: id.clone(), content: content.clone() },
        ),
    }
}

/// The record of a local tool execution: the result text, tagged with
/// the tool's name.
pub open spec fn spec_tool_execution_entry(
    id: Seq<char>,
    name: Seq<char>,
    result: Seq<char>,
) -> EntryTypeV {
    EntryTypeV::ToolResult { id, content: "["@ + name + "] "@ + result }
}

/// Build the record of a local tool execution.
pub fn tool_execution_entry(id: &str, name: &str, result: &str) -> (r: EntryType)
    ensures
        r@ == spec_tool_execution_entry(id@, name@, result@),
{
    let mut content = String::from_str("[");
    content.append(name);
    content.append("] ");
    content.append(result);
    let r = EntryType::ToolResult { id: String::from_str(id), content };
    proof {
        assert(r@ =~~= spec_tool_execution_entry(id@, name@, result@));
    }
    r
}

/// Connection statuses leave no trail record: they are display state,
/// not conversation.
pub fn entry_for_connection_status(status: &str) -> (r: Option<EntryType>)
    ensures
        r is None,
{
    None
}

/// The one-line rendering of a record kind.
pub open spec fn spec_encode_entry_type(t: EntryTypeV) -> Seq<char> {
    match t {
        EntryTypeV::UserMessage { content } => "{\"type\":\"UserMessage\",\"content\":"@
            + spec_quote(content) + "}"@,
        EntryTypeV::AssistantMessage { content } => "{\"type\":\"AssistantMessage\",\"content\":"@
            + spec_quote(content) + "}"@,
        EntryTypeV::ToolInfo { content } => "{\"type\":\"ToolInfo\",\"content\":"@ + spec_quote(
            content,
        ) + "}"@,
        EntryTypeV::SystemMessage { content } => "{\"type\":\"SystemMessage\",\"content\":"@
            + spec_quote(content) + "}"@,
        EntryTypeV::ToolCall { id, name, arguments } => "{\"type\":\"ToolCall\",\"id\":"@
            + spec_quote(id) + ",\"name\":"@ + spec_quote(name) + ",\"arguments\":"@ + spec_quote(
            arguments,
        ) + "}"@,
        EntryTypeV::ToolResult { id, content } => "{\"type\":\"ToolResult\",\"id\":"@ + spec_quote(
            id,
        ) + ",\"content\":"@ + spec_quote(content) + "}"@,
    }
}

/// The one-line rendering of a whole record.
pub open spec fn spec_encode_entry(e: ConversationEntryV) -> Seq<char> {
    "{\"timestamp\":"@ + spec_quote(e.timestamp) + ",\"entry_type\":"@ + spec_encode_entry_type(
        e.entry_type,
    ) + "}"@
}

/// Render a record kind.
pub fn encode_entry_type(t: &EntryType) -> (r: String)
    ensures
        r@ == spec_encode_entry_type(t@),
{
    let mut out = String::new();
    match t {
        EntryType::UserMessage { content } => {
            out.append("{\"type\":\"UserMessage\",\"content\":");
            push_quoted(&mut out, content.as_str());
            out.append("}");
        },
        EntryType::AssistantMessage { content } => {
            out.append("{\"type\":\"AssistantMessage\",\"content\":");
            push_quoted(&mut out, content.as_str());
            out.append("}");
        },
        EntryType::ToolInfo { content } => {
            out.append("{\"type\":\"ToolInfo\",\"content\":");
            push_quoted(&mut out, content.as_str());
            out.append("}");
        },
        EntryType::SystemMessage { content } => {
            out.append("{\"type\":\"SystemMessage\",\"content\":");
            push_quoted(&mut out, content.as_str());
            out.append("}");
        },
        EntryType::ToolCall { id, name, arguments } => {
            out.append("{\"type\":\"ToolCall\",\"id\":");
            push_quoted(&mut out, id.as_str());
            out.append(",\"name\":");
            push_quoted(&mut out, name.as_str());
            out.append(",\"arguments\":");
            push_quoted(&mut out, arguments.as_str());
            out.append("}");
        },
        EntryType::ToolResult { id, content } => {
            out.append("{\"type\":\"ToolResult\",\"id\":");
            push_quoted(&mut out, id.as_str());
            out.append(",\"content\":");
            push_quoted(&mut out, content.as_str());
            out.append("}");
        },
    }
    proof {
        assert(out@ =~= spec_encode_entry_type(t@));
    }
    out
}

/// Render a whole record as its line.
pub fn encode_entry(e: &ConversationEntry) -> (r: String)
    ensures
        r@ == spec_encode_entry(e@),
{
    let mut out = String::from_str("{\"timestamp\":");
    push_quoted(&mut out, e.timestamp.as_str());
    out.append(",\"entry_type\":");
    let inner = encode_entry_type(&e.entry_type);
    out.append(inner.as_str());
    out.append("}");
    proof {
        assert(out@ =~= spec_encode_entry(e@));
    }
    out
}

} // verus!
