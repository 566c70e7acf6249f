//! The wire codec. The encoder writes the compact canonical rendering
//! of the tagged wire messages — one object per frame, the `type`
//! discriminant first, members in schema order, strings escaped, absent
//! options rendered as `null` — the same text the counterpart's
//! serializer writes. The decoder reads that schema back with the
//! liberality the wire JSON grants: whitespace between tokens, a turn's
//! two optional members absent or present, a `\u00` escape naming any
//! code below 0x100. Member order, the escape set and the tagged shapes
//! stay fixed; anything else — an unknown tag above all — is refused,
//! and a refused frame is reported, not fatal (see the relay's
//! malformed-frame step).

use vstd::prelude::*;
use vstd::string::{StrSliceExecFns, StringExecFns};

use crate::msg::{
    ChatMessage, ChatMessageV, ClientChatRequest, ClientMessage, ClientMessageV, MessageRole,
    StreamChunk, StreamChunkV, ToolCall, ToolCallV,
};
use crate::jsontext::{skip_ws, spec_skip_ws};
use crate::strutil::{push_char, str_eq};

verus! {

// ---------------------------------------------------------------------
// The literal character runs of the canonical form.
// ---------------------------------------------------------------------

pub open spec fn lit_turn_open() -> Seq<char> {
    seq!['{', '"', 'r', 'o', 'l', 'e', '"', ':']
}

pub open spec fn lit_content() -> Seq<char> {
    seq![',', '"', 'c', 'o', 'n', 't', 'e', 'n', 't', '"', ':']
}

pub open spec fn lit_tool_call_id() -> Seq<char> {
    seq![',', '"', 't', 'o', 'o', 'l', '_', 'c', 'a', 'l', 'l', '_', 'i', 'd', '"', ':']
}

pub open spec fn lit_tool_calls() -> Seq<char> {
    seq![',', '"', 't', 'o', 'o', 'l', '_', 'c', 'a', 'l', 'l', 's', '"', ':']
}

pub open spec fn lit_null() -> Seq<char> {
    seq!['n', 'u', 'l', 'l']
}

pub open spec fn lit_role_system() -> Seq<char> {
    seq!['"', 's', 'y', 's', 't', 'e', 'm', '"']
}

pub open spec fn lit_role_user() -> Seq<char> {
    seq!['"', 'u', 's', 'e', 'r', '"']
}

pub open spec fn lit_role_assistant() -> Seq<char> {
    seq!['"', 'a', 's', 's', 'i', 's', 't', 'a', 'n', 't', '"']
}

pub open spec fn lit_role_tool() -> Seq<char> {
    seq!['"', 't', 'o', 'o', 'l', '"']
}

pub open spec fn lit_call_open() -> Seq<char> {
    seq!['{', '"', 'i', 'd', '"', ':']
}

pub open spec fn lit_name() -> Seq<char> {
    seq![',', '"', 'n', 'a', 'm', 'e', '"', ':']
}

pub open spec fn lit_arguments() -> Seq<char> {
    seq![',', '"', 'a', 'r', 'g', 'u', 'm', 'e', 'n', 't', 's', '"', ':']
}

pub open spec fn lit_chat_request_open() -> Seq<char> {
    seq!['{', '"', 't', 'y', 'p', 'e', '"', ':', '"', 'c', 'h', 'a', 't', '_', 'r', 'e', 'q',
        'u', 'e', 's', 't', '"', ',', '"', 'm', 'e', 's', 's', 'a', 'g', 'e', 's', '"', ':']
}

pub open spec fn lit_tool_result_open() -> Seq<char> {
    seq!['{', '"', 't', 'y', 'p', 'e', '"', ':', '"', 't', 'o', 'o', 'l', '_', 'r', 'e', 's',
        'u', 'l', 't', '"', ',', '"', 'i', 'd', '"', ':']
}

pub open spec fn lit_text_open() -> Seq<char> {
    seq!['{', '"', 't', 'y', 'p', 'e', '"', ':', '"', 't', 'e', 'x', 't', '"', ',', '"', 'd',
        'e', 'l', 't', 'a', '"', ':']
}

pub open spec fn lit_done() -> Seq<char> {
    seq![',', '"', 'd', 'o', 'n', 'e', '"', ':']
}

pub open spec fn lit_true() -> Seq<char> {
    seq!['t', 'r', 'u', 'e']
}

pub open spec fn lit_false() -> Seq<char> {
    seq!['f', 'a', 'l', 's', 'e']
}

pub open spec fn lit_tool_call_open() -> Seq<char> {
    seq!['{', '"', 't', 'y', 'p', 'e', '"', ':', '"', 't', 'o', 'o', 'l', '_', 'c', 'a', 'l',
        'l', '"', ',', '"', 'i', 'd', '"', ':']
}

// ---------------------------------------------------------------------
// Escaping and quoting.
// ---------------------------------------------------------------------

/// The lowercase hexadecimal digit character of `d`.
pub open spec fn hex_digit_char(d: int) -> char {
    if d == 0 { '0' }
    else if d == 1 { '1' }
    else if d == 2 { '2' }
    else if d == 3 { '3' }
    else if d == 4 { '4' }
    else if d == 5 { '5' }
    else if d == 6 { '6' }
    else if d == 7 { '7' }
    else if d == 8 { '8' }
    else if d == 9 { '9' }
    else if d == 10 { 'a' }
    else if d == 11 { 'b' }
    else if d == 12 { 'c' }
    else if d == 13 { 'd' }
    else if d == 14 { 'e' }
    else { 'f' }
}

/// How one character is written inside a string literal: the named
/// escapes for the quote, the backslash and the common controls, a
/// `\u00xx` escape for the other controls, the character itself
/// otherwise.
pub open spec fn spec_escape_char(c: char) -> Seq<char> {
    if c == '"' {
        seq!['\\', '"']
    } else if c == '\\' {
        seq!['\\', '\\']
    } else if c == '\u{8}' {
        seq!['\\', 'b']
    } else if c == '\u{c}' {
        seq!['\\', 'f']
    } else if c == '\n' {
        seq!['\\', 'n']
    } else if c == '\r' {
        seq!['\\', 'r']
    } else if c == '\t' {
        seq!['\\', 't']
    } else if c <= '\u{1f}' {
        seq!['\\', 'u', '0', '0', hex_digit_char((c as int) / 16), hex_digit_char((c as int) % 16)]
    } else {
        seq![c]
    }
}

/// The escaped writing of the characters of `s` from `i` on.
pub open spec fn spec_escape_from(s: Seq<char>, i: int) -> Seq<char>
    decreases s.len() - i,
    when 0 <= i <= s.len()
{
    if i >= s.len() {
        Seq::empty()
    } else {
        spec_escape_char(s[i]) + spec_escape_from(s, i + 1)
    }
}

/// A whole string literal: quote, escaped characters, quote.
pub open spec fn spec_quote(s: Seq<char>) -> Seq<char> {
    seq!['"'] + spec_escape_from(s, 0) + seq!['"']
}

// ---------------------------------------------------------------------
// The canonical encodings.
// ---------------------------------------------------------------------

/// The canonical writing of a role.
pub open spec fn spec_encode_role(r: MessageRole) -> Seq<char> {
    match r {
        MessageRole::System => lit_role_system(),
        MessageRole::User => lit_role_user(),
        MessageRole::Assistant => lit_role_assistant(),
        MessageRole::Tool => lit_role_tool(),
    }
}

/// The canonical writing of one tool call.
pub open spec fn spec_encode_call(c: ToolCallV) -> Seq<char> {
    lit_call_open() + spec_quote(c.id) + lit_name() + spec_quote(c.name) + lit_arguments()
        + spec_quote(c.arguments) + seq!['}']
}

/// The comma-separated items of a tool-call array, from `i` on.
pub open spec fn spec_call_items(cs: Seq<ToolCallV>, i: int) -> Seq<char>
    decreases cs.len() - i,
    when 0 <= i <= cs.len()
{
    if i >= cs.len() {
        Seq::empty()
    } else if i == 0 {
        spec_encode_call(cs[0]) + spec_call_items(cs, 1)
    } else {
        seq![','] + spec_encode_call(cs[i]) + spec_call_items(cs, i + 1)
    }
}

/// The canonical writing of a tool-call array.
pub open spec fn spec_encode_calls(cs: Seq<ToolCallV>) -> Seq<char> {
    seq!['['] + spec_call_items(cs, 0) + seq![']']
}

/// The canonical writing of one turn.
#[verifier::opaque]
pub open spec fn spec_encode_turn(m: ChatMessageV) -> Seq<char> {
    lit_turn_open() + spec_encode_role(m.role) + lit_content() + spec_quote(m.content)
        + lit_tool_call_id() + (match m.tool_call_id {
        Some(id) => spec_quote(id),
        None => lit_null(),
    }) + lit_tool_calls() + (match m.tool_calls {
        Some(cs) => spec_encode_calls(cs),
        None => lit_null(),
    }) + seq!['}']
}

/// The comma-separated items of a turn array, from `i` on.
pub open spec fn spec_turn_items(ts: Seq<ChatMessageV>, i: int) -> Seq<char>
    decreases ts.len() - i,
    when 0 <= i <= ts.len()
{
    if i >= ts.len() {
        Seq::empty()
    } else if i == 0 {
        spec_encode_turn(ts[0]) + spec_turn_items(ts, 1)
    } else {
        seq![','] + spec_encode_turn(ts[i]) + spec_turn_items(ts, i + 1)
    }
}

/// The canonical writing of a turn array.
pub open spec fn spec_encode_turns(ts: Seq<ChatMessageV>) -> Seq<char> {
    seq!['['] + spec_turn_items(ts, 0) + seq![']']
}

/// The canonical writing of a client message.
pub open spec fn spec_encode_client(m: ClientMessageV) -> Seq<char> {
    match m {
        ClientMessageV::ChatRequest(msgs) => lit_chat_request_open() + spec_encode_turns(msgs)
            + seq!['}'],
        ClientMessageV::ToolResult { id, content } => lit_tool_result_open() + spec_quote(id)
            + lit_content() + spec_quote(content) + seq!['}'],
    }
}

/// The canonical writing of a stream chunk.
pub open spec fn spec_encode_chunk(c: StreamChunkV) -> Seq<char> {
    match c {
        StreamChunkV::Text { delta, done } => lit_text_open() + spec_quote(delta) + lit_done() + (
        if done {
            lit_true()
        } else {
            lit_false()
        }) + seq!['}'],
        StreamChunkV::ToolCall { id, name, arguments } => lit_tool_call_open() + spec_quote(id)
            + lit_name() + spec_quote(name) + lit_arguments() + spec_quote(arguments) + seq!['}'],
        StreamChunkV::ToolResult { id, content } => lit_tool_result_open() + spec_quote(id)
            + lit_content() + spec_quote(content) + seq!['}'],
    }
}

// ---------------------------------------------------------------------
// The executable encoder.
// ---------------------------------------------------------------------

/// Append the escaped writing of `s` to `out`.
pub fn push_escaped(out: &mut String, s: &str)
    ensures
        final(out)@ == old(out)@ + spec_escape_from(s@, 0),
{
    let n = s.unicode_len();
    let mut i: usize = 0;
    while i < n
        invariant
            n == s@.len(),
            i <= n,
            out@ + spec_escape_from(s@, i as int) == old(out)@ + spec_escape_from(s@, 0),
        decreases n - i,
    {
        let c = s.get_char(i);
        let ghost before = out@;
        if c == '"' {
            push_char(out, '\\');
            push_char(out, '"');
        } else if c == '\\' {
            push_char(out, '\\');
            push_char(out, '\\');
        } else if c == '\u{8}' {
            push_char(out, '\\');
            push_char(out, 'b');
        } else if c == '\u{c}' {
            push_char(out, '\\');
            push_char(out, 'f');
        } else if c == '\n' {
            push_char(out, '\\');
            push_char(out, 'n');
        } else if c == '\r' {
            push_char(out, '\\');
            push_char(out, 'r');
        } else if c == '\t' {
            push_char(out, '\\');
            push_char(out, 't');
        } else if c <= '\u{1f}' {
            push_char(out, '\\');
            push_char(out, 'u');
            push_char(out, '0');
            push_char(out, '0');
            let code = c as u32;
            let hi = code / 16;
            let lo = code % 16;
            push_char(out, if hi == 0 { '0' } else { '1' });
            push_char(out, hex_digit(lo));
        } else {
            push_char(out, c);
        }
        proof {
            assert(out@ =~= before + spec_escape_char(c));
            assert(out@ + spec_escape_from(s@, i + 1) =~= before + spec_escape_from(s@, i as int));
        }
        i = i + 1;
    }
    proof {
        assert(spec_escape_from(s@, n as int) =~= Seq::<char>::empty());
        assert(out@ =~= out@ + spec_escape_from(s@, n as int));
    }
}

/// The lowercase hexadecimal digit character of `d`.
pub fn hex_digit(d: u32) -> (r: char)
    requires
        d < 16,
    ensures
        r == hex_digit_char(d as int),
{
    if d == 0 { '0' }
    else if d == 1 { '1' }
    else if d == 2 { '2' }
    else if d == 3 { '3' }
    else if d == 4 { '4' }
    else if d == 5 { '5' }
    else if d == 6 { '6' }
    else if d == 7 { '7' }
    else if d == 8 { '8' }
    else if d == 9 { '9' }
    else if d == 10 { 'a' }
    else if d == 11 { 'b' }
    else if d == 12 { 'c' }
    else if d == 13 { 'd' }
    else if d == 14 { 'e' }
    else { 'f' }
}

/// Append a whole string literal to `out`.
pub fn push_quoted(out: &mut String, s: &str)
    ensures
        final(out)@ == old(out)@ + spec_quote(s@),
{
    push_char(out, '"');
    push_escaped(out, s);
    push_char(out, '"');
    proof {
        assert(out@ =~= old(out)@ + spec_quote(s@));
    }
}

/// Append the canonical writing of a role to `out`.
pub fn push_role(out: &mut String, r: MessageRole)
    ensures
        final(out)@ == old(out)@ + spec_encode_role(r),
{
    match r {
        MessageRole::System => {
            out.append("\"system\"");
            proof {
                reveal_strlit("\"system\"");
                assert(out@ =~= old(out)@ + spec_encode_role(r));
            }
        },
        MessageRole::User => {
            out.append("\"user\"");
            proof {
                reveal_strlit("\"user\"");
                assert(out@ =~= old(out)@ + spec_encode_role(r));
            }
        },
        MessageRole::Assistant => {
            out.append("\"assistant\"");
            proof {
                reveal_strlit("\"assistant\"");
                assert(out@ =~= old(out)@ + spec_encode_role(r));
            }
        },
        MessageRole::Tool => {
            out.append("\"tool\"");
            proof {
                reveal_strlit("\"tool\"");
                assert(out@ =~= old(out)@ + spec_encode_role(r));
            }
        },
    }
}

/// Append the canonical writing of one tool call to `out`.
pub fn push_call(out: &mut String, c: &ToolCall)
    ensures
        final(out)@ == old(out)@ + spec_encode_call(c@),
{
    out.append("{\"id\":");
    push_quoted(out, c.id.as_str());
    out.append(",\"name\":");
    push_quoted(out, c.name.as_str());
    out.append(",\"arguments\":");
    push_quoted(out, c.arguments.as_str());
    push_char(out, '}');
    proof {
        reveal_strlit("{\"id\":");
        reveal_strlit(",\"name\":");
        reveal_strlit(",\"arguments\":");
        assert("{\"id\":"@ =~= lit_call_open());
        assert(",\"name\":"@ =~= lit_name());
        assert(",\"arguments\":"@ =~= lit_arguments());
        assert(out@ =~= old(out)@ + spec_encode_call(c@));
    }
}

/// Append the canonical writing of a tool-call array to `out`.
pub fn push_calls(out: &mut String, cs: &Vec<ToolCall>)
    ensures
        final(out)@ == old(out)@ + spec_encode_calls(cs.deep_view()),
{
    push_char(out, '[');
    let ghost opened = out@;
    let mut i: usize = 0;
    while i < cs.len()
        invariant
            i <= cs@.len(),
            cs.deep_view().len() == cs@.len(),
            out@ + spec_call_items(cs.deep_view(), i as int) == opened + spec_call_items(
                cs.deep_view(),
                0,
            ),
        decreases cs@.len() - i,
    {
        let ghost before = out@;
        if i > 0 {
            push_char(out, ',');
        }
        push_call(out, &cs[i]);
        proof {
            assert(cs.deep_view()[i as int] == cs@[i as int]@);
            if i > 0 {
                assert(out@ =~= before + (seq![','] + spec_encode_call(cs.deep_view()[i as int])));
            } else {
                assert(out@ =~= before + spec_encode_call(cs.deep_view()[i as int]));
            }
            assert(out@ + spec_call_items(cs.deep_view(), i + 1) =~= before + spec_call_items(
                cs.deep_view(),
                i as int,
            ));
        }
        i = i + 1;
    }
    push_char(out, ']');
    proof {
        assert(spec_call_items(cs.deep_view(), cs@.len() as int) =~= Seq::<char>::empty());
        assert(out@ =~= old(out)@ + spec_encode_calls(cs.deep_view()));
    }
}

/// Append the canonical writing of one turn to `out`.
#[verifier::rlimit(60)]
pub fn push_turn(out: &mut String, m: &ChatMessage)
    ensures
        final(out)@ == old(out)@ + spec_encode_turn(m@),
{
    out.append("{\"role\":");
    push_role(out, m.role);
    out.append(",\"content\":");
    push_quoted(out, m.content.as_str());
    out.append(",\"tool_call_id\":");
    match &m.tool_call_id {
        Some(id) => push_quoted(out, id.as_str()),
        None => out.append("null"),
    }
    out.append(",\"tool_calls\":");
    match &m.tool_calls {
        Some(cs) => push_calls(out, cs),
        None => out.append("null"),
    }
    push_char(out, '}');
    proof {
        reveal(spec_encode_turn);
        reveal_strlit("{\"role\":");
        reveal_strlit(",\"content\":");
        reveal_strlit(",\"tool_call_id\":");
        reveal_strlit(",\"tool_calls\":");
        reveal_strlit("null");
        assert("{\"role\":"@ =~= lit_turn_open());
        assert(",\"content\":"@ =~= lit_content());
        assert(",\"tool_call_id\":"@ =~= lit_tool_call_id());
        assert(",\"tool_calls\":"@ =~= lit_tool_calls());
        assert("null"@ =~= lit_null());
        assert(out@ =~= old(out)@ + spec_encode_turn(m@));
    }
}

/// Append the canonical writing of a turn array to `out`.
pub fn push_turns(out: &mut String, ts: &Vec<ChatMessage>)
    ensures
        final(out)@ == old(out)@ + spec_encode_turns(ts.deep_view()),
{
    push_char(out, '[');
    let ghost opened = out@;
    let mut i: usize = 0;
    while i < ts.len()
        invariant
            i <= ts@.len(),
            ts.deep_view().len() == ts@.len(),
            out@ + spec_turn_items(ts.deep_view(), i as int) == opened + spec_turn_items(
                ts.deep_view(),
                0,
            ),
        decreases ts@.len() - i,
    {
        let ghost before = out@;
        if i > 0 {
            push_char(out, ',');
        }
        push_turn(out, &ts[i]);
        proof {
            assert(ts.deep_view()[i as int] == ts@[i as int]@);
            if i > 0 {
                assert(out@ =~= before + (seq![','] + spec_encode_turn(ts.deep_view()[i as int])));
            } else {
                assert(out@ =~= before + spec_encode_turn(ts.deep_view()[i as int]));
            }
            assert(out@ + spec_turn_items(ts.deep_view(), i + 1) =~= before + spec_turn_items(
                ts.deep_view(),
                i as int,
            ));
        }
        i = i + 1;
    }
    push_char(out, ']');
    proof {
        assert(spec_turn_items(ts.deep_view(), ts@.len() as int) =~= Seq::<char>::empty());
        assert(out@ =~= old(out)@ + spec_encode_turns(ts.deep_view()));
    }
}

/// The canonical frame text of a client message.
pub fn encode_client_message(m: &ClientMessage) -> (r: String)
    ensures
        r@ == spec_encode_client(m@),
{
    let mut out = String::new();
    match m {
        ClientMessage::ChatRequest(req) => {
            out.append("{\"type\":\"chat_request\",\"messages\":");
            push_turns(&mut out, &req.messages);
            push_char(&mut out, '}');
            proof {
                reveal_strlit("{\"type\":\"chat_request\",\"messages\":");
                assert("{\"type\":\"chat_request\",\"messages\":"@ =~= lit_chat_request_open());
                assert(out@ =~= spec_encode_client(m@));
            }
        },
        ClientMessage::ToolResult { id, content } => {
            out.append("{\"type\":\"tool_result\",\"id\":");
            push_quoted(&mut out, id.as_str());
            out.append(",\"content\":");
            push_quoted(&mut out, content.as_str());
            push_char(&mut out, '}');
            proof {
                reveal_strlit("{\"type\":\"tool_result\",\"id\":");
                reveal_strlit(",\"content\":");
                assert("{\"type\":\"tool_result\",\"id\":"@ =~= lit_tool_result_open());
                assert(",\"content\":"@ =~= lit_content());
                assert(out@ =~= spec_encode_client(m@));
            }
        },
    }
    out
}

/// The canonical frame text of a stream chunk.
pub fn encode_stream_chunk(c: &StreamChunk) -> (r: String)
    ensures
        r@ == spec_encode_chunk(c@),
{
    let mut out = String::new();
    match c {
        StreamChunk::Text { delta, done } => {
            out.append("{\"type\":\"text\",\"delta\":");
            push_quoted(&mut out, delta.as_str());
            out.append(",\"done\":");
            if *done {
                out.append("true");
            } else {
                out.append("false");
            }
            push_char(&mut out, '}');
            proof {
                reveal_strlit("{\"type\":\"text\",\"delta\":");
                reveal_strlit(",\"done\":");
                reveal_strlit("true");
                reveal_strlit("false");
                assert("{\"type\":\"text\",\"delta\":"@ =~= lit_text_open());
                assert(",\"done\":"@ =~= lit_done());
                assert("true"@ =~= lit_true());
                assert("false"@ =~= lit_false());
                assert(out@ =~= spec_encode_chunk(c@));
            }
        },
        StreamChunk::ToolCall { id, name, arguments } => {
            out.append("{\"type\":\"tool_call\",\"id\":");
            push_quoted(&mut out, id.as_str());
            out.append(",\"name\":");
            push_quoted(&mut out, name.as_str());
            out.append(",\"arguments\":");
            push_quoted(&mut out, arguments.as_str());
            push_char(&mut out, '}');
            proof {
                reveal_strlit("{\"type\":\"tool_call\",\"id\":");
                reveal_strlit(",\"name\":");
                reveal_strlit(",\"arguments\":");
                assert("{\"type\":\"tool_call\",\"id\":"@ =~= lit_tool_call_open());
                assert(",\"name\":"@ =~= lit_name());
                assert(",\"arguments\":"@ =~= lit_arguments());
                assert(out@ =~= spec_encode_chunk(c@));
            }
        },
        StreamChunk::ToolResult { id, content } => {
            out.append("{\"type\":\"tool_result\",\"id\":");
            push_quoted(&mut out, id.as_str());
            out.append(",\"content\":");
            push_quoted(&mut out, content.as_str());
            push_char(&mut out, '}');
            proof {
                reveal_strlit("{\"type\":\"tool_result\",\"id\":");
                reveal_strlit(",\"content\":");
                assert("{\"type\":\"tool_result\",\"id\":"@ =~= lit_tool_result_open());
                assert(",\"content\":"@ =~= lit_content());
                assert(out@ =~= spec_encode_chunk(c@));
            }
        },
    }
    out
}

// ---------------------------------------------------------------------
// The tolerant parse: the schema read back with the liberality JSON
// grants — whitespace between tokens, the two optional turn members
// absent or present — while field order and the canonical escapes
// (plus `\u00xx` for any code below 0x100) stay fixed.
// ---------------------------------------------------------------------

pub open spec fn lit_key_role() -> Seq<char> {
    seq!['r', 'o', 'l', 'e']
}

pub open spec fn lit_key_content() -> Seq<char> {
    seq!['c', 'o', 'n', 't', 'e', 'n', 't']
}

pub open spec fn lit_key_tool_call_id() -> Seq<char> {
    seq!['t', 'o', 'o', 'l', '_', 'c', 'a', 'l', 'l', '_', 'i', 'd']
}

pub open spec fn lit_key_tool_calls() -> Seq<char> {
    seq!['t', 'o', 'o', 'l', '_', 'c', 'a', 'l', 'l', 's']
}

pub open spec fn lit_key_id() -> Seq<char> {
    seq!['i', 'd']
}

pub open spec fn lit_key_name() -> Seq<char> {
    seq!['n', 'a', 'm', 'e']
}

pub open spec fn lit_key_arguments() -> Seq<char> {
    seq!['a', 'r', 'g', 'u', 'm', 'e', 'n', 't', 's']
}

pub open spec fn lit_key_type() -> Seq<char> {
    seq!['t', 'y', 'p', 'e']
}

pub open spec fn lit_key_messages() -> Seq<char> {
    seq!['m', 'e', 's', 's', 'a', 'g', 'e', 's']
}

pub open spec fn lit_key_delta() -> Seq<char> {
    seq!['d', 'e', 'l', 't', 'a']
}

pub open spec fn lit_key_done() -> Seq<char> {
    seq!['d', 'o', 'n', 'e']
}

pub open spec fn lit_name_system() -> Seq<char> {
    seq!['s', 'y', 's', 't', 'e', 'm']
}

pub open spec fn lit_name_user() -> Seq<char> {
    seq!['u', 's', 'e', 'r']
}

pub open spec fn lit_name_assistant() -> Seq<char> {
    seq!['a', 's', 's', 'i', 's', 't', 'a', 'n', 't']
}

pub open spec fn lit_name_tool() -> Seq<char> {
    seq!['t', 'o', 'o', 'l']
}

pub open spec fn lit_tag_chat_request() -> Seq<char> {
    seq!['c', 'h', 'a', 't', '_', 'r', 'e', 'q', 'u', 'e', 's', 't']
}

pub open spec fn lit_tag_tool_result() -> Seq<char> {
    seq!['t', 'o', 'o', 'l', '_', 'r', 'e', 's', 'u', 'l', 't']
}

pub open spec fn lit_tag_text() -> Seq<char> {
    seq!['t', 'e', 'x', 't']
}

pub open spec fn lit_tag_tool_call() -> Seq<char> {
    seq!['t', 'o', 'o', 'l', '_', 'c', 'a', 'l', 'l']
}

/// The position after a fixed run of characters, if it stands at `p`.
pub open spec fn spec_expect(s: Seq<char>, p: int, lit: Seq<char>) -> Option<int> {
    if 0 <= p && p + lit.len() <= s.len() && s.subrange(p, p + lit.len()) == lit {
        Some(p + lit.len())
    } else {
        None
    }
}

/// The position after one structural character, whitespace before it
/// allowed.
pub open spec fn spec_tok(s: Seq<char>, p: int, c: char) -> Option<int> {
    if 0 <= p <= s.len() {
        let q = spec_skip_ws(s, p);
        if p <= q && q < s.len() && s[q] == c {
            Some(q + 1)
        } else {
            None
        }
    } else {
        None
    }
}

/// The meaning of the canonical escape whose backslash stands just
/// before `p`: the named escapes, or `\u00xx` naming a code below 0x100.
pub open spec fn spec_parse_canon_escape(s: Seq<char>, p: int) -> Option<(char, int)> {
    if 0 <= p < s.len() {
        let c = s[p];
        if c == '"' {
            Some(('"', p + 1))
        } else if c == '\\' {
            Some(('\\', p + 1))
        } else if c == 'b' {
            Some(('\u{8}', p + 1))
        } else if c == 'f' {
            Some(('\u{c}', p + 1))
        } else if c == 'n' {
            Some(('\n', p + 1))
        } else if c == 'r' {
            Some(('\r', p + 1))
        } else if c == 't' {
            Some(('\t', p + 1))
        } else if c == 'u' {
            if p + 5 <= s.len() && s[p + 1] == '0' && s[p + 2] == '0' {
                let hi = crate::jsontext::spec_hex_val(s[p + 3]);
                let lo = crate::jsontext::spec_hex_val(s[p + 4]);
                if hi < 16 && lo < 16 {
                    Some((((hi * 16 + lo) as char), p + 5))
                } else {
                    None
                }
            } else {
                None
            }
        } else {
            None
        }
    } else {
        None
    }
}

/// The body of a string literal from `p` to its closing quote.
pub open spec fn spec_parse_qbody(s: Seq<char>, p: int) -> Option<(Seq<char>, int)>
    decreases s.len() - p,
    when 0 <= p <= s.len()
{
    if p >= s.len() {
        None
    } else {
        let c = s[p];
        if c == '"' {
            Some((Seq::empty(), p + 1))
        } else if c == '\\' {
            match spec_parse_canon_escape(s, p + 1) {
                Some((ec, q)) => {
                    if p + 1 < q <= s.len() {
                        match spec_parse_qbody(s, q) {
                            Some((rest, e)) => Some((seq![ec] + rest, e)),
                            None => None,
                        }
                    } else {
                        None
                    }
                },
                None => None,
            }
        } else if c <= '\u{1f}' {
            None
        } else {
            match spec_parse_qbody(s, p + 1) {
                Some((rest, e)) => Some((seq![c] + rest, e)),
                None => None,
            }
        }
    }
}

/// A whole string literal standing exactly at `p`.
pub open spec fn spec_parse_qstring(s: Seq<char>, p: int) -> Option<(Seq<char>, int)> {
    if 0 <= p < s.len() && s[p] == '"' {
        spec_parse_qbody(s, p + 1)
    } else {
        None
    }
}

/// A string literal, whitespace before it allowed.
pub open spec fn spec_ws_qstring(s: Seq<char>, p: int) -> Option<(Seq<char>, int)> {
    if 0 <= p <= s.len() {
        let q = spec_skip_ws(s, p);
        if p <= q && q <= s.len() {
            spec_parse_qstring(s, q)
        } else {
            None
        }
    } else {
        None
    }
}

/// A member's name and its colon: the quoted key, then `:`, whitespace
/// around both allowed.
pub open spec fn spec_key(s: Seq<char>, p: int, name: Seq<char>) -> Option<int> {
    match spec_ws_qstring(s, p) {
        Some((k, e)) => {
            if k == name {
                spec_tok(s, e, ':')
            } else {
                None
            }
        },
        None => None,
    }
}

/// A role value: a string naming one of the four roles.
pub open spec fn spec_parse_role(s: Seq<char>, p: int) -> Option<(MessageRole, int)> {
    match spec_ws_qstring(s, p) {
        Some((text, e)) => {
            if text == lit_name_system() {
                Some((MessageRole::System, e))
            } else if text == lit_name_user() {
                Some((MessageRole::User, e))
            } else if text == lit_name_assistant() {
                Some((MessageRole::Assistant, e))
            } else if text == lit_name_tool() {
                Some((MessageRole::Tool, e))
            } else {
                None
            }
        },
        None => None,
    }
}

/// A boolean value.
pub open spec fn spec_parse_bool(s: Seq<char>, p: int) -> Option<(bool, int)> {
    if 0 <= p <= s.len() {
        let q = spec_skip_ws(s, p);
        if p <= q && q < s.len() {
            if s[q] == 't' {
                match spec_expect(s, q, lit_true()) {
                    Some(e) => Some((true, e)),
                    None => None,
                }
            } else if s[q] == 'f' {
                match spec_expect(s, q, lit_false()) {
                    Some(e) => Some((false, e)),
                    None => None,
                }
            } else {
                None
            }
        } else {
            None
        }
    } else {
        None
    }
}

/// A string value or `null`.
pub open spec fn spec_parse_opt_qstring(s: Seq<char>, p: int) -> Option<(Option<Seq<char>>, int)> {
    if 0 <= p <= s.len() {
        let q = spec_skip_ws(s, p);
        if p <= q && q < s.len() {
            if s[q] == 'n' {
                match spec_expect(s, q, lit_null()) {
                    Some(e) => Some((None, e)),
                    None => None,
                }
            } else {
                match spec_parse_qstring(s, q) {
                    Some((text, e)) => Some((Some(text), e)),
                    None => None,
                }
            }
        } else {
            None
        }
    } else {
        None
    }
}

/// One tool-call object at `p`.
pub open spec fn spec_parse_call(s: Seq<char>, p: int) -> Option<(ToolCallV, int)> {
    match spec_tok(s, p, '{') {
        Some(p1) => match spec_key(s, p1, lit_key_id()) {
            Some(p2) => match spec_ws_qstring(s, p2) {
                Some((id, p3)) => match spec_tok(s, p3, ',') {
                    Some(p4) => match spec_key(s, p4, lit_key_name()) {
                        Some(p5) => match spec_ws_qstring(s, p5) {
                            Some((name, p6)) => match spec_tok(s, p6, ',') {
                                Some(p7) => match spec_key(s, p7, lit_key_arguments()) {
                                    Some(p8) => match spec_ws_qstring(s, p8) {
                                        Some((arguments, p9)) => match spec_tok(s, p9, '}') {
                                            Some(e) => Some(
                                                (ToolCallV { id, name, arguments }, e),
                                            ),
                                            None => None,
                                        },
                                        None => None,
                                    },
                                    None => None,
                                },
                                None => None,
                            },
                            None => None,
                        },
                        None => None,
                    },
                    None => None,
                },
                None => None,
            },
            None => None,
        },
        None => None,
    }
}

/// A non-empty chain of tool-call objects, comma-separated, closed by a
/// bracket.
pub open spec fn spec_parse_call_chain(s: Seq<char>, p: int) -> Option<(Seq<ToolCallV>, int)>
    decreases s.len() - p,
    when 0 <= p <= s.len()
{
    match spec_parse_call(s, p) {
        Some((c, q)) => {
            if p < q && q <= s.len() {
                let r = spec_skip_ws(s, q);
                if q <= r && r < s.len() {
                    if s[r] == ']' {
                        Some((seq![c], r + 1))
                    } else if s[r] == ',' {
                        match spec_parse_call_chain(s, r + 1) {
                            Some((rest, e)) => Some((seq![c] + rest, e)),
                            None => None,
                        }
                    } else {
                        None
                    }
                } else {
                    None
                }
            } else {
                None
            }
        },
        None => None,
    }
}

/// A tool-call array at `p`.
pub open spec fn spec_parse_calls(s: Seq<char>, p: int) -> Option<(Seq<ToolCallV>, int)> {
    match spec_tok(s, p, '[') {
        Some(r) => {
            if r <= s.len() {
                let q = spec_skip_ws(s, r);
                if r <= q && q < s.len() && s[q] == ']' {
                    Some((Seq::empty(), q + 1))
                } else {
                    spec_parse_call_chain(s, r)
                }
            } else {
                None
            }
        },
        None => None,
    }
}

/// A tool-call array or `null`.
pub open spec fn spec_parse_opt_calls(s: Seq<char>, p: int) -> Option<
    (Option<Seq<ToolCallV>>, int),
> {
    if 0 <= p <= s.len() {
        let q = spec_skip_ws(s, p);
        if p <= q && q < s.len() {
            if s[q] == 'n' {
                match spec_expect(s, q, lit_null()) {
                    Some(e) => Some((None, e)),
                    None => None,
                }
            } else {
                match spec_parse_calls(s, q) {
                    Some((cs, e)) => Some((Some(cs), e)),
                    None => None,
                }
            }
        } else {
            None
        }
    } else {
        None
    }
}

/// What follows a turn's `content` value: the closing brace at once —
/// both optional members absent — or `tool_call_id` and then possibly
/// `tool_calls`, or `tool_calls` alone, in that order.
pub open spec fn spec_parse_turn_tail(s: Seq<char>, p: int) -> Option<
    ((Option<Seq<char>>, Option<Seq<ToolCallV>>), int),
> {
    if 0 <= p <= s.len() {
        let q = spec_skip_ws(s, p);
        if p <= q && q < s.len() {
            if s[q] == '}' {
                Some(((None, None), q + 1))
            } else if s[q] == ',' {
                match spec_ws_qstring(s, q + 1) {
                    Some((k, e)) => {
                        if k == lit_key_tool_call_id() {
                            match spec_tok(s, e, ':') {
                                Some(v) => match spec_parse_opt_qstring(s, v) {
                                    Some((id, w)) => spec_parse_turn_tail_calls(s, w, id),
                                    None => None,
                                },
                                None => None,
                            }
                        } else if k == lit_key_tool_calls() {
                            match spec_tok(s, e, ':') {
                                Some(v) => match spec_parse_opt_calls(s, v) {
                                    Some((calls, w)) => match spec_tok(s, w, '}') {
                                        Some(e2) => Some(((None, calls), e2)),
                                        None => None,
                                    },
                                    None => None,
                                },
                                None => None,
                            }
                        } else {
                            None
                        }
                    },
                    None => None,
                }
            } else {
                None
            }
        } else {
            None
        }
    } else {
        None
    }
}

/// What follows a turn's `tool_call_id` value: the closing brace —
/// `tool_calls` absent — or the `tool_calls` member and the brace.
pub open spec fn spec_parse_turn_tail_calls(s: Seq<char>, p: int, id: Option<Seq<char>>) -> Option<
    ((Option<Seq<char>>, Option<Seq<ToolCallV>>), int),
> {
    if 0 <= p <= s.len() {
        let q = spec_skip_ws(s, p);
        if p <= q && q < s.len() {
            if s[q] == '}' {
                Some(((id, None), q + 1))
            } else if s[q] == ',' {
                match spec_key(s, q + 1, lit_key_tool_calls()) {
                    Some(v) => match spec_parse_opt_calls(s, v) {
                        Some((calls, w)) => match spec_tok(s, w, '}') {
                            Some(e) => Some(((id, calls), e)),
                            None => None,
                        },
                        None => None,
                    },
                    None => None,
                }
            } else {
                None
            }
        } else {
            None
        }
    } else {
        None
    }
}

/// One turn object at `p`: `role` and `content` always, then the tail.
#[verifier::opaque]
pub open spec fn spec_parse_turn(s: Seq<char>, p: int) -> Option<(ChatMessageV, int)> {
    match spec_tok(s, p, '{') {
        Some(p1) => match spec_key(s, p1, lit_key_role()) {
            Some(p2) => match spec_parse_role(s, p2) {
                Some((role, p3)) => match spec_tok(s, p3, ',') {
                    Some(p4) => match spec_key(s, p4, lit_key_content()) {
                        Some(p5) => match spec_ws_qstring(s, p5) {
                            Some((content, p6)) => match spec_parse_turn_tail(s, p6) {
                                Some(((tool_call_id, tool_calls), e)) => Some(
                                    (
                                        ChatMessageV { role, content, tool_call_id, tool_calls },
                                        e,
                                    ),
                                ),
                                None => None,
                            },
                            None => None,
                        },
                        None => None,
                    },
                    None => None,
                },
                None => None,
            },
            None => None,
        },
        None => None,
    }
}

/// A non-empty chain of turn objects, comma-separated, closed by a
/// bracket.
pub open spec fn spec_parse_turn_chain(s: Seq<char>, p: int) -> Option<(Seq<ChatMessageV>, int)>
    decreases s.len() - p,
    when 0 <= p <= s.len()
{
    match spec_parse_turn(s, p) {
        Some((t, q)) => {
            if p < q && q <= s.len() {
                let r = spec_skip_ws(s, q);
                if q <= r && r < s.len() {
                    if s[r] == ']' {
                        Some((seq![t], r + 1))
                    } else if s[r] == ',' {
                        match spec_parse_turn_chain(s, r + 1) {
                            Some((rest, e)) => Some((seq![t] + rest, e)),
                            None => None,
                        }
                    } else {
                        None
                    }
                } else {
                    None
                }
            } else {
                None
            }
        },
        None => None,
    }
}

/// A turn array at `p`.
pub open spec fn spec_parse_turns(s: Seq<char>, p: int) -> Option<(Seq<ChatMessageV>, int)> {
    match spec_tok(s, p, '[') {
        Some(r) => {
            if r <= s.len() {
                let q = spec_skip_ws(s, r);
                if r <= q && q < s.len() && s[q] == ']' {
                    Some((Seq::empty(), q + 1))
                } else {
                    spec_parse_turn_chain(s, r)
                }
            } else {
                None
            }
        },
        None => None,
    }
}

/// One client-message frame at `p`: the `type` discriminant first, then
/// the variant's members; an unknown tag refuses the frame.
pub open spec fn spec_parse_client(s: Seq<char>, p: int) -> Option<(ClientMessageV, int)> {
    match spec_tok(s, p, '{') {
        Some(p1) => match spec_key(s, p1, lit_key_type()) {
            Some(p2) => match spec_ws_qstring(s, p2) {
                Some((tag, p3)) => {
                    if tag == lit_tag_chat_request() {
                        match spec_tok(s, p3, ',') {
                            Some(p4) => match spec_key(s, p4, lit_key_messages()) {
                                Some(p5) => match spec_parse_turns(s, p5) {
                                    Some((msgs, p6)) => match spec_tok(s, p6, '}') {
                                        Some(e) => Some((ClientMessageV::ChatRequest(msgs), e)),
                                        None => None,
                                    },
                                    None => None,
                                },
                                None => None,
                            },
                            None => None,
                        }
                    } else if tag == lit_tag_tool_result() {
                        match spec_tok(s, p3, ',') {
                            Some(p4) => match spec_key(s, p4, lit_key_id()) {
                                Some(p5) => match spec_ws_qstring(s, p5) {
                                    Some((id, p6)) => match spec_tok(s, p6, ',') {
                                        Some(p7) => match spec_key(s, p7, lit_key_content()) {
                                            Some(p8) => match spec_ws_qstring(s, p8) {
                                                Some((content, p9)) => match spec_tok(
                                                    s,
                                                    p9,
                                                    '}',
                                                ) {
                                                    Some(e) => Some(
                                                        (
                                                            ClientMessageV::ToolResult {
                                                                id,
                                                                content,
                                                            },
                                                            e,
                                                        ),
                                                    ),
                                                    None => None,
                                                },
                                                None => None,
                                            },
                                            None => None,
                                        },
                                        None => None,
                                    },
                                    None => None,
                                },
                                None => None,
                            },
                            None => None,
                        }
                    } else {
                        None
                    }
                },
                None => None,
            },
            None => None,
        },
        None => None,
    }
}

/// One stream-chunk frame at `p`: the `type` discriminant first, then
/// the variant's members; an unknown tag refuses the frame.
pub open spec fn spec_parse_chunk(s: Seq<char>, p: int) -> Option<(StreamChunkV, int)> {
    match spec_tok(s, p, '{') {
        Some(p1) => match spec_key(s, p1, lit_key_type()) {
            Some(p2) => match spec_ws_qstring(s, p2) {
                Some((tag, p3)) => {
                    if tag == lit_tag_text() {
                        match spec_tok(s, p3, ',') {
                            Some(p4) => match spec_key(s, p4, lit_key_delta()) {
                                Some(p5) => match spec_ws_qstring(s, p5) {
                                    Some((delta, p6)) => match spec_tok(s, p6, ',') {
                                        Some(p7) => match spec_key(s, p7, lit_key_done()) {
                                            Some(p8) => match spec_parse_bool(s, p8) {
                                                Some((done, p9)) => match spec_tok(s, p9, '}') {
                                                    Some(e) => Some(
                                                        (StreamChunkV::Text { delta, done }, e),
                                                    ),
                                                    None => None,
                                                },
                                                None => None,
                                            },
                                            None => None,
                                        },
                                        None => None,
                                    },
                                    None => None,
                                },
                                None => None,
                            },
                            None => None,
                        }
                    } else if tag == lit_tag_tool_call() {
                        match spec_tok(s, p3, ',') {
                            Some(p4) => match spec_key(s, p4, lit_key_id()) {
                                Some(p5) => match spec_ws_qstring(s, p5) {
                                    Some((id, p6)) => match spec_tok(s, p6, ',') {
                                        Some(p7) => match spec_key(s, p7, lit_key_name()) {
                                            Some(p8) => match spec_ws_qstring(s, p8) {
                                                Some((name, p9)) => match spec_tok(s, p9, ',') {
                                                    Some(p10) => match spec_key(
                                                        s,
                                                        p10,
                                                        lit_key_arguments(),
                                                    ) {
                                                        Some(p11) => match spec_ws_qstring(
                                                            s,
                                                            p11,
                                                        ) {
                                                            Some((arguments, p12)) => match
                                                                spec_tok(s, p12, '}') {
                                                                Some(e) => Some(
                                                                    (
                                                                        StreamChunkV::ToolCall {
                                                                            id,
                                                                            name,
                                                                            arguments,
                                                                        },
                                                                        e,
                                                                    ),
                                                                ),
                                                                None => None,
                                                            },
                                                            None => None,
                                                        },
                                                        None => None,
                                                    },
                                                    None => None,
                                                },
                                                None => None,
                                            },
                                            None => None,
                                        },
                                        None => None,
                                    },
                                    None => None,
                                },
                                None => None,
                            },
                            None => None,
                        }
                    } else if tag == lit_tag_tool_result() {
                        match spec_tok(s, p3, ',') {
                            Some(p4) => match spec_key(s, p4, lit_key_id()) {
                                Some(p5) => match spec_ws_qstring(s, p5) {
                                    Some((id, p6)) => match spec_tok(s, p6, ',') {
                                        Some(p7) => match spec_key(s, p7, lit_key_content()) {
                                            Some(p8) => match spec_ws_qstring(s, p8) {
                                                Some((content, p9)) => match spec_tok(
                                                    s,
                                                    p9,
                                                    '}',
                                                ) {
                                                    Some(e) => Some(
                                                        (
                                                            StreamChunkV::ToolResult {
                                                                id,
                                                                content,
                                                            },
                                                            e,
                                                        ),
                                                    ),
                                                    None => None,
                                                },
                                                None => None,
                                            },
                                            None => None,
                                        },
                                        None => None,
                                    },
                                    None => None,
                                },
                                None => None,
                            },
                            None => None,
                        }
                    } else {
                        None
                    }
                },
                None => None,
            },
            None => None,
        },
        None => None,
    }
}

/// What a whole client frame decodes to: one message, with nothing but
/// whitespace around it.
pub open spec fn spec_decode_client(s: Seq<char>) -> Option<ClientMessageV> {
    match spec_parse_client(s, 0) {
        Some((m, q)) => {
            if 0 <= q <= s.len() && spec_skip_ws(s, q) == s.len() {
                Some(m)
            } else {
                None
            }
        },
        None => None,
    }
}

/// What a whole chunk frame decodes to: one chunk, with nothing but
/// whitespace around it.
pub open spec fn spec_decode_chunk(s: Seq<char>) -> Option<StreamChunkV> {
    match spec_parse_chunk(s, 0) {
        Some((c, q)) => {
            if 0 <= q <= s.len() && spec_skip_ws(s, q) == s.len() {
                Some(c)
            } else {
                None
            }
        },
        None => None,
    }
}

// ---------------------------------------------------------------------
// The executable decoder.
// ---------------------------------------------------------------------

/// Step past a fixed run of characters.
pub fn expect_lit(s: &Vec<char>, p: usize, lit: &str) -> (r: Option<usize>)
    requires
        p <= s@.len(),
    ensures
        match r {
            Some(q) => spec_expect(s@, p as int, lit@) == Some(q as int) && p <= q <= s@.len(),
            None => spec_expect(s@, p as int, lit@) is None,
        },
{
    let n = lit.unicode_len();
    if n > s.len() - p {
        return None;
    }
    let mut i: usize = 0;
    while i < n
        invariant
            n == lit@.len(),
            p + n <= s@.len(),
            i <= n,
            s@.subrange(p as int, p + i) == lit@.subrange(0, i as int),
        decreases n - i,
    {
        let bound = s.len();
        proof {
            assert(p + i < bound);
        }
        if s[p + i] != lit.get_char(i) {
            proof {
                if s@.subrange(p as int, p + n) == lit@ {
                    assert(s@.subrange(p as int, p + n)[i as int] == lit@[i as int]);
                }
            }
            return None;
        }
        proof {
            assert(s@.subrange(p as int, p + i + 1) =~= s@.subrange(p as int, p + i).push(
                s@[p + i],
            ));
            assert(lit@.subrange(0, i + 1) =~= lit@.subrange(0, i as int).push(lit@[i as int]));
        }
        i = i + 1;
    }
    proof {
        assert(lit@.subrange(0, n as int) =~= lit@);
        assert(spec_expect(s@, p as int, lit@) == Some(p + n as int));
    }
    Some(p + n)
}

/// Step past one structural character, whitespace before it allowed.
pub fn tok(s: &Vec<char>, p: usize, c: char) -> (r: Option<usize>)
    requires
        p <= s@.len(),
    ensures
        match r {
            Some(q) => spec_tok(s@, p as int, c) == Some(q as int) && p < q <= s@.len(),
            None => spec_tok(s@, p as int, c) is None,
        },
{
    let q = skip_ws(s, p);
    if q < s.len() && s[q] == c {
        Some(q + 1)
    } else {
        None
    }
}

/// Decode the canonical escape whose backslash stands just before `p`.
pub fn parse_canon_escape(s: &Vec<char>, p: usize) -> (r: Option<(char, usize)>)
    requires
        p <= s@.len(),
    ensures
        match r {
            Some((c, q)) => spec_parse_canon_escape(s@, p as int) == Some((c, q as int)) && p < q
                <= s@.len(),
            None => spec_parse_canon_escape(s@, p as int) is None,
        },
{
    if p >= s.len() {
        return None;
    }
    let c = s[p];
    if c == '"' {
        Some(('"', p + 1))
    } else if c == '\\' {
        Some(('\\', p + 1))
    } else if c == 'b' {
        Some(('\u{8}', p + 1))
    } else if c == 'f' {
        Some(('\u{c}', p + 1))
    } else if c == 'n' {
        Some(('\n', p + 1))
    } else if c == 'r' {
        Some(('\r', p + 1))
    } else if c == 't' {
        Some(('\t', p + 1))
    } else if c == 'u' {
        if s.len() - p >= 5 && s[p + 1] == '0' && s[p + 2] == '0' {
            let hi = crate::jsontext::hex_val(s[p + 3]);
            let lo = crate::jsontext::hex_val(s[p + 4]);
            if hi < 16 && lo < 16 {
                match crate::jsontext::char_from_u32(hi * 16 + lo) {
                    Some(ec) => Some((ec, p + 5)),
                    None => None,
                }
            } else {
                None
            }
        } else {
            None
        }
    } else {
        None
    }
}

/// Read the body of a string literal up to its closing quote.
pub fn parse_qbody(s: &Vec<char>, p: usize) -> (r: Option<(String, usize)>)
    requires
        p <= s@.len(),
    ensures
        match r {
            Some((text, q)) => spec_parse_qbody(s@, p as int) == Some((text@, q as int)) && p < q
                <= s@.len(),
            None => spec_parse_qbody(s@, p as int) is None,
        },
    decreases s@.len() - p,
{
    if p >= s.len() {
        return None;
    }
    let c = s[p];
    if c == '"' {
        let text = String::new();
        proof {
            assert(text@ =~= Seq::<char>::empty());
        }
        Some((text, p + 1))
    } else if c == '\\' {
        match parse_canon_escape(s, p + 1) {
            Some((ec, q)) => {
                match parse_qbody(s, q) {
                    Some((rest, e)) => {
                        let mut text = String::new();
                        push_char(&mut text, ec);
                        text.append(rest.as_str());
                        proof {
                            assert(text@ =~= seq![ec] + rest@);
                        }
                        Some((text, e))
                    },
                    None => None,
                }
            },
            None => None,
        }
    } else if c <= '\u{1f}' {
        None
    } else {
        match parse_qbody(s, p + 1) {
            Some((rest, e)) => {
                let mut text = String::new();
                push_char(&mut text, c);
                text.append(rest.as_str());
                proof {
                    assert(text@ =~= seq![c] + rest@);
                }
                Some((text, e))
            },
            None => None,
        }
    }
}

/// Read a whole string literal standing exactly at `p`.
pub fn parse_qstring(s: &Vec<char>, p: usize) -> (r: Option<(String, usize)>)
    requires
        p <= s@.len(),
    ensures
        match r {
            Some((text, q)) => spec_parse_qstring(s@, p as int) == Some((text@, q as int)) && p < q
                <= s@.len(),
            None => spec_parse_qstring(s@, p as int) is None,
        },
{
    if p < s.len() && s[p] == '"' {
        parse_qbody(s, p + 1)
    } else {
        None
    }
}

/// Read a string literal, whitespace before it allowed.
pub fn ws_qstring(s: &Vec<char>, p: usize) -> (r: Option<(String, usize)>)
    requires
        p <= s@.len(),
    ensures
        match r {
            Some((text, q)) => spec_ws_qstring(s@, p as int) == Some((text@, q as int)) && p < q
                <= s@.len(),
            None => spec_ws_qstring(s@, p as int) is None,
        },
{
    let q = skip_ws(s, p);
    parse_qstring(s, q)
}

/// Read a member's name and its colon.
pub fn key(s: &Vec<char>, p: usize, name: &str) -> (r: Option<usize>)
    requires
        p <= s@.len(),
    ensures
        match r {
            Some(q) => spec_key(s@, p as int, name@) == Some(q as int) && p < q <= s@.len(),
            None => spec_key(s@, p as int, name@) is None,
        },
{
    match ws_qstring(s, p) {
        Some((k, e)) => {
            if str_eq(k.as_str(), name) {
                tok(s, e, ':')
            } else {
                None
            }
        },
        None => None,
    }
}

/// Read a role value.
pub fn parse_role(s: &Vec<char>, p: usize) -> (r: Option<(MessageRole, usize)>)
    requires
        p <= s@.len(),
    ensures
        match r {
            Some((role, q)) => spec_parse_role(s@, p as int) == Some((role, q as int)) && p < q
                <= s@.len(),
            None => spec_parse_role(s@, p as int) is None,
        },
{
    proof {
        reveal_strlit("system");
        reveal_strlit("user");
        reveal_strlit("assistant");
        reveal_strlit("tool");
        assert("system"@ =~= lit_name_system());
        assert("user"@ =~= lit_name_user());
        assert("assistant"@ =~= lit_name_assistant());
        assert("tool"@ =~= lit_name_tool());
    }
    match ws_qstring(s, p) {
        Some((text, e)) => {
            if str_eq(text.as_str(), "system") {
                Some((MessageRole::System, e))
            } else if str_eq(text.as_str(), "user") {
                Some((MessageRole::User, e))
            } else if str_eq(text.as_str(), "assistant") {
                Some((MessageRole::Assistant, e))
            } else if str_eq(text.as_str(), "tool") {
                Some((MessageRole::Tool, e))
            } else {
                None
            }
        },
        None => None,
    }
}

/// Read a boolean value.
pub fn parse_bool(s: &Vec<char>, p: usize) -> (r: Option<(bool, usize)>)
    requires
        p <= s@.len(),
    ensures
        match r {
            Some((b, q)) => spec_parse_bool(s@, p as int) == Some((b, q as int)) && p < q
                <= s@.len(),
            None => spec_parse_bool(s@, p as int) is None,
        },
{
    proof {
        reveal_strlit("true");
        reveal_strlit("false");
        assert("true"@ =~= lit_true());
        assert("false"@ =~= lit_false());
    }
    let q = skip_ws(s, p);
    if q >= s.len() {
        return None;
    }
    if s[q] == 't' {
        match expect_lit(s, q, "true") {
            Some(e) => Some((true, e)),
            None => None,
        }
    } else if s[q] == 'f' {
        match expect_lit(s, q, "false") {
            Some(e) => Some((false, e)),
            None => None,
        }
    } else {
        None
    }
}

/// Read a string value or `null`.
pub fn parse_opt_qstring(s: &Vec<char>, p: usize) -> (r: Option<(Option<String>, usize)>)
    requires
        p <= s@.len(),
    ensures
        match r {
            Some((text, q)) => spec_parse_opt_qstring(s@, p as int) == Some(
                (
                    match text {
                        Some(t) => Some(t@),
                        None => None,
                    },
                    q as int,
                ),
            ) && p <= q <= s@.len(),
            None => spec_parse_opt_qstring(s@, p as int) is None,
        },
{
    proof {
        reveal_strlit("null");
        assert("null"@ =~= lit_null());
    }
    let q = skip_ws(s, p);
    if q >= s.len() {
        return None;
    }
    if s[q] == 'n' {
        match expect_lit(s, q, "null") {
            Some(e) => Some((None, e)),
            None => None,
        }
    } else {
        match parse_qstring(s, q) {
            Some((text, e)) => Some((Some(text), e)),
            None => None,
        }
    }
}

/// Read one tool-call object at `p`.
pub fn parse_call(s: &Vec<char>, p: usize) -> (r: Option<(ToolCall, usize)>)
    requires
        p <= s@.len(),
    ensures
        match r {
            Some((c, q)) => spec_parse_call(s@, p as int) == Some((c@, q as int)) && p < q
                <= s@.len(),
            None => spec_parse_call(s@, p as int) is None,
        },
{
    proof {
        reveal_strlit("id");
        reveal_strlit("name");
        reveal_strlit("arguments");
        assert("id"@ =~= lit_key_id());
        assert("name"@ =~= lit_key_name());
        assert("arguments"@ =~= lit_key_arguments());
    }
    let p1 = match tok(s, p, '{') {
        Some(q) => q,
        None => {
            return None;
        },
    };
    let p2 = match key(s, p1, "id") {
        Some(q) => q,
        None => {
            return None;
        },
    };
    let (id, p3) = match ws_qstring(s, p2) {
        Some(v) => v,
        None => {
            return None;
        },
    };
    let p4 = match tok(s, p3, ',') {
        Some(q) => q,
        None => {
            return None;
        },
    };
    let p5 = match key(s, p4, "name") {
        Some(q) => q,
        None => {
            return None;
        },
    };
    let (name, p6) = match ws_qstring(s, p5) {
        Some(v) => v,
        None => {
            return None;
        },
    };
    let p7 = match tok(s, p6, ',') {
        Some(q) => q,
        None => {
            return None;
        },
    };
    let p8 = match key(s, p7, "arguments") {
        Some(q) => q,
        None => {
            return None;
        },
    };
    let (arguments, p9) = match ws_qstring(s, p8) {
        Some(v) => v,
        None => {
            return None;
        },
    };
    match tok(s, p9, '}') {
        Some(e) => Some((ToolCall { id, name, arguments }, e)),
        None => None,
    }
}

/// Read a non-empty chain of tool-call objects closed by a bracket.
pub fn parse_call_chain(s: &Vec<char>, p: usize) -> (r: Option<(Vec<ToolCall>, usize)>)
    requires
        p <= s@.len(),
    ensures
        match r {
            Some((cs, q)) => spec_parse_call_chain(s@, p as int) == Some(
                (cs.deep_view(), q as int),
            ) && p < q <= s@.len(),
            None => spec_parse_call_chain(s@, p as int) is None,
        },
    decreases s@.len() - p,
{
    let (c, q) = match parse_call(s, p) {
        Some(v) => v,
        None => {
            return None;
        },
    };
    let r = skip_ws(s, q);
    if r >= s.len() {
        return None;
    }
    if s[r] == ']' {
        let mut cs: Vec<ToolCall> = Vec::new();
        cs.push(c);
        proof {
            assert(cs.deep_view() =~= seq![cs@[0]@]);
        }
        Some((cs, r + 1))
    } else if s[r] == ',' {
        match parse_call_chain(s, r + 1) {
            Some((mut rest, e)) => {
                let ghost restv = rest.deep_view();
                rest.insert(0, c);
                proof {
                    assert(rest.deep_view() =~= seq![rest@[0]@] + restv);
                }
                Some((rest, e))
            },
            None => None,
        }
    } else {
        None
    }
}

/// Read a tool-call array at `p`.
pub fn parse_calls(s: &Vec<char>, p: usize) -> (r: Option<(Vec<ToolCall>, usize)>)
    requires
        p <= s@.len(),
    ensures
        match r {
            Some((cs, q)) => spec_parse_calls(s@, p as int) == Some((cs.deep_view(), q as int))
                && p < q <= s@.len(),
            None => spec_parse_calls(s@, p as int) is None,
        },
{
    let r = match tok(s, p, '[') {
        Some(q) => q,
        None => {
            return None;
        },
    };
    let q = skip_ws(s, r);
    if q < s.len() && s[q] == ']' {
        let cs: Vec<ToolCall> = Vec::new();
        proof {
            assert(cs.deep_view() =~= Seq::<ToolCallV>::empty());
        }
        Some((cs, q + 1))
    } else {
        parse_call_chain(s, r)
    }
}

/// Read a tool-call array or `null`.
pub fn parse_opt_calls(s: &Vec<char>, p: usize) -> (r: Option<(Option<Vec<ToolCall>>, usize)>)
    requires
        p <= s@.len(),
    ensures
        match r {
            Some((cs, q)) => spec_parse_opt_calls(s@, p as int) == Some(
                (
                    match cs {
                        Some(v) => Some(v.deep_view()),
                        None => None,
                    },
                    q as int,
                ),
            ) && p <= q <= s@.len(),
            None => spec_parse_opt_calls(s@, p as int) is None,
        },
{
    proof {
        reveal_strlit("null");
        assert("null"@ =~= lit_null());
    }
    let q = skip_ws(s, p);
    if q >= s.len() {
        return None;
    }
    if s[q] == 'n' {
        match expect_lit(s, q, "null") {
            Some(e) => Some((None, e)),
            None => None,
        }
    } else {
        match parse_calls(s, q) {
            Some((cs, e)) => Some((Some(cs), e)),
            None => None,
        }
    }
}

/// Read what follows a turn's `tool_call_id` value.
pub fn parse_turn_tail_calls(s: &Vec<char>, p: usize, id: Option<String>) -> (r: Option<
    ((Option<String>, Option<Vec<ToolCall>>), usize),
>)
    requires
        p <= s@.len(),
    ensures
        match r {
            Some(((rid, rcalls), q)) => spec_parse_turn_tail_calls(
                s@,
                p as int,
                match id {
                    Some(t) => Some(t@),
                    None => None,
                },
            ) == Some(
                (
                    (
                        match rid {
                            Some(t) => Some(t@),
                            None => None,
                        },
                        match rcalls {
                            Some(v) => Some(v.deep_view()),
                            None => None,
                        },
                    ),
                    q as int,
                ),
            ) && p < q <= s@.len(),
            None => spec_parse_turn_tail_calls(
                s@,
                p as int,
                match id {
                    Some(t) => Some(t@),
                    None => None,
                },
            ) is None,
        },
{
    proof {
        reveal_strlit("tool_calls");
        assert("tool_calls"@ =~= lit_key_tool_calls());
    }
    let q = skip_ws(s, p);
    if q >= s.len() {
        return None;
    }
    if s[q] == '}' {
        Some(((id, None), q + 1))
    } else if s[q] == ',' {
        let v = match key(s, q + 1, "tool_calls") {
            Some(x) => x,
            None => {
                return None;
            },
        };
        let (calls, w) = match parse_opt_calls(s, v) {
            Some(x) => x,
            None => {
                return None;
            },
        };
        match tok(s, w, '}') {
            Some(e) => Some(((id, calls), e)),
            None => None,
        }
    } else {
        None
    }
}

/// Read what follows a turn's `content` value.
pub fn parse_turn_tail(s: &Vec<char>, p: usize) -> (r: Option<
    ((Option<String>, Option<Vec<ToolCall>>), usize),
>)
    requires
        p <= s@.len(),
    ensures
        match r {
            Some(((rid, rcalls), q)) => spec_parse_turn_tail(s@, p as int) == Some(
                (
                    (
                        match rid {
                            Some(t) => Some(t@),
                            None => None,
                        },
                        match rcalls {
                            Some(v) => Some(v.deep_view()),
                            None => None,
                        },
                    ),
                    q as int,
                ),
            ) && p < q <= s@.len(),
            None => spec_parse_turn_tail(s@, p as int) is None,
        },
{
    proof {
        reveal_strlit("tool_call_id");
        reveal_strlit("tool_calls");
        assert("tool_call_id"@ =~= lit_key_tool_call_id());
        assert("tool_calls"@ =~= lit_key_tool_calls());
    }
    let q = skip_ws(s, p);
    if q >= s.len() {
        return None;
    }
    if s[q] == '}' {
        Some(((None, None), q + 1))
    } else if s[q] == ',' {
        let (k, e) = match ws_qstring(s, q + 1) {
            Some(v) => v,
            None => {
                return None;
            },
        };
        if str_eq(k.as_str(), "tool_call_id") {
            let v = match tok(s, e, ':') {
                Some(x) => x,
                None => {
                    return None;
                },
            };
            let (id, w) = match parse_opt_qstring(s, v) {
                Some(x) => x,
                None => {
                    return None;
                },
            };
            parse_turn_tail_calls(s, w, id)
        } else if str_eq(k.as_str(), "tool_calls") {
            let v = match tok(s, e, ':') {
                Some(x) => x,
                None => {
                    return None;
                },
            };
            let (calls, w) = match parse_opt_calls(s, v) {
                Some(x) => x,
                None => {
                    return None;
                },
            };
            match tok(s, w, '}') {
                Some(e2) => Some(((None, calls), e2)),
                None => None,
            }
        } else {
            None
        }
    } else {
        None
    }
}

/// Read one turn object at `p`.
pub fn parse_turn(s: &Vec<char>, p: usize) -> (r: Option<(ChatMessage, usize)>)
    requires
        p <= s@.len(),
    ensures
        match r {
            Some((m, q)) => spec_parse_turn(s@, p as int) == Some((m@, q as int)) && p < q
                <= s@.len(),
            None => spec_parse_turn(s@, p as int) is None,
        },
{
    proof {
        reveal(spec_parse_turn);
        reveal_strlit("role");
        reveal_strlit("content");
        assert("role"@ =~= lit_key_role());
        assert("content"@ =~= lit_key_content());
    }
    let p1 = match tok(s, p, '{') {
        Some(q) => q,
        None => {
            return None;
        },
    };
    let p2 = match key(s, p1, "role") {
        Some(q) => q,
        None => {
            return None;
        },
    };
    let (role, p3) = match parse_role(s, p2) {
        Some(v) => v,
        None => {
            return None;
        },
    };
    let p4 = match tok(s, p3, ',') {
        Some(q) => q,
        None => {
            return None;
        },
    };
    let p5 = match key(s, p4, "content") {
        Some(q) => q,
        None => {
            return None;
        },
    };
    let (content, p6) = match ws_qstring(s, p5) {
        Some(v) => v,
        None => {
            return None;
        },
    };
    match parse_turn_tail(s, p6) {
        Some(((tool_call_id, tool_calls), e)) => {
            let m = ChatMessage { role, content, tool_call_id, tool_calls };
            proof {
                assert(spec_parse_turn(s@, p as int) == Some((m@, e as int)));
            }
            Some((m, e))
        },
        None => None,
    }
}

/// Read a non-empty chain of turn objects closed by a bracket.
pub fn parse_turn_chain(s: &Vec<char>, p: usize) -> (r: Option<(Vec<ChatMessage>, usize)>)
    requires
        p <= s@.len(),
    ensures
        match r {
            Some((ts, q)) => spec_parse_turn_chain(s@, p as int) == Some(
                (ts.deep_view(), q as int),
            ) && p < q <= s@.len(),
            None => spec_parse_turn_chain(s@, p as int) is None,
        },
    decreases s@.len() - p,
{
    let (t, q) = match parse_turn(s, p) {
        Some(v) => v,
        None => {
            return None;
        },
    };
    let r = skip_ws(s, q);
    if r >= s.len() {
        return None;
    }
    if s[r] == ']' {
        let mut ts: Vec<ChatMessage> = Vec::new();
        ts.push(t);
        proof {
            assert(ts.deep_view() =~= seq![ts@[0]@]);
        }
        Some((ts, r + 1))
    } else if s[r] == ',' {
        match parse_turn_chain(s, r + 1) {
            Some((mut rest, e)) => {
                let ghost restv = rest.deep_view();
                rest.insert(0, t);
                proof {
                    assert(rest.deep_view() =~= seq![rest@[0]@] + restv);
                }
                Some((rest, e))
            },
            None => None,
        }
    } else {
        None
    }
}

/// Read a turn array at `p`.
pub fn parse_turns(s: &Vec<char>, p: usize) -> (r: Option<(Vec<ChatMessage>, usize)>)
    requires
        p <= s@.len(),
    ensures
        match r {
            Some((ts, q)) => spec_parse_turns(s@, p as int) == Some((ts.deep_view(), q as int))
                && p < q <= s@.len(),
            None => spec_parse_turns(s@, p as int) is None,
        },
{
    let r = match tok(s, p, '[') {
        Some(q) => q,
        None => {
            return None;
        },
    };
    let q = skip_ws(s, r);
    if q < s.len() && s[q] == ']' {
        let ts: Vec<ChatMessage> = Vec::new();
        proof {
            assert(ts.deep_view() =~= Seq::<ChatMessageV>::empty());
        }
        Some((ts, q + 1))
    } else {
        parse_turn_chain(s, r)
    }
}

/// Read one client-message frame at `p`.
pub fn parse_client(s: &Vec<char>, p: usize) -> (r: Option<(ClientMessage, usize)>)
    requires
        p <= s@.len(),
    ensures
        match r {
            Some((m, q)) => spec_parse_client(s@, p as int) == Some((m@, q as int)) && p < q
                <= s@.len(),
            None => spec_parse_client(s@, p as int) is None,
        },
{
    proof {
        reveal_strlit("type");
        reveal_strlit("messages");
        reveal_strlit("id");
        reveal_strlit("content");
        reveal_strlit("chat_request");
        reveal_strlit("tool_result");
        assert("type"@ =~= lit_key_type());
        assert("messages"@ =~= lit_key_messages());
        assert("id"@ =~= lit_key_id());
        assert("content"@ =~= lit_key_content());
        assert("chat_request"@ =~= lit_tag_chat_request());
        assert("tool_result"@ =~= lit_tag_tool_result());
    }
    let p1 = match tok(s, p, '{') {
        Some(q) => q,
        None => {
            return None;
        },
    };
    let p2 = match key(s, p1, "type") {
        Some(q) => q,
        None => {
            return None;
        },
    };
    let (tag, p3) = match ws_qstring(s, p2) {
        Some(v) => v,
        None => {
            return None;
        },
    };
    if str_eq(tag.as_str(), "chat_request") {
        let p4 = match tok(s, p3, ',') {
            Some(q) => q,
            None => {
                return None;
            },
        };
        let p5 = match key(s, p4, "messages") {
            Some(q) => q,
            None => {
                return None;
            },
        };
        let (messages, p6) = match parse_turns(s, p5) {
            Some(v) => v,
            None => {
                return None;
            },
        };
        match tok(s, p6, '}') {
            Some(e) => {
                let m = ClientMessage::ChatRequest(ClientChatRequest { messages });
                proof {
                    assert(spec_parse_client(s@, p as int) == Some((m@, e as int)));
                }
                Some((m, e))
            },
            None => None,
        }
    } else if str_eq(tag.as_str(), "tool_result") {
        let p4 = match tok(s, p3, ',') {
            Some(q) => q,
            None => {
                return None;
            },
        };
        let p5 = match key(s, p4, "id") {
            Some(q) => q,
            None => {
                return None;
            },
        };
        let (id, p6) = match ws_qstring(s, p5) {
            Some(v) => v,
            None => {
                return None;
            },
        };
        let p7 = match tok(s, p6, ',') {
            Some(q) => q,
            None => {
                return None;
            },
        };
        let p8 = match key(s, p7, "content") {
            Some(q) => q,
            None => {
                return None;
            },
        };
        let (content, p9) = match ws_qstring(s, p8) {
            Some(v) => v,
            None => {
                return None;
            },
        };
        match tok(s, p9, '}') {
            Some(e) => Some((ClientMessage::ToolResult { id, content }, e)),
            None => None,
        }
    } else {
        None
    }
}

/// Read one stream-chunk frame at `p`.
#[verifier::rlimit(100)]
pub fn parse_chunk(s: &Vec<char>, p: usize) -> (r: Option<(StreamChunk, usize)>)
    requires
        p <= s@.len(),
    ensures
        match r {
            Some((c, q)) => spec_parse_chunk(s@, p as int) == Some((c@, q as int)) && p < q
                <= s@.len(),
            None => spec_parse_chunk(s@, p as int) is None,
        },
{
    proof {
        reveal_strlit("type");
        reveal_strlit("delta");
        reveal_strlit("done");
        reveal_strlit("id");
        reveal_strlit("name");
        reveal_strlit("arguments");
        reveal_strlit("content");
        reveal_strlit("text");
        reveal_strlit("tool_call");
        reveal_strlit("tool_result");
        assert("type"@ =~= lit_key_type());
        assert("delta"@ =~= lit_key_delta());
        assert("done"@ =~= lit_key_done());
        assert("id"@ =~= lit_key_id());
        assert("name"@ =~= lit_key_name());
        assert("arguments"@ =~= lit_key_arguments());
        assert("content"@ =~= lit_key_content());
        assert("text"@ =~= lit_tag_text());
        assert("tool_call"@ =~= lit_tag_tool_call());
        assert("tool_result"@ =~= lit_tag_tool_result());
    }
    let p1 = match tok(s, p, '{') {
        Some(q) => q,
        None => {
            return None;
        },
    };
    let p2 = match key(s, p1, "type") {
        Some(q) => q,
        None => {
            return None;
        },
    };
    let (tag, p3) = match ws_qstring(s, p2) {
        Some(v) => v,
        None => {
            return None;
        },
    };
    if str_eq(tag.as_str(), "text") {
        let p4 = match tok(s, p3, ',') {
            Some(q) => q,
            None => {
                return None;
            },
        };
        let p5 = match key(s, p4, "delta") {
            Some(q) => q,
            None => {
                return None;
            },
        };
        let (delta, p6) = match ws_qstring(s, p5) {
            Some(v) => v,
            None => {
                return None;
            },
        };
        let p7 = match tok(s, p6, ',') {
            Some(q) => q,
            None => {
                return None;
            },
        };
        let p8 = match key(s, p7, "done") {
            Some(q) => q,
            None => {
                return None;
            },
        };
        let (done, p9) = match parse_bool(s, p8) {
            Some(v) => v,
            None => {
                return None;
            },
        };
        match tok(s, p9, '}') {
            Some(e) => Some((StreamChunk::Text { delta, done }, e)),
            None => None,
        }
    } else if str_eq(tag.as_str(), "tool_call") {
        let p4 = match tok(s, p3, ',') {
            Some(q) => q,
            None => {
                return None;
            },
        };
        let p5 = match key(s, p4, "id") {
            Some(q) => q,
            None => {
                return None;
            },
        };
        let (id, p6) = match ws_qstring(s, p5) {
            Some(v) => v,
            None => {
                return None;
            },
        };
        let p7 = match tok(s, p6, ',') {
            Some(q) => q,
            None => {
                return None;
            },
        };
        let p8 = match key(s, p7, "name") {
            Some(q) => q,
            None => {
                return None;
            },
        };
        let (name, p9) = match ws_qstring(s, p8) {
            Some(v) => v,
            None => {
                return None;
            },
        };
        let p10 = match tok(s, p9, ',') {
            Some(q) => q,
            None => {
                return None;
            },
        };
        let p11 = match key(s, p10, "arguments") {
            Some(q) => q,
            None => {
                return None;
            },
        };
        let (arguments, p12) = match ws_qstring(s, p11) {
            Some(v) => v,
            None => {
                return None;
            },
        };
        match tok(s, p12, '}') {
            Some(e) => Some((StreamChunk::ToolCall { id, name, arguments }, e)),
            None => None,
        }
    } else if str_eq(tag.as_str(), "tool_result") {
        let p4 = match tok(s, p3, ',') {
            Some(q) => q,
            None => {
                return None;
            },
        };
        let p5 = match key(s, p4, "id") {
            Some(q) => q,
            None => {
                return None;
            },
        };
        let (id, p6) = match ws_qstring(s, p5) {
            Some(v) => v,
            None => {
                return None;
            },
        };
        let p7 = match tok(s, p6, ',') {
            Some(q) => q,
            None => {
                return None;
            },
        };
        let p8 = match key(s, p7, "content") {
            Some(q) => q,
            None => {
                return None;
            },
        };
        let (content, p9) = match ws_qstring(s, p8) {
            Some(v) => v,
            None => {
                return None;
            },
        };
        match tok(s, p9, '}') {
            Some(e) => Some((StreamChunk::ToolResult { id, content }, e)),
            None => None,
        }
    } else {
        None
    }
}

/// Decode a whole client frame: one message, whitespace around it
/// allowed.
pub fn decode_client_message(text: &str) -> (r: Option<ClientMessage>)
    ensures
        match r {
            Some(m) => spec_decode_client(text@) == Some(m@),
            None => spec_decode_client(text@) is None,
        },
{
    let chars = crate::strutil::str_to_chars(text);
    match parse_client(&chars, 0) {
        Some((m, q)) => {
            if skip_ws(&chars, q) == chars.len() {
                Some(m)
            } else {
                None
            }
        },
        None => None,
    }
}

/// Decode a whole chunk frame: one chunk, whitespace around it allowed.
pub fn decode_stream_chunk(text: &str) -> (r: Option<StreamChunk>)
    ensures
        match r {
            Some(c) => spec_decode_chunk(text@) == Some(c@),
            None => spec_decode_chunk(text@) is None,
        },
{
    let chars = crate::strutil::str_to_chars(text);
    match parse_chunk(&chars, 0) {
        Some((c, q)) => {
            if skip_ws(&chars, q) == chars.len() {
                Some(c)
            } else {
                None
            }
        },
        None => None,
    }
}

// ---------------------------------------------------------------------
// The round trip: the tolerant parse reads back what the encoder
// wrote.
// ---------------------------------------------------------------------

/// A fixed run that stands in the text is stepped past.
pub proof fn lemma_expect_of_lit(s: Seq<char>, p: int, lit: Seq<char>, e: int)
    requires
        0 <= p <= e,
        e <= s.len(),
        s.subrange(p, e) == lit,
    ensures
        spec_expect(s, p, lit) == Some(e),
{
    assert(e - p == lit.len());
}

/// The escaped writing of a suffix of `text`, closed by a quote, reads
/// back as that suffix.
pub proof fn lemma_qbody_of_escape(s: Seq<char>, p: int, text: Seq<char>, i: int, e: int)
    requires
        0 <= p <= e,
        e <= s.len(),
        0 <= i <= text.len(),
        s.subrange(p, e) == spec_escape_from(text, i) + seq!['"'],
    ensures
        spec_parse_qbody(s, p) == Some((text.skip(i), e)),
    decreases text.len() - i,
{
    let piece = spec_escape_from(text, i) + seq!['"'];
    assert(e - p == piece.len());
    if i == text.len() {
        assert(s.subrange(p, e) =~= seq!['"']);
        assert(s.subrange(p, e)[0] == '"');
        assert(s[p] == '"');
        assert(text.skip(i) =~= Seq::<char>::empty());
    } else {
        let c = text[i];
        let ec = spec_escape_char(c);
        let tail = spec_escape_from(text, i + 1);
        assert(spec_escape_from(text, i) == ec + tail);
        let e1 = p + ec.len();
        assert forall|j: int| 0 <= j < ec.len() implies s[p + j] == ec[j] by {
            assert(s.subrange(p, e)[j] == piece[j]);
        }
        assert(s[p + 0] == ec[0]);
        if ec.len() >= 2 {
            assert(s[p + 1] == ec[1]);
        }
        if ec.len() == 6 {
            assert(s[p + 2] == ec[2]);
            assert(s[p + 3] == ec[3]);
            assert(s[p + 4] == ec[4]);
            assert(s[p + 5] == ec[5]);
        }
        assert(s.subrange(e1, e) =~= tail + seq!['"']) by {
            assert forall|j: int| 0 <= j < e - e1 implies s.subrange(e1, e)[j] == (tail
                + seq!['"'])[j] by {
                assert(s.subrange(p, e)[j + ec.len()] == piece[j + ec.len()]);
            }
        }
        lemma_qbody_of_escape(s, e1, text, i + 1, e);
        assert(seq![c] + text.skip(i + 1) =~= text.skip(i));
        if c == '"' {
            assert(s[p] == '\\' && s[p + 1] == '"');
        } else if c == '\\' {
            assert(s[p] == '\\' && s[p + 1] == '\\');
        } else if c == '\u{8}' {
            assert(s[p] == '\\' && s[p + 1] == 'b');
        } else if c == '\u{c}' {
            assert(s[p] == '\\' && s[p + 1] == 'f');
        } else if c == '\n' {
            assert(s[p] == '\\' && s[p + 1] == 'n');
        } else if c == '\r' {
            assert(s[p] == '\\' && s[p + 1] == 'r');
        } else if c == '\t' {
            assert(s[p] == '\\' && s[p + 1] == 't');
        } else if c <= '\u{1f}' {
            let hi = (c as int) / 16;
            let lo = (c as int) % 16;
            let ci = c as int;
            lemma_char_bounds(c);
            assert(0 <= ci <= 31);
            assert(0 <= hi < 16 && 0 <= lo < 16) by (nonlinear_arith)
                requires
                    hi == ci / 16,
                    lo == ci % 16,
                    0 <= ci <= 31,
            ;
            assert(s[p] == '\\' && s[p + 1] == 'u' && s[p + 2] == '0' && s[p + 3] == '0'
                && s[p + 4] == hex_digit_char(hi) && s[p + 5] == hex_digit_char(lo));
            lemma_hex_digit_val(hi);
            lemma_hex_digit_val(lo);
            assert(hi * 16 + lo == c as int);
            assert((((c as int)) as char) == c);
            assert(spec_parse_canon_escape(s, p + 1) == Some((c, p + 6)));
        } else {
            assert(s[p] == c);
        }
    }
}

/// Reading a lowercase hexadecimal digit gives back its value.
pub proof fn lemma_hex_digit_val(d: int)
    requires
        0 <= d < 16,
    ensures
        crate::jsontext::spec_hex_val(hex_digit_char(d)) == d,
{
}

/// A whole quoted string reads back as its text.
pub proof fn lemma_qstring_of_quote(s: Seq<char>, p: int, text: Seq<char>, e: int)
    requires
        0 <= p <= e,
        e <= s.len(),
        s.subrange(p, e) == spec_quote(text),
    ensures
        spec_parse_qstring(s, p) == Some((text, e)),
{
    let piece = spec_quote(text);
    assert(e - p == piece.len());
    assert(s[p] == '"') by {
        assert(s.subrange(p, e)[0] == piece[0]);
    }
    assert(s.subrange(p + 1, e) =~= spec_escape_from(text, 0) + seq!['"']) by {
        assert forall|j: int| 0 <= j < e - p - 1 implies s.subrange(p + 1, e)[j] == (
        spec_escape_from(text, 0) + seq!['"'])[j] by {
            assert(s.subrange(p, e)[j + 1] == piece[j + 1]);
        }
    }
    lemma_qbody_of_escape(s, p + 1, text, 0, e);
    assert(text.skip(0) =~= text);
}

/// Every character's code is a Unicode scalar value.
pub proof fn lemma_char_bounds(c: char)
    ensures
        0 <= c as int && (c as int) < 0x110000,
{
}

/// If the text from `p` to `e` is `a + b`, it is `a` up to the cut and
/// `b` after it.
pub proof fn lemma_split_piece(s: Seq<char>, p: int, e: int, a: Seq<char>, b: Seq<char>)
    requires
        0 <= p <= e <= s.len(),
        s.subrange(p, e) == a + b,
    ensures
        s.subrange(p, p + a.len()) == a,
        s.subrange(p + a.len(), e) == b,
        e == p + a.len() + b.len(),
{
    assert(s.subrange(p, e).len() == e - p);
    assert((a + b).len() == a.len() + b.len());
    assert(e - p == a.len() + b.len());
    assert(s.subrange(p, p + a.len()) =~= a) by {
        assert forall|j: int| 0 <= j < a.len() implies s.subrange(p, p + a.len())[j] == a[j] by {
            assert(s.subrange(p, e)[j] == (a + b)[j]);
        }
    }
    assert(s.subrange(p + a.len(), e) =~= b) by {
        assert forall|j: int| 0 <= j < b.len() implies s.subrange(p + a.len(), e)[j] == b[j] by {
            assert(s.subrange(p, e)[j + a.len()] == (a + b)[j + a.len()]);
            assert((a + b)[j + a.len()] == b[j]);
            assert(s.subrange(p + a.len(), e)[j] == s[p + a.len() + j]);
        }
    }
}

/// Reassociating a four-piece run read from the text.
pub proof fn lemma_reassoc4(
    s: Seq<char>,
    p: int,
    e: int,
    x: Seq<char>,
    y: Seq<char>,
    z: Seq<char>,
    w: Seq<char>,
)
    requires
        0 <= p <= e <= s.len(),
        s.subrange(p, e) == ((x + y) + z) + w,
    ensures
        s.subrange(p, e) == x + (y + (z + w)),
{
    assert(((x + y) + z) + w =~= x + (y + (z + w)));
}

/// An encoded turn is never empty text: it opens with its brace.
pub proof fn lemma_encode_turn_nonempty(m: ChatMessageV)
    ensures
        spec_encode_turn(m).len() > 0,
        spec_encode_turn(m)[0] == '{',
{
    reveal(spec_encode_turn);
    let y1 = lit_turn_open() + spec_encode_role(m.role);
    let y2 = y1 + lit_content();
    let y3 = y2 + spec_quote(m.content);
    let y4 = y3 + lit_tool_call_id();
    let y5 = y4 + (match m.tool_call_id {
        Some(id) => spec_quote(id),
        None => lit_null(),
    });
    let y6 = y5 + lit_tool_calls();
    let y7 = y6 + (match m.tool_calls {
        Some(cs) => spec_encode_calls(cs),
        None => lit_null(),
    });
    assert(spec_encode_turn(m) == y7 + seq!['}']);
    assert(y1[0] == lit_turn_open()[0]);
    assert(y2[0] == y1[0]);
    assert(y3[0] == y2[0]);
    assert(y4[0] == y3[0]);
    assert(y5[0] == y4[0]);
    assert(y6[0] == y5[0]);
    assert(y7[0] == y6[0]);
    assert(spec_encode_turn(m)[0] == y7[0]);
}


/// A character that is written as itself inside a string literal.
pub open spec fn plain_char(c: char) -> bool {
    c != '"' && c != '\\' && c > '\u{1f}'
}

/// The quoted writing of a name that needs no escapes.
pub open spec fn qname(name: Seq<char>) -> Seq<char> {
    seq!['"'] + name + seq!['"']
}

/// Plain characters escape to themselves.
pub proof fn lemma_escape_plain_id(k: Seq<char>, i: int)
    requires
        0 <= i <= k.len(),
        forall|j: int| 0 <= j < k.len() ==> plain_char(#[trigger] k[j]),
    ensures
        spec_escape_from(k, i) == k.skip(i),
    decreases k.len() - i,
{
    if i < k.len() {
        lemma_escape_plain_id(k, i + 1);
        assert(plain_char(k[i]));
        assert(spec_escape_char(k[i]) == seq![k[i]]);
        assert(seq![k[i]] + k.skip(i + 1) =~= k.skip(i));
    } else {
        assert(k.skip(i) =~= Seq::<char>::empty());
    }
}

/// A run of plain characters closed by a quote reads back as itself.
pub proof fn lemma_qbody_plain(s: Seq<char>, p: int, k: Seq<char>, e: int)
    requires
        0 <= p <= e <= s.len(),
        s.subrange(p, e) == k + seq!['"'],
        forall|j: int| 0 <= j < k.len() ==> plain_char(#[trigger] k[j]),
    ensures
        spec_parse_qbody(s, p) == Some((k, e)),
{
    lemma_escape_plain_id(k, 0);
    assert(k.skip(0) =~= k);
    assert(s.subrange(p, e) == spec_escape_from(k, 0) + seq!['"']);
    lemma_qbody_of_escape(s, p, k, 0, e);
}

/// A structural character standing right at `p` is its own token.
pub proof fn lemma_tok_no_ws(s: Seq<char>, p: int, c: char)
    requires
        0 <= p < s.len(),
        s[p] == c,
        !crate::jsontext::is_json_ws(c),
    ensures
        spec_tok(s, p, c) == Some(p + 1),
{
    assert(spec_skip_ws(s, p) == p);
}

/// A quoted string standing right at `p` reads back as its text.
pub proof fn lemma_value_qstring(s: Seq<char>, p: int, text: Seq<char>, e: int)
    requires
        0 <= p <= e <= s.len(),
        s.subrange(p, e) == spec_quote(text),
    ensures
        spec_ws_qstring(s, p) == Some((text, e)),
        spec_parse_qstring(s, p) == Some((text, e)),
{
    assert(s.subrange(p, e).len() == e - p);
    assert(s.subrange(p, e)[0] == spec_quote(text)[0]);
    assert(spec_quote(text)[0] == '"');
    assert(s[p] == '"');
    lemma_qstring_of_quote(s, p, text, e);
    assert(spec_skip_ws(s, p) == p);
}

/// A quoted plain name standing right at `p` reads back as the name.
pub proof fn lemma_qname_value(s: Seq<char>, p: int, name: Seq<char>, e: int)
    requires
        0 <= p <= e <= s.len(),
        s.subrange(p, e) == qname(name),
        forall|j: int| 0 <= j < name.len() ==> plain_char(#[trigger] name[j]),
    ensures
        spec_ws_qstring(s, p) == Some((name, e)),
{
    lemma_split_piece(s, p, e, seq!['"'] + name, seq!['"']);
    lemma_split_piece(s, p, p + name.len() + 1, seq!['"'], name);
    assert(s.subrange(p, p + 1)[0] == '"');
    assert(s[p] == '"');
    assert(s.subrange(p + name.len() + 1, e)[0] == '"');
    assert(s[p + name.len() + 1] == '"');
    assert(s.subrange(p + 1, e) =~= name + seq!['"']) by {
        assert forall|j: int| 0 <= j < e - p - 1 implies s.subrange(p + 1, e)[j] == (name
            + seq!['"'])[j] by {
            if j < name.len() {
                assert(s.subrange(p + 1, p + 1 + name.len())[j] == name[j]);
            }
            assert(s.subrange(p + 1, e)[j] == s[p + 1 + j]);
        }
    }
    lemma_qbody_plain(s, p + 1, name, e);
    assert(spec_skip_ws(s, p) == p);
}

/// A `"name":` run standing right at `p` reads back as that member's
/// opening.
pub proof fn lemma_keycolon(s: Seq<char>, p: int, name: Seq<char>, e: int)
    requires
        0 <= p <= e <= s.len(),
        s.subrange(p, e) == qname(name) + seq![':'],
        forall|j: int| 0 <= j < name.len() ==> plain_char(#[trigger] name[j]),
    ensures
        spec_key(s, p, name) == Some(e),
{
    lemma_split_piece(s, p, e, qname(name), seq![':']);
    lemma_qname_value(s, p, name, p + name.len() + 2);
    assert(s.subrange(p + name.len() + 2, e)[0] == ':');
    assert(s[p + name.len() + 2] == ':');
    lemma_tok_no_ws(s, p + name.len() + 2, ':');
}

/// A `,"name":` run standing right at `p` reads back as the comma and
/// the member's opening.
pub proof fn lemma_comma_key(s: Seq<char>, p: int, name: Seq<char>, e: int)
    requires
        0 <= p <= e <= s.len(),
        s.subrange(p, e) == seq![','] + (qname(name) + seq![':']),
        forall|j: int| 0 <= j < name.len() ==> plain_char(#[trigger] name[j]),
    ensures
        spec_tok(s, p, ',') == Some(p + 1),
        spec_key(s, p + 1, name) == Some(e),
{
    lemma_split_piece(s, p, e, seq![','], qname(name) + seq![':']);
    assert(s.subrange(p, p + 1)[0] == ',');
    assert(s[p] == ',');
    lemma_tok_no_ws(s, p, ',');
    lemma_keycolon(s, p + 1, name, e);
}

/// An optional string value standing right at `p` reads back as
/// itself.
pub proof fn lemma_value_opt_qstring(s: Seq<char>, p: int, v: Option<Seq<char>>, e: int)
    requires
        0 <= p <= e <= s.len(),
        s.subrange(p, e) == (match v {
            Some(t) => spec_quote(t),
            None => lit_null(),
        }),
    ensures
        spec_parse_opt_qstring(s, p) == Some((v, e)),
{
    assert(s.subrange(p, e).len() == e - p);
    match v {
        Some(t) => {
            assert(s.subrange(p, e)[0] == spec_quote(t)[0]);
            assert(spec_quote(t)[0] == '"');
            assert(s[p] == '"');
            assert(spec_skip_ws(s, p) == p);
            lemma_qstring_of_quote(s, p, t, e);
        },
        None => {
            assert(s.subrange(p, e)[0] == lit_null()[0]);
            assert(s[p] == 'n');
            assert(spec_skip_ws(s, p) == p);
            lemma_expect_of_lit(s, p, lit_null(), e);
        },
    }
}

/// Reassociating a three-piece run read from the text.
pub proof fn lemma_reassoc3(
    s: Seq<char>,
    p: int,
    e: int,
    x: Seq<char>,
    y: Seq<char>,
    z: Seq<char>,
)
    requires
        0 <= p <= e <= s.len(),
        s.subrange(p, e) == (x + y) + z,
    ensures
        s.subrange(p, e) == x + (y + z),
{
    assert((x + y) + z =~= x + (y + z));
}

/// An optional tool-call array value standing right at `p` reads back
/// as itself.
pub proof fn lemma_value_opt_calls(s: Seq<char>, p: int, v: Option<Seq<ToolCallV>>, e: int)
    requires
        0 <= p <= e <= s.len(),
        s.subrange(p, e) == (match v {
            Some(cs) => spec_encode_calls(cs),
            None => lit_null(),
        }),
    ensures
        spec_parse_opt_calls(s, p) == Some((v, e)),
{
    assert(s.subrange(p, e).len() == e - p);
    match v {
        Some(cs) => {
            assert((seq!['['] + spec_call_items(cs, 0))[0] == '[');
            assert(spec_encode_calls(cs)[0] == '[');
            assert(s.subrange(p, e)[0] == spec_encode_calls(cs)[0]);
            assert(s[p] == '[');
            assert(spec_skip_ws(s, p) == p);
            lemma_calls_of_encode(s, p, cs, e);
        },
        None => {
            assert(s.subrange(p, e)[0] == lit_null()[0]);
            assert(s[p] == 'n');
            assert(spec_skip_ws(s, p) == p);
            lemma_expect_of_lit(s, p, lit_null(), e);
        },
    }
}

/// An encoded role reads back as itself.
pub proof fn lemma_role_of_encode(s: Seq<char>, p: int, role: MessageRole, e: int)
    requires
        0 <= p <= e <= s.len(),
        s.subrange(p, e) == spec_encode_role(role),
    ensures
        spec_parse_role(s, p) == Some((role, e)),
{
    assert(lit_name_system().len() == 6);
    assert(lit_name_user().len() == 4);
    assert(lit_name_assistant().len() == 9);
    assert(lit_name_tool().len() == 4);
    assert(lit_name_tool() != lit_name_user()) by {
        if lit_name_tool() == lit_name_user() {
            assert(lit_name_tool()[0] == lit_name_user()[0]);
        }
    }
    match role {
        MessageRole::System => {
            assert(lit_role_system() =~= qname(lit_name_system()));
            lemma_qname_value(s, p, lit_name_system(), e);
        },
        MessageRole::User => {
            assert(lit_role_user() =~= qname(lit_name_user()));
            lemma_qname_value(s, p, lit_name_user(), e);
        },
        MessageRole::Assistant => {
            assert(lit_role_assistant() =~= qname(lit_name_assistant()));
            lemma_qname_value(s, p, lit_name_assistant(), e);
        },
        MessageRole::Tool => {
            assert(lit_role_tool() =~= qname(lit_name_tool()));
            lemma_qname_value(s, p, lit_name_tool(), e);
        },
    }
}

/// An encoded tool call is never empty text: it opens with its brace.
pub proof fn lemma_encode_call_first(c: ToolCallV)
    ensures
        spec_encode_call(c).len() > 0,
        spec_encode_call(c)[0] == '{',
{
    let y1 = lit_call_open() + spec_quote(c.id);
    let y2 = y1 + lit_name();
    let y3 = y2 + spec_quote(c.name);
    let y4 = y3 + lit_arguments();
    let y5 = y4 + spec_quote(c.arguments);
    assert(spec_encode_call(c) == y5 + seq!['}']);
    assert(y1[0] == lit_call_open()[0]);
    assert(y2[0] == y1[0]);
    assert(y3[0] == y2[0]);
    assert(y4[0] == y3[0]);
    assert(y5[0] == y4[0]);
    assert(spec_encode_call(c)[0] == y5[0]);
}

/// An encoded tool call reads back as itself.
#[verifier::rlimit(100)]
pub proof fn lemma_call_of_encode(s: Seq<char>, p: int, c: ToolCallV, e: int)
    requires
        0 <= p <= e <= s.len(),
        s.subrange(p, e) == spec_encode_call(c),
    ensures
        spec_parse_call(s, p) == Some((c, e)),
{
    let a1 = lit_call_open();
    let a2 = spec_quote(c.id);
    let a3 = lit_name();
    let a4 = spec_quote(c.name);
    let a5 = lit_arguments();
    let a6 = spec_quote(c.arguments);
    lemma_split_piece(s, p, e, a1 + a2 + a3 + a4 + a5 + a6, seq!['}']);
    let p6 = e - 1;
    lemma_split_piece(s, p, p6, a1 + a2 + a3 + a4 + a5, a6);
    let p5 = p6 - a6.len();
    lemma_split_piece(s, p, p5, a1 + a2 + a3 + a4, a5);
    let p4 = p5 - a5.len();
    lemma_split_piece(s, p, p4, a1 + a2 + a3, a4);
    let p3 = p4 - a4.len();
    lemma_split_piece(s, p, p3, a1 + a2, a3);
    let p2 = p3 - a3.len();
    lemma_split_piece(s, p, p2, a1, a2);
    let p1 = p + a1.len();
    assert(a1 =~= seq!['{'] + (qname(lit_key_id()) + seq![':']));
    lemma_split_piece(s, p, p1, seq!['{'], qname(lit_key_id()) + seq![':']);
    assert(s.subrange(p, p + 1)[0] == '{');
    assert(s[p] == '{');
    lemma_tok_no_ws(s, p, '{');
    lemma_keycolon(s, p + 1, lit_key_id(), p1);
    lemma_value_qstring(s, p1, c.id, p2);
    assert(a3 =~= seq![','] + (qname(lit_key_name()) + seq![':']));
    lemma_comma_key(s, p2, lit_key_name(), p3);
    lemma_value_qstring(s, p3, c.name, p4);
    assert(a5 =~= seq![','] + (qname(lit_key_arguments()) + seq![':']));
    lemma_comma_key(s, p4, lit_key_arguments(), p5);
    lemma_value_qstring(s, p5, c.arguments, p6);
    assert(s.subrange(p6, e).len() == e - p6);
    assert(s.subrange(p6, e)[0] == '}');
    assert(s[p6] == '}');
    lemma_tok_no_ws(s, p6, '}');
    assert(spec_parse_call(s, p) == Some(
        (ToolCallV { id: c.id, name: c.name, arguments: c.arguments }, e),
    ));
    assert(ToolCallV { id: c.id, name: c.name, arguments: c.arguments } =~= c);
}

/// An encoded run of tool calls, closed by the bracket, reads back as
/// the run from that point on.
#[verifier::rlimit(100)]
pub proof fn lemma_call_chain_of_items(s: Seq<char>, p: int, cs: Seq<ToolCallV>, i: int, e: int)
    requires
        0 <= p <= e <= s.len(),
        0 <= i < cs.len(),
        s.subrange(p, e) == spec_encode_call(cs[i]) + (spec_call_items(cs, i + 1) + seq![']']),
    ensures
        spec_parse_call_chain(s, p) == Some((cs.skip(i), e)),
    decreases cs.len() - i,
{
    let a = spec_encode_call(cs[i]);
    let b = spec_call_items(cs, i + 1) + seq![']'];
    lemma_split_piece(s, p, e, a, b);
    let q = p + a.len();
    lemma_call_of_encode(s, p, cs[i], q);
    lemma_encode_call_first(cs[i]);
    if i + 1 == cs.len() {
        assert(spec_call_items(cs, i + 1) =~= Seq::<char>::empty());
        assert(s.subrange(q, e) =~= seq![']']);
        assert(s.subrange(q, e).len() == e - q);
        assert(s.subrange(q, e)[0] == ']');
        assert(s[q] == ']');
        assert(e == q + 1);
        assert(spec_skip_ws(s, q) == q);
        assert(cs.skip(i) =~= seq![cs[i]]);
    } else {
        assert(spec_call_items(cs, i + 1) == seq![','] + spec_encode_call(cs[i + 1])
            + spec_call_items(cs, i + 2));
        lemma_reassoc4(
            s,
            q,
            e,
            seq![','],
            spec_encode_call(cs[i + 1]),
            spec_call_items(cs, i + 2),
            seq![']'],
        );
        lemma_split_piece(
            s,
            q,
            e,
            seq![','],
            spec_encode_call(cs[i + 1]) + (spec_call_items(cs, i + 2) + seq![']']),
        );
        assert(s.subrange(q, q + 1)[0] == ',');
        assert(s[q] == ',');
        assert(spec_skip_ws(s, q) == q);
        lemma_call_chain_of_items(s, q + 1, cs, i + 1, e);
        assert(seq![cs[i]] + cs.skip(i + 1) =~= cs.skip(i));
    }
}

/// An encoded tool-call array reads back as itself.
pub proof fn lemma_calls_of_encode(s: Seq<char>, p: int, cs: Seq<ToolCallV>, e: int)
    requires
        0 <= p <= e <= s.len(),
        s.subrange(p, e) == spec_encode_calls(cs),
    ensures
        spec_parse_calls(s, p) == Some((cs, e)),
{
    lemma_reassoc3(s, p, e, seq!['['], spec_call_items(cs, 0), seq![']']);
    lemma_split_piece(s, p, e, seq!['['], spec_call_items(cs, 0) + seq![']']);
    assert(s.subrange(p, p + 1)[0] == '[');
    assert(s[p] == '[');
    lemma_tok_no_ws(s, p, '[');
    if cs.len() == 0 {
        assert(spec_call_items(cs, 0) =~= Seq::<char>::empty());
        assert(s.subrange(p + 1, e) =~= seq![']']);
        assert(s.subrange(p + 1, e).len() == e - p - 1);
        assert(s.subrange(p + 1, e)[0] == ']');
        assert(s[p + 1] == ']');
        assert(e == p + 2);
        assert(spec_skip_ws(s, p + 1) == p + 1);
    } else {
        assert(spec_call_items(cs, 0) == spec_encode_call(cs[0]) + spec_call_items(cs, 1));
        lemma_reassoc3(s, p + 1, e, spec_encode_call(cs[0]), spec_call_items(cs, 1), seq![']']);
        lemma_call_chain_of_items(s, p + 1, cs, 0, e);
        assert(cs.skip(0) =~= cs);
        lemma_encode_call_first(cs[0]);
        assert(s.subrange(p + 1, e)[0] == (spec_encode_call(cs[0]) + (spec_call_items(cs, 1)
            + seq![']']))[0]);
        assert(s[p + 1] == '{');
        assert(spec_skip_ws(s, p + 1) == p + 1);
    }
}

/// An encoded turn tail — both optional members written out — reads
/// back as those members.
#[verifier::rlimit(100)]
pub proof fn lemma_turn_tail_of_encode(
    s: Seq<char>,
    p4: int,
    p5: int,
    p6: int,
    p7: int,
    p8: int,
    id: Option<Seq<char>>,
    calls: Option<Seq<ToolCallV>>,
)
    requires
        0 <= p4 <= p5 <= p6 <= p7 <= p8,
        p8 + 1 <= s.len(),
        s.subrange(p4, p5) == lit_tool_call_id(),
        s.subrange(p5, p6) == (match id {
            Some(t) => spec_quote(t),
            None => lit_null(),
        }),
        s.subrange(p6, p7) == lit_tool_calls(),
        s.subrange(p7, p8) == (match calls {
            Some(cs) => spec_encode_calls(cs),
            None => lit_null(),
        }),
        s[p8] == '}',
    ensures
        spec_parse_turn_tail(s, p4) == Some(((id, calls), p8 + 1)),
{
    assert(s.subrange(p4, p5).len() == p5 - p4);
    assert(s.subrange(p6, p7).len() == p7 - p6);
    assert(lit_tool_call_id() =~= seq![','] + (qname(lit_key_tool_call_id()) + seq![':']));
    lemma_split_piece(s, p4, p5, seq![','], qname(lit_key_tool_call_id()) + seq![':']);
    assert(s.subrange(p4, p4 + 1)[0] == ',');
    assert(s[p4] == ',');
    assert(spec_skip_ws(s, p4) == p4);
    lemma_split_piece(s, p4 + 1, p5, qname(lit_key_tool_call_id()), seq![':']);
    lemma_qname_value(s, p4 + 1, lit_key_tool_call_id(), p5 - 1);
    assert(s.subrange(p5 - 1, p5)[0] == ':');
    assert(s[p5 - 1] == ':');
    lemma_tok_no_ws(s, p5 - 1, ':');
    lemma_value_opt_qstring(s, p5, id, p6);
    assert(lit_tool_calls() =~= seq![','] + (qname(lit_key_tool_calls()) + seq![':']));
    lemma_split_piece(s, p6, p7, seq![','], qname(lit_key_tool_calls()) + seq![':']);
    assert(s.subrange(p6, p6 + 1)[0] == ',');
    assert(s[p6] == ',');
    assert(spec_skip_ws(s, p6) == p6);
    lemma_keycolon(s, p6 + 1, lit_key_tool_calls(), p7);
    lemma_value_opt_calls(s, p7, calls, p8);
    lemma_tok_no_ws(s, p8, '}');
    assert(spec_parse_turn_tail_calls(s, p6, id) == Some(((id, calls), p8 + 1)));
}

/// An encoded turn reads back as itself.
#[verifier::rlimit(100)]
pub proof fn lemma_turn_of_encode(s: Seq<char>, p: int, m: ChatMessageV, e: int)
    requires
        0 <= p <= e <= s.len(),
        s.subrange(p, e) == spec_encode_turn(m),
    ensures
        spec_parse_turn(s, p) == Some((m, e)),
{
    reveal(spec_encode_turn);
    reveal(spec_parse_turn);
    let a1 = lit_turn_open();
    let a2 = spec_encode_role(m.role);
    let a3 = lit_content();
    let a4 = spec_quote(m.content);
    let a5 = lit_tool_call_id();
    let a6 = match m.tool_call_id {
        Some(id) => spec_quote(id),
        None => lit_null(),
    };
    let a7 = lit_tool_calls();
    let a8 = match m.tool_calls {
        Some(cs) => spec_encode_calls(cs),
        None => lit_null(),
    };
    lemma_split_piece(s, p, e, a1 + a2 + a3 + a4 + a5 + a6 + a7 + a8, seq!['}']);
    let p8 = e - 1;
    lemma_split_piece(s, p, p8, a1 + a2 + a3 + a4 + a5 + a6 + a7, a8);
    let p7 = p8 - a8.len();
    lemma_split_piece(s, p, p7, a1 + a2 + a3 + a4 + a5 + a6, a7);
    let p6 = p7 - a7.len();
    lemma_split_piece(s, p, p6, a1 + a2 + a3 + a4 + a5, a6);
    let p5 = p6 - a6.len();
    lemma_split_piece(s, p, p5, a1 + a2 + a3 + a4, a5);
    let p4 = p5 - a5.len();
    lemma_split_piece(s, p, p4, a1 + a2 + a3, a4);
    let p3 = p4 - a4.len();
    lemma_split_piece(s, p, p3, a1 + a2, a3);
    let p2 = p3 - a3.len();
    lemma_split_piece(s, p, p2, a1, a2);
    let p1 = p + a1.len();
    // the opening brace and the role member
    assert(a1 =~= seq!['{'] + (qname(lit_key_role()) + seq![':']));
    lemma_split_piece(s, p, p1, seq!['{'], qname(lit_key_role()) + seq![':']);
    assert(s.subrange(p, p + 1)[0] == '{');
    assert(s[p] == '{');
    lemma_tok_no_ws(s, p, '{');
    lemma_keycolon(s, p + 1, lit_key_role(), p1);
    lemma_role_of_encode(s, p1, m.role, p2);
    // the content member
    assert(a3 =~= seq![','] + (qname(lit_key_content()) + seq![':']));
    lemma_comma_key(s, p2, lit_key_content(), p3);
    lemma_value_qstring(s, p3, m.content, p4);
    // the tail: both optional members written out
    assert(s.subrange(p8, e).len() == e - p8);
    assert(s.subrange(p8, e)[0] == '}');
    assert(s[p8] == '}');
    lemma_turn_tail_of_encode(s, p4, p5, p6, p7, p8, m.tool_call_id, m.tool_calls);
    assert(spec_parse_turn(s, p) == Some(
        (
            ChatMessageV {
                role: m.role,
                content: m.content,
                tool_call_id: m.tool_call_id,
                tool_calls: m.tool_calls,
            },
            e,
        ),
    ));
    assert(ChatMessageV {
        role: m.role,
        content: m.content,
        tool_call_id: m.tool_call_id,
        tool_calls: m.tool_calls,
    } =~~= m);
}

/// An encoded run of turns, closed by the bracket, reads back as the
/// run from that point on.
#[verifier::rlimit(100)]
pub proof fn lemma_turn_chain_of_items(s: Seq<char>, p: int, ts: Seq<ChatMessageV>, i: int, e: int)
    requires
        0 <= p <= e <= s.len(),
        0 <= i < ts.len(),
        s.subrange(p, e) == spec_encode_turn(ts[i]) + (spec_turn_items(ts, i + 1) + seq![']']),
    ensures
        spec_parse_turn_chain(s, p) == Some((ts.skip(i), e)),
    decreases ts.len() - i,
{
    let a = spec_encode_turn(ts[i]);
    let b = spec_turn_items(ts, i + 1) + seq![']'];
    lemma_split_piece(s, p, e, a, b);
    let q = p + a.len();
    lemma_turn_of_encode(s, p, ts[i], q);
    lemma_encode_turn_nonempty(ts[i]);
    if i + 1 == ts.len() {
        assert(spec_turn_items(ts, i + 1) =~= Seq::<char>::empty());
        assert(s.subrange(q, e) =~= seq![']']);
        assert(s.subrange(q, e).len() == e - q);
        assert(s.subrange(q, e)[0] == ']');
        assert(s[q] == ']');
        assert(e == q + 1);
        assert(spec_skip_ws(s, q) == q);
        assert(ts.skip(i) =~= seq![ts[i]]);
    } else {
        assert(spec_turn_items(ts, i + 1) == seq![','] + spec_encode_turn(ts[i + 1])
            + spec_turn_items(ts, i + 2));
        lemma_reassoc4(
            s,
            q,
            e,
            seq![','],
            spec_encode_turn(ts[i + 1]),
            spec_turn_items(ts, i + 2),
            seq![']'],
        );
        lemma_split_piece(
            s,
            q,
            e,
            seq![','],
            spec_encode_turn(ts[i + 1]) + (spec_turn_items(ts, i + 2) + seq![']']),
        );
        assert(s.subrange(q, q + 1)[0] == ',');
        assert(s[q] == ',');
        assert(spec_skip_ws(s, q) == q);
        lemma_turn_chain_of_items(s, q + 1, ts, i + 1, e);
        assert(seq![ts[i]] + ts.skip(i + 1) =~= ts.skip(i));
    }
}

/// An encoded turn array reads back as itself.
pub proof fn lemma_turns_of_encode(s: Seq<char>, p: int, ts: Seq<ChatMessageV>, e: int)
    requires
        0 <= p <= e <= s.len(),
        s.subrange(p, e) == spec_encode_turns(ts),
    ensures
        spec_parse_turns(s, p) == Some((ts, e)),
{
    lemma_reassoc3(s, p, e, seq!['['], spec_turn_items(ts, 0), seq![']']);
    lemma_split_piece(s, p, e, seq!['['], spec_turn_items(ts, 0) + seq![']']);
    assert(s.subrange(p, p + 1)[0] == '[');
    assert(s[p] == '[');
    lemma_tok_no_ws(s, p, '[');
    if ts.len() == 0 {
        assert(spec_turn_items(ts, 0) =~= Seq::<char>::empty());
        assert(s.subrange(p + 1, e) =~= seq![']']);
        assert(s.subrange(p + 1, e).len() == e - p - 1);
        assert(s.subrange(p + 1, e)[0] == ']');
        assert(s[p + 1] == ']');
        assert(e == p + 2);
        assert(spec_skip_ws(s, p + 1) == p + 1);
    } else {
        assert(spec_turn_items(ts, 0) == spec_encode_turn(ts[0]) + spec_turn_items(ts, 1));
        lemma_reassoc3(s, p + 1, e, spec_encode_turn(ts[0]), spec_turn_items(ts, 1), seq![']']);
        lemma_turn_chain_of_items(s, p + 1, ts, 0, e);
        assert(ts.skip(0) =~= ts);
        lemma_encode_turn_nonempty(ts[0]);
        assert(s.subrange(p + 1, e)[0] == (spec_encode_turn(ts[0]) + (spec_turn_items(ts, 1)
            + seq![']']))[0]);
        assert(s[p + 1] == '{');
        assert(spec_skip_ws(s, p + 1) == p + 1);
    }
}

/// The tag names of the frame schema are pairwise distinct.
pub proof fn lemma_tags_distinct()
    ensures
        lit_tag_chat_request() != lit_tag_tool_result(),
        lit_tag_text() != lit_tag_tool_call(),
        lit_tag_text() != lit_tag_tool_result(),
        lit_tag_tool_call() != lit_tag_tool_result(),
{
    assert(lit_tag_chat_request().len() == 12);
    assert(lit_tag_tool_result().len() == 11);
    assert(lit_tag_text().len() == 4);
    assert(lit_tag_tool_call().len() == 9);
}

/// An encoded client message reads back as itself.
#[verifier::rlimit(100)]
pub proof fn lemma_client_of_encode(s: Seq<char>, p: int, m: ClientMessageV, e: int)
    requires
        0 <= p <= e <= s.len(),
        s.subrange(p, e) == spec_encode_client(m),
    ensures
        spec_parse_client(s, p) == Some((m, e)),
{
    lemma_tags_distinct();
    match m {
        ClientMessageV::ChatRequest(msgs) => {
            let a1 = lit_chat_request_open();
            let a2 = spec_encode_turns(msgs);
            lemma_split_piece(s, p, e, a1 + a2, seq!['}']);
            let p6 = e - 1;
            lemma_split_piece(s, p, p6, a1, a2);
            let p1 = p + a1.len();
            assert(a1 =~= seq!['{'] + ((qname(lit_key_type()) + seq![':']) + (qname(
                lit_tag_chat_request(),
            ) + (seq![','] + (qname(lit_key_messages()) + seq![':'])))));
            lemma_split_piece(s, p, p1, seq!['{'], (qname(lit_key_type()) + seq![':']) + (qname(
                lit_tag_chat_request(),
            ) + (seq![','] + (qname(lit_key_messages()) + seq![':']))));
            assert(s.subrange(p, p + 1)[0] == '{');
            assert(s[p] == '{');
            lemma_tok_no_ws(s, p, '{');
            lemma_split_piece(s, p + 1, p1, qname(lit_key_type()) + seq![':'], qname(
                lit_tag_chat_request(),
            ) + (seq![','] + (qname(lit_key_messages()) + seq![':'])));
            let x1 = p + 8;
            lemma_keycolon(s, p + 1, lit_key_type(), x1);
            lemma_split_piece(s, x1, p1, qname(lit_tag_chat_request()), seq![','] + (qname(
                lit_key_messages(),
            ) + seq![':']));
            let x2 = x1 + 14;
            lemma_qname_value(s, x1, lit_tag_chat_request(), x2);
            lemma_comma_key(s, x2, lit_key_messages(), p1);
            lemma_turns_of_encode(s, p1, msgs, p6);
            assert(s.subrange(p6, e).len() == e - p6);
            assert(s.subrange(p6, e)[0] == '}');
            assert(s[p6] == '}');
            lemma_tok_no_ws(s, p6, '}');
        },
        ClientMessageV::ToolResult { id, content } => {
            let a1 = lit_tool_result_open();
            let a2 = spec_quote(id);
            let a3 = lit_content();
            let a4 = spec_quote(content);
            lemma_split_piece(s, p, e, a1 + a2 + a3 + a4, seq!['}']);
            let p4 = e - 1;
            lemma_split_piece(s, p, p4, a1 + a2 + a3, a4);
            let p3 = p4 - a4.len();
            lemma_split_piece(s, p, p3, a1 + a2, a3);
            let p2 = p3 - a3.len();
            lemma_split_piece(s, p, p2, a1, a2);
            let p1 = p + a1.len();
            assert(a1 =~= seq!['{'] + ((qname(lit_key_type()) + seq![':']) + (qname(
                lit_tag_tool_result(),
            ) + (seq![','] + (qname(lit_key_id()) + seq![':'])))));
            lemma_split_piece(s, p, p1, seq!['{'], (qname(lit_key_type()) + seq![':']) + (qname(
                lit_tag_tool_result(),
            ) + (seq![','] + (qname(lit_key_id()) + seq![':']))));
            assert(s.subrange(p, p + 1)[0] == '{');
            assert(s[p] == '{');
            lemma_tok_no_ws(s, p, '{');
            lemma_split_piece(s, p + 1, p1, qname(lit_key_type()) + seq![':'], qname(
                lit_tag_tool_result(),
            ) + (seq![','] + (qname(lit_key_id()) + seq![':'])));
            let x1 = p + 8;
            lemma_keycolon(s, p + 1, lit_key_type(), x1);
            lemma_split_piece(s, x1, p1, qname(lit_tag_tool_result()), seq![','] + (qname(
                lit_key_id(),
            ) + seq![':']));
            let x2 = x1 + 13;
            lemma_qname_value(s, x1, lit_tag_tool_result(), x2);
            lemma_comma_key(s, x2, lit_key_id(), p1);
            lemma_value_qstring(s, p1, id, p2);
            assert(a3 =~= seq![','] + (qname(lit_key_content()) + seq![':']));
            lemma_comma_key(s, p2, lit_key_content(), p3);
            lemma_value_qstring(s, p3, content, p4);
            assert(s.subrange(p4, e).len() == e - p4);
            assert(s.subrange(p4, e)[0] == '}');
            assert(s[p4] == '}');
            lemma_tok_no_ws(s, p4, '}');
        },
    }
}

/// An encoded text chunk reads back as itself.
#[verifier::rlimit(100)]
pub proof fn lemma_text_chunk_of_encode(
    s: Seq<char>,
    p: int,
    delta: Seq<char>,
    done: bool,
    e: int,
)
    requires
        0 <= p <= e <= s.len(),
        s.subrange(p, e) == spec_encode_chunk(StreamChunkV::Text { delta, done }),
    ensures
        spec_parse_chunk(s, p) == Some((StreamChunkV::Text { delta, done }, e)),
{
    lemma_tags_distinct();
    let a1 = lit_text_open();
    let a2 = spec_quote(delta);
    let a3 = lit_done();
    let a4 = if done {
        lit_true()
    } else {
        lit_false()
    };
    lemma_split_piece(s, p, e, a1 + a2 + a3 + a4, seq!['}']);
    let p4 = e - 1;
    lemma_split_piece(s, p, p4, a1 + a2 + a3, a4);
    let p3 = p4 - a4.len();
    lemma_split_piece(s, p, p3, a1 + a2, a3);
    let p2 = p3 - a3.len();
    lemma_split_piece(s, p, p2, a1, a2);
    let p1 = p + a1.len();
    assert(a1 =~= seq!['{'] + ((qname(lit_key_type()) + seq![':']) + (qname(lit_tag_text()) + (
    seq![','] + (qname(lit_key_delta()) + seq![':'])))));
    lemma_split_piece(s, p, p1, seq!['{'], (qname(lit_key_type()) + seq![':']) + (qname(
        lit_tag_text(),
    ) + (seq![','] + (qname(lit_key_delta()) + seq![':']))));
    assert(s.subrange(p, p + 1)[0] == '{');
    assert(s[p] == '{');
    lemma_tok_no_ws(s, p, '{');
    lemma_split_piece(s, p + 1, p1, qname(lit_key_type()) + seq![':'], qname(lit_tag_text()) + (
    seq![','] + (qname(lit_key_delta()) + seq![':'])));
    let x1 = p + 8;
    lemma_keycolon(s, p + 1, lit_key_type(), x1);
    lemma_split_piece(s, x1, p1, qname(lit_tag_text()), seq![','] + (qname(lit_key_delta())
        + seq![':']));
    let x2 = x1 + 6;
    lemma_qname_value(s, x1, lit_tag_text(), x2);
    lemma_comma_key(s, x2, lit_key_delta(), p1);
    lemma_value_qstring(s, p1, delta, p2);
    assert(a3 =~= seq![','] + (qname(lit_key_done()) + seq![':']));
    lemma_comma_key(s, p2, lit_key_done(), p3);
    assert(s.subrange(p3, p4).len() == p4 - p3);
    if done {
        assert(s.subrange(p3, p4)[0] == lit_true()[0]);
        assert(s[p3] == 't');
        assert(spec_skip_ws(s, p3) == p3);
        lemma_expect_of_lit(s, p3, lit_true(), p4);
    } else {
        assert(s.subrange(p3, p4)[0] == lit_false()[0]);
        assert(s[p3] == 'f');
        assert(spec_skip_ws(s, p3) == p3);
        lemma_expect_of_lit(s, p3, lit_false(), p4);
    }
    assert(s.subrange(p4, e).len() == e - p4);
    assert(s.subrange(p4, e)[0] == '}');
    assert(s[p4] == '}');
    lemma_tok_no_ws(s, p4, '}');
}

/// An encoded tool-call chunk reads back as itself.
#[verifier::rlimit(100)]
pub proof fn lemma_tool_call_chunk_of_encode(
    s: Seq<char>,
    p: int,
    id: Seq<char>,
    name: Seq<char>,
    arguments: Seq<char>,
    e: int,
)
    requires
        0 <= p <= e <= s.len(),
        s.subrange(p, e) == spec_encode_chunk(StreamChunkV::ToolCall { id, name, arguments }),
    ensures
        spec_parse_chunk(s, p) == Some((StreamChunkV::ToolCall { id, name, arguments }, e)),
{
    lemma_tags_distinct();
    let a1 = lit_tool_call_open();
    let a2 = spec_quote(id);
    let a3 = lit_name();
    let a4 = spec_quote(name);
    let a5 = lit_arguments();
    let a6 = spec_quote(arguments);
    lemma_split_piece(s, p, e, a1 + a2 + a3 + a4 + a5 + a6, seq!['}']);
    let p6 = e - 1;
    lemma_split_piece(s, p, p6, a1 + a2 + a3 + a4 + a5, a6);
    let p5 = p6 - a6.len();
    lemma_split_piece(s, p, p5, a1 + a2 + a3 + a4, a5);
    let p4 = p5 - a5.len();
    lemma_split_piece(s, p, p4, a1 + a2 + a3, a4);
    let p3 = p4 - a4.len();
    lemma_split_piece(s, p, p3, a1 + a2, a3);
    let p2 = p3 - a3.len();
    lemma_split_piece(s, p, p2, a1, a2);
    let p1 = p + a1.len();
    assert(a1 =~= seq!['{'] + ((qname(lit_key_type()) + seq![':']) + (qname(lit_tag_tool_call())
        + (seq![','] + (qname(lit_key_id()) + seq![':'])))));
    lemma_split_piece(s, p, p1, seq!['{'], (qname(lit_key_type()) + seq![':']) + (qname(
        lit_tag_tool_call(),
    ) + (seq![','] + (qname(lit_key_id()) + seq![':']))));
    assert(s.subrange(p, p + 1)[0] == '{');
    assert(s[p] == '{');
    lemma_tok_no_ws(s, p, '{');
    lemma_split_piece(s, p + 1, p1, qname(lit_key_type()) + seq![':'], qname(lit_tag_tool_call())
        + (seq![','] + (qname(lit_key_id()) + seq![':'])));
    let x1 = p + 8;
    lemma_keycolon(s, p + 1, lit_key_type(), x1);
    lemma_split_piece(s, x1, p1, qname(lit_tag_tool_call()), seq![','] + (qname(lit_key_id())
        + seq![':']));
    let x2 = x1 + 11;
    lemma_qname_value(s, x1, lit_tag_tool_call(), x2);
    lemma_comma_key(s, x2, lit_key_id(), p1);
    lemma_value_qstring(s, p1, id, p2);
    assert(a3 =~= seq![','] + (qname(lit_key_name()) + seq![':']));
    lemma_comma_key(s, p2, lit_key_name(), p3);
    lemma_value_qstring(s, p3, name, p4);
    assert(a5 =~= seq![','] + (qname(lit_key_arguments()) + seq![':']));
    lemma_comma_key(s, p4, lit_key_arguments(), p5);
    lemma_value_qstring(s, p5, arguments, p6);
    assert(s.subrange(p6, e).len() == e - p6);
    assert(s.subrange(p6, e)[0] == '}');
    assert(s[p6] == '}');
    lemma_tok_no_ws(s, p6, '}');
}

/// An encoded tool-result chunk reads back as itself.
#[verifier::rlimit(100)]
pub proof fn lemma_tool_result_chunk_of_encode(
    s: Seq<char>,
    p: int,
    id: Seq<char>,
    content: Seq<char>,
    e: int,
)
    requires
        0 <= p <= e <= s.len(),
        s.subrange(p, e) == spec_encode_chunk(StreamChunkV::ToolResult { id, content }),
    ensures
        spec_parse_chunk(s, p) == Some((StreamChunkV::ToolResult { id, content }, e)),
{
    lemma_tags_distinct();
    let a1 = lit_tool_result_open();
    let a2 = spec_quote(id);
    let a3 = lit_content();
    let a4 = spec_quote(content);
    lemma_split_piece(s, p, e, a1 + a2 + a3 + a4, seq!['}']);
    let p4 = e - 1;
    lemma_split_piece(s, p, p4, a1 + a2 + a3, a4);
    let p3 = p4 - a4.len();
    lemma_split_piece(s, p, p3, a1 + a2, a3);
    let p2 = p3 - a3.len();
    lemma_split_piece(s, p, p2, a1, a2);
    let p1 = p + a1.len();
    assert(a1 =~= seq!['{'] + ((qname(lit_key_type()) + seq![':']) + (qname(lit_tag_tool_result())
        + (seq![','] + (qname(lit_key_id()) + seq![':'])))));
    lemma_split_piece(s, p, p1, seq!['{'], (qname(lit_key_type()) + seq![':']) + (qname(
        lit_tag_tool_result(),
    ) + (seq![','] + (qname(lit_key_id()) + seq![':']))));
    assert(s.subrange(p, p + 1)[0] == '{');
    assert(s[p] == '{');
    lemma_tok_no_ws(s, p, '{');
    lemma_split_piece(s, p + 1, p1, qname(lit_key_type()) + seq![':'], qname(
        lit_tag_tool_result(),
    ) + (seq![','] + (qname(lit_key_id()) + seq![':'])));
    let x1 = p + 8;
    lemma_keycolon(s, p + 1, lit_key_type(), x1);
    lemma_split_piece(s, x1, p1, qname(lit_tag_tool_result()), seq![','] + (qname(lit_key_id())
        + seq![':']));
    let x2 = x1 + 13;
    lemma_qname_value(s, x1, lit_tag_tool_result(), x2);
    lemma_comma_key(s, x2, lit_key_id(), p1);
    lemma_value_qstring(s, p1, id, p2);
    assert(a3 =~= seq![','] + (qname(lit_key_content()) + seq![':']));
    lemma_comma_key(s, p2, lit_key_content(), p3);
    lemma_value_qstring(s, p3, content, p4);
    assert(s.subrange(p4, e).len() == e - p4);
    assert(s.subrange(p4, e)[0] == '}');
    assert(s[p4] == '}');
    lemma_tok_no_ws(s, p4, '}');
}

/// An encoded stream chunk reads back as itself.
pub proof fn lemma_chunk_of_encode(s: Seq<char>, p: int, c: StreamChunkV, e: int)
    requires
        0 <= p <= e <= s.len(),
        s.subrange(p, e) == spec_encode_chunk(c),
    ensures
        spec_parse_chunk(s, p) == Some((c, e)),
{
    match c {
        StreamChunkV::Text { delta, done } => {
            lemma_text_chunk_of_encode(s, p, delta, done, e);
        },
        StreamChunkV::ToolCall { id, name, arguments } => {
            lemma_tool_call_chunk_of_encode(s, p, id, name, arguments, e);
        },
        StreamChunkV::ToolResult { id, content } => {
            lemma_tool_result_chunk_of_encode(s, p, id, content, e);
        },
    }
}

/// Schema fidelity, outbound direction: decoding an encoded client
/// message yields an equal message.
pub proof fn lemma_client_message_round_trip(m: ClientMessageV)
    ensures
        spec_decode_client(spec_encode_client(m)) == Some(m),
{
    let s = spec_encode_client(m);
    assert(s.subrange(0, s.len() as int) =~= s);
    lemma_client_of_encode(s, 0, m, s.len() as int);
    assert(spec_skip_ws(s, s.len() as int) == s.len());
}

/// Schema fidelity, inbound direction: decoding an encoded stream chunk
/// yields an equal chunk.
pub proof fn lemma_stream_chunk_round_trip(c: StreamChunkV)
    ensures
        spec_decode_chunk(spec_encode_chunk(c)) == Some(c),
{
    let s = spec_encode_chunk(c);
    assert(s.subrange(0, s.len() as int) =~= s);
    lemma_chunk_of_encode(s, 0, c, s.len() as int);
    assert(spec_skip_ws(s, s.len() as int) == s.len());
}

} // verus!
