//! The relay's per-connection session: a state machine that owns the
//! server-authoritative send transcript, demultiplexes the completion
//! capability's event stream into wire frames, and folds tool-call and
//! tool-result turns back into the transcript for the next round.

use vstd::prelude::*;
use vstd::string::StringExecFns;

use crate::msg::ClientMessage;
use crate::msg::{
    assistant_text_turn, assistant_tool_turn, tool_turn, wf_turn, ChatMessage, ChatMessageV,
    ClientChatRequest, MessageRole, StreamChunk, StreamChunkV, ToolCall, ToolCallV,
};

verus! {

/// Where the relay stands within one connection's conversation.
#[derive(Debug, Clone, Copy, PartialEq, Eq, Structural)]
pub enum RelayState {
    /// No completion round is in flight.
    Idle,
    /// The completion capability is producing events for the current round.
    Streaming,
    /// The round ended in tool calls; the relay waits for the client to
    /// execute them and answer with tool results.
    AwaitingToolResults,
}

/// What started the round in flight: a fresh user request or the
/// continuation after a tool result. Decides the prefix of the error frame
/// when invoking the completion capability fails.
#[derive(Debug, Clone, Copy, PartialEq, Eq, Structural)]
pub enum RoundTrigger {
    UserRequest,
    ToolContinuation,
}

/// What a session step asks its surroundings to do: send each frame to the
/// client in order, and, if `invoke_completion` is set, invoke the
/// completion capability with the session's current transcript.
#[derive(Debug, Clone)]
pub struct RelayOutput {
    pub frames: Vec<StreamChunk>,
    pub invoke_completion: bool,
}

/// Mathematical image of a [`RelayOutput`].
#[verifier::ext_equal]
pub struct RelayOutputV {
    pub frames: Seq<StreamChunkV>,
    pub invoke_completion: bool,
}

impl View for RelayOutput {
    type V = RelayOutputV;

    open spec fn view(&self) -> RelayOutputV {
        RelayOutputV {
            frames: self.frames.deep_view(),
            invoke_completion: self.invoke_completion,
        }
    }
}

/// One connection's server-side session.
#[derive(Debug)]
pub struct RelaySession {
    pub state: RelayState,
    /// The send transcript: strictly what was exchanged with the model.
    pub transcript: Vec<ChatMessage>,
    /// Text deltas accumulated during the round in flight.
    pub buffer: String,
    /// Tool calls accumulated during the round in flight.
    pub round_calls: Vec<ToolCall>,
    /// What started the round in flight.
    pub trigger: RoundTrigger,
}

/// Mathematical image of a [`RelaySession`].
#[verifier::ext_equal]
pub struct RelaySessionV {
    pub state: RelayState,
    pub transcript: Seq<ChatMessageV>,
    pub buffer: Seq<char>,
    pub round_calls: Seq<ToolCallV>,
    pub trigger: RoundTrigger,
}

impl View for RelaySession {
    type V = RelaySessionV;

    open spec fn view(&self) -> RelaySessionV {
        RelaySessionV {
            state: self.state,
            transcript: self.transcript.deep_view(),
            buffer: self.buffer@,
            round_calls: self.round_calls.deep_view(),
            trigger: self.trigger,
        }
    }
}

/// Transition on a chat request: the request's history becomes the
/// transcript verbatim, the round buffers start empty, and the completion
/// capability is invoked.
pub open spec fn step_chat_request(
    s: RelaySessionV,
    msgs: Seq<ChatMessageV>,
) -> (RelaySessionV, RelayOutputV) {
    (
        RelaySessionV {
            state: RelayState::Streaming,
            transcript: msgs,
            buffer: Seq::empty(),
            round_calls: Seq::empty(),
            trigger: RoundTrigger::UserRequest,
        },
        RelayOutputV { frames: Seq::empty(), invoke_completion: true },
    )
}

/// Transition on a tool result: a tool turn is appended and the completion
/// capability is re-invoked with the grown transcript. Each tool result
/// triggers its own round; the relay does not wait for siblings of the same
/// tool-call turn.
pub open spec fn step_tool_result(
    s: RelaySessionV,
    id: Seq<char>,
    content: Seq<char>,
) -> (RelaySessionV, RelayOutputV) {
    (
        RelaySessionV {
            state: RelayState::Streaming,
            transcript: s.transcript.push(tool_turn(id, content)),
            buffer: Seq::empty(),
            round_calls: Seq::empty(),
            trigger: RoundTrigger::ToolContinuation,
        },
        RelayOutputV { frames: Seq::empty(), invoke_completion: true },
    )
}

/// Transition on one event from the completion capability. The event is
/// forwarded verbatim; text deltas grow the round buffer, tool calls grow
/// the round's call list, and the closing `done` chunk folds the round into
/// the transcript: a tool-call turn if any calls arrived, else a text turn
/// if any text did, else nothing. Text and tool calls are never both
/// finalized for one round.
pub open spec fn step_completion_event(
    s: RelaySessionV,
    c: StreamChunkV,
) -> (RelaySessionV, RelayOutputV) {
    let out = RelayOutputV { frames: seq![c], invoke_completion: false };
    match c {
        StreamChunkV::Text { delta, done } => {
            let grown = s.buffer + delta;
            if done {
                let finalized = if s.round_calls.len() > 0 {
                    RelaySessionV {
                        state: RelayState::AwaitingToolResults,
                        transcript: s.transcript.push(assistant_tool_turn(s.round_calls)),
                        buffer: Seq::empty(),
                        round_calls: Seq::empty(),
                        trigger: s.trigger,
                    }
                } else if grown.len() > 0 {
                    RelaySessionV {
                        state: RelayState::Idle,
                        transcript: s.transcript.push(assistant_text_turn(grown)),
                        buffer: Seq::empty(),
                        round_calls: Seq::empty(),
                        trigger: s.trigger,
                    }
                } else {
                    RelaySessionV {
                        state: RelayState::Idle,
                        transcript: s.transcript,
                        buffer: Seq::empty(),
                        round_calls: Seq::empty(),
                        trigger: s.trigger,
                    }
                };
                (finalized, out)
            } else {
                (RelaySessionV { buffer: grown, ..s }, out)
            }
        },
        StreamChunkV::ToolCall { id, name, arguments } => {
            (
                RelaySessionV {
                    round_calls: s.round_calls.push(ToolCallV { id, name, arguments }),
                    ..s
                },
                out,
            )
        },
        StreamChunkV::ToolResult { .. } => (s, out),
    }
}

/// The diagnostic prefix of a synthetic error frame: a continuation round
/// names the circumstance.
pub open spec fn error_prefix(trigger: RoundTrigger) -> Seq<char> {
    if trigger == RoundTrigger::ToolContinuation {
        "Error continuing conversation: "@
    } else {
        "Error: "@
    }
}

/// Transition on a failure to invoke the completion capability: a synthetic
/// closing text frame carries the diagnostic, the round is abandoned, and
/// the transcript keeps only what was appended before the failure.
pub open spec fn step_completion_error(
    s: RelaySessionV,
    detail: Seq<char>,
) -> (RelaySessionV, RelayOutputV) {
    (
        RelaySessionV {
            state: RelayState::Idle,
            transcript: s.transcript,
            buffer: Seq::empty(),
            round_calls: Seq::empty(),
            trigger: s.trigger,
        },
        RelayOutputV {
            frames: seq![
                StreamChunkV::Text { delta: error_prefix(s.trigger) + detail, done: true },
            ],
            invoke_completion: false,
        },
    )
}

/// Transition on a frame that does not decode: a synthetic closing text
/// frame reports the failure and nothing else changes; one malformed frame
/// never tears down the session.
pub open spec fn step_malformed_frame(
    s: RelaySessionV,
    detail: Seq<char>,
) -> (RelaySessionV, RelayOutputV) {
    (
        s,
        RelayOutputV {
            frames: seq![
                StreamChunkV::Text { delta: "Invalid request format: "@ + detail, done: true },
            ],
            invoke_completion: false,
        },
    )
}

impl RelaySession {
    /// A fresh session: idle, with an empty transcript.
    pub fn new() -> (s: Self)
        ensures
            s@.state == RelayState::Idle,
            s@.transcript == Seq::<ChatMessageV>::empty(),
            s@.buffer == Seq::<char>::empty(),
            s@.round_calls == Seq::<ToolCallV>::empty(),
    {
        RelaySession {
            state: RelayState::Idle,
            transcript: Vec::new(),
            buffer: String::new(),
            round_calls: Vec::new(),
            trigger: RoundTrigger::UserRequest,
        }
    }

    /// Adopt a chat request's history as the new transcript and start a
    /// round.
    pub fn on_chat_request(&mut self, req: ClientChatRequest) -> (out: RelayOutput)
        ensures
            (final(self)@, out@) == step_chat_request(old(self)@, req@),
    {
        self.state = RelayState::Streaming;
        self.transcript = req.messages;
        self.buffer = String::new();
        self.round_calls = Vec::new();
        self.trigger = RoundTrigger::UserRequest;
        let out = RelayOutput { frames: Vec::new(), invoke_completion: true };
        proof {
            let expect = step_chat_request(old(self)@, req@);
            assert(self@ =~~= expect.0);
            assert(out@ =~~= expect.1);
        }
        out
    }

    /// Fold one tool result into the transcript and start a continuation
    /// round.
    pub fn on_tool_result(&mut self, id: String, content: String) -> (out: RelayOutput)
        ensures
            (final(self)@, out@) == step_tool_result(old(self)@, id@, content@),
            wf_turn(final(self)@.transcript.last()),
    {
        let turn = ChatMessage {
            role: MessageRole::Tool,
            content,
            tool_call_id: Some(id),
            tool_calls: None,
        };
        self.state = RelayState::Streaming;
        self.transcript.push(turn);
        self.buffer = String::new();
        self.round_calls = Vec::new();
        self.trigger = RoundTrigger::ToolContinuation;
        let out = RelayOutput { frames: Vec::new(), invoke_completion: true };
        proof {
            let expect = step_tool_result(old(self)@, id@, content@);
            assert(self@.transcript =~= expect.0.transcript);
            assert(self@ =~~= expect.0);
            assert(out@ =~~= expect.1);
        }
        out
    }

    /// Process one event from the completion capability.
    pub fn on_completion_event(&mut self, chunk: StreamChunk) -> (out: RelayOutput)
        ensures
            (final(self)@, out@) == step_completion_event(old(self)@, chunk@),
    {
        let ghost c = chunk@;
        let mut out = RelayOutput { frames: Vec::new(), invoke_completion: false };
        match chunk {
            StreamChunk::Text { delta, done } => {
                out.frames.push(StreamChunk::Text { delta: delta.clone(), done });
                proof {
                    assert(out@.frames =~= seq![c]);
                }
                self.buffer.append(delta.as_str());
                if done {
                    if self.round_calls.len() > 0 {
                        let mut calls: Vec<ToolCall> = Vec::new();
                        core::mem::swap(&mut calls, &mut self.round_calls);
                        let turn = ChatMessage {
                            role: MessageRole::Assistant,
                            content: String::new(),
                            tool_call_id: None,
                            tool_calls: Some(calls),
                        };
                        self.transcript.push(turn);
                        self.state = RelayState::AwaitingToolResults;
                        self.buffer = String::new();
                        proof {
                            let expect = step_completion_event(old(self)@, c).0;
                            assert(self@.transcript =~= expect.transcript);
                            assert(self@.round_calls =~= expect.round_calls);
                        }
                    } else if self.buffer.as_str().unicode_len() > 0 {
                        let mut content = String::new();
                        core::mem::swap(&mut content, &mut self.buffer);
                        let turn = ChatMessage {
                            role: MessageRole::Assistant,
                            content,
                            tool_call_id: None,
                            tool_calls: None,
                        };
                        self.transcript.push(turn);
                        self.state = RelayState::Idle;
                        proof {
                            let expect = step_completion_event(old(self)@, c).0;
                            assert(self@.transcript =~= expect.transcript);
                        }
                    } else {
                        self.state = RelayState::Idle;
                        self.buffer = String::new();
                    }
                }
            },
            StreamChunk::ToolCall { id, name, arguments } => {
                out.frames.push(StreamChunk::ToolCall {
                    id: id.clone(),
                    name: name.clone(),
                    arguments: arguments.clone(),
                });
                proof {
                    assert(out@.frames =~= seq![c]);
                }
                self.round_calls.push(ToolCall { id, name, arguments });
                proof {
                    let expect = step_completion_event(old(self)@, c).0;
                    assert(self@.round_calls =~= expect.round_calls);
                }
            },
            StreamChunk::ToolResult { id, content } => {
                out.frames.push(StreamChunk::ToolResult { id, content });
                proof {
                    assert(out@.frames =~= seq![c]);
                }
            },
        }
        proof {
            let expect = step_completion_event(old(self)@, c);
            assert(self@ =~~= expect.0);
            assert(out@ =~~= expect.1);
        }
        out
    }

    /// Report a failure to invoke the completion capability and abandon the
    /// round.
    pub fn on_completion_error(&mut self, detail: &str) -> (out: RelayOutput)
        ensures
            (final(self)@, out@) == step_completion_error(old(self)@, detail@),
    {
        let mut delta = if matches!(self.trigger, RoundTrigger::ToolContinuation) {
            String::from_str("Error continuing conversation: ")
        } else {
            String::from_str("Error: ")
        };
        delta.append(detail);
        self.state = RelayState::Idle;
        self.buffer = String::new();
        self.round_calls = Vec::new();
        let mut out = RelayOutput { frames: Vec::new(), invoke_completion: false };
        out.frames.push(StreamChunk::Text { delta, done: true });
        proof {
            assert(out@.frames =~= step_completion_error(old(self)@, detail@).1.frames);
            assert(self@.round_calls =~= Seq::<ToolCallV>::empty());
        }
        out
    }

    /// Report an inbound frame that does not decode; the session stays as
    /// it is.
    pub fn on_malformed_frame(&mut self, detail: &str) -> (out: RelayOutput)
        ensures
            (final(self)@, out@) == step_malformed_frame(old(self)@, detail@),
    {
        let mut delta = String::from_str("Invalid request format: ");
        delta.append(detail);
        let mut out = RelayOutput { frames: Vec::new(), invoke_completion: false };
        out.frames.push(StreamChunk::Text { delta, done: true });
        proof {
            assert(out@.frames =~= step_malformed_frame(old(self)@, detail@).1.frames);
        }
        out
    }
}

/// Folding a whole stream of completion events into the session, in
/// arrival order.
pub open spec fn run_completion_events(
    s: RelaySessionV,
    events: Seq<StreamChunkV>,
) -> RelaySessionV
    decreases events.len(),
{
    if events.len() == 0 {
        s
    } else {
        run_completion_events(step_completion_event(s, events[0]).0, events.drop_first())
    }
}

/// The turns a stream of completion events folds into the transcript,
/// in arrival order, starting from the given round buffers: each closing
/// chunk yields at most one turn — a tool-call turn if calls accumulated,
/// else a text turn if text did, else none.
pub open spec fn round_turns(
    buffer: Seq<char>,
    calls: Seq<ToolCallV>,
    events: Seq<StreamChunkV>,
) -> Seq<ChatMessageV>
    decreases events.len(),
{
    if events.len() == 0 {
        Seq::empty()
    } else {
        let rest = events.drop_first();
        match events[0] {
            StreamChunkV::Text { delta, done } => {
                if done {
                    let grown = buffer + delta;
                    let turn = if calls.len() > 0 {
                        seq![assistant_tool_turn(calls)]
                    } else if grown.len() > 0 {
                        seq![assistant_text_turn(grown)]
                    } else {
                        Seq::empty()
                    };
                    turn + round_turns(Seq::empty(), Seq::empty(), rest)
                } else {
                    round_turns(buffer + delta, calls, rest)
                }
            },
            StreamChunkV::ToolCall { id, name, arguments } => round_turns(
                buffer,
                calls.push(ToolCallV { id, name, arguments }),
                rest,
            ),
            StreamChunkV::ToolResult { .. } => round_turns(buffer, calls, rest),
        }
    }
}

/// Processing completion events only ever appends to the transcript: the
/// result is the old transcript followed by exactly the turns the events
/// fold in, in arrival order — nothing reordered, nothing duplicated.
pub proof fn lemma_completion_events_append_turns(s: RelaySessionV, events: Seq<StreamChunkV>)
    ensures
        run_completion_events(s, events).transcript == s.transcript + round_turns(
            s.buffer,
            s.round_calls,
            events,
        ),
    decreases events.len(),
{
    if events.len() == 0 {
        assert(run_completion_events(s, events).transcript =~= s.transcript + round_turns(
            s.buffer,
            s.round_calls,
            events,
        ));
    } else {
        let next = step_completion_event(s, events[0]).0;
        let rest = events.drop_first();
        lemma_completion_events_append_turns(next, rest);
        assert(run_completion_events(s, events).transcript =~= s.transcript + round_turns(
            s.buffer,
            s.round_calls,
            events,
        ));
    }
}

/// Every turn a round folds into the transcript satisfies the turn
/// invariant: a closing chunk yields either a tool-call turn carrying
/// at least one call or a text turn with non-empty content.
pub proof fn lemma_round_turns_wf(
    buffer: Seq<char>,
    calls: Seq<ToolCallV>,
    events: Seq<StreamChunkV>,
    k: int,
)
    requires
        0 <= k < round_turns(buffer, calls, events).len(),
    ensures
        wf_turn(round_turns(buffer, calls, events)[k]),
    decreases events.len(),
{
    let rest = events.drop_first();
    match events[0] {
        StreamChunkV::Text { delta, done } => {
            if done {
                let grown = buffer + delta;
                let turn = if calls.len() > 0 {
                    seq![assistant_tool_turn(calls)]
                } else if grown.len() > 0 {
                    seq![assistant_text_turn(grown)]
                } else {
                    Seq::empty()
                };
                if k < turn.len() {
                    assert(wf_turn(turn[0]));
                } else {
                    lemma_round_turns_wf(Seq::empty(), Seq::empty(), rest, k - turn.len());
                }
            } else {
                lemma_round_turns_wf(buffer + delta, calls, rest, k);
            }
        },
        StreamChunkV::ToolCall { id, name, arguments } => {
            lemma_round_turns_wf(buffer, calls.push(ToolCallV { id, name, arguments }), rest, k);
        },
        StreamChunkV::ToolResult { .. } => {
            lemma_round_turns_wf(buffer, calls, rest, k);
        },
    }
}

/// The relay's send transcript after a chat request and the round's
/// events equals the request's messages with the newly finalized turns
/// appended in arrival order.
pub proof fn lemma_relay_round_transcript(
    s: RelaySessionV,
    msgs: Seq<ChatMessageV>,
    events: Seq<StreamChunkV>,
)
    ensures
        run_completion_events(step_chat_request(s, msgs).0, events).transcript == msgs
            + round_turns(Seq::empty(), Seq::empty(), events),
{
    lemma_completion_events_append_turns(step_chat_request(s, msgs).0, events);
}

/// The tool-call round trip keeps its order: when a round closes with
/// accumulated tool calls and a matching tool result then arrives, the
/// transcript gains, in order, the assistant turn carrying the calls and
/// the tool turn carrying the result, and a new completion round is
/// invoked with exactly that transcript.
pub proof fn lemma_tool_round_trip(
    s: RelaySessionV,
    closing: Seq<char>,
    id: Seq<char>,
    content: Seq<char>,
)
    requires
        s.round_calls.len() > 0,
    ensures
        ({
            let closed = step_completion_event(
                s,
                StreamChunkV::Text { delta: closing, done: true },
            ).0;
            let continued = step_tool_result(closed, id, content);
            &&& closed.state == RelayState::AwaitingToolResults
            &&& continued.0.transcript == s.transcript + seq![
                assistant_tool_turn(s.round_calls),
                tool_turn(id, content),
            ]
            &&& continued.0.state == RelayState::Streaming
            &&& continued.1.invoke_completion
        }),
{
    let closed = step_completion_event(s, StreamChunkV::Text { delta: closing, done: true }).0;
    let continued = step_tool_result(closed, id, content);
    assert(continued.0.transcript =~= s.transcript + seq![
        assistant_tool_turn(s.round_calls),
        tool_turn(id, content),
    ]);
}

/// What handling one inbound frame text amounts to: a decoded chat
/// request or tool result takes its step; text that does not decode is
/// answered with the synthetic diagnostic frame and changes nothing.
pub open spec fn step_client_text(s: RelaySessionV, text: Seq<char>) -> (RelaySessionV, RelayOutputV) {
    match crate::codec::spec_decode_client(text) {
        Some(m) => match m {
            crate::msg::ClientMessageV::ChatRequest(msgs) => step_chat_request(s, msgs),
            crate::msg::ClientMessageV::ToolResult { id, content } => step_tool_result(
                s,
                id,
                content,
            ),
        },
        None => step_malformed_frame(s, "unrecognized frame"@),
    }
}

impl RelaySession {
    /// Handle one inbound text frame: decode it and take the step it
    /// calls for. One frame that does not decode never tears down the
    /// session.
    pub fn on_client_text(&mut self, text: &str) -> (out: RelayOutput)
        ensures
            (final(self)@, out@) == step_client_text(old(self)@, text@),
    {
        match crate::codec::decode_client_message(text) {
            Some(ClientMessage::ChatRequest(req)) => self.on_chat_request(req),
            Some(ClientMessage::ToolResult { id, content }) => self.on_tool_result(id, content),
            None => self.on_malformed_frame("unrecognized frame"),
        }
    }
}

/// The concatenated text of a round's chunks, up to and including its
/// first closing chunk: what the blocking endpoint answers with.
pub open spec fn spec_collect_text(chunks: Seq<StreamChunkV>) -> Seq<char>
    decreases chunks.len(),
{
    if chunks.len() == 0 {
        Seq::empty()
    } else {
        match chunks[0] {
            StreamChunkV::Text { delta, done } => {
                if done {
                    delta
                } else {
                    delta + spec_collect_text(chunks.drop_first())
                }
            },
            _ => spec_collect_text(chunks.drop_first()),
        }
    }
}

/// Concatenate the text deltas of a round, stopping at the first
/// closing chunk; tool-call and tool-result chunks contribute nothing.
pub fn collect_response_text(chunks: &Vec<StreamChunk>) -> (r: String)
    ensures
        r@ == spec_collect_text(chunks.deep_view()),
{
    let mut out = String::new();
    let mut i: usize = 0;
    let ghost all = chunks.deep_view();
    proof {
        assert(all.len() == chunks@.len());
        assert(all.skip(0) =~= all);
        assert(out@ + spec_collect_text(all) =~= spec_collect_text(all));
    }
    while i < chunks.len()
        invariant
            all == chunks.deep_view(),
            all.len() == chunks@.len(),
            i <= chunks@.len(),
            out@ + spec_collect_text(all.skip(i as int)) == spec_collect_text(all),
        decreases chunks@.len() - i,
    {
        proof {
            assert(all.skip(i as int).len() == all.len() - i);
            assert(all.skip(i as int)[0] == all[i as int]);
            assert(all.skip(i as int).drop_first() =~= all.skip(i + 1));
            assert(all[i as int] == chunks@[i as int]@);
        }
        match &chunks[i] {
            StreamChunk::Text { delta, done } => {
                out.append(delta.as_str());
                if *done {
                    proof {
                        assert(out@ =~= spec_collect_text(all));
                    }
                    return out;
                }
            },
            _ => {},
        }
        i = i + 1;
    }
    proof {
        assert(all.skip(chunks@.len() as int) =~= Seq::<StreamChunkV>::empty());
        assert(out@ =~= spec_collect_text(all));
    }
    out
}

} // verus!
