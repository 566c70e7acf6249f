//! The client's conversation state machine: the display transcript, the
//! input line, the streamed-turn accumulator, and the decisions taken on
//! every inbound chunk. The terminal, the transport and the tool bodies
//! live outside; they call in with plain values and carry out what these
//! methods return.

use vstd::prelude::*;
use vstd::string::{StrSliceExecFns, StringExecFns};

use crate::conn::{ConnectionStatus, ConnectionStatusV};
use crate::msg::{
    assistant_text_turn, system_turn, user_turn, ChatMessage, ChatMessageV, ClientChatRequest,
    ClientMessage, MessageRole, ToolCall,
};
use crate::strutil::{chars_to_string, spec_decimal, spec_starts_with, starts_with, usize_to_string};

verus! {

/// A deep copy of a tool call.
pub fn clone_tool_call(c: &ToolCall) -> (r: ToolCall)
    ensures
        r@ == c@,
{
    ToolCall { id: c.id.clone(), name: c.name.clone(), arguments: c.arguments.clone() }
}

/// A deep copy of a turn.
pub fn clone_message(m: &ChatMessage) -> (r: ChatMessage)
    ensures
        r@ == m@,
{
    let tool_call_id = match &m.tool_call_id {
        Some(id) => Some(id.clone()),
        None => None,
    };
    let tool_calls = match &m.tool_calls {
        Some(calls) => {
            let mut copied: Vec<ToolCall> = Vec::new();
            let mut i: usize = 0;
            while i < calls.len()
                invariant
                    i <= calls@.len(),
                    copied.deep_view() == calls.deep_view().subrange(0, i as int),
                decreases calls@.len() - i,
            {
                proof {
                    assert(copied.deep_view().len() == i);
                    assert(copied@.len() == i);
                    assert(calls.deep_view().len() == calls@.len());
                }
                let ghost prev = copied@;
                let c = clone_tool_call(&calls[i]);
                let ghost cv = c@;
                copied.push(c);
                proof {
                    assert(copied@ == prev.push(copied@[i as int]));
                    assert forall|j: int| 0 <= j < i + 1 implies copied.deep_view()[j]
                        == calls.deep_view().subrange(0, i + 1 as int)[j] by {
                        assert(copied.deep_view()[j] == copied@[j]@);
                        assert(calls.deep_view().subrange(0, i + 1 as int)[j] == calls@[j]@);
                        if j < i {
                            assert(copied@[j] == prev[j]);
                            assert(prev[j]@ == calls.deep_view().subrange(0, i as int)[j]);
                        } else {
                            assert(copied@[j]@ == cv);
                            assert(cv == calls@[i as int]@);
                        }
                    }
                    assert(copied.deep_view() =~= calls.deep_view().subrange(0, i + 1 as int));
                }
                i = i + 1;
            }
            proof {
                assert(copied.deep_view() =~= calls.deep_view());
            }
            Some(copied)
        },
        None => None,
    };
    let r = ChatMessage { role: m.role, content: m.content.clone(), tool_call_id, tool_calls };
    proof {
        assert(r@ =~~= m@);
    }
    r
}

/// The marker that opens every UI-only annotation turn; such turns are
/// shown but never echoed back to the relay.
pub open spec fn ui_marker() -> Seq<char> {
    "[ToolInfo] "@
}

/// Whether a turn is a UI-only annotation.
pub open spec fn is_ui_only(m: ChatMessageV) -> bool {
    spec_starts_with(m.content, ui_marker())
}

/// The display transcript without its UI-only annotations: what an
/// outbound request carries.
pub open spec fn visible_to_relay(s: Seq<ChatMessageV>) -> Seq<ChatMessageV>
    decreases s.len(),
{
    if s.len() == 0 {
        Seq::empty()
    } else {
        let rest = visible_to_relay(s.drop_last());
        if is_ui_only(s.last()) {
            rest
        } else {
            rest.push(s.last())
        }
    }
}

/// The client's whole UI-facing state.
#[derive(Debug)]
pub struct App {
    /// The display transcript, UI-only annotations included.
    pub messages: Vec<ChatMessage>,
    /// The input line, as a character buffer.
    pub input: Vec<char>,
    /// How many lines the view is scrolled up from the bottom.
    pub scroll_offset: usize,
    /// The latest reported connection status.
    pub connection_status: ConnectionStatus,
    /// The accumulator of the turn being streamed, while one is.
    pub streaming_message: Option<String>,
    /// The cursor, as a character index into `input`.
    pub cursor_position: usize,
    /// Set after a tool result was sent: the next closing chunk ends the
    /// pre-tool round, not the real answer.
    pub expecting_tool_response: bool,
}

/// Mathematical image of an [`App`].
#[verifier::ext_equal]
pub struct AppV {
    pub messages: Seq<ChatMessageV>,
    pub input: Seq<char>,
    pub scroll_offset: usize,
    pub connection_status: ConnectionStatusV,
    pub streaming_message: Option<Seq<char>>,
    pub cursor_position: usize,
    pub expecting_tool_response: bool,
}

impl View for App {
    type V = AppV;

    open spec fn view(&self) -> AppV {
        AppV {
            messages: self.messages.deep_view(),
            input: self.input@,
            scroll_offset: self.scroll_offset,
            connection_status: self.connection_status@,
            streaming_message: match self.streaming_message {
                Some(buf) => Some(buf@),
                None => None,
            },
            cursor_position: self.cursor_position,
            expecting_tool_response: self.expecting_tool_response,
        }
    }
}

/// Materializing the accumulator: a non-empty buffer becomes an assistant
/// turn, an empty one becomes nothing, and the accumulator ends either way.
pub open spec fn finish_streaming_step(a: AppV) -> AppV {
    match a.streaming_message {
        Some(content) => {
            if content.len() > 0 {
                AppV {
                    messages: a.messages.push(assistant_text_turn(content)),
                    streaming_message: None,
                    ..a
                }
            } else {
                AppV { streaming_message: None, ..a }
            }
        },
        None => a,
    }
}

/// The decision taken on an inbound text chunk. A closing chunk right
/// after a tool round only clears the guard: it ends the pre-tool round,
/// not the answer. Any other closing chunk materializes the accumulator,
/// and one that opens with the error marker is additionally recorded as a
/// system turn. A non-closing chunk grows the accumulator.
pub open spec fn text_chunk_step(a: AppV, delta: Seq<char>, done: bool) -> AppV {
    if done {
        if a.expecting_tool_response {
            AppV { expecting_tool_response: false, ..a }
        } else {
            let finished = finish_streaming_step(a);
            let recorded = if spec_starts_with(delta, "Error"@) {
                AppV { messages: finished.messages.push(system_turn(delta)), ..finished }
            } else {
                finished
            };
            AppV { scroll_offset: 0, ..recorded }
        }
    } else {
        let grown = match a.streaming_message {
            Some(buf) => AppV { streaming_message: Some(buf + delta), ..a },
            None => a,
        };
        AppV { scroll_offset: 0, ..grown }
    }
}

/// A status notification only updates the display cell; the conversation
/// state never moves on it, so repeating a status changes nothing.
pub open spec fn status_step(a: AppV, status: ConnectionStatusV) -> AppV {
    AppV { connection_status: status, ..a }
}

/// The first 1000 characters of an overlong tool result, with a note of
/// the full length; a short result is shown whole.
pub open spec fn shown_result(result: Seq<char>) -> Seq<char> {
    if result.len() > 1000 {
        result.subrange(0, 1000) + "... (truncated, "@ + spec_decimal(result.len() as nat)
            + " total chars)"@
    } else {
        result
    }
}

/// The UI-only annotation describing a tool call.
pub open spec fn tool_call_annotation(name: Seq<char>, arguments: Seq<char>) -> Seq<char> {
    "[ToolInfo] \u{1f527} Calling tool: "@ + name + "\nArguments:\n"@ + arguments
}

/// The UI-only annotation describing a tool's result.
pub open spec fn tool_result_annotation(name: Seq<char>, result: Seq<char>) -> Seq<char> {
    "[ToolInfo] \u{1f4cb} Tool result for "@ + name + ":\n"@ + shown_result(result)
}

impl App {
    /// A fresh client: empty transcript, empty input, disconnected, no
    /// stream in flight.
    pub fn new() -> (a: Self)
        ensures
            a@.messages == Seq::<ChatMessageV>::empty(),
            a@.input == Seq::<char>::empty(),
            a@.scroll_offset == 0,
            a@.connection_status == ConnectionStatusV::Disconnected,
            a@.streaming_message is None,
            a@.cursor_position == 0,
            a@.expecting_tool_response == false,
    {
        let a = App {
            messages: Vec::new(),
            input: Vec::new(),
            scroll_offset: 0,
            connection_status: ConnectionStatus::Disconnected,
            streaming_message: None,
            cursor_position: 0,
            expecting_tool_response: false,
        };
        proof {
            assert(a@.messages =~= Seq::<ChatMessageV>::empty());
        }
        a
    }

    /// Append a user turn to the display transcript.
    pub fn add_user_message(&mut self, content: String)
        ensures
            final(self)@ == (AppV { messages: old(self)@.messages.push(user_turn(content@)), ..old(self)@ }),
    {
        let message = ChatMessage {
            role: MessageRole::User,
            content,
            tool_call_id: None,
            tool_calls: None,
        };
        self.messages.push(message);
        proof {
            assert(self@.messages =~= old(self)@.messages.push(user_turn(content@)));
            assert(self@ =~~= (AppV { messages: old(self)@.messages.push(user_turn(content@)), ..old(self)@ }));
        }
    }

    /// Open a fresh accumulator for an incoming streamed turn.
    pub fn start_streaming(&mut self)
        ensures
            final(self)@ == (AppV { streaming_message: Some(Seq::empty()), ..old(self)@ }),
    {
        self.streaming_message = Some(String::new());
        proof {
            assert(self@ =~~= (AppV { streaming_message: Some(Seq::empty()), ..old(self)@ }));
        }
    }

    /// Append a text fragment to the accumulator, if one is open.
    pub fn append_stream_chunk(&mut self, chunk: &str)
        ensures
            final(self)@ == (AppV {
                streaming_message: match old(self)@.streaming_message {
                    Some(buf) => Some(buf + chunk@),
                    None => None,
                },
                ..old(self)@
            }),
    {
        match &mut self.streaming_message {
            Some(msg) => {
                msg.append(chunk);
            },
            None => {},
        }
        proof {
            assert(self@ =~~= (AppV {
                streaming_message: match old(self)@.streaming_message {
                    Some(buf) => Some(buf + chunk@),
                    None => None,
                },
                ..old(self)@
            }));
        }
    }

    /// Materialize the accumulator into an assistant turn; an empty or
    /// absent accumulator adds nothing.
    pub fn finish_streaming(&mut self)
        ensures
            final(self)@ == finish_streaming_step(old(self)@),
    {
        let mut taken: Option<String> = None;
        core::mem::swap(&mut taken, &mut self.streaming_message);
        match taken {
            Some(content) => {
                if content.as_str().unicode_len() > 0 {
                    let message = ChatMessage {
                        role: MessageRole::Assistant,
                        content,
                        tool_call_id: None,
                        tool_calls: None,
                    };
                    self.messages.push(message);
                    proof {
                        assert(self@.messages =~= finish_streaming_step(old(self)@).messages);
                    }
                }
            },
            None => {},
        }
        proof {
            assert(self@ =~~= finish_streaming_step(old(self)@));
        }
    }

    /// Move the cursor one character left, if it is not at the start.
    pub fn move_cursor_left(&mut self)
        ensures
            final(self)@ == (AppV {
                cursor_position: if old(self)@.cursor_position > 0 {
                    (old(self)@.cursor_position - 1) as usize
                } else {
                    0
                },
                ..old(self)@
            }),
    {
        if self.cursor_position > 0 {
            self.cursor_position = self.cursor_position - 1;
        }
        proof {
            assert(self@ =~~= (AppV {
                cursor_position: if old(self)@.cursor_position > 0 {
                    (old(self)@.cursor_position - 1) as usize
                } else {
                    0
                },
                ..old(self)@
            }));
        }
    }

    /// Move the cursor one character right, if it is not at the end.
    pub fn move_cursor_right(&mut self)
        ensures
            final(self)@ == (AppV {
                cursor_position: if old(self)@.cursor_position < old(self)@.input.len() {
                    (old(self)@.cursor_position + 1) as usize
                } else {
                    old(self)@.cursor_position
                },
                ..old(self)@
            }),
    {
        if self.cursor_position < self.input.len() {
            self.cursor_position = self.cursor_position + 1;
        }
        proof {
            assert(self@ =~~= (AppV {
                cursor_position: if old(self)@.cursor_position < old(self)@.input.len() {
                    (old(self)@.cursor_position + 1) as usize
                } else {
                    old(self)@.cursor_position
                },
                ..old(self)@
            }));
        }
    }

    /// Insert a character at the cursor and step past it.
    pub fn insert_char(&mut self, c: char)
        requires
            old(self)@.cursor_position <= old(self)@.input.len(),
            old(self)@.input.len() < usize::MAX,
        ensures
            final(self)@ == (AppV {
                input: old(self)@.input.insert(old(self)@.cursor_position as int, c),
                cursor_position: (old(self)@.cursor_position + 1) as usize,
                ..old(self)@
            }),
    {
        self.input.insert(self.cursor_position, c);
        self.cursor_position = self.cursor_position + 1;
        proof {
            assert(self@ =~~= (AppV {
                input: old(self)@.input.insert(old(self)@.cursor_position as int, c),
                cursor_position: (old(self)@.cursor_position + 1) as usize,
                ..old(self)@
            }));
        }
    }

    /// Delete the character before the cursor, if there is one.
    pub fn delete_char(&mut self)
        requires
            old(self)@.cursor_position <= old(self)@.input.len(),
        ensures
            final(self)@ == (AppV {
                input: if old(self)@.cursor_position > 0 {
                    old(self)@.input.remove(old(self)@.cursor_position - 1)
                } else {
                    old(self)@.input
                },
                cursor_position: if old(self)@.cursor_position > 0 {
                    (old(self)@.cursor_position - 1) as usize
                } else {
                    0
                },
                ..old(self)@
            }),
    {
        if self.cursor_position > 0 {
            self.cursor_position = self.cursor_position - 1;
            self.input.remove(self.cursor_position);
        }
        proof {
            assert(self@ =~~= (AppV {
                input: if old(self)@.cursor_position > 0 {
                    old(self)@.input.remove(old(self)@.cursor_position - 1)
                } else {
                    old(self)@.input
                },
                cursor_position: if old(self)@.cursor_position > 0 {
                    (old(self)@.cursor_position - 1) as usize
                } else {
                    0
                },
                ..old(self)@
            }));
        }
    }

    /// Scroll the view up, saturating at the top.
    pub fn scroll_up(&mut self, amount: usize)
        ensures
            final(self)@.scroll_offset == if old(self)@.scroll_offset + amount <= usize::MAX {
                (old(self)@.scroll_offset + amount) as usize
            } else {
                usize::MAX
            },
            final(self)@ == (AppV { scroll_offset: final(self)@.scroll_offset, ..old(self)@ }),
    {
        if self.scroll_offset <= usize::MAX - amount {
            self.scroll_offset = self.scroll_offset + amount;
        } else {
            self.scroll_offset = usize::MAX;
        }
        proof {
            assert(self@ =~~= (AppV { scroll_offset: self@.scroll_offset, ..old(self)@ }));
        }
    }

    /// Scroll the view down, saturating at the bottom.
    pub fn scroll_down(&mut self, amount: usize)
        ensures
            final(self)@.scroll_offset == if old(self)@.scroll_offset >= amount {
                (old(self)@.scroll_offset - amount) as usize
            } else {
                0
            },
            final(self)@ == (AppV { scroll_offset: final(self)@.scroll_offset, ..old(self)@ }),
    {
        if self.scroll_offset >= amount {
            self.scroll_offset = self.scroll_offset - amount;
        } else {
            self.scroll_offset = 0;
        }
        proof {
            assert(self@ =~~= (AppV { scroll_offset: self@.scroll_offset, ..old(self)@ }));
        }
    }

    /// Jump the view back to the bottom.
    pub fn scroll_to_bottom(&mut self)
        ensures
            final(self)@ == (AppV { scroll_offset: 0, ..old(self)@ }),
    {
        self.scroll_offset = 0;
        proof {
            assert(self@ =~~= (AppV { scroll_offset: 0, ..old(self)@ }));
        }
    }

    /// Record a status notification. Only the display cell moves: repeated
    /// equal statuses leave the state exactly where it was.
    pub fn on_status(&mut self, status: ConnectionStatus)
        ensures
            final(self)@ == status_step(old(self)@, status@),
            final(self)@.messages == old(self)@.messages,
    {
        self.connection_status = status;
        proof {
            assert(self@ =~~= status_step(old(self)@, self.connection_status@));
        }
    }

    /// The outbound history: the display transcript with every UI-only
    /// annotation filtered out, whatever its role.
    pub fn outbound_request(&self) -> (req: ClientChatRequest)
        ensures
            req@ == visible_to_relay(self@.messages),
    {
        let mut kept: Vec<ChatMessage> = Vec::new();
        let mut i: usize = 0;
        while i < self.messages.len()
            invariant
                i <= self.messages@.len(),
                kept.deep_view() == visible_to_relay(
                    self.messages.deep_view().subrange(0, i as int),
                ),
            decreases self.messages@.len() - i,
        {
            let ghost prefix = self.messages.deep_view().subrange(
                0,
                i + 1 as int,
            );
            let m = &self.messages[i];
            if !starts_with(m.content.as_str(), "[ToolInfo] ") {
                kept.push(clone_message(m));
            }
            proof {
                assert(prefix.drop_last() =~= self.messages.deep_view().subrange(0, i as int));
                assert(prefix.last() == self.messages.deep_view()[i as int]);
                assert(kept.deep_view() =~= visible_to_relay(prefix));
            }
            i = i + 1;
        }
        proof {
            assert(self.messages.deep_view().subrange(
                0,
                self.messages@.len() as int,
            ) =~= self@.messages);
        }
        ClientChatRequest { messages: kept }
    }

    /// Submit the input line: a non-empty line becomes a user turn, the
    /// line and cursor reset, the view jumps to the bottom, and the
    /// outbound request carries the filtered transcript. An empty line
    /// changes nothing and sends nothing.
    pub fn submit_input(&mut self) -> (req: Option<ClientChatRequest>)
        ensures
            old(self)@.input.len() == 0 ==> final(self)@ == old(self)@ && req is None,
            old(self)@.input.len() > 0 ==> {
                &&& final(self)@ == (AppV {
                    messages: old(self)@.messages.push(user_turn(old(self)@.input)),
                    input: Seq::empty(),
                    cursor_position: 0,
                    scroll_offset: 0,
                    ..old(self)@
                })
                &&& req is Some
                &&& req->0@ == visible_to_relay(final(self)@.messages)
            },
    {
        if self.input.len() == 0 {
            return None;
        }
        let content = chars_to_string(&self.input);
        self.add_user_message(content);
        self.input = Vec::new();
        self.cursor_position = 0;
        self.scroll_to_bottom();
        let req = self.outbound_request();
        proof {
            assert(self@ =~~= (AppV {
                messages: old(self)@.messages.push(user_turn(old(self)@.input)),
                input: Seq::empty(),
                cursor_position: 0,
                scroll_offset: 0,
                ..old(self)@
            }));
        }
        Some(req)
    }

    /// Process a text chunk from the relay.
    pub fn on_text_chunk(&mut self, delta: &str, done: bool)
        ensures
            final(self)@ == text_chunk_step(old(self)@, delta@, done),
    {
        if done {
            if self.expecting_tool_response {
                self.expecting_tool_response = false;
                proof {
                    assert(self@ =~~= text_chunk_step(old(self)@, delta@, done));
                }
            } else {
                if starts_with(delta, "Error") {
                    self.finish_streaming();
                    let message = ChatMessage {
                        role: MessageRole::System,
                        content: String::from_str(delta),
                        tool_call_id: None,
                        tool_calls: None,
                    };
                    self.messages.push(message);
                    proof {
                        assert(self@.messages =~= text_chunk_step(old(self)@, delta@, done).messages);
                    }
                } else {
                    self.finish_streaming();
                }
                self.scroll_to_bottom();
                proof {
                    assert(self@ =~~= text_chunk_step(old(self)@, delta@, done));
                }
            }
        } else {
            self.append_stream_chunk(delta);
            self.scroll_to_bottom();
            proof {
                assert(self@ =~~= text_chunk_step(old(self)@, delta@, done));
            }
        }
    }

    /// Record the UI-only annotation of a tool call the relay forwarded;
    /// the surrounding task then runs the tool locally.
    pub fn on_tool_call(&mut self, name: &str, arguments: &str)
        ensures
            final(self)@ == (AppV {
                messages: old(self)@.messages.push(
                    ChatMessageV {
                        role: MessageRole::Assistant,
                        content: tool_call_annotation(name@, arguments@),
                        tool_call_id: None,
                        tool_calls: None,
                    },
                ),
                scroll_offset: 0,
                ..old(self)@
            }),
    {
        let mut content = String::from_str("[ToolInfo] \u{1f527} Calling tool: ");
        content.append(name);
        content.append("\nArguments:\n");
        content.append(arguments);
        let message = ChatMessage {
            role: MessageRole::Assistant,
            content,
            tool_call_id: None,
            tool_calls: None,
        };
        self.messages.push(message);
        self.scroll_to_bottom();
        proof {
            assert(self@.messages =~= old(self)@.messages.push(
                ChatMessageV {
                    role: MessageRole::Assistant,
                    content: tool_call_annotation(name@, arguments@),
                    tool_call_id: None,
                    tool_calls: None,
                },
            ));
            assert(self@ =~~= (AppV {
                messages: self@.messages,
                scroll_offset: 0,
                ..old(self)@
            }));
        }
    }

    /// Record the UI-only annotation of a locally computed tool result,
    /// open the accumulator for the real answer, set the continuation
    /// guard, and hand back the wire message that returns the result.
    pub fn on_tool_result_computed(&mut self, id: String, name: &str, result: String) -> (msg:
        ClientMessage)
        ensures
            final(self)@ == (AppV {
                messages: old(self)@.messages.push(
                    system_turn(tool_result_annotation(name@, result@)),
                ),
                scroll_offset: 0,
                streaming_message: Some(Seq::empty()),
                expecting_tool_response: true,
                ..old(self)@
            }),
            msg@ == (crate::msg::ClientMessageV::ToolResult { id: id@, content: result@ }),
    {
        let shown = if result.as_str().unicode_len() > 1000 {
            let mut s = String::from_str(result.as_str().substring_char(0, 1000));
            s.append("... (truncated, ");
            let n = usize_to_string(result.as_str().unicode_len());
            s.append(n.as_str());
            s.append(" total chars)");
            s
        } else {
            result.clone()
        };
        let mut content = String::from_str("[ToolInfo] \u{1f4cb} Tool result for ");
        content.append(name);
        content.append(":\n");
        content.append(shown.as_str());
        let message = ChatMessage {
            role: MessageRole::System,
            content,
            tool_call_id: None,
            tool_calls: None,
        };
        self.messages.push(message);
        self.scroll_to_bottom();
        self.start_streaming();
        self.expecting_tool_response = true;
        proof {
            assert(content@ =~= tool_result_annotation(name@, result@));
            assert(self@.messages =~= old(self)@.messages.push(
                system_turn(tool_result_annotation(name@, result@)),
            ));
            assert(self@ =~~= (AppV {
                messages: self@.messages,
                scroll_offset: 0,
                streaming_message: Some(Seq::empty()),
                expecting_tool_response: true,
                ..old(self)@
            }));
        }
        ClientMessage::ToolResult { id, content: result }
    }

    /// Record that sending a request failed: the diagnostic becomes a
    /// system turn and no stream is awaited.
    pub fn on_send_failed(&mut self, detail: &str)
        ensures
            final(self)@ == (AppV {
                messages: old(self)@.messages.push(
                    system_turn("Failed to send message: "@ + detail@),
                ),
                ..old(self)@
            }),
    {
        let mut content = String::from_str("Failed to send message: ");
        content.append(detail);
        let message = ChatMessage {
            role: MessageRole::System,
            content,
            tool_call_id: None,
            tool_calls: None,
        };
        self.messages.push(message);
        proof {
            assert(self@.messages =~= old(self)@.messages.push(
                system_turn("Failed to send message: "@ + detail@),
            ));
            assert(self@ =~~= (AppV { messages: self@.messages, ..old(self)@ }));
        }
    }

    /// Record that sending a tool result failed: the fresh accumulator is
    /// dropped, the continuation guard cleared, and the diagnostic becomes
    /// a system turn.
    pub fn on_tool_result_send_failed(&mut self, detail: &str)
        ensures
            final(self)@ == (AppV {
                messages: finish_streaming_step(old(self)@).messages.push(
                    system_turn("Failed to send tool result: "@ + detail@),
                ),
                streaming_message: None,
                expecting_tool_response: false,
                ..old(self)@
            }),
    {
        self.finish_streaming();
        self.expecting_tool_response = false;
        let mut content = String::from_str("Failed to send tool result: ");
        content.append(detail);
        let message = ChatMessage {
            role: MessageRole::System,
            content,
            tool_call_id: None,
            tool_calls: None,
        };
        self.messages.push(message);
        proof {
            assert(self@.messages =~= finish_streaming_step(old(self)@).messages.push(
                system_turn("Failed to send tool result: "@ + detail@),
            ));
            assert(self@ =~~= (AppV {
                messages: self@.messages,
                streaming_message: None,
                expecting_tool_response: false,
                ..old(self)@
            }));
        }
    }
}

/// Feeding a run of non-closing text chunks into the client, in arrival
/// order.
pub open spec fn feed_deltas(a: AppV, deltas: Seq<Seq<char>>) -> AppV
    decreases deltas.len(),
{
    if deltas.len() == 0 {
        a
    } else {
        feed_deltas(text_chunk_step(a, deltas[0], false), deltas.drop_first())
    }
}

/// The concatenation of a run of deltas, in arrival order.
pub open spec fn concat_deltas(deltas: Seq<Seq<char>>) -> Seq<char>
    decreases deltas.len(),
{
    if deltas.len() == 0 {
        Seq::empty()
    } else {
        deltas[0] + concat_deltas(deltas.drop_first())
    }
}

/// While the accumulator is open, non-closing chunks only grow it: the
/// transcript, the guard and the accumulator's other surroundings stay.
pub proof fn lemma_feed_deltas_accumulates(a: AppV, buf: Seq<char>, deltas: Seq<Seq<char>>)
    requires
        a.streaming_message == Some(buf),
    ensures
        feed_deltas(a, deltas).messages == a.messages,
        feed_deltas(a, deltas).streaming_message == Some(buf + concat_deltas(deltas)),
        feed_deltas(a, deltas).expecting_tool_response == a.expecting_tool_response,
    decreases deltas.len(),
{
    if deltas.len() == 0 {
        assert(buf + concat_deltas(deltas) =~= buf);
    } else {
        let next = text_chunk_step(a, deltas[0], false);
        lemma_feed_deltas_accumulates(next, buf + deltas[0], deltas.drop_first());
        assert((buf + deltas[0]) + concat_deltas(deltas.drop_first()) =~= buf + concat_deltas(
            deltas,
        ));
    }
}

/// A streamed turn materializes exactly once: after any run of
/// non-closing chunks and one empty closing chunk, the client holds one
/// new assistant turn whose content is the concatenation of all the
/// deltas — or no new turn at all if that concatenation is empty — and
/// the accumulator is gone.
pub proof fn lemma_stream_materializes_one_turn(a: AppV, deltas: Seq<Seq<char>>)
    requires
        a.streaming_message == Some(Seq::<char>::empty()),
        a.expecting_tool_response == false,
    ensures
        ({
            let end = text_chunk_step(feed_deltas(a, deltas), Seq::empty(), true);
            let total = concat_deltas(deltas);
            &&& end.streaming_message is None
            &&& total.len() > 0 ==> end.messages == a.messages.push(assistant_text_turn(total))
            &&& total.len() == 0 ==> end.messages == a.messages
        }),
{
    let fed = feed_deltas(a, deltas);
    let total = concat_deltas(deltas);
    lemma_feed_deltas_accumulates(a, Seq::empty(), deltas);
    assert(Seq::empty() + total =~= total);
    reveal_strlit("Error");
    assert(!spec_starts_with(Seq::empty(), "Error"@));
}

/// Status reporting is idempotent: a repeated status leaves the client
/// exactly where it was, and no status ever touches the transcript.
pub proof fn lemma_status_idempotent(a: AppV, status: ConnectionStatusV)
    ensures
        status_step(status_step(a, status), status) == status_step(a, status),
        status_step(a, status).messages == a.messages,
{
    assert(status_step(status_step(a, status), status) =~~= status_step(a, status));
}

/// Nothing UI-only survives the outbound filter: every turn of the
/// filtered history fails the annotation test.
pub proof fn lemma_outbound_is_clean(s: Seq<ChatMessageV>, k: int)
    requires
        0 <= k < visible_to_relay(s).len(),
    ensures
        !is_ui_only(visible_to_relay(s)[k]),
    decreases s.len(),
{
    if s.len() > 0 {
        let rest = visible_to_relay(s.drop_last());
        if is_ui_only(s.last()) {
            lemma_outbound_is_clean(s.drop_last(), k);
        } else {
            if k < rest.len() {
                lemma_outbound_is_clean(s.drop_last(), k);
            }
        }
    }
}

/// The annotation turns really are UI-only: both the tool-call and the
/// tool-result annotation open with the marker, so the outbound filter
/// drops them.
pub proof fn lemma_annotations_are_ui_only(
    name: Seq<char>,
    arguments: Seq<char>,
    result: Seq<char>,
)
    ensures
        spec_starts_with(tool_call_annotation(name, arguments), ui_marker()),
        spec_starts_with(tool_result_annotation(name, result), ui_marker()),
{
    reveal_strlit("[ToolInfo] ");
    reveal_strlit("[ToolInfo] \u{1f527} Calling tool: ");
    reveal_strlit("[ToolInfo] \u{1f4cb} Tool result for ");
    let marker = ui_marker();
    let call_head = "[ToolInfo] \u{1f527} Calling tool: "@;
    let result_head = "[ToolInfo] \u{1f4cb} Tool result for "@;
    let call = tool_call_annotation(name, arguments);
    let result_note = tool_result_annotation(name, result);
    assert(call.subrange(0, marker.len() as int) =~= marker) by {
        assert forall|j: int| 0 <= j < marker.len() implies call.subrange(
            0,
            marker.len() as int,
        )[j] == marker[j] by {
            assert(call[j] == call_head[j]);
        }
    }
    assert(result_note.subrange(0, marker.len() as int) =~= marker) by {
        assert forall|j: int| 0 <= j < marker.len() implies result_note.subrange(
            0,
            marker.len() as int,
        )[j] == marker[j] by {
            assert(result_note[j] == result_head[j]);
        }
    }
}

} // verus!

