//! What the terminal layer needs decided for it: the status line's text
//! and tone, the prefix of each role, and the window of lines the chat
//! pane shows for a given scroll position. Drawing itself stays
//! outside.

use vstd::prelude::*;
use vstd::string::StringExecFns;

use crate::conn::{ConnectionStatus, ConnectionStatusV};
use crate::msg::MessageRole;

verus! {

/// The tone a status is shown in: well, in motion, or down.
#[derive(Debug, Clone, Copy, PartialEq, Eq, Structural)]
pub enum StatusTone {
    Good,
    Busy,
    Bad,
}

/// The tone of a connection status: connected is good, connecting is
/// busy, everything else is bad.
pub open spec fn spec_status_tone(s: ConnectionStatusV) -> StatusTone {
    match s {
        ConnectionStatusV::Connected => StatusTone::Good,
        ConnectionStatusV::Connecting => StatusTone::Busy,
        ConnectionStatusV::Disconnected => StatusTone::Bad,
        ConnectionStatusV::Error(_) => StatusTone::Bad,
    }
}

/// The tone a connection status is shown in.
pub fn status_tone(s: &ConnectionStatus) -> (r: StatusTone)
    ensures
        r == spec_status_tone(s@),
{
    match s {
        ConnectionStatus::Connected => StatusTone::Good,
        ConnectionStatus::Connecting => StatusTone::Busy,
        ConnectionStatus::Disconnected => StatusTone::Bad,
        ConnectionStatus::Error(_) => StatusTone::Bad,
    }
}

/// The status line's text.
pub open spec fn spec_status_text(s: ConnectionStatusV) -> Seq<char> {
    match s {
        ConnectionStatusV::Connected => "\u{25cf} Connected"@,
        ConnectionStatusV::Connecting => "\u{25cf} Connecting..."@,
        ConnectionStatusV::Disconnected => "\u{25cf} Disconnected"@,
        ConnectionStatusV::Error(reason) => "\u{25cf} Error: "@ + reason,
    }
}

/// Render the status line's text.
pub fn status_text(s: &ConnectionStatus) -> (r: String)
    ensures
        r@ == spec_status_text(s@),
{
    match s {
        ConnectionStatus::Connected => String::from_str("\u{25cf} Connected"),
        ConnectionStatus::Connecting => String::from_str("\u{25cf} Connecting..."),
        ConnectionStatus::Disconnected => String::from_str("\u{25cf} Disconnected"),
        ConnectionStatus::Error(reason) => {
            let mut out = String::from_str("\u{25cf} Error: ");
            out.append(reason.as_str());
            out
        },
    }
}

/// The prefix a role's turns are shown under.
pub open spec fn spec_role_prefix(r: MessageRole) -> Seq<char> {
    match r {
        MessageRole::System => "System"@,
        MessageRole::User => "You"@,
        MessageRole::Assistant => "Assistant"@,
        MessageRole::Tool => "Tool"@,
    }
}

/// The prefix a role's turns are shown under.
pub fn role_prefix(r: MessageRole) -> (s: String)
    ensures
        s@ == spec_role_prefix(r),
{
    match r {
        MessageRole::System => String::from_str("System"),
        MessageRole::User => String::from_str("You"),
        MessageRole::Assistant => String::from_str("Assistant"),
        MessageRole::Tool => String::from_str("Tool"),
    }
}

/// The window of lines the chat pane shows: the last `height` lines,
/// moved up by the scroll offset, never past the top; a short
/// transcript shows whole.
pub fn visible_window(total: usize, height: usize, offset: usize) -> (r: (usize, usize))
    ensures
        ({
            let (start, endx) = r;
            &&& start <= endx <= total
            &&& total <= height ==> start == 0 && endx == total
            &&& total > height ==> {
                let max_scroll = (total - height) as usize;
                let clamped = if offset <= max_scroll {
                    offset
                } else {
                    max_scroll
                };
                start == total - height - clamped && endx == start + height
            }
        }),
{
    if total <= height {
        (0, total)
    } else {
        let max_scroll = total - height;
        let clamped = if offset <= max_scroll {
            offset
        } else {
            max_scroll
        };
        let start = total - height - clamped;
        (start, start + height)
    }
}

} // verus!
