//! The connection manager's observable side: the status cell the UI reads,
//! the notifications a transition emits, and the fixed retry delay. The
//! transport itself lives outside the library; it reports its events here
//! and performs the delays and reconnects this state machine asks for.

use vstd::prelude::*;

verus! {

/// The delay, in time units, between losing the connection and the next
/// connection attempt.
pub const RECONNECT_DELAY: u64 = 2;

/// The connection state the UI displays.
#[derive(Debug, Clone)]
pub enum ConnectionStatus {
    Disconnected,
    Connecting,
    Connected,
    Error(String),
}

/// Mathematical image of a [`ConnectionStatus`].
#[verifier::ext_equal]
pub enum ConnectionStatusV {
    Disconnected,
    Connecting,
    Connected,
    Error(Seq<char>),
}

impl View for ConnectionStatus {
    type V = ConnectionStatusV;

    open spec fn view(&self) -> ConnectionStatusV {
        match self {
            ConnectionStatus::Disconnected => ConnectionStatusV::Disconnected,
            ConnectionStatus::Connecting => ConnectionStatusV::Connecting,
            ConnectionStatus::Connected => ConnectionStatusV::Connected,
            ConnectionStatus::Error(reason) => ConnectionStatusV::Error(reason@),
        }
    }
}

impl DeepView for ConnectionStatus {
    type V = ConnectionStatusV;

    open spec fn deep_view(&self) -> ConnectionStatusV {
        self.view()
    }
}

/// What the transport should do next after reporting an event.
#[derive(Debug, Clone, Copy, PartialEq, Eq, Structural)]
pub enum ConnDirective {
    /// Keep the session open and exchange frames.
    RunSession,
    /// Wait [`RECONNECT_DELAY`] time units, then attempt to connect again.
    RetryAfterDelay,
}

/// One step of the manager: the statuses to announce, in order, and what to
/// do next.
#[derive(Debug)]
pub struct ConnStep {
    pub announce: Vec<ConnectionStatus>,
    pub directive: ConnDirective,
}

/// Mathematical image of a [`ConnStep`].
#[verifier::ext_equal]
pub struct ConnStepV {
    pub announce: Seq<ConnectionStatusV>,
    pub directive: ConnDirective,
}

impl View for ConnStep {
    type V = ConnStepV;

    open spec fn view(&self) -> ConnStepV {
        ConnStepV {
            announce: self.announce.deep_view(),
            directive: self.directive,
        }
    }
}

/// The manager's step on a beginning attempt: announce `Connecting`
/// and run the session.
pub open spec fn step_attempt() -> (ConnectionStatusV, ConnStepV) {
    (
        ConnectionStatusV::Connecting,
        ConnStepV {
            announce: seq![ConnectionStatusV::Connecting],
            directive: ConnDirective::RunSession,
        },
    )
}

/// The manager's step on a successful handshake: announce `Connected`.
pub open spec fn step_connected() -> (ConnectionStatusV, ConnStepV) {
    (
        ConnectionStatusV::Connected,
        ConnStepV {
            announce: seq![ConnectionStatusV::Connected],
            directive: ConnDirective::RunSession,
        },
    )
}

/// The manager's step on a failed handshake: announce the reason, fall
/// back to `Disconnected`, retry after the fixed delay.
pub open spec fn step_connect_failed(reason: Seq<char>) -> (ConnectionStatusV, ConnStepV) {
    (
        ConnectionStatusV::Disconnected,
        ConnStepV {
            announce: seq![ConnectionStatusV::Error(reason), ConnectionStatusV::Disconnected],
            directive: ConnDirective::RetryAfterDelay,
        },
    )
}

/// The manager's step when an open session ends, by error or by close:
/// announce `Disconnected`, retry after the fixed delay.
pub open spec fn step_session_closed() -> (ConnectionStatusV, ConnStepV) {
    (
        ConnectionStatusV::Disconnected,
        ConnStepV {
            announce: seq![ConnectionStatusV::Disconnected],
            directive: ConnDirective::RetryAfterDelay,
        },
    )
}

/// The manager's own state: the latest status, readable synchronously by
/// the UI; every change is also announced on the notification stream. The
/// retry loop never ends: failure is a status, not a terminal state.
#[derive(Debug)]
pub struct ConnectionManager {
    pub status: ConnectionStatus,
}

impl ConnectionManager {
    /// A fresh manager starts disconnected.
    pub fn new() -> (m: Self)
        ensures
            m.status@ == ConnectionStatusV::Disconnected,
    {
        ConnectionManager { status: ConnectionStatus::Disconnected }
    }

    /// A connection attempt begins.
    pub fn on_attempt(&mut self) -> (step: ConnStep)
        ensures
            (final(self).status@, step@) == step_attempt(),
    {
        self.status = ConnectionStatus::Connecting;
        let mut announce: Vec<ConnectionStatus> = Vec::new();
        announce.push(ConnectionStatus::Connecting);
        let step = ConnStep { announce, directive: ConnDirective::RunSession };
        proof {
            assert(step@ =~~= step_attempt().1);
        }
        step
    }

    /// The handshake succeeded.
    pub fn on_connected(&mut self) -> (step: ConnStep)
        ensures
            (final(self).status@, step@) == step_connected(),
    {
        self.status = ConnectionStatus::Connected;
        let mut announce: Vec<ConnectionStatus> = Vec::new();
        announce.push(ConnectionStatus::Connected);
        let step = ConnStep { announce, directive: ConnDirective::RunSession };
        proof {
            assert(step@ =~~= step_connected().1);
        }
        step
    }

    /// The handshake failed: the reason is announced, then the manager
    /// falls back to `Disconnected` and retries after the fixed delay.
    pub fn on_connect_failed(&mut self, reason: String) -> (step: ConnStep)
        ensures
            (final(self).status@, step@) == step_connect_failed(reason@),
    {
        let ghost reasonv = reason@;
        let mut announce: Vec<ConnectionStatus> = Vec::new();
        announce.push(ConnectionStatus::Error(reason));
        announce.push(ConnectionStatus::Disconnected);
        self.status = ConnectionStatus::Disconnected;
        let step = ConnStep { announce, directive: ConnDirective::RetryAfterDelay };
        proof {
            assert(step@ =~~= step_connect_failed(reasonv).1);
        }
        step
    }

    /// An open session ended, by error or by close: the manager falls back
    /// to `Disconnected` and retries after the fixed delay. The interrupted
    /// round is not replayed.
    pub fn on_session_closed(&mut self) -> (step: ConnStep)
        ensures
            (final(self).status@, step@) == step_session_closed(),
    {
        self.status = ConnectionStatus::Disconnected;
        let mut announce: Vec<ConnectionStatus> = Vec::new();
        announce.push(ConnectionStatus::Disconnected);
        let step = ConnStep { announce, directive: ConnDirective::RetryAfterDelay };
        proof {
            assert(step@ =~~= step_session_closed().1);
        }
        step
    }
}

/// The disconnect–reconnect sequence: however a session ends — and a
/// handshake failure names its reason first — the manager falls back to
/// `Disconnected` and directs the fixed-delay retry, and the attempt
/// that follows announces `Connecting` and opens a fresh session. An
/// observer of the notification stream sees exactly those statuses, in
/// that order; the steps announce statuses and nothing else, so no
/// conversation data is replayed across the reconnect.
pub proof fn lemma_disconnect_reconnect(reason: Seq<char>)
    ensures
        step_session_closed().0 == ConnectionStatusV::Disconnected,
        step_session_closed().1.directive == ConnDirective::RetryAfterDelay,
        step_attempt().0 == ConnectionStatusV::Connecting,
        step_attempt().1.directive == ConnDirective::RunSession,
        step_session_closed().1.announce + step_attempt().1.announce == seq![
            ConnectionStatusV::Disconnected,
            ConnectionStatusV::Connecting,
        ],
        step_connect_failed(reason).1.announce + step_attempt().1.announce == seq![
            ConnectionStatusV::Error(reason),
            ConnectionStatusV::Disconnected,
            ConnectionStatusV::Connecting,
        ],
{
    assert(step_session_closed().1.announce + step_attempt().1.announce =~= seq![
        ConnectionStatusV::Disconnected,
        ConnectionStatusV::Connecting,
    ]);
    assert(step_connect_failed(reason).1.announce + step_attempt().1.announce =~= seq![
        ConnectionStatusV::Error(reason),
        ConnectionStatusV::Disconnected,
        ConnectionStatusV::Connecting,
    ]);
}

} // verus!
