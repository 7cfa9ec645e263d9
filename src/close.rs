//! The close handshake: a state shared by both halves of a session.
use vstd::prelude::*;

verus! {

/// Where the close handshake stands.
#[derive(Clone, Copy, Debug, PartialEq, Eq, Structural)]
pub enum CloseState {
    /// No close frame sent or received.
    Open,
    /// We sent a close frame and wait for the peer's.
    LocalClosing,
    /// The peer sent a close frame and our echo is owed.
    RemoteClosing,
    /// Both directions are closed; `clean` when close frames went both
    /// ways, not when the transport dropped.
    Closed { clean: bool },
}

impl CloseState {
    pub open spec fn spec_on_local_close(self) -> (CloseState, bool) {
        match self {
            CloseState::Open => (CloseState::LocalClosing, true),
            _ => (self, false),
        }
    }

    pub open spec fn spec_on_remote_close(self) -> (CloseState, bool) {
        match self {
            CloseState::Open => (CloseState::RemoteClosing, true),
            CloseState::LocalClosing => (CloseState::Closed { clean: true }, false),
            _ => (self, false),
        }
    }

    pub open spec fn spec_on_echo_sent(self) -> CloseState {
        match self {
            CloseState::RemoteClosing => CloseState::Closed { clean: true },
            _ => self,
        }
    }

    pub open spec fn spec_on_disconnect(self) -> CloseState {
        match self {
            CloseState::Closed { clean } => self,
            _ => CloseState::Closed { clean: false },
        }
    }

    /// A local close request: the new state, and whether a close frame is
    /// to be sent. Only an open session sends one; past that point the
    /// request is a no-op.
    pub fn on_local_close(self) -> (r: (CloseState, bool))
        ensures
            r == self.spec_on_local_close(),
    {
        match self {
            CloseState::Open => (CloseState::LocalClosing, true),
            _ => (self, false),
        }
    }

    /// An inbound close message: the new state, and whether an echo is to
    /// be sent. An answer to our own close completes the handshake.
    pub fn on_remote_close(self) -> (r: (CloseState, bool))
        ensures
            r == self.spec_on_remote_close(),
    {
        match self {
            CloseState::Open => (CloseState::RemoteClosing, true),
            CloseState::LocalClosing => (CloseState::Closed { clean: true }, false),
            _ => (self, false),
        }
    }

    /// The echo of the peer's close frame has been written.
    pub fn on_echo_sent(self) -> (r: CloseState)
        ensures
            r == self.spec_on_echo_sent(),
    {
        match self {
            CloseState::RemoteClosing => CloseState::Closed { clean: true },
            _ => self,
        }
    }

    /// The transport dropped.
    pub fn on_disconnect(self) -> (r: CloseState)
        ensures
            r == self.spec_on_disconnect(),
    {
        match self {
            CloseState::Closed { clean } => self,
            _ => CloseState::Closed { clean: false },
        }
    }

    /// Whether the transport may be shut down.
    pub fn is_closed(&self) -> (r: bool)
        ensures
            r == (*self is Closed),
    {
        match self {
            CloseState::Closed { .. } => true,
            _ => false,
        }
    }
}

/// The number of close frames this side sends when, from an open session,
/// a local close request and an inbound close message arrive in the given
/// order (`local_first`), each reply being written once it is owed; and
/// the state after that.
pub open spec fn race_outcome(local_first: bool) -> (nat, CloseState) {
    let s0 = CloseState::Open;
    if local_first {
        let (s1, sent1) = s0.spec_on_local_close();
        let (s2, sent2) = s1.spec_on_remote_close();
        let s3 = if sent2 { s2.spec_on_echo_sent() } else { s2 };
        ((if sent1 { 1nat } else { 0nat }) + (if sent2 { 1nat } else { 0nat }), s3)
    } else {
        let (s1, sent1) = s0.spec_on_remote_close();
        let (s2, sent2) = s1.spec_on_local_close();
        let s3 = if sent1 { s2.spec_on_echo_sent() } else { s2 };
        ((if sent1 { 1nat } else { 0nat }) + (if sent2 { 1nat } else { 0nat }), s3)
    }
}

/// Simultaneous close: whichever of a local close request and an inbound
/// close message is observed first, exactly one close frame goes out and
/// the handshake ends closed and clean, not in an error.
pub proof fn lemma_simultaneous_close(local_first: bool)
    ensures
        race_outcome(local_first) == (1nat, CloseState::Closed { clean: true }),
{
}

/// Once closed, no event reopens the session or sends another close frame.
pub proof fn lemma_closed_is_final(s: CloseState)
    requires
        s is Closed,
    ensures
        s.spec_on_local_close() == (s, false),
        s.spec_on_remote_close() == (s, false),
        s.spec_on_echo_sent() == s,
        s.spec_on_disconnect() == s,
{
}

} // verus!
