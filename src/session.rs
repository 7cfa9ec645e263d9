//! The decisions of a server-side session: what bytes read from the
//! transport mean, which frames are owed back, and what may be written.
//! The embedding application owns the transport and performs the actions.
use vstd::prelude::*;
use crate::Config;
use crate::close::CloseState;
use crate::frame::{decode, decode_spec, Frame, FrameError, FrameModel, OpCode};
use crate::message::{
    is_sendable_code, send_check, spec_is_sendable_code, step_spec, AssembleError, Assembler,
    CloseFrame, Message, MessageModel, PendingModel, SendError, CLOSE_MESSAGE_TOO_BIG, CLOSE_NORMAL,
    CLOSE_PROTOCOL_ERROR, outgoing,
};

verus! {

/// Why a session stops reading.
#[derive(Clone, Copy, Debug, PartialEq, Eq, Structural)]
pub enum SessionError {
    Frame(FrameError),
    Message(AssembleError),
}

impl SessionError {
    pub open spec fn spec_close_code(self) -> u16 {
        match self {
            SessionError::Frame(FrameError::FrameTooLarge) => CLOSE_MESSAGE_TOO_BIG,
            SessionError::Frame(_) => CLOSE_PROTOCOL_ERROR,
            SessionError::Message(e) => e.spec_close_code(),
        }
    }

    pub open spec fn spec_is_size_limit(self) -> bool {
        self == SessionError::Frame(FrameError::FrameTooLarge) || self == SessionError::Message(
            AssembleError::MessageTooLarge,
        )
    }

    /// The close code sent on this error: 1009 for a size limit, 1007 for
    /// invalid UTF-8, 1002 for any other protocol error.
    pub fn close_code(&self) -> (r: u16)
        ensures
            r == self.spec_close_code(),
    {
        match self {
            SessionError::Frame(FrameError::FrameTooLarge) => CLOSE_MESSAGE_TOO_BIG,
            SessionError::Frame(_) => CLOSE_PROTOCOL_ERROR,
            SessionError::Message(e) => e.close_code(),
        }
    }
}

/// The unmasked close frame that carries `code` and no reason.
pub open spec fn close_frame_spec(code: u16) -> FrameModel {
    FrameModel {
        fin: true,
        opcode: OpCode::Close,
        mask: None,
        payload: seq![(code / 256) as u8, (code % 256) as u8],
    }
}

/// The code echoed for an inbound close: none for none, else the peer's
/// code where it may be sent, else 1000.
pub open spec fn echo_code(c: Option<(u16, Seq<char>)>) -> Option<u16> {
    match c {
        None => None,
        Some((code, _)) => Some(if spec_is_sendable_code(code) { code } else { CLOSE_NORMAL }),
    }
}

/// The echo frame for an inbound close.
pub open spec fn echo_frame_spec(c: Option<(u16, Seq<char>)>) -> FrameModel {
    match echo_code(c) {
        None => FrameModel { fin: true, opcode: OpCode::Close, mask: None, payload: Seq::empty() },
        Some(code) => close_frame_spec(code),
    }
}

fn close_frame(code: u16) -> (r: Frame)
    ensures
        r@ == close_frame_spec(code),
{
    let mut payload: Vec<u8> = Vec::new();
    payload.push((code / 256) as u8);
    payload.push((code % 256) as u8);
    assert(payload@ =~= seq![(code / 256) as u8, (code % 256) as u8]);
    Frame { fin: true, opcode: OpCode::Close, mask: None, payload }
}

fn echo_frame(c: &Option<CloseFrame>) -> (r: Frame)
    ensures
        r@ == echo_frame_spec(
            match c {
                None => None,
                Some(cf) => Some((cf.code, cf.reason@)),
            },
        ),
{
    match c {
        None => Frame { fin: true, opcode: OpCode::Close, mask: None, payload: Vec::new() },
        Some(cf) => {
            if is_sendable_code(cf.code) {
                close_frame(cf.code)
            } else {
                close_frame(CLOSE_NORMAL)
            }
        },
    }
}

/// What one call of `receive` found at the front of the read buffer.
#[derive(Debug)]
pub enum ReadOutcome {
    /// More bytes are needed.
    Incomplete,
    /// A frame of `consumed` bytes was taken: the message it finished, if
    /// any, and the frame owed back to the peer, if any.
    Progress { consumed: usize, message: Option<Message>, reply: Option<Frame> },
    /// Reading stops with `error`; `close` is the close frame to send on the
    /// way out, if the handshake still allows one.
    Failed { error: SessionError, close: Option<Frame> },
}

/// What happens to bytes that are about to be written.
#[derive(Clone, Copy, Debug, PartialEq, Eq, Structural)]
pub enum WriteDecision {
    /// Keep them in the buffer.
    Buffer,
    /// Buffer them and flush.
    Flush,
    /// Refuse them: the buffer would grow over its cap.
    Backpressure,
}

pub open spec fn write_decision_spec(config: Config, buffered: nat, incoming: nat) -> WriteDecision {
    if buffered + incoming > config.max_write_buffer_size {
        WriteDecision::Backpressure
    } else if buffered + incoming >= config.write_buffer_size {
        WriteDecision::Flush
    } else {
        WriteDecision::Buffer
    }
}

/// Decides whether `incoming` bytes join `buffered` unflushed ones, force a
/// flush, or are refused.
pub fn write_decision(config: &Config, buffered: usize, incoming: usize) -> (r: WriteDecision)
    ensures
        r == write_decision_spec(*config, buffered as nat, incoming as nat),
{
    let total: u128 = buffered as u128 + incoming as u128;
    if total > config.max_write_buffer_size as u128 {
        WriteDecision::Backpressure
    } else if total >= config.write_buffer_size as u128 {
        WriteDecision::Flush
    } else {
        WriteDecision::Buffer
    }
}

/// The state of a session: its policy, the message being assembled and
/// the close handshake.
pub struct Session {
    config: Config,
    assembler: Assembler,
    state: CloseState,
}

/// The frame model of an optional frame.
pub open spec fn frame_opt(f: Option<Frame>) -> Option<FrameModel> {
    match f {
        Some(f) => Some(f@),
        None => None,
    }
}

impl Session {
    pub closed spec fn config(&self) -> Config {
        self.config
    }

    pub closed spec fn pending(&self) -> PendingModel {
        self.assembler.pending()
    }

    pub closed spec fn state(&self) -> CloseState {
        self.state
    }

    /// What a failure does: the close state moves as for a local close, and
    /// the close frame with the error's code is owed where that sends one.
    pub open spec fn failed(old_state: CloseState, new_state: CloseState, r: ReadOutcome, e: SessionError) -> bool {
        &&& new_state == old_state.spec_on_local_close().0
        &&& r matches ReadOutcome::Failed { error, close }
        &&& error == e
        &&& frame_opt(close) == if old_state.spec_on_local_close().1 {
            Some(close_frame_spec(e.spec_close_code()))
        } else {
            None
        }
    }

    /// A new open session with the given policy.
    pub fn new(config: Config) -> (r: Session)
        ensures
            r.config() == config,
            r.pending() is None,
            r.state() == CloseState::Open,
    {
        Session { config, assembler: Assembler::new(), state: CloseState::Open }
    }

    pub fn close_state(&self) -> (r: CloseState)
        ensures
            r == self.state(),
    {
        self.state
    }

    fn fail(&mut self, error: SessionError) -> (r: ReadOutcome)
        ensures
            Self::failed(old(self).state(), final(self).state(), r, error),
            final(self).config() == old(self).config(),
            final(self).pending() == old(self).pending(),
    {
        let (next, send) = self.state.on_local_close();
        self.state = next;
        let close = if send {
            Some(close_frame(error.close_code()))
        } else {
            None
        };
        ReadOutcome::Failed { error, close }
    }

    /// Reads the frame at the front of `buf`. A refused frame or a broken
    /// message sequence ends reading with the matching close frame; an
    /// inbound close message moves the handshake and owes its echo.
    pub fn receive(&mut self, buf: &[u8]) -> (r: ReadOutcome)
        ensures
            final(self).config() == old(self).config(),
            match decode_spec(
                buf@,
                old(self).config().accept_unmasked_frames,
                old(self).config().max_frame_size,
            ) {
                Ok(None) => r is Incomplete && final(self).pending() == old(self).pending()
                    && final(self).state() == old(self).state(),
                Err(e) => Self::failed(old(self).state(), final(self).state(), r, SessionError::Frame(e))
                    && final(self).pending() == old(self).pending(),
                Ok(Some((f, n))) => {
                    let (p, out) = step_spec(old(self).pending(), f, old(self).config().max_message_size);
                    &&& final(self).pending() == p
                    &&& match out {
                        Err(e) => Self::failed(
                            old(self).state(),
                            final(self).state(),
                            r,
                            SessionError::Message(e),
                        ),
                        Ok(m) => r matches ReadOutcome::Progress { consumed, message, reply } && consumed
                            == n && match message {
                            Some(msg) => m == Some(msg@),
                            None => m is None,
                        } && match m {
                            Some(MessageModel::Close(c)) => {
                                let (st, echo) = old(self).state().spec_on_remote_close();
                                &&& final(self).state() == st
                                &&& frame_opt(reply) == if echo {
                                    Some(echo_frame_spec(c))
                                } else {
                                    None
                                }
                            },
                            _ => final(self).state() == old(self).state() && reply is None,
                        },
                    }
                },
            },
    {
        let decoded = decode(buf, self.config.accept_unmasked_frames, self.config.max_frame_size);
        match decoded {
            Err(e) => self.fail(SessionError::Frame(e)),
            Ok(None) => ReadOutcome::Incomplete,
            Ok(Some((frame, consumed))) => {
                let max = self.config.max_message_size;
                match self.assembler.push(frame, max) {
                    Err(e) => self.fail(SessionError::Message(e)),
                    Ok(Some(Message::Close(c))) => {
                        let (next, echo) = self.state.on_remote_close();
                        self.state = next;
                        let reply = if echo {
                            Some(echo_frame(&c))
                        } else {
                            None
                        };
                        ReadOutcome::Progress { consumed, message: Some(Message::Close(c)), reply }
                    },
                    Ok(message) => ReadOutcome::Progress { consumed, message, reply: None },
                }
            },
        }
    }

    /// The frame to write for `msg`. A close message moves the handshake
    /// and yields no frame once closing has begun; other messages may be
    /// sent only while the session is open.
    pub fn send(&mut self, msg: &Message) -> (r: Result<Option<Frame>, SendError>)
        ensures
            final(self).config() == old(self).config(),
            final(self).pending() == old(self).pending(),
            match send_check(msg@) {
                Some(e) => r == Err::<Option<Frame>, SendError>(e) && final(self).state() == old(self).state(),
                None => if msg@ is Close {
                    let (st, sends) = old(self).state().spec_on_local_close();
                    &&& final(self).state() == st
                    &&& r matches Ok(o)
                    &&& (o is Some <==> sends)
                    &&& (o matches Some(f) ==> f.fin && f.mask is None && (f.opcode, f.payload@) == outgoing(msg@))
                } else if old(self).state() is Open {
                    &&& final(self).state() == old(self).state()
                    &&& r matches Ok(Some(f))
                    &&& f.fin && f.mask is None && (f.opcode, f.payload@) == outgoing(msg@)
                } else {
                    r == Err::<Option<Frame>, SendError>(SendError::Closing) && final(self).state() == old(self).state()
                },
            },
    {
        let frame = match msg.to_frame(None) {
            Ok(f) => f,
            Err(e) => {
                return Err(e);
            },
        };
        match msg {
            Message::Close(_) => {
                let (next, sends) = self.state.on_local_close();
                self.state = next;
                if sends {
                    Ok(Some(frame))
                } else {
                    Ok(None)
                }
            },
            _ => {
                match self.state {
                    CloseState::Open => Ok(Some(frame)),
                    _ => Err(SendError::Closing),
                }
            },
        }
    }

    /// The echo owed for an inbound close has been written.
    pub fn echo_sent(&mut self)
        ensures
            final(self).config() == old(self).config(),
            final(self).pending() == old(self).pending(),
            final(self).state() == old(self).state().spec_on_echo_sent(),
    {
        self.state = self.state.on_echo_sent();
    }

    /// The transport dropped.
    pub fn disconnected(&mut self)
        ensures
            final(self).config() == old(self).config(),
            final(self).pending() == old(self).pending(),
            final(self).state() == old(self).state().spec_on_disconnect(),
    {
        self.state = self.state.on_disconnect();
    }
}

} // verus!

verus! {

/// Oversize rejection: a frame over the frame size limit, or a fragment
/// that takes the message over the message size limit, is a size-limit
/// error, answered by a locally initiated close with code 1009.
pub proof fn lemma_oversize_rejected(
    f: FrameModel,
    accept_unmasked: bool,
    max_frame_size: usize,
    pending: PendingModel,
    g: FrameModel,
    max_message_size: usize,
)
    requires
        crate::frame::frame_valid(f),
        f.mask is Some || accept_unmasked,
        f.payload.len() > max_frame_size,
        ((g.opcode is Text || g.opcode is Binary) && pending is None && g.payload.len() > max_message_size)
            || (g.opcode is Continue && pending is Some && pending.unwrap().1.len() + g.payload.len()
            > max_message_size),
    ensures
        decode_spec(crate::frame::wire(f), accept_unmasked, Some(max_frame_size)) == Err::<
            Option<(FrameModel, nat)>,
            FrameError,
        >(FrameError::FrameTooLarge),
        step_spec(pending, g, Some(max_message_size)) == (
            None::<(bool, Seq<u8>)>,
            Err::<Option<MessageModel>, AssembleError>(AssembleError::MessageTooLarge),
        ),
        SessionError::Frame(FrameError::FrameTooLarge).spec_is_size_limit(),
        SessionError::Message(AssembleError::MessageTooLarge).spec_is_size_limit(),
        SessionError::Frame(FrameError::FrameTooLarge).spec_close_code() == CLOSE_MESSAGE_TOO_BIG,
        SessionError::Message(AssembleError::MessageTooLarge).spec_close_code() == CLOSE_MESSAGE_TOO_BIG,
        CloseState::Open.spec_on_local_close() == (CloseState::LocalClosing, true),
{
    crate::frame::lemma_oversize_frame(f, accept_unmasked, max_frame_size);
}

/// Masking policy at the session: with unmasked frames refused, a valid
/// unmasked frame ends reading with a protocol error answered by close code
/// 1002; with them accepted, the same frame is read as itself.
pub proof fn lemma_unmasked_refused(f: FrameModel, max_frame_size: Option<usize>)
    requires
        crate::frame::frame_valid(f),
        f.mask is None,
        max_frame_size matches Some(m) ==> f.payload.len() <= m,
    ensures
        decode_spec(crate::frame::wire(f), false, max_frame_size) == Err::<
            Option<(FrameModel, nat)>,
            FrameError,
        >(FrameError::Unmasked),
        SessionError::Frame(FrameError::Unmasked).spec_close_code() == CLOSE_PROTOCOL_ERROR,
        decode_spec(crate::frame::wire(f), true, max_frame_size) == Ok::<
            Option<(FrameModel, nat)>,
            FrameError,
        >(Some((f, crate::frame::wire(f).len()))),
{
    crate::frame::lemma_masking_policy(f, max_frame_size);
}

} // verus!
