//! Logical messages, close frames, and the assembler that rebuilds
//! messages from frames.
use vstd::prelude::*;
use vstd::string::StringSliceAdditionalSpecFns;
use vstd::utf8::{decode_utf8, encode_utf8, valid_utf8};
use crate::frame::{Frame, FrameModel, OpCode, MAX_CONTROL_PAYLOAD};

verus! {

/// Close code: normal closure.
pub const CLOSE_NORMAL: u16 = 1000;
/// Close code: protocol error.
pub const CLOSE_PROTOCOL_ERROR: u16 = 1002;
/// Close code: a text message that is not valid UTF-8.
pub const CLOSE_INVALID_PAYLOAD: u16 = 1007;
/// Close code: message too big.
pub const CLOSE_MESSAGE_TOO_BIG: u16 = 1009;

/// Whether a close code may be put on the wire by an application:
/// 1000-1003, 1007-1011 and 3000-4999.
pub open spec fn spec_is_sendable_code(code: u16) -> bool {
    (1000 <= code <= 1003) || (1007 <= code <= 1011) || (3000 <= code <= 4999)
}

pub fn is_sendable_code(code: u16) -> (r: bool)
    ensures
        r == spec_is_sendable_code(code),
{
    (1000 <= code && code <= 1003) || (1007 <= code && code <= 1011) || (3000 <= code && code
        <= 4999)
}

/// The code of a close frame and its reason.
#[derive(Clone, Debug)]
pub struct CloseFrame {
    pub code: u16,
    pub reason: String,
}

/// A logical message.
#[derive(Clone, Debug)]
pub enum Message {
    Text(String),
    Binary(Vec<u8>),
    Ping(Vec<u8>),
    Pong(Vec<u8>),
    Close(Option<CloseFrame>),
}

/// A message as contracts see it.
pub enum MessageModel {
    Text(Seq<char>),
    Binary(Seq<u8>),
    Ping(Seq<u8>),
    Pong(Seq<u8>),
    Close(Option<(u16, Seq<char>)>),
}

impl View for Message {
    type V = MessageModel;

    open spec fn view(&self) -> MessageModel {
        match self {
            Message::Text(s) => MessageModel::Text(s@),
            Message::Binary(b) => MessageModel::Binary(b@),
            Message::Ping(b) => MessageModel::Ping(b@),
            Message::Pong(b) => MessageModel::Pong(b@),
            Message::Close(None) => MessageModel::Close(None),
            Message::Close(Some(cf)) => MessageModel::Close(Some((cf.code, cf.reason@))),
        }
    }
}

/// Why frames do not make a message.
#[derive(Clone, Copy, Debug, PartialEq, Eq, Structural)]
pub enum AssembleError {
    /// A text or binary frame while a fragmented message is open.
    UnexpectedDataFrame,
    /// A continuation frame with no fragmented message open.
    UnexpectedContinuation,
    /// A close payload of a single byte.
    BadClosePayload,
    /// Text (or a close reason) that is not valid UTF-8.
    InvalidUtf8,
    /// A message over the message size limit.
    MessageTooLarge,
}

impl AssembleError {
    pub open spec fn spec_close_code(self) -> u16 {
        match self {
            AssembleError::InvalidUtf8 => CLOSE_INVALID_PAYLOAD,
            AssembleError::MessageTooLarge => CLOSE_MESSAGE_TOO_BIG,
            _ => CLOSE_PROTOCOL_ERROR,
        }
    }

    /// The close code the session sends on this error.
    pub fn close_code(&self) -> (r: u16)
        ensures
            r == self.spec_close_code(),
    {
        match self {
            AssembleError::InvalidUtf8 => CLOSE_INVALID_PAYLOAD,
            AssembleError::MessageTooLarge => CLOSE_MESSAGE_TOO_BIG,
            _ => CLOSE_PROTOCOL_ERROR,
        }
    }
}

/// Relies on `String::from_utf8`: it succeeds exactly on valid UTF-8, and
/// then holds the characters the bytes encode.
#[verifier::external_body]
fn utf8_string(bytes: Vec<u8>) -> (r: Option<String>)
    ensures
        r is Some <==> valid_utf8(bytes@),
        r matches Some(s) ==> s@ == decode_utf8(bytes@),
{
    String::from_utf8(bytes).ok()
}

/// The text of a close payload: nothing for an empty payload, else the
/// big-endian code in its first two bytes and the UTF-8 reason after them.
pub open spec fn close_payload_spec(p: Seq<u8>) -> Result<Option<(u16, Seq<char>)>, AssembleError> {
    if p.len() == 0 {
        Ok(None)
    } else if p.len() == 1 {
        Err(AssembleError::BadClosePayload)
    } else if !valid_utf8(p.subrange(2, p.len() as int)) {
        Err(AssembleError::InvalidUtf8)
    } else {
        Ok(Some(((p[0] * 256 + p[1]) as u16, decode_utf8(p.subrange(2, p.len() as int)))))
    }
}

/// A finished data message of the given kind from its payload.
pub open spec fn finish_spec(is_text: bool, data: Seq<u8>) -> Result<MessageModel, AssembleError> {
    if !is_text {
        Ok(MessageModel::Binary(data))
    } else if valid_utf8(data) {
        Ok(MessageModel::Text(decode_utf8(data)))
    } else {
        Err(AssembleError::InvalidUtf8)
    }
}

/// A fragmented message in progress: its kind and the bytes so far.
pub type PendingModel = Option<(bool, Seq<u8>)>;

/// One step of assembly: the pending message after `f`, and what `f`
/// yields (a message, nothing yet, or an error). After an error nothing is
/// pending.
pub open spec fn step_spec(pending: PendingModel, f: FrameModel, max_message_size: Option<usize>)
    -> (PendingModel, Result<Option<MessageModel>, AssembleError>) {
    let too_big = |n: nat| max_message_size matches Some(m) && n > m;
    match f.opcode {
        OpCode::Ping => (pending, Ok(Some(MessageModel::Ping(f.payload)))),
        OpCode::Pong => (pending, Ok(Some(MessageModel::Pong(f.payload)))),
        OpCode::Close => match close_payload_spec(f.payload) {
            Ok(c) => (pending, Ok(Some(MessageModel::Close(c)))),
            Err(e) => (None, Err(e)),
        },
        OpCode::Continue => match pending {
            None => (None, Err(AssembleError::UnexpectedContinuation)),
            Some((is_text, data)) => if too_big(data.len() + f.payload.len()) {
                (None, Err(AssembleError::MessageTooLarge))
            } else if !f.fin {
                (Some((is_text, data + f.payload)), Ok(None))
            } else {
                match finish_spec(is_text, data + f.payload) {
                    Ok(m) => (None, Ok(Some(m))),
                    Err(e) => (None, Err(e)),
                }
            },
        },
        _ => if pending is Some {
            (None, Err(AssembleError::UnexpectedDataFrame))
        } else if too_big(f.payload.len()) {
            (None, Err(AssembleError::MessageTooLarge))
        } else if !f.fin {
            (Some((f.opcode is Text, f.payload)), Ok(None))
        } else {
            match finish_spec(f.opcode is Text, f.payload) {
                Ok(m) => (None, Ok(Some(m))),
                Err(e) => (None, Err(e)),
            }
        },
    }
}

/// Reads a close payload.
pub fn parse_close_payload(p: &Vec<u8>) -> (r: Result<Option<CloseFrame>, AssembleError>)
    ensures
        close_payload_spec(p@) == match r {
            Ok(None) => Ok(None),
            Ok(Some(cf)) => Ok(Some((cf.code, cf.reason@))),
            Err(e) => Err(e),
        },
{
    let n = p.len();
    if n == 0 {
        return Ok(None);
    }
    if n == 1 {
        return Err(AssembleError::BadClosePayload);
    }
    let code: u16 = p[0] as u16 * 256 + p[1] as u16;
    let mut rest: Vec<u8> = Vec::new();
    let mut i: usize = 2;
    while i < n
        invariant
            2 <= i <= n,
            n == p@.len(),
            rest@ == p@.subrange(2, i as int),
        decreases n - i,
    {
        rest.push(p[i]);
        i = i + 1;
        assert(rest@ =~= p@.subrange(2, i as int));
    }
    match utf8_string(rest) {
        Some(reason) => Ok(Some(CloseFrame { code, reason })),
        None => Err(AssembleError::InvalidUtf8),
    }
}

fn finish(is_text: bool, data: Vec<u8>) -> (r: Result<Message, AssembleError>)
    ensures
        finish_spec(is_text, data@) == match r {
            Ok(m) => Ok(m@),
            Err(e) => Err(e),
        },
{
    if !is_text {
        Ok(Message::Binary(data))
    } else {
        match utf8_string(data) {
            Some(s) => Ok(Message::Text(s)),
            None => Err(AssembleError::InvalidUtf8),
        }
    }
}

/// Why a message cannot be sent.
#[derive(Clone, Copy, Debug, PartialEq, Eq, Structural)]
pub enum SendError {
    /// A close code reserved for local use.
    ReservedCloseCode,
    /// A control message whose payload is over 125 bytes.
    ControlTooLong,
    /// A data message after closing has begun.
    Closing,
}

/// The payload of a close message: nothing, or the big-endian code followed
/// by the UTF-8 reason.
pub open spec fn close_bytes(c: Option<(u16, Seq<char>)>) -> Seq<u8> {
    match c {
        None => Seq::empty(),
        Some((code, reason)) => seq![(code / 256) as u8, (code % 256) as u8] + encode_utf8(reason),
    }
}

/// The opcode and payload a message is sent with.
pub open spec fn outgoing(m: MessageModel) -> (OpCode, Seq<u8>) {
    match m {
        MessageModel::Text(s) => (OpCode::Text, encode_utf8(s)),
        MessageModel::Binary(b) => (OpCode::Binary, b),
        MessageModel::Ping(b) => (OpCode::Ping, b),
        MessageModel::Pong(b) => (OpCode::Pong, b),
        MessageModel::Close(c) => (OpCode::Close, close_bytes(c)),
    }
}

/// Whether sending the message is refused, and why.
pub open spec fn send_check(m: MessageModel) -> Option<SendError> {
    if m matches MessageModel::Close(Some((code, _))) && !spec_is_sendable_code(code) {
        Some(SendError::ReservedCloseCode)
    } else if outgoing(m).0.spec_is_control() && outgoing(m).1.len() > MAX_CONTROL_PAYLOAD {
        Some(SendError::ControlTooLong)
    } else {
        None
    }
}

fn copy_bytes(b: &[u8]) -> (r: Vec<u8>)
    ensures
        r@ == b@,
{
    let mut out: Vec<u8> = Vec::new();
    out.extend_from_slice(b);
    out
}

impl Message {
    /// The single unfragmented frame that carries this message, masked with
    /// `mask` where one is given; an error for a reserved close code or an
    /// oversized control payload, before any byte is written.
    pub fn to_frame(&self, mask: Option<[u8; 4]>) -> (r: Result<Frame, SendError>)
        ensures
            match send_check(self@) {
                Some(e) => r == Err::<Frame, SendError>(e),
                None => r matches Ok(f) && f.fin && f.mask == mask && (f.opcode, f.payload@)
                    == outgoing(self@),
            },
    {
        let (opcode, payload) = match self {
            Message::Text(s) => (OpCode::Text, copy_bytes(s.as_str().as_bytes())),
            Message::Binary(b) => (OpCode::Binary, copy_bytes(b.as_slice())),
            Message::Ping(b) => (OpCode::Ping, copy_bytes(b.as_slice())),
            Message::Pong(b) => (OpCode::Pong, copy_bytes(b.as_slice())),
            Message::Close(None) => (OpCode::Close, Vec::new()),
            Message::Close(Some(cf)) => {
                if !is_sendable_code(cf.code) {
                    return Err(SendError::ReservedCloseCode);
                }
                let mut p: Vec<u8> = Vec::new();
                p.push((cf.code / 256) as u8);
                p.push((cf.code % 256) as u8);
                p.extend_from_slice(cf.reason.as_str().as_bytes());
                (OpCode::Close, p)
            },
        };
        assert(payload@ =~= outgoing(self@).1);
        if opcode.is_control() && payload.len() > MAX_CONTROL_PAYLOAD {
            return Err(SendError::ControlTooLong);
        }
        Ok(Frame { fin: true, opcode, mask, payload })
    }
}

/// Rebuilds messages from frames in arrival order.
pub struct Assembler {
    pending: Option<(bool, Vec<u8>)>,
}

impl Assembler {
    pub closed spec fn pending(&self) -> PendingModel {
        match self.pending {
            Some((t, d)) => Some((t, d@)),
            None => None,
        }
    }

    /// An assembler with no message in progress.
    pub fn new() -> (r: Assembler)
        ensures
            r.pending() is None,
    {
        Assembler { pending: None }
    }

    /// Whether a fragmented message is in progress.
    pub fn is_pending(&self) -> (r: bool)
        ensures
            r == self.pending() is Some,
    {
        self.pending.is_some()
    }

    /// Takes one frame: a finished message, `None` while a fragmented
    /// message is still open, or why the frames do not make a message.
    /// Control frames pass through without touching the open message.
    pub fn push(&mut self, frame: Frame, max_message_size: Option<usize>) -> (r: Result<
        Option<Message>,
        AssembleError,
    >)
        ensures
            step_spec(old(self).pending(), frame@, max_message_size) == (
                final(self).pending(),
                match r {
                    Ok(Some(m)) => Ok(Some(m@)),
                    Ok(None) => Ok(None),
                    Err(e) => Err(e),
                },
            ),
    {
        let ghost fm = frame@;
        let Frame { fin, opcode, mask: _, payload } = frame;
        match opcode {
            OpCode::Ping => Ok(Some(Message::Ping(payload))),
            OpCode::Pong => Ok(Some(Message::Pong(payload))),
            OpCode::Close => match parse_close_payload(&payload) {
                Ok(c) => Ok(Some(Message::Close(c))),
                Err(e) => {
                    self.pending = None;
                    Err(e)
                },
            },
            OpCode::Continue => {
                let pending = self.pending.take();
                match pending {
                    None => Err(AssembleError::UnexpectedContinuation),
                    Some((is_text, mut data)) => {
                        let too_big = match max_message_size {
                            Some(m) => data.len() as u128 + payload.len() as u128 > m as u128,
                            None => false,
                        };
                        if too_big {
                            return Err(AssembleError::MessageTooLarge);
                        }
                        let mut payload = payload;
                        data.append(&mut payload);
                        if !fin {
                            self.pending = Some((is_text, data));
                            Ok(None)
                        } else {
                            match finish(is_text, data) {
                                Ok(m) => Ok(Some(m)),
                                Err(e) => Err(e),
                            }
                        }
                    },
                }
            },
            _ => {
                if self.pending.is_some() {
                    self.pending = None;
                    return Err(AssembleError::UnexpectedDataFrame);
                }
                let too_big = match max_message_size {
                    Some(m) => payload.len() > m,
                    None => false,
                };
                if too_big {
                    return Err(AssembleError::MessageTooLarge);
                }
                let is_text = match opcode {
                    OpCode::Text => true,
                    _ => false,
                };
                if !fin {
                    self.pending = Some((is_text, payload));
                    Ok(None)
                } else {
                    match finish(is_text, payload) {
                        Ok(m) => Ok(Some(m)),
                        Err(e) => Err(e),
                    }
                }
            },
        }
    }
}

} // verus!

verus! {

/// Whether a frame is a ping or a pong.
pub open spec fn is_ping_pong(f: FrameModel) -> bool {
    f.opcode is Ping || f.opcode is Pong
}

/// The assembler run over `frames` from `pending`: the pending message at
/// the end, and what each frame yielded.
pub open spec fn run_spec(pending: PendingModel, frames: Seq<FrameModel>, max_message_size: Option<usize>)
    -> (PendingModel, Seq<Result<Option<MessageModel>, AssembleError>>)
    decreases frames.len(),
{
    if frames.len() == 0 {
        (pending, Seq::empty())
    } else {
        let (p, outs) = run_spec(pending, frames.drop_last(), max_message_size);
        let (p2, o) = step_spec(p, frames.last(), max_message_size);
        (p2, outs.push(o))
    }
}

/// The payloads of the frames that are not pings or pongs, in order.
pub open spec fn data_payload(frames: Seq<FrameModel>) -> Seq<u8>
    decreases frames.len(),
{
    if frames.len() == 0 {
        Seq::empty()
    } else if is_ping_pong(frames.last()) {
        data_payload(frames.drop_last())
    } else {
        data_payload(frames.drop_last()) + frames.last().payload
    }
}

/// The frames carry one data message in one or more fragments (a text or
/// binary frame, then continuation frames, FIN on the last fragment only),
/// with pings and pongs anywhere between fragments.
pub open spec fn fragmented_message(frames: Seq<FrameModel>) -> bool {
    &&& frames.len() >= 1
    &&& (frames[0].opcode is Text || frames[0].opcode is Binary)
    &&& forall|i: int| 0 < i < frames.len() ==> is_ping_pong(#[trigger] frames[i]) || frames[i].opcode is Continue
    &&& forall|i: int| 0 <= i < frames.len() - 1 && !is_ping_pong(#[trigger] frames[i]) ==> !frames[i].fin
    &&& frames.last().fin
    &&& !is_ping_pong(frames.last())
}

/// What a frame before the last of a fragmented message yields: a ping or
/// pong is delivered as it is, a fragment yields nothing yet.
pub open spec fn interim_output(f: FrameModel) -> Result<Option<MessageModel>, AssembleError> {
    if f.opcode is Ping {
        Ok(Some(MessageModel::Ping(f.payload)))
    } else if f.opcode is Pong {
        Ok(Some(MessageModel::Pong(f.payload)))
    } else {
        Ok(None)
    }
}

proof fn lemma_data_payload_grows(frames: Seq<FrameModel>, k: int, j: int)
    requires
        0 <= k <= j <= frames.len(),
    ensures
        data_payload(frames.take(k)).len() <= data_payload(frames.take(j)).len(),
    decreases j - k,
{
    if k < j {
        lemma_data_payload_grows(frames, k, j - 1);
        assert(frames.take(j).drop_last() =~= frames.take(j - 1));
    }
}

proof fn lemma_fragment_prefix(frames: Seq<FrameModel>, k: int, max_message_size: Option<usize>)
    requires
        fragmented_message(frames),
        1 <= k < frames.len(),
        max_message_size matches Some(m) ==> data_payload(frames).len() <= m,
    ensures
        run_spec(None, frames.take(k), max_message_size).0 == Some(
            (frames[0].opcode is Text, data_payload(frames.take(k))),
        ),
        run_spec(None, frames.take(k), max_message_size).1 =~= Seq::new(
            k as nat,
            |i: int| interim_output(frames[i]),
        ),
    decreases k,
{
    assert(frames.take(k).drop_last() =~= frames.take(k - 1));
    assert(frames.take(k).last() == frames[k - 1]);
    assert(frames =~= frames.take(frames.len() as int));
    lemma_data_payload_grows(frames, k, frames.len() as int);
    if k == 1 {
        assert(frames.take(0) =~= Seq::<FrameModel>::empty());
        assert(!is_ping_pong(frames[0]));
        assert(data_payload(frames.take(1)) =~= frames[0].payload);
    } else {
        lemma_fragment_prefix(frames, k - 1, max_message_size);
    }
}

/// Reassembly: one data message split into fragments, with pings and
/// pongs between them, comes out as the concatenation of the fragments'
/// payloads in order; each ping and pong is delivered as it is, the other
/// fragments yield nothing, and no message stays pending.
pub proof fn lemma_reassembly(frames: Seq<FrameModel>, max_message_size: Option<usize>)
    requires
        fragmented_message(frames),
        max_message_size matches Some(m) ==> data_payload(frames).len() <= m,
    ensures
        ({
            let (p, outs) = run_spec(None, frames, max_message_size);
            &&& p is None
            &&& outs.len() == frames.len()
            &&& forall|i: int| 0 <= i < frames.len() - 1 ==> #[trigger] outs[i] == interim_output(frames[i])
            &&& outs.last() == match finish_spec(frames[0].opcode is Text, data_payload(frames)) {
                Ok(m) => Ok(Some(m)),
                Err(e) => Err(e),
            }
        }),
{
    let n = frames.len() as int;
    assert(frames.drop_last() =~= frames.take(n - 1));
    if n == 1 {
        assert(frames.drop_last() =~= Seq::<FrameModel>::empty());
        assert(data_payload(frames.drop_last()) =~= Seq::<u8>::empty());
        assert(data_payload(frames) =~= frames[0].payload);
    } else {
        lemma_fragment_prefix(frames, n - 1, max_message_size);
    }
}

} // verus!
