//! The frame codec: one WebSocket frame to and from its wire bytes.
use vstd::prelude::*;

verus! {

/// The kind of a frame.
#[derive(Clone, Copy, Debug, PartialEq, Eq, Structural)]
pub enum OpCode {
    Continue,
    Text,
    Binary,
    Close,
    Ping,
    Pong,
}

impl OpCode {
    /// The 4-bit code on the wire.
    pub open spec fn spec_code(self) -> u8 {
        match self {
            OpCode::Continue => 0,
            OpCode::Text => 1,
            OpCode::Binary => 2,
            OpCode::Close => 8,
            OpCode::Ping => 9,
            OpCode::Pong => 10,
        }
    }

    pub open spec fn spec_is_control(self) -> bool {
        self is Close || self is Ping || self is Pong
    }

    pub fn code(&self) -> (r: u8)
        ensures
            r == self.spec_code(),
    {
        match self {
            OpCode::Continue => 0,
            OpCode::Text => 1,
            OpCode::Binary => 2,
            OpCode::Close => 8,
            OpCode::Ping => 9,
            OpCode::Pong => 10,
        }
    }

    pub fn is_control(&self) -> (r: bool)
        ensures
            r == self.spec_is_control(),
    {
        match self {
            OpCode::Close | OpCode::Ping | OpCode::Pong => true,
            _ => false,
        }
    }

    /// The opcode with the given 4-bit code, if there is one.
    pub fn from_code(code: u8) -> (r: Option<OpCode>)
        ensures
            r == opcode_of(code),
    {
        match code {
            0 => Some(OpCode::Continue),
            1 => Some(OpCode::Text),
            2 => Some(OpCode::Binary),
            8 => Some(OpCode::Close),
            9 => Some(OpCode::Ping),
            10 => Some(OpCode::Pong),
            _ => None,
        }
    }
}

pub open spec fn opcode_of(code: u8) -> Option<OpCode> {
    if code == 0 {
        Some(OpCode::Continue)
    } else if code == 1 {
        Some(OpCode::Text)
    } else if code == 2 {
        Some(OpCode::Binary)
    } else if code == 8 {
        Some(OpCode::Close)
    } else if code == 9 {
        Some(OpCode::Ping)
    } else if code == 10 {
        Some(OpCode::Pong)
    } else {
        None
    }
}

/// The largest payload a control frame may carry.
pub const MAX_CONTROL_PAYLOAD: usize = 125;

/// The largest payload length the 64-bit length field may hold (its high
/// bit must be clear).
pub const MAX_PAYLOAD_LEN: u64 = 0x7fff_ffff_ffff_ffff;

/// A frame as it is modelled in contracts: the payload is the plain
/// (unmasked) payload.
pub struct FrameModel {
    pub fin: bool,
    pub opcode: OpCode,
    pub mask: Option<Seq<u8>>,
    pub payload: Seq<u8>,
}

/// One frame. `payload` is always the plain payload; `mask` is the key the
/// payload is (or was) masked with on the wire.
#[derive(Clone, Debug)]
pub struct Frame {
    pub fin: bool,
    pub opcode: OpCode,
    pub mask: Option<[u8; 4]>,
    pub payload: Vec<u8>,
}

impl View for Frame {
    type V = FrameModel;

    open spec fn view(&self) -> FrameModel {
        FrameModel {
            fin: self.fin,
            opcode: self.opcode,
            mask: match self.mask {
                Some(k) => Some(k@),
                None => None,
            },
            payload: self.payload@,
        }
    }
}

/// Each byte XORed with the key byte at its index modulo 4.
pub open spec fn mask_bytes(p: Seq<u8>, key: Seq<u8>) -> Seq<u8> {
    Seq::new(p.len(), |i: int| p[i] ^ key[i % 4])
}

pub open spec fn pow256(k: nat) -> nat
    decreases k,
{
    if k == 0 {
        1
    } else {
        256 * pow256((k - 1) as nat)
    }
}

/// `n` written big-endian in `k` bytes.
pub open spec fn be_bytes(n: nat, k: nat) -> Seq<u8>
    decreases k,
{
    if k == 0 {
        Seq::empty()
    } else {
        be_bytes(n / 256, (k - 1) as nat).push((n % 256) as u8)
    }
}

/// The number that `s` writes big-endian.
pub open spec fn be_value(s: Seq<u8>) -> nat
    decreases s.len(),
{
    if s.len() == 0 {
        0
    } else {
        (be_value(s.drop_last()) * 256 + s.last()) as nat
    }
}

/// The first header byte: FIN, zero reserved bits, the opcode.
pub open spec fn first_byte(fin: bool, opcode: OpCode) -> u8 {
    ((if fin { 128int } else { 0int }) + opcode.spec_code()) as u8
}

/// The second header byte and the extended length: the shortest of the
/// three length encodings that holds `n`.
pub open spec fn length_bytes(masked: bool, n: nat) -> Seq<u8> {
    let m: int = if masked { 128 } else { 0 };
    if n <= 125 {
        seq![(m + n) as u8]
    } else if n <= 65535 {
        seq![(m + 126) as u8] + be_bytes(n, 2)
    } else {
        seq![(m + 127) as u8] + be_bytes(n, 8)
    }
}

/// The wire bytes of a frame.
pub open spec fn wire(f: FrameModel) -> Seq<u8> {
    seq![first_byte(f.fin, f.opcode)] + length_bytes(f.mask is Some, f.payload.len())
        + match f.mask {
        Some(k) => k + mask_bytes(f.payload, k),
        None => f.payload,
    }
}

/// Why a frame is refused.
#[derive(Clone, Copy, Debug, PartialEq, Eq, Structural)]
pub enum FrameError {
    /// A reserved bit is set.
    ReservedBits,
    /// The opcode is none of the six known ones.
    UnknownOpcode,
    /// A control frame without FIN.
    FragmentedControl,
    /// A control frame with a payload over 125 bytes.
    ControlTooLong,
    /// A frame without a mask where masks are required.
    Unmasked,
    /// A 64-bit length with its high bit set.
    LengthTooLarge,
    /// A length written in more bytes than it needs.
    NonMinimalLength,
    /// A payload over the frame size limit.
    FrameTooLarge,
}

/// The number of extended length bytes that the 7-bit length field asks for.
pub open spec fn ext_len(len7: u8) -> nat {
    if len7 == 126 {
        2
    } else if len7 == 127 {
        8
    } else {
        0
    }
}

/// What the front of `b` holds: a frame and the number of bytes it takes
/// (`Ok(Some(..))`), too few bytes to tell yet (`Ok(None)`), or a refused
/// frame. The checks are made in the order in which the header's bytes come.
pub open spec fn decode_spec(b: Seq<u8>, accept_unmasked: bool, max_frame_size: Option<usize>)
    -> Result<Option<(FrameModel, nat)>, FrameError> {
    if b.len() < 2 {
        Ok(None)
    } else {
        let b0 = b[0];
        let b1 = b[1];
        let fin = b0 >= 128;
        let masked = b1 >= 128;
        let len7 = (b1 % 128) as u8;
        let ext = ext_len(len7);
        if (b0 / 16) % 8 != 0 {
            Err(FrameError::ReservedBits)
        } else if opcode_of((b0 % 16) as u8) is None {
            Err(FrameError::UnknownOpcode)
        } else if opcode_of((b0 % 16) as u8).unwrap().spec_is_control() && !fin {
            Err(FrameError::FragmentedControl)
        } else if opcode_of((b0 % 16) as u8).unwrap().spec_is_control() && len7 > 125 {
            Err(FrameError::ControlTooLong)
        } else if !masked && !accept_unmasked {
            Err(FrameError::Unmasked)
        } else if b.len() < 2 + ext {
            Ok(None)
        } else {
            let n: nat = if ext == 0 {
                len7 as nat
            } else {
                be_value(b.subrange(2, (2 + ext) as int))
            };
            let hl: nat = 2 + ext + if masked { 4nat } else { 0nat };
            if n > MAX_PAYLOAD_LEN {
                Err(FrameError::LengthTooLarge)
            } else if (ext == 2 && n <= 125) || (ext == 8 && n <= 65535) {
                Err(FrameError::NonMinimalLength)
            } else if max_frame_size is Some && n > max_frame_size.unwrap() {
                Err(FrameError::FrameTooLarge)
            } else if b.len() < hl + n {
                Ok(None)
            } else {
                let raw = b.subrange(hl as int, (hl + n) as int);
                let key = b.subrange((2 + ext) as int, (2 + ext + 4) as int);
                Ok(
                    Some(
                        (
                            FrameModel {
                                fin,
                                opcode: opcode_of((b0 % 16) as u8).unwrap(),
                                mask: if masked { Some(key) } else { None },
                                payload: if masked { mask_bytes(raw, key) } else { raw },
                            },
                            hl + n,
                        ),
                    ),
                )
            }
        }
    }
}

/// A frame that may stand on the wire: a 4-byte key if masked, a payload
/// the 64-bit length field can hold, and control frames unfragmented with
/// at most 125 bytes.
pub open spec fn frame_valid(f: FrameModel) -> bool {
    &&& (f.mask matches Some(k) ==> k.len() == 4)
    &&& f.payload.len() <= MAX_PAYLOAD_LEN
    &&& (f.opcode.spec_is_control() ==> f.fin && f.payload.len() <= MAX_CONTROL_PAYLOAD)
}

/// Masking is its own inverse: unmasking a masked payload with the same
/// key gives back the original bytes.
pub proof fn lemma_mask_involution(p: Seq<u8>, key: Seq<u8>)
    requires
        key.len() == 4,
    ensures
        mask_bytes(mask_bytes(p, key), key) == p,
{
    assert forall|i: int| 0 <= i < p.len() implies #[trigger] mask_bytes(mask_bytes(p, key), key)[i]
        == p[i] by {
        let x = p[i];
        let k = key[i % 4];
        assert((x ^ k) ^ k == x) by (bit_vector);
    }
    assert(mask_bytes(mask_bytes(p, key), key) =~= p);
}

/// Reading back a big-endian number gives the number, where it fits.
pub proof fn lemma_be_round_trip(n: nat, k: nat)
    requires
        n < pow256(k),
    ensures
        be_bytes(n, k).len() == k,
        be_value(be_bytes(n, k)) == n,
    decreases k,
{
    if k > 0 {
        let p = pow256((k - 1) as nat);
        assert(n / 256 < p) by (nonlinear_arith)
            requires n < 256 * p;
        lemma_be_round_trip(n / 256, (k - 1) as nat);
        let s = be_bytes(n, k);
        assert(s.drop_last() =~= be_bytes(n / 256, (k - 1) as nat));
    }
}

/// Encoding a valid frame and decoding the bytes gives back the same FIN
/// bit, opcode, mask and payload, and consumes exactly the encoded bytes,
/// whichever of the three length encodings is used, wherever the frame is
/// acceptable under the masking policy and frame size limit.
pub proof fn lemma_round_trip(f: FrameModel, accept_unmasked: bool, max_frame_size: Option<usize>)
    requires
        frame_valid(f),
        f.mask is Some || accept_unmasked,
        max_frame_size matches Some(m) ==> f.payload.len() <= m,
    ensures
        decode_spec(wire(f), accept_unmasked, max_frame_size) == Ok::<
            Option<(FrameModel, nat)>,
            FrameError,
        >(Some((f, wire(f).len()))),
{
    let b = wire(f);
    let n = f.payload.len();
    let masked = f.mask is Some;
    let ext: nat = if n <= 125 { 0 } else if n <= 65535 { 2 } else { 8 };
    lemma_wire_header(f);
    let lb = length_bytes(masked, n);
    assert(lb.len() == 1 + ext);
    let hl: nat = 2 + ext + if masked { 4nat } else { 0nat };
    if ext > 0 {
        assert(b.subrange(2, (2 + ext) as int) =~= be_bytes(n, ext));
    }
    match f.mask {
        Some(k) => {
            assert(b.subrange((2 + ext) as int, (2 + ext + 4) as int) =~= k);
            assert(b.subrange(hl as int, (hl + n) as int) =~= mask_bytes(f.payload, k));
            lemma_mask_involution(f.payload, k);
        },
        None => {
            assert(b.subrange(hl as int, (hl + n) as int) =~= f.payload);
        },
    }
    assert(b.len() == hl + n);
}

/// What the header of a valid frame's wire bytes reads back as.
pub proof fn lemma_wire_header(f: FrameModel)
    requires
        frame_valid(f),
    ensures
        ({
            let b = wire(f);
            let n = f.payload.len();
            let ext: nat = if n <= 125 { 0 } else if n <= 65535 { 2 } else { 8 };
            &&& length_bytes(f.mask is Some, n).len() == 1 + ext
            &&& b.len() >= 2 + ext
            &&& (b[0] / 16) % 8 == 0
            &&& opcode_of((b[0] % 16) as u8) == Some(f.opcode)
            &&& (b[0] >= 128) == f.fin
            &&& (b[1] >= 128) == f.mask is Some
            &&& ext_len((b[1] % 128) as u8) == ext
            &&& (ext == 0 ==> (b[1] % 128) as nat == n)
            &&& (ext != 0 ==> be_value(b.subrange(2, (2 + ext) as int)) == n)
        }),
{
    let b = wire(f);
    let n = f.payload.len();
    let masked = f.mask is Some;
    let ext: nat = if n <= 125 { 0 } else if n <= 65535 { 2 } else { 8 };
    reveal_with_fuel(pow256, 3);
    lemma_pow256_8();
    if ext == 2 {
        lemma_be_round_trip(n, 2);
    } else if ext == 8 {
        lemma_be_round_trip(n, 8);
    }
    let lb = length_bytes(masked, n);
    assert(lb.len() == 1 + ext);
    assert(b[0] == first_byte(f.fin, f.opcode));
    assert(b[1] == lb[0]);
    if ext > 0 {
        assert(b.subrange(2, (2 + ext) as int) =~= be_bytes(n, ext));
    }
}

/// Masking policy: where unmasked frames are not accepted, a valid frame
/// without a mask is refused as unmasked; where they are, it reads back as
/// itself (within the frame size limit).
pub proof fn lemma_masking_policy(f: FrameModel, max_frame_size: Option<usize>)
    requires
        frame_valid(f),
        f.mask is None,
    ensures
        decode_spec(wire(f), false, max_frame_size) == Err::<Option<(FrameModel, nat)>, FrameError>(
            FrameError::Unmasked,
        ),
        (max_frame_size matches Some(m) ==> f.payload.len() <= m) ==> decode_spec(
            wire(f),
            true,
            max_frame_size,
        ) == Ok::<Option<(FrameModel, nat)>, FrameError>(Some((f, wire(f).len()))),
{
    lemma_wire_header(f);
    if max_frame_size matches Some(m) ==> f.payload.len() <= m {
        lemma_round_trip(f, true, max_frame_size);
    }
}

/// A valid frame whose payload is over the frame size limit is refused as
/// too large, whatever the masking policy lets through.
pub proof fn lemma_oversize_frame(f: FrameModel, accept_unmasked: bool, max_frame_size: usize)
    requires
        frame_valid(f),
        f.mask is Some || accept_unmasked,
        f.payload.len() > max_frame_size,
    ensures
        decode_spec(wire(f), accept_unmasked, Some(max_frame_size)) == Err::<
            Option<(FrameModel, nat)>,
            FrameError,
        >(FrameError::FrameTooLarge),
{
    lemma_wire_header(f);
}

/// XORs each byte of `payload` with `key[i % 4]`, `i` being its index.
pub fn apply_mask(payload: &mut Vec<u8>, key: [u8; 4])
    ensures
        final(payload)@ == mask_bytes(old(payload)@, key@),
{
    let n = payload.len();
    let mut i: usize = 0;
    while i < n
        invariant
            i <= n,
            n == old(payload)@.len(),
            payload@.len() == n,
            forall|j: int| 0 <= j < i ==> payload@[j] == old(payload)@[j] ^ key@[j % 4],
            forall|j: int| i <= j < n ==> payload@[j] == old(payload)@[j],
        decreases n - i,
    {
        let b = payload[i] ^ key[i % 4];
        payload.set(i, b);
        i = i + 1;
    }
    assert(payload@ =~= mask_bytes(old(payload)@, key@));
}

/// Appends `n` written big-endian in `k` bytes.
fn push_be(out: &mut Vec<u8>, n: u64, k: usize)
    requires
        k <= 8,
    ensures
        final(out)@ == old(out)@ + be_bytes(n as nat, k as nat),
    decreases k,
{
    if k == 0 {
        assert(old(out)@ + be_bytes(n as nat, 0) =~= old(out)@);
    } else {
        push_be(out, n / 256, k - 1);
        out.push((n % 256) as u8);
        assert(final(out)@ =~= old(out)@ + be_bytes(n as nat, k as nat));
    }
}

/// Reads the number written big-endian in `buf[start..start + k]`.
fn read_be(buf: &[u8], start: usize, k: usize) -> (r: u64)
    requires
        k <= 8,
        start + k <= buf@.len(),
    ensures
        r == be_value(buf@.subrange(start as int, start + k)),
{
    let blen = buf.len();
    let mut acc: u64 = 0;
    let mut i: usize = 0;
    assert(buf@.subrange(start as int, start as int) =~= Seq::<u8>::empty());
    while i < k
        invariant
            i <= k,
            k <= 8,
            start + k <= buf@.len(),
            blen == buf@.len(),
            acc == be_value(buf@.subrange(start as int, start + i)),
            acc < pow256(i as nat),
            pow256(i as nat) * pow256((k - i) as nat) == pow256(k as nat),
        decreases k - i,
    {
        let ghost p = pow256(i as nat);
        let ghost q = pow256((k - i - 1) as nat);
        assert(pow256((k - i) as nat) == 256 * q);
        assert(pow256(k as nat) <= 0x1_0000_0000_0000_0000) by {
            lemma_pow256_8();
            lemma_pow256_mono(k as nat, 8);
        }
        assert(q >= 1) by {
            lemma_pow256_pos((k - i - 1) as nat);
        }
        assert(acc * 256 + 255 < p * 256) by (nonlinear_arith)
            requires acc < p;
        assert(p * 256 <= pow256(k as nat)) by (nonlinear_arith)
            requires p * (256 * q) == pow256(k as nat), q >= 1;
        let b = buf[start + i];
        acc = acc * 256 + b as u64;
        let ghost s = buf@.subrange(start as int, start + i + 1);
        assert(s.drop_last() =~= buf@.subrange(start as int, start + i));
        i = i + 1;
        assert(pow256(i as nat) * pow256((k - i) as nat) == pow256(k as nat)) by (nonlinear_arith)
            requires pow256(i as nat) == 256 * p, pow256((k - i) as nat) == q, p * (256 * q) == pow256(k as nat);
    }
    acc
}

impl Frame {
    /// The wire bytes of this frame, with the shortest length encoding.
    pub fn encode(&self) -> (r: Vec<u8>)
        requires
            self.payload@.len() <= MAX_PAYLOAD_LEN,
        ensures
            r@ == wire(self@),
    {
        let mut out: Vec<u8> = Vec::new();
        let fin_bit: u8 = if self.fin { 128 } else { 0 };
        out.push(fin_bit + self.opcode.code());
        let mask_bit: u8 = if self.mask.is_some() { 128 } else { 0 };
        let n = self.payload.len();
        if n <= 125 {
            out.push(mask_bit + n as u8);
        } else if n <= 65535 {
            out.push(mask_bit + 126);
            push_be(&mut out, n as u64, 2);
        } else {
            out.push(mask_bit + 127);
            push_be(&mut out, n as u64, 8);
        }
        assert(out@ =~= seq![first_byte(self.fin, self.opcode)] + length_bytes(
            self.mask is Some,
            n as nat,
        ));
        match self.mask {
            Some(key) => {
                let ghost header = out@;
                out.push(key[0]);
                out.push(key[1]);
                out.push(key[2]);
                out.push(key[3]);
                assert(out@ =~= header + key@);
                let mut p: Vec<u8> = Vec::new();
                p.extend_from_slice(self.payload.as_slice());
                apply_mask(&mut p, key);
                out.append(&mut p);
            },
            None => {
                out.extend_from_slice(self.payload.as_slice());
            },
        }
        assert(out@ =~= wire(self@));
        out
    }
}

/// Reads the frame at the front of `buf`: the frame and the number of bytes
/// it takes, `None` where more bytes are needed, or why the frame is refused.
pub fn decode(buf: &[u8], accept_unmasked: bool, max_frame_size: Option<usize>) -> (r: Result<
    Option<(Frame, usize)>,
    FrameError,
>)
    ensures
        decode_spec(buf@, accept_unmasked, max_frame_size) == match r {
            Ok(Some((f, n))) => Ok(Some((f@, n as nat))),
            Ok(None) => Ok(None),
            Err(e) => Err(e),
        },
{
    let len = buf.len();
    if len < 2 {
        return Ok(None);
    }
    let b0 = buf[0];
    let b1 = buf[1];
    let fin = b0 >= 128;
    let masked = b1 >= 128;
    let len7: u8 = b1 % 128;
    if (b0 / 16) % 8 != 0 {
        return Err(FrameError::ReservedBits);
    }
    let opcode = match OpCode::from_code(b0 % 16) {
        Some(op) => op,
        None => {
            return Err(FrameError::UnknownOpcode);
        },
    };
    if opcode.is_control() && !fin {
        return Err(FrameError::FragmentedControl);
    }
    if opcode.is_control() && len7 > 125 {
        return Err(FrameError::ControlTooLong);
    }
    if !masked && !accept_unmasked {
        return Err(FrameError::Unmasked);
    }
    let ext: usize = if len7 == 126 {
        2
    } else if len7 == 127 {
        8
    } else {
        0
    };
    if len < 2 + ext {
        return Ok(None);
    }
    let n: u64 = if ext == 0 {
        len7 as u64
    } else {
        read_be(buf, 2, ext)
    };
    let hl: usize = 2 + ext + if masked { 4 } else { 0 };
    if n > MAX_PAYLOAD_LEN {
        return Err(FrameError::LengthTooLarge);
    }
    if (ext == 2 && n <= 125) || (ext == 8 && n <= 65535) {
        return Err(FrameError::NonMinimalLength);
    }
    match max_frame_size {
        Some(m) => {
            if n > m as u64 {
                return Err(FrameError::FrameTooLarge);
            }
        },
        None => {},
    }
    if (len as u64) < hl as u64 + n {
        return Ok(None);
    }
    let end: usize = hl + n as usize;
    let mut payload: Vec<u8> = Vec::new();
    let mut i: usize = hl;
    while i < end
        invariant
            hl <= i <= end,
            end <= len,
            len == buf@.len(),
            payload@ == buf@.subrange(hl as int, i as int),
        decreases end - i,
    {
        payload.push(buf[i]);
        i = i + 1;
        assert(payload@ =~= buf@.subrange(hl as int, i as int));
    }
    let mask = if masked {
        let key: [u8; 4] = [buf[2 + ext], buf[3 + ext], buf[4 + ext], buf[5 + ext]];
        assert(key@ =~= buf@.subrange((2 + ext) as int, (2 + ext + 4) as int));
        apply_mask(&mut payload, key);
        Some(key)
    } else {
        None
    };
    let frame = Frame { fin, opcode, mask, payload };
    Ok(Some((frame, end)))
}

pub proof fn lemma_pow256_8()
    ensures
        pow256(8) == 0x1_0000_0000_0000_0000,
{
    reveal_with_fuel(pow256, 9);
}

pub proof fn lemma_pow256_pos(k: nat)
    ensures
        pow256(k) >= 1,
    decreases k,
{
    if k > 0 {
        lemma_pow256_pos((k - 1) as nat);
    }
}

pub proof fn lemma_pow256_mono(a: nat, b: nat)
    requires
        a <= b,
    ensures
        pow256(a) <= pow256(b),
    decreases b,
{
    if a < b {
        lemma_pow256_mono(a, (b - 1) as nat);
        lemma_pow256_pos((b - 1) as nat);
    }
}

} // verus!
