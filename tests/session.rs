use mews::close::CloseState;
use mews::frame::{Frame, FrameError, OpCode};
use mews::message::{
    is_sendable_code, parse_close_payload, AssembleError, Assembler, CloseFrame, Message, SendError,
};
use mews::session::{write_decision, ReadOutcome, Session, SessionError, WriteDecision};
use mews::Config;

fn frame(fin: bool, opcode: OpCode, payload: &[u8]) -> Frame {
    Frame { fin, opcode, mask: Some([7, 1, 2, 3]), payload: payload.to_vec() }
}

#[test]
fn reassembly_with_interleaved_control_frames() {
    let mut a = Assembler::new();
    assert!(a.push(frame(false, OpCode::Binary, b"ab"), None).unwrap().is_none());
    assert!(a.is_pending());
    match a.push(frame(true, OpCode::Ping, b"p"), None).unwrap() {
        Some(Message::Ping(p)) => assert_eq!(p, b"p".to_vec()),
        other => panic!("{:?}", other),
    }
    assert!(a.push(frame(false, OpCode::Continue, b"cd"), None).unwrap().is_none());
    match a.push(frame(true, OpCode::Pong, b""), None).unwrap() {
        Some(Message::Pong(p)) => assert!(p.is_empty()),
        other => panic!("{:?}", other),
    }
    match a.push(frame(true, OpCode::Continue, b"e"), None).unwrap() {
        Some(Message::Binary(b)) => assert_eq!(b, b"abcde".to_vec()),
        other => panic!("{:?}", other),
    }
    assert!(!a.is_pending());
}

#[test]
fn single_frame_text() {
    let mut a = Assembler::new();
    match a.push(frame(true, OpCode::Text, "héllo".as_bytes()), None).unwrap() {
        Some(Message::Text(s)) => assert_eq!(s, "héllo"),
        other => panic!("{:?}", other),
    }
}

#[test]
fn text_split_inside_code_point() {
    let bytes = "é".as_bytes();
    let mut a = Assembler::new();
    assert!(a.push(frame(false, OpCode::Text, &bytes[..1]), None).unwrap().is_none());
    match a.push(frame(true, OpCode::Continue, &bytes[1..]), None).unwrap() {
        Some(Message::Text(s)) => assert_eq!(s, "é"),
        other => panic!("{:?}", other),
    }
}

#[test]
fn assembler_errors() {
    let mut a = Assembler::new();
    assert_eq!(a.push(frame(true, OpCode::Continue, b"x"), None).err(), Some(AssembleError::UnexpectedContinuation));
    let mut a = Assembler::new();
    a.push(frame(false, OpCode::Text, b"x"), None).unwrap();
    assert_eq!(a.push(frame(true, OpCode::Binary, b"y"), None).err(), Some(AssembleError::UnexpectedDataFrame));
    assert!(!a.is_pending());
    let mut a = Assembler::new();
    assert_eq!(a.push(frame(true, OpCode::Text, &[0xff, 0xfe]), None).err(), Some(AssembleError::InvalidUtf8));
    assert_eq!(a.push(frame(true, OpCode::Close, &[3]), None).err(), Some(AssembleError::BadClosePayload));
    assert_eq!(AssembleError::InvalidUtf8.close_code(), 1007);
    assert_eq!(AssembleError::MessageTooLarge.close_code(), 1009);
    assert_eq!(AssembleError::UnexpectedContinuation.close_code(), 1002);
}

#[test]
fn message_size_limit() {
    let mut a = Assembler::new();
    assert_eq!(a.push(frame(true, OpCode::Binary, b"12345"), Some(4)).err(), Some(AssembleError::MessageTooLarge));
    let mut a = Assembler::new();
    assert!(a.push(frame(false, OpCode::Binary, b"123"), Some(4)).unwrap().is_none());
    assert_eq!(a.push(frame(true, OpCode::Continue, b"45"), Some(4)).err(), Some(AssembleError::MessageTooLarge));
    let mut a = Assembler::new();
    assert!(a.push(frame(false, OpCode::Binary, b"12"), Some(4)).unwrap().is_none());
    match a.push(frame(true, OpCode::Continue, b"34"), Some(4)).unwrap() {
        Some(Message::Binary(b)) => assert_eq!(b, b"1234".to_vec()),
        other => panic!("{:?}", other),
    }
}

#[test]
fn close_payloads() {
    assert!(parse_close_payload(&vec![]).unwrap().is_none());
    let cf = parse_close_payload(&vec![0x03, 0xe8, b'b', b'y', b'e']).unwrap().unwrap();
    assert_eq!(cf.code, 1000);
    assert_eq!(cf.reason, "bye");
    assert_eq!(parse_close_payload(&vec![0x03, 0xe8, 0xc0]).err(), Some(AssembleError::InvalidUtf8));
}

#[test]
fn sendable_codes() {
    for c in [1000u16, 1003, 1007, 1011, 3000, 4999] {
        assert!(is_sendable_code(c));
    }
    for c in [999u16, 1004, 1005, 1006, 1012, 1015, 2999, 5000] {
        assert!(!is_sendable_code(c));
    }
}

#[test]
fn to_frame_of_messages() {
    let f = Message::Text("hi".to_string()).to_frame(None).unwrap();
    assert!(f.fin);
    assert_eq!(f.opcode, OpCode::Text);
    assert_eq!(f.payload, b"hi".to_vec());
    let f = Message::Close(Some(CloseFrame { code: 1001, reason: "away".to_string() }))
        .to_frame(Some([1, 2, 3, 4]))
        .unwrap();
    assert_eq!(f.opcode, OpCode::Close);
    assert_eq!(f.mask, Some([1, 2, 3, 4]));
    assert_eq!(f.payload, vec![0x03, 0xe9, b'a', b'w', b'a', b'y']);
    assert_eq!(
        Message::Close(Some(CloseFrame { code: 1006, reason: String::new() })).to_frame(None).err(),
        Some(SendError::ReservedCloseCode)
    );
    assert_eq!(Message::Ping(vec![0; 126]).to_frame(None).err(), Some(SendError::ControlTooLong));
    assert!(Message::Binary(vec![0; 126]).to_frame(None).is_ok());
}

#[test]
fn simultaneous_close_local_first() {
    let (s, sent1) = CloseState::Open.on_local_close();
    assert!(sent1);
    let (s, sent2) = s.on_remote_close();
    assert!(!sent2);
    assert_eq!(s, CloseState::Closed { clean: true });
}

#[test]
fn simultaneous_close_remote_first() {
    let (s, echo) = CloseState::Open.on_remote_close();
    assert!(echo);
    let (s, sent) = s.on_local_close();
    assert!(!sent);
    let s = s.on_echo_sent();
    assert_eq!(s, CloseState::Closed { clean: true });
    assert!(s.is_closed());
}

#[test]
fn disconnect_is_abrupt() {
    assert_eq!(CloseState::LocalClosing.on_disconnect(), CloseState::Closed { clean: false });
    assert_eq!(CloseState::Closed { clean: true }.on_disconnect(), CloseState::Closed { clean: true });
}

fn close_code_of(f: &Frame) -> u16 {
    assert_eq!(f.opcode, OpCode::Close);
    f.payload[0] as u16 * 256 + f.payload[1] as u16
}

#[test]
fn oversize_frame_closes_with_1009() {
    let mut config = Config::default();
    config.max_frame_size = Some(3);
    let mut s = Session::new(config);
    let bytes = frame(true, OpCode::Binary, b"1234").encode();
    match s.receive(&bytes) {
        ReadOutcome::Failed { error, close } => {
            assert_eq!(error, SessionError::Frame(FrameError::FrameTooLarge));
            assert_eq!(close_code_of(&close.unwrap()), 1009);
        }
        other => panic!("{:?}", other),
    }
    assert_eq!(s.close_state(), CloseState::LocalClosing);
}

#[test]
fn oversize_message_closes_with_1009() {
    let mut config = Config::default();
    config.max_message_size = Some(3);
    let mut s = Session::new(config);
    let first = frame(false, OpCode::Binary, b"12").encode();
    match s.receive(&first) {
        ReadOutcome::Progress { consumed, message, reply } => {
            assert_eq!(consumed, first.len());
            assert!(message.is_none());
            assert!(reply.is_none());
        }
        other => panic!("{:?}", other),
    }
    let second = frame(true, OpCode::Continue, b"34").encode();
    match s.receive(&second) {
        ReadOutcome::Failed { error, close } => {
            assert_eq!(error, SessionError::Message(AssembleError::MessageTooLarge));
            assert_eq!(close_code_of(&close.unwrap()), 1009);
        }
        other => panic!("{:?}", other),
    }
}

#[test]
fn unmasked_frame_policy() {
    let bytes = Frame { fin: true, opcode: OpCode::Text, mask: None, payload: b"x".to_vec() }.encode();
    let mut s = Session::new(Config::default());
    match s.receive(&bytes) {
        ReadOutcome::Failed { error, close } => {
            assert_eq!(error, SessionError::Frame(FrameError::Unmasked));
            assert_eq!(close_code_of(&close.unwrap()), 1002);
        }
        other => panic!("{:?}", other),
    }
    let mut config = Config::default();
    config.accept_unmasked_frames = true;
    let mut s = Session::new(config);
    match s.receive(&bytes) {
        ReadOutcome::Progress { message: Some(Message::Text(t)), .. } => assert_eq!(t, "x"),
        other => panic!("{:?}", other),
    }
}

#[test]
fn inbound_close_is_echoed_once() {
    let mut s = Session::new(Config::default());
    let bytes = frame(true, OpCode::Close, &[0x03, 0xed]).encode(); // 1005, reserved
    match s.receive(&bytes) {
        ReadOutcome::Progress { message: Some(Message::Close(Some(cf))), reply: Some(echo), .. } => {
            assert_eq!(cf.code, 1005);
            assert_eq!(close_code_of(&echo), 1000);
        }
        other => panic!("{:?}", other),
    }
    assert_eq!(s.close_state(), CloseState::RemoteClosing);
    assert_eq!(s.send(&Message::Close(None)).unwrap().is_none(), true);
    s.echo_sent();
    assert_eq!(s.close_state(), CloseState::Closed { clean: true });
}

#[test]
fn send_after_close_is_refused() {
    let mut s = Session::new(Config::default());
    let f = s.send(&Message::Binary(vec![1])).unwrap().unwrap();
    assert_eq!(f.encode(), vec![0x82, 0x01, 0x01]);
    assert!(s.send(&Message::Close(None)).unwrap().is_some());
    assert_eq!(s.send(&Message::Text("late".to_string())).err(), Some(SendError::Closing));
    let bytes = frame(true, OpCode::Close, &[]).encode();
    match s.receive(&bytes) {
        ReadOutcome::Progress { reply, .. } => assert!(reply.is_none()),
        other => panic!("{:?}", other),
    }
    assert_eq!(s.close_state(), CloseState::Closed { clean: true });
}

#[test]
fn incomplete_input() {
    let mut s = Session::new(Config::default());
    assert!(matches!(s.receive(&[0x81]), ReadOutcome::Incomplete));
}

#[test]
fn write_decisions() {
    let mut c = Config::default();
    c.write_buffer_size = 10;
    c.max_write_buffer_size = 20;
    assert_eq!(write_decision(&c, 0, 9), WriteDecision::Buffer);
    assert_eq!(write_decision(&c, 5, 5), WriteDecision::Flush);
    assert_eq!(write_decision(&c, 15, 5), WriteDecision::Flush);
    assert_eq!(write_decision(&c, 15, 6), WriteDecision::Backpressure);
    assert_eq!(write_decision(&Config::default(), usize::MAX, 1), WriteDecision::Backpressure);
}
