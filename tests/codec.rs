use mews::frame::{apply_mask, decode, Frame, FrameError, OpCode};

fn frame(fin: bool, opcode: OpCode, mask: Option<[u8; 4]>, payload: Vec<u8>) -> Frame {
    Frame { fin, opcode, mask, payload }
}

fn round_trip(f: &Frame) -> Frame {
    let bytes = f.encode();
    let (g, n) = decode(&bytes, true, None).unwrap().unwrap();
    assert_eq!(n, bytes.len());
    g
}

#[test]
fn round_trip_length_boundaries() {
    for len in [0usize, 1, 125, 126, 127, 65535, 65536, 70000] {
        for mask in [None, Some([1u8, 2, 3, 4])] {
            let payload: Vec<u8> = (0..len).map(|i| (i % 251) as u8).collect();
            let f = frame(len % 2 == 0, OpCode::Binary, mask, payload.clone());
            let g = round_trip(&f);
            assert_eq!(g.fin, f.fin);
            assert_eq!(g.opcode, OpCode::Binary);
            assert_eq!(g.mask, mask);
            assert_eq!(g.payload, payload);
        }
    }
}

#[test]
fn encode_header_layouts() {
    let b = frame(true, OpCode::Text, None, vec![0; 125]).encode();
    assert_eq!(&b[..2], &[0x81, 125]);
    assert_eq!(b.len(), 127);
    let b = frame(true, OpCode::Binary, None, vec![0; 126]).encode();
    assert_eq!(&b[..4], &[0x82, 126, 0, 126]);
    let b = frame(false, OpCode::Binary, None, vec![0; 65535]).encode();
    assert_eq!(&b[..4], &[0x02, 126, 0xff, 0xff]);
    let b = frame(true, OpCode::Binary, Some([9, 9, 9, 9]), vec![0; 65536]).encode();
    assert_eq!(&b[..10], &[0x82, 0xff, 0, 0, 0, 0, 0, 1, 0, 0]);
    assert_eq!(&b[10..14], &[9, 9, 9, 9]);
    assert_eq!(b.len(), 14 + 65536);
}

#[test]
fn masked_payload_on_wire() {
    let b = frame(true, OpCode::Text, Some([1, 2, 3, 4]), vec![0x10, 0x20, 0x30, 0x40, 0x50]).encode();
    assert_eq!(b, vec![0x81, 0x85, 1, 2, 3, 4, 0x11, 0x22, 0x33, 0x44, 0x51]);
}

#[test]
fn mask_is_self_inverse() {
    let original: Vec<u8> = (0..50u8).collect();
    let key = [0xde, 0xad, 0xbe, 0xef];
    let mut p = original.clone();
    apply_mask(&mut p, key);
    assert_ne!(p, original);
    assert_eq!(p[0], 0xde);
    apply_mask(&mut p, key);
    assert_eq!(p, original);
}

#[test]
fn decode_incomplete() {
    assert!(decode(&[], false, None).unwrap().is_none());
    assert!(decode(&[0x81], false, None).unwrap().is_none());
    assert!(decode(&[0x82, 0xfe, 0x01], false, None).unwrap().is_none());
    assert!(decode(&[0x81, 0x82, 1, 2, 3, 4, 5], false, None).unwrap().is_none());
}

#[test]
fn decode_errors() {
    assert_eq!(decode(&[0xc1, 0x80, 0, 0, 0, 0], false, None).err(), Some(FrameError::ReservedBits));
    assert_eq!(decode(&[0x83, 0x80, 0, 0, 0, 0], false, None).err(), Some(FrameError::UnknownOpcode));
    assert_eq!(decode(&[0x09, 0x80, 0, 0, 0, 0], false, None).err(), Some(FrameError::FragmentedControl));
    assert_eq!(decode(&[0x89, 0xfe, 0, 200], false, None).err(), Some(FrameError::ControlTooLong));
    assert_eq!(decode(&[0x82, 0x00], false, None).err(), Some(FrameError::Unmasked));
    assert_eq!(
        decode(&[0x82, 0x7f, 0x80, 0, 0, 0, 0, 0, 0, 0], true, None).err(),
        Some(FrameError::LengthTooLarge)
    );
    assert_eq!(decode(&[0x82, 0x7e, 0, 5], true, None).err(), Some(FrameError::NonMinimalLength));
    assert_eq!(decode(&[0x82, 0x06, 1, 2, 3, 4, 5, 6], true, Some(5)).err(), Some(FrameError::FrameTooLarge));
}

#[test]
fn masking_policy() {
    let bytes = frame(true, OpCode::Text, None, b"hi".to_vec()).encode();
    assert_eq!(decode(&bytes, false, None).err(), Some(FrameError::Unmasked));
    let (f, n) = decode(&bytes, true, None).unwrap().unwrap();
    assert_eq!(n, 4);
    assert_eq!(f.payload, b"hi".to_vec());
    assert_eq!(f.mask, None);
}

#[test]
fn decode_leaves_following_bytes() {
    let mut bytes = frame(true, OpCode::Ping, Some([5, 6, 7, 8]), b"abc".to_vec()).encode();
    bytes.extend_from_slice(&[0x81, 0x80]);
    let (f, n) = decode(&bytes, false, None).unwrap().unwrap();
    assert_eq!(n, 9);
    assert_eq!(f.opcode, OpCode::Ping);
    assert_eq!(f.payload, b"abc".to_vec());
}

#[test]
fn opcode_codes() {
    for (op, code) in [
        (OpCode::Continue, 0u8),
        (OpCode::Text, 1),
        (OpCode::Binary, 2),
        (OpCode::Close, 8),
        (OpCode::Ping, 9),
        (OpCode::Pong, 10),
    ] {
        assert_eq!(op.code(), code);
        assert_eq!(OpCode::from_code(code), Some(op));
    }
    assert_eq!(OpCode::from_code(3), None);
    assert!(OpCode::Close.is_control());
    assert!(!OpCode::Continue.is_control());
}
