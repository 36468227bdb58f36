use livewall::ipc::{encode_frame, frame_length, IpcError, MAX_MSG};

#[test]
fn frame_carries_length_then_payload() {
    let payload = br#"{"cmd":"ping"}"#;
    let f = encode_frame(payload).unwrap();
    assert_eq!(&f[..4], &(payload.len() as u32).to_le_bytes());
    assert_eq!(&f[4..], payload);
    assert_eq!(frame_length(&f[..4]).unwrap() as usize, payload.len());
}

#[test]
fn empty_payload_frames() {
    let f = encode_frame(&[]).unwrap();
    assert_eq!(f, vec![0, 0, 0, 0]);
    assert_eq!(frame_length(&f).unwrap(), 0);
}

#[test]
fn oversized_payload_is_refused() {
    let big = vec![0u8; MAX_MSG as usize + 1];
    match encode_frame(&big) {
        Err(IpcError::Protocol(m)) => assert_eq!(m, "message too large"),
        other => panic!("unexpected {:?}", other.map(|v| v.len())),
    }
    let ok = vec![7u8; MAX_MSG as usize];
    assert_eq!(encode_frame(&ok).unwrap().len(), MAX_MSG as usize + 4);
}

#[test]
fn oversized_header_is_refused() {
    let h = (MAX_MSG + 1).to_le_bytes();
    match frame_length(&h) {
        Err(IpcError::Protocol(m)) => assert_eq!(m, "message length 16777217 exceeds limit"),
        other => panic!("unexpected {:?}", other),
    }
    assert_eq!(frame_length(&MAX_MSG.to_le_bytes()).unwrap(), MAX_MSG);
    match frame_length(&[0xff, 0xff, 0xff, 0xff]) {
        Err(IpcError::Protocol(m)) => assert_eq!(m, "message length 4294967295 exceeds limit"),
        other => panic!("unexpected {:?}", other),
    }
}
