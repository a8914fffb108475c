use xodus::connection::{
    encode_message, next_action, socket_path, ConnectionAction, ConnectionEvent, ErrorKind,
    Protocol, PROTO_MAGIC, XML_MAGIC,
};

#[test]
fn payload_larger_than_64kib_is_a_clean_error_not_a_wrong_header() {
    let payload = vec![0x41u8; 70_000];
    let err = encode_message(0x11223344, 2, payload)
        .expect_err(">64KiB payload must be rejected, not silently truncated");
    assert_eq!(err.kind(), ErrorKind::InvalidInput);
}

#[test]
fn payload_within_limit_round_trips() {
    let payload = vec![0x41u8; 65_535];
    let framed = encode_message(0x11223344, 2, payload.clone()).expect("must fit");
    let declared = u16::from_le_bytes([framed[6], framed[7]]) as usize;
    assert_eq!(declared, payload.len());
    assert_eq!(framed.len() - 8, payload.len());
}

#[test]
fn a_frame_holds_magic_type_length_and_payload() {
    let framed = encode_message(0x11223344, 0x0102, vec![7, 8, 9]).unwrap();
    assert_eq!(
        framed,
        vec![0x44, 0x33, 0x22, 0x11, 0x02, 0x01, 0x03, 0x00, 7, 8, 9]
    );
}

#[test]
fn an_empty_payload_is_framed() {
    let framed = encode_message(XML_MAGIC, 0, vec![]).unwrap();
    assert_eq!(framed, vec![0x58, 0x53, 0x44, 0x58, 0, 0, 0, 0]);
}

#[test]
fn a_payload_one_byte_too_long_is_refused_with_its_length() {
    let err = encode_message(1, 1, vec![0; 65_536]).unwrap_err();
    assert_eq!(err.payload_len, 65_536);
    assert_eq!(
        err.message(),
        "message payload is 65536 bytes, exceeds the 65535-byte u16 length header"
    );
}

#[test]
fn different_messages_have_different_frames() {
    let a = encode_message(1, 2, vec![3]).unwrap();
    assert_ne!(a, encode_message(2, 2, vec![3]).unwrap());
    assert_ne!(a, encode_message(1, 3, vec![3]).unwrap());
    assert_ne!(a, encode_message(1, 2, vec![3, 0]).unwrap());
}

#[test]
fn a_frame_reaches_the_handler_of_its_magic() {
    for (magic, action) in [
        (XML_MAGIC, ConnectionAction::Handle(Protocol::Xml)),
        (PROTO_MAGIC, ConnectionAction::Handle(Protocol::Proto)),
        (0x11223344, ConnectionAction::Close),
    ] {
        let framed = encode_message(magic, 2, vec![1]).unwrap();
        let head = [framed[0], framed[1], framed[2], framed[3]];
        assert_eq!(next_action(ConnectionEvent::MagicRead(head)), action);
    }
}

#[test]
fn a_connection_lives_until_it_is_cancelled_or_breaks() {
    assert_eq!(
        next_action(ConnectionEvent::Idle { cancelled: false }),
        ConnectionAction::ReadMagic
    );
    assert_eq!(
        next_action(ConnectionEvent::Idle { cancelled: true }),
        ConnectionAction::Close
    );
    assert_eq!(
        next_action(ConnectionEvent::ReadFailed),
        ConnectionAction::Close
    );
    assert_eq!(
        next_action(ConnectionEvent::Handled { failed: true }),
        ConnectionAction::Poll
    );
    assert_eq!(
        next_action(ConnectionEvent::Handled { failed: false }),
        ConnectionAction::Poll
    );
}

#[test]
fn the_socket_stands_in_the_runtime_directory() {
    assert_eq!(socket_path("/run/user/1000"), "/run/user/1000/xodus.sock");
}
