use hyperlink_protocol::message::MessageType;
use hyperlink_protocol::version::{Header, HEADER_SIZE, MAGIC, PROTOCOL_VERSION};
use hyperlink_protocol::wire::WireError;

#[test]
fn header_round_trip() {
    let header = Header::new(MessageType::EchoRequest, 42);
    let bytes = header.to_bytes();
    let decoded = Header::decode(&bytes).unwrap();
    assert_eq!(header, decoded);
}

#[test]
fn header_magic_check() {
    let mut bytes = Header::new(MessageType::Heartbeat, 0).to_bytes();
    bytes[0] = b'X'; // corrupt magic
    assert!(Header::decode(&bytes).is_err());
}

#[test]
fn header_too_short() {
    let bytes = [0u8; 5]; // less than HEADER_SIZE
    assert!(Header::decode(&bytes).is_err());
}

#[test]
fn header_size_is_10() {
    assert_eq!(HEADER_SIZE, 10);
}

#[test]
fn header_wire_layout() {
    let bytes = Header::new(MessageType::VideoFrame, 0x0102_0304).to_bytes();
    assert_eq!(bytes, [b'H', b'L', b'N', b'K', 1, 0x30, 1, 2, 3, 4]);
    assert_eq!(MAGIC, *b"HLNK");
    assert_eq!(PROTOCOL_VERSION, 1);
}

#[test]
fn header_encode_appends() {
    let mut buf = vec![9u8];
    Header::new(MessageType::BitrateAck, 7).encode(&mut buf).unwrap();
    assert_eq!(buf, vec![9, b'H', b'L', b'N', b'K', 1, 0x32, 0, 0, 0, 7]);
}

#[test]
fn header_errors_name_the_cause() {
    assert_eq!(
        Header::decode(&[0u8; 5]),
        Err(WireError::UnexpectedEof { needed: 10, available: 5 })
    );
    let mut bytes = Header::new(MessageType::Heartbeat, 0).to_bytes();
    bytes[1] = b'Z';
    assert_eq!(
        Header::decode(&bytes),
        Err(WireError::InvalidMagic { found: [b'H', b'Z', b'N', b'K'] })
    );
    bytes[1] = b'L';
    bytes[5] = 0x99;
    assert_eq!(Header::decode(&bytes), Err(WireError::UnknownMessageType(0x99)));
}

#[test]
fn header_keeps_other_versions() {
    let mut bytes = Header::new(MessageType::Heartbeat, 3).to_bytes();
    bytes[4] = 7;
    let h = Header::decode(&bytes).unwrap();
    assert_eq!(h.version, 7);
    assert_eq!(h.payload_len, 3);
}
