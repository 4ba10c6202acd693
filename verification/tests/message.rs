use hyperlink_protocol::message::MessageType;

#[test]
fn round_trip_all_types() {
    let types = [
        MessageType::ClockSyncRequest,
        MessageType::ClockSyncResponse,
        MessageType::EchoRequest,
        MessageType::EchoResponse,
        MessageType::Heartbeat,
        MessageType::VideoFrame,
        MessageType::VideoConfig,
        MessageType::BitrateAck,
        MessageType::PairRequest,
        MessageType::PairResponse,
    ];
    for msg_type in types {
        let raw = msg_type.to_u8();
        let decoded = MessageType::try_from(raw).unwrap();
        assert_eq!(msg_type, decoded);
    }
}

#[test]
fn unknown_type_returns_err() {
    assert!(MessageType::try_from(0xFF).is_err());
}

#[test]
fn wire_bytes_are_fixed() {
    assert_eq!(MessageType::ClockSyncRequest.to_u8(), 0x01);
    assert_eq!(MessageType::ClockSyncResponse.to_u8(), 0x02);
    assert_eq!(MessageType::EchoRequest.to_u8(), 0x10);
    assert_eq!(MessageType::EchoResponse.to_u8(), 0x11);
    assert_eq!(MessageType::Heartbeat.to_u8(), 0x20);
    assert_eq!(MessageType::VideoFrame.to_u8(), 0x30);
    assert_eq!(MessageType::VideoConfig.to_u8(), 0x31);
    assert_eq!(MessageType::BitrateAck.to_u8(), 0x32);
    assert_eq!(MessageType::PairRequest.to_u8(), 0x50);
    assert_eq!(MessageType::PairResponse.to_u8(), 0x51);
}

#[test]
fn unknown_byte_is_returned_as_error() {
    assert_eq!(MessageType::from_u8(0x03), Err(0x03));
    assert_eq!(MessageType::try_from(0x00), Err(0x00));
    assert_eq!(MessageType::from_u8(0x31), Ok(MessageType::VideoConfig));
}

#[test]
fn display_names() {
    assert_eq!(MessageType::Heartbeat.name(), "Heartbeat");
    assert_eq!(MessageType::PairResponse.name(), "PairResponse");
}
