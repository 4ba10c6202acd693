use hyperlink_protocol::echo::{
    EchoRequest, EchoResponse, ECHO_REQUEST_FIXED_SIZE, ECHO_RESPONSE_FIXED_SIZE,
};

#[test]
fn echo_request_round_trip() {
    let req = EchoRequest {
        seq: 1,
        send_time_us: 123_456_789,
        payload_size: 64,
    };
    let bytes = req.to_bytes();
    assert_eq!(bytes.len(), ECHO_REQUEST_FIXED_SIZE);
    let decoded = EchoRequest::decode(&bytes).unwrap();
    assert_eq!(req, decoded);
}

#[test]
fn echo_response_round_trip() {
    let resp = EchoResponse {
        seq: 1,
        send_time_us: 123_456_789,
        server_recv_time_us: 123_456_800,
        payload_size: 64,
    };
    let bytes = resp.to_bytes();
    assert_eq!(bytes.len(), ECHO_RESPONSE_FIXED_SIZE);
    let decoded = EchoResponse::decode(&bytes).unwrap();
    assert_eq!(resp, decoded);
}

#[test]
fn echo_request_ignores_trailing_padding() {
    let req = EchoRequest {
        seq: 9,
        send_time_us: -5,
        payload_size: 3,
    };
    let mut bytes = req.to_bytes();
    bytes.extend_from_slice(&[0xAA, 0xAA, 0xAA]);
    assert_eq!(EchoRequest::decode(&bytes).unwrap(), req);
}

#[test]
fn echo_decode_too_short() {
    assert!(EchoRequest::decode(&[0u8; 15]).is_err());
    assert!(EchoResponse::decode(&[0u8; 23]).is_err());
}

#[test]
fn echo_request_wire_layout() {
    let req = EchoRequest {
        seq: 0x0A0B0C0D,
        send_time_us: 0x0102030405060708,
        payload_size: 0x11223344,
    };
    assert_eq!(
        req.to_bytes(),
        vec![0x0A, 0x0B, 0x0C, 0x0D, 1, 2, 3, 4, 5, 6, 7, 8, 0x11, 0x22, 0x33, 0x44]
    );
}
