use hyperlink_protocol::clock::{
    ClockSyncRequest, ClockSyncResponse, CLOCK_SYNC_REQUEST_SIZE, CLOCK_SYNC_RESPONSE_SIZE,
};

#[test]
fn request_round_trip() {
    let req = ClockSyncRequest {
        seq: 42,
        t1_us: 1_000_000,
    };
    let bytes = req.to_bytes();
    assert_eq!(bytes.len(), CLOCK_SYNC_REQUEST_SIZE);
    let decoded = ClockSyncRequest::decode(&bytes).unwrap();
    assert_eq!(req, decoded);
}

#[test]
fn response_round_trip() {
    let resp = ClockSyncResponse {
        seq: 7,
        t1_us: 1_000_000,
        t2_us: 1_000_100,
        t3_us: 1_000_150,
    };
    let bytes = resp.to_bytes();
    assert_eq!(bytes.len(), CLOCK_SYNC_RESPONSE_SIZE);
    let decoded = ClockSyncResponse::decode(&bytes).unwrap();
    assert_eq!(resp, decoded);
}

#[test]
fn offset_and_delay_calculation() {
    // Server clock 50µs ahead; 100µs each way; 10µs processing.
    let resp = ClockSyncResponse {
        seq: 1,
        t1_us: 1000,
        t2_us: 1150,
        t3_us: 1160,
    };
    let t4_us = 1260;

    let offset = resp.compute_offset(t4_us);
    assert_eq!(offset, 25);

    let delay = resp.compute_delay(t4_us);
    assert_eq!(delay, 250);
}

#[test]
fn request_wire_bytes_are_big_endian() {
    let req = ClockSyncRequest {
        seq: 0x0102_0304,
        t1_us: -2,
    };
    assert_eq!(
        req.to_bytes(),
        vec![1, 2, 3, 4, 0xFF, 0xFF, 0xFF, 0xFF, 0xFF, 0xFF, 0xFF, 0xFE]
    );
}

#[test]
fn negative_timestamps_round_trip() {
    let resp = ClockSyncResponse {
        seq: u32::MAX,
        t1_us: i64::MIN,
        t2_us: -1,
        t3_us: i64::MAX,
    };
    let decoded = ClockSyncResponse::decode(&resp.to_bytes()).unwrap();
    assert_eq!(resp, decoded);
}

#[test]
fn clock_decode_too_short() {
    assert!(ClockSyncRequest::decode(&[0u8; 11]).is_err());
    assert!(ClockSyncResponse::decode(&[0u8; 27]).is_err());
}

#[test]
fn offset_rounds_toward_zero() {
    // ((1001 - 1000) + (1000 - 1004)) / 2 = -3 / 2 = -1 (toward zero)
    let resp = ClockSyncResponse {
        seq: 0,
        t1_us: 1000,
        t2_us: 1001,
        t3_us: 1000,
    };
    assert_eq!(resp.compute_offset(1004), -1);
    assert_eq!(resp.compute_delay(1004), 5);
}

#[test]
fn symmetric_path_gives_exact_offset() {
    // Server 300µs ahead, 40µs each way.
    let resp = ClockSyncResponse {
        seq: 3,
        t1_us: 10_000,
        t2_us: 10_340,
        t3_us: 10_360,
    };
    let t4_us = 10_360 - 300 + 40;
    assert_eq!(resp.compute_offset(t4_us), 300);
    assert_eq!(resp.compute_delay(t4_us), 80);
}
