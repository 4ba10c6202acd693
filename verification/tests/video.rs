use hyperlink_protocol::video::{
    is_frame_stale, BitrateAck, VideoConfig, VideoFrameHeader, BITRATE_ACK_SIZE,
    VIDEO_FRAME_HEADER_SIZE,
};

#[test]
fn video_frame_header_round_trip() {
    let header = VideoFrameHeader {
        frame_id: 42,
        timestamp_us: 1_234_567_890,
        is_keyframe: true,
        width: 1920,
        height: 1080,
        payload_len: 65536,
        fragment_idx: 0,
        fragment_count: 1,
    };
    let mut buf = Vec::new();
    header.encode(&mut buf).unwrap();
    assert_eq!(buf.len(), VIDEO_FRAME_HEADER_SIZE);

    let decoded = VideoFrameHeader::decode(&buf).unwrap();
    assert_eq!(header, decoded);
}

#[test]
fn video_frame_header_non_keyframe() {
    let header = VideoFrameHeader {
        frame_id: 100,
        timestamp_us: 999_999,
        is_keyframe: false,
        width: 720,
        height: 1280,
        payload_len: 1024,
        fragment_idx: 2,
        fragment_count: 5,
    };
    let mut buf = Vec::new();
    header.encode(&mut buf).unwrap();
    let decoded = VideoFrameHeader::decode(&buf).unwrap();
    assert_eq!(header, decoded);
    assert!(!decoded.is_keyframe);
}

#[test]
fn video_frame_header_with_payload() {
    let header = VideoFrameHeader {
        frame_id: 1,
        timestamp_us: 0,
        is_keyframe: true,
        width: 640,
        height: 480,
        payload_len: 4,
        fragment_idx: 0,
        fragment_count: 1,
    };
    let payload = b"\x00\x00\x00\x01"; // H.264 start code
    let datagram = header.encode_with_payload(payload).unwrap();
    assert_eq!(datagram.len(), VIDEO_FRAME_HEADER_SIZE + 4);

    let decoded_header = VideoFrameHeader::decode(&datagram).unwrap();
    assert_eq!(decoded_header.payload_len, 4);
    let decoded_payload = &datagram[VIDEO_FRAME_HEADER_SIZE..];
    assert_eq!(decoded_payload, payload);
}

#[test]
fn video_frame_header_too_short() {
    let short = [0u8; 10];
    assert!(VideoFrameHeader::decode(&short).is_err());
}

#[test]
fn video_config_round_trip() {
    let config = VideoConfig {
        sps: vec![0x67, 0x42, 0x00, 0x1e, 0xab, 0x40],
        pps: vec![0x68, 0xce, 0x38, 0x80],
        bitrate_bps: 4_000_000,
        fps: 30,
    };
    let bytes = config.to_bytes().unwrap();
    let decoded = VideoConfig::decode(&bytes).unwrap();
    assert_eq!(config, decoded);
}

#[test]
fn video_config_empty_params() {
    let config = VideoConfig {
        sps: vec![],
        pps: vec![],
        bitrate_bps: 0,
        fps: 0,
    };
    let bytes = config.to_bytes().unwrap();
    let decoded = VideoConfig::decode(&bytes).unwrap();
    assert_eq!(config, decoded);
}

#[test]
fn bitrate_ack_round_trip() {
    let ack = BitrateAck {
        timestamp_us: 1_000_000,
        received_frames: 300,
        lost_frames: 5,
        suggested_bps: 3_500_000,
    };
    let mut buf = Vec::new();
    ack.encode(&mut buf).unwrap();
    assert_eq!(buf.len(), BITRATE_ACK_SIZE);

    let decoded = BitrateAck::decode(&buf).unwrap();
    assert_eq!(ack, decoded);
}

#[test]
fn bitrate_ack_no_suggestion() {
    let ack = BitrateAck {
        timestamp_us: 500_000,
        received_frames: 100,
        lost_frames: 0,
        suggested_bps: 0,
    };
    let mut buf = Vec::new();
    ack.encode(&mut buf).unwrap();
    let decoded = BitrateAck::decode(&buf).unwrap();
    assert_eq!(decoded.suggested_bps, 0);
}

#[test]
fn bitrate_ack_too_short() {
    let short = [0u8; 10];
    assert!(BitrateAck::decode(&short).is_err());
}

#[test]
fn frame_staleness_detection() {
    assert!(!is_frame_stale(5, 5)); // same frame, not stale
    assert!(is_frame_stale(4, 5)); // older frame, stale
    assert!(!is_frame_stale(6, 5)); // newer frame, not stale
    assert!(is_frame_stale(1, 100)); // much older, stale
}

#[test]
fn frame_staleness_wraparound() {
    // When frame_id wraps around u32::MAX to 0, the new frame (0) is not
    // stale relative to u32::MAX.
    assert!(!is_frame_stale(0, u32::MAX));
    // But u32::MAX - 1 is still stale relative to u32::MAX
    assert!(is_frame_stale(u32::MAX - 1, u32::MAX));
}

#[test]
fn staleness_boundary_at_half_range() {
    // Lag u32::MAX / 2 - 1 is stale; lag u32::MAX / 2 is taken as wrap-around.
    assert!(is_frame_stale(0, u32::MAX / 2 - 1));
    assert!(!is_frame_stale(0, u32::MAX / 2));
}

#[test]
fn keyframe_flag_reads_bit_zero() {
    let header = VideoFrameHeader {
        frame_id: 1,
        timestamp_us: 2,
        is_keyframe: false,
        width: 3,
        height: 4,
        payload_len: 5,
        fragment_idx: 6,
        fragment_count: 7,
    };
    let mut buf = Vec::new();
    header.encode(&mut buf).unwrap();
    buf[12] = 0x03;
    assert!(VideoFrameHeader::decode(&buf).unwrap().is_keyframe);
    buf[12] = 0x02;
    assert!(!VideoFrameHeader::decode(&buf).unwrap().is_keyframe);
}

#[test]
fn video_frame_header_wire_layout() {
    let header = VideoFrameHeader {
        frame_id: 0x01020304,
        timestamp_us: 0x05,
        is_keyframe: true,
        width: 0x0607,
        height: 0x0809,
        payload_len: 0x0A0B0C0D,
        fragment_idx: 0x0E0F,
        fragment_count: 0x1011,
    };
    let mut buf = Vec::new();
    header.encode(&mut buf).unwrap();
    assert_eq!(
        buf,
        vec![
            1, 2, 3, 4, 0, 0, 0, 0, 0, 0, 0, 5, 1, 6, 7, 8, 9, 0x0A, 0x0B, 0x0C, 0x0D, 0x0E,
            0x0F, 0x10, 0x11
        ]
    );
}

#[test]
fn video_config_wire_layout_and_truncation() {
    let config = VideoConfig {
        sps: vec![0xAA],
        pps: vec![0xBB, 0xCC],
        bitrate_bps: 0x01020304,
        fps: 60,
    };
    assert_eq!(
        config.to_bytes().unwrap(),
        vec![0, 1, 0xAA, 0, 2, 0xBB, 0xCC, 1, 2, 3, 4, 60]
    );
    let bytes = config.to_bytes().unwrap();
    for cut in 0..bytes.len() {
        assert!(VideoConfig::decode(&bytes[..cut]).is_err());
    }
}

#[test]
fn video_config_oversized_length_field_wraps() {
    let config = VideoConfig {
        sps: vec![7u8; 65536],
        pps: vec![],
        bitrate_bps: 1,
        fps: 1,
    };
    let bytes = config.to_bytes().unwrap();
    assert_eq!(&bytes[..2], &[0, 0]);
    let decoded = VideoConfig::decode(&bytes).unwrap();
    assert!(decoded.sps.is_empty());
}
