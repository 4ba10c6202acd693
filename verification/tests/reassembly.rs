use hyperlink_protocol::message::MessageType;
use hyperlink_protocol::reassembly::{accept_config_stream, FrameReassembler, VideoGuiMessage};
use hyperlink_protocol::version::Header;
use hyperlink_protocol::video::{VideoConfig, VideoFrameHeader};

fn fragment(frame_id: u32, idx: u16, count: u16, keyframe: bool, data: &[u8]) -> Vec<u8> {
    let vh = VideoFrameHeader {
        frame_id,
        timestamp_us: 1000 + frame_id as u64,
        is_keyframe: keyframe,
        width: 640,
        height: 480,
        payload_len: data.len() as u32,
        fragment_idx: idx,
        fragment_count: count,
    };
    let body = vh.encode_with_payload(data).unwrap();
    let mut packet = Header::new(MessageType::VideoFrame, body.len() as u32).to_bytes().to_vec();
    packet.extend_from_slice(&body);
    packet
}

fn frame_data(m: Option<VideoGuiMessage>) -> Option<(Vec<u8>, u64, bool)> {
    match m {
        Some(VideoGuiMessage::Frame {
            data,
            timestamp_us,
            is_keyframe,
        }) => Some((data, timestamp_us, is_keyframe)),
        _ => None,
    }
}

#[test]
fn single_fragment_frame_is_delivered() {
    let mut r = FrameReassembler::new();
    let out = frame_data(r.accept_datagram(&fragment(1, 0, 1, true, b"abc")));
    assert_eq!(out, Some((b"abc".to_vec(), 1001, true)));
}

#[test]
fn fragments_are_joined_in_index_order() {
    let mut r = FrameReassembler::new();
    assert!(r.accept_datagram(&fragment(5, 2, 3, false, b"C")).is_none());
    assert!(r.accept_datagram(&fragment(5, 0, 3, false, b"A")).is_none());
    let out = frame_data(r.accept_datagram(&fragment(5, 1, 3, false, b"B")));
    assert_eq!(out, Some((b"ABC".to_vec(), 1005, false)));
}

#[test]
fn duplicate_fragments_do_not_redeliver() {
    let mut r = FrameReassembler::new();
    assert!(r.accept_datagram(&fragment(2, 0, 2, false, b"x")).is_none());
    assert!(r.accept_datagram(&fragment(2, 0, 2, false, b"y")).is_none());
    let out = frame_data(r.accept_datagram(&fragment(2, 1, 2, false, b"z")));
    assert_eq!(out, Some((b"xz".to_vec(), 1002, false)));
    assert!(r.accept_datagram(&fragment(2, 1, 2, false, b"z")).is_none());
}

#[test]
fn stale_frames_are_dropped() {
    let mut r = FrameReassembler::new();
    assert!(r.accept_datagram(&fragment(10, 0, 2, false, b"a")).is_none());
    // Frame 9 is older than 10: dropped even though complete.
    assert!(r.accept_datagram(&fragment(9, 0, 1, false, b"old")).is_none());
    // A newer frame abandons the incomplete one.
    let out = frame_data(r.accept_datagram(&fragment(11, 0, 1, true, b"new")));
    assert_eq!(out, Some((b"new".to_vec(), 1011, true)));
}

#[test]
fn out_of_range_fragment_and_other_packets_are_ignored() {
    let mut r = FrameReassembler::new();
    assert!(r.accept_datagram(&fragment(1, 4, 2, false, b"a")).is_none());
    assert!(r.accept_datagram(&[1, 2, 3]).is_none());
    let hb = Header::new(MessageType::Heartbeat, 0).to_bytes();
    assert!(r.accept_datagram(&hb).is_none());
    // Frame 1 keeps the slot count of its first fragment (2), so one more
    // fragment does not complete it; the second slot does.
    assert!(r.accept_datagram(&fragment(1, 0, 1, false, b"o")).is_none());
    let out = frame_data(r.accept_datagram(&fragment(1, 1, 2, false, b"k")));
    assert_eq!(out, Some((b"ok".to_vec(), 1001, false)));
}

#[test]
fn config_stream_is_decoded() {
    let config = VideoConfig {
        sps: vec![0x67, 1],
        pps: vec![0x68],
        bitrate_bps: 1,
        fps: 30,
    };
    let payload = config.to_bytes().unwrap();
    let mut contents = Header::new(MessageType::VideoConfig, payload.len() as u32)
        .to_bytes()
        .to_vec();
    contents.extend_from_slice(&payload);
    match accept_config_stream(0x31, &contents) {
        Some(VideoGuiMessage::Config { sps, pps }) => {
            assert_eq!(sps, vec![0x67, 1]);
            assert_eq!(pps, vec![0x68]);
        }
        _ => panic!("config not decoded"),
    }
    assert!(accept_config_stream(0x50, &contents).is_none());
    assert!(accept_config_stream(0x31, &contents[..contents.len() - 1]).is_none());
}
