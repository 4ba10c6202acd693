use hyperlink_protocol::pipeline::{annexb_codec_data, estimate_bitrate_kbps, FrameTiming};

#[test]
fn codec_data_has_start_codes() {
    let data = annexb_codec_data(&[0x67, 0x42], &[0x68]);
    assert_eq!(data, vec![0, 0, 0, 1, 0x67, 0x42, 0, 0, 0, 1, 0x68]);
}

#[test]
fn pts_counts_from_first_frame() {
    let mut t = FrameTiming::new();
    assert_eq!(t.on_frame(5_000), 0);
    assert_eq!(t.on_frame(5_033), 33_000);
    assert_eq!(t.on_frame(4_000), 0);
    assert_eq!(t.frame_count(), 3);
    assert_eq!(t.base_pts, Some(5_000));
}

#[test]
fn bitrate_estimate() {
    assert_eq!(estimate_bitrate_kbps(1000), 240);
    assert_eq!(estimate_bitrate_kbps(4), 0);
}
