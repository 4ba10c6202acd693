//! Video stream wire types: frame headers, codec configuration and
//! receiver bitrate feedback. All fields are big-endian binary.

use vstd::prelude::*;

use crate::wire::{
    be16, be32, be64, from_be16, from_be32, from_be64, field16, field32, field64, get_u16, get_u32, get_u64, lemma_be16_roundtrip,
    lemma_be32_roundtrip, lemma_be64_roundtrip, push_bytes, push_u16, push_u32, push_u64, push_u8,
    WireError,
};

verus! {

/// Header prepended to every encoded video frame on the wire (25 bytes):
/// frame_id u32, timestamp_us u64, flags u8 (bit 0 = keyframe), width u16,
/// height u16, payload_len u32, fragment_idx u16, fragment_count u16.
#[derive(Debug, Clone, Copy, PartialEq, Eq, Structural)]
pub struct VideoFrameHeader {
    /// Monotonically increasing frame counter.
    pub frame_id: u32,
    /// Capture timestamp in microseconds (device monotonic clock).
    pub timestamp_us: u64,
    /// Whether this frame is an IDR/keyframe.
    pub is_keyframe: bool,
    /// Capture width in pixels.
    pub width: u16,
    /// Capture height in pixels.
    pub height: u16,
    /// Length of the NAL unit payload following this header.
    pub payload_len: u32,
    /// Fragment index (0-based) for frames split across datagrams.
    pub fragment_idx: u16,
    /// Total number of fragments for this frame.
    pub fragment_count: u16,
}

/// Fixed size of the serialized `VideoFrameHeader`.
pub const VIDEO_FRAME_HEADER_SIZE: usize = 25;

/// The flags byte: 1 for a keyframe, 0 otherwise.
pub open spec fn flags_byte(is_keyframe: bool) -> u8 {
    if is_keyframe {
        1
    } else {
        0
    }
}

/// The 25 wire bytes of a frame header.
pub open spec fn frame_header_bytes(h: VideoFrameHeader) -> Seq<u8> {
    be32(h.frame_id) + be64(h.timestamp_us) + seq![flags_byte(h.is_keyframe)] + be16(h.width) + be16(
        h.height,
    ) + be32(h.payload_len) + be16(h.fragment_idx) + be16(h.fragment_count)
}

/// Decoding a frame header: too short, or the fields; any flags byte with
/// bit 0 set means a keyframe. Bytes after the first 25 are ignored.
pub open spec fn decode_frame_header_spec(b: Seq<u8>) -> Result<VideoFrameHeader, WireError> {
    if b.len() < 25 {
        Err(WireError::UnexpectedEof { needed: 25, available: b.len() as usize })
    } else {
        Ok(
            VideoFrameHeader {
                frame_id: field32(b, 0),
                timestamp_us: field64(b, 4),
                is_keyframe: b[12] % 2 == 1,
                width: field16(b, 13),
                height: field16(b, 15),
                payload_len: field32(b, 17),
                fragment_idx: field16(b, 21),
                fragment_count: field16(b, 23),
            },
        )
    }
}

impl VideoFrameHeader {
    /// Appends the 25 header bytes to `buf`; this cannot fail.
    pub fn encode(&self, buf: &mut Vec<u8>) -> (r: Result<(), WireError>)
        ensures
            r is Ok,
            final(buf)@ == old(buf)@ + frame_header_bytes(*self),
    {
        push_u32(buf, self.frame_id);
        push_u64(buf, self.timestamp_us);
        let flags: u8 = if self.is_keyframe {
            1
        } else {
            0
        };
        push_u8(buf, flags);
        push_u16(buf, self.width);
        push_u16(buf, self.height);
        push_u32(buf, self.payload_len);
        push_u16(buf, self.fragment_idx);
        push_u16(buf, self.fragment_count);
        proof {
            assert(final(buf)@ =~= old(buf)@ + frame_header_bytes(*self));
        }
        Ok(())
    }

    /// Decodes a frame header from the start of `data`.
    pub fn decode(data: &[u8]) -> (r: Result<VideoFrameHeader, WireError>)
        ensures
            r == decode_frame_header_spec(data@),
    {
        if data.len() < VIDEO_FRAME_HEADER_SIZE {
            return Err(WireError::UnexpectedEof { needed: VIDEO_FRAME_HEADER_SIZE, available: data.len() });
        }
        let frame_id = get_u32(data, 0);
        let timestamp_us = get_u64(data, 4);
        let flags = data[12];
        let is_keyframe = (flags & 1) != 0;
        assert(((flags & 1) != 0) == (flags % 2 == 1)) by (bit_vector);
        let width = get_u16(data, 13);
        let height = get_u16(data, 15);
        let payload_len = get_u32(data, 17);
        let fragment_idx = get_u16(data, 21);
        let fragment_count = get_u16(data, 23);
        Ok(
            VideoFrameHeader {
                frame_id,
                timestamp_us,
                is_keyframe,
                width,
                height,
                payload_len,
                fragment_idx,
                fragment_count,
            },
        )
    }

    /// Header followed by the NAL payload, ready to send as one datagram.
    /// The `payload_len` field is written as stored; it is not checked
    /// against the payload. This cannot fail.
    pub fn encode_with_payload(&self, nal_data: &[u8]) -> (r: Result<Vec<u8>, WireError>)
        ensures
            r matches Ok(v) && v@ == frame_header_bytes(*self) + nal_data@,
    {
        let mut buf = Vec::with_capacity(VIDEO_FRAME_HEADER_SIZE);
        let _ = self.encode(&mut buf);
        push_bytes(&mut buf, nal_data);
        assert(buf@ =~= frame_header_bytes(*self) + nal_data@);
        Ok(buf)
    }
}

/// A frame header decodes back from its encoding, whatever follows it.
pub proof fn lemma_frame_header_roundtrip(h: VideoFrameHeader, rest: Seq<u8>)
    ensures
        frame_header_bytes(h).len() == VIDEO_FRAME_HEADER_SIZE,
        decode_frame_header_spec(frame_header_bytes(h) + rest) == Ok::<VideoFrameHeader, WireError>(h),
{
    lemma_be32_roundtrip(h.frame_id);
    lemma_be64_roundtrip(h.timestamp_us);
    lemma_be16_roundtrip(h.width);
    lemma_be16_roundtrip(h.height);
    lemma_be32_roundtrip(h.payload_len);
    lemma_be16_roundtrip(h.fragment_idx);
    lemma_be16_roundtrip(h.fragment_count);
    let b = frame_header_bytes(h) + rest;
    assert(b.subrange(0, 4) =~= be32(h.frame_id));
    assert(b.subrange(4, 12) =~= be64(h.timestamp_us));
    assert(b[12] == flags_byte(h.is_keyframe));
    assert(b.subrange(13, 15) =~= be16(h.width));
    assert(b.subrange(15, 17) =~= be16(h.height));
    assert(b.subrange(17, 21) =~= be32(h.payload_len));
    assert(b.subrange(21, 23) =~= be16(h.fragment_idx));
    assert(b.subrange(23, 25) =~= be16(h.fragment_count));
}

/// Codec configuration sent at stream start and on each keyframe:
/// sps_len u16, sps, pps_len u16, pps, bitrate_bps u32, fps u8.
#[derive(Debug, Clone, PartialEq, Eq)]
pub struct VideoConfig {
    /// Sequence Parameter Set.
    pub sps: Vec<u8>,
    /// Picture Parameter Set.
    pub pps: Vec<u8>,
    /// Current encoder bitrate in bits per second.
    pub bitrate_bps: u32,
    /// Current frame rate.
    pub fps: u8,
}

/// The mathematical value of a `VideoConfig`.
pub struct VideoConfigView {
    pub sps: Seq<u8>,
    pub pps: Seq<u8>,
    pub bitrate_bps: u32,
    pub fps: u8,
}

impl View for VideoConfig {
    type V = VideoConfigView;

    open spec fn view(&self) -> VideoConfigView {
        VideoConfigView { sps: self.sps@, pps: self.pps@, bitrate_bps: self.bitrate_bps, fps: self.fps }
    }
}

/// Wire bytes of a codec configuration. Each length field holds the list's
/// length truncated to 16 bits, and the whole list follows it.
pub open spec fn video_config_bytes(c: VideoConfigView) -> Seq<u8> {
    be16(c.sps.len() as u16) + c.sps + be16(c.pps.len() as u16) + c.pps + be32(c.bitrate_bps) + seq![
        c.fps,
    ]
}

/// Decoding a codec configuration read front to back: each read that runs
/// past the end of `b` fails with the number of bytes it needed. Bytes after
/// the configuration are ignored.
pub open spec fn decode_video_config_spec(b: Seq<u8>) -> Result<VideoConfigView, WireError> {
    let n = b.len();
    if n < 2 {
        Err(WireError::UnexpectedEof { needed: 2, available: n as usize })
    } else {
        let s = field16(b, 0) as int;
        if n < 2 + s {
            Err(WireError::UnexpectedEof { needed: (2 + s) as usize, available: n as usize })
        } else if n < 4 + s {
            Err(WireError::UnexpectedEof { needed: (4 + s) as usize, available: n as usize })
        } else {
            let p = field16(b, 2 + s) as int;
            if n < 4 + s + p {
                Err(WireError::UnexpectedEof { needed: (4 + s + p) as usize, available: n as usize })
            } else if n < 8 + s + p {
                Err(WireError::UnexpectedEof { needed: (8 + s + p) as usize, available: n as usize })
            } else if n < 9 + s + p {
                Err(WireError::UnexpectedEof { needed: (9 + s + p) as usize, available: n as usize })
            } else {
                Ok(
                    VideoConfigView {
                        sps: b.subrange(2, 2 + s),
                        pps: b.subrange(4 + s, 4 + s + p),
                        bitrate_bps: field32(b, 4 + s + p),
                        fps: b[8 + s + p],
                    },
                )
            }
        }
    }
}

/// Copies `data[from..to]` into a new vector.
fn copy_range(data: &[u8], from: usize, to: usize) -> (r: Vec<u8>)
    requires
        from <= to <= data@.len(),
    ensures
        r@ == data@.subrange(from as int, to as int),
{
    let mut r: Vec<u8> = Vec::with_capacity(to - from);
    let mut i = from;
    while i < to
        invariant
            from <= i <= to <= data@.len(),
            r@ == data@.subrange(from as int, i as int),
        decreases to - i,
    {
        r.push(data[i]);
        i = i + 1;
        assert(r@ =~= data@.subrange(from as int, i as int));
    }
    r
}

impl VideoConfig {
    /// Appends the configuration's wire bytes to `buf`; this cannot fail.
    /// A list longer than 65535 bytes gets a truncated length field.
    pub fn encode(&self, buf: &mut Vec<u8>) -> (r: Result<(), WireError>)
        ensures
            r is Ok,
            final(buf)@ == old(buf)@ + video_config_bytes(self@),
    {
        push_u16(buf, self.sps.len() as u16);
        push_bytes(buf, self.sps.as_slice());
        push_u16(buf, self.pps.len() as u16);
        push_bytes(buf, self.pps.as_slice());
        push_u32(buf, self.bitrate_bps);
        push_u8(buf, self.fps);
        proof {
            assert(final(buf)@ =~= old(buf)@ + video_config_bytes(self@));
        }
        Ok(())
    }

    /// Decodes a configuration from the start of `data`.
    pub fn decode(data: &[u8]) -> (r: Result<VideoConfig, WireError>)
        ensures
            r matches Ok(c) ==> decode_video_config_spec(data@) == Ok::<VideoConfigView, WireError>(c@),
            r matches Err(e) ==> decode_video_config_spec(data@) == Err::<VideoConfigView, WireError>(e),
    {
        let n = data.len();
        if n < 2 {
            return Err(WireError::UnexpectedEof { needed: 2, available: n });
        }
        let s = get_u16(data, 0) as usize;
        if n < 2 + s {
            return Err(WireError::UnexpectedEof { needed: 2 + s, available: n });
        }
        let sps = copy_range(data, 2, 2 + s);
        if n < 4 + s {
            return Err(WireError::UnexpectedEof { needed: 4 + s, available: n });
        }
        let p = get_u16(data, 2 + s) as usize;
        if n < 4 + s + p {
            return Err(WireError::UnexpectedEof { needed: 4 + s + p, available: n });
        }
        let pps = copy_range(data, 4 + s, 4 + s + p);
        if n < 8 + s + p {
            return Err(WireError::UnexpectedEof { needed: 8 + s + p, available: n });
        }
        let bitrate_bps = get_u32(data, 4 + s + p);
        if n < 9 + s + p {
            return Err(WireError::UnexpectedEof { needed: 9 + s + p, available: n });
        }
        let fps = data[8 + s + p];
        Ok(VideoConfig { sps, pps, bitrate_bps, fps })
    }

    /// The configuration's wire bytes in a new vector; this cannot fail.
    pub fn to_bytes(&self) -> (r: Result<Vec<u8>, WireError>)
        ensures
            r matches Ok(v) && v@ == video_config_bytes(self@),
    {
        let mut buf = Vec::new();
        let _ = self.encode(&mut buf);
        assert(buf@ =~= video_config_bytes(self@));
        Ok(buf)
    }
}

/// A codec configuration whose parameter sets fit the 16-bit length fields
/// decodes back from its encoding, whatever follows it.
pub proof fn lemma_video_config_roundtrip(c: VideoConfigView, rest: Seq<u8>)
    requires
        c.sps.len() <= u16::MAX,
        c.pps.len() <= u16::MAX,
    ensures
        video_config_bytes(c).len() == c.sps.len() + c.pps.len() + 9,
        decode_video_config_spec(video_config_bytes(c) + rest) == Ok::<VideoConfigView, WireError>(c),
{
    let s = c.sps.len() as int;
    let p = c.pps.len() as int;
    lemma_be16_roundtrip(s as u16);
    lemma_be16_roundtrip(p as u16);
    lemma_be32_roundtrip(c.bitrate_bps);
    let b = video_config_bytes(c) + rest;
    assert(b.subrange(0, 2) =~= be16(s as u16));
    assert(b.subrange(2, 2 + s) =~= c.sps);
    assert(b.subrange(2 + s, 4 + s) =~= be16(p as u16));
    assert(b.subrange(4 + s, 4 + s + p) =~= c.pps);
    assert(b.subrange(4 + s + p, 8 + s + p) =~= be32(c.bitrate_bps));
    assert(b[8 + s + p] == c.fps);
    let d = decode_video_config_spec(b)->Ok_0;
    assert(d.sps =~= c.sps);
    assert(d.pps =~= c.pps);
}

/// Receiver-to-sender bitrate feedback (20 bytes): timestamp_us u64,
/// received_frames u32, lost_frames u32, suggested_bps u32 (0 = no suggestion).
#[derive(Debug, Clone, Copy, PartialEq, Eq, Structural)]
pub struct BitrateAck {
    /// Receiver timestamp when this ack was generated.
    pub timestamp_us: u64,
    /// Frames received in the measurement window.
    pub received_frames: u32,
    /// Frames detected as lost (gaps in frame_id).
    pub lost_frames: u32,
    /// Suggested target bitrate in bits/sec, or 0 for no opinion.
    pub suggested_bps: u32,
}

/// Fixed size of serialized `BitrateAck`.
pub const BITRATE_ACK_SIZE: usize = 20;

/// The 20 wire bytes of a bitrate ack.
pub open spec fn bitrate_ack_bytes(a: BitrateAck) -> Seq<u8> {
    be64(a.timestamp_us) + be32(a.received_frames) + be32(a.lost_frames) + be32(a.suggested_bps)
}

/// Decoding a bitrate ack: too short, or the fields (extra bytes ignored).
pub open spec fn decode_bitrate_ack_spec(b: Seq<u8>) -> Result<BitrateAck, WireError> {
    if b.len() < 20 {
        Err(WireError::UnexpectedEof { needed: 20, available: b.len() as usize })
    } else {
        Ok(
            BitrateAck {
                timestamp_us: field64(b, 0),
                received_frames: field32(b, 8),
                lost_frames: field32(b, 12),
                suggested_bps: field32(b, 16),
            },
        )
    }
}

impl BitrateAck {
    /// Appends the ack's 20 bytes to `buf`; this cannot fail.
    pub fn encode(&self, buf: &mut Vec<u8>) -> (r: Result<(), WireError>)
        ensures
            r is Ok,
            final(buf)@ == old(buf)@ + bitrate_ack_bytes(*self),
    {
        push_u64(buf, self.timestamp_us);
        push_u32(buf, self.received_frames);
        push_u32(buf, self.lost_frames);
        push_u32(buf, self.suggested_bps);
        proof {
            assert(final(buf)@ =~= old(buf)@ + bitrate_ack_bytes(*self));
        }
        Ok(())
    }

    /// Decodes an ack from the start of `data`.
    pub fn decode(data: &[u8]) -> (r: Result<BitrateAck, WireError>)
        ensures
            r == decode_bitrate_ack_spec(data@),
    {
        if data.len() < BITRATE_ACK_SIZE {
            return Err(WireError::UnexpectedEof { needed: BITRATE_ACK_SIZE, available: data.len() });
        }
        let timestamp_us = get_u64(data, 0);
        let received_frames = get_u32(data, 8);
        let lost_frames = get_u32(data, 12);
        let suggested_bps = get_u32(data, 16);
        Ok(BitrateAck { timestamp_us, received_frames, lost_frames, suggested_bps })
    }
}

/// An ack decodes back from its encoding, whatever follows it.
pub proof fn lemma_bitrate_ack_roundtrip(a: BitrateAck, rest: Seq<u8>)
    ensures
        bitrate_ack_bytes(a).len() == BITRATE_ACK_SIZE,
        decode_bitrate_ack_spec(bitrate_ack_bytes(a) + rest) == Ok::<BitrateAck, WireError>(a),
{
    lemma_be64_roundtrip(a.timestamp_us);
    lemma_be32_roundtrip(a.received_frames);
    lemma_be32_roundtrip(a.lost_frames);
    lemma_be32_roundtrip(a.suggested_bps);
    let b = bitrate_ack_bytes(a) + rest;
    assert(b.subrange(0, 8) =~= be64(a.timestamp_us));
    assert(b.subrange(8, 12) =~= be32(a.received_frames));
    assert(b.subrange(12, 16) =~= be32(a.lost_frames));
    assert(b.subrange(16, 20) =~= be32(a.suggested_bps));
}

/// How far `frame_id` lies behind `newest_seen_id`, counted modulo 2^32.
pub open spec fn frame_lag(frame_id: u32, newest_seen_id: u32) -> int {
    (newest_seen_id - frame_id + 0x1_0000_0000) % 0x1_0000_0000
}

/// A frame is stale when it lies behind the newest frame seen by at least
/// one and by less than `u32::MAX / 2`: a larger lag is taken to be a
/// wrap-around, so the frame is really newer.
pub open spec fn is_stale_spec(frame_id: u32, newest_seen_id: u32) -> bool {
    0 < frame_lag(frame_id, newest_seen_id) < u32::MAX / 2
}

/// Whether a received frame is stale compared to the newest frame seen,
/// with 32-bit wrap-around of frame ids.
pub fn is_frame_stale(frame_id: u32, newest_seen_id: u32) -> (r: bool)
    ensures
        r == is_stale_spec(frame_id, newest_seen_id),
{
    let diff = newest_seen_id.wrapping_sub(frame_id);
    diff > 0 && diff < (u32::MAX / 2)
}

/// The newest frame is never stale against itself, and of two frames at
/// most one is stale against the other.
pub proof fn lemma_staleness_asymmetric(a: u32, b: u32)
    ensures
        !is_stale_spec(a, a),
        is_stale_spec(a, b) ==> !is_stale_spec(b, a),
{
}

/// A frame whose id is ahead of the newest by less than half the id space
/// is not stale; one behind it by less than `u32::MAX / 2` is.
pub proof fn lemma_staleness_by_distance(newest: u32, k: int)
    requires
        0 < k < u32::MAX / 2,
    ensures
        !is_stale_spec(((newest + k) % 0x1_0000_0000) as u32, newest),
        is_stale_spec(((newest - k + 0x1_0000_0000) % 0x1_0000_0000) as u32, newest),
{
}

/// Layout of a bitrate ack on the wire: 20 bytes, the timestamp at bytes 0..8,
/// received frames at 8..12, lost frames at 12..16 and the suggested bitrate
/// at 16..20, all big-endian.
pub proof fn lemma_bitrate_ack_layout(r: BitrateAck)
    ensures
        bitrate_ack_bytes(r).len() == 20,
        bitrate_ack_bytes(r).subrange(0, 8) == be64(r.timestamp_us),
        bitrate_ack_bytes(r).subrange(8, 12) == be32(r.received_frames),
        bitrate_ack_bytes(r).subrange(12, 16) == be32(r.lost_frames),
        bitrate_ack_bytes(r).subrange(16, 20) == be32(r.suggested_bps),
{
    lemma_be64_roundtrip(r.timestamp_us);
    lemma_be32_roundtrip(r.received_frames);
    lemma_be32_roundtrip(r.lost_frames);
    lemma_be32_roundtrip(r.suggested_bps);
    assert(bitrate_ack_bytes(r).subrange(0, 8) =~= be64(r.timestamp_us));
    assert(bitrate_ack_bytes(r).subrange(8, 12) =~= be32(r.received_frames));
    assert(bitrate_ack_bytes(r).subrange(12, 16) =~= be32(r.lost_frames));
    assert(bitrate_ack_bytes(r).subrange(16, 20) =~= be32(r.suggested_bps));
}

/// Decoding a bitrate ack of at least 20 bytes reads the timestamp from bytes
/// 0..8, received frames from 8..12, lost frames from 12..16 and the suggested
/// bitrate from 16..20.
pub proof fn lemma_bitrate_ack_decode_layout(b: Seq<u8>)
    requires
        b.len() >= 20,
    ensures
        decode_bitrate_ack_spec(b) matches Ok(d) && d.timestamp_us == from_be64(b.subrange(0, 8)) && d.received_frames == from_be32(b.subrange(8, 12)) && d.lost_frames == from_be32(b.subrange(12, 16)) && d.suggested_bps == from_be32(b.subrange(16, 20)),
{
}

/// Layout of a video frame header on the wire: 25 bytes, big-endian frame id
/// at 0..4, timestamp at 4..12, the flags byte at 12 (1 for a keyframe, else
/// 0), width at 13..15, height at 15..17, payload length at 17..21, fragment
/// index at 21..23 and fragment count at 23..25.
pub proof fn lemma_frame_header_layout(r: VideoFrameHeader)
    ensures
        frame_header_bytes(r).len() == 25,
        frame_header_bytes(r).subrange(0, 4) == be32(r.frame_id),
        frame_header_bytes(r).subrange(4, 12) == be64(r.timestamp_us),
        frame_header_bytes(r).subrange(13, 15) == be16(r.width),
        frame_header_bytes(r).subrange(15, 17) == be16(r.height),
        frame_header_bytes(r).subrange(17, 21) == be32(r.payload_len),
        frame_header_bytes(r).subrange(21, 23) == be16(r.fragment_idx),
        frame_header_bytes(r).subrange(23, 25) == be16(r.fragment_count),
        frame_header_bytes(r)[12] == (if r.is_keyframe { 1u8 } else { 0u8 }),
{
    assert(frame_header_bytes(r).subrange(0, 4) =~= be32(r.frame_id));
    assert(frame_header_bytes(r).subrange(4, 12) =~= be64(r.timestamp_us));
    assert(frame_header_bytes(r).subrange(13, 15) =~= be16(r.width));
    assert(frame_header_bytes(r).subrange(15, 17) =~= be16(r.height));
    assert(frame_header_bytes(r).subrange(17, 21) =~= be32(r.payload_len));
    assert(frame_header_bytes(r).subrange(21, 23) =~= be16(r.fragment_idx));
    assert(frame_header_bytes(r).subrange(23, 25) =~= be16(r.fragment_count));
}

/// Decoding a frame header of at least 25 bytes reads every field from its
/// bytes; bit 0 of byte 12 is the keyframe flag.
pub proof fn lemma_frame_header_decode_layout(b: Seq<u8>)
    requires
        b.len() >= 25,
    ensures
        decode_frame_header_spec(b) matches Ok(d) && d.frame_id == from_be32(b.subrange(0, 4)) && d.timestamp_us == from_be64(b.subrange(4, 12)) && d.width == from_be16(b.subrange(13, 15)) && d.height == from_be16(b.subrange(15, 17)) && d.payload_len == from_be32(b.subrange(17, 21)) && d.fragment_idx == from_be16(b.subrange(21, 23)) && d.fragment_count == from_be16(b.subrange(23, 25)) && d.is_keyframe == (b[12] % 2 == 1),
{
}

} // verus!
