//! What the decoder pipeline computes before handing buffers to the decoder:
//! the Annex-B codec header, presentation timestamps and a bitrate estimate.

use vstd::prelude::*;

use crate::wire::{push_bytes, push_u8};

verus! {

/// The Annex-B start code `00 00 00 01`.
pub open spec fn start_code() -> Seq<u8> {
    seq![0u8, 0u8, 0u8, 1u8]
}

/// Codec header in Annex-B byte-stream form: start code, SPS, start code, PPS.
pub fn annexb_codec_data(sps: &[u8], pps: &[u8]) -> (r: Vec<u8>)
    ensures
        r@ == start_code() + sps@ + start_code() + pps@,
{
    let mut codec_data: Vec<u8> = Vec::new();
    push_u8(&mut codec_data, 0);
    push_u8(&mut codec_data, 0);
    push_u8(&mut codec_data, 0);
    push_u8(&mut codec_data, 1);
    push_bytes(&mut codec_data, sps);
    push_u8(&mut codec_data, 0);
    push_u8(&mut codec_data, 0);
    push_u8(&mut codec_data, 0);
    push_u8(&mut codec_data, 1);
    push_bytes(&mut codec_data, pps);
    assert(codec_data@ =~= start_code() + sps@ + start_code() + pps@);
    codec_data
}

/// Frame counting and presentation timestamps of the frames pushed to the decoder.
#[derive(Debug, Clone, Copy)]
pub struct FrameTiming {
    /// Frames pushed so far.
    pub frame_count: u64,
    /// Capture timestamp (µs) of the first frame, once there has been one.
    pub base_pts: Option<u64>,
}

/// The base timestamp after a frame captured at `timestamp_us` arrives.
pub open spec fn next_base(t: FrameTiming, timestamp_us: u64) -> u64 {
    match t.base_pts {
        Some(b) => b,
        None => timestamp_us,
    }
}

/// Presentation time in nanoseconds: microseconds since the first frame
/// (zero for a frame older than it), times 1000.
pub open spec fn pts_ns_spec(t: FrameTiming, timestamp_us: u64) -> int {
    let base = next_base(t, timestamp_us);
    (if timestamp_us > base {
        timestamp_us - base
    } else {
        0
    }) * 1000
}

impl FrameTiming {
    /// Timing before the first frame.
    pub fn new() -> (r: FrameTiming)
        ensures
            r.frame_count == 0,
            r.base_pts is None,
    {
        FrameTiming { frame_count: 0, base_pts: None }
    }

    /// Accounts for one more frame captured at `timestamp_us` and returns its
    /// presentation time in nanoseconds; the first frame fixes the base.
    /// The counter and the nanosecond value must fit in `u64`.
    pub fn on_frame(&mut self, timestamp_us: u64) -> (pts_ns: u64)
        requires
            old(self).frame_count < u64::MAX,
            pts_ns_spec(*old(self), timestamp_us) <= u64::MAX,
        ensures
            pts_ns == pts_ns_spec(*old(self), timestamp_us),
            final(self).base_pts == Some(next_base(*old(self), timestamp_us)),
            final(self).frame_count == old(self).frame_count + 1,
    {
        let base = match self.base_pts {
            Some(b) => b,
            None => timestamp_us,
        };
        self.base_pts = Some(base);
        let pts_ns = timestamp_us.saturating_sub(base) * 1000;
        self.frame_count = self.frame_count + 1;
        pts_ns
    }

    /// Frames pushed so far.
    pub fn frame_count(&self) -> (r: u64)
        ensures
            r == self.frame_count,
    {
        self.frame_count
    }
}

/// Rough bitrate of a stream at 30 frames per second whose frames are
/// `frame_len` bytes, in kbit/s, truncated to 32 bits as the display does.
pub fn estimate_bitrate_kbps(frame_len: usize) -> (r: u32)
    requires
        frame_len * 240 <= usize::MAX,
    ensures
        r == (frame_len * 8 * 30 / 1000) as u32,
{
    (frame_len * 8 * 30 / 1000) as u32
}

} // verus!
