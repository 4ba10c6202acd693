//! NTP-style clock synchronization payloads.
//!
//! ```text
//! Client                    Server
//!   |--- ClockSyncRequest --->|
//!   |    t1 = client_send     |   t2 = server_recv
//!   |                         |   t3 = server_send
//!   |<-- ClockSyncResponse ---|
//!   |    t4 = client_recv     |
//! ```
//!
//! - offset = ((t2 - t1) + (t3 - t4)) / 2
//! - round-trip delay = (t4 - t1) - (t3 - t2)

use vstd::prelude::*;

use crate::wire::{be32, be_i64, from_be32, from_be64, field32, field_i64, get_i64, get_u32, lemma_be32_roundtrip, lemma_be_i64_roundtrip, push_i64, push_u32, WireError};

verus! {

/// Clock synchronization request sent from client to server.
#[derive(Debug, Clone, Copy, PartialEq, Eq, Structural)]
pub struct ClockSyncRequest {
    /// Sequence number for correlating request/response pairs.
    pub seq: u32,
    /// Client send timestamp in microseconds since epoch (`t1`).
    pub t1_us: i64,
}

/// Clock synchronization response sent from server to client.
#[derive(Debug, Clone, Copy, PartialEq, Eq, Structural)]
pub struct ClockSyncResponse {
    /// Sequence number echoed from the request.
    pub seq: u32,
    /// Client send timestamp (`t1`), echoed.
    pub t1_us: i64,
    /// Server receive timestamp (`t2`).
    pub t2_us: i64,
    /// Server send timestamp (`t3`).
    pub t3_us: i64,
}

/// Wire size of a `ClockSyncRequest` payload in bytes.
pub const CLOCK_SYNC_REQUEST_SIZE: usize = 4 + 8;

/// Wire size of a `ClockSyncResponse` payload in bytes.
pub const CLOCK_SYNC_RESPONSE_SIZE: usize = 4 + 8 + 8 + 8;

/// Wire bytes of a request: seq, then t1.
pub open spec fn clock_request_bytes(r: ClockSyncRequest) -> Seq<u8> {
    be32(r.seq) + be_i64(r.t1_us)
}

/// Wire bytes of a response: seq, t1, t2, t3.
pub open spec fn clock_response_bytes(r: ClockSyncResponse) -> Seq<u8> {
    be32(r.seq) + be_i64(r.t1_us) + be_i64(r.t2_us) + be_i64(r.t3_us)
}

/// Decoding a request: too short, or the fields at their offsets (extra bytes ignored).
pub open spec fn decode_clock_request_spec(b: Seq<u8>) -> Result<ClockSyncRequest, WireError> {
    if b.len() < 12 {
        Err(WireError::UnexpectedEof { needed: 12, available: b.len() as usize })
    } else {
        Ok(ClockSyncRequest { seq: field32(b, 0), t1_us: field_i64(b, 4) })
    }
}

/// Decoding a response: too short, or the fields at their offsets (extra bytes ignored).
pub open spec fn decode_clock_response_spec(b: Seq<u8>) -> Result<ClockSyncResponse, WireError> {
    if b.len() < 28 {
        Err(WireError::UnexpectedEof { needed: 28, available: b.len() as usize })
    } else {
        Ok(
            ClockSyncResponse {
                seq: field32(b, 0),
                t1_us: field_i64(b, 4),
                t2_us: field_i64(b, 12),
                t3_us: field_i64(b, 20),
            },
        )
    }
}

/// Integer division that rounds toward zero, as Rust's `/` on signed integers does.
pub open spec fn div_toward_zero(x: int, d: int) -> int {
    if x >= 0 {
        x / d
    } else {
        -((-x) / d)
    }
}

/// Offset estimate `((t2 - t1) + (t3 - t4)) / 2`, rounded toward zero.
pub open spec fn offset_spec(r: ClockSyncResponse, t4_us: i64) -> int {
    div_toward_zero((r.t2_us - r.t1_us) + (r.t3_us - t4_us), 2)
}

/// Round-trip delay `(t4 - t1) - (t3 - t2)`.
pub open spec fn delay_spec(r: ClockSyncResponse, t4_us: i64) -> int {
    (t4_us - r.t1_us) - (r.t3_us - r.t2_us)
}

impl ClockSyncRequest {
    /// Appends the request's wire bytes to `buf`; this cannot fail.
    pub fn encode(&self, buf: &mut Vec<u8>) -> (r: Result<(), WireError>)
        ensures
            r is Ok,
            final(buf)@ == old(buf)@ + clock_request_bytes(*self),
    {
        push_u32(buf, self.seq);
        push_i64(buf, self.t1_us);
        proof {
            assert(final(buf)@ =~= old(buf)@ + clock_request_bytes(*self));
        }
        Ok(())
    }

    /// The request's wire bytes.
    pub fn to_bytes(&self) -> (r: Vec<u8>)
        ensures
            r@ == clock_request_bytes(*self),
    {
        let mut buf = Vec::with_capacity(CLOCK_SYNC_REQUEST_SIZE);
        let _ = self.encode(&mut buf);
        assert(buf@ =~= clock_request_bytes(*self));
        buf
    }

    /// Decodes a request from the start of `buf`.
    pub fn decode(buf: &[u8]) -> (r: Result<ClockSyncRequest, WireError>)
        ensures
            r == decode_clock_request_spec(buf@),
    {
        if buf.len() < CLOCK_SYNC_REQUEST_SIZE {
            return Err(WireError::UnexpectedEof { needed: CLOCK_SYNC_REQUEST_SIZE, available: buf.len() });
        }
        let seq = get_u32(buf, 0);
        let t1_us = get_i64(buf, 4);
        Ok(ClockSyncRequest { seq, t1_us })
    }
}

impl ClockSyncResponse {
    /// Appends the response's wire bytes to `buf`; this cannot fail.
    pub fn encode(&self, buf: &mut Vec<u8>) -> (r: Result<(), WireError>)
        ensures
            r is Ok,
            final(buf)@ == old(buf)@ + clock_response_bytes(*self),
    {
        push_u32(buf, self.seq);
        push_i64(buf, self.t1_us);
        push_i64(buf, self.t2_us);
        push_i64(buf, self.t3_us);
        proof {
            assert(final(buf)@ =~= old(buf)@ + clock_response_bytes(*self));
        }
        Ok(())
    }

    /// The response's wire bytes.
    pub fn to_bytes(&self) -> (r: Vec<u8>)
        ensures
            r@ == clock_response_bytes(*self),
    {
        let mut buf = Vec::with_capacity(CLOCK_SYNC_RESPONSE_SIZE);
        let _ = self.encode(&mut buf);
        assert(buf@ =~= clock_response_bytes(*self));
        buf
    }

    /// Decodes a response from the start of `buf`.
    pub fn decode(buf: &[u8]) -> (r: Result<ClockSyncResponse, WireError>)
        ensures
            r == decode_clock_response_spec(buf@),
    {
        if buf.len() < CLOCK_SYNC_RESPONSE_SIZE {
            return Err(WireError::UnexpectedEof { needed: CLOCK_SYNC_RESPONSE_SIZE, available: buf.len() });
        }
        let seq = get_u32(buf, 0);
        let t1_us = get_i64(buf, 4);
        let t2_us = get_i64(buf, 12);
        let t3_us = get_i64(buf, 20);
        Ok(ClockSyncResponse { seq, t1_us, t2_us, t3_us })
    }

    /// Estimated clock offset in microseconds, `((t2 - t1) + (t3 - t4)) / 2`
    /// rounded toward zero; positive means the server clock is ahead.
    /// The intermediate differences must fit in `i64`.
    pub fn compute_offset(&self, t4_us: i64) -> (r: i64)
        requires
            i64::MIN <= self.t2_us - self.t1_us <= i64::MAX,
            i64::MIN <= self.t3_us - t4_us <= i64::MAX,
            i64::MIN <= (self.t2_us - self.t1_us) + (self.t3_us - t4_us) <= i64::MAX,
        ensures
            r == offset_spec(*self, t4_us),
    {
        let sum = (self.t2_us - self.t1_us) + (self.t3_us - t4_us);
        sum / 2
    }

    /// Round-trip delay in microseconds, `(t4 - t1) - (t3 - t2)`.
    /// The intermediate differences must fit in `i64`.
    pub fn compute_delay(&self, t4_us: i64) -> (r: i64)
        requires
            i64::MIN <= t4_us - self.t1_us <= i64::MAX,
            i64::MIN <= self.t3_us - self.t2_us <= i64::MAX,
            i64::MIN <= (t4_us - self.t1_us) - (self.t3_us - self.t2_us) <= i64::MAX,
        ensures
            r == delay_spec(*self, t4_us),
    {
        (t4_us - self.t1_us) - (self.t3_us - self.t2_us)
    }
}

/// A request decodes back from its encoding, whatever follows it.
pub proof fn lemma_clock_request_roundtrip(r: ClockSyncRequest, rest: Seq<u8>)
    ensures
        clock_request_bytes(r).len() == CLOCK_SYNC_REQUEST_SIZE,
        decode_clock_request_spec(clock_request_bytes(r) + rest) == Ok::<ClockSyncRequest, WireError>(r),
{
    lemma_be32_roundtrip(r.seq);
    lemma_be_i64_roundtrip(r.t1_us);
    let b = clock_request_bytes(r) + rest;
    assert(b.subrange(0, 4) =~= be32(r.seq));
    assert(b.subrange(4, 12) =~= be_i64(r.t1_us));
}

/// A response decodes back from its encoding, whatever follows it.
pub proof fn lemma_clock_response_roundtrip(r: ClockSyncResponse, rest: Seq<u8>)
    ensures
        clock_response_bytes(r).len() == CLOCK_SYNC_RESPONSE_SIZE,
        decode_clock_response_spec(clock_response_bytes(r) + rest) == Ok::<ClockSyncResponse, WireError>(r),
{
    lemma_be32_roundtrip(r.seq);
    lemma_be_i64_roundtrip(r.t1_us);
    lemma_be_i64_roundtrip(r.t2_us);
    lemma_be_i64_roundtrip(r.t3_us);
    let b = clock_response_bytes(r) + rest;
    assert(b.subrange(0, 4) =~= be32(r.seq));
    assert(b.subrange(4, 12) =~= be_i64(r.t1_us));
    assert(b.subrange(12, 20) =~= be_i64(r.t2_us));
    assert(b.subrange(20, 28) =~= be_i64(r.t3_us));
}

/// With the true one-way times `d1` (client to server) and `d2` (server to
/// client) and a server clock ahead by `theta`, the delay estimate is exactly
/// `d1 + d2`, and the offset estimate is `theta + (d1 - d2) / 2` (rounded
/// toward zero): exact when the path is symmetric.
pub proof fn lemma_offset_delay_model(r: ClockSyncResponse, t4_us: i64, theta: int, d1: int, d2: int)
    requires
        r.t2_us == r.t1_us + d1 + theta,
        t4_us == r.t3_us - theta + d2,
    ensures
        delay_spec(r, t4_us) == d1 + d2,
        offset_spec(r, t4_us) == div_toward_zero(2 * theta + d1 - d2, 2),
        d1 == d2 ==> offset_spec(r, t4_us) == theta,
{
}

/// Layout of a clock-sync request on the wire: 12 bytes, the sequence number
/// big-endian at bytes 0..4 and `t1` big-endian two's-complement at 4..12.
pub proof fn lemma_clock_request_layout(r: ClockSyncRequest)
    ensures
        clock_request_bytes(r).len() == 12,
        clock_request_bytes(r).subrange(0, 4) == be32(r.seq),
        clock_request_bytes(r).subrange(4, 12) == be_i64(r.t1_us),
{
    lemma_be32_roundtrip(r.seq);
    lemma_be_i64_roundtrip(r.t1_us);
    assert(clock_request_bytes(r).subrange(0, 4) =~= be32(r.seq));
    assert(clock_request_bytes(r).subrange(4, 12) =~= be_i64(r.t1_us));
}

/// Decoding a clock-sync request of at least 12 bytes reads the sequence
/// number from bytes 0..4 and `t1` from bytes 4..12.
pub proof fn lemma_clock_request_decode_layout(b: Seq<u8>)
    requires
        b.len() >= 12,
    ensures
        decode_clock_request_spec(b) matches Ok(d) && d.seq == from_be32(b.subrange(0, 4)) && d.t1_us == from_be64(b.subrange(4, 12)) as i64,
{
}

/// Layout of a clock-sync response on the wire: 28 bytes, the sequence number
/// big-endian at bytes 0..4, then `t1`, `t2` and `t3` big-endian two's-complement
/// at 4..12, 12..20 and 20..28.
pub proof fn lemma_clock_response_layout(r: ClockSyncResponse)
    ensures
        clock_response_bytes(r).len() == 28,
        clock_response_bytes(r).subrange(0, 4) == be32(r.seq),
        clock_response_bytes(r).subrange(4, 12) == be_i64(r.t1_us),
        clock_response_bytes(r).subrange(12, 20) == be_i64(r.t2_us),
        clock_response_bytes(r).subrange(20, 28) == be_i64(r.t3_us),
{
    lemma_be32_roundtrip(r.seq);
    lemma_be_i64_roundtrip(r.t1_us);
    lemma_be_i64_roundtrip(r.t2_us);
    lemma_be_i64_roundtrip(r.t3_us);
    assert(clock_response_bytes(r).subrange(0, 4) =~= be32(r.seq));
    assert(clock_response_bytes(r).subrange(4, 12) =~= be_i64(r.t1_us));
    assert(clock_response_bytes(r).subrange(12, 20) =~= be_i64(r.t2_us));
    assert(clock_response_bytes(r).subrange(20, 28) =~= be_i64(r.t3_us));
}

/// Decoding a clock-sync response of at least 28 bytes reads the sequence
/// number from bytes 0..4, `t1` from 4..12, `t2` from 12..20 and `t3` from 20..28.
pub proof fn lemma_clock_response_decode_layout(b: Seq<u8>)
    requires
        b.len() >= 28,
    ensures
        decode_clock_response_spec(b) matches Ok(d) && d.seq == from_be32(b.subrange(0, 4)) && d.t1_us == from_be64(b.subrange(4, 12)) as i64 && d.t2_us == from_be64(b.subrange(12, 20)) as i64 && d.t3_us == from_be64(b.subrange(20, 28)) as i64,
{
}

} // verus!
