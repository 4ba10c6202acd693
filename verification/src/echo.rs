//! Echo request/response payloads for round-trip latency measurement.

use vstd::prelude::*;

use crate::wire::{be32, be_i64, from_be32, from_be64, field32, field_i64, get_i64, get_u32, lemma_be32_roundtrip, lemma_be_i64_roundtrip, push_i64, push_u32, WireError};

verus! {

/// Echo request sent from client to server.
#[derive(Debug, Clone, Copy, PartialEq, Eq, Structural)]
pub struct EchoRequest {
    /// Sequence number to correlate request/response.
    pub seq: u32,
    /// Client send timestamp in microseconds since epoch.
    pub send_time_us: i64,
    /// Number of padding bytes that follow the fixed fields on the wire.
    pub payload_size: u32,
}

/// Echo response sent from server to client.
#[derive(Debug, Clone, Copy, PartialEq, Eq, Structural)]
pub struct EchoResponse {
    /// Sequence number echoed from the request.
    pub seq: u32,
    /// Client send timestamp echoed from the request.
    pub send_time_us: i64,
    /// Server receive timestamp in microseconds since epoch.
    pub server_recv_time_us: i64,
    /// Payload size echoed from the request.
    pub payload_size: u32,
}

/// Wire size of the fixed fields of an `EchoRequest`.
pub const ECHO_REQUEST_FIXED_SIZE: usize = 4 + 8 + 4;

/// Wire size of the fixed fields of an `EchoResponse`.
pub const ECHO_RESPONSE_FIXED_SIZE: usize = 4 + 8 + 8 + 4;

/// Wire bytes of a request's fixed fields: seq, send time, payload size.
pub open spec fn echo_request_bytes(r: EchoRequest) -> Seq<u8> {
    be32(r.seq) + be_i64(r.send_time_us) + be32(r.payload_size)
}

/// Wire bytes of a response: seq, send time, server receive time, payload size.
pub open spec fn echo_response_bytes(r: EchoResponse) -> Seq<u8> {
    be32(r.seq) + be_i64(r.send_time_us) + be_i64(r.server_recv_time_us) + be32(r.payload_size)
}

/// Decoding a request: too short, or the fixed fields (padding and extra bytes ignored).
pub open spec fn decode_echo_request_spec(b: Seq<u8>) -> Result<EchoRequest, WireError> {
    if b.len() < 16 {
        Err(WireError::UnexpectedEof { needed: 16, available: b.len() as usize })
    } else {
        Ok(EchoRequest { seq: field32(b, 0), send_time_us: field_i64(b, 4), payload_size: field32(b, 12) })
    }
}

/// Decoding a response: too short, or the fields (extra bytes ignored).
pub open spec fn decode_echo_response_spec(b: Seq<u8>) -> Result<EchoResponse, WireError> {
    if b.len() < 24 {
        Err(WireError::UnexpectedEof { needed: 24, available: b.len() as usize })
    } else {
        Ok(
            EchoResponse {
                seq: field32(b, 0),
                send_time_us: field_i64(b, 4),
                server_recv_time_us: field_i64(b, 12),
                payload_size: field32(b, 20),
            },
        )
    }
}

impl EchoRequest {
    /// Appends the fixed fields to `buf` (padding is the caller's); this cannot fail.
    pub fn encode(&self, buf: &mut Vec<u8>) -> (r: Result<(), WireError>)
        ensures
            r is Ok,
            final(buf)@ == old(buf)@ + echo_request_bytes(*self),
    {
        push_u32(buf, self.seq);
        push_i64(buf, self.send_time_us);
        push_u32(buf, self.payload_size);
        proof {
            assert(final(buf)@ =~= old(buf)@ + echo_request_bytes(*self));
        }
        Ok(())
    }

    /// The fixed fields as bytes, without padding.
    pub fn to_bytes(&self) -> (r: Vec<u8>)
        ensures
            r@ == echo_request_bytes(*self),
    {
        let mut buf = Vec::with_capacity(ECHO_REQUEST_FIXED_SIZE);
        let _ = self.encode(&mut buf);
        assert(buf@ =~= echo_request_bytes(*self));
        buf
    }

    /// Decodes the fixed fields from the start of `buf`.
    pub fn decode(buf: &[u8]) -> (r: Result<EchoRequest, WireError>)
        ensures
            r == decode_echo_request_spec(buf@),
    {
        if buf.len() < ECHO_REQUEST_FIXED_SIZE {
            return Err(WireError::UnexpectedEof { needed: ECHO_REQUEST_FIXED_SIZE, available: buf.len() });
        }
        let seq = get_u32(buf, 0);
        let send_time_us = get_i64(buf, 4);
        let payload_size = get_u32(buf, 12);
        Ok(EchoRequest { seq, send_time_us, payload_size })
    }
}

impl EchoResponse {
    /// Appends the response's wire bytes to `buf`; this cannot fail.
    pub fn encode(&self, buf: &mut Vec<u8>) -> (r: Result<(), WireError>)
        ensures
            r is Ok,
            final(buf)@ == old(buf)@ + echo_response_bytes(*self),
    {
        push_u32(buf, self.seq);
        push_i64(buf, self.send_time_us);
        push_i64(buf, self.server_recv_time_us);
        push_u32(buf, self.payload_size);
        proof {
            assert(final(buf)@ =~= old(buf)@ + echo_response_bytes(*self));
        }
        Ok(())
    }

    /// The response's wire bytes.
    pub fn to_bytes(&self) -> (r: Vec<u8>)
        ensures
            r@ == echo_response_bytes(*self),
    {
        let mut buf = Vec::with_capacity(ECHO_RESPONSE_FIXED_SIZE);
        let _ = self.encode(&mut buf);
        assert(buf@ =~= echo_response_bytes(*self));
        buf
    }

    /// Decodes a response from the start of `buf`.
    pub fn decode(buf: &[u8]) -> (r: Result<EchoResponse, WireError>)
        ensures
            r == decode_echo_response_spec(buf@),
    {
        if buf.len() < ECHO_RESPONSE_FIXED_SIZE {
            return Err(WireError::UnexpectedEof { needed: ECHO_RESPONSE_FIXED_SIZE, available: buf.len() });
        }
        let seq = get_u32(buf, 0);
        let send_time_us = get_i64(buf, 4);
        let server_recv_time_us = get_i64(buf, 12);
        let payload_size = get_u32(buf, 20);
        Ok(EchoResponse { seq, send_time_us, server_recv_time_us, payload_size })
    }
}

/// A request decodes back from its encoding, whatever padding follows it.
pub proof fn lemma_echo_request_roundtrip(r: EchoRequest, rest: Seq<u8>)
    ensures
        echo_request_bytes(r).len() == ECHO_REQUEST_FIXED_SIZE,
        decode_echo_request_spec(echo_request_bytes(r) + rest) == Ok::<EchoRequest, WireError>(r),
{
    lemma_be32_roundtrip(r.seq);
    lemma_be_i64_roundtrip(r.send_time_us);
    lemma_be32_roundtrip(r.payload_size);
    let b = echo_request_bytes(r) + rest;
    assert(b.subrange(0, 4) =~= be32(r.seq));
    assert(b.subrange(4, 12) =~= be_i64(r.send_time_us));
    assert(b.subrange(12, 16) =~= be32(r.payload_size));
}

/// A response decodes back from its encoding, whatever follows it.
pub proof fn lemma_echo_response_roundtrip(r: EchoResponse, rest: Seq<u8>)
    ensures
        echo_response_bytes(r).len() == ECHO_RESPONSE_FIXED_SIZE,
        decode_echo_response_spec(echo_response_bytes(r) + rest) == Ok::<EchoResponse, WireError>(r),
{
    lemma_be32_roundtrip(r.seq);
    lemma_be_i64_roundtrip(r.send_time_us);
    lemma_be_i64_roundtrip(r.server_recv_time_us);
    lemma_be32_roundtrip(r.payload_size);
    let b = echo_response_bytes(r) + rest;
    assert(b.subrange(0, 4) =~= be32(r.seq));
    assert(b.subrange(4, 12) =~= be_i64(r.send_time_us));
    assert(b.subrange(12, 20) =~= be_i64(r.server_recv_time_us));
    assert(b.subrange(20, 24) =~= be32(r.payload_size));
}

/// Layout of an echo request's fixed fields: 16 bytes, the sequence number at
/// bytes 0..4, the send time (two's complement) at 4..12 and the payload size
/// at 12..16, all big-endian.
pub proof fn lemma_echo_request_layout(r: EchoRequest)
    ensures
        echo_request_bytes(r).len() == 16,
        echo_request_bytes(r).subrange(0, 4) == be32(r.seq),
        echo_request_bytes(r).subrange(4, 12) == be_i64(r.send_time_us),
        echo_request_bytes(r).subrange(12, 16) == be32(r.payload_size),
{
    lemma_be32_roundtrip(r.seq);
    lemma_be_i64_roundtrip(r.send_time_us);
    lemma_be32_roundtrip(r.payload_size);
    assert(echo_request_bytes(r).subrange(0, 4) =~= be32(r.seq));
    assert(echo_request_bytes(r).subrange(4, 12) =~= be_i64(r.send_time_us));
    assert(echo_request_bytes(r).subrange(12, 16) =~= be32(r.payload_size));
}

/// Decoding an echo request of at least 16 bytes reads the sequence number from
/// bytes 0..4, the send time from 4..12 and the payload size from 12..16.
pub proof fn lemma_echo_request_decode_layout(b: Seq<u8>)
    requires
        b.len() >= 16,
    ensures
        decode_echo_request_spec(b) matches Ok(d) && d.seq == from_be32(b.subrange(0, 4)) && d.send_time_us == from_be64(b.subrange(4, 12)) as i64 && d.payload_size == from_be32(b.subrange(12, 16)),
{
}

/// Layout of an echo response on the wire: 24 bytes, the sequence number at
/// bytes 0..4, the client's send time at 4..12, the server's receive time at
/// 12..20 (both two's complement) and the payload size at 20..24, all big-endian.
pub proof fn lemma_echo_response_layout(r: EchoResponse)
    ensures
        echo_response_bytes(r).len() == 24,
        echo_response_bytes(r).subrange(0, 4) == be32(r.seq),
        echo_response_bytes(r).subrange(4, 12) == be_i64(r.send_time_us),
        echo_response_bytes(r).subrange(12, 20) == be_i64(r.server_recv_time_us),
        echo_response_bytes(r).subrange(20, 24) == be32(r.payload_size),
{
    lemma_be32_roundtrip(r.seq);
    lemma_be_i64_roundtrip(r.send_time_us);
    lemma_be_i64_roundtrip(r.server_recv_time_us);
    lemma_be32_roundtrip(r.payload_size);
    assert(echo_response_bytes(r).subrange(0, 4) =~= be32(r.seq));
    assert(echo_response_bytes(r).subrange(4, 12) =~= be_i64(r.send_time_us));
    assert(echo_response_bytes(r).subrange(12, 20) =~= be_i64(r.server_recv_time_us));
    assert(echo_response_bytes(r).subrange(20, 24) =~= be32(r.payload_size));
}

/// Decoding an echo response of at least 24 bytes reads the sequence number from
/// bytes 0..4, the send time from 4..12, the server receive time from 12..20
/// and the payload size from 20..24.
pub proof fn lemma_echo_response_decode_layout(b: Seq<u8>)
    requires
        b.len() >= 24,
    ensures
        decode_echo_response_spec(b) matches Ok(d) && d.seq == from_be32(b.subrange(0, 4)) && d.send_time_us == from_be64(b.subrange(4, 12)) as i64 && d.server_recv_time_us == from_be64(b.subrange(12, 20)) as i64 && d.payload_size == from_be32(b.subrange(20, 24)),
{
}

} // verus!
