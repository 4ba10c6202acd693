//! Packet building and packet classification for the measurement harness:
//! what the bench client sends and which replies it accepts, and how the bench
//! server answers. The harness's loops, clocks and sockets drive these.

use vstd::prelude::*;

use crate::clock::{
    clock_request_bytes, clock_response_bytes, decode_clock_request_spec, decode_clock_response_spec,
    lemma_clock_request_roundtrip, lemma_clock_response_roundtrip, ClockSyncRequest, ClockSyncResponse,
    CLOCK_SYNC_REQUEST_SIZE, CLOCK_SYNC_RESPONSE_SIZE,
};
use crate::echo::{
    decode_echo_request_spec, decode_echo_response_spec, echo_request_bytes, echo_response_bytes,
    lemma_echo_request_roundtrip, lemma_echo_response_roundtrip, EchoRequest, EchoResponse,
    ECHO_REQUEST_FIXED_SIZE, ECHO_RESPONSE_FIXED_SIZE,
};
use crate::message::MessageType;
use crate::metrics::{negative_sum, seq_sum, summarize_rtts, summarizes, RttSummary};
use crate::version::{decode_header_spec, header_bytes, lemma_header_roundtrip, Header, HEADER_SIZE, PROTOCOL_VERSION};
use crate::wire::{push_u8, WireError};

verus! {

/// Why a bench exchange failed.
#[derive(Debug, Clone, Copy, PartialEq, Eq)]
pub enum BenchError {
    /// A packet did not decode.
    Wire(WireError),
    /// A clock-sync response answered another request.
    SequenceMismatch { expected: u32, got: u32 },
}

/// A current-version header for a message type and payload length.
pub open spec fn header_for(t: MessageType, len: u32) -> Header {
    Header { version: PROTOCOL_VERSION, message_type: t, payload_len: len }
}

/// The packet that starts a clock-sync round: header, then the request.
pub open spec fn clock_sync_request_packet_spec(seq: u32, t1_us: i64) -> Seq<u8> {
    header_bytes(header_for(MessageType::ClockSyncRequest, 12)) + clock_request_bytes(
        ClockSyncRequest { seq, t1_us },
    )
}

/// Builds the packet that starts clock-sync round `seq`, sent at `t1_us`.
pub fn clock_sync_request_packet(seq: u32, t1_us: i64) -> (r: Vec<u8>)
    ensures
        r@ == clock_sync_request_packet_spec(seq, t1_us),
{
    let mut buf = Vec::with_capacity(HEADER_SIZE + CLOCK_SYNC_REQUEST_SIZE);
    let header = Header::new(MessageType::ClockSyncRequest, CLOCK_SYNC_REQUEST_SIZE as u32);
    let _ = header.encode(&mut buf);
    let request = ClockSyncRequest { seq, t1_us };
    let _ = request.encode(&mut buf);
    assert(buf@ =~= clock_sync_request_packet_spec(seq, t1_us));
    buf
}

/// What the clock-sync client makes of a received datagram while it waits
/// for the reply to round `expected`.
#[derive(Debug, Clone, Copy, PartialEq, Eq)]
pub enum ClockReply {
    /// Not a clock-sync response (or too short to hold a header): keep waiting.
    Ignore,
    /// The round fails.
    Failed(BenchError),
    /// The reply to this round.
    Response(ClockSyncResponse),
}

/// Shorter than a header: ignored; a header that does not decode: the round
/// fails; another message type: ignored; a clock-sync response that does not
/// decode or answers another round: the round fails; else the response.
pub open spec fn clock_reply_spec(d: Seq<u8>, expected: u32) -> ClockReply {
    if d.len() < 10 {
        ClockReply::Ignore
    } else {
        match decode_header_spec(d) {
            Err(e) => ClockReply::Failed(BenchError::Wire(e)),
            Ok(h) => if h.message_type != MessageType::ClockSyncResponse {
                ClockReply::Ignore
            } else {
                match decode_clock_response_spec(d.skip(10)) {
                    Err(e) => ClockReply::Failed(BenchError::Wire(e)),
                    Ok(r) => if r.seq != expected {
                        ClockReply::Failed(BenchError::SequenceMismatch { expected, got: r.seq })
                    } else {
                        ClockReply::Response(r)
                    },
                }
            },
        }
    }
}

/// Classifies a datagram received while waiting for clock-sync reply `expected`.
pub fn classify_clock_reply(datagram: &[u8], expected: u32) -> (r: ClockReply)
    ensures
        r == clock_reply_spec(datagram@, expected),
{
    if datagram.len() < HEADER_SIZE {
        return ClockReply::Ignore;
    }
    let header = match Header::decode(datagram) {
        Ok(h) => h,
        Err(e) => {
            return ClockReply::Failed(BenchError::Wire(e));
        },
    };
    if header.message_type != MessageType::ClockSyncResponse {
        return ClockReply::Ignore;
    }
    let payload = vstd::slice::slice_subrange(datagram, HEADER_SIZE, datagram.len());
    assert(payload@ =~= datagram@.skip(10));
    match ClockSyncResponse::decode(payload) {
        Err(e) => ClockReply::Failed(BenchError::Wire(e)),
        Ok(response) => {
            if response.seq != expected {
                ClockReply::Failed(BenchError::SequenceMismatch { expected, got: response.seq })
            } else {
                ClockReply::Response(response)
            }
        },
    }
}

/// The echo packet: header (whose length field counts the fixed fields
/// only), the request, then `payload_size` padding bytes `0xAA`.
pub open spec fn echo_request_packet_spec(seq: u32, send_time_us: i64, payload_size: u32) -> Seq<u8> {
    header_bytes(header_for(MessageType::EchoRequest, 16)) + echo_request_bytes(
        EchoRequest { seq, send_time_us, payload_size },
    ) + Seq::new(payload_size as nat, |i: int| 0xAAu8)
}

/// Builds echo request `seq` sent at `send_time_us` with `payload_size` bytes of padding.
pub fn echo_request_packet(seq: u32, send_time_us: i64, payload_size: u32) -> (r: Vec<u8>)
    requires
        HEADER_SIZE + ECHO_REQUEST_FIXED_SIZE + payload_size <= usize::MAX,
    ensures
        r@ == echo_request_packet_spec(seq, send_time_us, payload_size),
{
    let mut buf = Vec::with_capacity(HEADER_SIZE + ECHO_REQUEST_FIXED_SIZE);
    let header = Header::new(MessageType::EchoRequest, ECHO_REQUEST_FIXED_SIZE as u32);
    let _ = header.encode(&mut buf);
    let request = EchoRequest { seq, send_time_us, payload_size };
    let _ = request.encode(&mut buf);
    let ghost fixed = buf@;
    let mut k: u32 = 0;
    while k < payload_size
        invariant
            0 <= k <= payload_size,
            buf@ == fixed + Seq::new(k as nat, |i: int| 0xAAu8),
        decreases payload_size - k,
    {
        push_u8(&mut buf, 0xAA);
        k = k + 1;
        assert(buf@ =~= fixed + Seq::new(k as nat, |i: int| 0xAAu8));
    }
    assert(buf@ =~= echo_request_packet_spec(seq, send_time_us, payload_size));
    buf
}

/// What the echo client makes of a received datagram while it waits for
/// the reply to request `expected`.
#[derive(Debug, Clone, Copy, PartialEq, Eq)]
pub enum EchoReply {
    /// Not the awaited reply (short, bad header, other type, out of order): keep waiting.
    Ignore,
    /// An echo response that does not decode: the request fails.
    Failed(WireError),
    /// The reply to this request.
    Matched(EchoResponse),
}

/// Short packets, undecodable headers, other message types and responses to
/// other requests are skipped; an echo response that does not decode fails.
pub open spec fn echo_reply_spec(d: Seq<u8>, expected: u32) -> EchoReply {
    if d.len() < 10 {
        EchoReply::Ignore
    } else {
        match decode_header_spec(d) {
            Err(_) => EchoReply::Ignore,
            Ok(h) => if h.message_type != MessageType::EchoResponse {
                EchoReply::Ignore
            } else {
                match decode_echo_response_spec(d.skip(10)) {
                    Err(e) => EchoReply::Failed(e),
                    Ok(r) => if r.seq == expected {
                        EchoReply::Matched(r)
                    } else {
                        EchoReply::Ignore
                    },
                }
            },
        }
    }
}

/// Classifies a datagram received while waiting for echo reply `expected`.
pub fn classify_echo_reply(datagram: &[u8], expected: u32) -> (r: EchoReply)
    ensures
        r == echo_reply_spec(datagram@, expected),
{
    if datagram.len() < HEADER_SIZE {
        return EchoReply::Ignore;
    }
    let header = match Header::decode(datagram) {
        Ok(h) => h,
        Err(_) => {
            return EchoReply::Ignore;
        },
    };
    if header.message_type != MessageType::EchoResponse {
        return EchoReply::Ignore;
    }
    let payload = vstd::slice::slice_subrange(datagram, HEADER_SIZE, datagram.len());
    assert(payload@ =~= datagram@.skip(10));
    match EchoResponse::decode(payload) {
        Err(e) => EchoReply::Failed(e),
        Ok(response) => {
            if response.seq == expected {
                EchoReply::Matched(response)
            } else {
                EchoReply::Ignore
            }
        },
    }
}

/// How one echo request ended.
#[derive(Debug, Clone, Copy, PartialEq, Eq)]
pub enum EchoOutcome {
    /// Its reply came: the request's sequence number, send time and receive time.
    Reply { seq: u32, send_time_us: i64, recv_time_us: i64 },
    /// No usable reply came in time.
    Lost,
}

/// Running tally of the echo test: round-trip times and sequence numbers of
/// the answered requests, in order, and the number of lost ones.
#[derive(Debug, Clone)]
pub struct EchoTally {
    /// Round-trip time of each answered request.
    pub rtts: Vec<i64>,
    /// Sequence number of each answered request.
    pub seqs: Vec<u32>,
    /// Requests without a reply.
    pub lost: u64,
}

/// Why the echo test produced no statistics.
#[derive(Debug, Clone, Copy, PartialEq, Eq)]
pub enum EchoError {
    /// Every request was lost.
    AllLost,
}

impl EchoTally {
    /// A tally before the first request.
    pub fn new() -> (r: EchoTally)
        ensures
            r.rtts@.len() == 0,
            r.seqs@.len() == 0,
            r.lost == 0,
    {
        EchoTally { rtts: Vec::new(), seqs: Vec::new(), lost: 0 }
    }
}

/// Records how one echo request ended: an answered request adds its
/// round-trip time (receive time minus send time) and sequence number; a
/// lost one counts one more loss. The round-trip time, and the loss count,
/// must fit their types.
pub fn echo_tally_step(tally: &mut EchoTally, o: EchoOutcome)
    requires
        match o {
            EchoOutcome::Reply { seq, send_time_us, recv_time_us } => i64::MIN <= recv_time_us - send_time_us
                <= i64::MAX,
            EchoOutcome::Lost => old(tally).lost < u64::MAX,
        },
    ensures
        match o {
            EchoOutcome::Reply { seq, send_time_us, recv_time_us } => {
                &&& final(tally).rtts@ == old(tally).rtts@.push((recv_time_us - send_time_us) as i64)
                &&& final(tally).seqs@ == old(tally).seqs@.push(seq)
                &&& final(tally).lost == old(tally).lost
            },
            EchoOutcome::Lost => {
                &&& final(tally).rtts@ == old(tally).rtts@
                &&& final(tally).seqs@ == old(tally).seqs@
                &&& final(tally).lost == old(tally).lost + 1
            },
        },
{
    match o {
        EchoOutcome::Reply { seq, send_time_us, recv_time_us } => {
            tally.rtts.push(recv_time_us - send_time_us);
            tally.seqs.push(seq);
        },
        EchoOutcome::Lost => {
            tally.lost = tally.lost + 1;
        },
    }
}

/// The statistics of a finished echo test: an error when every request was
/// lost, else the summary of the round-trip times. Summing them must not
/// overflow `i64`.
pub fn echo_tally_finish(t: &EchoTally) -> (r: Result<RttSummary, EchoError>)
    requires
        negative_sum(t.rtts@) >= i64::MIN,
        seq_sum(t.rtts@) <= i64::MAX,
    ensures
        r is Err <==> t.rtts@.len() == 0,
        r matches Err(e) ==> e == EchoError::AllLost,
        r matches Ok(s) ==> summarizes(s, t.rtts@),
{
    if t.rtts.len() == 0 {
        return Err(EchoError::AllLost);
    }
    Ok(summarize_rtts(t.rtts.as_slice()))
}

/// What the bench server does with a received datagram.
#[derive(Debug, Clone, Copy, PartialEq, Eq)]
pub enum ServerAction {
    /// Drop it.
    Ignore,
    /// Answer a clock-sync request.
    ClockSync(ClockSyncRequest),
    /// Answer an echo request.
    Echo(EchoRequest),
}

/// Short packets, undecodable headers, message types other than the two
/// requests, and requests whose payload does not decode are dropped.
pub open spec fn server_action_spec(d: Seq<u8>) -> ServerAction {
    if d.len() < 10 {
        ServerAction::Ignore
    } else {
        match decode_header_spec(d) {
            Err(_) => ServerAction::Ignore,
            Ok(h) => if h.message_type == MessageType::ClockSyncRequest {
                match decode_clock_request_spec(d.skip(10)) {
                    Ok(r) => ServerAction::ClockSync(r),
                    Err(_) => ServerAction::Ignore,
                }
            } else if h.message_type == MessageType::EchoRequest {
                match decode_echo_request_spec(d.skip(10)) {
                    Ok(r) => ServerAction::Echo(r),
                    Err(_) => ServerAction::Ignore,
                }
            } else {
                ServerAction::Ignore
            },
        }
    }
}

/// Decides what the bench server does with a received datagram.
pub fn server_action(datagram: &[u8]) -> (r: ServerAction)
    ensures
        r == server_action_spec(datagram@),
{
    if datagram.len() < HEADER_SIZE {
        return ServerAction::Ignore;
    }
    let header = match Header::decode(datagram) {
        Ok(h) => h,
        Err(_) => {
            return ServerAction::Ignore;
        },
    };
    let payload = vstd::slice::slice_subrange(datagram, HEADER_SIZE, datagram.len());
    assert(payload@ =~= datagram@.skip(10));
    match header.message_type {
        MessageType::ClockSyncRequest => match ClockSyncRequest::decode(payload) {
            Ok(r) => ServerAction::ClockSync(r),
            Err(_) => ServerAction::Ignore,
        },
        MessageType::EchoRequest => match EchoRequest::decode(payload) {
            Ok(r) => ServerAction::Echo(r),
            Err(_) => ServerAction::Ignore,
        },
        _ => ServerAction::Ignore,
    }
}

/// The server's answer to a clock-sync request received at `t2_us` and sent at `t3_us`.
pub open spec fn clock_sync_reply_spec(req: ClockSyncRequest, t2_us: i64, t3_us: i64) -> ClockSyncResponse {
    ClockSyncResponse { seq: req.seq, t1_us: req.t1_us, t2_us, t3_us }
}

/// Builds the server's clock-sync reply packet.
pub fn clock_sync_reply_packet(req: &ClockSyncRequest, t2_us: i64, t3_us: i64) -> (r: Vec<u8>)
    ensures
        r@ == header_bytes(header_for(MessageType::ClockSyncResponse, 28)) + clock_response_bytes(
            clock_sync_reply_spec(*req, t2_us, t3_us),
        ),
{
    let response = ClockSyncResponse { seq: req.seq, t1_us: req.t1_us, t2_us, t3_us };
    let mut buf = Vec::with_capacity(HEADER_SIZE + CLOCK_SYNC_RESPONSE_SIZE);
    let header = Header::new(MessageType::ClockSyncResponse, CLOCK_SYNC_RESPONSE_SIZE as u32);
    let _ = header.encode(&mut buf);
    let _ = response.encode(&mut buf);
    assert(buf@ =~= header_bytes(header_for(MessageType::ClockSyncResponse, 28)) + clock_response_bytes(
        clock_sync_reply_spec(*req, t2_us, t3_us),
    ));
    buf
}

/// The server's answer to an echo request received at `server_recv_time_us`.
pub open spec fn echo_reply_spec_of(req: EchoRequest, server_recv_time_us: i64) -> EchoResponse {
    EchoResponse {
        seq: req.seq,
        send_time_us: req.send_time_us,
        server_recv_time_us,
        payload_size: req.payload_size,
    }
}

/// Builds the server's echo reply packet.
pub fn echo_reply_packet(req: &EchoRequest, server_recv_time_us: i64) -> (r: Vec<u8>)
    ensures
        r@ == header_bytes(header_for(MessageType::EchoResponse, 24)) + echo_response_bytes(
            echo_reply_spec_of(*req, server_recv_time_us),
        ),
{
    let response = EchoResponse {
        seq: req.seq,
        send_time_us: req.send_time_us,
        server_recv_time_us,
        payload_size: req.payload_size,
    };
    let mut buf = Vec::with_capacity(HEADER_SIZE + ECHO_RESPONSE_FIXED_SIZE);
    let header = Header::new(MessageType::EchoResponse, ECHO_RESPONSE_FIXED_SIZE as u32);
    let _ = header.encode(&mut buf);
    let _ = response.encode(&mut buf);
    assert(buf@ =~= header_bytes(header_for(MessageType::EchoResponse, 24)) + echo_response_bytes(
        echo_reply_spec_of(*req, server_recv_time_us),
    ));
    buf
}

/// The server reads a clock-sync request packet back as the request it was built from.
pub proof fn lemma_server_reads_clock_request(seq: u32, t1_us: i64)
    ensures
        server_action_spec(clock_sync_request_packet_spec(seq, t1_us)) == ServerAction::ClockSync(
            ClockSyncRequest { seq, t1_us },
        ),
{
    let req = ClockSyncRequest { seq, t1_us };
    let d = clock_sync_request_packet_spec(seq, t1_us);
    lemma_header_roundtrip(header_for(MessageType::ClockSyncRequest, 12), clock_request_bytes(req));
    lemma_clock_request_roundtrip(req, Seq::empty());
    assert(d.skip(10) =~= clock_request_bytes(req) + Seq::<u8>::empty());
}

/// The client accepts the server's reply to its clock-sync request, and
/// sees its own `seq` and `t1` echoed with the server's `t2` and `t3`.
pub proof fn lemma_client_accepts_clock_reply(req: ClockSyncRequest, t2_us: i64, t3_us: i64)
    ensures
        clock_reply_spec(
            header_bytes(header_for(MessageType::ClockSyncResponse, 28)) + clock_response_bytes(
                clock_sync_reply_spec(req, t2_us, t3_us),
            ),
            req.seq,
        ) == ClockReply::Response(clock_sync_reply_spec(req, t2_us, t3_us)),
{
    let resp = clock_sync_reply_spec(req, t2_us, t3_us);
    let d = header_bytes(header_for(MessageType::ClockSyncResponse, 28)) + clock_response_bytes(resp);
    lemma_header_roundtrip(header_for(MessageType::ClockSyncResponse, 28), clock_response_bytes(resp));
    lemma_clock_response_roundtrip(resp, Seq::empty());
    assert(d.skip(10) =~= clock_response_bytes(resp) + Seq::<u8>::empty());
}

/// The server reads an echo request packet back as the request it was
/// built from, whatever its padding.
pub proof fn lemma_server_reads_echo_request(seq: u32, send_time_us: i64, payload_size: u32)
    ensures
        server_action_spec(echo_request_packet_spec(seq, send_time_us, payload_size)) == ServerAction::Echo(
            EchoRequest { seq, send_time_us, payload_size },
        ),
{
    let req = EchoRequest { seq, send_time_us, payload_size };
    let pad = Seq::new(payload_size as nat, |i: int| 0xAAu8);
    let d = echo_request_packet_spec(seq, send_time_us, payload_size);
    lemma_header_roundtrip(header_for(MessageType::EchoRequest, 16), echo_request_bytes(req) + pad);
    lemma_echo_request_roundtrip(req, pad);
    assert(d =~= header_bytes(header_for(MessageType::EchoRequest, 16)) + (echo_request_bytes(req) + pad));
    assert(d.skip(10) =~= echo_request_bytes(req) + pad);
}

/// The client matches the server's reply to its echo request.
pub proof fn lemma_client_accepts_echo_reply(req: EchoRequest, server_recv_time_us: i64)
    ensures
        echo_reply_spec(
            header_bytes(header_for(MessageType::EchoResponse, 24)) + echo_response_bytes(
                echo_reply_spec_of(req, server_recv_time_us),
            ),
            req.seq,
        ) == EchoReply::Matched(echo_reply_spec_of(req, server_recv_time_us)),
{
    let resp = echo_reply_spec_of(req, server_recv_time_us);
    let d = header_bytes(header_for(MessageType::EchoResponse, 24)) + echo_response_bytes(resp);
    lemma_header_roundtrip(header_for(MessageType::EchoResponse, 24), echo_response_bytes(resp));
    lemma_echo_response_roundtrip(resp, Seq::empty());
    assert(d.skip(10) =~= echo_response_bytes(resp) + Seq::<u8>::empty());
}

} // verus!
