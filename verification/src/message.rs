//! Message type discriminants carried in the wire header.
//!
//! Each message type is encoded as a single byte. The byte values are fixed
//! by the protocol so wire compatibility survives reordering in source.

use vstd::prelude::*;

verus! {

/// Discriminant for each message type on the wire (one byte in the header).
#[derive(Debug, Clone, Copy, PartialEq, Eq, Hash, Structural)]
pub enum MessageType {
    /// NTP-style clock synchronization request (client to server), byte 0x01.
    ClockSyncRequest,
    /// NTP-style clock synchronization response (server to client), byte 0x02.
    ClockSyncResponse,
    /// Echo request carrying a sequence number and timestamp, byte 0x10.
    EchoRequest,
    /// Echo response mirroring the request, byte 0x11.
    EchoResponse,
    /// Keepalive heartbeat (bidirectional), byte 0x20.
    Heartbeat,
    /// Encoded H.264 video frame (phone to host, unreliable datagram), byte 0x30.
    VideoFrame,
    /// Codec configuration: SPS/PPS and encoder parameters, byte 0x31.
    VideoConfig,
    /// Receiver bitrate feedback (host to phone), byte 0x32.
    BitrateAck,
    /// Client initiates pairing and sends its name, byte 0x50.
    PairRequest,
    /// Server accepts or rejects pairing, byte 0x51.
    PairResponse,
}

/// The wire byte of each message type.
pub open spec fn type_code(t: MessageType) -> u8 {
    match t {
        MessageType::ClockSyncRequest => 0x01,
        MessageType::ClockSyncResponse => 0x02,
        MessageType::EchoRequest => 0x10,
        MessageType::EchoResponse => 0x11,
        MessageType::Heartbeat => 0x20,
        MessageType::VideoFrame => 0x30,
        MessageType::VideoConfig => 0x31,
        MessageType::BitrateAck => 0x32,
        MessageType::PairRequest => 0x50,
        MessageType::PairResponse => 0x51,
    }
}

/// The message type that a wire byte names, if any; an unknown byte is
/// handed back as the error.
pub open spec fn type_from_code(v: u8) -> Result<MessageType, u8> {
    if v == 0x01 {
        Ok(MessageType::ClockSyncRequest)
    } else if v == 0x02 {
        Ok(MessageType::ClockSyncResponse)
    } else if v == 0x10 {
        Ok(MessageType::EchoRequest)
    } else if v == 0x11 {
        Ok(MessageType::EchoResponse)
    } else if v == 0x20 {
        Ok(MessageType::Heartbeat)
    } else if v == 0x30 {
        Ok(MessageType::VideoFrame)
    } else if v == 0x31 {
        Ok(MessageType::VideoConfig)
    } else if v == 0x32 {
        Ok(MessageType::BitrateAck)
    } else if v == 0x50 {
        Ok(MessageType::PairRequest)
    } else if v == 0x51 {
        Ok(MessageType::PairResponse)
    } else {
        Err(v)
    }
}

/// The display name of each message type: its variant name.
pub open spec fn display_name(t: MessageType) -> Seq<char> {
    match t {
        MessageType::ClockSyncRequest => "ClockSyncRequest"@,
        MessageType::ClockSyncResponse => "ClockSyncResponse"@,
        MessageType::EchoRequest => "EchoRequest"@,
        MessageType::EchoResponse => "EchoResponse"@,
        MessageType::Heartbeat => "Heartbeat"@,
        MessageType::VideoFrame => "VideoFrame"@,
        MessageType::VideoConfig => "VideoConfig"@,
        MessageType::BitrateAck => "BitrateAck"@,
        MessageType::PairRequest => "PairRequest"@,
        MessageType::PairResponse => "PairResponse"@,
    }
}

impl MessageType {
    /// The wire byte of this message type.
    pub fn to_u8(self) -> (r: u8)
        ensures
            r == type_code(self),
    {
        match self {
            MessageType::ClockSyncRequest => 0x01,
            MessageType::ClockSyncResponse => 0x02,
            MessageType::EchoRequest => 0x10,
            MessageType::EchoResponse => 0x11,
            MessageType::Heartbeat => 0x20,
            MessageType::VideoFrame => 0x30,
            MessageType::VideoConfig => 0x31,
            MessageType::BitrateAck => 0x32,
            MessageType::PairRequest => 0x50,
            MessageType::PairResponse => 0x51,
        }
    }

    /// The message type a wire byte names; an unknown byte comes back as the error.
    pub fn from_u8(value: u8) -> (r: Result<MessageType, u8>)
        ensures
            r == type_from_code(value),
    {
        match value {
            0x01 => Ok(MessageType::ClockSyncRequest),
            0x02 => Ok(MessageType::ClockSyncResponse),
            0x10 => Ok(MessageType::EchoRequest),
            0x11 => Ok(MessageType::EchoResponse),
            0x20 => Ok(MessageType::Heartbeat),
            0x30 => Ok(MessageType::VideoFrame),
            0x31 => Ok(MessageType::VideoConfig),
            0x32 => Ok(MessageType::BitrateAck),
            0x50 => Ok(MessageType::PairRequest),
            0x51 => Ok(MessageType::PairResponse),
            other => Err(other),
        }
    }

    /// The display name of this message type.
    pub fn name(self) -> (r: &'static str)
        ensures
            r@ == display_name(self),
    {
        match self {
            MessageType::ClockSyncRequest => "ClockSyncRequest",
            MessageType::ClockSyncResponse => "ClockSyncResponse",
            MessageType::EchoRequest => "EchoRequest",
            MessageType::EchoResponse => "EchoResponse",
            MessageType::Heartbeat => "Heartbeat",
            MessageType::VideoFrame => "VideoFrame",
            MessageType::VideoConfig => "VideoConfig",
            MessageType::BitrateAck => "BitrateAck",
            MessageType::PairRequest => "PairRequest",
            MessageType::PairResponse => "PairResponse",
        }
    }
}

impl TryFrom<u8> for MessageType {
    type Error = u8;

    fn try_from(value: u8) -> (r: Result<MessageType, u8>) {
        MessageType::from_u8(value)
    }
}

impl vstd::std_specs::convert::TryFromSpecImpl<u8> for MessageType {
    open spec fn obeys_try_from_spec() -> bool {
        true
    }

    open spec fn try_from_spec(v: u8) -> Result<MessageType, u8> {
        type_from_code(v)
    }
}

/// Every message type survives its own wire byte: decoding the byte that a
/// type encodes to gives that type back.
pub proof fn lemma_type_code_roundtrip(t: MessageType)
    ensures
        type_from_code(type_code(t)) == Ok::<MessageType, u8>(t),
{
}

/// A byte that decodes to a message type is exactly that type's wire byte,
/// so no two bytes name the same type.
pub proof fn lemma_type_code_injective(v: u8)
    ensures
        type_from_code(v) is Ok ==> type_code(type_from_code(v)->Ok_0) == v,
        type_from_code(v) is Err ==> type_from_code(v) == Err::<MessageType, u8>(v),
{
}

} // verus!
