//! Protocol versioning and the fixed wire header.
//!
//! Every HyperLink packet starts with a fixed header: magic bytes, protocol
//! version, message type and payload length.
//!
//! ```text
//! | magic (4) | ver (1) | msg_type (1) | payload_len (4, big-endian) |
//! ```

use vstd::prelude::*;

use crate::message::{type_code, type_from_code, MessageType};
use crate::wire::{be32, from_be32, get_u32, lemma_be32_inverse, lemma_be32_roundtrip, push_u32, push_u8, u32_be_bytes, WireError};

verus! {

/// Magic bytes identifying a HyperLink packet: `HLNK`.
pub const MAGIC: [u8; 4] = [0x48u8, 0x4Cu8, 0x4Eu8, 0x4Bu8];

/// Current protocol version; incremented on wire-incompatible changes.
pub const PROTOCOL_VERSION: u8 = 1;

/// Total size of the wire header in bytes.
pub const HEADER_SIZE: usize = 4 + 1 + 1 + 4;

/// The magic as a byte sequence.
pub open spec fn magic_bytes() -> Seq<u8> {
    seq![0x48u8, 0x4Cu8, 0x4Eu8, 0x4Bu8]
}

/// Fixed-size header prepended to every HyperLink message on the wire.
#[derive(Debug, Clone, Copy, PartialEq, Eq, Structural)]
pub struct Header {
    /// Protocol version byte.
    pub version: u8,
    /// Type of the message that follows.
    pub message_type: MessageType,
    /// Length of the payload in bytes (the header itself not included).
    pub payload_len: u32,
}

/// The ten wire bytes of a header.
pub open spec fn header_bytes(h: Header) -> Seq<u8> {
    magic_bytes() + seq![h.version, type_code(h.message_type)] + be32(h.payload_len)
}

/// What decoding the start of `b` as a header gives: too short, bad magic,
/// unknown type byte, or the header. Bytes after the first ten are ignored.
pub open spec fn decode_header_spec(b: Seq<u8>) -> Result<Header, WireError> {
    if b.len() < 10 {
        Err(WireError::UnexpectedEof { needed: 10, available: b.len() as usize })
    } else if b.subrange(0, 4) != magic_bytes() {
        Err(WireError::InvalidMagic { found: [b[0], b[1], b[2], b[3]] })
    } else {
        match type_from_code(b[5]) {
            Err(v) => Err(WireError::UnknownMessageType(v)),
            Ok(t) => Ok(Header { version: b[4], message_type: t, payload_len: from_be32(b.subrange(6, 10)) }),
        }
    }
}

impl Header {
    /// A header of the current protocol version for a message type and payload length.
    pub fn new(message_type: MessageType, payload_len: u32) -> (h: Header)
        ensures
            h.version == PROTOCOL_VERSION,
            h.message_type == message_type,
            h.payload_len == payload_len,
    {
        Header { version: PROTOCOL_VERSION, message_type, payload_len }
    }

    /// Appends the ten header bytes to `buf`; appending to a vector cannot fail.
    pub fn encode(&self, buf: &mut Vec<u8>) -> (r: Result<(), WireError>)
        ensures
            r is Ok,
            final(buf)@ == old(buf)@ + header_bytes(*self),
    {
        push_u8(buf, MAGIC[0]);
        push_u8(buf, MAGIC[1]);
        push_u8(buf, MAGIC[2]);
        push_u8(buf, MAGIC[3]);
        push_u8(buf, self.version);
        push_u8(buf, self.message_type.to_u8());
        push_u32(buf, self.payload_len);
        proof {
            assert(final(buf)@ =~= old(buf)@ + header_bytes(*self));
        }
        Ok(())
    }

    /// The header as a ten-byte array.
    pub fn to_bytes(&self) -> (r: [u8; HEADER_SIZE])
        ensures
            r@ == header_bytes(*self),
    {
        let len = u32_be_bytes(self.payload_len);
        let r = [
            MAGIC[0],
            MAGIC[1],
            MAGIC[2],
            MAGIC[3],
            self.version,
            self.message_type.to_u8(),
            len[0],
            len[1],
            len[2],
            len[3],
        ];
        assert(r@ =~= header_bytes(*self));
        r
    }

    /// Decodes a header from the start of `buf`.
    pub fn decode(buf: &[u8]) -> (r: Result<Header, WireError>)
        ensures
            r == decode_header_spec(buf@),
    {
        if buf.len() < HEADER_SIZE {
            return Err(WireError::UnexpectedEof { needed: HEADER_SIZE, available: buf.len() });
        }
        if buf[0] != MAGIC[0] || buf[1] != MAGIC[1] || buf[2] != MAGIC[2] || buf[3] != MAGIC[3] {
            proof {
                assert(buf@.subrange(0, 4) != magic_bytes()) by {
                    if buf@.subrange(0, 4) == magic_bytes() {
                        assert(buf@.subrange(0, 4)[0] == buf@[0]);
                        assert(buf@.subrange(0, 4)[1] == buf@[1]);
                        assert(buf@.subrange(0, 4)[2] == buf@[2]);
                        assert(buf@.subrange(0, 4)[3] == buf@[3]);
                    }
                }
            }
            return Err(WireError::InvalidMagic { found: [buf[0], buf[1], buf[2], buf[3]] });
        }
        assert(buf@.subrange(0, 4) =~= magic_bytes());
        let version = buf[4];
        let message_type = match MessageType::from_u8(buf[5]) {
            Ok(t) => t,
            Err(v) => {
                return Err(WireError::UnknownMessageType(v));
            },
        };
        let payload_len = get_u32(buf, 6);
        Ok(Header { version, message_type, payload_len })
    }
}

/// Decoding reads back what encoding wrote, whatever follows the header.
pub proof fn lemma_header_roundtrip(h: Header, rest: Seq<u8>)
    ensures
        header_bytes(h).len() == HEADER_SIZE,
        decode_header_spec(header_bytes(h) + rest) == Ok::<Header, WireError>(h),
{
    lemma_be32_roundtrip(h.payload_len);
    let b = header_bytes(h) + rest;
    assert(b.subrange(0, 4) =~= magic_bytes());
    assert(b.subrange(6, 10) =~= be32(h.payload_len));
    assert(b[5] == type_code(h.message_type));
}

/// A header is accepted only from the bytes that encode it: whenever decoding
/// succeeds, the first ten input bytes are exactly the encoding of the result.
pub proof fn lemma_header_decode_canonical(b: Seq<u8>)
    requires
        decode_header_spec(b) is Ok,
    ensures
        header_bytes(decode_header_spec(b)->Ok_0) == b.subrange(0, 10),
{
    let h = decode_header_spec(b)->Ok_0;
    lemma_be32_inverse(b.subrange(6, 10));
    assert(header_bytes(h) =~= b.subrange(0, 10));
}

/// Layout of the header on the wire: the magic `HLNK` at bytes 0..4, the
/// version at 4, the message type's byte at 5 and the payload length
/// big-endian at 6..10.
pub proof fn lemma_header_layout(h: Header)
    ensures
        header_bytes(h).len() == 10,
        header_bytes(h).subrange(0, 4) == seq![0x48u8, 0x4Cu8, 0x4Eu8, 0x4Bu8],
        header_bytes(h)[4] == h.version,
        header_bytes(h)[5] == type_code(h.message_type),
        header_bytes(h).subrange(6, 10) == be32(h.payload_len),
{
    assert(header_bytes(h).subrange(0, 4) =~= seq![0x48u8, 0x4Cu8, 0x4Eu8, 0x4Bu8]);
    assert(header_bytes(h).subrange(6, 10) =~= be32(h.payload_len));
}

} // verus!
