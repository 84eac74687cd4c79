//! The fixed header that every packet starts with: one control byte, whose high
//! four bits name the packet type and whose low four bits are flags, and the
//! remaining length, which counts every byte of the packet that follows it.

use crate::error::Error;
use crate::varint::{length, spec_decode_length, MAX_REMAINING_LENGTH};
use vstd::prelude::*;
use vstd::slice::slice_subrange;

verus! {

/// The kinds of control packet.
#[derive(Debug, Clone, Copy, PartialEq, Eq)]
pub enum PacketType {
    Connect,
    ConnAck,
    Publish,
    PubAck,
    PubRec,
    PubRel,
    PubComp,
    Subscribe,
    SubAck,
    Unsubscribe,
    UnsubAck,
    PingReq,
    PingResp,
    Disconnect,
    Auth,
}

/// The packet type that the high four bits of a control byte name. No packet
/// type has the number 0.
pub open spec fn spec_packet_type(byte1: u8) -> Option<PacketType> {
    match byte1 / 16 {
        1 => Some(PacketType::Connect),
        2 => Some(PacketType::ConnAck),
        3 => Some(PacketType::Publish),
        4 => Some(PacketType::PubAck),
        5 => Some(PacketType::PubRec),
        6 => Some(PacketType::PubRel),
        7 => Some(PacketType::PubComp),
        8 => Some(PacketType::Subscribe),
        9 => Some(PacketType::SubAck),
        10 => Some(PacketType::Unsubscribe),
        11 => Some(PacketType::UnsubAck),
        12 => Some(PacketType::PingReq),
        13 => Some(PacketType::PingResp),
        14 => Some(PacketType::Disconnect),
        15 => Some(PacketType::Auth),
        _ => None,
    }
}

/// Whether the four flag bits of a control byte are what a packet of type
/// `kind` has to carry. PUBLISH carries its level of service in them, which is
/// never 3; PUBREL, SUBSCRIBE and UNSUBSCRIBE carry the bits `0010`; every other
/// packet carries none.
pub open spec fn spec_flags_allowed(kind: PacketType, flags: u8) -> bool {
    match kind {
        PacketType::Publish => flags / 2 % 4 != 3,
        PacketType::PubRel | PacketType::Subscribe | PacketType::Unsubscribe => flags == 2,
        _ => flags == 0,
    }
}

/// What the start of a packet says about the whole of it.
#[derive(Debug, Clone, Copy, PartialEq, Eq)]
pub struct FixedHeader {
    /// The control byte: packet type and flags.
    pub byte1: u8,
    /// The length of the fixed header, which is where the variable header
    /// begins: the control byte and the one to four bytes of the remaining
    /// length.
    pub fixed_header_len: usize,
    /// The number of bytes that follow the fixed header.
    pub remaining_len: usize,
}

/// The fixed header at the front of `stream`. Fewer than two bytes cannot hold
/// one.
pub open spec fn spec_parse_fixed_header(stream: Seq<u8>) -> Result<FixedHeader, Error> {
    if stream.len() < 2 {
        Err(Error::InsufficientBytes((2 - stream.len()) as usize))
    } else {
        match spec_decode_length(stream.skip(1)) {
            Err(e) => Err(e),
            Ok((count, value)) => Ok(
                FixedHeader {
                    byte1: stream[0],
                    fixed_header_len: (count + 1) as usize,
                    remaining_len: value as usize,
                },
            ),
        }
    }
}

/// The fixed header at the front of `stream`, provided that the stream holds the
/// whole packet; else the number of bytes that are missing.
pub open spec fn spec_check(stream: Seq<u8>) -> Result<FixedHeader, Error> {
    match spec_parse_fixed_header(stream) {
        Err(e) => Err(e),
        Ok(header) => if stream.len() < header.spec_frame_length() {
            Err(Error::InsufficientBytes((header.spec_frame_length() - stream.len()) as usize))
        } else {
            Ok(header)
        },
    }
}

impl FixedHeader {
    /// A header as a parser leaves it: the remaining length took one to four
    /// bytes and is a value that they can announce.
    pub open spec fn well_formed(self) -> bool {
        &&& 2 <= self.fixed_header_len <= 5
        &&& self.remaining_len <= MAX_REMAINING_LENGTH
    }

    /// The length of the whole packet.
    pub open spec fn spec_frame_length(self) -> nat {
        (self.fixed_header_len + self.remaining_len) as nat
    }

    /// The header of a packet whose remaining length took `remaining_len_len`
    /// bytes to announce.
    pub fn new(byte1: u8, remaining_len_len: usize, remaining_len: usize) -> (header: FixedHeader)
        requires
            remaining_len_len < usize::MAX,
        ensures
            header == (FixedHeader {
                byte1,
                fixed_header_len: (remaining_len_len + 1) as usize,
                remaining_len,
            }),
    {
        FixedHeader { byte1, fixed_header_len: remaining_len_len + 1, remaining_len }
    }

    /// The packet type that the control byte names.
    pub fn packet_type(&self) -> (r: Result<PacketType, Error>)
        ensures
            match r {
                Ok(kind) => spec_packet_type(self.byte1) == Some(kind),
                Err(e) => spec_packet_type(self.byte1) is None && e == Error::InvalidPacketType(
                    self.byte1 / 16,
                ),
            },
    {
        let byte1 = self.byte1;
        let num = byte1 >> 4;
        proof {
            assert(byte1 >> 4 == byte1 / 16) by (bit_vector);
        }
        match num {
            1 => Ok(PacketType::Connect),
            2 => Ok(PacketType::ConnAck),
            3 => Ok(PacketType::Publish),
            4 => Ok(PacketType::PubAck),
            5 => Ok(PacketType::PubRec),
            6 => Ok(PacketType::PubRel),
            7 => Ok(PacketType::PubComp),
            8 => Ok(PacketType::Subscribe),
            9 => Ok(PacketType::SubAck),
            10 => Ok(PacketType::Unsubscribe),
            11 => Ok(PacketType::UnsubAck),
            12 => Ok(PacketType::PingReq),
            13 => Ok(PacketType::PingResp),
            14 => Ok(PacketType::Disconnect),
            15 => Ok(PacketType::Auth),
            _ => Err(Error::InvalidPacketType(num)),
        }
    }

    /// The packet type that the control byte names, provided that it carries
    /// the flags of that type: the decoder to hand the packet to. Flags that do
    /// not go with the type make the packet malformed.
    pub fn checked_packet_type(&self) -> (r: Result<PacketType, Error>)
        ensures
            match r {
                Ok(kind) => spec_packet_type(self.byte1) == Some(kind) && spec_flags_allowed(
                    kind,
                    self.byte1 % 16,
                ),
                Err(e) => match spec_packet_type(self.byte1) {
                    None => e == Error::InvalidPacketType(self.byte1 / 16),
                    Some(kind) => !spec_flags_allowed(kind, self.byte1 % 16) && e
                        == Error::MalformedPacket,
                },
            },
    {
        let kind = match self.packet_type() {
            Ok(kind) => kind,
            Err(e) => { return Err(e); },
        };
        let flags = self.flags();
        let allowed = match kind {
            PacketType::Publish => {
                proof {
                    assert((flags >> 1) & 3 == flags / 2 % 4) by (bit_vector);
                }
                (flags >> 1) & 3 != 3
            },
            PacketType::PubRel | PacketType::Subscribe | PacketType::Unsubscribe => flags == 2,
            _ => flags == 0,
        };
        if allowed {
            Ok(kind)
        } else {
            Err(Error::MalformedPacket)
        }
    }

    /// The four flag bits of the control byte.
    pub fn flags(&self) -> (bits: u8)
        ensures
            bits == self.byte1 % 16,
    {
        let byte1 = self.byte1;
        proof {
            assert(byte1 & 0x0F == byte1 % 16) by (bit_vector);
        }
        byte1 & 0x0F
    }

    /// The length of the whole packet: fixed header, variable header and
    /// payload.
    pub fn frame_length(&self) -> (len: usize)
        requires
            self.spec_frame_length() <= usize::MAX,
        ensures
            len == self.spec_frame_length(),
    {
        self.fixed_header_len + self.remaining_len
    }
}

/// Reads the fixed header at the front of `stream`.
pub fn parse_fixed_header(stream: &[u8]) -> (r: Result<FixedHeader, Error>)
    ensures
        r == spec_parse_fixed_header(stream@),
        r matches Ok(header) ==> header.well_formed() && header.fixed_header_len <= stream@.len(),
{
    let stream_len = stream.len();
    if stream_len < 2 {
        return Err(Error::InsufficientBytes(2 - stream_len));
    }
    let byte1 = stream[0];
    let rest = slice_subrange(stream, 1, stream_len);
    assert(rest@ =~= stream@.skip(1));
    match length(rest) {
        Ok((len_len, len)) => Ok(FixedHeader::new(byte1, len_len, len)),
        Err(e) => Err(e),
    }
}

/// Reads the fixed header at the front of `stream` and makes sure that the
/// stream holds the whole packet. When it does not, the error carries the number
/// of bytes that are missing.
pub fn check(stream: &[u8]) -> (r: Result<FixedHeader, Error>)
    ensures
        r == spec_check(stream@),
        r matches Ok(header) ==> header.well_formed() && header.spec_frame_length()
            <= stream@.len(),
{
    let stream_len = stream.len();
    let fixed_header = match parse_fixed_header(stream) {
        Ok(header) => header,
        Err(e) => { return Err(e); },
    };
    let frame_length = fixed_header.frame_length();
    if stream_len < frame_length {
        return Err(Error::InsufficientBytes(frame_length - stream_len));
    }
    Ok(fixed_header)
}

} // verus!
