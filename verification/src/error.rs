use vstd::prelude::*;

verus! {

/// Why a packet could not be framed, decoded or encoded, or why a session could
/// not do what was asked of it.
#[derive(Debug, Clone, Copy, PartialEq, Eq)]
pub enum Error {
    /// A string or byte field announces more bytes than the buffer still holds.
    /// Carries the announced length.
    BoundaryCrossed(usize),
    /// The broker refused the connection. Carries the reason code of its answer.
    ConnectionRefused(u8),
    /// More bytes are needed before the value can be framed. Carries the least
    /// number of further bytes that is known to be missing.
    InsufficientBytes(usize),
    /// The high four bits of a control byte name no packet type. Carries them.
    InvalidPacketType(u8),
    /// The byte stands for no level of service. Carries it.
    InvalidQoS(u8),
    /// The property identifier is unknown, or not allowed in this packet.
    InvalidPropertyType(u8),
    /// A PINGREQ went unanswered for a whole keep-alive interval: the connection
    /// is dead.
    KeepAliveTimeout,
    /// The bytes break the structure of the packet.
    MalformedPacket,
    /// Every packet identifier awaits an acknowledgment: none is free for another
    /// packet.
    PacketIdsExhausted,
    /// The body is longer than a remaining length can announce.
    PayloadTooLong,
    /// A string field does not hold well-formed UTF-8.
    TopicNotUtf8,
    /// The packet identifier awaits no acknowledgment.
    UnknownPacketId,
}

} // verus!
