//! The core of an MQTT v5 client: the wire codec of the fixed header, of
//! variable-length integers, of length-prefixed fields and of the AUTH packet
//! with its properties, and the state machine of a session.
//!
//! The encoding rules are stated as functions on byte sequences, and every
//! encoder and decoder is proved against them. The session is a function from
//! state and event to the next state and the packets to write; it performs no
//! I/O and reads no clock.

pub mod auth;
pub mod buffers;
pub mod error;
pub mod fields;
pub mod header;
pub mod options;
pub mod packet;
pub mod property;
pub mod round_trip;
pub mod session;
pub mod session_laws;
pub mod varint;

pub use auth::{Auth, AuthProperties, AuthReasonCode};
pub use error::Error;
pub use header::{FixedHeader, PacketType};
pub use options::MqttOptions;
pub use packet::{Filter, Message, Packet, Publish, QoS};
pub use session::{ConnectionEvent, ConnectionState, Session};
