//! The control packets as values: what the session takes in and hands out.

use crate::auth::{Auth, AuthView};
use crate::error::Error;
use crate::header::PacketType;
use vstd::prelude::*;

verus! {

/// Quality of service: how hard the protocol tries to deliver a message.
#[derive(Debug, Clone, Copy, PartialEq, Eq, Structural)]
pub enum QoS {
    AtMostOnce,
    AtLeastOnce,
    ExactlyOnce,
}

impl QoS {
    /// The byte that stands for the level on the wire.
    pub open spec fn spec_byte(self) -> u8 {
        match self {
            QoS::AtMostOnce => 0,
            QoS::AtLeastOnce => 1,
            QoS::ExactlyOnce => 2,
        }
    }

    /// The level that a byte stands for, if it stands for one.
    pub open spec fn spec_from_byte(num: u8) -> Option<QoS> {
        if num == 0 {
            Some(QoS::AtMostOnce)
        } else if num == 1 {
            Some(QoS::AtLeastOnce)
        } else if num == 2 {
            Some(QoS::ExactlyOnce)
        } else {
            None
        }
    }

    /// The byte that stands for the level on the wire.
    pub fn byte(self) -> (num: u8)
        ensures
            num == self.spec_byte(),
    {
        match self {
            QoS::AtMostOnce => 0,
            QoS::AtLeastOnce => 1,
            QoS::ExactlyOnce => 2,
        }
    }
}

/// Maps a byte to a level of service. A byte that stands for none is refused.
pub fn qos(num: u8) -> (r: Result<QoS, Error>)
    ensures
        match r {
            Ok(level) => QoS::spec_from_byte(num) == Some(level),
            Err(e) => QoS::spec_from_byte(num) is None && e == Error::InvalidQoS(num),
        },
{
    match num {
        0 => Ok(QoS::AtMostOnce),
        1 => Ok(QoS::AtLeastOnce),
        2 => Ok(QoS::ExactlyOnce),
        qos => Err(Error::InvalidQoS(qos)),
    }
}

/// A byte is the byte of a level exactly when it stands for that level: bytes
/// above 2 stand for none.
pub proof fn lemma_qos_bytes(level: QoS, num: u8)
    ensures
        QoS::spec_from_byte(level.spec_byte()) == Some(level),
        QoS::spec_from_byte(num) == Some(level) <==> num == level.spec_byte(),
        num > 2 ==> QoS::spec_from_byte(num) is None,
{
}

/// A message as plain values.
pub struct MessageView {
    pub topic: Seq<char>,
    pub qos: QoS,
    pub payload: Seq<u8>,
    pub retain: bool,
}

/// What an application publishes, and what a last will holds.
#[derive(Debug, Clone, PartialEq, Eq)]
pub struct Message {
    pub topic: String,
    pub qos: QoS,
    pub payload: Vec<u8>,
    pub retain: bool,
}

impl View for Message {
    type V = MessageView;

    open spec fn view(&self) -> MessageView {
        MessageView {
            topic: self.topic@,
            qos: self.qos,
            payload: self.payload@,
            retain: self.retain,
        }
    }
}

impl Message {
    /// A message for `topic` with an empty payload, not retained.
    pub fn new(topic: String, qos: QoS) -> (message: Message)
        ensures
            message@ == (MessageView { topic: topic@, qos, payload: Seq::empty(), retain: false }),
    {
        Message { topic, qos, payload: Vec::new(), retain: false }
    }

    /// A copy of the message.
    pub fn duplicate(&self) -> (copy: Message)
        ensures
            copy@ == self@,
    {
        let payload = self.payload.clone();
        assert(payload@ =~= self.payload@);
        Message { topic: self.topic.clone(), qos: self.qos, payload, retain: self.retain }
    }
}

/// A PUBLISH packet as plain values.
pub struct PublishView {
    pub dup: bool,
    pub qos: QoS,
    pub retain: bool,
    pub topic: Seq<char>,
    pub pkid: Option<u16>,
    pub payload: Seq<u8>,
}

impl PublishView {
    /// A packet identifier is there exactly when the level of service asks for
    /// an acknowledgment, and it is not 0.
    pub open spec fn well_formed(self) -> bool {
        match self.pkid {
            None => self.qos == QoS::AtMostOnce,
            Some(pkid) => self.qos != QoS::AtMostOnce && pkid != 0,
        }
    }
}

/// A message on its way, in either direction.
#[derive(Debug, Clone, PartialEq, Eq)]
pub struct Publish {
    /// Set on a packet that is sent again.
    pub dup: bool,
    pub qos: QoS,
    pub retain: bool,
    pub topic: String,
    /// Present exactly when `qos` is above `AtMostOnce`.
    pub pkid: Option<u16>,
    pub payload: Vec<u8>,
}

impl View for Publish {
    type V = PublishView;

    open spec fn view(&self) -> PublishView {
        PublishView {
            dup: self.dup,
            qos: self.qos,
            retain: self.retain,
            topic: self.topic@,
            pkid: self.pkid,
            payload: self.payload@,
        }
    }
}

impl Publish {
    /// The packet that carries `message` for the first time.
    pub fn new(message: Message, pkid: Option<u16>) -> (publish: Publish)
        ensures
            publish@ == (PublishView {
                dup: false,
                qos: message.qos,
                retain: message.retain,
                topic: message.topic@,
                pkid,
                payload: message.payload@,
            }),
    {
        Publish {
            dup: false,
            qos: message.qos,
            retain: message.retain,
            topic: message.topic,
            pkid,
            payload: message.payload,
        }
    }

    /// A copy of the packet with the duplicate flag as given.
    pub fn duplicate(&self, dup: bool) -> (copy: Publish)
        ensures
            copy@ == (PublishView { dup, ..self@ }),
    {
        let payload = self.payload.clone();
        assert(payload@ =~= self.payload@);
        Publish {
            dup,
            qos: self.qos,
            retain: self.retain,
            topic: self.topic.clone(),
            pkid: self.pkid,
            payload,
        }
    }
}

/// A topic filter and the level of service that is asked for it.
#[derive(Debug, Clone, PartialEq, Eq)]
pub struct Filter {
    pub path: String,
    pub qos: QoS,
}

impl Filter {
    pub fn new(path: String, qos: QoS) -> (filter: Filter)
        ensures
            filter.path@ == path@,
            filter.qos == qos,
    {
        Filter { path, qos }
    }
}

/// A CONNECT packet as plain values.
pub struct ConnectView {
    pub client_id: Seq<char>,
    pub keep_alive: u16,
    pub clean_start: bool,
    pub last_will: Option<MessageView>,
}

/// The first packet of a connection.
#[derive(Debug, Clone, PartialEq, Eq)]
pub struct Connect {
    pub client_id: String,
    /// Seconds; 0 switches keep-alive off.
    pub keep_alive: u16,
    pub clean_start: bool,
    /// The message that the broker publishes if the connection breaks.
    pub last_will: Option<Message>,
}

/// The plain value of a message that may be absent.
pub open spec fn spec_message(message: Option<Message>) -> Option<MessageView> {
    match message {
        Some(message) => Some(message@),
        None => None,
    }
}

impl View for Connect {
    type V = ConnectView;

    open spec fn view(&self) -> ConnectView {
        ConnectView {
            client_id: self.client_id@,
            keep_alive: self.keep_alive,
            clean_start: self.clean_start,
            last_will: spec_message(self.last_will),
        }
    }
}

/// A SUBSCRIBE packet as plain values.
pub struct SubscribeView {
    pub pkid: u16,
    pub path: Seq<char>,
    pub qos: QoS,
}

/// A request for the messages that match a filter.
#[derive(Debug, Clone, PartialEq, Eq)]
pub struct Subscribe {
    pub pkid: u16,
    pub filter: Filter,
}

impl View for Subscribe {
    type V = SubscribeView;

    open spec fn view(&self) -> SubscribeView {
        SubscribeView { pkid: self.pkid, path: self.filter.path@, qos: self.filter.qos }
    }
}

/// A control packet as plain values.
pub enum PacketView {
    Connect(ConnectView),
    ConnAck { session_present: bool, code: u8 },
    Publish(PublishView),
    PubAck { pkid: u16 },
    PubRec { pkid: u16 },
    PubRel { pkid: u16 },
    PubComp { pkid: u16 },
    Subscribe(SubscribeView),
    SubAck { pkid: u16, return_codes: Seq<u8> },
    Unsubscribe { pkid: u16, path: Seq<char> },
    UnsubAck { pkid: u16 },
    PingReq,
    PingResp,
    Disconnect,
    Auth(AuthView),
}

/// A control packet: exactly one of the fifteen kinds, with the fields of its
/// kind.
#[derive(Debug, Clone, PartialEq, Eq)]
pub enum Packet {
    Connect(Connect),
    /// The broker's answer to CONNECT. A code below `0x80` accepts the
    /// connection.
    ConnAck { session_present: bool, code: u8 },
    Publish(Publish),
    PubAck { pkid: u16 },
    PubRec { pkid: u16 },
    PubRel { pkid: u16 },
    PubComp { pkid: u16 },
    Subscribe(Subscribe),
    /// One return code for each filter of the subscription.
    SubAck { pkid: u16, return_codes: Vec<u8> },
    Unsubscribe { pkid: u16, path: String },
    UnsubAck { pkid: u16 },
    PingReq,
    PingResp,
    Disconnect,
    Auth(Auth),
}

impl View for Packet {
    type V = PacketView;

    open spec fn view(&self) -> PacketView {
        match *self {
            Packet::Connect(connect) => PacketView::Connect(connect@),
            Packet::ConnAck { session_present, code } => PacketView::ConnAck {
                session_present,
                code,
            },
            Packet::Publish(publish) => PacketView::Publish(publish@),
            Packet::PubAck { pkid } => PacketView::PubAck { pkid },
            Packet::PubRec { pkid } => PacketView::PubRec { pkid },
            Packet::PubRel { pkid } => PacketView::PubRel { pkid },
            Packet::PubComp { pkid } => PacketView::PubComp { pkid },
            Packet::Subscribe(subscribe) => PacketView::Subscribe(subscribe@),
            Packet::SubAck { pkid, return_codes } => PacketView::SubAck {
                pkid,
                return_codes: return_codes@,
            },
            Packet::Unsubscribe { pkid, path } => PacketView::Unsubscribe { pkid, path: path@ },
            Packet::UnsubAck { pkid } => PacketView::UnsubAck { pkid },
            Packet::PingReq => PacketView::PingReq,
            Packet::PingResp => PacketView::PingResp,
            Packet::Disconnect => PacketView::Disconnect,
            Packet::Auth(auth) => PacketView::Auth(auth@),
        }
    }
}

impl PacketView {
    /// The kind of the packet.
    pub open spec fn packet_type(self) -> PacketType {
        match self {
            PacketView::Connect(_) => PacketType::Connect,
            PacketView::ConnAck { .. } => PacketType::ConnAck,
            PacketView::Publish(_) => PacketType::Publish,
            PacketView::PubAck { .. } => PacketType::PubAck,
            PacketView::PubRec { .. } => PacketType::PubRec,
            PacketView::PubRel { .. } => PacketType::PubRel,
            PacketView::PubComp { .. } => PacketType::PubComp,
            PacketView::Subscribe(_) => PacketType::Subscribe,
            PacketView::SubAck { .. } => PacketType::SubAck,
            PacketView::Unsubscribe { .. } => PacketType::Unsubscribe,
            PacketView::UnsubAck { .. } => PacketType::UnsubAck,
            PacketView::PingReq => PacketType::PingReq,
            PacketView::PingResp => PacketType::PingResp,
            PacketView::Disconnect => PacketType::Disconnect,
            PacketView::Auth(_) => PacketType::Auth,
        }
    }
}

impl Packet {
    /// The kind of the packet.
    pub fn packet_type(&self) -> (kind: PacketType)
        ensures
            kind == self@.packet_type(),
    {
        match self {
            Packet::Connect(_) => PacketType::Connect,
            Packet::ConnAck { .. } => PacketType::ConnAck,
            Packet::Publish(_) => PacketType::Publish,
            Packet::PubAck { .. } => PacketType::PubAck,
            Packet::PubRec { .. } => PacketType::PubRec,
            Packet::PubRel { .. } => PacketType::PubRel,
            Packet::PubComp { .. } => PacketType::PubComp,
            Packet::Subscribe(_) => PacketType::Subscribe,
            Packet::SubAck { .. } => PacketType::SubAck,
            Packet::Unsubscribe { .. } => PacketType::Unsubscribe,
            Packet::UnsubAck { .. } => PacketType::UnsubAck,
            Packet::PingReq => PacketType::PingReq,
            Packet::PingResp => PacketType::PingResp,
            Packet::Disconnect => PacketType::Disconnect,
            Packet::Auth(_) => PacketType::Auth,
        }
    }
}

} // verus!
