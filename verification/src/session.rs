//! The state of a session: where the connection stands, which packet
//! identifiers await an acknowledgment, and when traffic last went either way.
//!
//! The session performs no I/O and reads no clock. Each operation takes the
//! current time in seconds and says which packets are to be written; whoever
//! drives the connection writes them and hands in what arrives.

use crate::error::Error;
use crate::options::{MqttOptions, MqttOptionsView};
use crate::packet::{
    Connect, ConnectView, Filter, Message, MessageView, Packet, PacketView, Publish, PublishView,
    QoS, Subscribe, SubscribeView,
};
use crate::session_laws::{
    lemma_ack_well_formed, lemma_connection_well_formed, lemma_found_after_push,
    lemma_found_after_remove, lemma_incoming_well_formed, lemma_keys_push, lemma_keys_remove,
    lemma_publish_well_formed, lemma_subscribe_well_formed,
};
use vstd::prelude::*;

verus! {

/// The largest packet identifier. Identifiers run from 1 to this.
pub const MAX_PKID: u16 = 65_535;

/// Where the connection stands.
#[derive(Debug, Clone, Copy, PartialEq, Eq, Structural)]
pub enum ConnectionState {
    Disconnected,
    Connecting,
    Connected,
    Disconnecting,
}

/// What moves a connection from one state to another.
#[derive(Debug, Clone, Copy, PartialEq, Eq, Structural)]
pub enum ConnectionEvent {
    /// The application asks for a connection.
    ConnectRequest,
    /// The broker accepted the connection.
    ConnAckAccepted,
    /// The broker refused the connection.
    ConnAckRefused,
    /// The application asks to disconnect.
    DisconnectRequest,
    /// The stream could not be decoded.
    CodecError,
    /// The transport is closed.
    TransportClosed,
}

impl ConnectionState {
    /// The state after `event`. A closed transport disconnects from every
    /// state. A connect request starts connecting from `Disconnected`; the
    /// broker's answer ends it, in `Connected` or back in `Disconnected`; a
    /// disconnect request or a codec error takes `Connected` to
    /// `Disconnecting`. Every other event leaves the state as it is.
    pub open spec fn spec_next(self, event: ConnectionEvent) -> ConnectionState {
        match (self, event) {
            (_, ConnectionEvent::TransportClosed) => ConnectionState::Disconnected,
            (ConnectionState::Disconnected, ConnectionEvent::ConnectRequest) => {
                ConnectionState::Connecting
            },
            (ConnectionState::Connecting, ConnectionEvent::ConnAckAccepted) => {
                ConnectionState::Connected
            },
            (ConnectionState::Connecting, ConnectionEvent::ConnAckRefused) => {
                ConnectionState::Disconnected
            },
            (ConnectionState::Connected, ConnectionEvent::DisconnectRequest) => {
                ConnectionState::Disconnecting
            },
            (ConnectionState::Connected, ConnectionEvent::CodecError) => {
                ConnectionState::Disconnecting
            },
            _ => self,
        }
    }

    /// The state after `event`.
    pub fn next(self, event: ConnectionEvent) -> (state: ConnectionState)
        ensures
            state == self.spec_next(event),
    {
        match (self, event) {
            (_, ConnectionEvent::TransportClosed) => ConnectionState::Disconnected,
            (ConnectionState::Disconnected, ConnectionEvent::ConnectRequest) => {
                ConnectionState::Connecting
            },
            (ConnectionState::Connecting, ConnectionEvent::ConnAckAccepted) => {
                ConnectionState::Connected
            },
            (ConnectionState::Connecting, ConnectionEvent::ConnAckRefused) => {
                ConnectionState::Disconnected
            },
            (ConnectionState::Connected, ConnectionEvent::DisconnectRequest) => {
                ConnectionState::Disconnecting
            },
            (ConnectionState::Connected, ConnectionEvent::CodecError) => {
                ConnectionState::Disconnecting
            },
            _ => self,
        }
    }
}

/// The keys of a list of entries, in order.
pub open spec fn spec_keys<T>(entries: Seq<(u16, T)>) -> Seq<u16> {
    Seq::new(entries.len(), |i: int| entries[i].0)
}

/// The first place at which `key` stands in `keys`, if it stands there at all.
pub open spec fn spec_index_of(keys: Seq<u16>, key: u16) -> Option<int>
    decreases keys.len(),
{
    if keys.len() == 0 {
        None
    } else if keys[0] == key {
        Some(0)
    } else {
        match spec_index_of(keys.drop_first(), key) {
            Some(i) => Some(i + 1),
            None => None,
        }
    }
}

/// What `spec_index_of` finds: the place of the key before which the key does
/// not stand, or nothing when the key stands nowhere.
pub proof fn lemma_index_of(keys: Seq<u16>, key: u16)
    ensures
        match spec_index_of(keys, key) {
            Some(i) => 0 <= i < keys.len() && keys[i] == key && forall|j: int|
                0 <= j < i ==> keys[j] != key,
            None => forall|j: int| 0 <= j < keys.len() ==> keys[j] != key,
        },
    decreases keys.len(),
{
    if keys.len() > 0 && keys[0] != key {
        let rest = keys.drop_first();
        lemma_index_of(rest, key);
        match spec_index_of(rest, key) {
            Some(i) => {
                assert forall|j: int| 0 <= j < i + 1 implies keys[j] != key by {
                    if j > 0 {
                        assert(keys[j] == rest[j - 1]);
                    }
                }
            },
            None => {
                assert forall|j: int| 0 <= j < keys.len() implies keys[j] != key by {
                    if j > 0 {
                        assert(keys[j] == rest[j - 1]);
                    }
                }
            },
        }
    }
}

/// The first place of a key is what `spec_index_of` finds.
pub proof fn lemma_index_of_first(keys: Seq<u16>, key: u16, place: int)
    requires
        0 <= place < keys.len(),
        keys[place] == key,
        forall|j: int| 0 <= j < place ==> keys[j] != key,
    ensures
        spec_index_of(keys, key) == Some(place),
    decreases keys.len(),
{
    if place > 0 {
        let rest = keys.drop_first();
        assert forall|j: int| 0 <= j < place - 1 implies rest[j] != key by {
            assert(rest[j] == keys[j + 1]);
        }
        lemma_index_of_first(rest, key, place - 1);
    }
}

/// The packet identifier after `pkid`. It wraps from the largest to 1: no
/// packet has the identifier 0.
pub open spec fn spec_successor(pkid: u16) -> u16 {
    if pkid == MAX_PKID {
        1
    } else {
        (pkid + 1) as u16
    }
}

/// What a pending entry holds, as plain values.
pub enum PendingAckView {
    Publish(PublishView),
    PubRec,
}

/// What stands behind a packet identifier that awaits an acknowledgment.
#[derive(Debug, Clone, PartialEq, Eq)]
pub enum PendingAck {
    /// A publish that awaits its PUBACK or PUBREC. It is sent again, marked as
    /// a duplicate, when the connection is made anew.
    Publish(Publish),
    /// The PUBREC has arrived and the PUBREL is out: what is awaited is the
    /// PUBCOMP.
    PubRec,
}

impl View for PendingAck {
    type V = PendingAckView;

    open spec fn view(&self) -> PendingAckView {
        match *self {
            PendingAck::Publish(publish) => PendingAckView::Publish(publish@),
            PendingAck::PubRec => PendingAckView::PubRec,
        }
    }
}

/// The PUBLISH that carries `message` for the first time.
pub open spec fn spec_first_publish(message: MessageView, pkid: Option<u16>) -> PublishView {
    PublishView {
        dup: false,
        qos: message.qos,
        retain: message.retain,
        topic: message.topic,
        pkid,
        payload: message.payload,
    }
}

/// The state of a session as plain values.
pub struct SessionView {
    pub state: ConnectionState,
    /// Where the search for a free packet identifier starts.
    pub next_pkid: u16,
    /// What was sent and awaits an acknowledgment, by packet identifier, in the
    /// order in which it was accepted.
    pub pending: Seq<(u16, PendingAckView)>,
    /// The packet identifiers of the subscriptions that await their SUBACK.
    pub subscribes: Seq<u16>,
    /// The publishes that came in and await the application's acknowledgment,
    /// each with its level of service.
    pub unacked: Seq<(u16, QoS)>,
    /// When a packet was last handed out to be written.
    pub last_outgoing: u64,
    /// When the last PINGREQ was handed out.
    pub last_ping: u64,
    /// Whether a PINGREQ is out that nothing has answered.
    pub await_pingresp: bool,
    pub options: MqttOptionsView,
}

impl SessionView {
    /// Whether `pkid` awaits an acknowledgment from the broker.
    pub open spec fn in_use(self, pkid: u16) -> bool {
        spec_index_of(spec_keys(self.pending), pkid) is Some || spec_index_of(
            self.subscribes,
            pkid,
        ) is Some
    }

    /// The first packet identifier that is not in use among `tries`
    /// identifiers from `candidate` onwards.
    pub open spec fn first_free(self, candidate: u16, tries: nat) -> Option<u16>
        decreases tries,
    {
        if tries == 0 {
            None
        } else if !self.in_use(candidate) {
            Some(candidate)
        } else {
            self.first_free(spec_successor(candidate), (tries - 1) as nat)
        }
    }

    /// The packet identifier that the next packet gets: the first one from
    /// `next_pkid` onwards, wrapping round, that awaits no acknowledgment.
    /// There is none when every identifier does.
    pub open spec fn fresh_pkid(self) -> Option<u16> {
        self.first_free(self.next_pkid, MAX_PKID as nat)
    }

    /// What holds of every session: no packet identifier is 0, none awaits two
    /// acknowledgments, and a pending publish carries the identifier that it
    /// is kept under.
    pub open spec fn well_formed(self) -> bool {
        &&& self.next_pkid != 0
        &&& spec_keys(self.pending).no_duplicates()
        &&& self.subscribes.no_duplicates()
        &&& spec_keys(self.unacked).no_duplicates()
        &&& forall|i: int| 0 <= i < self.pending.len() ==> (#[trigger] self.pending[i]).0 != 0
        &&& forall|i: int| 0 <= i < self.subscribes.len() ==> #[trigger] self.subscribes[i] != 0
        &&& forall|i: int, j: int|
            0 <= i < self.pending.len() && 0 <= j < self.subscribes.len() ==> (
            #[trigger] self.pending[i]).0 != #[trigger] self.subscribes[j]
        &&& forall|i: int|
            0 <= i < self.pending.len() ==> (match (#[trigger] self.pending[i]).1 {
                PendingAckView::Publish(publish) => publish.pkid == Some(self.pending[i].0)
                    && publish.qos != QoS::AtMostOnce,
                PendingAckView::PubRec => true,
            })
    }

    /// A new session for a connection with `options`.
    pub open spec fn new(options: MqttOptionsView) -> SessionView {
        SessionView {
            state: ConnectionState::Disconnected,
            next_pkid: 1,
            pending: Seq::empty(),
            subscribes: Seq::empty(),
            unacked: Seq::empty(),
            last_outgoing: 0,
            last_ping: 0,
            await_pingresp: false,
            options,
        }
    }

    /// Publishing `message` at the time `now`: the session afterwards and the
    /// packet to write. A message that asks for no acknowledgment goes out
    /// without a packet identifier and leaves no trace. Any other gets a fresh
    /// identifier and is kept under it until it is acknowledged. When no
    /// identifier is free the message is refused and nothing changes.
    pub open spec fn publish(self, message: MessageView, now: u64) -> (
        SessionView,
        Result<PublishView, Error>,
    ) {
        if message.qos == QoS::AtMostOnce {
            (SessionView { last_outgoing: now, ..self }, Ok(spec_first_publish(message, None)))
        } else {
            match self.fresh_pkid() {
                None => (self, Err(Error::PacketIdsExhausted)),
                Some(pkid) => {
                    let publish = spec_first_publish(message, Some(pkid));
                    (
                        SessionView {
                            next_pkid: spec_successor(pkid),
                            pending: self.pending.push((pkid, PendingAckView::Publish(publish))),
                            last_outgoing: now,
                            ..self
                        },
                        Ok(publish),
                    )
                },
            }
        }
    }

    /// Subscribing to the filter `path` at the time `now`: the session
    /// afterwards and the packet to write. The subscription gets a fresh
    /// packet identifier, which awaits the SUBACK. When no identifier is free
    /// the subscription is refused and nothing changes.
    pub open spec fn subscribe(self, path: Seq<char>, qos: QoS, now: u64) -> (
        SessionView,
        Result<SubscribeView, Error>,
    ) {
        match self.fresh_pkid() {
            None => (self, Err(Error::PacketIdsExhausted)),
            Some(pkid) => (
                SessionView {
                    next_pkid: spec_successor(pkid),
                    subscribes: self.subscribes.push(pkid),
                    last_outgoing: now,
                    ..self
                },
                Ok(SubscribeView { pkid, path, qos }),
            ),
        }
    }

    /// Acknowledging the incoming `publish` at the time `now`: the session
    /// afterwards and the packet to write. A publish that awaits the
    /// application's acknowledgment is answered with a PUBREC if it came in
    /// as `ExactlyOnce` and with a PUBACK otherwise, and awaits it no longer.
    /// Any other publish is unknown, and nothing changes.
    pub open spec fn ack(self, publish: PublishView, now: u64) -> (
        SessionView,
        Result<PacketView, Error>,
    ) {
        match publish.pkid {
            None => (self, Err(Error::UnknownPacketId)),
            Some(pkid) => match spec_index_of(spec_keys(self.unacked), pkid) {
                None => (self, Err(Error::UnknownPacketId)),
                Some(i) => (
                    SessionView { unacked: self.unacked.remove(i), last_outgoing: now, ..self },
                    Ok(spec_acknowledgment(pkid, self.unacked[i].1)),
                ),
            },
        }
    }

    /// Asking for a connection at the time `now`: the session afterwards and
    /// the CONNECT to write. Only a disconnected session connects. With a
    /// clean start it forgets what was pending; without, it keeps it.
    pub open spec fn connect(self, now: u64) -> (SessionView, Option<ConnectView>) {
        if self.state != ConnectionState::Disconnected {
            (self, None)
        } else {
            let kept = if self.options.clean_start {
                SessionView {
                    pending: Seq::empty(),
                    subscribes: Seq::empty(),
                    unacked: Seq::empty(),
                    ..self
                }
            } else {
                self
            };
            (
                SessionView {
                    state: self.state.spec_next(ConnectionEvent::ConnectRequest),
                    last_outgoing: now,
                    await_pingresp: false,
                    ..kept
                },
                Some(
                    ConnectView {
                        client_id: self.options.client_id,
                        keep_alive: self.options.keep_alive,
                        clean_start: self.options.clean_start,
                        last_will: self.options.last_will,
                    },
                ),
            )
        }
    }

    /// Asking to disconnect at the time `now`: the session afterwards and the
    /// packet to write, which is a DISCONNECT when the session is connected and
    /// nothing otherwise.
    pub open spec fn disconnect(self, now: u64) -> (SessionView, Option<PacketView>) {
        if self.state == ConnectionState::Connected {
            (
                SessionView {
                    state: self.state.spec_next(ConnectionEvent::DisconnectRequest),
                    last_outgoing: now,
                    ..self
                },
                Some(PacketView::Disconnect),
            )
        } else {
            (self, None)
        }
    }

    /// What happens to the connection: the session afterwards. Nothing but the
    /// state changes; what is pending stays.
    pub open spec fn connection_event(self, event: ConnectionEvent) -> SessionView {
        SessionView { state: self.state.spec_next(event), ..self }
    }

    /// Keeping the connection alive at the time `now`: the session afterwards
    /// and the packet to write. Nothing happens unless the session is connected
    /// and has a keep-alive interval. A PINGREQ goes out once nothing has been
    /// written for an interval. If nothing has come in one interval after the
    /// PINGREQ went out, which is two intervals after traffic stopped, the
    /// connection is dead.
    pub open spec fn tick(self, now: u64) -> (SessionView, Result<Option<PacketView>, Error>) {
        if self.state != ConnectionState::Connected || self.options.keep_alive == 0 {
            (self, Ok(None))
        } else if self.await_pingresp {
            if spec_elapsed(now, self.last_ping) >= self.options.keep_alive {
                (
                    SessionView {
                        state: ConnectionState::Disconnected,
                        await_pingresp: false,
                        ..self
                    },
                    Err(Error::KeepAliveTimeout),
                )
            } else {
                (self, Ok(None))
            }
        } else if spec_elapsed(now, self.last_outgoing) >= self.options.keep_alive {
            (
                SessionView { last_outgoing: now, last_ping: now, await_pingresp: true, ..self },
                Ok(Some(PacketView::PingReq)),
            )
        } else {
            (self, Ok(None))
        }
    }

    /// The packets that are owed again on a new connection, in the order in
    /// which they were first accepted: each pending publish, marked as a
    /// duplicate, and a PUBREL for each exchange that awaits its PUBCOMP.
    pub open spec fn resend(self) -> Seq<PacketView> {
        Seq::new(
            self.pending.len(),
            |i: int|
                match self.pending[i].1 {
                    PendingAckView::Publish(publish) => PacketView::Publish(
                        PublishView { dup: true, ..publish },
                    ),
                    PendingAckView::PubRec => PacketView::PubRel { pkid: self.pending[i].0 },
                },
        )
    }

    /// The broker's answer to CONNECT, with `code`. It matters only while
    /// connecting. A code below `0x80` accepts: the session is connected and
    /// what is pending is sent again. Any other code refuses.
    pub open spec fn handle_connack(self, code: u8, now: u64) -> (
        SessionView,
        Result<Seq<PacketView>, Error>,
    ) {
        if self.state != ConnectionState::Connecting {
            (self, Ok(Seq::empty()))
        } else if code < 0x80 {
            (
                SessionView {
                    state: self.state.spec_next(ConnectionEvent::ConnAckAccepted),
                    last_outgoing: if self.pending.len() > 0 {
                        now
                    } else {
                        self.last_outgoing
                    },
                    ..self
                },
                Ok(self.resend()),
            )
        } else {
            (
                SessionView {
                    state: self.state.spec_next(ConnectionEvent::ConnAckRefused),
                    ..self
                },
                Err(Error::ConnectionRefused(code)),
            )
        }
    }

    /// A publish that comes in. One without a packet identifier asks for
    /// nothing. Any other is acknowledged at once, unless the application
    /// acknowledges by itself: then it awaits that. A publish whose packet
    /// identifier does not go with its level of service is malformed.
    pub open spec fn handle_publish(self, publish: PublishView, now: u64) -> (
        SessionView,
        Result<Seq<PacketView>, Error>,
    ) {
        if !publish.well_formed() {
            (self, Err(Error::MalformedPacket))
        } else {
            match publish.pkid {
                None => (self, Ok(Seq::empty())),
                Some(pkid) => if self.options.manual_acks {
                    (
                        if spec_index_of(spec_keys(self.unacked), pkid) is Some {
                            self
                        } else {
                            SessionView { unacked: self.unacked.push((pkid, publish.qos)), ..self }
                        },
                        Ok(Seq::empty()),
                    )
                } else {
                    (
                        SessionView { last_outgoing: now, ..self },
                        Ok(seq![spec_acknowledgment(pkid, publish.qos)]),
                    )
                },
            }
        }
    }

    /// A PUBACK that comes in: the `AtLeastOnce` publish that it names is
    /// pending no longer. One that names nothing of the kind changes nothing.
    pub open spec fn handle_puback(self, pkid: u16) -> SessionView {
        match spec_index_of(spec_keys(self.pending), pkid) {
            Some(i) => match self.pending[i].1 {
                PendingAckView::Publish(publish) => if publish.qos == QoS::AtLeastOnce {
                    SessionView { pending: self.pending.remove(i), ..self }
                } else {
                    self
                },
                PendingAckView::PubRec => self,
            },
            None => self,
        }
    }

    /// A PUBREC that comes in: the `ExactlyOnce` publish that it names is
    /// released with a PUBREL, and its identifier awaits the PUBCOMP. One that
    /// names nothing of the kind changes nothing.
    pub open spec fn handle_pubrec(self, pkid: u16, now: u64) -> (
        SessionView,
        Result<Seq<PacketView>, Error>,
    ) {
        match spec_index_of(spec_keys(self.pending), pkid) {
            Some(i) => match self.pending[i].1 {
                PendingAckView::Publish(publish) => if publish.qos == QoS::ExactlyOnce {
                    (
                        SessionView {
                            pending: self.pending.update(i, (pkid, PendingAckView::PubRec)),
                            last_outgoing: now,
                            ..self
                        },
                        Ok(seq![PacketView::PubRel { pkid }]),
                    )
                } else {
                    (self, Ok(Seq::empty()))
                },
                PendingAckView::PubRec => (self, Ok(Seq::empty())),
            },
            None => (self, Ok(Seq::empty())),
        }
    }

    /// A PUBCOMP that comes in: the exchange that it names is over. One that
    /// names nothing of the kind changes nothing.
    pub open spec fn handle_pubcomp(self, pkid: u16) -> SessionView {
        match spec_index_of(spec_keys(self.pending), pkid) {
            Some(i) => match self.pending[i].1 {
                PendingAckView::Publish(_) => self,
                PendingAckView::PubRec => SessionView { pending: self.pending.remove(i), ..self },
            },
            None => self,
        }
    }

    /// A SUBACK that comes in: the subscription that it names awaits nothing
    /// more. One that names none changes nothing.
    pub open spec fn handle_suback(self, pkid: u16) -> SessionView {
        match spec_index_of(self.subscribes, pkid) {
            Some(i) => SessionView { subscribes: self.subscribes.remove(i), ..self },
            None => self,
        }
    }

    /// A packet that comes in at the time `now`: the session afterwards and
    /// the packets to write in answer. Whatever comes in answers an
    /// outstanding PINGREQ. Acknowledgments that name nothing pending are
    /// passed over; so are the kinds of packet that a broker does not send.
    pub open spec fn handle_incoming(self, packet: PacketView, now: u64) -> (
        SessionView,
        Result<Seq<PacketView>, Error>,
    ) {
        let heard = SessionView { await_pingresp: false, ..self };
        match packet {
            PacketView::ConnAck { session_present, code } => heard.handle_connack(code, now),
            PacketView::Publish(publish) => heard.handle_publish(publish, now),
            PacketView::PubAck { pkid } => (heard.handle_puback(pkid), Ok(Seq::empty())),
            PacketView::PubRec { pkid } => heard.handle_pubrec(pkid, now),
            PacketView::PubRel { pkid } => (
                SessionView { last_outgoing: now, ..heard },
                Ok(seq![PacketView::PubComp { pkid }]),
            ),
            PacketView::PubComp { pkid } => (heard.handle_pubcomp(pkid), Ok(Seq::empty())),
            PacketView::SubAck { pkid, return_codes } => (
                heard.handle_suback(pkid),
                Ok(Seq::empty()),
            ),
            _ => (heard, Ok(Seq::empty())),
        }
    }
}

/// The seconds from `then` to `now`, and none if `now` is the earlier.
pub open spec fn spec_elapsed(now: u64, then: u64) -> nat {
    if now >= then {
        (now - then) as nat
    } else {
        0
    }
}

/// The acknowledgment of an incoming publish: a PUBREC for `ExactlyOnce`, a
/// PUBACK otherwise.
pub open spec fn spec_acknowledgment(pkid: u16, qos: QoS) -> PacketView {
    if qos == QoS::ExactlyOnce {
        PacketView::PubRec { pkid }
    } else {
        PacketView::PubAck { pkid }
    }
}

/// The plain values of a list of pending entries.
pub open spec fn spec_pending(entries: Seq<(u16, PendingAck)>) -> Seq<(u16, PendingAckView)> {
    Seq::new(entries.len(), |i: int| (entries[i].0, entries[i].1@))
}

/// The session of one client: the state machine that stands between the
/// application's requests and the packets of a connection.
pub struct Session {
    options: MqttOptions,
    state: ConnectionState,
    next_pkid: u16,
    pending: Vec<(u16, PendingAck)>,
    subscribes: Vec<u16>,
    unacked: Vec<(u16, QoS)>,
    last_outgoing: u64,
    last_ping: u64,
    await_pingresp: bool,
    /// For each packet identifier, whether it awaits an acknowledgment from the
    /// broker.
    in_use: Vec<bool>,
}

impl View for Session {
    type V = SessionView;

    closed spec fn view(&self) -> SessionView {
        SessionView {
            state: self.state,
            next_pkid: self.next_pkid,
            pending: spec_pending(self.pending@),
            subscribes: self.subscribes@,
            unacked: self.unacked@,
            last_outgoing: self.last_outgoing,
            last_ping: self.last_ping,
            await_pingresp: self.await_pingresp,
            options: self.options@,
        }
    }
}

/// Finds the first place at which `key` stands in `keys`.
fn find_pkid(keys: &Vec<u16>, key: u16) -> (r: Option<usize>)
    ensures
        match r {
            Some(i) => i < keys@.len() && spec_index_of(keys@, key) == Some(i as int),
            None => spec_index_of(keys@, key) is None,
        },
{
    let mut i: usize = 0;
    while i < keys.len()
        invariant
            i <= keys@.len(),
            forall|j: int| 0 <= j < i ==> keys@[j] != key,
        decreases keys@.len() - i,
    {
        if keys[i] == key {
            proof {
                lemma_index_of_first(keys@, key, i as int);
            }
            return Some(i);
        }
        i += 1;
    }
    proof {
        lemma_index_of(keys@, key);
    }
    None
}

/// Finds the first entry that stands under `key`.
fn find_unacked(entries: &Vec<(u16, QoS)>, key: u16) -> (r: Option<usize>)
    ensures
        match r {
            Some(i) => i < entries@.len() && spec_index_of(spec_keys(entries@), key) == Some(
                i as int,
            ),
            None => spec_index_of(spec_keys(entries@), key) is None,
        },
{
    let ghost keys = spec_keys(entries@);
    let mut i: usize = 0;
    while i < entries.len()
        invariant
            i <= entries@.len(),
            keys == spec_keys(entries@),
            forall|j: int| 0 <= j < i ==> keys[j] != key,
        decreases entries@.len() - i,
    {
        if entries[i].0 == key {
            proof {
                lemma_index_of_first(keys, key, i as int);
            }
            return Some(i);
        }
        i += 1;
    }
    proof {
        lemma_index_of(keys, key);
    }
    None
}

/// Finds the first pending entry that stands under `key`.
fn find_pending(entries: &Vec<(u16, PendingAck)>, key: u16) -> (r: Option<usize>)
    ensures
        match r {
            Some(i) => i < entries@.len() && spec_index_of(
                spec_keys(spec_pending(entries@)),
                key,
            ) == Some(i as int),
            None => spec_index_of(spec_keys(spec_pending(entries@)), key) is None,
        },
{
    let ghost keys = spec_keys(spec_pending(entries@));
    let mut i: usize = 0;
    while i < entries.len()
        invariant
            i <= entries@.len(),
            keys == spec_keys(spec_pending(entries@)),
            forall|j: int| 0 <= j < i ==> keys[j] != key,
        decreases entries@.len() - i,
    {
        if entries[i].0 == key {
            proof {
                lemma_index_of_first(keys, key, i as int);
            }
            return Some(i);
        }
        i += 1;
    }
    proof {
        lemma_index_of(keys, key);
    }
    None
}

impl Session {
    /// What holds of every session between two operations: its state is well
    /// formed, and it knows of each packet identifier whether it is in use.
    pub closed spec fn inv(&self) -> bool {
        &&& self@.well_formed()
        &&& self.tracks_in_use()
    }

    /// Whether the session knows of each packet identifier whether it is in
    /// use.
    spec fn tracks_in_use(&self) -> bool {
        &&& self.in_use@.len() == MAX_PKID + 1
        &&& forall|pkid: u16| #[trigger] self.in_use@[pkid as int] == self@.in_use(pkid)
    }

    /// The state of a session between two operations is well formed.
    pub proof fn lemma_inv(&self)
        requires
            self.inv(),
        ensures
            self@.well_formed(),
    {
    }

    /// A new session for a connection with `options`: disconnected, with
    /// nothing pending, and 1 as the first packet identifier.
    pub fn new(options: MqttOptions) -> (session: Session)
        ensures
            session@ == SessionView::new(options@),
            session.inv(),
    {
        let session = Session {
            options,
            state: ConnectionState::Disconnected,
            next_pkid: 1,
            pending: Vec::new(),
            subscribes: Vec::new(),
            unacked: Vec::new(),
            last_outgoing: 0,
            last_ping: 0,
            await_pingresp: false,
            in_use: vec![false; 65_536],
        };
        proof {
            assert(session@.pending =~= Seq::empty());
            assert(spec_keys(session@.pending) =~= Seq::empty());
            assert(spec_keys(session@.unacked) =~= Seq::empty());
        }
        session
    }

    /// Whether `pkid` awaits an acknowledgment from the broker.
    fn pkid_in_use(&self, pkid: u16) -> (in_use: bool)
        requires
            self.inv(),
        ensures
            in_use == self@.in_use(pkid),
    {
        self.in_use[pkid as usize]
    }

    /// The packet identifier that the next packet gets, if one is free.
    fn fresh_pkid(&self) -> (r: Option<u16>)
        requires
            self.inv(),
        ensures
            r == self@.fresh_pkid(),
            r matches Some(pkid) ==> pkid != 0 && !self@.in_use(pkid),
    {
        let mut candidate: u16 = self.next_pkid;
        let mut tries: u16 = 0;
        while tries < MAX_PKID
            invariant
                self.inv(),
                candidate != 0,
                tries <= MAX_PKID,
                self@.first_free(candidate, (MAX_PKID - tries) as nat) == self@.fresh_pkid(),
            decreases MAX_PKID - tries,
        {
            if !self.pkid_in_use(candidate) {
                return Some(candidate);
            }
            candidate = if candidate == MAX_PKID {
                1
            } else {
                candidate + 1
            };
            tries += 1;
        }
        None
    }

    /// Where the connection stands.
    pub fn state(&self) -> (state: ConnectionState)
        ensures
            state == self@.state,
    {
        self.state
    }

    /// How many packets were sent and await an acknowledgment.
    pub fn pending_count(&self) -> (count: usize)
        ensures
            count == self@.pending.len(),
    {
        self.pending.len()
    }

    /// Whether something was sent under `pkid` that awaits an acknowledgment.
    pub fn is_pending(&self, pkid: u16) -> (pending: bool)
        ensures
            pending == (spec_index_of(spec_keys(self@.pending), pkid) is Some),
    {
        find_pending(&self.pending, pkid).is_some()
    }

    /// The packet identifiers that await an acknowledgment, in the order in
    /// which their packets were accepted.
    pub fn pending_pkids(&self) -> (pkids: Vec<u16>)
        ensures
            pkids@ == spec_keys(self@.pending),
    {
        let mut pkids: Vec<u16> = Vec::new();
        let mut i: usize = 0;
        while i < self.pending.len()
            invariant
                i <= self.pending@.len(),
                pkids@ == spec_keys(self@.pending).take(i as int),
            decreases self.pending@.len() - i,
        {
            pkids.push(self.pending[i].0);
            assert(pkids@ =~= spec_keys(self@.pending).take(i + 1));
            i += 1;
        }
        assert(pkids@ =~= spec_keys(self@.pending));
        pkids
    }

    /// Whether the subscription sent under `pkid` awaits its SUBACK.
    pub fn awaits_suback(&self, pkid: u16) -> (awaited: bool)
        ensures
            awaited == (spec_index_of(self@.subscribes, pkid) is Some),
    {
        find_pkid(&self.subscribes, pkid).is_some()
    }

    /// How many publishes came in and await the application's acknowledgment.
    pub fn unacked_count(&self) -> (count: usize)
        ensures
            count == self@.unacked.len(),
    {
        self.unacked.len()
    }

    /// Whether the publish that came in under `pkid` awaits the application's
    /// acknowledgment.
    pub fn is_unacked(&self, pkid: u16) -> (unacked: bool)
        ensures
            unacked == (spec_index_of(spec_keys(self@.unacked), pkid) is Some),
    {
        find_unacked(&self.unacked, pkid).is_some()
    }

    /// Publishes `message` at the time `now` and returns the packet to write.
    pub fn publish(&mut self, message: Message, now: u64) -> (r: Result<Publish, Error>)
        requires
            old(self).inv(),
        ensures
            final(self).inv(),
            match r {
                Ok(publish) => old(self)@.publish(message@, now) == (
                    final(self)@,
                    Ok::<PublishView, Error>(publish@),
                ),
                Err(e) => old(self)@.publish(message@, now) == (
                    final(self)@,
                    Err::<PublishView, Error>(e),
                ),
            },
    {
        proof {
            lemma_publish_well_formed(self@, message@, now);
        }
        if message.qos == QoS::AtMostOnce {
            self.last_outgoing = now;
            return Ok(Publish::new(message, None));
        }
        let pkid = match self.fresh_pkid() {
            Some(pkid) => pkid,
            None => { return Err(Error::PacketIdsExhausted); },
        };
        let publish = Publish::new(message, Some(pkid));
        let copy = publish.duplicate(false);
        self.pending.push((pkid, PendingAck::Publish(copy)));
        self.in_use[pkid as usize] = true;
        self.next_pkid = if pkid == MAX_PKID {
            1
        } else {
            pkid + 1
        };
        self.last_outgoing = now;
        proof {
            let before = old(self)@.pending;
            let entry = (pkid, PendingAckView::Publish(publish@));
            assert(self@.pending =~= before.push(entry));
            lemma_keys_push(before, entry);
            assert forall|key: u16| #[trigger] self.in_use@[key as int] == self@.in_use(key) by {
                lemma_found_after_push(spec_keys(before), pkid, key);
            }
        }
        Ok(publish)
    }

    /// Subscribes to `filter` at the time `now` and returns the packet to write.
    pub fn subscribe(&mut self, filter: Filter, now: u64) -> (r: Result<Subscribe, Error>)
        requires
            old(self).inv(),
        ensures
            final(self).inv(),
            match r {
                Ok(subscribe) => old(self)@.subscribe(filter.path@, filter.qos, now) == (
                    final(self)@,
                    Ok::<SubscribeView, Error>(subscribe@),
                ),
                Err(e) => old(self)@.subscribe(filter.path@, filter.qos, now) == (
                    final(self)@,
                    Err::<SubscribeView, Error>(e),
                ),
            },
    {
        proof {
            lemma_subscribe_well_formed(self@, filter.path@, filter.qos, now);
        }
        let pkid = match self.fresh_pkid() {
            Some(pkid) => pkid,
            None => { return Err(Error::PacketIdsExhausted); },
        };
        self.subscribes.push(pkid);
        self.in_use[pkid as usize] = true;
        self.next_pkid = if pkid == MAX_PKID {
            1
        } else {
            pkid + 1
        };
        self.last_outgoing = now;
        proof {
            assert forall|key: u16| #[trigger] self.in_use@[key as int] == self@.in_use(key) by {
                lemma_found_after_push(old(self)@.subscribes, pkid, key);
            }
        }
        Ok(Subscribe { pkid, filter })
    }

    /// Acknowledges the incoming `publish` at the time `now` and returns the
    /// packet to write. This is for sessions whose application acknowledges by
    /// itself; in any other no publish awaits an acknowledgment.
    pub fn ack(&mut self, publish: &Publish, now: u64) -> (r: Result<Packet, Error>)
        requires
            old(self).inv(),
        ensures
            final(self).inv(),
            match r {
                Ok(packet) => old(self)@.ack(publish@, now) == (
                    final(self)@,
                    Ok::<PacketView, Error>(packet@),
                ),
                Err(e) => old(self)@.ack(publish@, now) == (
                    final(self)@,
                    Err::<PacketView, Error>(e),
                ),
            },
    {
        proof {
            lemma_ack_well_formed(self@, publish@, now);
        }
        let pkid = match publish.pkid {
            Some(pkid) => pkid,
            None => { return Err(Error::UnknownPacketId); },
        };
        let place = match find_unacked(&self.unacked, pkid) {
            Some(place) => place,
            None => { return Err(Error::UnknownPacketId); },
        };
        let (_, qos) = self.unacked.remove(place);
        self.last_outgoing = now;
        Ok(acknowledgment(pkid, qos))
    }

    /// Asks for a connection at the time `now` and returns the CONNECT to
    /// write, if the session is disconnected.
    pub fn connect(&mut self, now: u64) -> (r: Option<Connect>)
        requires
            old(self).inv(),
        ensures
            final(self).inv(),
            match r {
                Some(connect) => old(self)@.connect(now) == (final(self)@, Some(connect@)),
                None => old(self)@.connect(now) == (final(self)@, None::<ConnectView>),
            },
    {
        proof {
            lemma_connection_well_formed(self@, ConnectionEvent::ConnectRequest, now);
        }
        if self.state != ConnectionState::Disconnected {
            return None;
        }
        if self.options.clean_start() {
            self.pending.clear();
            self.subscribes.clear();
            self.unacked.clear();
            self.in_use = vec![false; 65_536];
            assert(spec_pending(self.pending@) =~= Seq::empty());
            assert(spec_keys(self@.pending) =~= Seq::empty());
        }
        self.state = self.state.next(ConnectionEvent::ConnectRequest);
        self.last_outgoing = now;
        self.await_pingresp = false;
        Some(
            Connect {
                client_id: self.options.client_id(),
                keep_alive: self.options.keep_alive(),
                clean_start: self.options.clean_start(),
                last_will: self.options.last_will(),
            },
        )
    }

    /// Asks to disconnect at the time `now` and returns the DISCONNECT to
    /// write, if the session is connected.
    pub fn disconnect(&mut self, now: u64) -> (r: Option<Packet>)
        requires
            old(self).inv(),
        ensures
            final(self).inv(),
            match r {
                Some(packet) => old(self)@.disconnect(now) == (final(self)@, Some(packet@)),
                None => old(self)@.disconnect(now) == (final(self)@, None::<PacketView>),
            },
    {
        proof {
            lemma_connection_well_formed(self@, ConnectionEvent::DisconnectRequest, now);
        }
        if self.state == ConnectionState::Connected {
            self.state = self.state.next(ConnectionEvent::DisconnectRequest);
            self.last_outgoing = now;
            Some(Packet::Disconnect)
        } else {
            None
        }
    }

    /// Takes note of what happened to the connection: the transport closed,
    /// the stream could not be decoded.
    pub fn connection_event(&mut self, event: ConnectionEvent)
        requires
            old(self).inv(),
        ensures
            final(self).inv(),
            final(self)@ == old(self)@.connection_event(event),
    {
        proof {
            lemma_connection_well_formed(self@, event, 0);
        }
        self.state = self.state.next(event);
    }

    /// Keeps the connection alive at the time `now`: returns the PINGREQ to
    /// write when one is due, and fails when the connection is dead.
    pub fn tick(&mut self, now: u64) -> (r: Result<Option<Packet>, Error>)
        requires
            old(self).inv(),
        ensures
            final(self).inv(),
            match r {
                Ok(Some(packet)) => old(self)@.tick(now) == (
                    final(self)@,
                    Ok::<Option<PacketView>, Error>(Some(packet@)),
                ),
                Ok(None) => old(self)@.tick(now) == (
                    final(self)@,
                    Ok::<Option<PacketView>, Error>(None),
                ),
                Err(e) => old(self)@.tick(now) == (
                    final(self)@,
                    Err::<Option<PacketView>, Error>(e),
                ),
            },
    {
        proof {
            lemma_connection_well_formed(self@, ConnectionEvent::TransportClosed, now);
        }
        let keep_alive = self.options.keep_alive() as u64;
        if self.state != ConnectionState::Connected || keep_alive == 0 {
            return Ok(None);
        }
        if self.await_pingresp {
            if elapsed(now, self.last_ping) >= keep_alive {
                self.state = ConnectionState::Disconnected;
                self.await_pingresp = false;
                return Err(Error::KeepAliveTimeout);
            }
            return Ok(None);
        }
        if elapsed(now, self.last_outgoing) >= keep_alive {
            self.last_outgoing = now;
            self.last_ping = now;
            self.await_pingresp = true;
            return Ok(Some(Packet::PingReq));
        }
        Ok(None)
    }

    /// The packets that are owed again on a new connection.
    fn resend(&self) -> (packets: Vec<Packet>)
        ensures
            spec_packets(packets@) == self@.resend(),
    {
        let mut packets: Vec<Packet> = Vec::new();
        let mut i: usize = 0;
        while i < self.pending.len()
            invariant
                i <= self.pending@.len(),
                spec_packets(packets@) == self@.resend().take(i as int),
            decreases self.pending@.len() - i,
        {
            let pkid = self.pending[i].0;
            let packet = match &self.pending[i].1 {
                PendingAck::Publish(publish) => Packet::Publish(publish.duplicate(true)),
                PendingAck::PubRec => Packet::PubRel { pkid },
            };
            proof {
                let entry = self.pending@[i as int];
                assert(self@.pending[i as int] == (entry.0, entry.1@));
                assert(packet@ == self@.resend()[i as int]);
            }
            let ghost before = packets@;
            packets.push(packet);
            assert(spec_packets(packets@) =~= spec_packets(before).push(packet@));
            assert(spec_packets(packets@) =~= self@.resend().take(i + 1));
            i += 1;
        }
        assert(spec_packets(packets@) =~= self@.resend());
        packets
    }

    /// Takes in the broker's answer to CONNECT.
    fn on_connack(&mut self, code: u8, now: u64) -> (r: Result<Vec<Packet>, Error>)
        requires
            old(self).tracks_in_use(),
        ensures
            final(self).tracks_in_use(),
            match r {
                Ok(replies) => old(self)@.handle_connack(code, now) == (
                    final(self)@,
                    Ok::<Seq<PacketView>, Error>(spec_packets(replies@)),
                ),
                Err(e) => old(self)@.handle_connack(code, now) == (
                    final(self)@,
                    Err::<Seq<PacketView>, Error>(e),
                ),
            },
    {
        if self.state != ConnectionState::Connecting {
            let none: Vec<Packet> = Vec::new();
            assert(spec_packets(none@) =~= Seq::empty());
            return Ok(none);
        }
        if code < 0x80 {
            let replies = self.resend();
            self.state = self.state.next(ConnectionEvent::ConnAckAccepted);
            if self.pending.len() > 0 {
                self.last_outgoing = now;
            }
            Ok(replies)
        } else {
            self.state = self.state.next(ConnectionEvent::ConnAckRefused);
            Err(Error::ConnectionRefused(code))
        }
    }

    /// Takes in a publish.
    fn on_publish(&mut self, publish: &Publish, now: u64) -> (r: Result<Vec<Packet>, Error>)
        requires
            old(self).tracks_in_use(),
        ensures
            final(self).tracks_in_use(),
            match r {
                Ok(replies) => old(self)@.handle_publish(publish@, now) == (
                    final(self)@,
                    Ok::<Seq<PacketView>, Error>(spec_packets(replies@)),
                ),
                Err(e) => old(self)@.handle_publish(publish@, now) == (
                    final(self)@,
                    Err::<Seq<PacketView>, Error>(e),
                ),
            },
    {
        let mut replies: Vec<Packet> = Vec::new();
        assert(spec_packets(replies@) =~= Seq::empty());
        let pkid = match publish.pkid {
            None => {
                if publish.qos != QoS::AtMostOnce {
                    return Err(Error::MalformedPacket);
                }
                return Ok(replies);
            },
            Some(pkid) => pkid,
        };
        if publish.qos == QoS::AtMostOnce || pkid == 0 {
            return Err(Error::MalformedPacket);
        }
        if self.options.manual_acks() {
            if find_unacked(&self.unacked, pkid).is_none() {
                self.unacked.push((pkid, publish.qos));
            }
        } else {
            self.last_outgoing = now;
            replies.push(acknowledgment(pkid, publish.qos));
            assert(spec_packets(replies@) =~= seq![spec_acknowledgment(pkid, publish.qos)]);
        }
        Ok(replies)
    }

    /// Takes in a PUBACK.
    fn on_puback(&mut self, pkid: u16)
        requires
            old(self).inv(),
        ensures
            final(self).tracks_in_use(),
            final(self)@ == old(self)@.handle_puback(pkid),
    {
        if let Some(place) = find_pending(&self.pending, pkid) {
            let acknowledged = match &self.pending[place].1 {
                PendingAck::Publish(publish) => publish.qos == QoS::AtLeastOnce,
                PendingAck::PubRec => false,
            };
            if acknowledged {
                self.remove_pending(place);
            }
        }
    }

    /// Takes out the pending entry at `place`: its packet identifier is in use
    /// no longer.
    fn remove_pending(&mut self, place: usize)
        requires
            old(self).inv(),
            place < old(self)@.pending.len(),
        ensures
            final(self).tracks_in_use(),
            final(self)@ == (SessionView {
                pending: old(self)@.pending.remove(place as int),
                ..old(self)@
            }),
    {
        let pkid = self.pending[place].0;
        self.pending.remove(place);
        self.in_use[pkid as usize] = false;
        proof {
            let before = old(self)@;
            assert(before.pending[place as int].0 == pkid);
            assert(self@.pending =~= before.pending.remove(place as int));
            lemma_keys_remove(before.pending, place as int);
            lemma_index_of(before.subscribes, pkid);
            assert forall|key: u16| #[trigger] self.in_use@[key as int] == self@.in_use(key) by {
                lemma_found_after_remove(spec_keys(before.pending), place as int, key);
            }
        }
    }

    /// Takes in a PUBREC.
    fn on_pubrec(&mut self, pkid: u16, now: u64) -> (replies: Vec<Packet>)
        requires
            old(self).tracks_in_use(),
        ensures
            final(self).tracks_in_use(),
            old(self)@.handle_pubrec(pkid, now) == (
                final(self)@,
                Ok::<Seq<PacketView>, Error>(spec_packets(replies@)),
            ),
    {
        let mut replies: Vec<Packet> = Vec::new();
        assert(spec_packets(replies@) =~= Seq::empty());
        if let Some(place) = find_pending(&self.pending, pkid) {
            let received = match &self.pending[place].1 {
                PendingAck::Publish(publish) => publish.qos == QoS::ExactlyOnce,
                PendingAck::PubRec => false,
            };
            if received {
                self.pending[place] = (pkid, PendingAck::PubRec);
                self.last_outgoing = now;
                replies.push(Packet::PubRel { pkid });
                assert(spec_pending(self.pending@) =~= old(self)@.pending.update(
                    place as int,
                    (pkid, PendingAckView::PubRec),
                ));
                proof {
                    lemma_index_of(spec_keys(old(self)@.pending), pkid);
                    assert(spec_keys(self@.pending) =~= spec_keys(old(self)@.pending));
                }
                assert(spec_packets(replies@) =~= seq![PacketView::PubRel { pkid }]);
            }
        }
        replies
    }

    /// Takes in a PUBCOMP.
    fn on_pubcomp(&mut self, pkid: u16)
        requires
            old(self).inv(),
        ensures
            final(self).tracks_in_use(),
            final(self)@ == old(self)@.handle_pubcomp(pkid),
    {
        if let Some(place) = find_pending(&self.pending, pkid) {
            let completed = match &self.pending[place].1 {
                PendingAck::Publish(_) => false,
                PendingAck::PubRec => true,
            };
            if completed {
                self.remove_pending(place);
            }
        }
    }

    /// Takes in a SUBACK.
    fn on_suback(&mut self, pkid: u16)
        requires
            old(self).inv(),
        ensures
            final(self).tracks_in_use(),
            final(self)@ == old(self)@.handle_suback(pkid),
    {
        if let Some(place) = find_pkid(&self.subscribes, pkid) {
            self.subscribes.remove(place);
            self.in_use[pkid as usize] = false;
            proof {
                let before = old(self)@;
                let keys = spec_keys(before.pending);
                lemma_index_of(before.subscribes, pkid);
                lemma_index_of(keys, pkid);
                if let Some(i) = spec_index_of(keys, pkid) {
                    assert(before.pending[i].0 == before.subscribes[place as int]);
                }
                assert forall|key: u16| #[trigger]
                    self.in_use@[key as int] == self@.in_use(key) by {
                    lemma_found_after_remove(before.subscribes, place as int, key);
                }
            }
        }
    }

    /// Takes in a packet that arrived at the time `now` and returns the
    /// packets to write in answer, in order.
    pub fn handle_incoming(&mut self, packet: &Packet, now: u64) -> (r: Result<Vec<Packet>, Error>)
        requires
            old(self).inv(),
        ensures
            final(self).inv(),
            match r {
                Ok(replies) => old(self)@.handle_incoming(packet@, now) == (
                    final(self)@,
                    Ok::<Seq<PacketView>, Error>(spec_packets(replies@)),
                ),
                Err(e) => old(self)@.handle_incoming(packet@, now) == (
                    final(self)@,
                    Err::<Seq<PacketView>, Error>(e),
                ),
            },
    {
        proof {
            lemma_incoming_well_formed(self@, packet@, now);
        }
        self.await_pingresp = false;
        let none: Vec<Packet> = Vec::new();
        assert(spec_packets(none@) =~= Seq::empty());
        match packet {
            Packet::ConnAck { session_present: _, code } => self.on_connack(*code, now),
            Packet::Publish(publish) => self.on_publish(publish, now),
            Packet::PubAck { pkid } => {
                self.on_puback(*pkid);
                Ok(none)
            },
            Packet::PubRec { pkid } => Ok(self.on_pubrec(*pkid, now)),
            Packet::PubRel { pkid } => {
                self.last_outgoing = now;
                let mut replies = none;
                replies.push(Packet::PubComp { pkid: *pkid });
                assert(spec_packets(replies@) =~= seq![PacketView::PubComp { pkid: *pkid }]);
                Ok(replies)
            },
            Packet::PubComp { pkid } => {
                self.on_pubcomp(*pkid);
                Ok(none)
            },
            Packet::SubAck { pkid, return_codes: _ } => {
                self.on_suback(*pkid);
                Ok(none)
            },
            _ => Ok(none),
        }
    }
}

/// The plain values of a list of packets.
pub open spec fn spec_packets(packets: Seq<Packet>) -> Seq<PacketView> {
    Seq::new(packets.len(), |i: int| packets[i]@)
}

/// The seconds from `then` to `now`, and none if `now` is the earlier.
fn elapsed(now: u64, then: u64) -> (seconds: u64)
    ensures
        seconds == spec_elapsed(now, then),
{
    if now >= then {
        now - then
    } else {
        0
    }
}

/// The acknowledgment of an incoming publish.
fn acknowledgment(pkid: u16, qos: QoS) -> (packet: Packet)
    ensures
        packet@ == spec_acknowledgment(pkid, qos),
{
    match qos {
        QoS::ExactlyOnce => Packet::PubRec { pkid },
        _ => Packet::PubAck { pkid },
    }
}

} // verus!
