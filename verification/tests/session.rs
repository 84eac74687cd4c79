use mqtt_core::options::MqttOptions;
use mqtt_core::packet::{Filter, Message, Packet, Publish, QoS};
use mqtt_core::session::{ConnectionEvent, ConnectionState, Session};
use mqtt_core::Error;

fn options() -> MqttOptions {
    let mut options = MqttOptions::new("test-1".to_string(), "localhost".to_string(), 1884);
    options.set_keep_alive(5);
    options
}

fn connected(options: MqttOptions) -> Session {
    let mut session = Session::new(options);
    assert!(session.connect(0).is_some());
    let replies = session
        .handle_incoming(&Packet::ConnAck { session_present: false, code: 0 }, 0)
        .unwrap();
    assert!(replies.is_empty());
    assert_eq!(session.state(), ConnectionState::Connected);
    session
}

fn message(qos: QoS, payload_len: usize) -> Message {
    Message {
        topic: "hello/world".to_string(),
        qos,
        payload: vec![1; payload_len],
        retain: false,
    }
}

fn incoming(qos: QoS, pkid: Option<u16>) -> Publish {
    Publish {
        dup: false,
        qos,
        retain: false,
        topic: "hello/world".to_string(),
        pkid,
        payload: vec![1, 2, 3],
    }
}

#[test]
fn manual_ack_keeps_publish_until_acked_once() {
    let mut options = options();
    options.set_manual_acks(true);
    options.set_clean_start(false);
    let mut session = connected(options);

    let publish = incoming(QoS::AtLeastOnce, Some(7));
    let replies = session.handle_incoming(&Packet::Publish(publish.clone()), 1).unwrap();
    assert!(replies.is_empty());
    // no ack yet: the identifier stays
    assert!(session.is_unacked(7));
    assert_eq!(session.unacked_count(), 1);

    // one ack removes it
    assert_eq!(session.ack(&publish, 2), Ok(Packet::PubAck { pkid: 7 }));
    assert!(!session.is_unacked(7));
    assert_eq!(session.unacked_count(), 0);

    // a second ack fails, and the session goes on
    assert_eq!(session.ack(&publish, 3), Err(Error::UnknownPacketId));
    assert_eq!(session.state(), ConnectionState::Connected);
}

#[test]
fn manual_ack_of_exactly_once_is_a_pubrec() {
    let mut options = options();
    options.set_manual_acks(true);
    let mut session = connected(options);
    let publish = incoming(QoS::ExactlyOnce, Some(9));
    assert_eq!(session.handle_incoming(&Packet::Publish(publish.clone()), 1), Ok(vec![]));
    // a repeated delivery is kept once
    assert_eq!(session.handle_incoming(&Packet::Publish(publish.clone()), 1), Ok(vec![]));
    assert_eq!(session.unacked_count(), 1);
    assert_eq!(session.ack(&publish, 2), Ok(Packet::PubRec { pkid: 9 }));
    assert_eq!(
        session.handle_incoming(&Packet::PubRel { pkid: 9 }, 3),
        Ok(vec![Packet::PubComp { pkid: 9 }])
    );
}

#[test]
fn ack_of_unknown_publish_fails() {
    let mut options = options();
    options.set_manual_acks(true);
    let mut session = connected(options);
    assert_eq!(session.ack(&incoming(QoS::AtLeastOnce, Some(3)), 1), Err(Error::UnknownPacketId));
    assert_eq!(session.ack(&incoming(QoS::AtMostOnce, None), 1), Err(Error::UnknownPacketId));
}

#[test]
fn automatic_ack_answers_at_once() {
    let mut session = connected(options());
    assert_eq!(
        session.handle_incoming(&Packet::Publish(incoming(QoS::AtLeastOnce, Some(4))), 1),
        Ok(vec![Packet::PubAck { pkid: 4 }])
    );
    assert_eq!(
        session.handle_incoming(&Packet::Publish(incoming(QoS::ExactlyOnce, Some(5))), 1),
        Ok(vec![Packet::PubRec { pkid: 5 }])
    );
    assert_eq!(
        session.handle_incoming(&Packet::Publish(incoming(QoS::AtMostOnce, None)), 1),
        Ok(vec![])
    );
    assert_eq!(session.unacked_count(), 0);
    // nothing awaits the application
    assert_eq!(session.ack(&incoming(QoS::AtLeastOnce, Some(4)), 2), Err(Error::UnknownPacketId));
}

#[test]
fn incoming_publish_with_wrong_identifier_is_malformed() {
    let mut session = connected(options());
    for publish in [
        incoming(QoS::AtLeastOnce, None),
        incoming(QoS::ExactlyOnce, None),
        incoming(QoS::AtMostOnce, Some(1)),
        incoming(QoS::AtLeastOnce, Some(0)),
    ] {
        assert_eq!(
            session.handle_incoming(&Packet::Publish(publish), 1),
            Err(Error::MalformedPacket)
        );
    }
}

#[test]
fn ten_publishes_get_ten_increasing_pkids() {
    let mut session = connected(options());
    let mut pkids = Vec::new();
    for i in 1..=10usize {
        let publish = session.publish(message(QoS::AtLeastOnce, i), i as u64).unwrap();
        assert_eq!(publish.payload.len(), i);
        assert_eq!(publish.qos, QoS::AtLeastOnce);
        assert!(!publish.dup);
        pkids.push(publish.pkid.unwrap());
    }
    assert_eq!(pkids, vec![1, 2, 3, 4, 5, 6, 7, 8, 9, 10]);
    assert_eq!(session.pending_count(), 10);
    assert_eq!(session.pending_pkids(), pkids);
    for pkid in pkids {
        assert!(session.is_pending(pkid));
    }
    assert!(!session.is_pending(11));
}

#[test]
fn at_most_once_publish_leaves_no_trace() {
    let mut session = connected(options());
    let publish = session.publish(message(QoS::AtMostOnce, 3), 1).unwrap();
    assert_eq!(publish.pkid, None);
    assert_eq!(publish.topic, "hello/world");
    assert_eq!(publish.payload, vec![1, 1, 1]);
    assert_eq!(session.pending_count(), 0);
    // the next publish that needs one gets the first identifier
    assert_eq!(session.publish(message(QoS::ExactlyOnce, 1), 1).unwrap().pkid, Some(1));
}

#[test]
fn puback_clears_the_entry_and_unknown_acks_are_passed_over() {
    let mut session = connected(options());
    session.publish(message(QoS::AtLeastOnce, 1), 1).unwrap();
    session.publish(message(QoS::AtLeastOnce, 1), 1).unwrap();
    assert_eq!(session.handle_incoming(&Packet::PubAck { pkid: 1 }, 2), Ok(vec![]));
    assert_eq!(session.pending_pkids(), vec![2]);
    // again, and for an identifier that was never used
    assert_eq!(session.handle_incoming(&Packet::PubAck { pkid: 1 }, 2), Ok(vec![]));
    assert_eq!(session.handle_incoming(&Packet::PubAck { pkid: 77 }, 2), Ok(vec![]));
    assert_eq!(session.handle_incoming(&Packet::PubComp { pkid: 2 }, 2), Ok(vec![]));
    assert_eq!(session.handle_incoming(&Packet::PubRec { pkid: 2 }, 2), Ok(vec![]));
    assert_eq!(session.pending_pkids(), vec![2]);
    assert_eq!(session.state(), ConnectionState::Connected);
}

#[test]
fn exactly_once_handshake() {
    let mut session = connected(options());
    let publish = session.publish(message(QoS::ExactlyOnce, 2), 1).unwrap();
    assert_eq!(publish.pkid, Some(1));
    // a PUBACK does not end an exactly-once exchange
    assert_eq!(session.handle_incoming(&Packet::PubAck { pkid: 1 }, 2), Ok(vec![]));
    assert!(session.is_pending(1));
    assert_eq!(
        session.handle_incoming(&Packet::PubRec { pkid: 1 }, 2),
        Ok(vec![Packet::PubRel { pkid: 1 }])
    );
    assert!(session.is_pending(1));
    assert_eq!(session.handle_incoming(&Packet::PubComp { pkid: 1 }, 3), Ok(vec![]));
    assert!(!session.is_pending(1));
    assert_eq!(session.pending_count(), 0);
}

#[test]
fn pkid_in_use_is_skipped_when_the_counter_wraps() {
    let mut session = connected(options());
    // the first identifier stays pending while the counter goes round
    assert_eq!(session.publish(message(QoS::AtLeastOnce, 1), 0).unwrap().pkid, Some(1));
    for expected in 2..=65_535u32 {
        let publish = session.publish(message(QoS::AtLeastOnce, 0), 0).unwrap();
        assert_eq!(publish.pkid, Some(expected as u16));
        session.handle_incoming(&Packet::PubAck { pkid: expected as u16 }, 0).unwrap();
    }
    assert_eq!(session.pending_pkids(), vec![1]);
    // 1 is still unacknowledged: the next identifier is 2
    assert_eq!(session.publish(message(QoS::AtLeastOnce, 1), 0).unwrap().pkid, Some(2));
}

#[test]
fn subscribe_gets_a_fresh_pkid_and_awaits_suback() {
    let mut session = connected(options());
    session.publish(message(QoS::AtLeastOnce, 1), 1).unwrap();
    let subscribe = session.subscribe(Filter::new("hello/+/world".to_string(), QoS::AtMostOnce), 1)
        .unwrap();
    assert_eq!(subscribe.pkid, 2);
    assert_eq!(subscribe.filter.path, "hello/+/world");
    assert_eq!(subscribe.filter.qos, QoS::AtMostOnce);
    assert!(session.awaits_suback(2));
    // the subscription is no pending publish
    assert_eq!(session.pending_count(), 1);
    assert_eq!(session.publish(message(QoS::AtLeastOnce, 1), 1).unwrap().pkid, Some(3));
    assert_eq!(
        session.handle_incoming(&Packet::SubAck { pkid: 2, return_codes: vec![0] }, 2),
        Ok(vec![])
    );
    assert!(!session.awaits_suback(2));
}

#[test]
fn keep_alive_sends_exactly_one_ping() {
    let mut session = connected(options());
    for now in 0..5 {
        assert_eq!(session.tick(now), Ok(None));
    }
    assert_eq!(session.tick(5), Ok(Some(Packet::PingReq)));
    // no second one while the first is unanswered
    for now in 5..10 {
        assert_eq!(session.tick(now), Ok(None));
    }
}

#[test]
fn keep_alive_declares_silent_connection_dead() {
    let mut session = connected(options());
    assert_eq!(session.tick(5), Ok(Some(Packet::PingReq)));
    assert_eq!(session.tick(9), Ok(None));
    assert_eq!(session.tick(10), Err(Error::KeepAliveTimeout));
    assert_eq!(session.state(), ConnectionState::Disconnected);
    assert_eq!(session.tick(20), Ok(None));
}

#[test]
fn keep_alive_goes_on_after_an_answer() {
    let mut session = connected(options());
    assert_eq!(session.tick(5), Ok(Some(Packet::PingReq)));
    assert_eq!(session.handle_incoming(&Packet::PingResp, 6), Ok(vec![]));
    assert_eq!(session.tick(9), Ok(None));
    assert_eq!(session.tick(10), Ok(Some(Packet::PingReq)));
    // any packet answers a ping
    assert_eq!(
        session.handle_incoming(&Packet::Publish(incoming(QoS::AtMostOnce, None)), 11),
        Ok(vec![])
    );
    assert_eq!(session.tick(15), Ok(Some(Packet::PingReq)));
}

#[test]
fn outgoing_traffic_puts_the_ping_off() {
    let mut session = connected(options());
    session.publish(message(QoS::AtMostOnce, 1), 3).unwrap();
    assert_eq!(session.tick(5), Ok(None));
    assert_eq!(session.tick(7), Ok(None));
    assert_eq!(session.tick(8), Ok(Some(Packet::PingReq)));
}

#[test]
fn keep_alive_of_zero_is_off() {
    let mut options = options();
    options.set_keep_alive(0);
    let mut session = connected(options);
    assert_eq!(session.tick(1_000_000), Ok(None));
}

#[test]
fn no_ping_unless_connected() {
    let mut session = Session::new(options());
    assert_eq!(session.tick(100), Ok(None));
    session.connect(100);
    assert_eq!(session.tick(200), Ok(None));
}

#[test]
fn connection_states() {
    let mut session = Session::new(options());
    assert_eq!(session.state(), ConnectionState::Disconnected);
    // nothing to disconnect
    assert_eq!(session.disconnect(0), None);

    let connect = session.connect(0).unwrap();
    assert_eq!(connect.client_id, "test-1");
    assert_eq!(connect.keep_alive, 5);
    assert!(connect.clean_start);
    assert_eq!(connect.last_will, None);
    assert_eq!(session.state(), ConnectionState::Connecting);
    // a second request changes nothing
    assert_eq!(session.connect(0), None);
    assert_eq!(session.state(), ConnectionState::Connecting);

    session.handle_incoming(&Packet::ConnAck { session_present: false, code: 0 }, 1).unwrap();
    assert_eq!(session.state(), ConnectionState::Connected);

    assert_eq!(session.disconnect(2), Some(Packet::Disconnect));
    assert_eq!(session.state(), ConnectionState::Disconnecting);
    assert_eq!(session.disconnect(2), None);

    session.connection_event(ConnectionEvent::TransportClosed);
    assert_eq!(session.state(), ConnectionState::Disconnected);
}

#[test]
fn state_transition_table() {
    let states = [
        ConnectionState::Disconnected,
        ConnectionState::Connecting,
        ConnectionState::Connected,
        ConnectionState::Disconnecting,
    ];
    let events = [
        ConnectionEvent::ConnectRequest,
        ConnectionEvent::ConnAckAccepted,
        ConnectionEvent::ConnAckRefused,
        ConnectionEvent::DisconnectRequest,
        ConnectionEvent::CodecError,
        ConnectionEvent::TransportClosed,
    ];
    for state in states {
        for event in events {
            let expected = match (state, event) {
                (_, ConnectionEvent::TransportClosed) => ConnectionState::Disconnected,
                (ConnectionState::Disconnected, ConnectionEvent::ConnectRequest) => {
                    ConnectionState::Connecting
                }
                (ConnectionState::Connecting, ConnectionEvent::ConnAckAccepted) => {
                    ConnectionState::Connected
                }
                (ConnectionState::Connecting, ConnectionEvent::ConnAckRefused) => {
                    ConnectionState::Disconnected
                }
                (ConnectionState::Connected, ConnectionEvent::DisconnectRequest) => {
                    ConnectionState::Disconnecting
                }
                (ConnectionState::Connected, ConnectionEvent::CodecError) => {
                    ConnectionState::Disconnecting
                }
                (other, _) => other,
            };
            assert_eq!(state.next(event), expected);
        }
    }
}

#[test]
fn refused_connection_is_reported() {
    let mut session = Session::new(options());
    session.connect(0);
    assert_eq!(
        session.handle_incoming(&Packet::ConnAck { session_present: false, code: 0x87 }, 1),
        Err(Error::ConnectionRefused(0x87))
    );
    assert_eq!(session.state(), ConnectionState::Disconnected);
}

#[test]
fn codec_error_ends_the_connection() {
    let mut session = connected(options());
    session.connection_event(ConnectionEvent::CodecError);
    assert_eq!(session.state(), ConnectionState::Disconnecting);
}

#[test]
fn last_will_goes_into_connect() {
    let mut options = options();
    let will = Message {
        topic: "hello/world".to_string(),
        qos: QoS::AtMostOnce,
        payload: b"good bye".to_vec(),
        retain: false,
    };
    options.set_last_will(will.clone());
    let mut session = Session::new(options);
    let connect = session.connect(0).unwrap();
    assert_eq!(connect.last_will, Some(will));
}

#[test]
fn reconnect_without_clean_start_sends_pending_again() {
    let mut options = options();
    options.set_clean_start(false);
    let mut session = connected(options);
    let first = session.publish(message(QoS::AtLeastOnce, 1), 1).unwrap();
    let second = session.publish(message(QoS::ExactlyOnce, 2), 1).unwrap();
    let third = session.publish(message(QoS::ExactlyOnce, 3), 1).unwrap();
    session.handle_incoming(&Packet::PubRec { pkid: 2 }, 2).unwrap();

    session.connection_event(ConnectionEvent::TransportClosed);
    assert_eq!(session.pending_count(), 3);

    let connect = session.connect(10).unwrap();
    assert!(!connect.clean_start);
    assert_eq!(session.pending_count(), 3);
    let replies = session
        .handle_incoming(&Packet::ConnAck { session_present: true, code: 0 }, 11)
        .unwrap();
    let mut first_again = first.clone();
    first_again.dup = true;
    let mut third_again = third.clone();
    third_again.dup = true;
    assert_eq!(
        replies,
        vec![
            Packet::Publish(first_again),
            Packet::PubRel { pkid: second.pkid.unwrap() },
            Packet::Publish(third_again),
        ]
    );
    assert_eq!(session.pending_count(), 3);
}

#[test]
fn reconnect_with_clean_start_forgets_pending() {
    let mut options = options();
    options.set_manual_acks(true);
    let mut session = connected(options);
    session.publish(message(QoS::AtLeastOnce, 1), 1).unwrap();
    session.subscribe(Filter::new("a".to_string(), QoS::AtLeastOnce), 1).unwrap();
    session.handle_incoming(&Packet::Publish(incoming(QoS::AtLeastOnce, Some(5))), 1).unwrap();
    session.connection_event(ConnectionEvent::TransportClosed);
    // what is pending can still be looked at
    assert_eq!(session.pending_count(), 1);
    assert!(session.is_unacked(5));

    session.connect(10);
    assert_eq!(session.pending_count(), 0);
    assert!(!session.awaits_suback(2));
    assert!(!session.is_unacked(5));
    let replies = session
        .handle_incoming(&Packet::ConnAck { session_present: false, code: 0 }, 11)
        .unwrap();
    assert!(replies.is_empty());
}

#[test]
fn packets_that_a_broker_does_not_send_are_passed_over() {
    let mut session = connected(options());
    for packet in [Packet::PingReq, Packet::Disconnect, Packet::UnsubAck { pkid: 1 }] {
        assert_eq!(session.handle_incoming(&packet, 1), Ok(vec![]));
    }
    // a CONNACK outside of connecting changes nothing
    assert_eq!(
        session.handle_incoming(&Packet::ConnAck { session_present: false, code: 0x80 }, 1),
        Ok(vec![])
    );
    assert_eq!(session.state(), ConnectionState::Connected);
}

#[test]
fn publish_is_refused_when_every_pkid_is_in_use() {
    let mut session = connected(options());
    for expected in 1..=65_535u32 {
        let publish = session.publish(message(QoS::AtLeastOnce, 0), 0).unwrap();
        assert_eq!(publish.pkid, Some(expected as u16));
    }
    assert_eq!(session.pending_count(), 65_535);
    assert_eq!(session.publish(message(QoS::AtLeastOnce, 0), 0), Err(Error::PacketIdsExhausted));
    assert_eq!(
        session.subscribe(Filter::new("a".to_string(), QoS::AtMostOnce), 0),
        Err(Error::PacketIdsExhausted)
    );
    assert_eq!(session.pending_count(), 65_535);
    // a message that needs no identifier still goes out
    assert_eq!(session.publish(message(QoS::AtMostOnce, 0), 0).unwrap().pkid, None);
    // one acknowledgment frees one identifier
    session.handle_incoming(&Packet::PubAck { pkid: 65_000 }, 0).unwrap();
    assert_eq!(session.publish(message(QoS::AtLeastOnce, 0), 0).unwrap().pkid, Some(65_000));
}
