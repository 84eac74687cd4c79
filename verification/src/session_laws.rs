//! What holds of every session, whatever is asked of it and whatever comes in.

use crate::error::Error;
use crate::packet::{MessageView, PacketView, PublishView, QoS};
use crate::session::{
    lemma_index_of, lemma_index_of_first, spec_index_of, spec_keys, spec_successor,
    ConnectionEvent, ConnectionState, PendingAckView, SessionView, MAX_PKID,
};
use vstd::prelude::*;

verus! {

/// The keys of a list with one more entry are the keys with one more key.
pub proof fn lemma_keys_push<T>(entries: Seq<(u16, T)>, entry: (u16, T))
    ensures
        spec_keys(entries.push(entry)) == spec_keys(entries).push(entry.0),
{
    assert(spec_keys(entries.push(entry)) =~= spec_keys(entries).push(entry.0));
}

/// The keys of a list without one entry are the keys without that key.
pub proof fn lemma_keys_remove<T>(entries: Seq<(u16, T)>, place: int)
    requires
        0 <= place < entries.len(),
    ensures
        spec_keys(entries.remove(place)) == spec_keys(entries).remove(place),
{
    assert(spec_keys(entries.remove(place)) =~= spec_keys(entries).remove(place));
}

/// Keys that are all different stay so when one more comes that is none of
/// them.
pub proof fn lemma_distinct_push(keys: Seq<u16>, key: u16)
    requires
        keys.no_duplicates(),
        spec_index_of(keys, key) is None,
    ensures
        keys.push(key).no_duplicates(),
        spec_index_of(keys.push(key), key) == Some(keys.len() as int),
{
    lemma_index_of(keys, key);
    lemma_index_of_first(keys.push(key), key, keys.len() as int);
}

/// Keys that are all different stay so when one of them leaves, and the key
/// that left is found no more.
pub proof fn lemma_distinct_remove(keys: Seq<u16>, place: int)
    requires
        keys.no_duplicates(),
        0 <= place < keys.len(),
    ensures
        keys.remove(place).no_duplicates(),
        spec_index_of(keys.remove(place), keys[place]) is None,
{
    let rest = keys.remove(place);
    assert forall|i: int, j: int|
        0 <= i < rest.len() && 0 <= j < rest.len() && i != j implies rest[i] != rest[j] by {
        let a = if i < place {
            i
        } else {
            i + 1
        };
        let b = if j < place {
            j
        } else {
            j + 1
        };
        assert(rest[i] == keys[a] && rest[j] == keys[b]);
    }
    lemma_index_of(rest, keys[place]);
    if let Some(found) = spec_index_of(rest, keys[place]) {
        let a = if found < place {
            found
        } else {
            found + 1
        };
        assert(rest[found] == keys[a]);
    }
}

/// A key stands among keys with one more exactly when it stood there before or
/// is the one that came.
pub proof fn lemma_found_after_push(keys: Seq<u16>, added: u16, key: u16)
    ensures
        spec_index_of(keys.push(added), key) is Some <==> spec_index_of(keys, key) is Some || key
            == added,
{
    let more = keys.push(added);
    lemma_index_of(keys, key);
    lemma_index_of(more, key);
    if let Some(i) = spec_index_of(keys, key) {
        assert(more[i] == key);
    }
    if key == added {
        assert(more[keys.len() as int] == key);
    }
    if let Some(j) = spec_index_of(more, key) {
        if j < keys.len() {
            assert(keys[j] == key);
        }
    }
}

/// A key stands among keys that are all different, less one, exactly when it
/// stood there before and is not the one that left.
pub proof fn lemma_found_after_remove(keys: Seq<u16>, place: int, key: u16)
    requires
        keys.no_duplicates(),
        0 <= place < keys.len(),
    ensures
        spec_index_of(keys.remove(place), key) is Some <==> spec_index_of(keys, key) is Some
            && key != keys[place],
{
    let rest = keys.remove(place);
    lemma_index_of(keys, key);
    lemma_index_of(rest, key);
    if let Some(i) = spec_index_of(keys, key) {
        if i < place {
            assert(rest[i] == key);
        } else if i > place {
            assert(rest[i - 1] == key);
        }
    }
    if let Some(j) = spec_index_of(rest, key) {
        let i = if j < place {
            j
        } else {
            j + 1
        };
        assert(keys[i] == key);
    }
}

/// A free packet identifier is never 0 and awaits no acknowledgment.
pub proof fn lemma_first_free(session: SessionView, candidate: u16, tries: nat)
    requires
        candidate != 0,
    ensures
        session.first_free(candidate, tries) matches Some(pkid) ==> pkid != 0 && !session.in_use(
            pkid,
        ),
    decreases tries,
{
    if tries > 0 && session.in_use(candidate) {
        lemma_first_free(session, spec_successor(candidate), (tries - 1) as nat);
    }
}

/// No two pending entries stand under one packet identifier, and none stands
/// under the identifier of a subscription that awaits its SUBACK.
pub proof fn lemma_pkids_unique(session: SessionView, i: int, j: int, k: int)
    requires
        session.well_formed(),
        0 <= i < j < session.pending.len(),
        0 <= k < session.subscribes.len(),
    ensures
        session.pending[i].0 != session.pending[j].0,
        session.pending[i].0 != session.subscribes[k],
{
    let keys = spec_keys(session.pending);
    assert(keys[i] != keys[j]);
}

/// Publishing keeps a session well formed, and the packet that goes out is
/// well formed and carries an identifier that nothing else awaits.
pub proof fn lemma_publish_well_formed(session: SessionView, message: MessageView, now: u64)
    requires
        session.well_formed(),
    ensures
        session.publish(message, now).0.well_formed(),
        session.publish(message, now).1 matches Ok(publish) ==> publish.well_formed() && (
        publish.pkid matches Some(pkid) ==> !session.in_use(pkid)),
{
    if message.qos != QoS::AtMostOnce {
        lemma_first_free(session, session.next_pkid, MAX_PKID as nat);
        if let Some(pkid) = session.fresh_pkid() {
            let after = session.publish(message, now).0;
            lemma_keys_push(session.pending, after.pending.last());
            lemma_distinct_push(spec_keys(session.pending), pkid);
            lemma_index_of(session.subscribes, pkid);
        }
    }
}

/// Subscribing keeps a session well formed, and the packet that goes out
/// carries an identifier that nothing else awaits.
pub proof fn lemma_subscribe_well_formed(
    session: SessionView,
    path: Seq<char>,
    qos: QoS,
    now: u64,
)
    requires
        session.well_formed(),
    ensures
        session.subscribe(path, qos, now).0.well_formed(),
        session.subscribe(path, qos, now).1 matches Ok(subscribe) ==> subscribe.pkid != 0
            && !session.in_use(subscribe.pkid),
{
    lemma_first_free(session, session.next_pkid, MAX_PKID as nat);
    if let Some(pkid) = session.fresh_pkid() {
        let keys = spec_keys(session.pending);
        lemma_distinct_push(session.subscribes, pkid);
        lemma_index_of(keys, pkid);
        assert forall|i: int| 0 <= i < session.pending.len() implies (
        #[trigger] session.pending[i]).0 != pkid by {
            assert(keys[i] == session.pending[i].0);
        }
    }
}

/// Acknowledging keeps a session well formed.
pub proof fn lemma_ack_well_formed(session: SessionView, publish: PublishView, now: u64)
    requires
        session.well_formed(),
    ensures
        session.ack(publish, now).0.well_formed(),
{
    if let Some(pkid) = publish.pkid {
        lemma_index_of(spec_keys(session.unacked), pkid);
        if let Some(i) = spec_index_of(spec_keys(session.unacked), pkid) {
            lemma_keys_remove(session.unacked, i);
            lemma_distinct_remove(spec_keys(session.unacked), i);
        }
    }
}

/// A publish is acknowledged once: the second acknowledgment finds nothing.
pub proof fn lemma_ack_once(session: SessionView, publish: PublishView, now: u64, later: u64)
    requires
        session.well_formed(),
        session.ack(publish, now).1 is Ok,
    ensures
        session.ack(publish, now).0.ack(publish, later) == (
            session.ack(publish, now).0,
            Err::<PacketView, Error>(Error::UnknownPacketId),
        ),
{
    let pkid = publish.pkid->0;
    lemma_index_of(spec_keys(session.unacked), pkid);
    let i = spec_index_of(spec_keys(session.unacked), pkid)->0;
    lemma_keys_remove(session.unacked, i);
    lemma_distinct_remove(spec_keys(session.unacked), i);
}

/// Connecting and disconnecting keep a session well formed, and so does
/// whatever happens to the connection.
pub proof fn lemma_connection_well_formed(session: SessionView, event: ConnectionEvent, now: u64)
    requires
        session.well_formed(),
    ensures
        session.connect(now).0.well_formed(),
        session.disconnect(now).0.well_formed(),
        session.connection_event(event).well_formed(),
        session.tick(now).0.well_formed(),
{
    assert(spec_keys(Seq::<(u16, PendingAckView)>::empty()) =~= Seq::empty());
    assert(spec_keys(Seq::<(u16, QoS)>::empty()) =~= Seq::empty());
}

/// A connection that does not start clean keeps what is pending, whatever broke
/// the one before.
pub proof fn lemma_reconnect_keeps_pending(session: SessionView, now: u64)
    requires
        !session.options.clean_start,
    ensures
        session.connection_event(ConnectionEvent::TransportClosed).connect(now).0.pending
            == session.pending,
        session.connection_event(ConnectionEvent::TransportClosed).connect(now).0.unacked
            == session.unacked,
        session.connection_event(ConnectionEvent::TransportClosed).connect(now).0.state
            == ConnectionState::Connecting,
{
}

/// After a PINGREQ went out, keeping alive sends no second one until something
/// comes in.
pub proof fn lemma_one_ping(session: SessionView, now: u64, later: u64)
    requires
        session.tick(now).1 == Ok::<Option<PacketView>, Error>(Some(PacketView::PingReq)),
    ensures
        session.tick(now).0.await_pingresp,
        session.tick(now).0.tick(later).1 != Ok::<Option<PacketView>, Error>(
            Some(PacketView::PingReq),
        ),
{
}

/// Taking out a pending entry keeps a session well formed.
proof fn lemma_pending_remove_well_formed(session: SessionView, place: int)
    requires
        session.well_formed(),
        0 <= place < session.pending.len(),
    ensures
        (SessionView { pending: session.pending.remove(place), ..session }).well_formed(),
{
    let after = SessionView { pending: session.pending.remove(place), ..session };
    lemma_keys_remove(session.pending, place);
    lemma_distinct_remove(spec_keys(session.pending), place);
    assert forall|i: int| 0 <= i < after.pending.len() implies (#[trigger] after.pending[i])
        == session.pending[if i < place {
        i
    } else {
        i + 1
    }] by {}
}

/// Whatever comes in keeps a session well formed.
pub proof fn lemma_incoming_well_formed(session: SessionView, packet: PacketView, now: u64)
    requires
        session.well_formed(),
    ensures
        session.handle_incoming(packet, now).0.well_formed(),
{
    let heard = SessionView { await_pingresp: false, ..session };
    assert(heard.well_formed());
    match packet {
        PacketView::Publish(publish) => {
            if publish.well_formed() && heard.options.manual_acks {
                let pkid = publish.pkid->0;
                if spec_index_of(spec_keys(heard.unacked), pkid) is None {
                    lemma_keys_push(heard.unacked, (pkid, publish.qos));
                    lemma_distinct_push(spec_keys(heard.unacked), pkid);
                }
            }
        },
        PacketView::PubAck { pkid } => {
            lemma_index_of(spec_keys(heard.pending), pkid);
            if let Some(i) = spec_index_of(spec_keys(heard.pending), pkid) {
                lemma_pending_remove_well_formed(heard, i);
            }
        },
        PacketView::PubComp { pkid } => {
            lemma_index_of(spec_keys(heard.pending), pkid);
            if let Some(i) = spec_index_of(spec_keys(heard.pending), pkid) {
                lemma_pending_remove_well_formed(heard, i);
            }
        },
        PacketView::PubRec { pkid } => {
            lemma_index_of(spec_keys(heard.pending), pkid);
            if let Some(i) = spec_index_of(spec_keys(heard.pending), pkid) {
                let updated = heard.pending.update(i, (pkid, PendingAckView::PubRec));
                assert(spec_keys(updated) =~= spec_keys(heard.pending));
            }
        },
        PacketView::SubAck { pkid, return_codes } => {
            lemma_index_of(heard.subscribes, pkid);
            if let Some(i) = spec_index_of(heard.subscribes, pkid) {
                lemma_distinct_remove(heard.subscribes, i);
                let after = heard.subscribes.remove(i);
                assert forall|j: int| 0 <= j < after.len() implies #[trigger] after[j]
                    == heard.subscribes[if j < i {
                    j
                } else {
                    j + 1
                }] by {}
            }
        },
        _ => {},
    }
}

/// With acknowledgments left to the application, a publish that came in with a
/// packet identifier awaits its acknowledgment until the application gives it.
pub proof fn lemma_manual_ack(session: SessionView, publish: PublishView, now: u64, later: u64)
    requires
        session.well_formed(),
        session.options.manual_acks,
        publish.well_formed(),
        publish.pkid is Some,
    ensures
        ({
            let received = session.handle_incoming(PacketView::Publish(publish), now).0;
            &&& spec_index_of(spec_keys(received.unacked), publish.pkid->0) is Some
            &&& received.ack(publish, later).1 is Ok
            &&& spec_index_of(
                spec_keys(received.ack(publish, later).0.unacked),
                publish.pkid->0,
            ) is None
        }),
{
    let pkid = publish.pkid->0;
    let heard = SessionView { await_pingresp: false, ..session };
    let received = session.handle_incoming(PacketView::Publish(publish), now).0;
    if spec_index_of(spec_keys(heard.unacked), pkid) is None {
        lemma_keys_push(heard.unacked, (pkid, publish.qos));
        lemma_distinct_push(spec_keys(heard.unacked), pkid);
    }
    lemma_incoming_well_formed(session, PacketView::Publish(publish), now);
    lemma_index_of(spec_keys(received.unacked), pkid);
    let i = spec_index_of(spec_keys(received.unacked), pkid)->0;
    lemma_keys_remove(received.unacked, i);
    lemma_distinct_remove(spec_keys(received.unacked), i);
}

} // verus!
