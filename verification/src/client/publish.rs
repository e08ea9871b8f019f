//! The publish machine: the flows of QoS 1 and QoS 2 messages in both
//! directions, and their replay on a new connection.
//!
//! A message that the user asks to publish comes with a notifier of the
//! caller's choosing. The machine hands the notifier back once the message
//! is acknowledged as its QoS asks: at once for QoS 0, on PUBACK for QoS 1, on
//! PUBCOMP for QoS 2.

use crate::client::identifiers::{spec_reserve, PacketIdentifiers};
use crate::client::in_flight::{
    ascending, holds, keys, lemma_insert, lemma_insert_members, lemma_remove,
    lemma_remove_members, rank, spec_insert, spec_remove, InFlight,
};
use crate::client::{Error, ReceivedPublication};
use crate::proto::packet::{duplicate_bytes, Delivery, PacketView, PublicationView};
use crate::proto::{Packet, PacketIdentifier, PacketIdentifierDupQoS, Publication, QoS};
use std::collections::VecDeque;
use vstd::prelude::*;

verus! {

/// Why a message could not be queued.
#[derive(Clone, Copy, Debug, PartialEq, Eq, Structural)]
pub enum PublishError {
    ClientDoesNotExist,
}

impl PublishError {
    /// The error in words.
    pub fn message(&self) -> (message: String)
        ensures
            message@ == "client does not exist"@,
    {
        "client does not exist".to_owned()
    }
}

/// A message that the user asked to publish, and the notifier to hand back
/// once it is acknowledged.
pub struct PublishRequest<A> {
    pub publication: Publication,
    pub ack_sender: A,
}

/// The state of the publish machine.
///
/// A message that waits for its acknowledgement is held as the user gave it.
/// The PUBLISH packet that replays it, marked as a duplicate, is made from it
/// and from its packet identifier.
pub struct State<A> {
    publish_requests_waiting_to_be_sent: VecDeque<PublishRequest<A>>,
    /// PUBLISH packets sent by us, waiting for a corresponding PUBACK or PUBREC
    waiting_to_be_acked: InFlight<(A, Publication)>,
    /// PUBREC packets sent by us, waiting for a corresponding PUBREL, with
    /// the contents of the PUBLISH packet for which we sent the PUBREC
    waiting_to_be_released: InFlight<ReceivedPublication>,
    /// Messages for which we sent a PUBREL, waiting for a corresponding
    /// PUBCOMP. A PUBREL replays one where the session goes on; the message
    /// is kept for a session that starts afresh, where it is published anew.
    waiting_to_be_completed: InFlight<(A, Publication)>,
}

/// The mathematical value of the publish machine together with the
/// allocator of packet identifiers that it shares.
pub struct Session<A> {
    /// What the user asked to publish and has not been sent, oldest first.
    pub requests: Seq<PublishRequest<A>>,
    pub waiting_to_be_acked: Seq<(u16, (A, Publication))>,
    pub waiting_to_be_released: Seq<(u16, ReceivedPublication)>,
    pub waiting_to_be_completed: Seq<(u16, (A, Publication))>,
    /// The packet identifiers that the client has reserved.
    pub reserved: Set<u16>,
    /// The packet identifiers that are marked for messages of the server.
    pub marked: Set<u16>,
    /// The packet identifier handed out last.
    pub previous: u16,
}

/// Why a step of the machine failed.
pub enum Failure {
    /// The server sent a new QoS 2 message under the identifier of one that
    /// has not been released.
    DuplicateNotMarked(u16),
    /// No packet identifier is free.
    Exhausted,
}

/// What a step of the machine comes to.
pub struct Step<A> {
    /// The state after the step.
    pub session: Session<A>,
    /// The packets to send. Where the step failed there are none.
    pub packets: Seq<PacketView>,
    /// The notifiers of the messages that are now acknowledged.
    pub acks: Seq<A>,
    /// The message to hand to the user.
    pub received: Option<ReceivedPublication>,
    pub failure: Option<Failure>,
    /// Whether the packet that came in was one for this machine.
    pub consumed: bool,
}

/// The PUBLISH packet of a message with the given delivery.
pub open spec fn publish_packet(delivery: Delivery, publication: PublicationView) -> PacketView {
    PacketView::Publish {
        delivery,
        retain: publication.retain,
        topic_name: publication.topic_name,
        payload: publication.payload,
    }
}

/// How a message of QoS 1 or 2 goes out under a packet identifier.
pub open spec fn delivery_of(qos: QoS, packet_identifier: u16, dup: bool) -> Delivery {
    match qos {
        QoS::AtMostOnce => Delivery::AtMostOnce,
        QoS::AtLeastOnce => Delivery::AtLeastOnce(packet_identifier, dup),
        QoS::ExactlyOnce => Delivery::ExactlyOnce(packet_identifier, dup),
    }
}

/// The PUBLISH packet that replays an unacknowledged message: it is marked as
/// a duplicate.
pub open spec fn replay_packet<A>(entry: (u16, (A, Publication))) -> PacketView {
    publish_packet(delivery_of(entry.1.1.qos, entry.0, true), entry.1.1@)
}

/// Whether each message held is of QoS 1 or 2.
pub open spec fn acknowledged_qos<A>(entries: Seq<(u16, (A, Publication))>) -> bool {
    forall|i: int| 0 <= i < entries.len() ==> (#[trigger] entries[i]).1.1.qos != QoS::AtMostOnce
}

impl<A> Session<A> {
    /// The packet identifiers of each collection ascend, and the messages
    /// that wait for an acknowledgement are of QoS 1 or 2.
    pub open spec fn wf(self) -> bool {
        &&& ascending(self.waiting_to_be_acked)
        &&& ascending(self.waiting_to_be_released)
        &&& ascending(self.waiting_to_be_completed)
        &&& acknowledged_qos(self.waiting_to_be_acked)
        &&& acknowledged_qos(self.waiting_to_be_completed)
    }

    /// The packet identifiers under which this client has messages in flight.
    pub open spec fn outbound(self) -> Set<u16> {
        keys(self.waiting_to_be_acked).union(keys(self.waiting_to_be_completed))
    }

    /// The packet identifiers that are in use: those that the client has
    /// reserved, and those that are marked for messages of the server.
    pub open spec fn in_use(self) -> Set<u16> {
        self.reserved.union(self.marked)
    }
}

/// A step that changes nothing and gives nothing.
pub open spec fn idle<A>(session: Session<A>) -> Step<A> {
    Step {
        session,
        packets: Seq::empty(),
        acks: Seq::empty(),
        received: None,
        failure: None,
        consumed: false,
    }
}

/// What the machine does with a packet from the server.
pub open spec fn spec_handle<A>(session: Session<A>, packet: Option<Packet>) -> Step<A> {
    match packet {
        Some(Packet::PubAck { packet_identifier }) => {
            let id = packet_identifier@;
            if holds(session.waiting_to_be_acked, id) {
                Step {
                    session: Session {
                        waiting_to_be_acked: spec_remove(session.waiting_to_be_acked, id),
                        reserved: session.reserved.remove(id),
                        ..session
                    },
                    acks: seq![session.waiting_to_be_acked[rank(session.waiting_to_be_acked, id)].1.0],
                    consumed: true,
                    ..idle(session)
                }
            } else {
                Step { consumed: true, ..idle(session) }
            }
        },
        Some(Packet::PubComp { packet_identifier }) => {
            let id = packet_identifier@;
            if holds(session.waiting_to_be_completed, id) {
                Step {
                    session: Session {
                        waiting_to_be_completed: spec_remove(session.waiting_to_be_completed, id),
                        reserved: session.reserved.remove(id),
                        ..session
                    },
                    acks: seq![
                        session.waiting_to_be_completed[rank(session.waiting_to_be_completed, id)].1.0,
                    ],
                    consumed: true,
                    ..idle(session)
                }
            } else {
                Step { consumed: true, ..idle(session) }
            }
        },
        Some(Packet::Publish { packet_identifier_dup_qos, retain, topic_name, payload }) => {
            match packet_identifier_dup_qos {
                PacketIdentifierDupQoS::AtMostOnce => Step {
                    received: Some(
                        ReceivedPublication {
                            topic_name,
                            dup: false,
                            qos: QoS::AtMostOnce,
                            retain,
                            payload,
                        },
                    ),
                    consumed: true,
                    ..idle(session)
                },
                PacketIdentifierDupQoS::AtLeastOnce(packet_identifier, dup) => Step {
                    received: Some(
                        ReceivedPublication {
                            topic_name,
                            dup,
                            qos: QoS::AtLeastOnce,
                            retain,
                            payload,
                        },
                    ),
                    packets: seq![PacketView::PubAck { packet_identifier: packet_identifier@ }],
                    consumed: true,
                    ..idle(session)
                },
                PacketIdentifierDupQoS::ExactlyOnce(packet_identifier, dup) => {
                    let id = packet_identifier@;
                    if holds(session.waiting_to_be_released, id) {
                        if dup {
                            Step {
                                packets: seq![PacketView::PubRec { packet_identifier: id }],
                                consumed: true,
                                ..idle(session)
                            }
                        } else {
                            Step {
                                failure: Some(Failure::DuplicateNotMarked(id)),
                                consumed: true,
                                ..idle(session)
                            }
                        }
                    } else {
                        Step {
                            session: Session {
                                marked: session.marked.insert(id),
                                waiting_to_be_released: spec_insert(
                                    session.waiting_to_be_released,
                                    (
                                        id,
                                        ReceivedPublication {
                                            topic_name,
                                            dup,
                                            qos: QoS::ExactlyOnce,
                                            retain,
                                            payload,
                                        },
                                    ),
                                ),
                                ..session
                            },
                            packets: seq![PacketView::PubRec { packet_identifier: id }],
                            consumed: true,
                            ..idle(session)
                        }
                    }
                },
            }
        },
        Some(Packet::PubRec { packet_identifier }) => {
            let id = packet_identifier@;
            let packets = seq![PacketView::PubRel { packet_identifier: id }];
            if holds(session.waiting_to_be_acked, id) {
                Step {
                    session: Session {
                        waiting_to_be_acked: spec_remove(session.waiting_to_be_acked, id),
                        waiting_to_be_completed: spec_insert(
                            session.waiting_to_be_completed,
                            (id, session.waiting_to_be_acked[rank(session.waiting_to_be_acked, id)].1),
                        ),
                        ..session
                    },
                    packets,
                    consumed: true,
                    ..idle(session)
                }
            } else {
                Step { packets, consumed: true, ..idle(session) }
            }
        },
        Some(Packet::PubRel { packet_identifier }) => {
            let id = packet_identifier@;
            let packets = seq![PacketView::PubComp { packet_identifier: id }];
            if holds(session.waiting_to_be_released, id) {
                Step {
                    session: Session {
                        waiting_to_be_released: spec_remove(session.waiting_to_be_released, id),
                        marked: session.marked.remove(id),
                        ..session
                    },
                    packets,
                    received: Some(
                        session.waiting_to_be_released[rank(session.waiting_to_be_released, id)].1,
                    ),
                    consumed: true,
                    ..idle(session)
                }
            } else {
                Step { packets, consumed: true, ..idle(session) }
            }
        },
        _ => idle(session),
    }
}

/// What the machine does with the messages that the user asked to publish:
/// it sends them oldest first, each of QoS 1 or 2 under the packet identifier
/// that is handed out next, until none is left or no identifier is free.
pub open spec fn spec_send<A>(session: Session<A>) -> Step<A>
    decreases session.requests.len(),
{
    if session.requests.len() == 0 {
        idle(session)
    } else {
        let request = session.requests[0];
        let later = session.requests.drop_first();
        match request.publication.qos {
            QoS::AtMostOnce => {
                let rest = spec_send(Session { requests: later, ..session });
                Step {
                    packets: seq![publish_packet(Delivery::AtMostOnce, request.publication@)]
                        + rest.packets,
                    acks: seq![request.ack_sender] + rest.acks,
                    ..rest
                }
            },
            qos => match spec_reserve(session.in_use(), session.previous) {
                None => Step { failure: Some(Failure::Exhausted), ..idle(session) },
                Some(id) => {
                    let rest = spec_send(
                        Session {
                            requests: later,
                            waiting_to_be_acked: spec_insert(
                                session.waiting_to_be_acked,
                                (id, (request.ack_sender, request.publication)),
                            ),
                            reserved: session.reserved.insert(id),
                            previous: id,
                            ..session
                        },
                    );
                    Step {
                        packets: seq![
                            publish_packet(delivery_of(qos, id, false), request.publication@),
                        ] + rest.packets,
                        ..rest
                    }
                },
            },
        }
    }
}

/// One pass of the machine: the packet from the server first, then the
/// messages of the user. Where the packet fails the pass, no message is sent.
pub open spec fn spec_poll<A>(session: Session<A>, packet: Option<Packet>) -> Step<A> {
    let handled = spec_handle(session, packet);
    if handled.failure is Some {
        handled
    } else {
        let sent = spec_send(handled.session);
        Step {
            session: sent.session,
            packets: handled.packets + sent.packets,
            acks: handled.acks + sent.acks,
            received: handled.received,
            failure: sent.failure,
            consumed: handled.consumed,
        }
    }
}

/// The PUBREL packet that stands for a message that waits for its
/// completion: the server has the message, and is told again to release it.
pub open spec fn release_packet<A>(entry: (u16, (A, Publication))) -> PacketView {
    PacketView::PubRel { packet_identifier: entry.0 }
}

/// The packets that a new connection starts with: every message that waits
/// for its acknowledgement, marked as a duplicate, then a PUBREC for every
/// message that waits for its release, then a PUBREL for every message that
/// waits for its completion.
pub open spec fn spec_replay<A>(session: Session<A>) -> Seq<PacketView> {
    session.waiting_to_be_acked.map_values(|entry: (u16, (A, Publication))| replay_packet(entry))
        + session.waiting_to_be_released.map_values(
        |entry: (u16, ReceivedPublication)| PacketView::PubRec { packet_identifier: entry.0 },
    ) + session.waiting_to_be_completed.map_values(
        |entry: (u16, (A, Publication))| release_packet(entry),
    )
}

/// The collections of a session after a connection that starts it afresh:
/// the messages that waited for their completion wait for their
/// acknowledgement again, in place of any under the same identifier.
pub open spec fn spec_restart<A>(
    waiting_to_be_acked: Seq<(u16, (A, Publication))>,
    waiting_to_be_completed: Seq<(u16, (A, Publication))>,
) -> Seq<(u16, (A, Publication))>
    decreases waiting_to_be_completed.len(),
{
    if waiting_to_be_completed.len() == 0 {
        waiting_to_be_acked
    } else {
        spec_restart(
            spec_insert(waiting_to_be_acked, waiting_to_be_completed[0]),
            waiting_to_be_completed.drop_first(),
        )
    }
}

/// Some packet identifiers without those of the given entries.
pub open spec fn spec_release<V>(in_use: Set<u16>, entries: Seq<(u16, V)>) -> Set<u16>
    decreases entries.len(),
{
    if entries.len() == 0 {
        in_use
    } else {
        spec_release(in_use.remove(entries[0].0), entries.drop_first())
    }
}

/// The session as a new connection finds it: as it was where the session
/// goes on; where it starts afresh, with the flows of QoS 2 begun anew and
/// the messages from the server that waited for their release forgotten.
pub open spec fn spec_new_connection<A>(session: Session<A>, reset_session: bool) -> Session<A> {
    if reset_session {
        Session {
            waiting_to_be_acked: spec_restart(
                session.waiting_to_be_acked,
                session.waiting_to_be_completed,
            ),
            waiting_to_be_released: Seq::empty(),
            waiting_to_be_completed: Seq::empty(),
            marked: spec_release(session.marked, session.waiting_to_be_released),
            ..session
        }
    } else {
        session
    }
}

/// Messages of QoS 1 or 2 stay so when one more is put among them.
proof fn lemma_insert_keeps_qos<A>(
    entries: Seq<(u16, (A, Publication))>,
    entry: (u16, (A, Publication)),
)
    requires
        acknowledged_qos(entries),
        entry.1.1.qos != QoS::AtMostOnce,
    ensures
        acknowledged_qos(spec_insert(entries, entry)),
{
    let after = spec_insert(entries, entry);
    assert forall|i: int| 0 <= i < after.len() implies (#[trigger] after[i]).1.1.qos
        != QoS::AtMostOnce by {
        lemma_insert_members(entries, entry, i);
    }
}

/// Messages of QoS 1 or 2 stay so when one is taken from among them.
proof fn lemma_remove_keeps_qos<A>(entries: Seq<(u16, (A, Publication))>, id: u16)
    requires
        acknowledged_qos(entries),
    ensures
        acknowledged_qos(spec_remove(entries, id)),
{
    let after = spec_remove(entries, id);
    assert forall|i: int| 0 <= i < after.len() implies (#[trigger] after[i]).1.1.qos
        != QoS::AtMostOnce by {
        lemma_remove_members(entries, id, i);
    }
}

/// Sending fails only for want of a packet identifier.
pub proof fn lemma_send_failure<A>(session: Session<A>)
    ensures
        spec_send(session).failure is None || spec_send(session).failure == Some(
            Failure::Exhausted,
        ),
    decreases session.requests.len(),
{
    if session.requests.len() > 0 {
        let request = session.requests[0];
        let later = session.requests.drop_first();
        match request.publication.qos {
            QoS::AtMostOnce => {
                lemma_send_failure(Session { requests: later, ..session });
            },
            _ => match spec_reserve(session.in_use(), session.previous) {
                None => {},
                Some(id) => {
                    lemma_send_failure(
                        Session {
                            requests: later,
                            waiting_to_be_acked: spec_insert(
                                session.waiting_to_be_acked,
                                (id, (request.ack_sender, request.publication)),
                            ),
                            reserved: session.reserved.insert(id),
                            previous: id,
                            ..session
                        },
                    );
                },
            },
        }
    }
}

/// Whether every packet identifier under which a message is in flight is
/// in use: the client has reserved those of its own messages, those of the
/// messages of the server that wait for their release are marked, and no
/// message waits both for its acknowledgement and for its completion.
pub open spec fn identifiers_reserved<A>(session: Session<A>) -> bool {
    &&& session.outbound().subset_of(session.reserved)
    &&& keys(session.waiting_to_be_released).subset_of(session.marked)
    &&& keys(session.waiting_to_be_acked).disjoint(keys(session.waiting_to_be_completed))
}

/// Every packet identifier under which a message is in flight, whichever
/// way, is in use.
pub proof fn lemma_in_flight_is_in_use<A>(session: Session<A>)
    requires
        identifiers_reserved(session),
    ensures
        keys(session.waiting_to_be_acked).subset_of(session.in_use()),
        keys(session.waiting_to_be_released).subset_of(session.in_use()),
        keys(session.waiting_to_be_completed).subset_of(session.in_use()),
{
}

/// A packet from the server leaves the session in order, and the packet
/// identifiers of the messages in flight in use.
pub proof fn lemma_handle_keeps_identifiers_reserved<A>(session: Session<A>, packet: Option<Packet>)
    requires
        session.wf(),
        identifiers_reserved(session),
    ensures
        spec_handle(session, packet).session.wf(),
        identifiers_reserved(spec_handle(session, packet).session),
{
    let after = spec_handle(session, packet).session;
    match packet {
        Some(Packet::PubAck { packet_identifier }) => {
            lemma_remove(session.waiting_to_be_acked, packet_identifier@);
            lemma_remove_keeps_qos(session.waiting_to_be_acked, packet_identifier@);
        },
        Some(Packet::PubComp { packet_identifier }) => {
            lemma_remove(session.waiting_to_be_completed, packet_identifier@);
            lemma_remove_keeps_qos(session.waiting_to_be_completed, packet_identifier@);
        },
        Some(Packet::Publish { packet_identifier_dup_qos, retain, topic_name, payload }) => {
            match packet_identifier_dup_qos {
                PacketIdentifierDupQoS::ExactlyOnce(packet_identifier, dup) => {
                    lemma_insert(
                        session.waiting_to_be_released,
                        (
                            packet_identifier@,
                            ReceivedPublication {
                                topic_name,
                                dup,
                                qos: QoS::ExactlyOnce,
                                retain,
                                payload,
                            },
                        ),
                    );
                },
                _ => {},
            }
        },
        Some(Packet::PubRec { packet_identifier }) => {
            let id = packet_identifier@;
            if holds(session.waiting_to_be_acked, id) {
                let entry = session.waiting_to_be_acked[rank(session.waiting_to_be_acked, id)];
                crate::client::in_flight::lemma_rank(session.waiting_to_be_acked, id);
                lemma_remove(session.waiting_to_be_acked, id);
                lemma_remove_keeps_qos(session.waiting_to_be_acked, id);
                lemma_insert(session.waiting_to_be_completed, (id, entry.1));
                lemma_insert_keeps_qos(session.waiting_to_be_completed, (id, entry.1));
            }
        },
        Some(Packet::PubRel { packet_identifier }) => {
            lemma_remove(session.waiting_to_be_released, packet_identifier@);
        },
        _ => {},
    }
}

/// Sending what the user asked to publish leaves the session in order, and
/// the packet identifiers of this client's messages in use.
pub proof fn lemma_send_keeps_identifiers_reserved<A>(session: Session<A>)
    requires
        session.wf(),
        identifiers_reserved(session),
    ensures
        spec_send(session).session.wf(),
        identifiers_reserved(spec_send(session).session),
    decreases session.requests.len(),
{
    if session.requests.len() > 0 {
        let request = session.requests[0];
        let later = session.requests.drop_first();
        match request.publication.qos {
            QoS::AtMostOnce => {
                lemma_send_keeps_identifiers_reserved(Session { requests: later, ..session });
            },
            _ => match spec_reserve(session.in_use(), session.previous) {
                None => {},
                Some(id) => {
                    let entry = (id, (request.ack_sender, request.publication));
                    let next = Session {
                        requests: later,
                        waiting_to_be_acked: spec_insert(session.waiting_to_be_acked, entry),
                        reserved: session.reserved.insert(id),
                        previous: id,
                        ..session
                    };
                    lemma_insert(session.waiting_to_be_acked, entry);
                    lemma_insert_keeps_qos(session.waiting_to_be_acked, entry);
                    crate::client::identifiers::lemma_reserved_is_free(
                        session.in_use(),
                        session.previous,
                    );
                    lemma_send_keeps_identifiers_reserved(next);
                },
            },
        }
    }
}

/// A pass of the machine leaves the session in order, and the packet
/// identifiers of the messages in flight in use, whatever the packet from
/// the server and whether or not the pass fails.
pub proof fn lemma_poll_keeps_identifiers_reserved<A>(session: Session<A>, packet: Option<Packet>)
    requires
        session.wf(),
        identifiers_reserved(session),
    ensures
        spec_poll(session, packet).session.wf(),
        identifiers_reserved(spec_poll(session, packet).session),
{
    lemma_handle_keeps_identifiers_reserved(session, packet);
    lemma_send_keeps_identifiers_reserved(spec_handle(session, packet).session);
}

/// What a restart holds: the messages that waited for their acknowledgement
/// and those that waited for their completion, all of QoS 1 or 2.
proof fn lemma_restart<A>(
    waiting_to_be_acked: Seq<(u16, (A, Publication))>,
    waiting_to_be_completed: Seq<(u16, (A, Publication))>,
)
    requires
        ascending(waiting_to_be_acked),
        acknowledged_qos(waiting_to_be_acked),
        acknowledged_qos(waiting_to_be_completed),
    ensures
        ascending(spec_restart(waiting_to_be_acked, waiting_to_be_completed)),
        acknowledged_qos(spec_restart(waiting_to_be_acked, waiting_to_be_completed)),
        forall|id: u16|
            #[trigger] keys(spec_restart(waiting_to_be_acked, waiting_to_be_completed)).contains(
                id,
            ) ==> keys(waiting_to_be_acked).contains(id) || exists|i: int|
                0 <= i < waiting_to_be_completed.len() && (
                #[trigger] waiting_to_be_completed[i]).0 == id,
    decreases waiting_to_be_completed.len(),
{
    if waiting_to_be_completed.len() > 0 {
        let first = waiting_to_be_completed[0];
        let later = waiting_to_be_completed.drop_first();
        let next = spec_insert(waiting_to_be_acked, first);
        lemma_insert(waiting_to_be_acked, first);
        lemma_insert_keeps_qos(waiting_to_be_acked, first);
        assert(acknowledged_qos(later)) by {
            assert forall|i: int| 0 <= i < later.len() implies (#[trigger] later[i]).1.1.qos
                != QoS::AtMostOnce by {
                assert(later[i] == waiting_to_be_completed[i + 1]);
            }
        }
        lemma_restart(next, later);
        assert forall|id: u16| #[trigger]
            keys(spec_restart(waiting_to_be_acked, waiting_to_be_completed)).contains(
                id,
            ) implies keys(waiting_to_be_acked).contains(id) || exists|i: int|
            0 <= i < waiting_to_be_completed.len() && (#[trigger] waiting_to_be_completed[i]).0
                == id by {
            if keys(next).contains(id) {
                if id == first.0 {
                    assert(waiting_to_be_completed[0].0 == id);
                }
            } else {
                let i = choose|i: int| 0 <= i < later.len() && (#[trigger] later[i]).0 == id;
                assert(waiting_to_be_completed[i + 1].0 == id);
            }
        }
    }
}

/// Giving back the packet identifiers of some entries takes none from those
/// in use but theirs.
pub proof fn lemma_release<V>(in_use: Set<u16>, entries: Seq<(u16, V)>, id: u16)
    requires
        in_use.contains(id),
        forall|i: int| 0 <= i < entries.len() ==> (#[trigger] entries[i]).0 != id,
    ensures
        spec_release(in_use, entries).contains(id),
    decreases entries.len(),
{
    if entries.len() > 0 {
        let later = entries.drop_first();
        assert(entries[0].0 != id);
        assert forall|i: int| 0 <= i < later.len() implies (#[trigger] later[i]).0 != id by {
            assert(later[i] == entries[i + 1]);
        }
        lemma_release(in_use.remove(entries[0].0), later, id);
    }
}

/// A new connection leaves the session in order, and the packet identifiers
/// of the messages in flight in use.
pub proof fn lemma_new_connection_keeps_identifiers_reserved<A>(
    session: Session<A>,
    reset_session: bool,
)
    requires
        session.wf(),
        identifiers_reserved(session),
    ensures
        spec_new_connection(session, reset_session).wf(),
        identifiers_reserved(spec_new_connection(session, reset_session)),
{
    if reset_session {
        let after = spec_new_connection(session, reset_session);
        lemma_restart(session.waiting_to_be_acked, session.waiting_to_be_completed);
        assert(keys(after.waiting_to_be_completed) =~= Set::<u16>::empty());
        assert forall|id: u16| after.outbound().contains(id) implies after.reserved.contains(
            id,
        ) by {
            assert(keys(after.waiting_to_be_acked).contains(id));
            if !keys(session.waiting_to_be_acked).contains(id) {
                let i = choose|i: int|
                    0 <= i < session.waiting_to_be_completed.len() && (
                    #[trigger] session.waiting_to_be_completed[i]).0 == id;
                crate::client::in_flight::lemma_holds(session.waiting_to_be_completed, id);
            }
            assert(session.outbound().contains(id));
        }
        assert(keys(after.waiting_to_be_released) =~= Set::<u16>::empty());
    }
}

/// Whether the client has reserved a packet identifier, but not for a
/// message of its own that is in flight.
pub open spec fn in_use_elsewhere<A>(session: Session<A>, id: u16) -> bool {
    session.reserved.contains(id) && !session.outbound().contains(id)
}

/// A packet from the server leaves a packet identifier that is reserved
/// elsewhere as it is.
pub proof fn lemma_handle_keeps_others<A>(session: Session<A>, packet: Option<Packet>, id: u16)
    requires
        session.wf(),
        in_use_elsewhere(session, id),
    ensures
        in_use_elsewhere(spec_handle(session, packet).session, id),
{
    match packet {
        Some(Packet::PubAck { packet_identifier }) => {
            lemma_remove(session.waiting_to_be_acked, packet_identifier@);
        },
        Some(Packet::PubComp { packet_identifier }) => {
            lemma_remove(session.waiting_to_be_completed, packet_identifier@);
        },
        Some(Packet::PubRec { packet_identifier }) => {
            let pid = packet_identifier@;
            if holds(session.waiting_to_be_acked, pid) {
                let entry = session.waiting_to_be_acked[rank(session.waiting_to_be_acked, pid)];
                lemma_remove(session.waiting_to_be_acked, pid);
                lemma_insert(session.waiting_to_be_completed, (pid, entry.1));
            }
        },
        _ => {},
    }
}

/// Sending what the user asked to publish leaves a packet identifier that is
/// reserved elsewhere as it is.
pub proof fn lemma_send_keeps_others<A>(session: Session<A>, id: u16)
    requires
        session.wf(),
        in_use_elsewhere(session, id),
    ensures
        in_use_elsewhere(spec_send(session).session, id),
    decreases session.requests.len(),
{
    if session.requests.len() > 0 {
        let request = session.requests[0];
        let later = session.requests.drop_first();
        match request.publication.qos {
            QoS::AtMostOnce => {
                lemma_send_keeps_others(Session { requests: later, ..session }, id);
            },
            _ => match spec_reserve(session.in_use(), session.previous) {
                None => {},
                Some(reserved) => {
                    let entry = (reserved, (request.ack_sender, request.publication));
                    let next = Session {
                        requests: later,
                        waiting_to_be_acked: spec_insert(session.waiting_to_be_acked, entry),
                        reserved: session.reserved.insert(reserved),
                        previous: reserved,
                        ..session
                    };
                    lemma_insert(session.waiting_to_be_acked, entry);
                    lemma_insert_keeps_qos(session.waiting_to_be_acked, entry);
                    crate::client::identifiers::lemma_reserved_is_free(
                        session.in_use(),
                        session.previous,
                    );
                    lemma_send_keeps_others(next, id);
                },
            },
        }
    }
}

/// A pass of the machine leaves a packet identifier that is reserved
/// elsewhere as it is.
pub proof fn lemma_poll_keeps_others<A>(session: Session<A>, packet: Option<Packet>, id: u16)
    requires
        session.wf(),
        identifiers_reserved(session),
        in_use_elsewhere(session, id),
    ensures
        in_use_elsewhere(spec_poll(session, packet).session, id),
{
    lemma_handle_keeps_others(session, packet, id);
    lemma_handle_keeps_identifiers_reserved(session, packet);
    lemma_send_keeps_others(spec_handle(session, packet).session, id);
}

/// A new connection leaves a packet identifier that is reserved elsewhere
/// as it is.
pub proof fn lemma_new_connection_keeps_others<A>(session: Session<A>, reset_session: bool, id: u16)
    requires
        session.wf(),
        in_use_elsewhere(session, id),
    ensures
        in_use_elsewhere(spec_new_connection(session, reset_session), id),
{
    if reset_session {
        let after = spec_new_connection(session, reset_session);
        lemma_restart(session.waiting_to_be_acked, session.waiting_to_be_completed);
        assert(keys(after.waiting_to_be_completed) =~= Set::<u16>::empty());
        if keys(after.waiting_to_be_acked).contains(id) {
            let i = choose|i: int|
                0 <= i < session.waiting_to_be_completed.len() && (
                #[trigger] session.waiting_to_be_completed[i]).0 == id;
            crate::client::in_flight::lemma_holds(session.waiting_to_be_completed, id);
        }
    }
}

/// Whether each of some notifiers is that of a message of QoS 0 among the
/// given requests.
pub open spec fn acknowledge_at_once<A>(acks: Seq<A>, requests: Seq<PublishRequest<A>>) -> bool {
    forall|i: int|
        0 <= i < acks.len() ==> exists|j: int|
            0 <= j < requests.len() && (#[trigger] requests[j]).ack_sender == #[trigger] acks[i]
                && requests[j].publication.qos == QoS::AtMostOnce
}

/// Where the session goes on across a new connection, every message in
/// flight appears once among the packets that the connection starts with,
/// in this order: the messages that wait for their acknowledgement, a PUBREC
/// for each message that waits for its release, a PUBREL for each message
/// that waits for its completion. Nothing else is among them: what the user
/// has asked to publish stays where it was, for a later pass to send.
pub proof fn lemma_replay_in_order<A>(session: Session<A>)
    ensures
        spec_new_connection(session, false) == session,
        spec_replay(session).len() == session.waiting_to_be_acked.len()
            + session.waiting_to_be_released.len() + session.waiting_to_be_completed.len(),
        forall|i: int|
            0 <= i < session.waiting_to_be_acked.len() ==> spec_replay(session)[i]
                == replay_packet(#[trigger] session.waiting_to_be_acked[i]),
        forall|i: int|
            0 <= i < session.waiting_to_be_released.len() ==> spec_replay(
                session,
            )[session.waiting_to_be_acked.len() + i] == (PacketView::PubRec {
                packet_identifier: (#[trigger] session.waiting_to_be_released[i]).0,
            }),
        forall|i: int|
            0 <= i < session.waiting_to_be_completed.len() ==> spec_replay(
                session,
            )[session.waiting_to_be_acked.len() + session.waiting_to_be_released.len() + i]
                == (PacketView::PubRel {
                packet_identifier: (#[trigger] session.waiting_to_be_completed[i]).0,
            }),
{
}

/// The notifiers that sending hands back are those of messages of QoS 0
/// that the user asked to publish: a message of QoS 1 or 2 is not
/// acknowledged by being sent.
pub proof fn lemma_send_acknowledges_at_most_once<A>(session: Session<A>)
    ensures
        acknowledge_at_once(spec_send(session).acks, session.requests),
    decreases session.requests.len(),
{
    let acks = spec_send(session).acks;
    if session.requests.len() > 0 {
        let request = session.requests[0];
        let later = session.requests.drop_first();
        let next = match request.publication.qos {
            QoS::AtMostOnce => Session { requests: later, ..session },
            _ => match spec_reserve(session.in_use(), session.previous) {
                None => session,
                Some(id) => Session {
                    requests: later,
                    waiting_to_be_acked: spec_insert(
                        session.waiting_to_be_acked,
                        (id, (request.ack_sender, request.publication)),
                    ),
                    reserved: session.reserved.insert(id),
                    previous: id,
                    ..session
                },
            },
        };
        if next.requests == later {
            lemma_send_acknowledges_at_most_once(next);
            let rest = spec_send(next).acks;
            assert forall|i: int| 0 <= i < acks.len() implies exists|j: int|
                0 <= j < session.requests.len() && (#[trigger] session.requests[j]).ack_sender
                    == #[trigger] acks[i] && session.requests[j].publication.qos
                    == QoS::AtMostOnce by {
                if request.publication.qos == QoS::AtMostOnce && i == 0 {
                    assert(session.requests[0].ack_sender == acks[0]);
                } else {
                    let k = if request.publication.qos == QoS::AtMostOnce {
                        i - 1
                    } else {
                        i
                    };
                    assert(acks[i] == rest[k]);
                    let j = choose|j: int|
                        0 <= j < later.len() && (#[trigger] later[j]).ack_sender == rest[k]
                            && later[j].publication.qos == QoS::AtMostOnce;
                    assert(session.requests[j + 1] == later[j]);
                }
            }
        }
    }
}

/// A packet from the server hands back a notifier only where it is the
/// PUBACK for a message that waits for its acknowledgement, or the PUBCOMP
/// for a message that waits for its completion: then it hands back the
/// notifier of that message, and the message waits no longer.
pub proof fn lemma_handle_acknowledges_when_due<A>(session: Session<A>, packet: Option<Packet>)
    ensures
        ({
            let step = spec_handle(session, packet);
            match packet {
                Some(Packet::PubAck { packet_identifier }) => if holds(
                    session.waiting_to_be_acked,
                    packet_identifier@,
                ) {
                    step.acks == seq![
                        session.waiting_to_be_acked[rank(
                            session.waiting_to_be_acked,
                            packet_identifier@,
                        )].1.0,
                    ]
                } else {
                    step.acks == Seq::<A>::empty()
                },
                Some(Packet::PubComp { packet_identifier }) => if holds(
                    session.waiting_to_be_completed,
                    packet_identifier@,
                ) {
                    step.acks == seq![
                        session.waiting_to_be_completed[rank(
                            session.waiting_to_be_completed,
                            packet_identifier@,
                        )].1.0,
                    ]
                } else {
                    step.acks == Seq::<A>::empty()
                },
                _ => step.acks == Seq::<A>::empty(),
            }
        }),
{
}

/// The PUBLISH packet of a message.
fn make_publish(
    packet_identifier_dup_qos: PacketIdentifierDupQoS,
    publication: &Publication,
) -> (packet: Packet)
    ensures
        packet@ == publish_packet(packet_identifier_dup_qos@, publication@),
{
    Packet::Publish {
        packet_identifier_dup_qos,
        retain: publication.retain,
        topic_name: publication.topic_name.clone(),
        payload: duplicate_bytes(&publication.payload),
    }
}

/// How a message of QoS 1 or 2 goes out under a packet identifier.
fn delivery(qos: QoS, packet_identifier: PacketIdentifier, dup: bool) -> (delivery:
    PacketIdentifierDupQoS)
    ensures
        delivery@ == delivery_of(qos, packet_identifier@, dup),
{
    match qos {
        QoS::AtMostOnce => PacketIdentifierDupQoS::AtMostOnce,
        QoS::AtLeastOnce => PacketIdentifierDupQoS::AtLeastOnce(packet_identifier, dup),
        QoS::ExactlyOnce => PacketIdentifierDupQoS::ExactlyOnce(packet_identifier, dup),
    }
}

/// Whether what a pass of the machine returned is what the step says.
pub open spec fn polled_as<A>(
    polled: Result<(Vec<Packet>, Option<ReceivedPublication>), Error>,
    step: Step<A>,
) -> bool {
    match step.failure {
        None => polled matches Ok((packets, received)) && packets.deep_view() == step.packets
            && received == step.received,
        Some(Failure::DuplicateNotMarked(id)) => polled matches Err(
            Error::DuplicateExactlyOncePublishPacketNotMarkedDuplicate(packet_identifier),
        ) && packet_identifier@ == id,
        Some(Failure::Exhausted) => polled matches Err(Error::PacketIdentifiersExhausted),
    }
}

impl<A> State<A> {
    /// What the user asked to publish and has not been sent, oldest first.
    pub closed spec fn requests(&self) -> Seq<PublishRequest<A>> {
        self.publish_requests_waiting_to_be_sent@
    }

    /// The messages sent that wait for a PUBACK or a PUBREC, by packet
    /// identifier, each with its notifier.
    pub closed spec fn waiting_to_be_acked(&self) -> Seq<(u16, (A, Publication))> {
        self.waiting_to_be_acked@
    }

    /// The messages of QoS 2 from the server that wait for a PUBREL, by
    /// packet identifier.
    pub closed spec fn waiting_to_be_released(&self) -> Seq<(u16, ReceivedPublication)> {
        self.waiting_to_be_released@
    }

    /// The messages sent that wait for a PUBCOMP, by packet identifier, each
    /// with its notifier.
    pub closed spec fn waiting_to_be_completed(&self) -> Seq<(u16, (A, Publication))> {
        self.waiting_to_be_completed@
    }

    /// The mathematical value of this machine and of the allocator it shares.
    pub open spec fn session(&self, packet_identifiers: &PacketIdentifiers) -> Session<A> {
        Session {
            requests: self.requests(),
            waiting_to_be_acked: self.waiting_to_be_acked(),
            waiting_to_be_released: self.waiting_to_be_released(),
            waiting_to_be_completed: self.waiting_to_be_completed(),
            reserved: packet_identifiers@,
            marked: packet_identifiers.marked(),
            previous: packet_identifiers.previous(),
        }
    }

    /// Whether the allocator is in step with this machine: every packet
    /// identifier under which a message is in flight is in use.
    pub open spec fn in_step(&self, packet_identifiers: &PacketIdentifiers) -> bool {
        identifiers_reserved(self.session(packet_identifiers))
    }

    /// The collections are in order.
    pub open spec fn wf(&self) -> bool {
        &&& ascending(self.waiting_to_be_acked())
        &&& ascending(self.waiting_to_be_released())
        &&& ascending(self.waiting_to_be_completed())
        &&& acknowledged_qos(self.waiting_to_be_acked())
        &&& acknowledged_qos(self.waiting_to_be_completed())
    }

    /// A machine with nothing to send and nothing in flight.
    pub fn new() -> (state: Self)
        ensures
            state.wf(),
            state.requests() == Seq::<PublishRequest<A>>::empty(),
            state.waiting_to_be_acked() == Seq::<(u16, (A, Publication))>::empty(),
            state.waiting_to_be_released() == Seq::<(u16, ReceivedPublication)>::empty(),
            state.waiting_to_be_completed() == Seq::<(u16, (A, Publication))>::empty(),
    {
        State {
            publish_requests_waiting_to_be_sent: VecDeque::new(),
            waiting_to_be_acked: InFlight::new(),
            waiting_to_be_released: InFlight::new(),
            waiting_to_be_completed: InFlight::new(),
        }
    }

    /// Queues a message to be published to the server. `ack_sender` is handed
    /// back by the pass in which the message is acknowledged.
    pub fn publish(&mut self, publication: Publication, ack_sender: A)
        ensures
            final(self).requests() == old(self).requests().push(
                PublishRequest { publication, ack_sender },
            ),
            final(self).waiting_to_be_acked() == old(self).waiting_to_be_acked(),
            final(self).waiting_to_be_released() == old(self).waiting_to_be_released(),
            final(self).waiting_to_be_completed() == old(self).waiting_to_be_completed(),
    {
        self.publish_requests_waiting_to_be_sent.push_back(
            PublishRequest { publication, ack_sender },
        );
    }

    /// Takes a packet from the server where it is one for this machine.
    fn handle(
        &mut self,
        packet: &mut Option<Packet>,
        packet_identifiers: &mut PacketIdentifiers,
        acks: &mut Vec<A>,
    ) -> (handled: Result<(Vec<Packet>, Option<ReceivedPublication>), Error>)
        requires
            old(self).wf(),
            old(packet_identifiers).wf(),
        ensures
            final(self).wf(),
            final(packet_identifiers).wf(),
            ({
                let step = spec_handle(old(self).session(old(packet_identifiers)), *old(packet));
                &&& final(self).session(final(packet_identifiers)) == step.session
                &&& final(acks)@ == old(acks)@ + step.acks
                &&& polled_as(handled, step)
                &&& *final(packet) == if step.consumed {
                    None
                } else {
                    *old(packet)
                }
            }),
    {
        let mut packets_waiting_to_be_sent: Vec<Packet> = Vec::new();
        let mut publication_received: Option<ReceivedPublication> = None;
        let ghost step = spec_handle(self.session(packet_identifiers), *packet);
        proof {
            assert(acks@ =~= old(acks)@ + Seq::<A>::empty());
            assert(packets_waiting_to_be_sent.deep_view() =~= Seq::<PacketView>::empty());
        }
        match packet.take() {
            Some(Packet::PubAck { packet_identifier }) => {
                proof {
                    lemma_remove_keeps_qos(self.waiting_to_be_acked(), packet_identifier@);
                }
                match self.waiting_to_be_acked.remove(packet_identifier) {
                    Some((ack_sender, _)) => {
                        packet_identifiers.discard(packet_identifier);
                        acks.push(ack_sender);
                        proof {
                            assert(acks@ =~= old(acks)@ + step.acks);
                        }
                    },
                    None => {},
                }
            },
            Some(Packet::PubComp { packet_identifier }) => {
                proof {
                    lemma_remove_keeps_qos(self.waiting_to_be_completed(), packet_identifier@);
                }
                match self.waiting_to_be_completed.remove(packet_identifier) {
                    Some((ack_sender, _)) => {
                        packet_identifiers.discard(packet_identifier);
                        acks.push(ack_sender);
                        proof {
                            assert(acks@ =~= old(acks)@ + step.acks);
                        }
                    },
                    None => {},
                }
            },
            Some(Packet::Publish { packet_identifier_dup_qos, retain, topic_name, payload }) => {
                match packet_identifier_dup_qos {
                    PacketIdentifierDupQoS::AtMostOnce => {
                        publication_received = Some(
                            ReceivedPublication {
                                topic_name,
                                dup: false,
                                qos: QoS::AtMostOnce,
                                retain,
                                payload,
                            },
                        );
                    },
                    PacketIdentifierDupQoS::AtLeastOnce(packet_identifier, dup) => {
                        publication_received = Some(
                            ReceivedPublication {
                                topic_name,
                                dup,
                                qos: QoS::AtLeastOnce,
                                retain,
                                payload,
                            },
                        );
                        packets_waiting_to_be_sent.push(Packet::PubAck { packet_identifier });
                        proof {
                            assert(packets_waiting_to_be_sent.deep_view() =~= step.packets);
                        }
                    },
                    PacketIdentifierDupQoS::ExactlyOnce(packet_identifier, dup) => {
                        if self.waiting_to_be_released.contains(packet_identifier) {
                            // This PUBLISH was already received earlier and a PUBREC sent in
                            // response, but the server apparently didn't receive it.
                            // Send another PUBREC and ignore this PUBLISH.
                            if !dup {
                                return Err(
                                    Error::DuplicateExactlyOncePublishPacketNotMarkedDuplicate(
                                        packet_identifier,
                                    ),
                                );
                            }
                        } else {
                            // ExactlyOnce publications should only be sent to the client when
                            // the corresponding PUBREL is received. Otherwise the server might
                            // send the PUBLISH again after a session reset and we would have
                            // no way of knowing we should ignore it.
                            packet_identifiers.mark(packet_identifier);
                            let _ = self.waiting_to_be_released.insert(
                                packet_identifier,
                                ReceivedPublication {
                                    topic_name,
                                    dup,
                                    qos: QoS::ExactlyOnce,
                                    retain,
                                    payload,
                                },
                            );
                        }
                        packets_waiting_to_be_sent.push(Packet::PubRec { packet_identifier });
                        proof {
                            assert(packets_waiting_to_be_sent.deep_view() =~= step.packets);
                        }
                    },
                }
            },
            Some(Packet::PubRec { packet_identifier }) => {
                let ghost entries = self.waiting_to_be_acked();
                proof {
                    lemma_remove_keeps_qos(entries, packet_identifier@);
                    crate::client::in_flight::lemma_rank(entries, packet_identifier@);
                }
                match self.waiting_to_be_acked.remove(packet_identifier) {
                    Some((ack_sender, publication)) => {
                        proof {
                            assert(entries[rank(entries, packet_identifier@)].1.1.qos
                                != QoS::AtMostOnce);
                            lemma_insert_keeps_qos(
                                self.waiting_to_be_completed(),
                                (packet_identifier@, (ack_sender, publication)),
                            );
                        }
                        let _ = self.waiting_to_be_completed.insert(
                            packet_identifier,
                            (ack_sender, publication),
                        );
                    },
                    None => {},
                }
                packets_waiting_to_be_sent.push(Packet::PubRel { packet_identifier });
                proof {
                    assert(packets_waiting_to_be_sent.deep_view() =~= step.packets);
                }
            },
            Some(Packet::PubRel { packet_identifier }) => {
                match self.waiting_to_be_released.remove(packet_identifier) {
                    Some(publication) => {
                        packet_identifiers.unmark(packet_identifier);
                        publication_received = Some(publication);
                    },
                    None => {},
                }
                packets_waiting_to_be_sent.push(Packet::PubComp { packet_identifier });
                proof {
                    assert(packets_waiting_to_be_sent.deep_view() =~= step.packets);
                }
            },
            other => {
                *packet = other;
            },
        }
        Ok((packets_waiting_to_be_sent, publication_received))
    }

    /// Sends what the user asked to publish, oldest first.
    fn send(
        &mut self,
        packet_identifiers: &mut PacketIdentifiers,
        acks: &mut Vec<A>,
        packets: &mut Vec<Packet>,
    ) -> (sent: Result<(), Error>)
        requires
            old(self).wf(),
            old(packet_identifiers).wf(),
        ensures
            final(self).wf(),
            final(packet_identifiers).wf(),
            ({
                let step = spec_send(old(self).session(old(packet_identifiers)));
                &&& final(self).session(final(packet_identifiers)) == step.session
                &&& final(acks)@ == old(acks)@ + step.acks
                &&& match step.failure {
                    None => sent is Ok && final(packets).deep_view() == old(packets).deep_view()
                        + step.packets,
                    Some(failure) => failure is Exhausted && sent matches Err(
                        Error::PacketIdentifiersExhausted,
                    ),
                }
            }),
    {
        let ghost total = spec_send(self.session(packet_identifiers));
        proof {
            lemma_send_failure(self.session(packet_identifiers));
        }
        let ghost mut sent_packets: Seq<PacketView> = Seq::empty();
        let ghost mut sent_acks: Seq<A> = Seq::empty();
        proof {
            assert(acks@ =~= old(acks)@ + sent_acks);
            assert(packets.deep_view() =~= old(packets).deep_view() + sent_packets);
            assert(sent_packets + total.packets =~= total.packets);
            assert(sent_acks + total.acks =~= total.acks);
        }
        loop
            invariant
                self.wf(),
                packet_identifiers.wf(),
                total == spec_send(old(self).session(old(packet_identifiers))),
                acks@ == old(acks)@ + sent_acks,
                packets.deep_view() == old(packets).deep_view() + sent_packets,
                ({
                    let rest = spec_send(self.session(packet_identifiers));
                    &&& total.session == rest.session
                    &&& total.failure == rest.failure
                    &&& total.packets == sent_packets + rest.packets
                    &&& total.acks == sent_acks + rest.acks
                }),
            decreases self.requests().len(),
        {
            let ghost before = self.session(packet_identifiers);
            let ghost rest_before = spec_send(before);
            let ghost packets_before = packets.deep_view();
            let request = match self.publish_requests_waiting_to_be_sent.pop_front() {
                Some(request) => request,
                None => {
                    proof {
                        assert(sent_packets + rest_before.packets =~= sent_packets);
                        assert(sent_acks + rest_before.acks =~= sent_acks);
                    }
                    return Ok(());
                },
            };
            proof {
                assert(self.requests() =~= before.requests.drop_first());
                assert(request == before.requests[0]);
            }
            let PublishRequest { publication, ack_sender } = request;
            match publication.qos {
                QoS::AtMostOnce => {
                    let packet = Packet::Publish {
                        packet_identifier_dup_qos: PacketIdentifierDupQoS::AtMostOnce,
                        retain: publication.retain,
                        topic_name: publication.topic_name,
                        payload: publication.payload,
                    };
                    let ghost packet_view = packet@;
                    packets.push(packet);
                    acks.push(ack_sender);
                    proof {
                        let rest = spec_send(self.session(packet_identifiers));
                        assert(packets.deep_view() =~= packets_before.push(packet_view));
                        let so_far_packets = sent_packets;
                        let so_far_acks = sent_acks;
                        sent_packets = so_far_packets.push(packet_view);
                        sent_acks = so_far_acks.push(ack_sender);
                        assert(sent_packets + rest.packets =~= so_far_packets + (seq![packet_view]
                            + rest.packets));
                        assert(sent_acks + rest.acks =~= so_far_acks + (seq![ack_sender]
                            + rest.acks));
                        assert(acks@ =~= old(acks)@ + sent_acks);
                        assert(packets.deep_view() =~= old(packets).deep_view() + sent_packets);
                    }
                },
                qos => {
                    let packet_identifier = match packet_identifiers.reserve() {
                        Ok(packet_identifier) => packet_identifier,
                        Err(err) => {
                            self.publish_requests_waiting_to_be_sent.push_front(
                                PublishRequest { publication, ack_sender },
                            );
                            proof {
                                assert(self.requests() =~= before.requests);
                            }
                            return Err(Error::PacketIdentifiersExhausted);
                        },
                    };
                    let packet = make_publish(
                        delivery(qos, packet_identifier, false),
                        &publication,
                    );
                    let ghost packet_view = packet@;
                    proof {
                        lemma_insert_keeps_qos(
                            self.waiting_to_be_acked(),
                            (packet_identifier@, (ack_sender, publication)),
                        );
                    }
                    let _ = self.waiting_to_be_acked.insert(
                        packet_identifier,
                        (ack_sender, publication),
                    );
                    packets.push(packet);
                    proof {
                        let rest = spec_send(self.session(packet_identifiers));
                        assert(packets.deep_view() =~= packets_before.push(packet_view));
                        let so_far_packets = sent_packets;
                        sent_packets = so_far_packets.push(packet_view);
                        assert(sent_packets + rest.packets =~= so_far_packets + (seq![packet_view]
                            + rest.packets));
                        assert(packets.deep_view() =~= old(packets).deep_view() + sent_packets);
                    }
                },
            }
        }
    }

    /// One pass of the machine. A packet from the server is taken out of
    /// `packet` where it is one for this machine; then what the user asked to
    /// publish is sent. The notifiers of the messages that are acknowledged
    /// by this pass are added to `acks`, also where the pass fails. The pass
    /// returns the packets to send, and the message to hand to the user where
    /// there is one.
    pub fn poll(
        &mut self,
        packet: &mut Option<Packet>,
        packet_identifiers: &mut PacketIdentifiers,
        acks: &mut Vec<A>,
    ) -> (polled: Result<(Vec<Packet>, Option<ReceivedPublication>), Error>)
        requires
            old(self).wf(),
            old(packet_identifiers).wf(),
            old(self).in_step(old(packet_identifiers)),
        ensures
            final(self).wf(),
            final(packet_identifiers).wf(),
            final(self).in_step(final(packet_identifiers)),
            ({
                let step = spec_poll(old(self).session(old(packet_identifiers)), *old(packet));
                &&& final(self).session(final(packet_identifiers)) == step.session
                &&& final(acks)@ == old(acks)@ + step.acks
                &&& polled_as(polled, step)
                &&& *final(packet) == if step.consumed {
                    None
                } else {
                    *old(packet)
                }
            }),
    {
        proof {
            lemma_handle_keeps_identifiers_reserved(self.session(packet_identifiers), *packet);
            lemma_poll_keeps_identifiers_reserved(self.session(packet_identifiers), *packet);
        }
        let ghost handled = spec_handle(self.session(packet_identifiers), *packet);
        let (mut packets_waiting_to_be_sent, publication_received) = match self.handle(
            packet,
            packet_identifiers,
            acks,
        ) {
            Ok(handled) => handled,
            Err(err) => return Err(err),
        };
        let ghost sent = spec_send(self.session(packet_identifiers));
        let sending = self.send(packet_identifiers, acks, &mut packets_waiting_to_be_sent);
        proof {
            assert(acks@ =~= old(acks)@ + (handled.acks + sent.acks));
        }
        match sending {
            Ok(()) => Ok((packets_waiting_to_be_sent, publication_received)),
            Err(err) => Err(err),
        }
    }

    /// Readies the machine for a new connection, and returns the packets that
    /// the connection starts with: every message that waits for its
    /// acknowledgement, marked as a duplicate, then a PUBREC for every message
    /// from the server that waits for its release, then a PUBREL for every
    /// message that waits for its completion, each group in ascending order
    /// of the packet identifiers.
    ///
    /// Where the session starts afresh, the flows of QoS 2 begin anew first:
    /// the messages that waited for their completion wait for their
    /// acknowledgement again, and the messages from the server that waited
    /// for their release are forgotten and the marks of their packet
    /// identifiers taken off.
    pub fn new_connection(
        &mut self,
        reset_session: bool,
        packet_identifiers: &mut PacketIdentifiers,
    ) -> (replay: Vec<Packet>)
        requires
            old(self).wf(),
            old(packet_identifiers).wf(),
            old(self).in_step(old(packet_identifiers)),
        ensures
            final(self).wf(),
            final(packet_identifiers).wf(),
            final(self).in_step(final(packet_identifiers)),
            final(self).session(final(packet_identifiers)) == spec_new_connection(
                old(self).session(old(packet_identifiers)),
                reset_session,
            ),
            replay.deep_view() == spec_replay(final(self).session(final(packet_identifiers))),
    {
        proof {
            lemma_new_connection_keeps_identifiers_reserved(
                self.session(packet_identifiers),
                reset_session,
            );
        }
        if reset_session {
            // Move all waiting_to_be_completed back to waiting_to_be_acked since we must
            // restart the ExactlyOnce protocol flow
            loop
                invariant
                    self.wf(),
                    packet_identifiers.wf(),
                    self.requests() == old(self).requests(),
                    self.waiting_to_be_released() == old(self).waiting_to_be_released(),
                    *packet_identifiers == *old(packet_identifiers),
                    spec_restart(self.waiting_to_be_acked(), self.waiting_to_be_completed())
                        == spec_restart(
                        old(self).waiting_to_be_acked(),
                        old(self).waiting_to_be_completed(),
                    ),
                ensures
                    self.waiting_to_be_completed().len() == 0,
                decreases self.waiting_to_be_completed().len(),
            {
                let ghost entries = self.waiting_to_be_completed();
                match self.waiting_to_be_completed.pop_first() {
                    None => {
                        break ;
                    },
                    Some((packet_identifier, value)) => {
                        proof {
                            assert(entries[0].1.1.qos != QoS::AtMostOnce);
                            lemma_insert_keeps_qos(
                                self.waiting_to_be_acked(),
                                (packet_identifier@, value),
                            );
                            assert(acknowledged_qos(entries.drop_first())) by {
                                assert forall|i: int|
                                    0 <= i < entries.drop_first().len() implies (
                                #[trigger] entries.drop_first()[i]).1.1.qos
                                    != QoS::AtMostOnce by {
                                    assert(entries.drop_first()[i] == entries[i + 1]);
                                }
                            }
                        }
                        let _ = self.waiting_to_be_acked.insert(packet_identifier, value);
                    },
                }
            }
            // The messages of the server that waited for their release are forgotten, and
            // the marks of their packet identifiers taken off.
            loop
                invariant
                    self.wf(),
                    packet_identifiers.wf(),
                    self.requests() == old(self).requests(),
                    self.waiting_to_be_completed().len() == 0,
                    self.waiting_to_be_acked() == spec_restart(
                        old(self).waiting_to_be_acked(),
                        old(self).waiting_to_be_completed(),
                    ),
                    packet_identifiers.previous() == old(packet_identifiers).previous(),
                    packet_identifiers@ == old(packet_identifiers)@,
                    spec_release(packet_identifiers.marked(), self.waiting_to_be_released())
                        == spec_release(
                        old(packet_identifiers).marked(),
                        old(self).waiting_to_be_released(),
                    ),
                ensures
                    self.waiting_to_be_released().len() == 0,
                decreases self.waiting_to_be_released().len(),
            {
                match self.waiting_to_be_released.pop_first() {
                    None => {
                        break ;
                    },
                    Some((packet_identifier, _)) => {
                        packet_identifiers.unmark(packet_identifier);
                    },
                }
            }
            proof {
                assert(self.waiting_to_be_completed() =~= Seq::<(u16, (A, Publication))>::empty());
                assert(self.waiting_to_be_released() =~= Seq::<
                    (u16, ReceivedPublication),
                >::empty());
            }
        }
        let ghost session = self.session(packet_identifiers);
        let ghost acked = session.waiting_to_be_acked.map_values(
            |entry: (u16, (A, Publication))| replay_packet(entry),
        );
        let ghost released = session.waiting_to_be_released.map_values(
            |entry: (u16, ReceivedPublication)| PacketView::PubRec { packet_identifier: entry.0 },
        );
        let ghost completed = session.waiting_to_be_completed.map_values(
            |entry: (u16, (A, Publication))| release_packet(entry),
        );
        let mut replay: Vec<Packet> = Vec::new();
        let mut i: usize = 0;
        proof {
            assert(replay.deep_view() =~= acked.take(0));
        }
        while i < self.waiting_to_be_acked.len()
            invariant
                i <= self.waiting_to_be_acked().len(),
                session == self.session(packet_identifiers),
                acknowledged_qos(session.waiting_to_be_acked),
                acked == session.waiting_to_be_acked.map_values(
                    |entry: (u16, (A, Publication))| replay_packet(entry),
                ),
                replay.deep_view() == acked.take(i as int),
            decreases self.waiting_to_be_acked().len() - i,
        {
            let entry = self.waiting_to_be_acked.get(i);
            let ghost so_far = replay.deep_view();
            let packet = make_publish(delivery(entry.1.1.qos, entry.0, true), &entry.1.1);
            let ghost packet_view = packet@;
            replay.push(packet);
            i = i + 1;
            proof {
                assert(replay.deep_view() =~= so_far.push(packet_view));
                assert(replay.deep_view() =~= acked.take(i as int));
            }
        }
        proof {
            assert(acked.take(i as int) =~= acked);
            assert(replay.deep_view() =~= acked + released.take(0));
        }
        let mut i: usize = 0;
        while i < self.waiting_to_be_released.len()
            invariant
                i <= self.waiting_to_be_released().len(),
                session == self.session(packet_identifiers),
                released == session.waiting_to_be_released.map_values(
                    |entry: (u16, ReceivedPublication)| PacketView::PubRec {
                        packet_identifier: entry.0,
                    },
                ),
                replay.deep_view() == acked + released.take(i as int),
            decreases self.waiting_to_be_released().len() - i,
        {
            let entry = self.waiting_to_be_released.get(i);
            let ghost so_far = replay.deep_view();
            let packet = Packet::PubRec { packet_identifier: entry.0 };
            let ghost packet_view = packet@;
            replay.push(packet);
            i = i + 1;
            proof {
                assert(replay.deep_view() =~= so_far.push(packet_view));
                assert(replay.deep_view() =~= acked + released.take(i as int));
            }
        }
        proof {
            assert(released.take(i as int) =~= released);
            assert(replay.deep_view() =~= acked + released + completed.take(0));
        }
        let mut i: usize = 0;
        while i < self.waiting_to_be_completed.len()
            invariant
                i <= self.waiting_to_be_completed().len(),
                session == self.session(packet_identifiers),
                completed == session.waiting_to_be_completed.map_values(
                    |entry: (u16, (A, Publication))| release_packet(entry),
                ),
                replay.deep_view() == acked + released + completed.take(i as int),
            decreases self.waiting_to_be_completed().len() - i,
        {
            let entry = self.waiting_to_be_completed.get(i);
            let ghost so_far = replay.deep_view();
            let packet = Packet::PubRel { packet_identifier: entry.0 };
            let ghost packet_view = packet@;
            replay.push(packet);
            i = i + 1;
            proof {
                assert(replay.deep_view() =~= so_far.push(packet_view));
                assert(replay.deep_view() =~= acked + released + completed.take(i as int));
            }
        }
        proof {
            assert(completed.take(i as int) =~= completed);
        }
        replay
    }
}

} // verus!
