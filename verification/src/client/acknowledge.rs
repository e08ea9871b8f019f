//! When a message that the user asked to publish is acknowledged: the laws
//! that tie the notifier of a message to the packets of the server, also
//! where more messages wait to be sent in the same pass.

use crate::client::identifiers::{lemma_reserved_is_free, spec_reserve};
use crate::client::in_flight::{
    ascending, holds, keys, lemma_insert, lemma_insert_members, lemma_rank, lemma_rank_at,
    lemma_remove, rank, spec_insert, spec_remove,
};
use crate::client::publish::{
    acknowledge_at_once, identifiers_reserved, lemma_send_acknowledges_at_most_once,
    spec_handle, spec_poll, spec_send, PublishRequest, Session,
};
use crate::proto::packet::PacketView;
use crate::proto::{Packet, PacketIdentifier, Publication, QoS};
use vstd::prelude::*;

verus! {

/// Putting an entry in its place leaves the entry for another identifier as
/// it is.
pub proof fn lemma_insert_keeps_entry<V>(entries: Seq<(u16, V)>, entry: (u16, V), id: u16)
    requires
        ascending(entries),
        id != entry.0,
    ensures
        holds(spec_insert(entries, entry), id) == holds(entries, id),
        holds(entries, id) ==> spec_insert(entries, entry)[rank(spec_insert(entries, entry), id)]
            == entries[rank(entries, id)],
{
    let after = spec_insert(entries, entry);
    lemma_insert(entries, entry);
    assert(keys(after).contains(id) == keys(entries).insert(entry.0).contains(id));
    assert(keys(after).contains(id) == holds(after, id));
    assert(keys(entries).contains(id) == holds(entries, id));
    if holds(entries, id) {
        let place = rank(after, id);
        lemma_rank(after, id);
        assert(holds(after, id));
        lemma_insert_members(entries, entry, place);
        let i = choose|i: int| 0 <= i < entries.len() && entries[i] == after[place];
        lemma_rank_at(entries, i);
    }
}

/// Whether a message among the given requests is the one that is held: a
/// message of QoS 1 or 2 that the user asked to publish, with its notifier.
pub open spec fn requested<A>(requests: Seq<PublishRequest<A>>, held: (A, Publication)) -> bool {
    exists|j: int|
        0 <= j < requests.len() && (#[trigger] requests[j]).ack_sender == held.0
            && requests[j].publication == held.1 && requests[j].publication.qos
            != QoS::AtMostOnce
}

/// Sending leaves alone the messages from the server that wait for their
/// release and the messages that wait for their completion, and gives no
/// packet identifier back.
pub proof fn lemma_send_keeps_in_flight<A>(session: Session<A>)
    ensures
        spec_send(session).session.waiting_to_be_released == session.waiting_to_be_released,
        spec_send(session).session.waiting_to_be_completed == session.waiting_to_be_completed,
        session.reserved.subset_of(spec_send(session).session.reserved),
    decreases session.requests.len(),
{
    if session.requests.len() > 0 {
        let request = session.requests[0];
        let later = session.requests.drop_first();
        match request.publication.qos {
            QoS::AtMostOnce => {
                lemma_send_keeps_in_flight(Session { requests: later, ..session });
            },
            _ => match spec_reserve(session.in_use(), session.previous) {
                None => {},
                Some(id) => {
                    lemma_send_keeps_in_flight(
                        Session {
                            requests: later,
                            waiting_to_be_acked: spec_insert(
                                session.waiting_to_be_acked,
                                (id, (request.ack_sender, request.publication)),
                            ),
                            reserved: session.reserved.insert(id),
                            previous: id,
                            ..session
                        },
                    );
                },
            },
        }
    }
}

/// Sending leaves alone what waits for its acknowledgement under a packet
/// identifier that is in use: no message is sent under that identifier.
pub proof fn lemma_send_keeps_entry<A>(session: Session<A>, id: u16)
    requires
        ascending(session.waiting_to_be_acked),
        session.reserved.contains(id),
    ensures
        holds(spec_send(session).session.waiting_to_be_acked, id) == holds(
            session.waiting_to_be_acked,
            id,
        ),
        holds(session.waiting_to_be_acked, id) ==> spec_send(
            session,
        ).session.waiting_to_be_acked[rank(spec_send(session).session.waiting_to_be_acked, id)]
            == session.waiting_to_be_acked[rank(session.waiting_to_be_acked, id)],
    decreases session.requests.len(),
{
    if session.requests.len() > 0 {
        let request = session.requests[0];
        let later = session.requests.drop_first();
        match request.publication.qos {
            QoS::AtMostOnce => {
                lemma_send_keeps_entry(Session { requests: later, ..session }, id);
            },
            _ => match spec_reserve(session.in_use(), session.previous) {
                None => {},
                Some(fresh) => {
                    let entry = (fresh, (request.ack_sender, request.publication));
                    lemma_reserved_is_free(session.in_use(), session.previous);
                    lemma_insert(session.waiting_to_be_acked, entry);
                    lemma_insert_keeps_entry(session.waiting_to_be_acked, entry, id);
                    lemma_send_keeps_entry(
                        Session {
                            requests: later,
                            waiting_to_be_acked: spec_insert(session.waiting_to_be_acked, entry),
                            reserved: session.reserved.insert(fresh),
                            previous: fresh,
                            ..session
                        },
                        id,
                    );
                },
            },
        }
    }
}

/// What waits for its acknowledgement, once the messages of the user are
/// sent, under a packet identifier that was free is one of those messages.
pub proof fn lemma_send_fills_free<A>(session: Session<A>, id: u16)
    requires
        ascending(session.waiting_to_be_acked),
        !session.reserved.contains(id),
        !holds(session.waiting_to_be_acked, id),
    ensures
        holds(spec_send(session).session.waiting_to_be_acked, id) ==> requested(
            session.requests,
            spec_send(session).session.waiting_to_be_acked[rank(
                spec_send(session).session.waiting_to_be_acked,
                id,
            )].1,
        ),
    decreases session.requests.len(),
{
    if session.requests.len() > 0 {
        let request = session.requests[0];
        let later = session.requests.drop_first();
        let after = spec_send(session).session.waiting_to_be_acked;
        match request.publication.qos {
            QoS::AtMostOnce => {
                let next = Session { requests: later, ..session };
                lemma_send_fills_free(next, id);
                if holds(after, id) {
                    let held = after[rank(after, id)].1;
                    let j = choose|j: int|
                        0 <= j < later.len() && (#[trigger] later[j]).ack_sender == held.0
                            && later[j].publication == held.1 && later[j].publication.qos
                            != QoS::AtMostOnce;
                    assert(session.requests[j + 1] == later[j]);
                }
            },
            _ => match spec_reserve(session.in_use(), session.previous) {
                None => {},
                Some(fresh) => {
                    let entry = (fresh, (request.ack_sender, request.publication));
                    let next = Session {
                        requests: later,
                        waiting_to_be_acked: spec_insert(session.waiting_to_be_acked, entry),
                        reserved: session.reserved.insert(fresh),
                        previous: fresh,
                        ..session
                    };
                    lemma_insert(session.waiting_to_be_acked, entry);
                    if fresh == id {
                        lemma_send_keeps_entry(next, id);
                        assert(keys(next.waiting_to_be_acked).contains(id));
                        assert(holds(next.waiting_to_be_acked, id));
                        assert(session.requests[0] == request);
                    } else {
                        lemma_insert_keeps_entry(session.waiting_to_be_acked, entry, id);
                        lemma_send_fills_free(next, id);
                        if holds(after, id) {
                            let held = after[rank(after, id)].1;
                            let j = choose|j: int|
                                0 <= j < later.len() && (#[trigger] later[j]).ack_sender == held.0
                                    && later[j].publication == held.1
                                    && later[j].publication.qos != QoS::AtMostOnce;
                            assert(session.requests[j + 1] == later[j]);
                        }
                    }
                },
            },
        }
    }
}

/// Whether none of the messages that the user asked to publish needs a
/// packet identifier: each is of QoS 0.
pub open spec fn all_at_most_once<A>(requests: Seq<PublishRequest<A>>) -> bool {
    forall|j: int|
        0 <= j < requests.len() ==> (#[trigger] requests[j]).publication.qos == QoS::AtMostOnce
}

/// Sending messages of QoS 0 alone reserves no packet identifier, and lets
/// no message wait for its acknowledgement.
pub proof fn lemma_send_at_most_once<A>(session: Session<A>)
    requires
        all_at_most_once(session.requests),
    ensures
        spec_send(session).session == (Session { requests: Seq::empty(), ..session }),
        spec_send(session).failure is None,
    decreases session.requests.len(),
{
    if session.requests.len() > 0 {
        let later = session.requests.drop_first();
        assert(session.requests[0].publication.qos == QoS::AtMostOnce);
        assert forall|j: int| 0 <= j < later.len() implies (#[trigger] later[j]).publication.qos
            == QoS::AtMostOnce by {
            assert(later[j] == session.requests[j + 1]);
        }
        lemma_send_at_most_once(Session { requests: later, ..session });
    } else {
        assert(session.requests =~= Seq::empty());
    }
}

/// Where no message of QoS 1 or 2 waits to be sent, the pass that takes in
/// the PUBACK for a message that waits for its acknowledgement leaves no
/// message under its packet identifier, which is no longer reserved; and the
/// pass that takes in the PUBCOMP for a message that waits for its
/// completion does the same.
pub proof fn lemma_acknowledgement_frees<A>(session: Session<A>, packet_identifier: PacketIdentifier)
    requires
        session.wf(),
        identifiers_reserved(session),
        all_at_most_once(session.requests),
    ensures
        ({
            let id = packet_identifier@;
            let acked = spec_poll(session, Some(Packet::PubAck { packet_identifier })).session;
            let completed = spec_poll(session, Some(Packet::PubComp { packet_identifier })).session;
            &&& holds(session.waiting_to_be_acked, id) ==> !holds(acked.waiting_to_be_acked, id)
                && !holds(acked.waiting_to_be_completed, id) && !acked.reserved.contains(id)
            &&& holds(session.waiting_to_be_completed, id) ==> !holds(
                completed.waiting_to_be_acked,
                id,
            ) && !holds(completed.waiting_to_be_completed, id) && !completed.reserved.contains(id)
        }),
{
    let id = packet_identifier@;
    lemma_send_at_most_once(spec_handle(session, Some(Packet::PubAck { packet_identifier })).session);
    lemma_send_at_most_once(
        spec_handle(session, Some(Packet::PubComp { packet_identifier })).session,
    );
    lemma_remove(session.waiting_to_be_acked, id);
    lemma_remove(session.waiting_to_be_completed, id);
    assert(keys(session.waiting_to_be_acked).contains(id) == holds(session.waiting_to_be_acked, id));
    assert(keys(session.waiting_to_be_completed).contains(id) == holds(
        session.waiting_to_be_completed,
        id,
    ));
    assert(keys(spec_remove(session.waiting_to_be_acked, id)).contains(id) == holds(
        spec_remove(session.waiting_to_be_acked, id),
        id,
    ));
    assert(keys(spec_remove(session.waiting_to_be_completed, id)).contains(id) == holds(
        spec_remove(session.waiting_to_be_completed, id),
        id,
    ));
}

/// A message of QoS 1 is acknowledged by the pass that takes in its PUBACK,
/// and by no other: the pass hands its notifier back first, and every other
/// notifier that it hands back is that of a message of QoS 0 sent in it. The
/// message waits no longer and its packet identifier is given back, so that
/// what waits under that identifier after the pass, if anything does, is a
/// message of the user's sent in it. A PUBACK for a message that does not
/// wait hands back no notifier of a message in flight, and gives back no
/// packet identifier.
pub proof fn lemma_puback_acknowledges<A>(session: Session<A>, packet_identifier: PacketIdentifier)
    requires
        session.wf(),
        identifiers_reserved(session),
    ensures
        ({
            let id = packet_identifier@;
            let packet = Some(Packet::PubAck { packet_identifier });
            let handled = spec_handle(session, packet);
            let step = spec_poll(session, packet);
            let after = step.session.waiting_to_be_acked;
            &&& step.consumed
            &&& step.acks == handled.acks + spec_send(handled.session).acks
            &&& acknowledge_at_once(spec_send(handled.session).acks, session.requests)
            &&& step.session.waiting_to_be_completed == session.waiting_to_be_completed
            &&& if holds(session.waiting_to_be_acked, id) {
                &&& handled.acks == seq![
                    session.waiting_to_be_acked[rank(session.waiting_to_be_acked, id)].1.0,
                ]
                &&& !holds(handled.session.waiting_to_be_acked, id)
                &&& !handled.session.reserved.contains(id)
                &&& holds(after, id) ==> requested(session.requests, after[rank(after, id)].1)
            } else {
                &&& handled.acks == Seq::<A>::empty()
                &&& handled.session == session
            }
        }),
{
    let id = packet_identifier@;
    let packet = Some(Packet::PubAck { packet_identifier });
    let handled = spec_handle(session, packet);
    lemma_send_acknowledges_at_most_once(handled.session);
    lemma_send_keeps_in_flight(handled.session);
    if holds(session.waiting_to_be_acked, id) {
        lemma_remove(session.waiting_to_be_acked, id);
        assert(!keys(handled.session.waiting_to_be_acked).contains(id));
        lemma_send_fills_free(handled.session, id);
    }
}

/// The first half of a flow of QoS 2: the pass that takes in the PUBREC for
/// a message that waits for its acknowledgement answers with a PUBREL first,
/// and hands back no notifier but those of messages of QoS 0 sent in it. The
/// message then waits for its completion, with its notifier, under its
/// packet identifier, which stays in use.
pub proof fn lemma_pubrec_moves_on<A>(session: Session<A>, packet_identifier: PacketIdentifier)
    requires
        session.wf(),
        identifiers_reserved(session),
        holds(session.waiting_to_be_acked, packet_identifier@),
    ensures
        ({
            let id = packet_identifier@;
            let step = spec_poll(session, Some(Packet::PubRec { packet_identifier }));
            let held = session.waiting_to_be_acked[rank(session.waiting_to_be_acked, id)].1;
            &&& step.consumed
            &&& step.packets.len() > 0
            &&& step.packets[0] == (PacketView::PubRel { packet_identifier: id })
            &&& acknowledge_at_once(step.acks, session.requests)
            &&& holds(step.session.waiting_to_be_completed, id)
            &&& step.session.waiting_to_be_completed[rank(step.session.waiting_to_be_completed, id)].1
                == held
            &&& !holds(step.session.waiting_to_be_acked, id)
            &&& step.session.reserved.contains(id)
        }),
{
    let id = packet_identifier@;
    let packet = Some(Packet::PubRec { packet_identifier });
    let handled = spec_handle(session, packet);
    let step = spec_poll(session, packet);
    let held = session.waiting_to_be_acked[rank(session.waiting_to_be_acked, id)].1;
    assert(keys(session.waiting_to_be_acked).contains(id));
    assert(session.outbound().contains(id));
    assert(session.reserved.contains(id));
    lemma_remove(session.waiting_to_be_acked, id);
    lemma_insert(session.waiting_to_be_completed, (id, held));
    assert(!keys(handled.session.waiting_to_be_acked).contains(id));
    assert(keys(handled.session.waiting_to_be_completed).contains(id));
    lemma_send_acknowledges_at_most_once(handled.session);
    lemma_send_keeps_in_flight(handled.session);
    lemma_send_keeps_entry(handled.session, id);
    assert(step.acks =~= spec_send(handled.session).acks);
}

/// The second half of a flow of QoS 2: a message of QoS 2 is acknowledged
/// by the pass that takes in its PUBCOMP, and by no other. The pass hands
/// its notifier back first, and every other notifier that it hands back is
/// that of a message of QoS 0 sent in it. The message waits no longer, and
/// its packet identifier is given back. A PUBCOMP for a message that does not
/// wait hands back no notifier of a message in flight, and gives back no
/// packet identifier.
pub proof fn lemma_pubcomp_acknowledges<A>(session: Session<A>, packet_identifier: PacketIdentifier)
    requires
        session.wf(),
        identifiers_reserved(session),
    ensures
        ({
            let id = packet_identifier@;
            let packet = Some(Packet::PubComp { packet_identifier });
            let handled = spec_handle(session, packet);
            let step = spec_poll(session, packet);
            let after = step.session.waiting_to_be_acked;
            &&& step.consumed
            &&& step.acks == handled.acks + spec_send(handled.session).acks
            &&& acknowledge_at_once(spec_send(handled.session).acks, session.requests)
            &&& step.session.waiting_to_be_completed == handled.session.waiting_to_be_completed
            &&& if holds(session.waiting_to_be_completed, id) {
                &&& handled.acks == seq![
                    session.waiting_to_be_completed[rank(session.waiting_to_be_completed, id)].1.0,
                ]
                &&& !holds(step.session.waiting_to_be_completed, id)
                &&& !handled.session.reserved.contains(id)
                &&& holds(after, id) ==> requested(session.requests, after[rank(after, id)].1)
            } else {
                &&& handled.acks == Seq::<A>::empty()
                &&& handled.session == session
            }
        }),
{
    let id = packet_identifier@;
    let packet = Some(Packet::PubComp { packet_identifier });
    let handled = spec_handle(session, packet);
    lemma_send_acknowledges_at_most_once(handled.session);
    lemma_send_keeps_in_flight(handled.session);
    if holds(session.waiting_to_be_completed, id) {
        lemma_remove(session.waiting_to_be_completed, id);
        assert(!keys(handled.session.waiting_to_be_completed).contains(id));
        assert(keys(session.waiting_to_be_completed).contains(id));
        assert(!keys(session.waiting_to_be_acked).contains(id));
        assert(!holds(handled.session.waiting_to_be_acked, id));
        lemma_send_fills_free(handled.session, id);
    }
}

} // verus!
