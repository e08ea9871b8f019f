//! The subscriptions machine: what the user subscribes to and unsubscribes
//! from is gathered, and goes to the server as the difference between the
//! subscriptions that the server has acknowledged and those that the user
//! wants.

use crate::client::identifiers::{spec_reserve, PacketIdentifiers};
use crate::client::topics::{
    ascending, holds, lemma_insert, lemma_remove, lookup, spec_insert, spec_remove, Subscriptions,
};
use crate::client::{Error, Failure, UnexpectedReason, UnexpectedSubUnsubAckReason};
use crate::proto::packet::{
    duplicate_strings, duplicate_subscriptions, PacketView, SubscribeToView,
};
use crate::proto::{Packet, PacketIdentifier, QoS, SubAckQos, SubscribeTo};
use std::collections::VecDeque;
use vstd::prelude::*;

verus! {

/// Why an update of the subscriptions could not be queued.
#[derive(Clone, Copy, Debug, PartialEq, Eq, Structural)]
pub enum UpdateSubscriptionError {
    ClientDoesNotExist,
}

impl UpdateSubscriptionError {
    /// The error in words.
    pub fn message(&self) -> (message: String)
        ensures
            message@ == "client does not exist"@,
    {
        "client does not exist".to_owned()
    }
}

/// The kind of subscription update
#[derive(Clone, Debug, PartialEq, Eq)]
pub enum SubscriptionUpdate {
    Subscribe(SubscribeTo),
    Unsubscribe(String),
}

/// The mathematical value of a [`SubscriptionUpdate`].
pub enum Update {
    Subscribe(SubscribeToView),
    Unsubscribe(Seq<char>),
}

impl View for SubscriptionUpdate {
    type V = Update;

    open spec fn view(&self) -> Update {
        match self {
            SubscriptionUpdate::Subscribe(subscribe_to) => Update::Subscribe(subscribe_to@),
            SubscriptionUpdate::Unsubscribe(unsubscribe_from) => Update::Unsubscribe(
                unsubscribe_from@,
            ),
        }
    }
}

impl DeepView for SubscriptionUpdate {
    type V = Update;

    open spec fn deep_view(&self) -> Update {
        self@
    }
}

/// The updates that went to the server in one packet.
#[derive(Debug)]
pub enum BatchedSubscriptionUpdate {
    Subscribe(Vec<SubscribeTo>),
    Unsubscribe(Vec<String>),
}

/// The mathematical value of a [`BatchedSubscriptionUpdate`].
pub enum Batch {
    Subscribe(Seq<SubscribeToView>),
    Unsubscribe(Seq<Seq<char>>),
}

impl View for BatchedSubscriptionUpdate {
    type V = Batch;

    open spec fn view(&self) -> Batch {
        match self {
            BatchedSubscriptionUpdate::Subscribe(subscribe_to) => Batch::Subscribe(
                subscribe_to.deep_view(),
            ),
            BatchedSubscriptionUpdate::Unsubscribe(unsubscribe_from) => Batch::Unsubscribe(
                unsubscribe_from.deep_view(),
            ),
        }
    }
}

/// The state of the subscriptions machine.
pub struct State {
    subscriptions: Subscriptions,
    subscription_updates_waiting_to_be_sent: VecDeque<SubscriptionUpdate>,
    subscription_updates_waiting_to_be_acked: VecDeque<
        (PacketIdentifier, BatchedSubscriptionUpdate),
    >,
}

/// The mathematical value of the subscriptions machine together with the
/// allocator of packet identifiers that it shares.
pub struct Session {
    /// The subscriptions that the server has acknowledged, in ascending
    /// order of their topic filters.
    pub subscriptions: Seq<SubscribeToView>,
    /// What the user asked for and has not been sent, oldest first.
    pub updates: Seq<Update>,
    /// What has been sent and not acknowledged, oldest first, each batch
    /// with the identifier of its packet.
    pub unacked: Seq<(u16, Batch)>,
    /// The packet identifiers that the client has reserved.
    pub reserved: Set<u16>,
    /// The packet identifiers that are marked for messages of the server.
    /// This machine leaves them alone.
    pub marked: Set<u16>,
    /// The packet identifier handed out last.
    pub previous: u16,
}

impl Session {
    /// The packet identifiers that are in use: those that the client has
    /// reserved, and those that are marked for messages of the server.
    pub open spec fn in_use(self) -> Set<u16> {
        self.reserved.union(self.marked)
    }
}

/// What a step of the machine comes to.
pub struct Step {
    /// The state after the step.
    pub session: Session,
    /// The packets to send. Where the step failed there are none.
    pub packets: Seq<PacketView>,
    /// The updates that the server has acknowledged. Where the step failed
    /// there are none.
    pub events: Seq<Update>,
    pub failure: Option<Failure>,
    /// Whether the packet that came in was one for this machine.
    pub consumed: bool,
}

/// A step that changes nothing and gives nothing.
pub open spec fn idle(session: Session) -> Step {
    Step { session, packets: Seq::empty(), events: Seq::empty(), failure: None, consumed: false }
}

/// A step that takes the packet and fails without a change.
pub open spec fn refuse(session: Session, failure: Failure) -> Step {
    Step { failure: Some(failure), consumed: true, ..idle(session) }
}

/// Whether the server granted a subscription at least the QoS asked for.
pub open spec fn granted(requested: QoS, returned: SubAckQos) -> bool {
    returned matches SubAckQos::Success(actual) && actual.level() >= requested.level()
}

/// The QoS recorded for a subscription: the one the server granted where it
/// is at least the one asked for, else the one asked for.
pub open spec fn recorded(requested: QoS, returned: SubAckQos) -> QoS {
    match returned {
        SubAckQos::Success(actual) => if actual.level() >= requested.level() {
            actual
        } else {
            requested
        },
        SubAckQos::Failure => requested,
    }
}

/// The subscriptions once a SUBACK with the given return codes has come for
/// the given requests.
pub open spec fn spec_subscribed(
    subscriptions: Seq<SubscribeToView>,
    requests: Seq<SubscribeToView>,
    returned: Seq<SubAckQos>,
) -> Seq<SubscribeToView>
    decreases requests.len(),
{
    if requests.len() == 0 || returned.len() == 0 {
        subscriptions
    } else {
        spec_subscribed(
            spec_insert(
                subscriptions,
                SubscribeToView {
                    topic_filter: requests[0].topic_filter,
                    qos: recorded(requests[0].qos, returned[0]),
                },
            ),
            requests.drop_first(),
            returned.drop_first(),
        )
    }
}

/// The updates to tell the user of once a SUBACK has come: the subscriptions
/// that the server granted, each with the QoS granted.
pub open spec fn spec_subscribed_events(
    requests: Seq<SubscribeToView>,
    returned: Seq<SubAckQos>,
) -> Seq<Update>
    decreases requests.len(),
{
    if requests.len() == 0 || returned.len() == 0 {
        Seq::empty()
    } else {
        (if granted(requests[0].qos, returned[0]) {
            seq![
                Update::Subscribe(
                    SubscribeToView {
                        topic_filter: requests[0].topic_filter,
                        qos: recorded(requests[0].qos, returned[0]),
                    },
                ),
            ]
        } else {
            Seq::empty()
        }) + spec_subscribed_events(requests.drop_first(), returned.drop_first())
    }
}

/// The failure that a SUBACK comes to: that of the first subscription that
/// the server granted less than was asked for, or refused.
pub open spec fn spec_subscribed_failure(
    requests: Seq<SubscribeToView>,
    returned: Seq<SubAckQos>,
) -> Option<Failure>
    decreases requests.len(),
{
    if requests.len() == 0 || returned.len() == 0 {
        None
    } else if granted(requests[0].qos, returned[0]) {
        spec_subscribed_failure(requests.drop_first(), returned.drop_first())
    } else {
        match returned[0] {
            SubAckQos::Success(actual) => Some(
                Failure::SubscriptionDowngraded(requests[0].topic_filter, requests[0].qos, actual),
            ),
            SubAckQos::Failure => Some(Failure::SubscriptionRejectedByServer),
        }
    }
}

/// The subscriptions without those to the given topic filters.
pub open spec fn spec_unsubscribed(
    subscriptions: Seq<SubscribeToView>,
    topics: Seq<Seq<char>>,
) -> Seq<SubscribeToView>
    decreases topics.len(),
{
    if topics.len() == 0 {
        subscriptions
    } else {
        spec_unsubscribed(spec_remove(subscriptions, topics[0]), topics.drop_first())
    }
}

/// What the machine does with a packet from the server.
pub open spec fn spec_handle(session: Session, packet: Option<Packet>) -> Step {
    match packet {
        Some(Packet::SubAck { packet_identifier, qos }) => {
            let id = packet_identifier@;
            if session.unacked.len() == 0 {
                refuse(session, Failure::UnexpectedSubAck(id, UnexpectedReason::DidNotExpect))
            } else {
                match session.unacked[0] {
                    (expected, Batch::Subscribe(requests)) => if id != expected {
                        refuse(
                            session,
                            Failure::UnexpectedSubAck(id, UnexpectedReason::Expected(expected)),
                        )
                    } else if requests.len() != qos@.len() {
                        refuse(
                            session,
                            Failure::SubAckDoesNotContainEnoughQoS(id, requests.len(), qos@.len()),
                        )
                    } else {
                        Step {
                            session: Session {
                                subscriptions: spec_subscribed(
                                    session.subscriptions,
                                    requests,
                                    qos@,
                                ),
                                unacked: session.unacked.drop_first(),
                                reserved: session.reserved.remove(id),
                                ..session
                            },
                            packets: Seq::empty(),
                            events: spec_subscribed_events(requests, qos@),
                            failure: spec_subscribed_failure(requests, qos@),
                            consumed: true,
                        }
                    },
                    (expected, Batch::Unsubscribe(_)) => refuse(
                        session,
                        Failure::UnexpectedSubAck(id, UnexpectedReason::ExpectedUnsubAck(expected)),
                    ),
                }
            }
        },
        Some(Packet::UnsubAck { packet_identifier }) => {
            let id = packet_identifier@;
            if session.unacked.len() == 0 {
                refuse(session, Failure::UnexpectedUnsubAck(id, UnexpectedReason::DidNotExpect))
            } else {
                match session.unacked[0] {
                    (expected, Batch::Unsubscribe(topics)) => if id != expected {
                        refuse(
                            session,
                            Failure::UnexpectedUnsubAck(id, UnexpectedReason::Expected(expected)),
                        )
                    } else {
                        Step {
                            session: Session {
                                subscriptions: spec_unsubscribed(session.subscriptions, topics),
                                unacked: session.unacked.drop_first(),
                                reserved: session.reserved.remove(id),
                                ..session
                            },
                            packets: Seq::empty(),
                            events: topics.map_values(|topic: Seq<char>| Update::Unsubscribe(topic)),
                            failure: None,
                            consumed: true,
                        }
                    },
                    (expected, Batch::Subscribe(_)) => refuse(
                        session,
                        Failure::UnexpectedUnsubAck(id, UnexpectedReason::ExpectedSubAck(expected)),
                    ),
                }
            }
        },
        _ => idle(session),
    }
}

/// The subscriptions that the user wants: those acknowledged, with the
/// updates that the user asked for applied to them, oldest first.
pub open spec fn spec_target(subscriptions: Seq<SubscribeToView>, updates: Seq<Update>) -> Seq<
    SubscribeToView,
>
    decreases updates.len(),
{
    if updates.len() == 0 {
        subscriptions
    } else {
        spec_target(
            match updates[0] {
                Update::Subscribe(subscribe_to) => spec_insert(subscriptions, subscribe_to),
                Update::Unsubscribe(unsubscribe_from) => spec_remove(
                    subscriptions,
                    unsubscribe_from,
                ),
            },
            updates.drop_first(),
        )
    }
}

/// The first `n` of the wanted subscriptions that are not acknowledged as
/// they are wanted: to another QoS, or not at all.
pub open spec fn spec_pending_subscriptions(
    subscriptions: Seq<SubscribeToView>,
    target: Seq<SubscribeToView>,
    n: nat,
) -> Seq<SubscribeToView>
    decreases n,
{
    if n == 0 || n > target.len() {
        Seq::empty()
    } else {
        let earlier = spec_pending_subscriptions(subscriptions, target, (n - 1) as nat);
        if lookup(subscriptions, target[n - 1].topic_filter) != Some(target[n - 1].qos) {
            earlier.push(target[n - 1])
        } else {
            earlier
        }
    }
}

/// The topic filters of the first `n` acknowledged subscriptions that are
/// not wanted any more.
pub open spec fn spec_pending_unsubscriptions(
    subscriptions: Seq<SubscribeToView>,
    target: Seq<SubscribeToView>,
    n: nat,
) -> Seq<Seq<char>>
    decreases n,
{
    if n == 0 || n > subscriptions.len() {
        Seq::empty()
    } else {
        let earlier = spec_pending_unsubscriptions(subscriptions, target, (n - 1) as nat);
        if !holds(target, subscriptions[n - 1].topic_filter) {
            earlier.push(subscriptions[n - 1].topic_filter)
        } else {
            earlier
        }
    }
}

/// The session once a batch has gone to the server, where a packet
/// identifier is free; else the session with the updates of the batch back
/// at the front of what the user asked for, the last of them foremost.
pub open spec fn spec_dispatch(session: Session, batch: Batch) -> Step {
    match spec_reserve(session.in_use(), session.previous) {
        Some(id) => Step {
            session: Session {
                unacked: session.unacked.push((id, batch)),
                reserved: session.reserved.insert(id),
                previous: id,
                ..session
            },
            packets: seq![
                match batch {
                    Batch::Subscribe(subscribe_to) => PacketView::Subscribe {
                        packet_identifier: id,
                        subscribe_to,
                    },
                    Batch::Unsubscribe(unsubscribe_from) => PacketView::Unsubscribe {
                        packet_identifier: id,
                        unsubscribe_from,
                    },
                },
            ],
            ..idle(session)
        },
        None => Step {
            session: Session {
                updates: (match batch {
                    Batch::Subscribe(subscribe_to) => subscribe_to.map_values(
                        |s: SubscribeToView| Update::Subscribe(s),
                    ),
                    Batch::Unsubscribe(unsubscribe_from) => unsubscribe_from.map_values(
                        |t: Seq<char>| Update::Unsubscribe(t),
                    ),
                }).reverse() + session.updates,
                ..session
            },
            failure: Some(Failure::PacketIdentifiersExhausted),
            ..idle(session)
        },
    }
}

/// What the machine does with the updates that the user asked for: the
/// subscriptions that are wanted and not acknowledged go out in one SUBSCRIBE
/// packet, and the topic filters that are acknowledged and not wanted in one
/// UNSUBSCRIBE packet, each in ascending order of the topic filters. The
/// step fails only where neither packet could go out for want of a packet
/// identifier.
pub open spec fn spec_send(session: Session) -> Step {
    if session.updates.len() == 0 {
        idle(session)
    } else {
        let target = spec_target(session.subscriptions, session.updates);
        let subscribe_to = spec_pending_subscriptions(
            session.subscriptions,
            target,
            target.len(),
        );
        let unsubscribe_from = spec_pending_unsubscriptions(
            session.subscriptions,
            target,
            session.subscriptions.len(),
        );
        let start = Session { updates: Seq::empty(), ..session };
        let first = if subscribe_to.len() > 0 {
            spec_dispatch(start, Batch::Subscribe(subscribe_to))
        } else {
            idle(start)
        };
        let second = if unsubscribe_from.len() > 0 {
            spec_dispatch(first.session, Batch::Unsubscribe(unsubscribe_from))
        } else {
            idle(first.session)
        };
        let packets = first.packets + second.packets;
        Step {
            session: second.session,
            packets,
            events: Seq::empty(),
            failure: if packets.len() == 0 && (first.failure is Some || second.failure is Some) {
                Some(Failure::PacketIdentifiersExhausted)
            } else {
                None
            },
            consumed: false,
        }
    }
}

/// One pass of the machine: the packet from the server first, then the
/// updates of the user. Where the packet fails the pass, nothing is sent.
pub open spec fn spec_poll(session: Session, packet: Option<Packet>) -> Step {
    let handled = spec_handle(session, packet);
    if handled.failure is Some {
        handled
    } else {
        let sent = spec_send(handled.session);
        Step {
            session: sent.session,
            packets: sent.packets,
            events: handled.events,
            failure: sent.failure,
            consumed: handled.consumed,
        }
    }
}

/// The subscriptions as they would be were all that has been sent
/// acknowledged as asked for, oldest batch first.
pub open spec fn spec_merged(subscriptions: Seq<SubscribeToView>, unacked: Seq<(u16, Batch)>) -> Seq<
    SubscribeToView,
>
    decreases unacked.len(),
{
    if unacked.len() == 0 {
        subscriptions
    } else {
        spec_merged(
            match unacked[0].1 {
                Batch::Subscribe(subscribe_to) => spec_inserted(subscriptions, subscribe_to),
                Batch::Unsubscribe(unsubscribe_from) => spec_unsubscribed(
                    subscriptions,
                    unsubscribe_from,
                ),
            },
            unacked.drop_first(),
        )
    }
}

/// The subscriptions with the given ones put in, first to last.
pub open spec fn spec_inserted(
    subscriptions: Seq<SubscribeToView>,
    subscribe_to: Seq<SubscribeToView>,
) -> Seq<SubscribeToView>
    decreases subscribe_to.len(),
{
    if subscribe_to.len() == 0 {
        subscriptions
    } else {
        spec_inserted(spec_insert(subscriptions, subscribe_to[0]), subscribe_to.drop_first())
    }
}

/// The packet that a batch went to the server in.
pub open spec fn batch_packet(entry: (u16, Batch)) -> PacketView {
    match entry.1 {
        Batch::Subscribe(subscribe_to) => PacketView::Subscribe {
            packet_identifier: entry.0,
            subscribe_to,
        },
        Batch::Unsubscribe(unsubscribe_from) => PacketView::Unsubscribe {
            packet_identifier: entry.0,
            unsubscribe_from,
        },
    }
}

/// What a new connection comes to. Where the session goes on, every batch
/// that has not been acknowledged goes to the server again under its packet
/// identifier. Where it starts afresh, the batches count as acknowledged,
/// their packet identifiers are given back, and all subscriptions go to the
/// server in one SUBSCRIBE packet, in ascending order of their topic
/// filters; none counts as acknowledged until the server says so. Should no
/// packet identifier be free for that packet, the subscriptions are kept as
/// they are and the step fails.
pub open spec fn spec_new_connection(session: Session, reset_session: bool) -> Step {
    if reset_session {
        let merged = spec_merged(session.subscriptions, session.unacked);
        let in_use = crate::client::publish::spec_release(session.reserved, session.unacked);
        if merged.len() == 0 {
            idle(
                Session {
                    subscriptions: Seq::empty(),
                    unacked: Seq::empty(),
                    reserved: in_use,
                    ..session
                },
            )
        } else {
            match spec_reserve(in_use.union(session.marked), session.previous) {
                Some(id) => Step {
                    session: Session {
                        subscriptions: Seq::empty(),
                        unacked: seq![(id, Batch::Subscribe(merged))],
                        reserved: in_use.insert(id),
                        previous: id,
                        ..session
                    },
                    packets: seq![
                        PacketView::Subscribe { packet_identifier: id, subscribe_to: merged },
                    ],
                    events: Seq::empty(),
                    failure: None,
                    consumed: false,
                },
                None => Step {
                    session: Session {
                        subscriptions: merged,
                        unacked: Seq::empty(),
                        reserved: in_use,
                        ..session
                    },
                    failure: Some(Failure::PacketIdentifiersExhausted),
                    ..idle(session)
                },
            }
        }
    } else {
        Step {
            packets: session.unacked.map_values(|entry: (u16, Batch)| batch_packet(entry)),
            ..idle(session)
        }
    }
}

/// The mathematical value of a batch that waits for its acknowledgement.
pub open spec fn unacked_view(entry: (PacketIdentifier, BatchedSubscriptionUpdate)) -> (
    u16,
    Batch,
) {
    (entry.0@, entry.1@)
}

/// Whether what a pass of the machine returned is what the step says.
pub open spec fn polled_as(
    polled: Result<(Vec<Packet>, Vec<SubscriptionUpdate>), Error>,
    step: Step,
) -> bool {
    match step.failure {
        None => polled matches Ok((packets, events)) && packets.deep_view() == step.packets
            && events.deep_view() == step.events,
        Some(failure) => polled matches Err(err) && err@ == failure,
    }
}

fn at_least(actual: QoS, requested: QoS) -> (enough: bool)
    ensures
        enough == (actual.level() >= requested.level()),
{
    u8::from(actual) >= u8::from(requested)
}

impl State {
    /// The subscriptions that the server has acknowledged, in ascending
    /// order of their topic filters.
    pub closed spec fn subscriptions(&self) -> Seq<SubscribeToView> {
        self.subscriptions@
    }

    /// What the user asked for and has not been sent, oldest first.
    pub closed spec fn updates(&self) -> Seq<Update> {
        updates_view(self.subscription_updates_waiting_to_be_sent@)
    }

    /// What has been sent and not acknowledged, oldest first.
    pub closed spec fn unacked(&self) -> Seq<(u16, Batch)> {
        self.subscription_updates_waiting_to_be_acked@.map_values(
            |entry: (PacketIdentifier, BatchedSubscriptionUpdate)| unacked_view(entry),
        )
    }

    /// The mathematical value of this machine and of the allocator it shares.
    pub open spec fn session(&self, packet_identifiers: &PacketIdentifiers) -> Session {
        Session {
            subscriptions: self.subscriptions(),
            updates: self.updates(),
            unacked: self.unacked(),
            reserved: packet_identifiers@,
            marked: packet_identifiers.marked(),
            previous: packet_identifiers.previous(),
        }
    }

    /// Whether the allocator is in step with this machine: every batch that
    /// waits for its acknowledgement has a packet identifier of its own, which
    /// the client has reserved.
    pub open spec fn in_step(&self, packet_identifiers: &PacketIdentifiers) -> bool {
        identifiers_reserved(self.session(packet_identifiers))
    }

    /// The acknowledged subscriptions are in order.
    pub open spec fn wf(&self) -> bool {
        ascending(self.subscriptions())
    }

    /// A machine with no subscriptions and nothing to send.
    pub fn new() -> (state: Self)
        ensures
            state.wf(),
            state.subscriptions() == Seq::<SubscribeToView>::empty(),
            state.updates() == Seq::<Update>::empty(),
            state.unacked() == Seq::<(u16, Batch)>::empty(),
    {
        let state = State {
            subscriptions: Subscriptions::new(),
            subscription_updates_waiting_to_be_sent: VecDeque::new(),
            subscription_updates_waiting_to_be_acked: VecDeque::new(),
        };
        proof {
            assert(state.updates() =~= Seq::<Update>::empty());
            assert(state.unacked() =~= Seq::<(u16, Batch)>::empty());
        }
        state
    }

    /// Queues an update of the subscriptions.
    pub fn update_subscription(&mut self, subscription_update: SubscriptionUpdate)
        ensures
            final(self).updates() == old(self).updates().push(subscription_update@),
            final(self).subscriptions() == old(self).subscriptions(),
            final(self).unacked() == old(self).unacked(),
    {
        self.subscription_updates_waiting_to_be_sent.push_back(subscription_update);
        proof {
            assert(self.updates() =~= old(self).updates().push(subscription_update@));
        }
    }

    /// Records what a SUBACK says of the subscriptions asked for.
    fn subscribed(
        &mut self,
        subscribe_to: Vec<SubscribeTo>,
        qos: Vec<SubAckQos>,
    ) -> (acknowledged: Result<Vec<SubscriptionUpdate>, Error>)
        requires
            old(self).wf(),
            subscribe_to.len() == qos.len(),
        ensures
            final(self).wf(),
            final(self).updates() == old(self).updates(),
            final(self).unacked() == old(self).unacked(),
            final(self).subscriptions() == spec_subscribed(
                old(self).subscriptions(),
                subscribe_to.deep_view(),
                qos@,
            ),
            match spec_subscribed_failure(subscribe_to.deep_view(), qos@) {
                None => acknowledged matches Ok(events) && events.deep_view()
                    == spec_subscribed_events(subscribe_to.deep_view(), qos@),
                Some(failure) => acknowledged matches Err(err) && err@ == failure,
            },
    {
        let ghost requests = subscribe_to.deep_view();
        let mut subscription_updates: Vec<SubscriptionUpdate> = Vec::new();
        // The subscriptions are recorded also where the server granted less than was
        // asked for, or nothing: the failure resets the session, and the requests go
        // to the server again.
        let mut err: Option<Error> = None;
        let mut i: usize = 0;
        proof {
            assert(requests.skip(0) =~= requests);
            assert(qos@.skip(0) =~= qos@);
            assert(subscription_updates.deep_view() =~= Seq::<Update>::empty());
            assert(Seq::<Update>::empty() + spec_subscribed_events(requests, qos@)
                =~= spec_subscribed_events(requests, qos@));
        }
        while i < subscribe_to.len()
            invariant
                i <= subscribe_to.len(),
                subscribe_to.len() == qos.len(),
                requests == subscribe_to.deep_view(),
                requests.len() == subscribe_to.len(),
                self.wf(),
                self.updates() == old(self).updates(),
                self.unacked() == old(self).unacked(),
                spec_subscribed(old(self).subscriptions(), requests, qos@) == spec_subscribed(
                    self.subscriptions(),
                    requests.skip(i as int),
                    qos@.skip(i as int),
                ),
                spec_subscribed_events(requests, qos@) == subscription_updates.deep_view()
                    + spec_subscribed_events(requests.skip(i as int), qos@.skip(i as int)),
                match err {
                    Some(err) => spec_subscribed_failure(requests, qos@) == Some(err@),
                    None => spec_subscribed_failure(requests, qos@) == spec_subscribed_failure(
                        requests.skip(i as int),
                        qos@.skip(i as int),
                    ),
                },
            decreases subscribe_to.len() - i,
        {
            let ghost events = subscription_updates.deep_view();
            let ghost request = requests.skip(i as int)[0];
            let ghost returned = qos@.skip(i as int)[0];
            proof {
                assert(request == subscribe_to@[i as int]@);
                assert(returned == qos@[i as int]);
                assert(requests.skip(i as int).drop_first() =~= requests.skip(i + 1));
                assert(qos@.skip(i as int).drop_first() =~= qos@.skip(i + 1));
            }
            let topic_filter = subscribe_to[i].topic_filter.clone();
            let expected_qos = subscribe_to[i].qos;
            let recorded_qos = match qos[i] {
                SubAckQos::Success(actual_qos) => {
                    if at_least(actual_qos, expected_qos) {
                        let update = SubscriptionUpdate::Subscribe(
                            SubscribeTo { topic_filter: topic_filter.clone(), qos: actual_qos },
                        );
                        let ghost update_view = update@;
                        subscription_updates.push(update);
                        proof {
                            assert(subscription_updates.deep_view() =~= events.push(
                                update_view,
                            ));
                        }
                        actual_qos
                    } else {
                        if err.is_none() {
                            err = Some(
                                Error::SubscriptionDowngraded(
                                    topic_filter.clone(),
                                    expected_qos,
                                    actual_qos,
                                ),
                            );
                        }
                        expected_qos
                    }
                },
                SubAckQos::Failure => {
                    if err.is_none() {
                        err = Some(Error::SubscriptionRejectedByServer);
                    }
                    expected_qos
                },
            };
            let entry = SubscribeTo { topic_filter, qos: recorded_qos };
            proof {
                lemma_insert(self.subscriptions(), entry@);
                let rest = spec_subscribed_events(requests.skip(i + 1), qos@.skip(i + 1));
                assert(subscription_updates.deep_view() + rest =~= events + ((
                if granted(request.qos, returned) {
                    seq![
                        Update::Subscribe(
                            SubscribeToView {
                                topic_filter: request.topic_filter,
                                qos: recorded(request.qos, returned),
                            },
                        ),
                    ]
                } else {
                    Seq::empty()
                }) + rest));
            }
            self.subscriptions.insert(entry);
            i = i + 1;
        }
        match err {
            Some(err) => Err(err),
            None => {
                proof {
                    assert(subscription_updates.deep_view() + Seq::<Update>::empty()
                        =~= subscription_updates.deep_view());
                }
                Ok(subscription_updates)
            },
        }
    }

    /// Records that the server has ended the subscriptions to some topic
    /// filters.
    fn unsubscribed(&mut self, unsubscribe_from: Vec<String>) -> (events: Vec<SubscriptionUpdate>)
        requires
            old(self).wf(),
        ensures
            final(self).wf(),
            final(self).updates() == old(self).updates(),
            final(self).unacked() == old(self).unacked(),
            final(self).subscriptions() == spec_unsubscribed(
                old(self).subscriptions(),
                unsubscribe_from.deep_view(),
            ),
            events.deep_view() == unsubscribe_from.deep_view().map_values(
                |topic: Seq<char>| Update::Unsubscribe(topic),
            ),
    {
        let ghost topics = unsubscribe_from.deep_view();
        let mut subscription_updates: Vec<SubscriptionUpdate> = Vec::new();
        let mut i: usize = 0;
        proof {
            assert(topics.skip(0) =~= topics);
        }
        while i < unsubscribe_from.len()
            invariant
                i <= unsubscribe_from.len(),
                topics == unsubscribe_from.deep_view(),
                topics.len() == unsubscribe_from.len(),
                self.wf(),
                self.updates() == old(self).updates(),
                self.unacked() == old(self).unacked(),
                spec_unsubscribed(old(self).subscriptions(), topics) == spec_unsubscribed(
                    self.subscriptions(),
                    topics.skip(i as int),
                ),
                subscription_updates.len() == i,
                forall|j: int|
                    0 <= j < i ==> (#[trigger] subscription_updates@[j])@ == Update::Unsubscribe(
                        topics[j],
                    ),
            decreases unsubscribe_from.len() - i,
        {
            proof {
                assert(topics.skip(i as int)[0] == unsubscribe_from@[i as int]@);
                assert(topics.skip(i as int).drop_first() =~= topics.skip(i + 1));
                lemma_remove(self.subscriptions(), topics[i as int]);
            }
            self.subscriptions.remove(&unsubscribe_from[i]);
            subscription_updates.push(SubscriptionUpdate::Unsubscribe(unsubscribe_from[i].clone()));
            i = i + 1;
        }
        proof {
            assert(subscription_updates.deep_view() =~= topics.map_values(
                |topic: Seq<char>| Update::Unsubscribe(topic),
            ));
        }
        subscription_updates
    }

    /// Takes a packet from the server where it is one for this machine.
    fn handle(
        &mut self,
        packet: &mut Option<Packet>,
        packet_identifiers: &mut PacketIdentifiers,
    ) -> (handled: Result<Vec<SubscriptionUpdate>, Error>)
        requires
            old(self).wf(),
            old(packet_identifiers).wf(),
        ensures
            final(self).wf(),
            final(packet_identifiers).wf(),
            ({
                let step = spec_handle(old(self).session(old(packet_identifiers)), *old(packet));
                &&& final(self).session(final(packet_identifiers)) == step.session
                &&& match step.failure {
                    None => handled matches Ok(events) && events.deep_view() == step.events,
                    Some(failure) => handled matches Err(err) && err@ == failure,
                }
                &&& *final(packet) == if step.consumed {
                    None
                } else {
                    *old(packet)
                }
            }),
    {
        match packet.take() {
            Some(Packet::SubAck { packet_identifier, qos }) => {
                if self.subscription_updates_waiting_to_be_acked.len() == 0 {
                    return Err(
                        Error::UnexpectedSubAck(
                            packet_identifier,
                            UnexpectedSubUnsubAckReason::DidNotExpect,
                        ),
                    );
                }
                let expected = self.subscription_updates_waiting_to_be_acked[0].0;
                match &self.subscription_updates_waiting_to_be_acked[0].1 {
                    BatchedSubscriptionUpdate::Subscribe(subscribe_to) => {
                        if packet_identifier.get() != expected.get() {
                            return Err(
                                Error::UnexpectedSubAck(
                                    packet_identifier,
                                    UnexpectedSubUnsubAckReason::Expected(expected),
                                ),
                            );
                        }
                        if subscribe_to.len() != qos.len() {
                            return Err(
                                Error::SubAckDoesNotContainEnoughQoS(
                                    packet_identifier,
                                    subscribe_to.len(),
                                    qos.len(),
                                ),
                            );
                        }
                    },
                    BatchedSubscriptionUpdate::Unsubscribe(_) => {
                        return Err(
                            Error::UnexpectedSubAck(
                                packet_identifier,
                                UnexpectedSubUnsubAckReason::ExpectedUnsubAck(expected),
                            ),
                        );
                    },
                }
                let ghost unacked = self.unacked();
                let batch = self.subscription_updates_waiting_to_be_acked.pop_front();
                proof {
                    assert(self.unacked() =~= unacked.drop_first());
                }
                packet_identifiers.discard(packet_identifier);
                match batch {
                    Some((_, BatchedSubscriptionUpdate::Subscribe(subscribe_to))) => {
                        self.subscribed(subscribe_to, qos)
                    },
                    _ => Ok(Vec::new()),
                }
            },
            Some(Packet::UnsubAck { packet_identifier }) => {
                if self.subscription_updates_waiting_to_be_acked.len() == 0 {
                    return Err(
                        Error::UnexpectedUnsubAck(
                            packet_identifier,
                            UnexpectedSubUnsubAckReason::DidNotExpect,
                        ),
                    );
                }
                let expected = self.subscription_updates_waiting_to_be_acked[0].0;
                match &self.subscription_updates_waiting_to_be_acked[0].1 {
                    BatchedSubscriptionUpdate::Unsubscribe(_) => {
                        if packet_identifier.get() != expected.get() {
                            return Err(
                                Error::UnexpectedUnsubAck(
                                    packet_identifier,
                                    UnexpectedSubUnsubAckReason::Expected(expected),
                                ),
                            );
                        }
                    },
                    BatchedSubscriptionUpdate::Subscribe(_) => {
                        return Err(
                            Error::UnexpectedUnsubAck(
                                packet_identifier,
                                UnexpectedSubUnsubAckReason::ExpectedSubAck(expected),
                            ),
                        );
                    },
                }
                let ghost unacked = self.unacked();
                let batch = self.subscription_updates_waiting_to_be_acked.pop_front();
                proof {
                    assert(self.unacked() =~= unacked.drop_first());
                }
                packet_identifiers.discard(packet_identifier);
                match batch {
                    Some((_, BatchedSubscriptionUpdate::Unsubscribe(unsubscribe_from))) => Ok(
                        self.unsubscribed(unsubscribe_from),
                    ),
                    _ => Ok(Vec::new()),
                }
            },
            other => {
                *packet = other;
                let events: Vec<SubscriptionUpdate> = Vec::new();
                proof {
                    assert(events.deep_view() =~= Seq::<Update>::empty());
                }
                Ok(events)
            },
        }
    }

    /// The subscriptions that the user wants. What the user asked for is
    /// taken off the queue.
    fn target(&mut self) -> (target: Subscriptions)
        requires
            old(self).wf(),
        ensures
            final(self).wf(),
            final(self).subscriptions() == old(self).subscriptions(),
            final(self).unacked() == old(self).unacked(),
            final(self).updates() == Seq::<Update>::empty(),
            target.wf(),
            target@ == spec_target(old(self).subscriptions(), old(self).updates()),
    {
        let mut target = self.subscriptions.duplicate();
        loop
            invariant
                self.wf(),
                target.wf(),
                self.subscriptions() == old(self).subscriptions(),
                self.unacked() == old(self).unacked(),
                spec_target(target@, self.updates()) == spec_target(
                    old(self).subscriptions(),
                    old(self).updates(),
                ),
            ensures
                self.updates().len() == 0,
            decreases self.updates().len(),
        {
            let ghost updates = self.updates();
            match self.subscription_updates_waiting_to_be_sent.pop_front() {
                None => {
                    break ;
                },
                Some(subscription_update) => {
                    proof {
                        assert(self.updates() =~= updates.drop_first());
                        assert(subscription_update@ == updates[0]);
                    }
                    match subscription_update {
                        SubscriptionUpdate::Subscribe(subscribe_to) => {
                            target.insert(subscribe_to);
                        },
                        SubscriptionUpdate::Unsubscribe(unsubscribe_from) => {
                            target.remove(&unsubscribe_from);
                        },
                    }
                },
            }
        }
        proof {
            assert(self.updates() =~= Seq::<Update>::empty());
        }
        target
    }

    /// The wanted subscriptions that are not acknowledged as they are
    /// wanted.
    fn pending_subscriptions(&self, target: &Subscriptions) -> (pending: Vec<SubscribeTo>)
        requires
            self.wf(),
            target.wf(),
        ensures
            pending.deep_view() == spec_pending_subscriptions(
                self.subscriptions(),
                target@,
                target@.len(),
            ),
    {
        let mut pending: Vec<SubscribeTo> = Vec::new();
        let mut i: usize = 0;
        proof {
            assert(pending.deep_view() =~= Seq::<SubscribeToView>::empty());
        }
        while i < target.len()
            invariant
                i <= target@.len(),
                self.wf(),
                target.wf(),
                pending.deep_view() == spec_pending_subscriptions(
                    self.subscriptions(),
                    target@,
                    i as nat,
                ),
            decreases target@.len() - i,
        {
            let entry = target.get(i);
            let ghost so_far = pending.deep_view();
            let unchanged = match self.subscriptions.qos(&entry.topic_filter) {
                Some(qos) => qos == entry.qos,
                None => false,
            };
            if !unchanged {
                // Current subscription doesn't exist, or exists but has different QoS
                pending.push(entry.duplicate());
                proof {
                    assert(pending.deep_view() =~= so_far.push(target@[i as int]));
                }
            }
            i = i + 1;
        }
        pending
    }

    /// The topic filters of the acknowledged subscriptions that are not
    /// wanted any more.
    fn pending_unsubscriptions(&self, target: &Subscriptions) -> (pending: Vec<String>)
        requires
            self.wf(),
            target.wf(),
        ensures
            pending.deep_view() == spec_pending_unsubscriptions(
                self.subscriptions(),
                target@,
                self.subscriptions().len(),
            ),
    {
        let mut pending: Vec<String> = Vec::new();
        let mut i: usize = 0;
        proof {
            assert(pending.deep_view() =~= Seq::<Seq<char>>::empty());
        }
        while i < self.subscriptions.len()
            invariant
                i <= self.subscriptions().len(),
                self.wf(),
                target.wf(),
                pending.deep_view() == spec_pending_unsubscriptions(
                    self.subscriptions(),
                    target@,
                    i as nat,
                ),
            decreases self.subscriptions().len() - i,
        {
            let entry = self.subscriptions.get(i);
            let ghost so_far = pending.deep_view();
            if target.qos(&entry.topic_filter).is_none() {
                pending.push(entry.topic_filter.clone());
                proof {
                    assert(pending.deep_view() =~= so_far.push(
                        self.subscriptions()[i as int].topic_filter,
                    ));
                }
            }
            i = i + 1;
        }
        pending
    }

    /// Sends the wanted subscriptions in one SUBSCRIBE packet, or puts them
    /// back at the front of what the user asked for where no packet
    /// identifier is free. Returns whether they went out.
    fn dispatch_subscriptions(
        &mut self,
        pending: Vec<SubscribeTo>,
        packet_identifiers: &mut PacketIdentifiers,
        packets: &mut Vec<Packet>,
    ) -> (dispatched: bool)
        requires
            old(self).wf(),
            old(packet_identifiers).wf(),
        ensures
            final(self).wf(),
            final(packet_identifiers).wf(),
            ({
                let step = spec_dispatch(
                    old(self).session(old(packet_identifiers)),
                    Batch::Subscribe(pending.deep_view()),
                );
                &&& final(self).session(final(packet_identifiers)) == step.session
                &&& final(packets).deep_view() == old(packets).deep_view() + step.packets
                &&& dispatched == (step.failure is None)
            }),
    {
        let ghost before = self.session(packet_identifiers);
        let ghost requests = pending.deep_view();
        match packet_identifiers.reserve() {
            Ok(packet_identifier) => {
                let batch = BatchedSubscriptionUpdate::Subscribe(duplicate_subscriptions(&pending));
                self.subscription_updates_waiting_to_be_acked.push_back((packet_identifier, batch));
                let ghost packets_before = packets.deep_view();
                let packet = Packet::Subscribe { packet_identifier, subscribe_to: pending };
                let ghost packet_view = packet@;
                packets.push(packet);
                proof {
                    assert(self.unacked() =~= before.unacked.push(
                        (packet_identifier@, Batch::Subscribe(requests)),
                    ));
                    assert(packets.deep_view() =~= packets_before + seq![packet_view]);
                }
                true
            },
            Err(_) => {
                let mut updates: Vec<SubscriptionUpdate> = Vec::new();
                let mut i: usize = 0;
                while i < pending.len()
                    invariant
                        i <= pending.len(),
                        updates.len() == i,
                        forall|j: int|
                            0 <= j < i ==> (#[trigger] updates@[j])@ == Update::Subscribe(
                                pending@[j]@,
                            ),
                    decreases pending.len() - i,
                {
                    updates.push(SubscriptionUpdate::Subscribe(pending[i].duplicate()));
                    i = i + 1;
                }
                proof {
                    assert(updates.deep_view() =~= requests.map_values(
                        |s: SubscribeToView| Update::Subscribe(s),
                    ));
                }
                push_all_front(&mut self.subscription_updates_waiting_to_be_sent, updates);
                proof {
                    assert(packets.deep_view() =~= old(packets).deep_view() + Seq::<
                        PacketView,
                    >::empty());
                }
                false
            },
        }
    }

    /// Sends the topic filters that are not wanted any more in one
    /// UNSUBSCRIBE packet, or puts them back at the front of what the user
    /// asked for where no packet identifier is free. Returns whether they
    /// went out.
    fn dispatch_unsubscriptions(
        &mut self,
        pending: Vec<String>,
        packet_identifiers: &mut PacketIdentifiers,
        packets: &mut Vec<Packet>,
    ) -> (dispatched: bool)
        requires
            old(self).wf(),
            old(packet_identifiers).wf(),
        ensures
            final(self).wf(),
            final(packet_identifiers).wf(),
            ({
                let step = spec_dispatch(
                    old(self).session(old(packet_identifiers)),
                    Batch::Unsubscribe(pending.deep_view()),
                );
                &&& final(self).session(final(packet_identifiers)) == step.session
                &&& final(packets).deep_view() == old(packets).deep_view() + step.packets
                &&& dispatched == (step.failure is None)
            }),
    {
        let ghost before = self.session(packet_identifiers);
        let ghost topics = pending.deep_view();
        match packet_identifiers.reserve() {
            Ok(packet_identifier) => {
                let batch = BatchedSubscriptionUpdate::Unsubscribe(duplicate_strings(&pending));
                self.subscription_updates_waiting_to_be_acked.push_back((packet_identifier, batch));
                let ghost packets_before = packets.deep_view();
                let packet = Packet::Unsubscribe { packet_identifier, unsubscribe_from: pending };
                let ghost packet_view = packet@;
                packets.push(packet);
                proof {
                    assert(self.unacked() =~= before.unacked.push(
                        (packet_identifier@, Batch::Unsubscribe(topics)),
                    ));
                    assert(packets.deep_view() =~= packets_before + seq![packet_view]);
                }
                true
            },
            Err(_) => {
                let mut updates: Vec<SubscriptionUpdate> = Vec::new();
                let mut i: usize = 0;
                while i < pending.len()
                    invariant
                        i <= pending.len(),
                        updates.len() == i,
                        forall|j: int|
                            0 <= j < i ==> (#[trigger] updates@[j])@ == Update::Unsubscribe(
                                pending@[j]@,
                            ),
                    decreases pending.len() - i,
                {
                    updates.push(SubscriptionUpdate::Unsubscribe(pending[i].clone()));
                    i = i + 1;
                }
                proof {
                    assert(updates.deep_view() =~= topics.map_values(
                        |t: Seq<char>| Update::Unsubscribe(t),
                    ));
                }
                push_all_front(&mut self.subscription_updates_waiting_to_be_sent, updates);
                proof {
                    assert(packets.deep_view() =~= old(packets).deep_view() + Seq::<
                        PacketView,
                    >::empty());
                }
                false
            },
        }
    }

    /// Sends what the user asked for, as the difference between the
    /// subscriptions acknowledged and those wanted.
    fn send(&mut self, packet_identifiers: &mut PacketIdentifiers) -> (sent: Result<
        Vec<Packet>,
        Error,
    >)
        requires
            old(self).wf(),
            old(packet_identifiers).wf(),
        ensures
            final(self).wf(),
            final(packet_identifiers).wf(),
            ({
                let step = spec_send(old(self).session(old(packet_identifiers)));
                &&& final(self).session(final(packet_identifiers)) == step.session
                &&& match step.failure {
                    None => sent matches Ok(packets) && packets.deep_view() == step.packets,
                    Some(failure) => sent matches Err(err) && err@ == failure,
                }
            }),
    {
        let mut packets_waiting_to_be_sent: Vec<Packet> = Vec::new();
        proof {
            assert(packets_waiting_to_be_sent.deep_view() =~= Seq::<PacketView>::empty());
        }
        if self.subscription_updates_waiting_to_be_sent.len() == 0 {
            return Ok(packets_waiting_to_be_sent);
        }
        // Rather than send individual SUBSCRIBE and UNSUBSCRIBE packets for each update,
        // the updates are folded into the set of subscriptions that the user wants, and
        // the difference from the current subscriptions goes out: a SUBSCRIBE packet for
        // any net new subscriptions and an UNSUBSCRIBE packet for any net new
        // unsubscriptions.
        let target = self.target();
        let pending_subscriptions = self.pending_subscriptions(&target);
        let pending_unsubscriptions = self.pending_unsubscriptions(&target);
        // A failure to reserve a packet identifier is only returned if neither
        // subscription nor unsubscription generated a packet to send.
        let mut failed = false;
        if pending_subscriptions.len() > 0 {
            if !self.dispatch_subscriptions(
                pending_subscriptions,
                packet_identifiers,
                &mut packets_waiting_to_be_sent,
            ) {
                failed = true;
            }
        }
        let ghost first = packets_waiting_to_be_sent.deep_view();
        if pending_unsubscriptions.len() > 0 {
            if !self.dispatch_unsubscriptions(
                pending_unsubscriptions,
                packet_identifiers,
                &mut packets_waiting_to_be_sent,
            ) {
                failed = true;
            }
        }
        proof {
            assert(packets_waiting_to_be_sent.deep_view() =~= spec_send(
                old(self).session(old(packet_identifiers)),
            ).packets);
        }
        if packets_waiting_to_be_sent.len() == 0 && failed {
            return Err(Error::PacketIdentifiersExhausted);
        }
        Ok(packets_waiting_to_be_sent)
    }

    /// One pass of the machine. A packet from the server is taken out of
    /// `packet` where it is one for this machine; then what the user asked
    /// for is sent. The pass returns the packets to send, and the updates
    /// that the server has acknowledged.
    pub fn poll(
        &mut self,
        packet: &mut Option<Packet>,
        packet_identifiers: &mut PacketIdentifiers,
    ) -> (polled: Result<(Vec<Packet>, Vec<SubscriptionUpdate>), Error>)
        requires
            old(self).wf(),
            old(packet_identifiers).wf(),
            old(self).in_step(old(packet_identifiers)),
        ensures
            final(self).wf(),
            final(packet_identifiers).wf(),
            final(self).in_step(final(packet_identifiers)),
            ({
                let step = spec_poll(old(self).session(old(packet_identifiers)), *old(packet));
                &&& final(self).session(final(packet_identifiers)) == step.session
                &&& polled_as(polled, step)
                &&& *final(packet) == if step.consumed {
                    None
                } else {
                    *old(packet)
                }
            }),
    {
        proof {
            lemma_poll_keeps_identifiers_reserved(self.session(packet_identifiers), *packet, 0);
        }
        let subscription_updates = match self.handle(packet, packet_identifiers) {
            Ok(subscription_updates) => subscription_updates,
            Err(err) => return Err(err),
        };
        match self.send(packet_identifiers) {
            Ok(packets_waiting_to_be_sent) => Ok(
                (packets_waiting_to_be_sent, subscription_updates),
            ),
            Err(err) => Err(err),
        }
    }

    /// Readies the machine for a new connection, and returns the packets
    /// that the connection starts with.
    ///
    /// Where the session goes on, these are the packets that have not been
    /// acknowledged, each under its packet identifier. Where the session
    /// starts afresh, what has been sent counts as acknowledged, and all
    /// subscriptions go to the server again in one SUBSCRIBE packet, in
    /// ascending order of their topic filters.
    pub fn new_connection(
        &mut self,
        reset_session: bool,
        packet_identifiers: &mut PacketIdentifiers,
    ) -> (started: Result<Vec<Packet>, Error>)
        requires
            old(self).wf(),
            old(packet_identifiers).wf(),
            old(self).in_step(old(packet_identifiers)),
        ensures
            final(self).wf(),
            final(packet_identifiers).wf(),
            final(self).in_step(final(packet_identifiers)),
            ({
                let step = spec_new_connection(
                    old(self).session(old(packet_identifiers)),
                    reset_session,
                );
                &&& final(self).session(final(packet_identifiers)) == step.session
                &&& match step.failure {
                    None => started matches Ok(packets) && packets.deep_view() == step.packets,
                    Some(failure) => started matches Err(err) && err@ == failure,
                }
            }),
    {
        proof {
            lemma_new_connection_keeps_identifiers_reserved(
                self.session(packet_identifiers),
                reset_session,
                0,
            );
        }
        let mut packets: Vec<Packet> = Vec::new();
        if reset_session {
            let mut subscriptions = Subscriptions::new();
            core::mem::swap(&mut subscriptions, &mut self.subscriptions);
            // The changes that the server has not acknowledged are applied to the set of
            // subscriptions, in the order in which they were requested.
            loop
                invariant
                    subscriptions.wf(),
                    packet_identifiers.wf(),
                    self.subscriptions().len() == 0,
                    self.updates() == old(self).updates(),
                    packet_identifiers.previous() == old(packet_identifiers).previous(),
                    packet_identifiers.marked() == old(packet_identifiers).marked(),
                    spec_merged(subscriptions@, self.unacked()) == spec_merged(
                        old(self).subscriptions(),
                        old(self).unacked(),
                    ),
                    crate::client::publish::spec_release(packet_identifiers@, self.unacked())
                        == crate::client::publish::spec_release(
                        old(packet_identifiers)@,
                        old(self).unacked(),
                    ),
                ensures
                    self.unacked().len() == 0,
                decreases self.unacked().len(),
            {
                let ghost unacked = self.unacked();
                match self.subscription_updates_waiting_to_be_acked.pop_front() {
                    None => {
                        break ;
                    },
                    Some((packet_identifier, batch)) => {
                        proof {
                            assert(self.unacked() =~= unacked.drop_first());
                            assert(unacked[0] == (packet_identifier@, batch@));
                        }
                        packet_identifiers.discard(packet_identifier);
                        match batch {
                            BatchedSubscriptionUpdate::Subscribe(subscribe_to) => {
                                insert_all(&mut subscriptions, &subscribe_to);
                            },
                            BatchedSubscriptionUpdate::Unsubscribe(unsubscribe_from) => {
                                remove_all(&mut subscriptions, &unsubscribe_from);
                            },
                        }
                    },
                }
            }
            proof {
                assert(self.unacked() =~= Seq::<(u16, Batch)>::empty());
                assert(self.subscriptions() =~= Seq::<SubscribeToView>::empty());
                assert(packets.deep_view() =~= Seq::<PacketView>::empty());
            }
            // Generate a SUBSCRIBE packet for the final set of subscriptions
            if subscriptions.len() > 0 {
                let packet_identifier = match packet_identifiers.reserve() {
                    Ok(packet_identifier) => packet_identifier,
                    Err(err) => {
                        self.subscriptions = subscriptions;
                        return Err(Error::PacketIdentifiersExhausted);
                    },
                };
                let subscribe_to = subscriptions.into_vec();
                let ghost merged = subscribe_to.deep_view();
                self.subscription_updates_waiting_to_be_acked.push_back(
                    (
                        packet_identifier,
                        BatchedSubscriptionUpdate::Subscribe(duplicate_subscriptions(&subscribe_to)),
                    ),
                );
                let packet = Packet::Subscribe { packet_identifier, subscribe_to };
                let ghost packet_view = packet@;
                packets.push(packet);
                proof {
                    assert(self.unacked() =~= seq![
                        (packet_identifier@, Batch::Subscribe(merged)),
                    ]);
                    assert(packets.deep_view() =~= seq![packet_view]);
                }
            }
        } else {
            // Re-create all pending (ie unacked) changes to the set of subscriptions
            let ghost expected = self.unacked().map_values(
                |entry: (u16, Batch)| batch_packet(entry),
            );
            let mut i: usize = 0;
            proof {
                assert(packets.deep_view() =~= expected.take(0));
            }
            while i < self.subscription_updates_waiting_to_be_acked.len()
                invariant
                    i <= self.unacked().len(),
                    self.unacked().len() == self.subscription_updates_waiting_to_be_acked@.len(),
                    expected == self.unacked().map_values(
                        |entry: (u16, Batch)| batch_packet(entry),
                    ),
                    packets.deep_view() == expected.take(i as int),
                decreases self.unacked().len() - i,
            {
                let ghost so_far = packets.deep_view();
                let entry = &self.subscription_updates_waiting_to_be_acked[i];
                let packet = match &entry.1 {
                    BatchedSubscriptionUpdate::Subscribe(subscribe_to) => Packet::Subscribe {
                        packet_identifier: entry.0,
                        subscribe_to: duplicate_subscriptions(subscribe_to),
                    },
                    BatchedSubscriptionUpdate::Unsubscribe(unsubscribe_from) => {
                        Packet::Unsubscribe {
                            packet_identifier: entry.0,
                            unsubscribe_from: duplicate_strings(unsubscribe_from),
                        }
                    },
                };
                let ghost packet_view = packet@;
                packets.push(packet);
                i = i + 1;
                proof {
                    assert(packets.deep_view() =~= so_far.push(packet_view));
                    assert(packets.deep_view() =~= expected.take(i as int));
                }
            }
            proof {
                assert(expected.take(i as int) =~= expected);
            }
        }
        Ok(packets)
    }
}

/// The mathematical value of a queue of updates.
pub open spec fn updates_view(updates: Seq<SubscriptionUpdate>) -> Seq<Update> {
    updates.map_values(|u: SubscriptionUpdate| u@)
}

/// One more update at the front of some that are reversed.
proof fn lemma_reverse_take(updates: Seq<Update>, n: int)
    requires
        0 <= n < updates.len(),
    ensures
        updates.take(n + 1).reverse() == seq![updates[n]] + updates.take(n).reverse(),
{
    assert(updates.take(n + 1).reverse() =~= seq![updates[n]] + updates.take(n).reverse());
}

/// Puts updates at the front of a queue one after the other, so that the
/// last of them comes to stand foremost.
fn push_all_front(queue: &mut VecDeque<SubscriptionUpdate>, updates: Vec<SubscriptionUpdate>)
    ensures
        updates_view(final(queue)@) == updates.deep_view().reverse() + updates_view(old(queue)@),
{
    let mut updates = updates;
    let ghost all = updates.deep_view();
    let ghost mut n: int = 0;
    proof {
        assert(all.take(0).reverse() + updates_view(old(queue)@) =~= updates_view(old(queue)@));
        assert(all.skip(0) =~= all);
    }
    loop
        invariant
            0 <= n <= all.len(),
            updates@.len() == all.len() - n,
            updates.deep_view() == all.skip(n),
            updates_view(queue@) == all.take(n).reverse() + updates_view(old(queue)@),
        ensures
            n == all.len(),
        decreases updates@.len(),
    {
        if updates.len() == 0 {
            break ;
        }
        let ghost before = updates_view(queue@);
        let ghost rest = updates.deep_view();
        let ghost first = updates@[0];
        proof {
            assert(rest[0] == first@);
            assert(all.skip(n)[0] == all[n]);
        }
        let update = updates.remove(0);
        proof {
            assert(update == first);
            assert(updates.deep_view() =~= rest.drop_first());
            assert(rest.drop_first() =~= all.skip(n + 1));
        }
        queue.push_front(update);
        proof {
            assert(updates_view(queue@) =~= seq![all[n]] + before);
            lemma_reverse_take(all, n);
            assert(updates_view(queue@) =~= all.take(n + 1).reverse() + updates_view(old(queue)@));
            n = n + 1;
        }
    }
    proof {
        assert(all.take(n) =~= all);
    }
}

/// Puts each of some subscriptions in its place, first to last.
fn insert_all(subscriptions: &mut Subscriptions, subscribe_to: &Vec<SubscribeTo>)
    requires
        old(subscriptions).wf(),
    ensures
        final(subscriptions).wf(),
        final(subscriptions)@ == spec_inserted(old(subscriptions)@, subscribe_to.deep_view()),
{
    let ghost requests = subscribe_to.deep_view();
    let mut i: usize = 0;
    proof {
        assert(requests.skip(0) =~= requests);
    }
    while i < subscribe_to.len()
        invariant
            i <= subscribe_to.len(),
            requests == subscribe_to.deep_view(),
            requests.len() == subscribe_to.len(),
            subscriptions.wf(),
            spec_inserted(old(subscriptions)@, requests) == spec_inserted(
                subscriptions@,
                requests.skip(i as int),
            ),
        decreases subscribe_to.len() - i,
    {
        proof {
            assert(requests.skip(i as int)[0] == subscribe_to@[i as int]@);
            assert(requests.skip(i as int).drop_first() =~= requests.skip(i + 1));
        }
        subscriptions.insert(subscribe_to[i].duplicate());
        i = i + 1;
    }
}

/// Takes the subscriptions to some topic filters out, first to last.
fn remove_all(subscriptions: &mut Subscriptions, unsubscribe_from: &Vec<String>)
    requires
        old(subscriptions).wf(),
    ensures
        final(subscriptions).wf(),
        final(subscriptions)@ == spec_unsubscribed(
            old(subscriptions)@,
            unsubscribe_from.deep_view(),
        ),
{
    let ghost topics = unsubscribe_from.deep_view();
    let mut i: usize = 0;
    proof {
        assert(topics.skip(0) =~= topics);
    }
    while i < unsubscribe_from.len()
        invariant
            i <= unsubscribe_from.len(),
            topics == unsubscribe_from.deep_view(),
            topics.len() == unsubscribe_from.len(),
            subscriptions.wf(),
            spec_unsubscribed(old(subscriptions)@, topics) == spec_unsubscribed(
                subscriptions@,
                topics.skip(i as int),
            ),
        decreases unsubscribe_from.len() - i,
    {
        proof {
            assert(topics.skip(i as int)[0] == unsubscribe_from@[i as int]@);
            assert(topics.skip(i as int).drop_first() =~= topics.skip(i + 1));
        }
        subscriptions.remove(&unsubscribe_from[i]);
        i = i + 1;
    }
}

// ---------------------------------------------------------------------------
// Laws
// ---------------------------------------------------------------------------
/// The packet identifiers of the batches that wait for their
/// acknowledgement.
pub open spec fn unacked_identifiers(unacked: Seq<(u16, Batch)>) -> Set<u16> {
    Set::new(|id: u16| exists|i: int| 0 <= i < unacked.len() && (#[trigger] unacked[i]).0 == id)
}

/// Whether every batch that waits for its acknowledgement has a packet
/// identifier of its own, and all of these are in use.
pub open spec fn identifiers_reserved(session: Session) -> bool {
    &&& forall|i: int, j: int|
        0 <= i < j < session.unacked.len() ==> session.unacked[i].0 != session.unacked[j].0
    &&& unacked_identifiers(session.unacked).subset_of(session.reserved)
}

/// Whether a packet identifier is in use, but not for a batch of this
/// machine.
pub open spec fn in_use_elsewhere(session: Session, id: u16) -> bool {
    session.reserved.contains(id) && !unacked_identifiers(session.unacked).contains(id)
}

/// A packet from the server leaves the packet identifiers of the batches in
/// use, and any that is in use elsewhere as it is.
pub proof fn lemma_handle_keeps_identifiers_reserved(
    session: Session,
    packet: Option<Packet>,
    other: u16,
)
    requires
        identifiers_reserved(session),
    ensures
        identifiers_reserved(spec_handle(session, packet).session),
        in_use_elsewhere(session, other) ==> in_use_elsewhere(
            spec_handle(session, packet).session,
            other,
        ),
{
    let after = spec_handle(session, packet).session;
    if after.unacked != session.unacked {
        assert(after.unacked == session.unacked.drop_first());
        assert(after.reserved == session.reserved.remove(session.unacked[0].0));
        assert forall|id: u16| unacked_identifiers(after.unacked).contains(
            id,
        ) implies after.reserved.contains(id) && unacked_identifiers(session.unacked).contains(
            id,
        ) by {
            let i = choose|i: int|
                0 <= i < after.unacked.len() && (#[trigger] after.unacked[i]).0 == id;
            assert(session.unacked[i + 1].0 == id);
            assert(session.unacked[0].0 != session.unacked[i + 1].0);
        }
        assert(unacked_identifiers(session.unacked).contains(session.unacked[0].0));
    }
}

/// Sending a batch leaves the packet identifiers of the batches in use, and
/// any that is in use elsewhere as it is.
pub proof fn lemma_dispatch_keeps_identifiers_reserved(session: Session, batch: Batch, other: u16)
    requires
        identifiers_reserved(session),
    ensures
        identifiers_reserved(spec_dispatch(session, batch).session),
        in_use_elsewhere(session, other) ==> in_use_elsewhere(
            spec_dispatch(session, batch).session,
            other,
        ),
{
    let after = spec_dispatch(session, batch).session;
    match spec_reserve(session.in_use(), session.previous) {
        Some(reserved) => {
            crate::client::identifiers::lemma_reserved_is_free(session.in_use(), session.previous);
            assert forall|id: u16| unacked_identifiers(after.unacked).contains(
                id,
            ) implies after.reserved.contains(id) && (id == reserved || unacked_identifiers(
                session.unacked,
            ).contains(id)) by {
                let i = choose|i: int|
                    0 <= i < after.unacked.len() && (#[trigger] after.unacked[i]).0 == id;
                if i < session.unacked.len() {
                    assert(session.unacked[i].0 == id);
                }
            }
            assert forall|i: int, j: int| 0 <= i < j < after.unacked.len() implies after.unacked[i].0
                != after.unacked[j].0 by {
                assert(session.unacked[i] == after.unacked[i]);
                if j == session.unacked.len() {
                    assert(unacked_identifiers(session.unacked).contains(session.unacked[i].0));
                } else {
                    assert(session.unacked[j] == after.unacked[j]);
                }
            }
        },
        None => {},
    }
}

/// Sending what the user asked for leaves the packet identifiers of the
/// batches in use, and any that is in use elsewhere as it is.
pub proof fn lemma_send_keeps_identifiers_reserved(session: Session, other: u16)
    requires
        identifiers_reserved(session),
    ensures
        identifiers_reserved(spec_send(session).session),
        in_use_elsewhere(session, other) ==> in_use_elsewhere(spec_send(session).session, other),
{
    if session.updates.len() > 0 {
        let target = spec_target(session.subscriptions, session.updates);
        let subscribe_to = spec_pending_subscriptions(
            session.subscriptions,
            target,
            target.len(),
        );
        let unsubscribe_from = spec_pending_unsubscriptions(
            session.subscriptions,
            target,
            session.subscriptions.len(),
        );
        let start = Session { updates: Seq::empty(), ..session };
        let first = if subscribe_to.len() > 0 {
            spec_dispatch(start, Batch::Subscribe(subscribe_to))
        } else {
            idle(start)
        };
        if subscribe_to.len() > 0 {
            lemma_dispatch_keeps_identifiers_reserved(start, Batch::Subscribe(subscribe_to), other);
        }
        if unsubscribe_from.len() > 0 {
            lemma_dispatch_keeps_identifiers_reserved(
                first.session,
                Batch::Unsubscribe(unsubscribe_from),
                other,
            );
        }
    }
}

/// A pass of the machine leaves the packet identifiers of the batches in
/// use, and any that is in use elsewhere as it is.
pub proof fn lemma_poll_keeps_identifiers_reserved(
    session: Session,
    packet: Option<Packet>,
    other: u16,
)
    requires
        identifiers_reserved(session),
    ensures
        identifiers_reserved(spec_poll(session, packet).session),
        in_use_elsewhere(session, other) ==> in_use_elsewhere(
            spec_poll(session, packet).session,
            other,
        ),
{
    lemma_handle_keeps_identifiers_reserved(session, packet, other);
    lemma_send_keeps_identifiers_reserved(spec_handle(session, packet).session, other);
}

/// Giving back the packet identifiers of some batches leaves no other
/// short: what was in use elsewhere still is.
proof fn lemma_release_keeps_others(in_use: Set<u16>, unacked: Seq<(u16, Batch)>, other: u16)
    requires
        in_use.contains(other),
        !unacked_identifiers(unacked).contains(other),
    ensures
        crate::client::publish::spec_release(in_use, unacked).contains(other),
{
    assert forall|i: int| 0 <= i < unacked.len() implies (#[trigger] unacked[i]).0 != other by {
        if unacked[i].0 == other {
            assert(unacked_identifiers(unacked).contains(other));
        }
    }
    crate::client::publish::lemma_release(in_use, unacked, other);
}

/// A new connection leaves the packet identifiers of the batches in use, and
/// any that is in use elsewhere as it is.
pub proof fn lemma_new_connection_keeps_identifiers_reserved(
    session: Session,
    reset_session: bool,
    other: u16,
)
    requires
        identifiers_reserved(session),
    ensures
        identifiers_reserved(spec_new_connection(session, reset_session).session),
        in_use_elsewhere(session, other) ==> in_use_elsewhere(
            spec_new_connection(session, reset_session).session,
            other,
        ),
{
    if reset_session {
        let after = spec_new_connection(session, reset_session).session;
        let in_use = crate::client::publish::spec_release(session.reserved, session.unacked);
        crate::client::identifiers::lemma_reserved_is_free(
            in_use.union(session.marked),
            session.previous,
        );
        if in_use_elsewhere(session, other) {
            lemma_release_keeps_others(session.reserved, session.unacked, other);
        }
        assert forall|id: u16| unacked_identifiers(after.unacked).contains(
            id,
        ) implies after.reserved.contains(id) && (in_use_elsewhere(session, other) ==> id
            != other) by {
            let i = choose|i: int|
                0 <= i < after.unacked.len() && (#[trigger] after.unacked[i]).0 == id;
        }
    }
}

/// To subscribe to a topic filter and then to unsubscribe from it comes to
/// unsubscribing from it.
pub proof fn lemma_subscribe_then_unsubscribe(
    subscriptions: Seq<SubscribeToView>,
    subscribe_to: SubscribeToView,
)
    requires
        ascending(subscriptions),
    ensures
        spec_remove(spec_insert(subscriptions, subscribe_to), subscribe_to.topic_filter)
            == spec_remove(subscriptions, subscribe_to.topic_filter),
{
    let topic = subscribe_to.topic_filter;
    let inserted = spec_insert(subscriptions, subscribe_to);
    let r = crate::client::topics::rank(subscriptions, topic);
    crate::client::topics::lemma_rank(subscriptions, topic);
    lemma_insert(subscriptions, subscribe_to);
    assert(inserted[r] == subscribe_to);
    crate::client::topics::lemma_rank_at(inserted, r);
    assert(spec_remove(inserted, topic) =~= spec_remove(subscriptions, topic));
}

/// To subscribe to a topic filter twice comes to subscribing the second
/// time.
pub proof fn lemma_subscribe_twice(
    subscriptions: Seq<SubscribeToView>,
    first: SubscribeToView,
    second: SubscribeToView,
)
    requires
        ascending(subscriptions),
        first.topic_filter == second.topic_filter,
    ensures
        spec_insert(spec_insert(subscriptions, first), second) == spec_insert(
            subscriptions,
            second,
        ),
{
    let topic = first.topic_filter;
    let inserted = spec_insert(subscriptions, first);
    let r = crate::client::topics::rank(subscriptions, topic);
    crate::client::topics::lemma_rank(subscriptions, topic);
    lemma_insert(subscriptions, first);
    assert(inserted[r] == first);
    crate::client::topics::lemma_rank_at(inserted, r);
    assert(spec_insert(inserted, second) =~= spec_insert(subscriptions, second));
}

/// Among the wanted subscriptions, those that are acknowledged as they are
/// wanted are not pending.
proof fn lemma_nothing_pending(subscriptions: Seq<SubscribeToView>, n: nat)
    requires
        ascending(subscriptions),
        n <= subscriptions.len(),
    ensures
        spec_pending_subscriptions(subscriptions, subscriptions, n) == Seq::<
            SubscribeToView,
        >::empty(),
        spec_pending_unsubscriptions(subscriptions, subscriptions, n) == Seq::<
            Seq<char>,
        >::empty(),
    decreases n,
{
    if n > 0 {
        lemma_nothing_pending(subscriptions, (n - 1) as nat);
        crate::client::topics::lemma_rank_at(subscriptions, n - 1);
    }
}

/// Where the user subscribes to a topic filter that is not subscribed to
/// and unsubscribes from it again before anything has been sent, no packet is
/// sent: no SUBSCRIBE and no UNSUBSCRIBE.
pub proof fn lemma_subscribe_then_unsubscribe_sends_nothing(
    session: Session,
    topic: Seq<char>,
    qos: QoS,
)
    requires
        ascending(session.subscriptions),
        !holds(session.subscriptions, topic),
        session.updates == seq![
            Update::Subscribe(SubscribeToView { topic_filter: topic, qos }),
            Update::Unsubscribe(topic),
        ],
    ensures
        spec_send(session).packets == Seq::<PacketView>::empty(),
        spec_send(session).failure is None,
        spec_send(session).session == (Session { updates: Seq::empty(), ..session }),
{
    let subscribe_to = SubscribeToView { topic_filter: topic, qos };
    let inserted = spec_insert(session.subscriptions, subscribe_to);
    let later = session.updates.drop_first();
    assert(later[0] == Update::Unsubscribe(topic));
    assert(later.drop_first() =~= Seq::<Update>::empty());
    lemma_subscribe_then_unsubscribe(session.subscriptions, subscribe_to);
    assert(spec_target(spec_remove(inserted, topic), later.drop_first()) == spec_remove(
        inserted,
        topic,
    ));
    assert(spec_target(inserted, later) == spec_remove(inserted, topic));
    assert(spec_target(session.subscriptions, session.updates) == session.subscriptions);
    lemma_nothing_pending(session.subscriptions, session.subscriptions.len());
    assert(spec_send(session).packets =~= Seq::<PacketView>::empty());
}

/// The wanted subscriptions that are pending, where all that is wanted is
/// one more subscription, or one at another QoS: that one.
proof fn lemma_one_pending(
    subscriptions: Seq<SubscribeToView>,
    subscribe_to: SubscribeToView,
    n: nat,
)
    requires
        ascending(subscriptions),
        lookup(subscriptions, subscribe_to.topic_filter) != Some(subscribe_to.qos),
        n <= spec_insert(subscriptions, subscribe_to).len(),
    ensures
        spec_pending_subscriptions(subscriptions, spec_insert(subscriptions, subscribe_to), n)
            == if n <= crate::client::topics::rank(subscriptions, subscribe_to.topic_filter) {
            Seq::<SubscribeToView>::empty()
        } else {
            seq![subscribe_to]
        },
    decreases n,
{
    let target = spec_insert(subscriptions, subscribe_to);
    let topic = subscribe_to.topic_filter;
    let r = crate::client::topics::rank(subscriptions, topic);
    crate::client::topics::lemma_rank(subscriptions, topic);
    lemma_insert(subscriptions, subscribe_to);
    if n > 0 {
        lemma_one_pending(subscriptions, subscribe_to, (n - 1) as nat);
        crate::client::topics::lemma_rank_at(target, n - 1);
        crate::client::topics::lemma_rank_at(target, r);
        if n - 1 == r {
            assert(target[r] == subscribe_to);
            assert(Seq::<SubscribeToView>::empty().push(subscribe_to) =~= seq![subscribe_to]);
        } else {
            assert(target[n - 1].topic_filter != topic);
            assert(lookup(target, target[n - 1].topic_filter) == Some(target[n - 1].qos));
        }
    }
}

/// Where all that is wanted is one more subscription, or one at another
/// QoS, no acknowledged subscription is unwanted.
proof fn lemma_none_unwanted(
    subscriptions: Seq<SubscribeToView>,
    subscribe_to: SubscribeToView,
    n: nat,
)
    requires
        ascending(subscriptions),
        n <= subscriptions.len(),
    ensures
        spec_pending_unsubscriptions(
            subscriptions,
            spec_insert(subscriptions, subscribe_to),
            n,
        ) == Seq::<Seq<char>>::empty(),
    decreases n,
{
    if n > 0 {
        let target = spec_insert(subscriptions, subscribe_to);
        let topic = subscriptions[n - 1].topic_filter;
        lemma_none_unwanted(subscriptions, subscribe_to, (n - 1) as nat);
        lemma_insert(subscriptions, subscribe_to);
        crate::client::topics::lemma_rank_at(subscriptions, n - 1);
        assert(lookup(subscriptions, topic) is Some);
        assert(lookup(target, topic) is Some);
        assert(holds(target, topic));
    }
}

/// Where the user subscribes to a topic filter twice before anything has
/// been sent, and the second QoS is not the one acknowledged, exactly one
/// SUBSCRIBE packet is sent, for that topic filter with the second QoS, and
/// no UNSUBSCRIBE packet, under the packet identifier that is handed out
/// next.
pub proof fn lemma_subscribe_twice_sends_one(
    session: Session,
    topic: Seq<char>,
    first: QoS,
    second: QoS,
)
    requires
        ascending(session.subscriptions),
        lookup(session.subscriptions, topic) != Some(second),
        spec_reserve(session.in_use(), session.previous) is Some,
        session.updates == seq![
            Update::Subscribe(SubscribeToView { topic_filter: topic, qos: first }),
            Update::Subscribe(SubscribeToView { topic_filter: topic, qos: second }),
        ],
    ensures
        spec_send(session).failure is None,
        spec_send(session).packets == seq![
            PacketView::Subscribe {
                packet_identifier: spec_reserve(session.in_use(), session.previous)->Some_0,
                subscribe_to: seq![SubscribeToView { topic_filter: topic, qos: second }],
            },
        ],
{
    let one = SubscribeToView { topic_filter: topic, qos: first };
    let two = SubscribeToView { topic_filter: topic, qos: second };
    let inserted = spec_insert(session.subscriptions, one);
    let target = spec_insert(session.subscriptions, two);
    let later = session.updates.drop_first();
    assert(later[0] == Update::Subscribe(two));
    assert(later.drop_first() =~= Seq::<Update>::empty());
    lemma_subscribe_twice(session.subscriptions, one, two);
    assert(spec_target(spec_insert(inserted, two), later.drop_first()) == target);
    assert(spec_target(inserted, later) == target);
    assert(spec_target(session.subscriptions, session.updates) == target);
    crate::client::topics::lemma_rank(session.subscriptions, topic);
    lemma_one_pending(session.subscriptions, two, target.len());
    lemma_none_unwanted(session.subscriptions, two, session.subscriptions.len());
    let packets = spec_send(session).packets;
    assert(packets =~= seq![
        PacketView::Subscribe {
            packet_identifier: spec_reserve(session.in_use(), session.previous)->Some_0,
            subscribe_to: seq![two],
        },
    ]);
}

} // verus!
