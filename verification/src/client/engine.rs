//! The client: the four machines and the state they share, put together.
//!
//! The client decides and its caller acts: the caller owns the transport and
//! the timers, hands the client what arrives, and sends what the client
//! queues.

use crate::client::connect::{
    spec_connect_packet, spec_settle, spec_take_in, Action, Connect, Machine, Outcome, Stage,
};
use crate::client::identifiers::PacketIdentifiers;
use crate::client::publish::PublishError;
use crate::client::subscriptions::{SubscriptionUpdate, Update, UpdateSubscriptionError};
use crate::client::{publish, subscriptions};
use crate::client::{Error, Failure, ReceivedPublication, ShutdownError};
use crate::proto::packet::{option_publication_view, option_string_view, PacketView};
use crate::proto::{ClientId, ClientIdView, Packet, Publication, SubscribeTo};
use std::collections::VecDeque;
use std::time::Duration;
use vstd::prelude::*;

verus! {

/// An event generated by the [`Client`]
#[derive(Debug, PartialEq, Eq)]
pub enum Event {
    /// The [`Client`] established a new connection to the server.
    NewConnection {
        /// Whether the session was reset as part of this new connection or not
        reset_session: bool,
    },
    /// A publication received from the server
    Publication(ReceivedPublication),
    /// Subscription updates acked by the server
    SubscriptionUpdates(Vec<SubscriptionUpdate>),
}

/// The mathematical value of an [`Event`].
pub enum Occurrence {
    NewConnection { reset_session: bool },
    Publication(ReceivedPublication),
    SubscriptionUpdates(Seq<Update>),
}

impl View for Event {
    type V = Occurrence;

    open spec fn view(&self) -> Occurrence {
        match self {
            Event::NewConnection { reset_session } => Occurrence::NewConnection {
                reset_session: *reset_session,
            },
            Event::Publication(publication) => Occurrence::Publication(*publication),
            Event::SubscriptionUpdates(updates) => Occurrence::SubscriptionUpdates(
                updates.deep_view(),
            ),
        }
    }
}

/// The mathematical value of an optional event.
pub open spec fn option_event_view(event: Option<Event>) -> Option<Occurrence> {
    match event {
        Some(event) => Some(event@),
        None => None,
    }
}

/// The machines of a client that is up, and the state they share.
pub struct Engine<A> {
    client_id: ClientId,
    username: Option<String>,
    password: Option<String>,
    will: Option<Publication>,
    keep_alive: Duration,
    packet_identifiers: PacketIdentifiers,
    connect: Connect,
    ping: crate::client::ping::State,
    publish: publish::State<A>,
    subscriptions: subscriptions::State,
    /// Packets waiting to be written to the transport
    packets_waiting_to_be_sent: VecDeque<Packet>,
}

/// Whether a packet from the server is one for a machine of the client.
pub fn is_for_client(packet: &Option<Packet>) -> (accepted: bool)
    ensures
        accepted == for_client(*packet),
{
    match packet {
        None => true,
        Some(Packet::PingResp) => true,
        Some(Packet::PubAck { .. }) => true,
        Some(Packet::PubComp { .. }) => true,
        Some(Packet::Publish { .. }) => true,
        Some(Packet::PubRec { .. }) => true,
        Some(Packet::PubRel { .. }) => true,
        Some(Packet::SubAck { .. }) => true,
        Some(Packet::UnsubAck { .. }) => true,
        _ => false,
    }
}

/// Whether a packet from the server is one for a machine of the client.
pub open spec fn for_client(packet: Option<Packet>) -> bool {
    match packet {
        None => true,
        Some(Packet::PingResp) => true,
        Some(Packet::PubAck { .. }) => true,
        Some(Packet::PubComp { .. }) => true,
        Some(Packet::Publish { .. }) => true,
        Some(Packet::PubRec { .. }) => true,
        Some(Packet::PubRel { .. }) => true,
        Some(Packet::SubAck { .. }) => true,
        Some(Packet::UnsubAck { .. }) => true,
        _ => false,
    }
}

/// The client's error that a failure of the publish machine becomes.
pub open spec fn publish_failure(failure: publish::Failure) -> Failure {
    match failure {
        publish::Failure::DuplicateNotMarked(id) => {
            Failure::DuplicateExactlyOncePublishPacketNotMarkedDuplicate(id)
        },
        publish::Failure::Exhausted => Failure::PacketIdentifiersExhausted,
    }
}

/// What a pass of the client over a packet from the server comes to.
pub struct Pass<A> {
    pub ping: crate::client::ping::State,
    pub publish: publish::Session<A>,
    pub subscriptions: subscriptions::Session,
    /// The packets that the pass adds to those waiting to be sent.
    pub packets: Seq<PacketView>,
    /// The notifiers of the messages that are now acknowledged.
    pub acks: Seq<A>,
    pub event: Option<Occurrence>,
    pub failure: Option<Failure>,
}

/// The subscriptions machine with the allocator as another machine left it.
pub open spec fn with_allocator<A>(
    session: subscriptions::Session,
    allocator: publish::Session<A>,
) -> subscriptions::Session {
    subscriptions::Session {
        reserved: allocator.reserved,
        marked: allocator.marked,
        previous: allocator.previous,
        ..session
    }
}

/// The publish machine with the allocator as another machine left it.
pub open spec fn allocator_of<A>(
    session: publish::Session<A>,
    allocator: subscriptions::Session,
) -> publish::Session<A> {
    publish::Session {
        reserved: allocator.reserved,
        marked: allocator.marked,
        previous: allocator.previous,
        ..session
    }
}

/// A pass of the client over a packet from the server, at the time `now`:
/// the ping machine sees the packet first, then the publish machine, then,
/// unless that has a message for the user, the subscriptions machine. The
/// packets that they give are queued in that order. Where a machine fails,
/// the pass fails, and nothing is queued.
pub open spec fn spec_received<A>(
    ping: crate::client::ping::State,
    publish: publish::Session<A>,
    subscriptions: subscriptions::Session,
    packet: Option<Packet>,
    now: u128,
    keep_alive: Duration,
) -> Pass<A> {
    let due = crate::client::ping::spec_due(
        crate::client::ping::spec_seen(ping, packet, now, keep_alive),
        now,
        keep_alive,
    );
    let pinged = if now >= due {
        crate::client::ping::State::WaitingForNextPing(
            crate::client::ping::spec_deadline(due, keep_alive),
        )
    } else {
        crate::client::ping::State::WaitingForNextPing(due)
    };
    let ping_packets = if now >= due {
        seq![PacketView::PingReq]
    } else {
        Seq::empty()
    };
    let after_ping = if packet matches Some(Packet::PingResp) {
        None
    } else {
        packet
    };
    let published = publish::spec_poll(publish, after_ping);
    let after_publish = if published.consumed {
        None
    } else {
        after_ping
    };
    if published.failure is Some {
        Pass {
            ping: pinged,
            publish: published.session,
            subscriptions: with_allocator(subscriptions, published.session),
            packets: Seq::empty(),
            acks: published.acks,
            event: None,
            failure: Some(publish_failure(published.failure->Some_0)),
        }
    } else if published.received is Some {
        Pass {
            ping: pinged,
            publish: published.session,
            subscriptions: with_allocator(subscriptions, published.session),
            packets: ping_packets + published.packets,
            acks: published.acks,
            event: Some(Occurrence::Publication(published.received->Some_0)),
            failure: None,
        }
    } else {
        let subscribed = subscriptions::spec_poll(
            with_allocator(subscriptions, published.session),
            after_publish,
        );
        Pass {
            ping: pinged,
            publish: allocator_of(published.session, subscribed.session),
            subscriptions: subscribed.session,
            packets: if subscribed.failure is Some {
                Seq::empty()
            } else {
                ping_packets + published.packets + subscribed.packets
            },
            acks: published.acks,
            event: if subscribed.failure is None && subscribed.events.len() > 0 {
                Some(Occurrence::SubscriptionUpdates(subscribed.events))
            } else {
                None
            },
            failure: subscribed.failure,
        }
    }
}

/// Whether every packet identifier under which something is in flight, a
/// message either way or a batch of subscription updates, is in use: the
/// client has reserved those of its own messages and batches, each for that
/// alone, and those of the messages of the server are marked.
pub open spec fn identifiers_reserved<A>(
    publish: publish::Session<A>,
    subscriptions: subscriptions::Session,
) -> bool {
    &&& publish.reserved == subscriptions.reserved
    &&& publish.marked == subscriptions.marked
    &&& publish.previous == subscriptions.previous
    &&& publish.wf()
    &&& publish::identifiers_reserved(publish)
    &&& subscriptions::identifiers_reserved(subscriptions)
    &&& publish.outbound().disjoint(subscriptions::unacked_identifiers(subscriptions.unacked))
}

/// Every packet identifier under which something is in flight is in use.
pub proof fn lemma_in_flight_is_in_use<A>(
    publish: publish::Session<A>,
    subscriptions: subscriptions::Session,
)
    requires
        identifiers_reserved(publish, subscriptions),
    ensures
        crate::client::in_flight::keys(publish.waiting_to_be_acked).subset_of(publish.in_use()),
        crate::client::in_flight::keys(publish.waiting_to_be_released).subset_of(
            publish.in_use(),
        ),
        crate::client::in_flight::keys(publish.waiting_to_be_completed).subset_of(
            publish.in_use(),
        ),
        subscriptions::unacked_identifiers(subscriptions.unacked).subset_of(publish.in_use()),
        subscriptions.in_use() == publish.in_use(),
{
    publish::lemma_in_flight_is_in_use(publish);
}

/// A pass of the publish machine leaves the packet identifiers of what is
/// in flight in use, those of the batches of subscription updates too.
pub proof fn lemma_publish_pass_keeps_identifiers_reserved<A>(
    publish: publish::Session<A>,
    subscriptions: subscriptions::Session,
    packet: Option<Packet>,
)
    requires
        identifiers_reserved(publish, subscriptions),
    ensures
        identifiers_reserved(
            publish::spec_poll(publish, packet).session,
            with_allocator(subscriptions, publish::spec_poll(publish, packet).session),
        ),
{
    let published = publish::spec_poll(publish, packet);
    let identifiers = subscriptions::unacked_identifiers(subscriptions.unacked);
    publish::lemma_poll_keeps_identifiers_reserved(publish, packet);
    assert forall|id: u16| identifiers.contains(id) implies publish::in_use_elsewhere(
        published.session,
        id,
    ) by {
        publish::lemma_poll_keeps_others(publish, packet, id);
    }
}

/// A new connection of the publish machine leaves the packet identifiers of
/// what is in flight in use, those of the batches of subscription updates
/// too.
pub proof fn lemma_publish_start_keeps_identifiers_reserved<A>(
    publish: publish::Session<A>,
    subscriptions: subscriptions::Session,
    reset_session: bool,
)
    requires
        identifiers_reserved(publish, subscriptions),
    ensures
        identifiers_reserved(
            publish::spec_new_connection(publish, reset_session),
            with_allocator(subscriptions, publish::spec_new_connection(publish, reset_session)),
        ),
{
    let published = publish::spec_new_connection(publish, reset_session);
    let identifiers = subscriptions::unacked_identifiers(subscriptions.unacked);
    publish::lemma_new_connection_keeps_identifiers_reserved(publish, reset_session);
    assert forall|id: u16| identifiers.contains(id) implies publish::in_use_elsewhere(
        published,
        id,
    ) by {
        publish::lemma_new_connection_keeps_others(publish, reset_session, id);
    }
}

/// A pass of the client leaves the packet identifiers of what is in flight
/// in use, whatever the packet from the server and whether or not the pass
/// fails.
pub proof fn lemma_received_keeps_identifiers_reserved<A>(
    ping: crate::client::ping::State,
    publish: publish::Session<A>,
    subscriptions: subscriptions::Session,
    packet: Option<Packet>,
    now: u128,
    keep_alive: Duration,
)
    requires
        identifiers_reserved(publish, subscriptions),
    ensures
        identifiers_reserved(
            spec_received(ping, publish, subscriptions, packet, now, keep_alive).publish,
            spec_received(ping, publish, subscriptions, packet, now, keep_alive).subscriptions,
        ),
{
    let after_ping = if packet matches Some(Packet::PingResp) {
        None
    } else {
        packet
    };
    let published = publish::spec_poll(publish, after_ping);
    let after_publish = if published.consumed {
        None
    } else {
        after_ping
    };
    let waiting = with_allocator(subscriptions, published.session);
    let identifiers = subscriptions::unacked_identifiers(subscriptions.unacked);
    publish::lemma_poll_keeps_identifiers_reserved(publish, after_ping);
    assert forall|id: u16| identifiers.contains(id) implies publish::in_use_elsewhere(
        published.session,
        id,
    ) by {
        publish::lemma_poll_keeps_others(publish, after_ping, id);
    }
    assert(identifiers_reserved(published.session, waiting));
    if published.failure is None && published.received is None {
        let subscribed = subscriptions::spec_poll(waiting, after_publish);
        subscriptions::lemma_poll_keeps_identifiers_reserved(waiting, after_publish, 0);
        let after = allocator_of(published.session, subscribed.session);
        assert(after.outbound() =~= published.session.outbound());
        assert forall|id: u16| after.outbound().contains(id) implies after.reserved.contains(id)
            && !subscriptions::unacked_identifiers(subscribed.session.unacked).contains(id) by {
            assert(published.session.reserved.contains(id));
            assert(!subscriptions::unacked_identifiers(waiting.unacked).contains(id));
            assert(subscriptions::in_use_elsewhere(waiting, id));
            subscriptions::lemma_poll_keeps_identifiers_reserved(waiting, after_publish, id);
        }
        assert(after.outbound().subset_of(after.reserved));
        assert(after.outbound().disjoint(
            subscriptions::unacked_identifiers(subscribed.session.unacked),
        ));
        assert(publish::identifiers_reserved(after));
    }
}

/// A new connection leaves the packet identifiers of what is in flight in
/// use.
pub proof fn lemma_new_connection_keeps_identifiers_reserved<A>(
    publish: publish::Session<A>,
    subscriptions: subscriptions::Session,
    reset_session: bool,
)
    requires
        identifiers_reserved(publish, subscriptions),
    ensures
        ({
            let published = publish::spec_new_connection(publish, reset_session);
            let subscribed = subscriptions::spec_new_connection(
                with_allocator(subscriptions, published),
                reset_session,
            );
            identifiers_reserved(allocator_of(published, subscribed.session), subscribed.session)
        }),
{
    let published = publish::spec_new_connection(publish, reset_session);
    let waiting = with_allocator(subscriptions, published);
    let subscribed = subscriptions::spec_new_connection(waiting, reset_session);
    let identifiers = subscriptions::unacked_identifiers(subscriptions.unacked);
    publish::lemma_new_connection_keeps_identifiers_reserved(publish, reset_session);
    assert forall|id: u16| identifiers.contains(id) implies publish::in_use_elsewhere(
        published,
        id,
    ) by {
        publish::lemma_new_connection_keeps_others(publish, reset_session, id);
    }
    assert(identifiers_reserved(published, waiting));
    subscriptions::lemma_new_connection_keeps_identifiers_reserved(waiting, reset_session, 0);
    let after = allocator_of(published, subscribed.session);
    assert(after.outbound() =~= published.outbound());
    assert forall|id: u16| after.outbound().contains(id) implies after.reserved.contains(id)
        && !subscriptions::unacked_identifiers(subscribed.session.unacked).contains(id) by {
        assert(published.reserved.contains(id));
        assert(!subscriptions::unacked_identifiers(waiting.unacked).contains(id));
        assert(subscriptions::in_use_elsewhere(waiting, id));
        subscriptions::lemma_new_connection_keeps_identifiers_reserved(
            waiting,
            reset_session,
            id,
        );
    }
    assert(after.outbound().subset_of(after.reserved));
    assert(after.outbound().disjoint(
        subscriptions::unacked_identifiers(subscribed.session.unacked),
    ));
    assert(publish::identifiers_reserved(after));
}

/// Queueing a message or an update of the subscriptions leaves the packet
/// identifiers of what is in flight in use: nothing is in flight for it yet.
pub proof fn lemma_queueing_keeps_identifiers_reserved<A>(
    publish: publish::Session<A>,
    subscriptions: subscriptions::Session,
    requests: Seq<publish::PublishRequest<A>>,
    updates: Seq<Update>,
)
    requires
        identifiers_reserved(publish, subscriptions),
    ensures
        identifiers_reserved(
            publish::Session { requests, ..publish },
            subscriptions::Session { updates, ..subscriptions },
        ),
{
    let after = publish::Session { requests, ..publish };
    assert(after.outbound() == publish.outbound());
}

/// Adds packets to the back of a queue.
fn enqueue(queue: &mut VecDeque<Packet>, packets: Vec<Packet>)
    ensures
        final(queue).deep_view() == old(queue).deep_view() + packets.deep_view(),
{
    let mut packets = packets;
    let ghost all = packets.deep_view();
    let ghost mut queued: Seq<PacketView> = Seq::empty();
    proof {
        assert(queue.deep_view() =~= old(queue).deep_view() + queued);
        assert(queued + packets.deep_view() =~= all);
    }
    loop
        invariant
            queue.deep_view() == old(queue).deep_view() + queued,
            queued + packets.deep_view() == all,
        ensures
            queued == all,
        decreases packets@.len(),
    {
        let ghost before = packets.deep_view();
        let ghost queue_before = queue.deep_view();
        if packets.len() == 0 {
            proof {
                assert(queued + packets.deep_view() =~= queued);
            }
            break ;
        }
        let packet = packets.remove(0);
        let ghost packet_view = packet@;
        queue.push_back(packet);
        proof {
            assert(packets.deep_view() =~= before.drop_first());
            assert(queue.deep_view() =~= queue_before.push(packet_view));
            let so_far = queued;
            queued = so_far.push(packet_view);
            assert(queued + packets.deep_view() =~= so_far + before);
            assert(queue.deep_view() =~= old(queue).deep_view() + queued);
        }
    }
}

/// Adds packets to the back of a list.
fn extend(list: &mut Vec<Packet>, packets: Vec<Packet>)
    ensures
        final(list).deep_view() == old(list).deep_view() + packets.deep_view(),
{
    let mut packets = packets;
    let ghost all = packets.deep_view();
    list.append(&mut packets);
    proof {
        assert(list.deep_view() =~= old(list).deep_view() + all);
    }
}

impl<A> Engine<A> {
    /// The client ID that the next CONNECT packet will hold.
    pub closed spec fn client_id(&self) -> ClientIdView {
        self.client_id@
    }

    /// The keep-alive time advertised to the server.
    pub closed spec fn keep_alive(&self) -> Duration {
        self.keep_alive
    }

    /// The connect machine.
    pub closed spec fn connect_machine(&self) -> Machine {
        self.connect@
    }

    /// The ping machine.
    pub closed spec fn ping(&self) -> crate::client::ping::State {
        self.ping
    }

    /// The publish machine, with the allocator of packet identifiers.
    pub closed spec fn publishing(&self) -> publish::Session<A> {
        self.publish.session(&self.packet_identifiers)
    }

    /// The subscriptions machine, with the allocator of packet identifiers.
    pub closed spec fn subscribing(&self) -> subscriptions::Session {
        self.subscriptions.session(&self.packet_identifiers)
    }

    /// The packets waiting to be sent, first to last.
    pub closed spec fn queue(&self) -> Seq<PacketView> {
        self.packets_waiting_to_be_sent.deep_view()
    }

    /// The user name that the client gives the server.
    pub closed spec fn username(&self) -> Option<Seq<char>> {
        option_string_view(self.username)
    }

    /// The password that the client gives the server.
    pub closed spec fn password(&self) -> Option<Seq<char>> {
        option_string_view(self.password)
    }

    /// The message that the server is to publish should the client be lost.
    pub closed spec fn will(&self) -> Option<crate::proto::packet::PublicationView> {
        option_publication_view(self.will)
    }

    /// The CONNECT packet of this client with the given client ID.
    pub open spec fn connect_packet(&self, client_id: ClientIdView) -> PacketView {
        spec_connect_packet(
            self.username(),
            self.password(),
            self.will(),
            client_id,
            self.keep_alive(),
        )
    }

    /// Whether another client has the same settings: user name, password,
    /// will and keep-alive time.
    pub open spec fn same_settings(&self, other: &Self) -> bool {
        &&& self.username() == other.username()
        &&& self.password() == other.password()
        &&& self.will() == other.will()
        &&& self.keep_alive() == other.keep_alive()
    }

    /// Whether this is a client as it is made from the given parameters:
    /// about to connect for the first time, with nothing to send and nothing
    /// in flight.
    pub open spec fn fresh(
        &self,
        client_id: Option<String>,
        username: Option<String>,
        password: Option<String>,
        will: Option<Publication>,
        max_reconnect_back_off: Duration,
        keep_alive: Duration,
    ) -> bool {
        &&& self.wf()
        &&& self.client_id() == match client_id {
            Some(id) => ClientIdView::IdWithCleanSession(id@),
            None => ClientIdView::ServerGenerated,
        }
        &&& self.username() == option_string_view(username)
        &&& self.password() == option_string_view(password)
        &&& self.will() == option_publication_view(will)
        &&& self.keep_alive() == keep_alive
        &&& self.connect_machine() == (Machine {
            max_back_off: crate::time::duration_nanos(max_reconnect_back_off) as nat,
            current_back_off: 0,
            state: Stage::BeginConnecting,
        })
        &&& self.ping() == crate::client::ping::State::BeginWaitingForNextPing
        &&& self.queue() == Seq::<PacketView>::empty()
        &&& self.publishing() == (publish::Session::<A> {
            requests: Seq::empty(),
            waiting_to_be_acked: Seq::empty(),
            waiting_to_be_released: Seq::empty(),
            waiting_to_be_completed: Seq::empty(),
            reserved: Set::empty(),
            marked: Set::empty(),
            previous: u16::MAX,
        })
        &&& self.subscribing() == (subscriptions::Session {
            subscriptions: Seq::empty(),
            updates: Seq::empty(),
            unacked: Seq::empty(),
            reserved: Set::empty(),
            marked: Set::empty(),
            previous: u16::MAX,
        })
    }

    /// The state of each machine is in order, and every packet identifier
    /// under which something is in flight is in use.
    pub closed spec fn wf(&self) -> bool {
        &&& self.publish.wf()
        &&& self.subscriptions.wf()
        &&& self.packet_identifiers.wf()
        &&& identifiers_reserved(self.publishing(), self.subscribing())
    }

    /// In a client whose machines are in order, every packet identifier
    /// under which something is in flight is in use.
    pub proof fn lemma_wf_reserves(&self)
        requires
            self.wf(),
        ensures
            identifiers_reserved(self.publishing(), self.subscribing()),
    {
    }

    /// Create a new client with the given parameters
    ///
    /// * `client_id`
    ///
    ///     If set, this ID will be used to start a new clean session with the server. On subsequent re-connects, the ID will be re-used.
    ///     Otherwise, the client will use a server-generated ID for each new connection.
    ///
    /// * `username`, `password`
    ///
    ///     Optional credentials for the server.
    ///
    /// * `max_reconnect_back_off`
    ///
    ///     Every connection failure will double the back-off period, to a maximum of this value.
    ///
    /// * `keep_alive`
    ///
    ///     The keep-alive time advertised to the server. The client will ping the server at half this interval.
    pub fn new(
        client_id: Option<String>,
        username: Option<String>,
        password: Option<String>,
        will: Option<Publication>,
        max_reconnect_back_off: Duration,
        keep_alive: Duration,
    ) -> (engine: Self)
        ensures
            engine.fresh(client_id, username, password, will, max_reconnect_back_off, keep_alive),
    {
        let client_id = match client_id {
            Some(id) => ClientId::IdWithCleanSession(id),
            None => ClientId::ServerGenerated,
        };
        let engine = Engine {
            client_id,
            username,
            password,
            will,
            keep_alive,
            packet_identifiers: PacketIdentifiers::new(),
            connect: Connect::new(max_reconnect_back_off),
            ping: crate::client::ping::State::BeginWaitingForNextPing,
            publish: publish::State::new(),
            subscriptions: subscriptions::State::new(),
            packets_waiting_to_be_sent: VecDeque::new(),
        };
        proof {
            assert(engine.queue() =~= Seq::<PacketView>::empty());
        }
        engine
    }

    /// Queues a message to be published to the server. `ack_sender` is handed
    /// back by the pass in which the message is acknowledged.
    pub fn publish(&mut self, publication: Publication, ack_sender: A)
        requires
            old(self).wf(),
        ensures
            final(self).wf(),
            final(self).publishing() == (publish::Session {
                requests: old(self).publishing().requests.push(
                    publish::PublishRequest { publication, ack_sender },
                ),
                ..old(self).publishing()
            }),
            final(self).subscribing() == old(self).subscribing(),
            final(self).queue() == old(self).queue(),
            final(self).ping() == old(self).ping(),
            final(self).connect_machine() == old(self).connect_machine(),
            final(self).client_id() == old(self).client_id(),
            final(self).same_settings(old(self)),
    {
        self.publish.publish(publication, ack_sender);
    }

    /// Queues an update of the subscriptions.
    pub fn update_subscription(&mut self, subscription_update: SubscriptionUpdate)
        requires
            old(self).wf(),
        ensures
            final(self).wf(),
            final(self).subscribing() == (subscriptions::Session {
                updates: old(self).subscribing().updates.push(subscription_update@),
                ..old(self).subscribing()
            }),
            final(self).publishing() == old(self).publishing(),
            final(self).queue() == old(self).queue(),
            final(self).ping() == old(self).ping(),
            final(self).connect_machine() == old(self).connect_machine(),
            final(self).client_id() == old(self).client_id(),
            final(self).same_settings(old(self)),
    {
        self.subscriptions.update_subscription(subscription_update);
    }

    /// Takes in what came of the action that the connect machine asked for
    /// last, and returns the action to take now.
    pub fn connect(&mut self, outcome: Option<Outcome>) -> (action: Action)
        requires
            old(self).wf(),
        ensures
            final(self).wf(),
            ({
                let taken_in = spec_take_in(
                    old(self).connect_machine(),
                    outcome,
                    old(self).client_id(),
                );
                let settled = spec_settle(taken_in.0, old(self).connect_packet(taken_in.1));
                &&& final(self).connect_machine() == settled.0
                &&& final(self).client_id() == taken_in.1
                &&& action@ == settled.1
            }),
            final(self).publishing() == old(self).publishing(),
            final(self).subscribing() == old(self).subscribing(),
            final(self).queue() == old(self).queue(),
            final(self).ping() == old(self).ping(),
            final(self).same_settings(old(self)),
    {
        self.connect.poll(
            outcome,
            &self.username,
            &self.password,
            &self.will,
            &mut self.client_id,
            self.keep_alive,
        )
    }

    /// Readies the machines for a connection that the server has just
    /// accepted. The packets that were waiting to be sent are dropped, and
    /// those that the connection starts with take their place: the replay of
    /// the publish machine, then that of the subscriptions machine.
    pub fn new_connection(&mut self, reset_session: bool) -> (started: Result<Event, Error>)
        requires
            old(self).wf(),
        ensures
            final(self).wf(),
            final(self).ping() == crate::client::ping::State::BeginWaitingForNextPing,
            final(self).connect_machine() == old(self).connect_machine(),
            final(self).client_id() == old(self).client_id(),
            final(self).same_settings(old(self)),
            ({
                let published = publish::spec_new_connection(old(self).publishing(), reset_session);
                let subscribed = subscriptions::spec_new_connection(
                    with_allocator(old(self).subscribing(), published),
                    reset_session,
                );
                &&& final(self).subscribing() == subscribed.session
                &&& final(self).publishing() == allocator_of(published, subscribed.session)
                &&& match subscribed.failure {
                    None => {
                        &&& started matches Ok(event)
                        &&& event@ == Occurrence::NewConnection { reset_session }
                        &&& final(self).queue() == publish::spec_replay(published)
                            + subscribed.packets
                    },
                    Some(failure) => {
                        &&& started matches Err(err)
                        &&& err@ == failure
                        &&& final(self).queue() == publish::spec_replay(published)
                    },
                }
            }),
    {
        proof {
            lemma_publish_start_keeps_identifiers_reserved(
                self.publishing(),
                self.subscribing(),
                reset_session,
            );
            lemma_new_connection_keeps_identifiers_reserved(
                self.publishing(),
                self.subscribing(),
                reset_session,
            );
        }
        self.packets_waiting_to_be_sent = VecDeque::new();
        self.ping.new_connection();
        let replay = self.publish.new_connection(reset_session, &mut self.packet_identifiers);
        proof {
            assert(self.packets_waiting_to_be_sent.deep_view() =~= Seq::<PacketView>::empty());
        }
        enqueue(&mut self.packets_waiting_to_be_sent, replay);
        proof {
            assert(self.queue() =~= replay.deep_view());
        }
        let replay = match self.subscriptions.new_connection(
            reset_session,
            &mut self.packet_identifiers,
        ) {
            Ok(replay) => replay,
            Err(err) => return Err(err),
        };
        enqueue(&mut self.packets_waiting_to_be_sent, replay);
        Ok(Event::NewConnection { reset_session })
    }

    /// Takes the first of the packets waiting to be sent, where there is one.
    pub fn packet_to_send(&mut self) -> (packet: Option<Packet>)
        requires
            old(self).wf(),
        ensures
            final(self).wf(),
            match packet {
                Some(packet) => old(self).queue().len() > 0 && packet@ == old(self).queue()[0]
                    && final(self).queue() == old(self).queue().drop_first(),
                None => old(self).queue().len() == 0 && final(self).queue() == old(self).queue(),
            },
            final(self).publishing() == old(self).publishing(),
            final(self).subscribing() == old(self).subscribing(),
            final(self).ping() == old(self).ping(),
            final(self).connect_machine() == old(self).connect_machine(),
            final(self).client_id() == old(self).client_id(),
            final(self).same_settings(old(self)),
    {
        let packet = self.packets_waiting_to_be_sent.pop_front();
        proof {
            if packet is Some {
                assert(self.queue() =~= old(self).queue().drop_first());
            }
        }
        packet
    }

    /// Puts a packet that the transport did not take back at the front of
    /// those waiting to be sent.
    pub fn packet_not_sent(&mut self, packet: Packet)
        requires
            old(self).wf(),
        ensures
            final(self).wf(),
            final(self).queue() == seq![packet@] + old(self).queue(),
            final(self).publishing() == old(self).publishing(),
            final(self).subscribing() == old(self).subscribing(),
            final(self).ping() == old(self).ping(),
            final(self).connect_machine() == old(self).connect_machine(),
            final(self).client_id() == old(self).client_id(),
            final(self).same_settings(old(self)),
    {
        self.packets_waiting_to_be_sent.push_front(packet);
        proof {
            assert(self.queue() =~= seq![packet@] + old(self).queue());
        }
    }

    /// A pass of the client at the time `now`, over the packet that came from
    /// the server where one did. The packets that the machines give are
    /// added to those waiting to be sent, the notifiers of the messages that
    /// are acknowledged to `acks`, and the pass returns the event to hand to
    /// the user where there is one.
    pub fn received(&mut self, packet: Option<Packet>, now: u128, acks: &mut Vec<A>) -> (passed:
        Result<Option<Event>, Error>)
        requires
            old(self).wf(),
            for_client(packet),
        ensures
            final(self).wf(),
            final(self).connect_machine() == old(self).connect_machine(),
            final(self).client_id() == old(self).client_id(),
            final(self).same_settings(old(self)),
            ({
                let pass = spec_received(
                    old(self).ping(),
                    old(self).publishing(),
                    old(self).subscribing(),
                    packet,
                    now,
                    old(self).keep_alive(),
                );
                &&& final(self).ping() == pass.ping
                &&& final(self).publishing() == pass.publish
                &&& final(self).subscribing() == pass.subscriptions
                &&& final(self).queue() == old(self).queue() + pass.packets
                &&& final(acks)@ == old(acks)@ + pass.acks
                &&& match pass.failure {
                    None => passed matches Ok(event) && option_event_view(event) == pass.event,
                    Some(failure) => passed matches Err(err) && err@ == failure,
                }
            }),
    {
        let ghost given = packet;
        let mut packet = packet;
        let mut new_packets_to_be_sent: Vec<Packet> = Vec::new();
        proof {
            assert(new_packets_to_be_sent.deep_view() =~= Seq::<PacketView>::empty());
            assert(self.queue() =~= old(self).queue() + Seq::<PacketView>::empty());
        }
        // Ping
        match self.ping.poll(&mut packet, now, self.keep_alive) {
            Some(ping) => {
                new_packets_to_be_sent.push(ping);
                proof {
                    assert(new_packets_to_be_sent.deep_view() =~= seq![PacketView::PingReq]);
                }
            },
            None => (),
        }
        // Publish
        proof {
            lemma_publish_pass_keeps_identifiers_reserved(
                old(self).publishing(),
                old(self).subscribing(),
                packet,
            );
            lemma_received_keeps_identifiers_reserved(
                old(self).ping(),
                old(self).publishing(),
                old(self).subscribing(),
                given,
                now,
                old(self).keep_alive(),
            );
        }
        let (new_publish_packets, publication_received) = match self.publish.poll(
            &mut packet,
            &mut self.packet_identifiers,
            acks,
        ) {
            Ok(polled) => polled,
            Err(err) => return Err(err),
        };
        extend(&mut new_packets_to_be_sent, new_publish_packets);
        // Subscriptions
        let subscription_updates = match publication_received {
            Some(publication_received) => {
                enqueue(&mut self.packets_waiting_to_be_sent, new_packets_to_be_sent);
                return Ok(Some(Event::Publication(publication_received)));
            },
            None => {
                let (new_subscription_packets, subscription_updates) = match self.subscriptions.poll(
                    &mut packet,
                    &mut self.packet_identifiers,
                ) {
                    Ok(polled) => polled,
                    Err(err) => return Err(err),
                };
                extend(&mut new_packets_to_be_sent, new_subscription_packets);
                subscription_updates
            },
        };
        enqueue(&mut self.packets_waiting_to_be_sent, new_packets_to_be_sent);
        if subscription_updates.len() > 0 {
            return Ok(Some(Event::SubscriptionUpdates(subscription_updates)));
        }
        Ok(None)
    }

    /// The number of packets waiting to be sent.
    pub fn packets_to_send(&self) -> (waiting: usize)
        ensures
            waiting == self.queue().len(),
    {
        self.packets_waiting_to_be_sent.len()
    }

    /// The time at which the next ping is due, once the ping machine waits
    /// for one.
    pub fn next_ping(&self) -> (due: Option<u128>)
        ensures
            due == match self.ping() {
                crate::client::ping::State::BeginWaitingForNextPing => None::<u128>,
                crate::client::ping::State::WaitingForNextPing(due) => Some(due),
            },
    {
        self.ping.next_deadline()
    }

    /// Takes in an error of the connection. An error that is the caller's is
    /// handed back: it ends the client. After any other the client connects
    /// again, with a clean session where the session cannot go on.
    pub fn failed(&mut self, err: Error) -> (taken_in: Result<(), Error>)
        requires
            old(self).wf(),
        ensures
            final(self).wf(),
            final(self).publishing() == old(self).publishing(),
            final(self).subscribing() == old(self).subscribing(),
            final(self).queue() == old(self).queue(),
            final(self).ping() == old(self).ping(),
            final(self).same_settings(old(self)),
            if err@ matches Failure::EncodePacket(failure) && !(failure is Io) {
                &&& taken_in == Err::<(), Error>(err)
                &&& final(self).client_id() == old(self).client_id()
                &&& final(self).connect_machine() == old(self).connect_machine()
            } else {
                &&& taken_in is Ok
                &&& final(self).client_id() == spec_client_id_after(
                    old(self).client_id(),
                    err.spec_session_is_resumable(),
                )
                &&& final(self).connect_machine() == (Machine {
                    state: Stage::BeginBackOff,
                    ..old(self).connect_machine()
                })
            },
    {
        if err.is_user_error() {
            return Err(err);
        }
        if !err.session_is_resumable() {
            // Ensure clean session if the error is such that the session is not resumable.
            let mut client_id = ClientId::ServerGenerated;
            core::mem::swap(&mut client_id, &mut self.client_id);
            self.client_id = match client_id {
                ClientId::ServerGenerated => ClientId::ServerGenerated,
                ClientId::IdWithCleanSession(id) => ClientId::IdWithCleanSession(id),
                ClientId::IdWithExistingSession(id) => ClientId::IdWithCleanSession(id),
            };
        }
        self.connect.reconnect();
        Ok(())
    }

    /// Gives up the machines of the session, and keeps what it takes to say
    /// goodbye to the server.
    fn close(self, reason: Option<Error>) -> (closing: Closing)
        ensures
            closing.reason() == reason,
            !closing.sent_disconnect(),
            closing.connect_machine() == self.connect_machine(),
    {
        Closing {
            client_id: self.client_id,
            username: self.username,
            password: self.password,
            will: self.will,
            keep_alive: self.keep_alive,
            connect: self.connect,
            sent_disconnect: false,
            reason,
        }
    }
}

/// The client ID after an error: one for an existing session becomes one for
/// a clean session unless the session can go on.
pub open spec fn spec_client_id_after(client_id: ClientIdView, resumable: bool) -> ClientIdView {
    if resumable {
        client_id
    } else {
        match client_id {
            ClientIdView::IdWithExistingSession(id) => ClientIdView::IdWithCleanSession(id),
            other => other,
        }
    }
}

/// What is left of a client that is shutting down.
pub struct Closing {
    client_id: ClientId,
    username: Option<String>,
    password: Option<String>,
    will: Option<Publication>,
    keep_alive: Duration,
    connect: Connect,
    /// If the DISCONNECT packet has already been sent
    sent_disconnect: bool,
    /// The Error that caused the Client to transition away from Up, if any
    reason: Option<Error>,
}

impl Closing {
    /// The error that made the client shut down, where one did.
    pub closed spec fn reason(&self) -> Option<Error> {
        self.reason
    }

    /// Whether the DISCONNECT packet has been sent.
    pub closed spec fn sent_disconnect(&self) -> bool {
        self.sent_disconnect
    }

    /// The connect machine.
    pub closed spec fn connect_machine(&self) -> Machine {
        self.connect@
    }
}

/// What came of the action that a client that is shutting down asked for.
#[derive(Clone, Copy, Debug, PartialEq, Eq, Structural)]
pub enum Farewell {
    /// The transport has taken the DISCONNECT packet.
    Sent,
    /// The transport has sent all that it had taken.
    Flushed,
    /// The transport failed.
    Failed,
}

/// What the caller of a client that is shutting down is to do now.
#[derive(Debug)]
pub enum Closure {
    /// Hand the DISCONNECT packet to the transport, and report `Sent` or
    /// `Failed`.
    SendDisconnect,
    /// Flush the transport, and report `Flushed` or `Failed`.
    Flush,
    /// The client has shut down: for the error held, or, where none is held,
    /// as it was told to.
    End(Option<Error>),
}

/// What a client that is shutting down does next.
pub enum Parting {
    SendDisconnect,
    Flush,
    End,
}

/// Whether the connect machine has a connection that the server accepted,
/// once it has taken in what came of its last action.
pub open spec fn spec_has_connection(machine: Machine, outcome: Option<Outcome>) -> bool {
    spec_take_in(machine, outcome, ClientIdView::ServerGenerated).0.state is Connected
}

/// What a client that is shutting down does next: it ends where it has no
/// connection or the transport failed; else it sends a DISCONNECT packet,
/// then flushes the transport, then ends.
pub open spec fn spec_farewell(connected: bool, sent_disconnect: bool, farewell: Option<Farewell>) -> Parting {
    if !connected || farewell == Some(Farewell::Failed) || farewell == Some(Farewell::Flushed) {
        Parting::End
    } else if sent_disconnect || farewell == Some(Farewell::Sent) {
        Parting::Flush
    } else {
        Parting::SendDisconnect
    }
}

/// An MQTT v3.1.1 client.
///
/// A client is up until it is told to shut down, or until an error that is
/// the caller's ends it. It then says goodbye to the server where it has a
/// connection, and has shut down.
pub struct Client<A> {
    state: ClientState<A>,
}

/// The states of a client.
pub enum ClientState<A> {
    Up(Engine<A>),
    ShuttingDown(Closing),
    ShutDown {
        /// The Error that caused the Client to transition away from Up, if any
        reason: Option<Error>,
    },
}

impl<A> Client<A> {
    /// The state of the client.
    pub closed spec fn state(&self) -> ClientState<A> {
        self.state
    }

    /// A client that is up has its machines in order.
    pub open spec fn wf(&self) -> bool {
        self.state() matches ClientState::Up(engine) ==> engine.wf()
    }

    /// Create a new client with the given parameters
    ///
    /// * `client_id`
    ///
    ///     If set, this ID will be used to start a new clean session with the server. On subsequent re-connects, the ID will be re-used.
    ///     Otherwise, the client will use a server-generated ID for each new connection.
    ///
    /// * `username`, `password`
    ///
    ///     Optional credentials for the server.
    ///
    /// * `max_reconnect_back_off`
    ///
    ///     Every connection failure will double the back-off period, to a maximum of this value.
    ///
    /// * `keep_alive`
    ///
    ///     The keep-alive time advertised to the server. The client will ping the server at half this interval.
    pub fn new(
        client_id: Option<String>,
        username: Option<String>,
        password: Option<String>,
        will: Option<Publication>,
        max_reconnect_back_off: Duration,
        keep_alive: Duration,
    ) -> (client: Self)
        ensures
            client.wf(),
            client.state() matches ClientState::Up(engine) && engine.fresh(
                client_id,
                username,
                password,
                will,
                max_reconnect_back_off,
                keep_alive,
            ),
    {
        Client {
            state: ClientState::Up(
                Engine::new(
                    client_id,
                    username,
                    password,
                    will,
                    max_reconnect_back_off,
                    keep_alive,
                ),
            ),
        }
    }

    /// The state of the client.
    pub fn state_ref(&self) -> (state: &ClientState<A>)
        ensures
            *state == self.state(),
    {
        &self.state
    }

    /// Whether the client is up.
    pub fn is_up(&self) -> (up: bool)
        ensures
            up == (self.state() is Up),
    {
        match &self.state {
            ClientState::Up(_) => true,
            _ => false,
        }
    }

    /// The machines of the client, where it is up.
    pub fn engine(&mut self) -> (engine: Option<&mut Engine<A>>)
        ensures
            match engine {
                Some(engine) => {
                    &&& old(self).state() == ClientState::Up(*engine)
                    &&& final(self).state() == ClientState::Up(*final(engine))
                },
                None => !(old(self).state() is Up) && final(self).state() == old(self).state(),
            },
    {
        match &mut self.state {
            ClientState::Up(engine) => Some(engine),
            _ => None,
        }
    }

    /// Queues a message to be published to the server. `ack_sender` is handed
    /// back by the pass in which the message is acknowledged.
    pub fn publish(&mut self, publication: Publication, ack_sender: A) -> (queued: Result<
        (),
        PublishError,
    >)
        requires
            old(self).wf(),
        ensures
            final(self).wf(),
            match old(self).state() {
                ClientState::Up(before) => {
                    &&& queued is Ok
                    &&& final(self).state() matches ClientState::Up(after)
                    &&& after.publishing() == (publish::Session {
                        requests: before.publishing().requests.push(
                            publish::PublishRequest { publication, ack_sender },
                        ),
                        ..before.publishing()
                    })
                    &&& after.subscribing() == before.subscribing()
                    &&& after.queue() == before.queue()
                    &&& after.client_id() == before.client_id()
                    &&& after.connect_machine() == before.connect_machine()
                    &&& after.ping() == before.ping()
                    &&& after.same_settings(&before)
                },
                _ => queued == Err::<(), PublishError>(PublishError::ClientDoesNotExist)
                    && final(self).state() == old(self).state(),
            },
    {
        match &mut self.state {
            ClientState::Up(engine) => {
                engine.publish(publication, ack_sender);
                Ok(())
            },
            _ => Err(PublishError::ClientDoesNotExist),
        }
    }

    /// Subscribes to a topic with the given parameters
    pub fn subscribe(&mut self, subscribe_to: SubscribeTo) -> (queued: Result<
        (),
        UpdateSubscriptionError,
    >)
        requires
            old(self).wf(),
        ensures
            final(self).wf(),
            match old(self).state() {
                ClientState::Up(before) => {
                    &&& queued is Ok
                    &&& final(self).state() matches ClientState::Up(after)
                    &&& after.subscribing() == (subscriptions::Session {
                        updates: before.subscribing().updates.push(
                            Update::Subscribe(subscribe_to@),
                        ),
                        ..before.subscribing()
                    })
                    &&& after.publishing() == before.publishing()
                    &&& after.queue() == before.queue()
                    &&& after.client_id() == before.client_id()
                    &&& after.connect_machine() == before.connect_machine()
                    &&& after.ping() == before.ping()
                    &&& after.same_settings(&before)
                },
                _ => queued == Err::<(), UpdateSubscriptionError>(
                    UpdateSubscriptionError::ClientDoesNotExist,
                ) && final(self).state() == old(self).state(),
            },
    {
        match &mut self.state {
            ClientState::Up(engine) => {
                engine.update_subscription(SubscriptionUpdate::Subscribe(subscribe_to));
                Ok(())
            },
            _ => Err(UpdateSubscriptionError::ClientDoesNotExist),
        }
    }

    /// Unsubscribes from the given topic
    pub fn unsubscribe(&mut self, unsubscribe_from: String) -> (queued: Result<
        (),
        UpdateSubscriptionError,
    >)
        requires
            old(self).wf(),
        ensures
            final(self).wf(),
            match old(self).state() {
                ClientState::Up(before) => {
                    &&& queued is Ok
                    &&& final(self).state() matches ClientState::Up(after)
                    &&& after.subscribing() == (subscriptions::Session {
                        updates: before.subscribing().updates.push(
                            Update::Unsubscribe(unsubscribe_from@),
                        ),
                        ..before.subscribing()
                    })
                    &&& after.publishing() == before.publishing()
                    &&& after.queue() == before.queue()
                    &&& after.client_id() == before.client_id()
                    &&& after.connect_machine() == before.connect_machine()
                    &&& after.ping() == before.ping()
                    &&& after.same_settings(&before)
                },
                _ => queued == Err::<(), UpdateSubscriptionError>(
                    UpdateSubscriptionError::ClientDoesNotExist,
                ) && final(self).state() == old(self).state(),
            },
    {
        match &mut self.state {
            ClientState::Up(engine) => {
                engine.update_subscription(SubscriptionUpdate::Unsubscribe(unsubscribe_from));
                Ok(())
            },
            _ => Err(UpdateSubscriptionError::ClientDoesNotExist),
        }
    }

    /// Tells the client to shut down. A client that is up starts to shut
    /// down; any other does not exist any more.
    pub fn shutdown(&mut self) -> (told: Result<(), ShutdownError>)
        ensures
            match old(self).state() {
                ClientState::Up(_) => {
                    &&& told is Ok
                    &&& final(self).state() matches ClientState::ShuttingDown(closing)
                    &&& closing.reason() is None
                    &&& !closing.sent_disconnect()
                },
                _ => told == Err::<(), ShutdownError>(ShutdownError::ClientDoesNotExist)
                    && final(self).state() == old(self).state(),
            },
            final(self).wf(),
    {
        let mut state = ClientState::ShutDown { reason: None };
        core::mem::swap(&mut state, &mut self.state);
        match state {
            ClientState::Up(engine) => {
                self.state = ClientState::ShuttingDown(engine.close(None));
                Ok(())
            },
            other => {
                self.state = other;
                Err(ShutdownError::ClientDoesNotExist)
            },
        }
    }

    /// Takes in an error of the connection. An error that is the caller's
    /// makes the client shut down, holding the error. After any other the
    /// client connects again, with a clean session where the session cannot
    /// go on. A client that is not up is left as it is.
    pub fn failed(&mut self, err: Error)
        requires
            old(self).wf(),
        ensures
            final(self).wf(),
            match old(self).state() {
                ClientState::Up(before) => if err@ matches Failure::EncodePacket(failure) && !(
                failure is Io) {
                    &&& final(self).state() matches ClientState::ShuttingDown(closing)
                    &&& closing.reason() == Some(err)
                    &&& !closing.sent_disconnect()
                } else {
                    &&& final(self).state() matches ClientState::Up(after)
                    &&& after.publishing() == before.publishing()
                    &&& after.subscribing() == before.subscribing()
                    &&& after.queue() == before.queue()
                    &&& after.ping() == before.ping()
                    &&& after.same_settings(&before)
                    &&& after.client_id() == spec_client_id_after(
                        before.client_id(),
                        err.spec_session_is_resumable(),
                    )
                    &&& after.connect_machine() == (Machine {
                        state: Stage::BeginBackOff,
                        ..before.connect_machine()
                    })
                },
                _ => final(self).state() == old(self).state(),
            },
    {
        let mut state = ClientState::ShutDown { reason: None };
        core::mem::swap(&mut state, &mut self.state);
        match state {
            ClientState::Up(mut engine) => match engine.failed(err) {
                Ok(()) => {
                    self.state = ClientState::Up(engine);
                },
                Err(err) => {
                    self.state = ClientState::ShuttingDown(engine.close(Some(err)));
                },
            },
            other => {
                self.state = other;
            },
        }
    }

    /// A step of a client that is not up. `connected` says what came of the
    /// action that the connect machine asked for last, and `farewell` what
    /// came of the action that this function asked for last.
    ///
    /// A client that is shutting down and has a connection sends a
    /// DISCONNECT packet and flushes the transport; where it has none, or the
    /// transport fails, it shuts down at once. A client that has shut down
    /// hands out the error that ended it, once. A client that is up is left
    /// as it is.
    pub fn shutting_down(&mut self, connected: Option<Outcome>, farewell: Option<Farewell>) -> (closure:
        Option<Closure>)
        requires
            old(self).wf(),
        ensures
            final(self).wf(),
            match old(self).state() {
                ClientState::Up(_) => closure is None && final(self).state() == old(self).state(),
                ClientState::ShuttingDown(closing) => match spec_farewell(
                    spec_has_connection(closing.connect_machine(), connected),
                    closing.sent_disconnect(),
                    farewell,
                ) {
                    Parting::End => {
                        &&& closure == Some(Closure::End(closing.reason()))
                        &&& final(self).state() == (ClientState::<A>::ShutDown { reason: None })
                    },
                    Parting::Flush => {
                        &&& closure matches Some(Closure::Flush)
                        &&& final(self).state() matches ClientState::ShuttingDown(after)
                        &&& after.sent_disconnect()
                        &&& after.reason() == closing.reason()
                        &&& after.connect_machine().state == (Stage::Connected {
                            new_connection: false,
                            reset_session: false,
                        })
                    },
                    Parting::SendDisconnect => {
                        &&& closure matches Some(Closure::SendDisconnect)
                        &&& final(self).state() matches ClientState::ShuttingDown(after)
                        &&& !after.sent_disconnect()
                        &&& after.reason() == closing.reason()
                        &&& after.connect_machine().state == (Stage::Connected {
                            new_connection: false,
                            reset_session: false,
                        })
                    },
                },
                ClientState::ShutDown { reason } => {
                    &&& closure == Some(Closure::End(reason))
                    &&& final(self).state() == (ClientState::<A>::ShutDown { reason: None })
                },
            },
    {
        let mut state = ClientState::ShutDown { reason: None };
        core::mem::swap(&mut state, &mut self.state);
        match state {
            ClientState::Up(engine) => {
                self.state = ClientState::Up(engine);
                None
            },
            ClientState::ShuttingDown(mut closing) => {
                let connected = match closing.connect.poll(
                    connected,
                    &closing.username,
                    &closing.password,
                    &closing.will,
                    &mut closing.client_id,
                    closing.keep_alive,
                ) {
                    Action::Connected { .. } => true,
                    _ => false,
                };
                let failed = match farewell {
                    Some(Farewell::Failed) => true,
                    _ => false,
                };
                if !connected || failed {
                    // Already disconnected
                    return Some(Closure::End(closing.reason));
                }
                if closing.sent_disconnect {
                    match farewell {
                        Some(Farewell::Flushed) => Some(Closure::End(closing.reason)),
                        _ => {
                            self.state = ClientState::ShuttingDown(closing);
                            Some(Closure::Flush)
                        },
                    }
                } else {
                    match farewell {
                        Some(Farewell::Sent) => {
                            closing.sent_disconnect = true;
                            self.state = ClientState::ShuttingDown(closing);
                            Some(Closure::Flush)
                        },
                        Some(Farewell::Flushed) => Some(Closure::End(closing.reason)),
                        _ => {
                            self.state = ClientState::ShuttingDown(closing);
                            Some(Closure::SendDisconnect)
                        },
                    }
                }
            },
            ClientState::ShutDown { reason } => Some(Closure::End(reason)),
        }
    }
}

} // verus!
