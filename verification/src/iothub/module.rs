//! The client of the Azure IoT Hub: it turns the events of the MQTT client
//! into the messages of the hub.
//!
//! The client decides and its caller acts: the caller hands it each event of
//! the MQTT client, and publishes what it asks to have published.

use crate::client::engine::Event;
use crate::iothub::desired;
use crate::iothub::reported;
use crate::iothub::reported::{ReportTwinStateRequest, Reporter};
use crate::iothub::desired::{published, Inner, Reply, Twin};
use crate::iothub::json::{json_text, TwinProperties, TwinState};
use crate::iothub::topic::{
    spec_parse, HubMessage, InternalMessage, InternalTwinStateMessage, ParseFailure, Topics,
};
use crate::proto::packet::PublicationView;
use crate::proto::Publication;
use std::time::Duration;
use vstd::prelude::*;

verus! {

/// A message generated by a [`Client`]
#[derive(Debug)]
pub enum Message {
    /// A direct method invocation
    DirectMethod { name: String, payload: serde_json::Value, request_id: String },
    /// The server acknowledged a report of the twin state. Contains the version number of the updated section.
    ReportedTwinState(usize),
    /// The full twin state, as currently stored in the Azure IoT Hub.
    TwinInitial(TwinState),
    /// A patch to the twin state that should be applied to the current state to get the new state.
    TwinPatch(TwinProperties),
}

/// The mathematical value of a [`Message`]. A JSON value is held as its
/// text.
pub enum Said {
    DirectMethod { name: Seq<char>, payload: Seq<u8>, request_id: Seq<char> },
    ReportedTwinState(usize),
    TwinInitial { desired: (usize, Seq<u8>), reported: (usize, Seq<u8>) },
    TwinPatch { version: usize, properties: Seq<u8> },
}

impl View for Message {
    type V = Said;

    open spec fn view(&self) -> Said {
        match self {
            Message::DirectMethod { name, payload, request_id } => Said::DirectMethod {
                name: name@,
                payload: json_text(*payload),
                request_id: request_id@,
            },
            Message::ReportedTwinState(version) => Said::ReportedTwinState(*version),
            Message::TwinInitial(twin) => Said::TwinInitial {
                desired: (twin.desired.version, json_text(twin.desired.properties)),
                reported: (twin.reported.version, json_text(twin.reported.properties)),
            },
            Message::TwinPatch(patch) => Said::TwinPatch {
                version: patch.version,
                properties: json_text(patch.properties),
            },
        }
    }
}

/// The mathematical value of a message that may be absent.
pub open spec fn option_said(message: Option<Message>) -> Option<Said> {
    match message {
        Some(message) => Some(message@),
        None => None,
    }
}

/// Where the client stands.
#[derive(Clone, Copy, Debug, PartialEq, Eq, Structural)]
pub enum State {
    /// The connection is new, and the server has yet to acknowledge the
    /// subscriptions where the session started afresh.
    WaitingForSubscriptions { reset_session: bool },
    Idle,
}

/// A client for the Azure IoT Hub MQTT protocol. This client receives module-level messages.
///
/// Each reconnection makes the client ask for the twin again.
pub struct Client {
    state: State,
    previous_request_id: u8,
    desired_properties: desired::State,
    reported_properties: reported::State,
    topics: Topics,
}

/// The mathematical value of the client.
pub struct Hub {
    pub state: State,
    /// The ID of the last request, which the twin machine and the report
    /// machine count together.
    pub previous_request_id: u8,
    pub desired_properties: Twin,
    pub reported_properties: Reporter,
}

/// What a pass of the client comes to.
pub struct Pass {
    pub hub: Hub,
    /// The requests to publish.
    pub publications: Seq<PublicationView>,
    /// The message for the user.
    pub message: Option<Said>,
    /// Whether the client is to be polled again at once.
    pub again: bool,
}

/// Where the client stands when it takes up an event: it does not wait for
/// the subscriptions of a session that goes on.
pub open spec fn spec_standing(state: State) -> State {
    match state {
        State::WaitingForSubscriptions { reset_session: false } => State::Idle,
        state => state,
    }
}

/// What the client does with a message of the hub about the twin, or with
/// none, while it is idle: the twin machine sees the message first, and,
/// unless that has something for the user, the report machine.
pub open spec fn spec_follow(hub: Hub, message: Option<HubMessage>, now: u128) -> Pass {
    let followed = desired::spec_poll(
        hub.desired_properties,
        message,
        hub.previous_request_id,
        now,
    );
    let after_twin = Hub {
        state: State::Idle,
        previous_request_id: followed.previous_request_id,
        desired_properties: followed.twin,
        ..hub
    };
    match followed.reply {
        Ok(Reply::Initial { desired, reported }) => Pass {
            hub: after_twin,
            publications: followed.publications,
            message: Some(Said::TwinInitial { desired, reported }),
            again: true,
        },
        Ok(Reply::Patch { version, properties }) => Pass {
            hub: after_twin,
            publications: followed.publications,
            message: Some(Said::TwinPatch { version, properties }),
            again: true,
        },
        _ => {
            let reported = reported::spec_poll(
                hub.reported_properties,
                if followed.consumed {
                    None
                } else {
                    message
                },
                followed.previous_request_id,
                now,
            );
            Pass {
                hub: Hub {
                    previous_request_id: reported.previous_request_id,
                    reported_properties: reported.reporter,
                    ..after_twin
                },
                publications: followed.publications + reported.publications,
                message: match reported.reply {
                    Ok(reported::Reply::Reported(version)) => Some(
                        Said::ReportedTwinState(version),
                    ),
                    _ => None,
                },
                again: message is Some || followed.reply == Ok::<Reply, ParseFailure>(
                    Reply::Continue,
                ) || reported.reply == Ok::<reported::Reply, ParseFailure>(
                    reported::Reply::Continue,
                ) || reported.reply matches Ok(reported::Reply::Reported(_)),
            }
        },
    }
}

/// A pass of the client at the time `now` over an event of the MQTT client,
/// where there is one.
///
/// While the client waits for the subscriptions of a session that started
/// afresh, it hands out the direct methods that are invoked, and lets go of
/// all else, until the server acknowledges the subscriptions. While it is
/// idle, it hands out the direct methods that are invoked, and follows the
/// twin. A new connection makes it ask for the twin again.
pub open spec fn spec_poll(hub: Hub, event: Option<Event>, now: u128) -> Pass {
    let quiet = Pass { hub, publications: Seq::empty(), message: None, again: event is Some };
    match spec_standing(hub.state) {
        State::WaitingForSubscriptions { reset_session } => match event {
            Some(Event::Publication(publication)) => match spec_parse(
                publication.topic_name@,
                publication.payload@,
            ) {
                Ok(HubMessage::DirectMethod { name, payload, request_id }) => Pass {
                    message: Some(Said::DirectMethod { name, payload, request_id }),
                    ..quiet
                },
                _ => quiet,
            },
            Some(Event::SubscriptionUpdates(_)) => Pass {
                hub: Hub { state: State::Idle, ..hub },
                ..quiet
            },
            _ => quiet,
        },
        State::Idle => match event {
            Some(Event::NewConnection { reset_session }) => Pass {
                hub: Hub {
                    state: State::WaitingForSubscriptions { reset_session },
                    desired_properties: Twin {
                        inner: Inner::SendRequest,
                        ..hub.desired_properties
                    },
                    reported_properties: Reporter {
                        inner: if hub.reported_properties.inner is Idle {
                            reported::Inner::Idle
                        } else {
                            reported::Inner::SendRequest
                        },
                        ..hub.reported_properties
                    },
                    ..hub
                },
                ..quiet
            },
            Some(Event::Publication(publication)) => match spec_parse(
                publication.topic_name@,
                publication.payload@,
            ) {
                Ok(HubMessage::DirectMethod { name, payload, request_id }) => Pass {
                    hub: Hub { state: State::Idle, ..hub },
                    message: Some(Said::DirectMethod { name, payload, request_id }),
                    ..quiet
                },
                Ok(message) => spec_follow(hub, Some(message), now),
                Err(_) => Pass { hub: Hub { state: State::Idle, ..hub }, ..quiet },
            },
            _ => spec_follow(hub, None, now),
        },
    }
}

/// What the client says over a run of passes, each over an event where
/// there is one, at a time of its own.
pub open spec fn spec_run(hub: Hub, passes: Seq<(Option<Event>, u128)>) -> Seq<Option<Said>>
    decreases passes.len(),
{
    if passes.len() == 0 {
        Seq::empty()
    } else {
        let pass = spec_poll(hub, passes[0].0, passes[0].1);
        seq![pass.message] + spec_run(pass.hub, passes.drop_first())
    }
}

/// Whether no patch of the twin is said before the full twin is.
pub open spec fn twin_comes_first(said: Seq<Option<Said>>) -> bool
    decreases said.len(),
{
    if said.len() == 0 {
        true
    } else {
        match said[0] {
            Some(Said::TwinInitial { .. }) => true,
            Some(Said::TwinPatch { .. }) => false,
            _ => twin_comes_first(said.drop_first()),
        }
    }
}

/// Whether the client is yet to say the full twin: its twin machine does
/// not have the twin.
pub open spec fn awaits_twin(hub: Hub) -> bool {
    !(hub.desired_properties.inner is HaveResponse)
}

/// Whether the client is in order: while it waits for its subscriptions it
/// is yet to say the full twin.
pub open spec fn in_order(hub: Hub) -> bool {
    hub.state is WaitingForSubscriptions ==> awaits_twin(hub)
}

/// A pass leaves a client in order.
pub proof fn lemma_poll_keeps_order(hub: Hub, event: Option<Event>, now: u128)
    requires
        in_order(hub),
    ensures
        in_order(spec_poll(hub, event, now).hub),
{
}

/// A new connection leaves a client yet to say the full twin, whether it
/// comes to a client that is idle or to one that still waits for its
/// subscriptions.
pub proof fn lemma_new_connection_awaits_twin(hub: Hub, reset_session: bool, now: u128)
    requires
        in_order(hub),
    ensures
        awaits_twin(spec_poll(hub, Some(Event::NewConnection { reset_session }), now).hub),
{
}

/// After a new connection, whatever comes, the client says no patch of the
/// twin before it says the full twin.
pub proof fn lemma_twin_comes_first_after_new_connection(
    hub: Hub,
    reset_session: bool,
    now: u128,
    passes: Seq<(Option<Event>, u128)>,
)
    requires
        in_order(hub),
    ensures
        twin_comes_first(
            spec_run(
                spec_poll(hub, Some(Event::NewConnection { reset_session }), now).hub,
                passes,
            ),
        ),
{
    lemma_new_connection_awaits_twin(hub, reset_session, now);
    lemma_twin_comes_first(
        spec_poll(hub, Some(Event::NewConnection { reset_session }), now).hub,
        passes,
    );
}

/// A client that is yet to say the full twin says no patch of the twin
/// before it, whatever comes: so it is after every new connection.
pub proof fn lemma_twin_comes_first(hub: Hub, passes: Seq<(Option<Event>, u128)>)
    requires
        awaits_twin(hub),
    ensures
        twin_comes_first(spec_run(hub, passes)),
    decreases passes.len(),
{
    if passes.len() > 0 {
        let pass = spec_poll(hub, passes[0].0, passes[0].1);
        let later = spec_run(pass.hub, passes.drop_first());
        let said = spec_run(hub, passes);
        assert(said[0] == pass.message);
        assert(said.drop_first() =~= later);
        lemma_pass_awaits_twin(hub, passes[0].0, passes[0].1);
        if !(pass.message matches Some(Said::TwinInitial { .. })) {
            lemma_twin_comes_first(pass.hub, passes.drop_first());
        }
    }
}

/// A pass of a client that is yet to say the full twin says no patch of the
/// twin, and leaves the client so unless it says the full twin.
proof fn lemma_pass_awaits_twin(hub: Hub, event: Option<Event>, now: u128)
    requires
        awaits_twin(hub),
    ensures
        !(spec_poll(hub, event, now).message matches Some(Said::TwinPatch { .. })),
        awaits_twin(spec_poll(hub, event, now).hub) || spec_poll(hub, event, now).message matches Some(
            Said::TwinInitial { .. },
        ),
{
    match spec_standing(hub.state) {
        State::Idle => match event {
            Some(Event::Publication(publication)) => match spec_parse(
                publication.topic_name@,
                publication.payload@,
            ) {
                Ok(HubMessage::DirectMethod { .. }) => {},
                Ok(message) => {
                    desired::lemma_twin_before_patch(
                        hub.desired_properties,
                        Some(message),
                        hub.previous_request_id,
                        now,
                    );
                },
                Err(_) => {},
            },
            Some(Event::NewConnection { .. }) => {},
            _ => {
                desired::lemma_twin_before_patch(
                    hub.desired_properties,
                    None,
                    hub.previous_request_id,
                    now,
                );
            },
        },
        _ => {},
    }
}

impl Client {
    /// The mathematical value of the client.
    pub closed spec fn view(&self) -> Hub {
        Hub {
            state: self.state,
            previous_request_id: self.previous_request_id,
            desired_properties: self.desired_properties@,
            reported_properties: self.reported_properties@,
        }
    }

    /// The patterns of the topics are the ones that are meant, and the
    /// client is in order.
    pub closed spec fn wf(&self) -> bool {
        self.topics.wf() && in_order(self@)
    }

    /// A well-formed client is in order.
    pub proof fn lemma_wf_in_order(&self)
        requires
            self.wf(),
        ensures
            in_order(self@),
    {
    }

    /// Creates a new `Client`. There is one exactly where the patterns of the
    /// topics compile.
    ///
    /// * `max_back_off`
    ///
    ///     Every server error will double the back-off period, to a maximum of this value.
    ///
    /// * `keep_alive`
    ///
    ///     The keep-alive time advertised to the server. A request for the twin is given up after twice this time.
    pub fn new(max_back_off: Duration, keep_alive: Duration) -> (client: Option<Self>)
        ensures
            client is Some <==> crate::iothub::topic::patterns_compile(),
            client matches Some(client) ==> client.wf() && client@ == (Hub {
                state: State::WaitingForSubscriptions { reset_session: true },
                previous_request_id: u8::MAX,
                desired_properties: Twin {
                    max_back_off: crate::time::duration_nanos(max_back_off) as nat,
                    current_back_off: 0,
                    keep_alive: crate::time::duration_nanos(keep_alive) as nat,
                    inner: Inner::SendRequest,
                },
                reported_properties: Reporter {
                    max_back_off: crate::time::duration_nanos(max_back_off) as nat,
                    current_back_off: 0,
                    keep_alive: crate::time::duration_nanos(keep_alive) as nat,
                    reports: Seq::empty(),
                    pending: Seq::empty(),
                    inner: reported::Inner::Idle,
                },
            }),
    {
        let topics = match Topics::new() {
            Some(topics) => topics,
            None => return None,
        };
        Some(
            Client {
                state: State::WaitingForSubscriptions { reset_session: true },
                previous_request_id: u8::MAX,
                desired_properties: desired::State::new(max_back_off, keep_alive),
                reported_properties: reported::State::new(max_back_off, keep_alive),
                topics,
            },
        )
    }

    /// Whether the client takes the acknowledgement of subscriptions: it
    /// does while it waits for the subscriptions of a session that started
    /// afresh.
    pub fn expects_subscription_updates(&self) -> (expected: bool)
        ensures
            expected == !(spec_standing(self@.state) is Idle),
    {
        match self.state {
            State::WaitingForSubscriptions { reset_session } => reset_session,
            State::Idle => false,
        }
    }

    /// The time that the twin machine waits for, where it waits for one.
    pub fn next_deadline(&self) -> (deadline: Option<u128>)
        ensures
            deadline == match self@.desired_properties.inner {
                Inner::EndBackOff(deadline) => Some(deadline),
                Inner::WaitingForResponse { timeout, .. } => Some(timeout),
                _ => None::<u128>,
            },
    {
        self.desired_properties.next_deadline()
    }

    /// The time that the report machine waits for, where it waits for one.
    pub fn next_report_deadline(&self) -> (deadline: Option<u128>)
        ensures
            deadline == match self@.reported_properties.inner {
                reported::Inner::EndBackOff(deadline) => Some(deadline),
                reported::Inner::WaitingForResponse { timeout, .. } => Some(timeout),
                _ => None::<u128>,
            },
    {
        self.reported_properties.next_deadline()
    }

    /// Follows the twin over a message about it, or over none.
    fn follow(
        &mut self,
        message: Option<InternalTwinStateMessage>,
        now: u128,
        publications: &mut Vec<Publication>,
    ) -> (polled: (Option<Message>, bool))
        requires
            old(self).wf(),
        ensures
            final(self).wf(),
            ({
                let pass = spec_follow(old(self)@, desired::option_message_view(message), now);
                &&& final(self)@ == pass.hub
                &&& published(old(publications)@, final(publications)@, pass.publications)
                &&& option_said(polled.0) == pass.message
                &&& polled.1 == pass.again
            }),
    {
        self.state = State::Idle;
        let mut continue_loop = message.is_some();
        let ghost given = message;
        let mut message = message;
        let ghost before = publications@;
        match self.desired_properties.poll(
            &mut message,
            &mut self.previous_request_id,
            now,
            publications,
        ) {
            Ok(desired::Response::Message(desired::Message::Initial(twin_state))) => {
                return (Some(Message::TwinInitial(twin_state)), true);
            },
            Ok(desired::Response::Message(desired::Message::Patch(properties))) => {
                return (Some(Message::TwinPatch(properties)), true);
            },
            Ok(desired::Response::Continue) => {
                continue_loop = true;
            },
            Ok(desired::Response::NotReady) => {},
            Err(_) => {},
        }
        let ghost between = publications@;
        let ghost followed = desired::spec_poll(
            old(self)@.desired_properties,
            desired::option_message_view(given),
            old(self)@.previous_request_id,
            now,
        );
        let ghost reporting = reported::spec_poll(
            self@.reported_properties,
            desired::option_message_view(message),
            self@.previous_request_id,
            now,
        );
        let replied = self.reported_properties.poll(
            &mut message,
            &mut self.previous_request_id,
            now,
            publications,
        );
        proof {
            desired::lemma_published_twice(
                before,
                between,
                publications@,
                followed.publications,
                reporting.publications,
            );
        }
        match replied {
            Ok(desired::Response::Message(reported::Message::Reported(version))) => (
                Some(Message::ReportedTwinState(version)),
                true,
            ),
            Ok(desired::Response::Continue) => (None, true),
            Ok(desired::Response::NotReady) => (None, continue_loop),
            Err(_) => (None, continue_loop),
        }
    }

    /// Queues a report of properties with the given body.
    pub fn report(&mut self, body: Vec<u8>)
        requires
            old(self).wf(),
        ensures
            final(self).wf(),
            final(self)@ == (Hub {
                reported_properties: Reporter {
                    reports: old(self)@.reported_properties.reports.push(body@),
                    ..old(self)@.reported_properties
                },
                ..old(self)@
            }),
    {
        self.reported_properties.report(body);
    }

    /// Queues a report of properties: its body is their text.
    pub fn report_twin_state(&mut self, request: ReportTwinStateRequest)
        requires
            old(self).wf(),
        ensures
            final(self).wf(),
            final(self)@ == (Hub {
                reported_properties: Reporter {
                    reports: old(self)@.reported_properties.reports.push(
                        crate::iothub::json::json_text(request.properties()),
                    ),
                    ..old(self)@.reported_properties
                },
                ..old(self)@
            }),
    {
        let body = request.body();
        self.report(body);
    }

    /// A pass of the client at the time `now` over an event of the MQTT
    /// client, where there is one. The requests to publish are added to
    /// `publications`. The pass returns the message for the user where there
    /// is one, and whether the client is to be polled again at once.
    ///
    /// The server acknowledges subscriptions only while the client waits for
    /// that: an idle client is not handed such an event.
    pub fn poll(&mut self, event: Option<Event>, now: u128, publications: &mut Vec<Publication>) -> (polled:
        (Option<Message>, bool))
        requires
            old(self).wf(),
            !(event matches Some(Event::SubscriptionUpdates(_)) && spec_standing(old(self)@.state)
                is Idle),
        ensures
            final(self).wf(),
            ({
                let pass = spec_poll(old(self)@, event, now);
                &&& final(self)@ == pass.hub
                &&& published(old(publications)@, final(publications)@, pass.publications)
                &&& option_said(polled.0) == pass.message
                &&& polled.1 == pass.again
            }),
    {
        proof {
            desired::lemma_nothing_published(publications@);
        }
        let waiting = match self.state {
            State::WaitingForSubscriptions { reset_session } => reset_session,
            State::Idle => false,
        };
        let again = event.is_some();
        if waiting {
            match event {
                Some(Event::Publication(publication)) => match self.topics.parse(publication) {
                    Ok(InternalMessage::DirectMethod { name, payload, request_id }) => (
                        Some(Message::DirectMethod { name, payload, request_id }),
                        again,
                    ),
                    _ => (None, again),
                },
                Some(Event::SubscriptionUpdates(_)) => {
                    self.state = State::Idle;
                    (None, again)
                },
                _ => (None, again),
            }
        } else {
            match event {
                Some(Event::NewConnection { reset_session }) => {
                    self.state = State::WaitingForSubscriptions { reset_session };
                    self.desired_properties.new_connection();
                    self.reported_properties.new_connection();
                    (None, again)
                },
                Some(Event::Publication(publication)) => match self.topics.parse(publication) {
                    Ok(InternalMessage::DirectMethod { name, payload, request_id }) => {
                        self.state = State::Idle;
                        (Some(Message::DirectMethod { name, payload, request_id }), again)
                    },
                    Ok(InternalMessage::TwinState(message)) => self.follow(
                        Some(message),
                        now,
                        publications,
                    ),
                    Err(_) => {
                        self.state = State::Idle;
                        (None, again)
                    },
                },
                _ => self.follow(None, now, publications),
            }
        }
    }
}

} // verus!
