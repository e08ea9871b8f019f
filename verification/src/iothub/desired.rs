//! The twin machine: it asks the hub for the twin, waits for the response,
//! and from then on follows the changes of the desired properties for as
//! long as their versions follow one another.
//!
//! Points in time are counted in nanoseconds from an origin of the caller's
//! choosing.

use crate::client::connect::{first_back_off, spec_first_back_off, spec_next_back_off};
use crate::iothub::json::{
    from_slice, json_member, json_read, json_text, spec_is_twin, spec_version, TwinProperties,
    TwinState,
};
use crate::iothub::topic::{
    spec_twin_get_topic, twin_get_topic, HubMessage, InternalTwinStateMessage, MessageParseError,
    ParseFailure,
};
use crate::iothub::Status;
use crate::proto::packet::PublicationView;
use crate::proto::{Publication, QoS};
use crate::time::{duration_le, duration_nanos, NANOS_PER_SEC};
use std::time::Duration;
use vstd::prelude::*;

verus! {

/// Where the machine stands.
#[derive(Clone, Copy, Debug, PartialEq, Eq, Structural)]
pub enum Inner {
    BeginBackOff,
    /// The machine waits until the given time.
    EndBackOff(u128),
    SendRequest,
    /// The machine waits for the response to the request with the given ID,
    /// until the given time.
    WaitingForResponse { request_id: u8, timeout: u128 },
    /// The machine has the twin, with the desired properties at the given
    /// version.
    HaveResponse { version: usize },
}

/// The machine that keeps up with the desired properties of the twin.
#[derive(Debug)]
pub struct State {
    max_back_off: Duration,
    current_back_off: Duration,
    keep_alive: Duration,
    inner: Inner,
}

/// What the machine has for the user.
#[derive(Debug)]
pub enum Message {
    /// The full twin.
    Initial(TwinState),
    /// A change of the desired properties.
    Patch(TwinProperties),
}

/// What a pass of the machine comes to.
#[derive(Debug)]
pub enum Response<M> {
    /// There is a message for the user.
    Message(M),
    /// The machine has done something, and is to be polled again.
    Continue,
    /// The machine waits.
    NotReady,
}

/// The mathematical value of the machine. Times are in nanoseconds.
pub struct Twin {
    pub max_back_off: nat,
    pub current_back_off: nat,
    pub keep_alive: nat,
    pub inner: Inner,
}

/// The mathematical value of what a pass returns. A JSON value is held as
/// its text.
pub enum Reply {
    /// The full twin: the version and the text of its desired and of its
    /// reported properties.
    Initial { desired: (usize, Seq<u8>), reported: (usize, Seq<u8>) },
    /// A change of the desired properties: its version and its text.
    Patch { version: usize, properties: Seq<u8> },
    Continue,
    NotReady,
}

/// What a pass of the machine comes to.
pub struct Pass {
    pub twin: Twin,
    pub previous_request_id: u8,
    /// Whether the message was one for this machine.
    pub consumed: bool,
    /// The requests to publish.
    pub publications: Seq<PublicationView>,
    pub reply: Result<Reply, ParseFailure>,
}

/// A point in time that lies a duration after another, or the end of time
/// where that is sooner.
pub open spec fn spec_after(now: u128, nanos: nat) -> u128 {
    if now + nanos > u128::MAX {
        u128::MAX
    } else {
        (now + nanos) as u128
    }
}

/// The request for the twin.
pub open spec fn spec_request(request_id: u8) -> PublicationView {
    PublicationView {
        topic_name: spec_twin_get_topic(request_id),
        qos: QoS::AtMostOnce,
        retain: false,
        payload: Seq::empty(),
    }
}

/// The ID of the request behind the one with the given ID.
pub open spec fn spec_next_request_id(previous: u8) -> u8 {
    if previous == u8::MAX {
        0
    } else {
        (previous + 1) as u8
    }
}

/// The machine sends the request for the twin, and waits for the response
/// for twice the keep-alive time.
pub open spec fn spec_send(twin: Twin, previous_request_id: u8, now: u128, consumed: bool) -> Pass {
    let request_id = spec_next_request_id(previous_request_id);
    Pass {
        twin: Twin {
            inner: Inner::WaitingForResponse {
                request_id,
                timeout: spec_after(now, 2 * twin.keep_alive),
            },
            ..twin
        },
        previous_request_id: request_id,
        consumed,
        publications: seq![spec_request(request_id)],
        reply: Ok(Reply::Continue),
    }
}

/// The machine waits.
pub open spec fn spec_wait(twin: Twin, previous_request_id: u8, consumed: bool) -> Pass {
    Pass {
        twin,
        previous_request_id,
        consumed,
        publications: Seq::empty(),
        reply: Ok(Reply::NotReady),
    }
}

/// Where the machine comes to rest once it has taken in what there was for
/// it: it sends the request where it is to, at once the first time after a
/// response, else once the back-off is over.
pub open spec fn spec_settle(twin: Twin, previous_request_id: u8, now: u128, consumed: bool) -> Pass {
    match twin.inner {
        Inner::BeginBackOff => if twin.current_back_off / (NANOS_PER_SEC as nat) == 0 {
            spec_send(
                Twin { current_back_off: spec_first_back_off(twin.max_back_off), ..twin },
                previous_request_id,
                now,
                consumed,
            )
        } else {
            spec_wait(
                Twin {
                    current_back_off: spec_next_back_off(twin.current_back_off, twin.max_back_off),
                    inner: Inner::EndBackOff(spec_after(now, twin.current_back_off)),
                    ..twin
                },
                previous_request_id,
                consumed,
            )
        },
        Inner::EndBackOff(deadline) => if now >= deadline {
            spec_send(twin, previous_request_id, now, consumed)
        } else {
            spec_wait(twin, previous_request_id, consumed)
        },
        Inner::SendRequest => spec_send(twin, previous_request_id, now, consumed),
        _ => spec_wait(twin, previous_request_id, consumed),
    }
}

/// What a machine that waits for a response does without one: it asks again
/// once the time is up.
pub open spec fn spec_unanswered(twin: Twin, timeout: u128, previous_request_id: u8, now: u128) -> Pass {
    if now >= timeout {
        spec_settle(Twin { inner: Inner::SendRequest, ..twin }, previous_request_id, now, false)
    } else {
        spec_wait(twin, previous_request_id, false)
    }
}

/// What a machine that waits for a response does with the response to its
/// request.
pub open spec fn spec_answered(
    twin: Twin,
    status: Status,
    payload: Seq<u8>,
    previous_request_id: u8,
    now: u128,
) -> Pass {
    match status {
        Status::Okay => match json_read(payload) {
            Some(text) => if spec_is_twin(text) {
                let desired = json_member(text, "desired"@)->Some_0;
                let reported = json_member(text, "reported"@)->Some_0;
                Pass {
                    twin: Twin {
                        inner: Inner::HaveResponse { version: spec_version(desired)->Some_0 },
                        ..twin
                    },
                    previous_request_id,
                    consumed: true,
                    publications: Seq::empty(),
                    reply: Ok(
                        Reply::Initial {
                            desired: (spec_version(desired)->Some_0, desired),
                            reported: (spec_version(reported)->Some_0, reported),
                        },
                    ),
                }
            } else {
                Pass { reply: Err(ParseFailure::Json), ..spec_wait(twin, previous_request_id, false) }
            },
            None => Pass {
                reply: Err(ParseFailure::Json),
                ..spec_wait(twin, previous_request_id, false)
            },
        },
        Status::TooManyRequests => spec_settle(
            Twin { inner: Inner::BeginBackOff, ..twin },
            previous_request_id,
            now,
            true,
        ),
        Status::Error(_) => spec_settle(
            Twin { inner: Inner::BeginBackOff, ..twin },
            previous_request_id,
            now,
            true,
        ),
        status => Pass {
            reply: Err(ParseFailure::IotHubStatus(status)),
            ..spec_wait(twin, previous_request_id, true)
        },
    }
}

/// A pass of the machine at the time `now` over a message of the hub about
/// the twin, where there is one.
///
/// A machine that waits for a response takes the response to its request: a
/// twin makes it hand out the twin and follow the desired properties from
/// the version that the twin has; a status that says to try later makes it
/// back off and ask again; any other status is an error. Without a response
/// it asks again once the time is up.
///
/// A machine that follows the desired properties takes a change of them:
/// it hands out the change where its version is the next, and else asks for
/// the twin again.
pub open spec fn spec_poll(
    twin: Twin,
    message: Option<HubMessage>,
    previous_request_id: u8,
    now: u128,
) -> Pass {
    match twin.inner {
        Inner::WaitingForResponse { request_id, timeout } => match message {
            Some(HubMessage::Response { status, request_id: message_request_id, payload, .. }) => {
                if message_request_id == request_id {
                    spec_answered(twin, status, payload, previous_request_id, now)
                } else {
                    spec_unanswered(twin, timeout, previous_request_id, now)
                }
            },
            _ => spec_unanswered(twin, timeout, previous_request_id, now),
        },
        Inner::HaveResponse { version } => match message {
            Some(HubMessage::TwinPatch { version: patch_version, properties }) => if patch_version
                == version + 1 {
                Pass {
                    twin: Twin { inner: Inner::HaveResponse { version: patch_version }, ..twin },
                    previous_request_id,
                    consumed: true,
                    publications: Seq::empty(),
                    reply: Ok(Reply::Patch { version: patch_version, properties }),
                }
            } else {
                spec_settle(
                    Twin { inner: Inner::SendRequest, ..twin },
                    previous_request_id,
                    now,
                    true,
                )
            },
            _ => spec_wait(twin, previous_request_id, false),
        },
        _ => spec_settle(twin, previous_request_id, now, false),
    }
}

/// The mathematical value of a message about the twin that may be absent.
pub open spec fn option_message_view(message: Option<InternalTwinStateMessage>) -> Option<
    HubMessage,
> {
    match message {
        Some(message) => Some(message@),
        None => None,
    }
}

/// Whether what a pass returned is what the step says.
pub open spec fn replied_as(
    replied: Result<Response<Message>, MessageParseError>,
    expected: Result<Reply, ParseFailure>,
) -> bool {
    match expected {
        Ok(Reply::Initial { desired, reported }) => {
            &&& replied matches Ok(Response::Message(Message::Initial(twin)))
            &&& twin.desired.version == desired.0
            &&& json_text(twin.desired.properties) == desired.1
            &&& twin.reported.version == reported.0
            &&& json_text(twin.reported.properties) == reported.1
        },
        Ok(Reply::Patch { version, properties }) => {
            &&& replied matches Ok(Response::Message(Message::Patch(patch)))
            &&& patch.version == version
            &&& json_text(patch.properties) == properties
        },
        Ok(Reply::Continue) => replied matches Ok(Response::Continue),
        Ok(Reply::NotReady) => replied matches Ok(Response::NotReady),
        Err(failure) => replied matches Err(err) && err@ == failure,
    }
}

/// A point in time that lies a duration after another.
fn after(now: u128, duration: Duration) -> (later: u128)
    ensures
        later == spec_after(now, duration_nanos(duration) as nat),
{
    now.saturating_add(duration.as_nanos())
}

impl State {
    /// The mathematical value of the machine.
    pub closed spec fn view(&self) -> Twin {
        Twin {
            max_back_off: duration_nanos(self.max_back_off) as nat,
            current_back_off: duration_nanos(self.current_back_off) as nat,
            keep_alive: duration_nanos(self.keep_alive) as nat,
            inner: self.inner,
        }
    }

    /// A machine that is about to ask for the twin.
    pub fn new(max_back_off: Duration, keep_alive: Duration) -> (state: Self)
        ensures
            state@ == (Twin {
                max_back_off: duration_nanos(max_back_off) as nat,
                current_back_off: 0,
                keep_alive: duration_nanos(keep_alive) as nat,
                inner: Inner::SendRequest,
            }),
    {
        State {
            max_back_off,
            current_back_off: Duration::from_secs(0),
            keep_alive,
            inner: Inner::SendRequest,
        }
    }

    /// Readies the machine for a new connection: it asks for the twin again.
    pub fn new_connection(&mut self)
        ensures
            final(self)@ == (Twin { inner: Inner::SendRequest, ..old(self)@ }),
    {
        self.inner = Inner::SendRequest;
    }

    /// The time that the machine waits for, where it waits for one: the end
    /// of the back-off, or the time at which it gives up a request.
    pub fn next_deadline(&self) -> (deadline: Option<u128>)
        ensures
            deadline == match self@.inner {
                Inner::EndBackOff(deadline) => Some(deadline),
                Inner::WaitingForResponse { timeout, .. } => Some(timeout),
                _ => None::<u128>,
            },
    {
        match self.inner {
            Inner::EndBackOff(deadline) => Some(deadline),
            Inner::WaitingForResponse { timeout, .. } => Some(timeout),
            _ => None,
        }
    }

    /// Sends the request for the twin.
    fn send(&mut self, previous_request_id: &mut u8, now: u128, publications: &mut Vec<Publication>)
        ensures
            ({
                let pass = spec_send(old(self)@, *old(previous_request_id), now, false);
                &&& final(self)@ == pass.twin
                &&& *final(previous_request_id) == pass.previous_request_id
                &&& published(old(publications)@, final(publications)@, pass.publications)
            }),
    {
        let request_id = previous_request_id.wrapping_add(1);
        *previous_request_id = request_id;
        // The response does not matter to this request, but the caller is to poll the
        // client at least once more so that it attempts to send the message.
        publications.push(
            Publication {
                topic_name: twin_get_topic(request_id),
                qos: QoS::AtMostOnce,
                retain: false,
                payload: Vec::new(),
            },
        );
        let timeout = after(after(now, self.keep_alive), self.keep_alive);
        self.inner = Inner::WaitingForResponse { request_id, timeout };
        proof {
            assert(publications@.take(old(publications)@.len() as int) =~= old(publications)@);
            assert(publications@[old(publications)@.len() as int]@ == spec_request(request_id));
        }
    }

    /// Brings the machine to rest once it has taken in what there was for it.
    fn settle(
        &mut self,
        previous_request_id: &mut u8,
        now: u128,
        publications: &mut Vec<Publication>,
    ) -> (replied: Response<Message>)
        ensures
            ({
                let pass = spec_settle(old(self)@, *old(previous_request_id), now, false);
                &&& final(self)@ == pass.twin
                &&& *final(previous_request_id) == pass.previous_request_id
                &&& published(old(publications)@, final(publications)@, pass.publications)
                &&& replied_as(Ok(replied), pass.reply)
            }),
    {
        proof {
            lemma_nothing_published(publications@);
        }
        match self.inner {
            Inner::BeginBackOff => {
                let back_off = self.current_back_off;
                if back_off.as_secs() == 0 {
                    self.current_back_off = first_back_off(self.max_back_off);
                    self.send(previous_request_id, now, publications);
                    Response::Continue
                } else {
                    let doubled = back_off.saturating_mul(2);
                    self.current_back_off = if duration_le(self.max_back_off, doubled) {
                        self.max_back_off
                    } else {
                        doubled
                    };
                    self.inner = Inner::EndBackOff(after(now, back_off));
                    Response::NotReady
                }
            },
            Inner::EndBackOff(deadline) => {
                if now >= deadline {
                    self.send(previous_request_id, now, publications);
                    Response::Continue
                } else {
                    Response::NotReady
                }
            },
            Inner::SendRequest => {
                self.send(previous_request_id, now, publications);
                Response::Continue
            },
            _ => Response::NotReady,
        }
    }

    /// A pass of the machine at the time `now`. A message about the twin is
    /// taken out of `message` where it is one for this machine. The requests
    /// to publish are added to `publications`.
    pub fn poll(
        &mut self,
        message: &mut Option<InternalTwinStateMessage>,
        previous_request_id: &mut u8,
        now: u128,
        publications: &mut Vec<Publication>,
    ) -> (replied: Result<Response<Message>, MessageParseError>)
        ensures
            ({
                let pass = spec_poll(
                    old(self)@,
                    option_message_view(*old(message)),
                    *old(previous_request_id),
                    now,
                );
                &&& final(self)@ == pass.twin
                &&& *final(previous_request_id) == pass.previous_request_id
                &&& published(old(publications)@, final(publications)@, pass.publications)
                &&& replied_as(replied, pass.reply)
                &&& *final(message) == if pass.consumed {
                    None
                } else {
                    *old(message)
                }
            }),
    {
        proof {
            lemma_nothing_published(publications@);
        }
        match self.inner {
            Inner::WaitingForResponse { request_id, timeout } => {
                let answers = match message {
                    Some(
                        InternalTwinStateMessage::Response {
                            request_id: message_request_id,
                            ..
                        },
                    ) => *message_request_id == request_id,
                    _ => false,
                };
                if answers {
                    match message.take() {
                        Some(
                            InternalTwinStateMessage::Response {
                                status,
                                request_id: message_request_id,
                                payload,
                                version,
                            },
                        ) => {
                            match status {
                                Status::Okay => {
                                    let twin_state = match from_slice(payload.as_slice()) {
                                        Ok(twin) => TwinState::from_value(&twin),
                                        Err(_) => None,
                                    };
                                    match twin_state {
                                        Some(twin_state) => {
                                            self.inner = Inner::HaveResponse {
                                                version: twin_state.desired.version,
                                            };
                                            Ok(Response::Message(Message::Initial(twin_state)))
                                        },
                                        None => {
                                            *message = Some(
                                                InternalTwinStateMessage::Response {
                                                    status,
                                                    request_id: message_request_id,
                                                    payload,
                                                    version,
                                                },
                                            );
                                            Err(
                                                MessageParseError::Json(
                                                    "the payload is no twin".to_owned(),
                                                ),
                                            )
                                        },
                                    }
                                },
                                Status::TooManyRequests => {
                                    self.inner = Inner::BeginBackOff;
                                    Ok(self.settle(previous_request_id, now, publications))
                                },
                                Status::Error(_) => {
                                    self.inner = Inner::BeginBackOff;
                                    Ok(self.settle(previous_request_id, now, publications))
                                },
                                status => Err(MessageParseError::IotHubStatus(status)),
                            }
                        },
                        _ => Ok(Response::NotReady),
                    }
                } else if now >= timeout {
                    self.inner = Inner::SendRequest;
                    Ok(self.settle(previous_request_id, now, publications))
                } else {
                    Ok(Response::NotReady)
                }
            },
            Inner::HaveResponse { version } => {
                let is_patch = match message {
                    Some(InternalTwinStateMessage::TwinPatch(_)) => true,
                    _ => false,
                };
                if !is_patch {
                    return Ok(Response::NotReady);
                }
                match message.take() {
                    Some(InternalTwinStateMessage::TwinPatch(twin_properties)) => {
                        let follows = match version.checked_add(1) {
                            Some(next) => twin_properties.version == next,
                            None => false,
                        };
                        if !follows {
                            self.inner = Inner::SendRequest;
                            return Ok(self.settle(previous_request_id, now, publications));
                        }
                        self.inner = Inner::HaveResponse { version: twin_properties.version };
                        Ok(Response::Message(Message::Patch(twin_properties)))
                    },
                    _ => Ok(Response::NotReady),
                }
            },
            _ => Ok(self.settle(previous_request_id, now, publications)),
        }
    }
}

/// What the machine hands out over a run of passes, each over a message
/// where there is one, at a time of its own.
pub open spec fn spec_run(
    twin: Twin,
    previous_request_id: u8,
    passes: Seq<(Option<HubMessage>, u128)>,
) -> Seq<Result<Reply, ParseFailure>>
    decreases passes.len(),
{
    if passes.len() == 0 {
        Seq::empty()
    } else {
        let pass = spec_poll(twin, passes[0].0, previous_request_id, passes[0].1);
        seq![pass.reply] + spec_run(pass.twin, pass.previous_request_id, passes.drop_first())
    }
}

/// Whether no change of the desired properties is handed out before the
/// twin is.
pub open spec fn twin_comes_first(replies: Seq<Result<Reply, ParseFailure>>) -> bool
    decreases replies.len(),
{
    if replies.len() == 0 {
        true
    } else {
        match replies[0] {
            Ok(Reply::Initial { .. }) => true,
            Ok(Reply::Patch { .. }) => false,
            _ => twin_comes_first(replies.drop_first()),
        }
    }
}

/// A pass hands out a change of the desired properties only where the
/// machine has the twin, and a machine comes to have the twin only by handing
/// it out.
pub proof fn lemma_twin_before_patch(
    twin: Twin,
    message: Option<HubMessage>,
    previous_request_id: u8,
    now: u128,
)
    ensures
        ({
            let pass = spec_poll(twin, message, previous_request_id, now);
            &&& pass.reply matches Ok(Reply::Patch { .. }) ==> twin.inner is HaveResponse
            &&& pass.twin.inner is HaveResponse ==> twin.inner is HaveResponse
                || pass.reply matches Ok(Reply::Initial { .. })
        }),
{
}

/// A machine that does not have the twin hands out no change of the desired
/// properties before it hands out the twin, whatever comes: so it is after
/// every new connection, which makes the machine ask for the twin again.
pub proof fn lemma_twin_comes_first(
    twin: Twin,
    previous_request_id: u8,
    passes: Seq<(Option<HubMessage>, u128)>,
)
    requires
        !(twin.inner is HaveResponse),
    ensures
        twin_comes_first(spec_run(twin, previous_request_id, passes)),
    decreases passes.len(),
{
    if passes.len() > 0 {
        let pass = spec_poll(twin, passes[0].0, previous_request_id, passes[0].1);
        let later = spec_run(pass.twin, pass.previous_request_id, passes.drop_first());
        let replies = spec_run(twin, previous_request_id, passes);
        lemma_twin_before_patch(twin, passes[0].0, previous_request_id, passes[0].1);
        assert(replies[0] == pass.reply);
        assert(replies.drop_first() =~= later);
        if !(pass.reply matches Ok(Reply::Initial { .. })) {
            lemma_twin_comes_first(pass.twin, pass.previous_request_id, passes.drop_first());
        }
    }
}

/// Nothing is published where nothing changes.
pub proof fn lemma_nothing_published(publications: Seq<Publication>)
    ensures
        published(publications, publications, Seq::empty()),
{
    assert(publications.take(publications.len() as int) =~= publications);
}

/// What is added behind what has been added is added.
pub proof fn lemma_published_twice(
    before: Seq<Publication>,
    between: Seq<Publication>,
    after: Seq<Publication>,
    first: Seq<PublicationView>,
    second: Seq<PublicationView>,
)
    requires
        published(before, between, first),
        published(between, after, second),
    ensures
        published(before, after, first + second),
{
    assert(after.take(before.len() as int) =~= before) by {
        assert(between.take(before.len() as int) == before);
        assert(after.take(between.len() as int) == between);
        assert forall|i: int| 0 <= i < before.len() implies after[i] == before[i] by {
            assert(after.take(between.len() as int)[i] == between[i]);
            assert(between.take(before.len() as int)[i] == before[i]);
        }
    }
    assert forall|i: int| 0 <= i < (first + second).len() implies (
    #[trigger] after[before.len() + i])@ == (first + second)[i] by {
        if i < first.len() {
            assert(after.take(between.len() as int)[before.len() + i] == between[before.len() + i]);
        } else {
            assert(after[between.len() + (i - first.len())]@ == second[i - first.len()]);
        }
    }
}

/// Whether the requests have been added to those to publish.
pub open spec fn published(
    before: Seq<Publication>,
    after: Seq<Publication>,
    requests: Seq<PublicationView>,
) -> bool {
    &&& after.len() == before.len() + requests.len()
    &&& after.take(before.len() as int) == before
    &&& forall|i: int| 0 <= i < requests.len() ==> (#[trigger] after[before.len() + i])@ == requests[i]
}

} // verus!
