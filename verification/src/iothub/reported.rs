//! The report machine: it sends the hub the properties that the device
//! reports, one report after the other, and waits for the hub to
//! acknowledge each.
//!
//! Points in time are counted in nanoseconds from an origin of the caller's
//! choosing.

use crate::client::connect::{first_back_off, spec_first_back_off, spec_next_back_off};
use crate::iothub::desired::{
    lemma_nothing_published, published, spec_after, spec_next_request_id, Response,
};
use crate::iothub::json::{json_text, to_text};
use crate::iothub::topic::{
    reported_patch_topic, spec_reported_patch_topic, HubMessage, InternalTwinStateMessage,
    MessageParseError, ParseFailure,
};
use crate::iothub::Status;
use crate::proto::packet::{duplicate_bytes, PublicationView};
use crate::proto::{Publication, QoS};
use crate::time::{duration_le, duration_nanos, NANOS_PER_SEC};
use std::collections::VecDeque;
use std::time::Duration;
use vstd::prelude::*;

verus! {

/// The properties that a device reports.
#[derive(Debug)]
pub enum ReportTwinStateRequest {
    /// The properties take the place of those reported before.
    Replace(serde_json::Value),
    /// The properties are added to those reported before; one that is null
    /// takes the property of its name away.
    Patch(serde_json::Value),
}

impl ReportTwinStateRequest {
    /// The properties of the report.
    pub open spec fn properties(self) -> serde_json::Value {
        match self {
            ReportTwinStateRequest::Replace(properties) => properties,
            ReportTwinStateRequest::Patch(properties) => properties,
        }
    }

    /// The body of the report as it goes to the hub: the properties as JSON.
    pub fn body(&self) -> (body: Vec<u8>)
        ensures
            body@ == json_text(self.properties()),
    {
        match self {
            ReportTwinStateRequest::Replace(properties) => to_text(properties),
            ReportTwinStateRequest::Patch(properties) => to_text(properties),
        }
    }
}

/// Where the machine stands.
#[derive(Clone, Copy, Debug, PartialEq, Eq, Structural)]
pub enum Inner {
    /// No report is under way.
    Idle,
    BeginBackOff,
    /// The machine waits until the given time.
    EndBackOff(u128),
    SendRequest,
    /// The machine waits for the response to the request with the given ID,
    /// until the given time.
    WaitingForResponse { request_id: u8, timeout: u128 },
}

/// The machine that reports properties to the hub.
#[derive(Debug)]
pub struct State {
    max_back_off: Duration,
    current_back_off: Duration,
    keep_alive: Duration,
    /// The bodies of the reports that have not been sent, oldest first.
    reports: VecDeque<Vec<u8>>,
    /// The body of the report that is under way.
    pending: Vec<u8>,
    inner: Inner,
}

/// What the machine has for the user.
#[derive(Debug, PartialEq, Eq)]
pub enum Message {
    /// The hub has taken a report. Contains the version of the reported
    /// properties that came of it.
    Reported(usize),
}

/// The mathematical value of the machine. Times are in nanoseconds.
pub struct Reporter {
    pub max_back_off: nat,
    pub current_back_off: nat,
    pub keep_alive: nat,
    /// The bodies of the reports that have not been sent, oldest first.
    pub reports: Seq<Seq<u8>>,
    /// The body of the report that is under way. It means nothing while the
    /// machine is idle.
    pub pending: Seq<u8>,
    pub inner: Inner,
}

/// The mathematical value of what a pass returns.
pub enum Reply {
    Reported(usize),
    Continue,
    NotReady,
}

/// What a pass of the machine comes to.
pub struct Pass {
    pub reporter: Reporter,
    pub previous_request_id: u8,
    /// Whether the message was one for this machine.
    pub consumed: bool,
    /// The reports to publish.
    pub publications: Seq<PublicationView>,
    pub reply: Result<Reply, ParseFailure>,
}

/// The report with the given body as it is published.
pub open spec fn spec_report(request_id: u8, body: Seq<u8>) -> PublicationView {
    PublicationView {
        topic_name: spec_reported_patch_topic(request_id),
        qos: QoS::AtMostOnce,
        retain: false,
        payload: body,
    }
}

/// The machine sends the report that is under way, and waits for the
/// response for twice the keep-alive time.
pub open spec fn spec_send(reporter: Reporter, previous_request_id: u8, now: u128, consumed: bool) -> Pass {
    let request_id = spec_next_request_id(previous_request_id);
    Pass {
        reporter: Reporter {
            inner: Inner::WaitingForResponse {
                request_id,
                timeout: spec_after(now, 2 * reporter.keep_alive),
            },
            ..reporter
        },
        previous_request_id: request_id,
        consumed,
        publications: seq![spec_report(request_id, reporter.pending)],
        reply: Ok(Reply::Continue),
    }
}

/// The machine waits.
pub open spec fn spec_wait(reporter: Reporter, previous_request_id: u8, consumed: bool) -> Pass {
    Pass {
        reporter,
        previous_request_id,
        consumed,
        publications: Seq::empty(),
        reply: Ok(Reply::NotReady),
    }
}

/// Where the machine comes to rest once it has taken in what there was for
/// it: an idle machine takes up the oldest report that has not been sent;
/// a machine that is to send does so, at once the first time after a
/// response, else once the back-off is over.
pub open spec fn spec_settle(reporter: Reporter, previous_request_id: u8, now: u128, consumed: bool) -> Pass {
    match reporter.inner {
        Inner::Idle => if reporter.reports.len() > 0 {
            spec_send(
                Reporter {
                    reports: reporter.reports.drop_first(),
                    pending: reporter.reports[0],
                    ..reporter
                },
                previous_request_id,
                now,
                consumed,
            )
        } else {
            spec_wait(reporter, previous_request_id, consumed)
        },
        Inner::BeginBackOff => if reporter.current_back_off / (NANOS_PER_SEC as nat) == 0 {
            spec_send(
                Reporter {
                    current_back_off: spec_first_back_off(reporter.max_back_off),
                    ..reporter
                },
                previous_request_id,
                now,
                consumed,
            )
        } else {
            spec_wait(
                Reporter {
                    current_back_off: spec_next_back_off(
                        reporter.current_back_off,
                        reporter.max_back_off,
                    ),
                    inner: Inner::EndBackOff(spec_after(now, reporter.current_back_off)),
                    ..reporter
                },
                previous_request_id,
                consumed,
            )
        },
        Inner::EndBackOff(deadline) => if now >= deadline {
            spec_send(reporter, previous_request_id, now, consumed)
        } else {
            spec_wait(reporter, previous_request_id, consumed)
        },
        Inner::SendRequest => spec_send(reporter, previous_request_id, now, consumed),
        Inner::WaitingForResponse { .. } => spec_wait(reporter, previous_request_id, consumed),
    }
}

/// What a machine that waits for a response does without one: it sends the
/// report again once the time is up.
pub open spec fn spec_unanswered(
    reporter: Reporter,
    timeout: u128,
    previous_request_id: u8,
    now: u128,
) -> Pass {
    if now >= timeout {
        spec_settle(
            Reporter { inner: Inner::SendRequest, ..reporter },
            previous_request_id,
            now,
            false,
        )
    } else {
        spec_wait(reporter, previous_request_id, false)
    }
}

/// What a machine that waits for a response does with the response to its
/// request: where the hub has taken the report, the machine hands out the
/// version that the response holds, and is idle again; a status that says to
/// try later makes it back off and send the report again; any other status,
/// and a response without a version, is an error.
pub open spec fn spec_answered(
    reporter: Reporter,
    status: Status,
    version: Option<usize>,
    previous_request_id: u8,
    now: u128,
) -> Pass {
    match status {
        Status::NoContent => match version {
            Some(version) => Pass {
                reporter: Reporter { inner: Inner::Idle, ..reporter },
                previous_request_id,
                consumed: true,
                publications: Seq::empty(),
                reply: Ok(Reply::Reported(version)),
            },
            None => Pass {
                reply: Err(ParseFailure::ParseResponseVersion),
                ..spec_wait(reporter, previous_request_id, true)
            },
        },
        Status::TooManyRequests => spec_settle(
            Reporter { inner: Inner::BeginBackOff, ..reporter },
            previous_request_id,
            now,
            true,
        ),
        Status::Error(_) => spec_settle(
            Reporter { inner: Inner::BeginBackOff, ..reporter },
            previous_request_id,
            now,
            true,
        ),
        status => Pass {
            reply: Err(ParseFailure::IotHubStatus(status)),
            ..spec_wait(reporter, previous_request_id, true)
        },
    }
}

/// A pass of the machine at the time `now` over a message of the hub about
/// the twin, where there is one.
pub open spec fn spec_poll(
    reporter: Reporter,
    message: Option<HubMessage>,
    previous_request_id: u8,
    now: u128,
) -> Pass {
    match reporter.inner {
        Inner::WaitingForResponse { request_id, timeout } => match message {
            Some(HubMessage::Response { status, request_id: message_request_id, version, .. }) => {
                if message_request_id == request_id {
                    spec_answered(reporter, status, version, previous_request_id, now)
                } else {
                    spec_unanswered(reporter, timeout, previous_request_id, now)
                }
            },
            _ => spec_unanswered(reporter, timeout, previous_request_id, now),
        },
        _ => spec_settle(reporter, previous_request_id, now, false),
    }
}

/// Whether what a pass returned is what the step says.
pub open spec fn replied_as(
    replied: Result<Response<Message>, MessageParseError>,
    expected: Result<Reply, ParseFailure>,
) -> bool {
    match expected {
        Ok(Reply::Reported(version)) => replied matches Ok(
            Response::Message(Message::Reported(reported)),
        ) && reported == version,
        Ok(Reply::Continue) => replied matches Ok(Response::Continue),
        Ok(Reply::NotReady) => replied matches Ok(Response::NotReady),
        Err(failure) => replied matches Err(err) && err@ == failure,
    }
}

/// The mathematical value of a queue of bodies.
pub open spec fn bodies(reports: Seq<Vec<u8>>) -> Seq<Seq<u8>> {
    reports.map_values(|body: Vec<u8>| body@)
}

/// A point in time that lies a duration after another.
fn after(now: u128, duration: Duration) -> (later: u128)
    ensures
        later == spec_after(now, duration_nanos(duration) as nat),
{
    now.saturating_add(duration.as_nanos())
}

impl State {
    /// The mathematical value of the machine.
    pub closed spec fn view(&self) -> Reporter {
        Reporter {
            max_back_off: duration_nanos(self.max_back_off) as nat,
            current_back_off: duration_nanos(self.current_back_off) as nat,
            keep_alive: duration_nanos(self.keep_alive) as nat,
            reports: bodies(self.reports@),
            pending: self.pending@,
            inner: self.inner,
        }
    }

    /// A machine with nothing to report.
    pub fn new(max_back_off: Duration, keep_alive: Duration) -> (state: Self)
        ensures
            state@ == (Reporter {
                max_back_off: duration_nanos(max_back_off) as nat,
                current_back_off: 0,
                keep_alive: duration_nanos(keep_alive) as nat,
                reports: Seq::empty(),
                pending: Seq::empty(),
                inner: Inner::Idle,
            }),
    {
        let state = State {
            max_back_off,
            current_back_off: Duration::from_secs(0),
            keep_alive,
            reports: VecDeque::new(),
            pending: Vec::new(),
            inner: Inner::Idle,
        };
        proof {
            assert(bodies(state.reports@) =~= Seq::<Seq<u8>>::empty());
        }
        state
    }

    /// Queues a report with the given body.
    pub fn report(&mut self, body: Vec<u8>)
        ensures
            final(self)@ == (Reporter { reports: old(self)@.reports.push(body@), ..old(self)@ }),
    {
        self.reports.push_back(body);
        proof {
            assert(bodies(self.reports@) =~= bodies(old(self).reports@).push(body@));
        }
    }

    /// Readies the machine for a new connection: the report that is under
    /// way is sent again.
    pub fn new_connection(&mut self)
        ensures
            final(self)@ == (Reporter {
                inner: if old(self)@.inner is Idle {
                    Inner::Idle
                } else {
                    Inner::SendRequest
                },
                ..old(self)@
            }),
    {
        match self.inner {
            Inner::Idle => {},
            _ => {
                self.inner = Inner::SendRequest;
            },
        }
    }

    /// The time that the machine waits for, where it waits for one: the end
    /// of the back-off, or the time at which it gives up a request.
    pub fn next_deadline(&self) -> (deadline: Option<u128>)
        ensures
            deadline == match self@.inner {
                Inner::EndBackOff(deadline) => Some(deadline),
                Inner::WaitingForResponse { timeout, .. } => Some(timeout),
                _ => None::<u128>,
            },
    {
        match self.inner {
            Inner::EndBackOff(deadline) => Some(deadline),
            Inner::WaitingForResponse { timeout, .. } => Some(timeout),
            _ => None,
        }
    }

    /// Sends the report that is under way.
    fn send(&mut self, previous_request_id: &mut u8, now: u128, publications: &mut Vec<Publication>)
        ensures
            ({
                let pass = spec_send(old(self)@, *old(previous_request_id), now, false);
                &&& final(self)@ == pass.reporter
                &&& *final(previous_request_id) == pass.previous_request_id
                &&& published(old(publications)@, final(publications)@, pass.publications)
            }),
    {
        let request_id = previous_request_id.wrapping_add(1);
        *previous_request_id = request_id;
        publications.push(
            Publication {
                topic_name: reported_patch_topic(request_id),
                qos: QoS::AtMostOnce,
                retain: false,
                payload: duplicate_bytes(&self.pending),
            },
        );
        let timeout = after(after(now, self.keep_alive), self.keep_alive);
        self.inner = Inner::WaitingForResponse { request_id, timeout };
        proof {
            assert(publications@.take(old(publications)@.len() as int) =~= old(publications)@);
            assert(publications@[old(publications)@.len() as int]@ == spec_report(
                request_id,
                self.pending@,
            ));
        }
    }

    /// Brings the machine to rest once it has taken in what there was for it.
    fn settle(
        &mut self,
        previous_request_id: &mut u8,
        now: u128,
        publications: &mut Vec<Publication>,
    ) -> (replied: Response<Message>)
        ensures
            ({
                let pass = spec_settle(old(self)@, *old(previous_request_id), now, false);
                &&& final(self)@ == pass.reporter
                &&& *final(previous_request_id) == pass.previous_request_id
                &&& published(old(publications)@, final(publications)@, pass.publications)
                &&& replied_as(Ok(replied), pass.reply)
            }),
    {
        proof {
            lemma_nothing_published(publications@);
        }
        match self.inner {
            Inner::Idle => {
                let ghost reports = bodies(self.reports@);
                match self.reports.pop_front() {
                    Some(body) => {
                        proof {
                            assert(body@ == reports[0]);
                            assert(bodies(self.reports@) =~= reports.drop_first());
                        }
                        self.pending = body;
                        self.send(previous_request_id, now, publications);
                        Response::Continue
                    },
                    None => Response::NotReady,
                }
            },
            Inner::BeginBackOff => {
                let back_off = self.current_back_off;
                if back_off.as_secs() == 0 {
                    self.current_back_off = first_back_off(self.max_back_off);
                    self.send(previous_request_id, now, publications);
                    Response::Continue
                } else {
                    let doubled = back_off.saturating_mul(2);
                    self.current_back_off = if duration_le(self.max_back_off, doubled) {
                        self.max_back_off
                    } else {
                        doubled
                    };
                    self.inner = Inner::EndBackOff(after(now, back_off));
                    Response::NotReady
                }
            },
            Inner::EndBackOff(deadline) => {
                if now >= deadline {
                    self.send(previous_request_id, now, publications);
                    Response::Continue
                } else {
                    Response::NotReady
                }
            },
            Inner::SendRequest => {
                self.send(previous_request_id, now, publications);
                Response::Continue
            },
            Inner::WaitingForResponse { .. } => Response::NotReady,
        }
    }

    /// A pass of the machine at the time `now`. A message about the twin is
    /// taken out of `message` where it is one for this machine: the response
    /// to the request that the machine waits for. The reports to publish are
    /// added to `publications`.
    pub fn poll(
        &mut self,
        message: &mut Option<InternalTwinStateMessage>,
        previous_request_id: &mut u8,
        now: u128,
        publications: &mut Vec<Publication>,
    ) -> (replied: Result<Response<Message>, MessageParseError>)
        ensures
            ({
                let pass = spec_poll(
                    old(self)@,
                    crate::iothub::desired::option_message_view(*old(message)),
                    *old(previous_request_id),
                    now,
                );
                &&& final(self)@ == pass.reporter
                &&& *final(previous_request_id) == pass.previous_request_id
                &&& published(old(publications)@, final(publications)@, pass.publications)
                &&& replied_as(replied, pass.reply)
                &&& *final(message) == if pass.consumed {
                    None
                } else {
                    *old(message)
                }
            }),
    {
        proof {
            lemma_nothing_published(publications@);
        }
        match self.inner {
            Inner::WaitingForResponse { request_id, timeout } => {
                let answers = match message {
                    Some(
                        InternalTwinStateMessage::Response {
                            request_id: message_request_id,
                            ..
                        },
                    ) => *message_request_id == request_id,
                    _ => false,
                };
                if answers {
                    match message.take() {
                        Some(InternalTwinStateMessage::Response { status, version, .. }) => {
                            match status {
                                Status::NoContent => match version {
                                    Some(version) => {
                                        self.inner = Inner::Idle;
                                        Ok(Response::Message(Message::Reported(version)))
                                    },
                                    None => Err(MessageParseError::ParseResponseVersion),
                                },
                                Status::TooManyRequests => {
                                    self.inner = Inner::BeginBackOff;
                                    Ok(self.settle(previous_request_id, now, publications))
                                },
                                Status::Error(_) => {
                                    self.inner = Inner::BeginBackOff;
                                    Ok(self.settle(previous_request_id, now, publications))
                                },
                                status => Err(MessageParseError::IotHubStatus(status)),
                            }
                        },
                        _ => Ok(Response::NotReady),
                    }
                } else if now >= timeout {
                    self.inner = Inner::SendRequest;
                    Ok(self.settle(previous_request_id, now, publications))
                } else {
                    Ok(Response::NotReady)
                }
            },
            _ => Ok(self.settle(previous_request_id, now, publications)),
        }
    }
}

} // verus!
