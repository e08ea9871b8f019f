//! The connect machine: what to do next to get a connection that the server
//! has accepted, and how long to wait before trying again.
//!
//! The machine decides; its caller acts. Each call of [`Connect::poll`]
//! takes what came of the action that the call before asked for, and returns
//! the action to take now.

use crate::proto::packet::{option_publication_view, option_string_view, PacketView};
use crate::proto::{ClientId, ClientIdView, ConnectReturnCode, Packet, Publication};
use crate::time::{duration_le, duration_nanos, max_duration_nanos, NANOS_PER_SEC};
use std::time::Duration;
use vstd::prelude::*;

verus! {

/// Where the machine stands.
#[derive(Clone, Copy, Debug)]
pub enum State {
    BeginBackOff,
    /// The caller waits for the given time.
    EndBackOff(Duration),
    BeginConnecting,
    /// The caller opens a transport.
    WaitingForIoToConnect,
    /// The caller hands the CONNECT packet to the transport.
    BeginSendingConnect,
    /// The caller flushes the transport.
    EndSendingConnect,
    /// The caller reads a packet from the transport.
    WaitingForConnAck,
    /// The server has accepted the connection.
    Connected { new_connection: bool, reset_session: bool },
}

/// What came of the action that the machine asked for.
#[derive(Debug)]
pub enum Outcome {
    /// The time to wait has gone by.
    BackedOff,
    /// The transport is open.
    IoConnected,
    /// The transport could not be opened.
    IoFailed,
    /// The transport has taken the CONNECT packet.
    ConnectSent,
    /// The transport has sent all that it had taken.
    Flushed,
    /// The transport failed while sending.
    SendFailed,
    /// A packet came from the server.
    Received(Packet),
    /// The server closed the connection.
    Closed,
    /// The transport failed while receiving, or what came was no packet.
    ReceiveFailed,
}

/// What the caller is to do now.
#[derive(Debug)]
pub enum Action {
    /// Wait for the given time, and report `BackedOff`.
    BackOff(Duration),
    /// Drop the transport where there is one, open a new one, and report
    /// `IoConnected` or `IoFailed`.
    Connect,
    /// Hand the packet to the transport, and report `ConnectSent` or
    /// `SendFailed`.
    Send(Packet),
    /// Flush the transport, and report `Flushed` or `SendFailed`.
    Flush,
    /// Read a packet from the transport, and report `Received`, `Closed` or
    /// `ReceiveFailed`.
    Receive,
    /// Use the connection. `new_connection` is set the first time that this
    /// is returned for a connection, and `reset_session` with it where the
    /// session starts afresh.
    Connected { new_connection: bool, reset_session: bool },
}

/// The machine that establishes connections.
#[derive(Debug)]
pub struct Connect {
    max_back_off: Duration,
    current_back_off: Duration,
    state: State,
}

/// The mathematical value of the connect machine. Times are in nanoseconds.
pub struct Machine {
    pub max_back_off: nat,
    pub current_back_off: nat,
    pub state: Stage,
}

/// The mathematical value of a [`State`].
pub enum Stage {
    BeginBackOff,
    EndBackOff(nat),
    BeginConnecting,
    WaitingForIoToConnect,
    BeginSendingConnect,
    EndSendingConnect,
    WaitingForConnAck,
    Connected { new_connection: bool, reset_session: bool },
}

impl View for State {
    type V = Stage;

    open spec fn view(&self) -> Stage {
        match self {
            State::BeginBackOff => Stage::BeginBackOff,
            State::EndBackOff(back_off) => Stage::EndBackOff(duration_nanos(*back_off) as nat),
            State::BeginConnecting => Stage::BeginConnecting,
            State::WaitingForIoToConnect => Stage::WaitingForIoToConnect,
            State::BeginSendingConnect => Stage::BeginSendingConnect,
            State::EndSendingConnect => Stage::EndSendingConnect,
            State::WaitingForConnAck => Stage::WaitingForConnAck,
            State::Connected { new_connection, reset_session } => Stage::Connected {
                new_connection: *new_connection,
                reset_session: *reset_session,
            },
        }
    }
}

/// The mathematical value of an [`Action`].
pub enum Deed {
    BackOff(nat),
    Connect,
    Send(PacketView),
    Flush,
    Receive,
    Connected { new_connection: bool, reset_session: bool },
}

impl View for Action {
    type V = Deed;

    open spec fn view(&self) -> Deed {
        match self {
            Action::BackOff(back_off) => Deed::BackOff(duration_nanos(*back_off) as nat),
            Action::Connect => Deed::Connect,
            Action::Send(packet) => Deed::Send(packet@),
            Action::Flush => Deed::Flush,
            Action::Receive => Deed::Receive,
            Action::Connected { new_connection, reset_session } => Deed::Connected {
                new_connection: *new_connection,
                reset_session: *reset_session,
            },
        }
    }
}

/// The first back-off that is not zero: one second, but no longer than the
/// longest allowed.
pub open spec fn spec_first_back_off(max: nat) -> nat {
    if max <= NANOS_PER_SEC {
        max
    } else {
        NANOS_PER_SEC as nat
    }
}

/// The back-off after a failure: twice the one before, but no longer than
/// the longest allowed, nor than the longest duration there is.
pub open spec fn spec_next_back_off(current: nat, max: nat) -> nat {
    let doubled = if current * 2 <= max_duration_nanos() {
        current * 2
    } else {
        max_duration_nanos() as nat
    };
    if max <= doubled {
        max
    } else {
        doubled
    }
}

/// What a CONNACK that accepts the connection makes of the client ID: an ID
/// for a clean session becomes one for an existing session.
pub open spec fn spec_accepted_client_id(client_id: ClientIdView) -> ClientIdView {
    match client_id {
        ClientIdView::ServerGenerated => ClientIdView::ServerGenerated,
        ClientIdView::IdWithCleanSession(id) => ClientIdView::IdWithExistingSession(id),
        ClientIdView::IdWithExistingSession(id) => ClientIdView::IdWithExistingSession(id),
    }
}

/// Whether a connection that the server accepted starts the session afresh:
/// always for a client that did not ask to take up a session, else where
/// the server has none.
pub open spec fn spec_reset_session(client_id: ClientIdView, session_present: bool) -> bool {
    match client_id {
        ClientIdView::ServerGenerated => true,
        ClientIdView::IdWithCleanSession(_) => true,
        ClientIdView::IdWithExistingSession(_) => !session_present,
    }
}

/// Where the machine stands once the outcome of the last action is taken
/// in. An outcome that is not one of the action that the machine waits for
/// changes nothing.
pub open spec fn spec_take_in(machine: Machine, outcome: Option<Outcome>, client_id: ClientIdView) -> (
    Machine,
    ClientIdView,
) {
    match (machine.state, outcome) {
        (Stage::EndBackOff(_), Some(Outcome::BackedOff)) => (
            Machine { state: Stage::BeginConnecting, ..machine },
            client_id,
        ),
        (Stage::WaitingForIoToConnect, Some(Outcome::IoConnected)) => (
            Machine { state: Stage::BeginSendingConnect, ..machine },
            client_id,
        ),
        (Stage::WaitingForIoToConnect, Some(Outcome::IoFailed)) => (
            Machine { state: Stage::BeginBackOff, ..machine },
            client_id,
        ),
        (Stage::BeginSendingConnect, Some(Outcome::ConnectSent)) => (
            Machine { state: Stage::EndSendingConnect, ..machine },
            client_id,
        ),
        (Stage::BeginSendingConnect, Some(Outcome::SendFailed)) => (
            Machine { state: Stage::BeginBackOff, ..machine },
            client_id,
        ),
        (Stage::EndSendingConnect, Some(Outcome::Flushed)) => (
            Machine { state: Stage::WaitingForConnAck, ..machine },
            client_id,
        ),
        (Stage::EndSendingConnect, Some(Outcome::SendFailed)) => (
            Machine { state: Stage::BeginBackOff, ..machine },
            client_id,
        ),
        (Stage::WaitingForConnAck, Some(Outcome::Received(packet))) => match packet {
            Packet::ConnAck { session_present, return_code: ConnectReturnCode::Accepted } => (
                Machine {
                    current_back_off: 0,
                    state: Stage::Connected {
                        new_connection: true,
                        reset_session: spec_reset_session(client_id, session_present),
                    },
                    ..machine
                },
                spec_accepted_client_id(client_id),
            ),
            _ => (Machine { state: Stage::BeginBackOff, ..machine }, client_id),
        },
        (Stage::WaitingForConnAck, Some(Outcome::Closed)) => (
            Machine { state: Stage::BeginBackOff, ..machine },
            client_id,
        ),
        (Stage::WaitingForConnAck, Some(Outcome::ReceiveFailed)) => (
            Machine { state: Stage::BeginBackOff, ..machine },
            client_id,
        ),
        _ => (machine, client_id),
    }
}

/// Where the machine comes to rest, and what it asks for there. A machine
/// that is to back off does not wait before the first attempt after a
/// connection that the server accepted, and one second before the next; from
/// then on the wait doubles. No wait is longer than the longest allowed.
pub open spec fn spec_settle(machine: Machine, connect: PacketView) -> (Machine, Deed) {
    match machine.state {
        Stage::BeginBackOff => if machine.current_back_off / (NANOS_PER_SEC as nat) == 0 {
            (
                Machine {
                    current_back_off: spec_first_back_off(machine.max_back_off),
                    state: Stage::WaitingForIoToConnect,
                    ..machine
                },
                Deed::Connect,
            )
        } else {
            (
                Machine {
                    current_back_off: spec_next_back_off(
                        machine.current_back_off,
                        machine.max_back_off,
                    ),
                    state: Stage::EndBackOff(machine.current_back_off),
                    ..machine
                },
                Deed::BackOff(machine.current_back_off),
            )
        },
        Stage::EndBackOff(back_off) => (machine, Deed::BackOff(back_off)),
        Stage::BeginConnecting => (
            Machine { state: Stage::WaitingForIoToConnect, ..machine },
            Deed::Connect,
        ),
        Stage::WaitingForIoToConnect => (machine, Deed::Connect),
        Stage::BeginSendingConnect => (machine, Deed::Send(connect)),
        Stage::EndSendingConnect => (machine, Deed::Flush),
        Stage::WaitingForConnAck => (machine, Deed::Receive),
        Stage::Connected { new_connection, reset_session } => (
            Machine {
                state: Stage::Connected { new_connection: false, reset_session: false },
                ..machine
            },
            Deed::Connected { new_connection, reset_session },
        ),
    }
}

/// The CONNECT packet of a client.
pub open spec fn spec_connect_packet(
    username: Option<Seq<char>>,
    password: Option<Seq<char>>,
    will: Option<crate::proto::packet::PublicationView>,
    client_id: ClientIdView,
    keep_alive: Duration,
) -> PacketView {
    PacketView::Connect {
        username,
        password,
        will,
        client_id,
        keep_alive: duration_nanos(keep_alive) as nat,
    }
}

fn duplicate_option_string(s: &Option<String>) -> (copy: Option<String>)
    ensures
        copy == *s,
{
    match s {
        Some(s) => Some(s.clone()),
        None => None,
    }
}

fn duplicate_option_publication(p: &Option<Publication>) -> (copy: Option<Publication>)
    ensures
        option_publication_view(copy) == option_publication_view(*p),
{
    match p {
        Some(p) => Some(p.duplicate()),
        None => None,
    }
}

/// Whether the machine keeps within the longest back-off allowed: neither
/// the back-off it has come to nor the one it waits for is longer.
pub open spec fn capped(machine: Machine) -> bool {
    &&& machine.current_back_off <= machine.max_back_off
    &&& machine.state matches Stage::EndBackOff(back_off) ==> back_off <= machine.max_back_off
}

/// The machine never backs off for longer than the longest back-off
/// allowed: a step keeps it within that, and the wait that it asks for is
/// within it. A machine whose longest back-off is zero never waits.
pub proof fn lemma_back_off_capped(
    machine: Machine,
    outcome: Option<Outcome>,
    client_id: ClientIdView,
    connect: PacketView,
)
    requires
        capped(machine),
    ensures
        capped(spec_take_in(machine, outcome, client_id).0),
        capped(spec_settle(spec_take_in(machine, outcome, client_id).0, connect).0),
        spec_settle(spec_take_in(machine, outcome, client_id).0, connect).1 matches Deed::BackOff(
            back_off,
        ) ==> back_off <= machine.max_back_off,
        spec_take_in(machine, outcome, client_id).0.max_back_off == machine.max_back_off,
        spec_settle(spec_take_in(machine, outcome, client_id).0, connect).0.max_back_off
            == machine.max_back_off,
{
}

/// A run of failures waits longer and longer: a back-off that is not zero
/// is followed by twice as long a one, or by the longest allowed.
pub proof fn lemma_back_off_doubles(machine: Machine, connect: PacketView)
    requires
        machine.state is BeginBackOff,
        machine.current_back_off >= NANOS_PER_SEC,
        machine.current_back_off * 2 <= max_duration_nanos(),
    ensures
        spec_settle(machine, connect).1 == Deed::BackOff(machine.current_back_off),
        spec_settle(machine, connect).0.current_back_off == if machine.max_back_off
            <= machine.current_back_off * 2 {
            machine.max_back_off
        } else {
            machine.current_back_off * 2
        },
{
}

/// The first back-off that is not zero: one second, but no longer than the
/// longest allowed.
pub fn first_back_off(max_back_off: Duration) -> (back_off: Duration)
    ensures
        duration_nanos(back_off) == spec_first_back_off(duration_nanos(max_back_off) as nat),
{
    let second = Duration::from_secs(1);
    if duration_le(max_back_off, second) {
        max_back_off
    } else {
        second
    }
}

impl Connect {
    /// The mathematical value of the machine.
    pub closed spec fn view(&self) -> Machine {
        Machine {
            max_back_off: duration_nanos(self.max_back_off) as nat,
            current_back_off: duration_nanos(self.current_back_off) as nat,
            state: self.state@,
        }
    }

    /// A machine that is about to connect for the first time. Every
    /// connection failure will double the back-off period, to a maximum of
    /// `max_back_off`.
    pub fn new(max_back_off: Duration) -> (connect: Self)
        ensures
            connect@ == (Machine {
                max_back_off: duration_nanos(max_back_off) as nat,
                current_back_off: 0,
                state: Stage::BeginConnecting,
            }),
    {
        Connect {
            max_back_off,
            current_back_off: Duration::from_secs(0),
            state: State::BeginConnecting,
        }
    }

    /// Gives up the connection: the machine backs off and connects again.
    pub fn reconnect(&mut self)
        ensures
            final(self)@ == (Machine { state: Stage::BeginBackOff, ..old(self)@ }),
    {
        self.state = State::BeginBackOff;
    }

    /// Takes in what came of the action that the call before asked for, and
    /// returns the action to take now.
    pub fn poll(
        &mut self,
        outcome: Option<Outcome>,
        username: &Option<String>,
        password: &Option<String>,
        will: &Option<Publication>,
        client_id: &mut ClientId,
        keep_alive: Duration,
    ) -> (action: Action)
        ensures
            ({
                let taken_in = spec_take_in(old(self)@, outcome, old(client_id)@);
                let settled = spec_settle(
                    taken_in.0,
                    spec_connect_packet(
                        option_string_view(*username),
                        option_string_view(*password),
                        option_publication_view(*will),
                        taken_in.1,
                        keep_alive,
                    ),
                );
                &&& final(self)@ == settled.0
                &&& final(client_id)@ == taken_in.1
                &&& action@ == settled.1
            }),
    {
        match (self.state, outcome) {
            (State::EndBackOff(_), Some(Outcome::BackedOff)) => {
                self.state = State::BeginConnecting;
            },
            (State::WaitingForIoToConnect, Some(Outcome::IoConnected)) => {
                self.state = State::BeginSendingConnect;
            },
            (State::WaitingForIoToConnect, Some(Outcome::IoFailed)) => {
                self.state = State::BeginBackOff;
            },
            (State::BeginSendingConnect, Some(Outcome::ConnectSent)) => {
                self.state = State::EndSendingConnect;
            },
            (State::BeginSendingConnect, Some(Outcome::SendFailed)) => {
                self.state = State::BeginBackOff;
            },
            (State::EndSendingConnect, Some(Outcome::Flushed)) => {
                self.state = State::WaitingForConnAck;
            },
            (State::EndSendingConnect, Some(Outcome::SendFailed)) => {
                self.state = State::BeginBackOff;
            },
            (State::WaitingForConnAck, Some(Outcome::Received(packet))) => match packet {
                Packet::ConnAck { session_present, return_code: ConnectReturnCode::Accepted } => {
                    self.current_back_off = Duration::from_secs(0);
                    let mut accepted = ClientId::ServerGenerated;
                    core::mem::swap(&mut accepted, client_id);
                    let reset_session = match accepted {
                        ClientId::ServerGenerated => true,
                        ClientId::IdWithCleanSession(id) => {
                            *client_id = ClientId::IdWithExistingSession(id);
                            true
                        },
                        ClientId::IdWithExistingSession(id) => {
                            *client_id = ClientId::IdWithExistingSession(id);
                            !session_present
                        },
                    };
                    self.state = State::Connected { new_connection: true, reset_session };
                },
                _ => {
                    self.state = State::BeginBackOff;
                },
            },
            (State::WaitingForConnAck, Some(Outcome::Closed)) => {
                self.state = State::BeginBackOff;
            },
            (State::WaitingForConnAck, Some(Outcome::ReceiveFailed)) => {
                self.state = State::BeginBackOff;
            },
            _ => {},
        }
        match self.state {
            State::BeginBackOff => {
                let back_off = self.current_back_off;
                if back_off.as_secs() == 0 {
                    self.current_back_off = first_back_off(self.max_back_off);
                    self.state = State::WaitingForIoToConnect;
                    Action::Connect
                } else {
                    let doubled = back_off.saturating_mul(2);
                    self.current_back_off = if duration_le(self.max_back_off, doubled) {
                        self.max_back_off
                    } else {
                        doubled
                    };
                    self.state = State::EndBackOff(back_off);
                    Action::BackOff(back_off)
                }
            },
            State::EndBackOff(back_off) => Action::BackOff(back_off),
            State::BeginConnecting => {
                self.state = State::WaitingForIoToConnect;
                Action::Connect
            },
            State::WaitingForIoToConnect => Action::Connect,
            State::BeginSendingConnect => Action::Send(
                Packet::Connect {
                    username: duplicate_option_string(username),
                    password: duplicate_option_string(password),
                    will: duplicate_option_publication(will),
                    client_id: client_id.duplicate(),
                    keep_alive,
                },
            ),
            State::EndSendingConnect => Action::Flush,
            State::WaitingForConnAck => Action::Receive,
            State::Connected { new_connection, reset_session } => {
                self.state = State::Connected { new_connection: false, reset_session: false };
                Action::Connected { new_connection, reset_session }
            },
        }
    }
}

} // verus!
