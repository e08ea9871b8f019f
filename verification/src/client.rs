//! The client: the state that outlives a connection, and the machines that
//! act on it.

use crate::proto::{DecodeError, DecodeFailure, EncodeError, EncodeFailure, PacketIdentifier, QoS};
use vstd::prelude::*;

pub mod acknowledge;
pub mod connect;
pub mod engine;
pub mod identifiers;
pub mod in_flight;
pub mod ping;
pub mod publish;
pub mod subscriptions;
pub mod topics;

pub use self::engine::{Client, Engine, Event};
pub use self::identifiers::PacketIdentifiers;
pub use self::publish::PublishError;
pub use self::subscriptions::{SubscriptionUpdate, UpdateSubscriptionError};

verus! {

/// A message that was received from the server
#[derive(Debug, PartialEq, Eq)]
pub struct ReceivedPublication {
    pub topic_name: String,
    pub dup: bool,
    pub qos: QoS,
    pub retain: bool,
    pub payload: Vec<u8>,
}

/// The mathematical value of a [`ReceivedPublication`].
pub struct ReceivedPublicationView {
    pub topic_name: Seq<char>,
    pub dup: bool,
    pub qos: QoS,
    pub retain: bool,
    pub payload: Seq<u8>,
}

impl View for ReceivedPublication {
    type V = ReceivedPublicationView;

    open spec fn view(&self) -> ReceivedPublicationView {
        ReceivedPublicationView {
            topic_name: self.topic_name@,
            dup: self.dup,
            qos: self.qos,
            retain: self.retain,
            payload: self.payload@,
        }
    }
}

/// The ways in which the timer behind the keep-alive pings fails.
#[derive(Clone, Copy, Debug, PartialEq, Eq, Structural)]
pub enum TimerError {
    /// The timer has shut down.
    Shutdown,
    /// The timer holds as many deadlines as it can.
    AtCapacity,
}

/// The reasons for which the client gives up a connection, or itself.
#[derive(Debug)]
pub enum Error {
    DecodePacket(DecodeError),
    DuplicateExactlyOncePublishPacketNotMarkedDuplicate(PacketIdentifier),
    EncodePacket(EncodeError),
    PacketIdentifiersExhausted,
    PingTimer(TimerError),
    ServerClosedConnection,
    SubAckDoesNotContainEnoughQoS(PacketIdentifier, usize, usize),
    SubscriptionDowngraded(String, QoS, QoS),
    SubscriptionRejectedByServer,
    UnexpectedSubAck(PacketIdentifier, UnexpectedSubUnsubAckReason),
    UnexpectedUnsubAck(PacketIdentifier, UnexpectedSubUnsubAckReason),
}

/// Why a SUBACK or an UNSUBACK was not the packet that the client waited for.
#[derive(Clone, Copy, Debug)]
pub enum UnexpectedSubUnsubAckReason {
    DidNotExpect,
    Expected(PacketIdentifier),
    ExpectedSubAck(PacketIdentifier),
    ExpectedUnsubAck(PacketIdentifier),
}

/// Why the client could not be told to shut down.
#[derive(Clone, Copy, Debug, PartialEq, Eq, Structural)]
pub enum ShutdownError {
    ClientDoesNotExist,
}

impl ShutdownError {
    /// The error in words.
    pub fn message(&self) -> (message: String)
        ensures
            message@ == "client does not exist"@,
    {
        "client does not exist".to_owned()
    }
}

impl Error {
    /// Whether the error is the caller's: it ends the client, and is handed
    /// to the caller.
    pub fn is_user_error(&self) -> (user: bool)
        ensures
            user == (self matches Error::EncodePacket(err) && !(err is Io)),
    {
        match self {
            Error::EncodePacket(err) => err.is_user_error(),
            _ => false,
        }
    }

    /// Whether the session goes on across the reconnection that the error
    /// leads to: it does where the server closed the connection, or where
    /// reading from it ran out of time.
    pub open spec fn spec_session_is_resumable(&self) -> bool {
        match self {
            Error::DecodePacket(DecodeError::Io(err)) => crate::proto::io_error_timed_out(*err),
            Error::ServerClosedConnection => true,
            _ => false,
        }
    }

    /// Whether the session goes on across the reconnection that the error
    /// leads to.
    pub fn session_is_resumable(&self) -> (resumable: bool)
        ensures
            resumable == self.spec_session_is_resumable(),
    {
        match self {
            Error::DecodePacket(DecodeError::Io(err)) => crate::proto::is_timed_out(err),
            Error::ServerClosedConnection => true,
            _ => false,
        }
    }
}

/// The mathematical value of an [`UnexpectedSubUnsubAckReason`].
pub enum UnexpectedReason {
    DidNotExpect,
    Expected(u16),
    ExpectedSubAck(u16),
    ExpectedUnsubAck(u16),
}

impl View for UnexpectedSubUnsubAckReason {
    type V = UnexpectedReason;

    open spec fn view(&self) -> UnexpectedReason {
        match self {
            UnexpectedSubUnsubAckReason::DidNotExpect => UnexpectedReason::DidNotExpect,
            UnexpectedSubUnsubAckReason::Expected(id) => UnexpectedReason::Expected(id@),
            UnexpectedSubUnsubAckReason::ExpectedSubAck(id) => UnexpectedReason::ExpectedSubAck(
                id@,
            ),
            UnexpectedSubUnsubAckReason::ExpectedUnsubAck(id) => {
                UnexpectedReason::ExpectedUnsubAck(id@)
            },
        }
    }
}

/// The mathematical value of an [`Error`].
pub enum Failure {
    DecodePacket(DecodeFailure),
    DuplicateExactlyOncePublishPacketNotMarkedDuplicate(u16),
    EncodePacket(EncodeFailure),
    PacketIdentifiersExhausted,
    PingTimer(TimerError),
    ServerClosedConnection,
    SubAckDoesNotContainEnoughQoS(u16, nat, nat),
    SubscriptionDowngraded(Seq<char>, QoS, QoS),
    SubscriptionRejectedByServer,
    UnexpectedSubAck(u16, UnexpectedReason),
    UnexpectedUnsubAck(u16, UnexpectedReason),
}

impl View for Error {
    type V = Failure;

    open spec fn view(&self) -> Failure {
        match self {
            Error::DecodePacket(err) => Failure::DecodePacket(err@),
            Error::DuplicateExactlyOncePublishPacketNotMarkedDuplicate(id) => {
                Failure::DuplicateExactlyOncePublishPacketNotMarkedDuplicate(id@)
            },
            Error::EncodePacket(err) => Failure::EncodePacket(err@),
            Error::PacketIdentifiersExhausted => Failure::PacketIdentifiersExhausted,
            Error::PingTimer(err) => Failure::PingTimer(*err),
            Error::ServerClosedConnection => Failure::ServerClosedConnection,
            Error::SubAckDoesNotContainEnoughQoS(id, expected, actual) => {
                Failure::SubAckDoesNotContainEnoughQoS(id@, *expected as nat, *actual as nat)
            },
            Error::SubscriptionDowngraded(topic, expected, actual) => {
                Failure::SubscriptionDowngraded(topic@, *expected, *actual)
            },
            Error::SubscriptionRejectedByServer => Failure::SubscriptionRejectedByServer,
            Error::UnexpectedSubAck(id, reason) => Failure::UnexpectedSubAck(id@, reason@),
            Error::UnexpectedUnsubAck(id, reason) => Failure::UnexpectedUnsubAck(id@, reason@),
        }
    }
}

} // verus!
