//! MQTT protocol types.

use vstd::prelude::*;

pub mod codec;
pub mod decode;
pub mod encode;
pub mod packet;
pub mod pieces;
pub mod read_back;
pub mod remaining_length;
pub mod round_trip;
pub mod utf8_string;
pub mod wire;

pub use self::codec::{PacketCodec, PacketDecoderState};
pub use self::packet::{
    Packet, PacketIdentifierDupQoS, Publication, QoS, SubAckQos, SubscribeTo,
};
pub use self::remaining_length::{RemainingLengthCodec, RemainingLengthDecoderState};
pub use self::utf8_string::{Utf8StringCodec, Utf8StringDecoderState};

verus! {

#[verifier::external_type_specification]
#[verifier::external_body]
pub struct ExIoError(std::io::Error);

#[verifier::external_type_specification]
#[verifier::external_body]
pub struct ExUtf8Error(std::str::Utf8Error);

/// The client ID
///
/// Refs:
/// - 3.1.3.1 Client Identifier
/// - 3.1.2.4 Clean Session
#[derive(Clone, Debug, Eq, PartialEq)]
pub enum ClientId {
    ServerGenerated,
    IdWithCleanSession(String),
    IdWithExistingSession(String),
}

/// The mathematical value of a [`ClientId`].
pub enum ClientIdView {
    ServerGenerated,
    IdWithCleanSession(Seq<char>),
    IdWithExistingSession(Seq<char>),
}

impl View for ClientId {
    type V = ClientIdView;

    open spec fn view(&self) -> ClientIdView {
        match self {
            ClientId::ServerGenerated => ClientIdView::ServerGenerated,
            ClientId::IdWithCleanSession(id) => ClientIdView::IdWithCleanSession(id@),
            ClientId::IdWithExistingSession(id) => ClientIdView::IdWithExistingSession(id@),
        }
    }
}

impl ClientIdView {
    /// The identifier sent in a CONNECT packet: empty for a server-generated one.
    pub open spec fn id(self) -> Seq<char> {
        match self {
            ClientIdView::ServerGenerated => Seq::empty(),
            ClientIdView::IdWithCleanSession(id) => id,
            ClientIdView::IdWithExistingSession(id) => id,
        }
    }

    /// Whether a CONNECT packet with this identifier asks for a clean session.
    pub open spec fn clean_session(self) -> bool {
        !(self is IdWithExistingSession)
    }
}

impl ClientId {
    /// A copy of this client ID.
    pub fn duplicate(&self) -> (copy: ClientId)
        ensures
            copy@ == self@,
    {
        match self {
            ClientId::ServerGenerated => ClientId::ServerGenerated,
            ClientId::IdWithCleanSession(id) => ClientId::IdWithCleanSession(id.clone()),
            ClientId::IdWithExistingSession(id) => ClientId::IdWithExistingSession(id.clone()),
        }
    }
}

/// The return code for a connection attempt
///
/// Ref: 3.2.2.3 Connect Return code
#[derive(Clone, Copy, Debug, Eq, PartialEq, Structural)]
pub enum ConnectReturnCode {
    Accepted,
    Refused(ConnectionRefusedReason),
}

/// The reason the connection was refused by the server
///
/// Ref: 3.2.2.3 Connect Return code
#[derive(Clone, Copy, Debug, Eq, PartialEq, Structural)]
pub enum ConnectionRefusedReason {
    UnacceptableProtocolVersion,
    IdentifierRejected,
    ServerUnavailable,
    BadUserNameOrPassword,
    NotAuthorized,
    Other(u8),
}

/// The return code that a byte of a CONNACK packet stands for.
pub open spec fn spec_return_code_from_u8(code: u8) -> ConnectReturnCode {
    if code == 0 {
        ConnectReturnCode::Accepted
    } else if code == 1 {
        ConnectReturnCode::Refused(ConnectionRefusedReason::UnacceptableProtocolVersion)
    } else if code == 2 {
        ConnectReturnCode::Refused(ConnectionRefusedReason::IdentifierRejected)
    } else if code == 3 {
        ConnectReturnCode::Refused(ConnectionRefusedReason::ServerUnavailable)
    } else if code == 4 {
        ConnectReturnCode::Refused(ConnectionRefusedReason::BadUserNameOrPassword)
    } else if code == 5 {
        ConnectReturnCode::Refused(ConnectionRefusedReason::NotAuthorized)
    } else {
        ConnectReturnCode::Refused(ConnectionRefusedReason::Other(code))
    }
}

/// The byte that stands for a return code in a CONNACK packet.
pub open spec fn spec_return_code_to_u8(code: ConnectReturnCode) -> u8 {
    match code {
        ConnectReturnCode::Accepted => 0,
        ConnectReturnCode::Refused(ConnectionRefusedReason::UnacceptableProtocolVersion) => 1,
        ConnectReturnCode::Refused(ConnectionRefusedReason::IdentifierRejected) => 2,
        ConnectReturnCode::Refused(ConnectionRefusedReason::ServerUnavailable) => 3,
        ConnectReturnCode::Refused(ConnectionRefusedReason::BadUserNameOrPassword) => 4,
        ConnectReturnCode::Refused(ConnectionRefusedReason::NotAuthorized) => 5,
        ConnectReturnCode::Refused(ConnectionRefusedReason::Other(code)) => code,
    }
}

impl From<u8> for ConnectReturnCode {
    fn from(code: u8) -> (ret: Self) {
        match code {
            0x00 => ConnectReturnCode::Accepted,
            0x01 => {
                ConnectReturnCode::Refused(ConnectionRefusedReason::UnacceptableProtocolVersion)
            },
            0x02 => ConnectReturnCode::Refused(ConnectionRefusedReason::IdentifierRejected),
            0x03 => ConnectReturnCode::Refused(ConnectionRefusedReason::ServerUnavailable),
            0x04 => ConnectReturnCode::Refused(ConnectionRefusedReason::BadUserNameOrPassword),
            0x05 => ConnectReturnCode::Refused(ConnectionRefusedReason::NotAuthorized),
            code => ConnectReturnCode::Refused(ConnectionRefusedReason::Other(code)),
        }
    }
}

impl vstd::std_specs::convert::FromSpecImpl<u8> for ConnectReturnCode {
    open spec fn obeys_from_spec() -> bool {
        true
    }

    open spec fn from_spec(code: u8) -> Self {
        spec_return_code_from_u8(code)
    }
}

impl From<ConnectReturnCode> for u8 {
    fn from(code: ConnectReturnCode) -> (ret: Self) {
        match code {
            ConnectReturnCode::Accepted => 0x00,
            ConnectReturnCode::Refused(ConnectionRefusedReason::UnacceptableProtocolVersion) => {
                0x01
            },
            ConnectReturnCode::Refused(ConnectionRefusedReason::IdentifierRejected) => 0x02,
            ConnectReturnCode::Refused(ConnectionRefusedReason::ServerUnavailable) => 0x03,
            ConnectReturnCode::Refused(ConnectionRefusedReason::BadUserNameOrPassword) => 0x04,
            ConnectReturnCode::Refused(ConnectionRefusedReason::NotAuthorized) => 0x05,
            ConnectReturnCode::Refused(ConnectionRefusedReason::Other(code)) => code,
        }
    }
}

impl vstd::std_specs::convert::FromSpecImpl<ConnectReturnCode> for u8 {
    open spec fn obeys_from_spec() -> bool {
        true
    }

    open spec fn from_spec(code: ConnectReturnCode) -> Self {
        spec_return_code_to_u8(code)
    }
}

/// A byte that came off the wire and is written back gives the same byte;
/// a return code that is written and read back gives the same code, unless
/// it is an `Other` that holds one of the codes with a name of their own.
pub proof fn lemma_return_code_round_trip(byte: u8, code: ConnectReturnCode)
    ensures
        spec_return_code_to_u8(spec_return_code_from_u8(byte)) == byte,
        !(code matches ConnectReturnCode::Refused(ConnectionRefusedReason::Other(c)) && c <= 5)
            ==> spec_return_code_from_u8(spec_return_code_to_u8(code)) == code,
{
}

/// A packet identifier. Two-byte unsigned integer that cannot be zero.
#[derive(Clone, Copy, Debug, PartialEq, Eq, PartialOrd, Ord, Hash)]
pub struct PacketIdentifier(u16);

impl View for PacketIdentifier {
    type V = u16;

    closed spec fn view(&self) -> u16 {
        self.0
    }
}

impl PacketIdentifier {
    /// Every packet identifier is non-zero.
    #[verifier::type_invariant]
    spec fn non_zero(self) -> bool {
        self.0 != 0
    }

    /// Two packet identifiers with the same raw value are the same.
    pub proof fn lemma_view_injective(self, other: PacketIdentifier)
        ensures
            self@ == other@ <==> self == other,
    {
    }

    /// Returns the largest value that is a valid packet identifier.
    pub fn max_value() -> (id: Self)
        ensures
            id@ == u16::MAX,
    {
        PacketIdentifier(u16::MAX)
    }

    /// Convert the given raw packet identifier into this type.
    pub fn new(raw: u16) -> (id: Option<Self>)
        ensures
            raw == 0 <==> id is None,
            id matches Some(id) ==> id@ == raw,
    {
        if raw == 0 {
            None
        } else {
            Some(PacketIdentifier(raw))
        }
    }

    /// Get the raw packet identifier.
    pub fn get(self) -> (raw: u16)
        ensures
            raw == self@,
            raw != 0,
    {
        proof {
            use_type_invariant(self);
        }
        self.0
    }

    /// The identifier `other` places further on, wrapping around past the
    /// largest one and skipping zero.
    pub open spec fn spec_add(raw: u16, other: u16) -> u16 {
        if (raw + other) % 0x1_0000 == 0 {
            1
        } else {
            ((raw + other) % 0x1_0000) as u16
        }
    }

    /// Advances this identifier by `other`, wrapping around past the largest
    /// one and skipping zero.
    pub fn add(self, other: u16) -> (id: Self)
        ensures
            id@ == Self::spec_add(self@, other),
    {
        let sum: u16 = self.0.wrapping_add(other);
        if sum == 0 {
            PacketIdentifier(1)
        } else {
            PacketIdentifier(sum)
        }
    }
}

/// The reasons for which bytes are not an MQTT packet.
#[derive(Debug)]
pub enum DecodeError {
    ConnectReservedSet,
    IncompletePacket,
    Io(std::io::Error),
    PublishDupAtMostOnce,
    NoTopics,
    RemainingLengthTooHigh,
    StringNotUtf8(std::str::Utf8Error),
    UnrecognizedConnAckFlags(u8),
    UnrecognizedPacket { packet_type: u8, flags: u8, remaining_length: usize },
    UnrecognizedProtocolLevel(u8),
    UnrecognizedProtocolName(String),
    UnrecognizedQoS(u8),
    ZeroPacketIdentifier,
}

/// The mathematical value of a [`DecodeError`]: which rule of the format the
/// bytes broke, without the values that only the machine holds.
pub enum DecodeFailure {
    ConnectReservedSet,
    IncompletePacket,
    Io,
    PublishDupAtMostOnce,
    NoTopics,
    RemainingLengthTooHigh,
    StringNotUtf8,
    UnrecognizedConnAckFlags(u8),
    UnrecognizedPacket { packet_type: u8, flags: u8, remaining_length: nat },
    UnrecognizedProtocolLevel(u8),
    UnrecognizedProtocolName(Seq<char>),
    UnrecognizedQoS(u8),
    ZeroPacketIdentifier,
}

impl View for DecodeError {
    type V = DecodeFailure;

    open spec fn view(&self) -> DecodeFailure {
        match self {
            DecodeError::ConnectReservedSet => DecodeFailure::ConnectReservedSet,
            DecodeError::IncompletePacket => DecodeFailure::IncompletePacket,
            DecodeError::Io(_) => DecodeFailure::Io,
            DecodeError::PublishDupAtMostOnce => DecodeFailure::PublishDupAtMostOnce,
            DecodeError::NoTopics => DecodeFailure::NoTopics,
            DecodeError::RemainingLengthTooHigh => DecodeFailure::RemainingLengthTooHigh,
            DecodeError::StringNotUtf8(_) => DecodeFailure::StringNotUtf8,
            DecodeError::UnrecognizedConnAckFlags(flags) => DecodeFailure::UnrecognizedConnAckFlags(
                *flags,
            ),
            DecodeError::UnrecognizedPacket { packet_type, flags, remaining_length } => {
                DecodeFailure::UnrecognizedPacket {
                    packet_type: *packet_type,
                    flags: *flags,
                    remaining_length: *remaining_length as nat,
                }
            },
            DecodeError::UnrecognizedProtocolLevel(level) => {
                DecodeFailure::UnrecognizedProtocolLevel(*level)
            },
            DecodeError::UnrecognizedProtocolName(name) => DecodeFailure::UnrecognizedProtocolName(
                name@,
            ),
            DecodeError::UnrecognizedQoS(qos) => DecodeFailure::UnrecognizedQoS(*qos),
            DecodeError::ZeroPacketIdentifier => DecodeFailure::ZeroPacketIdentifier,
        }
    }
}

impl From<std::io::Error> for DecodeError {
    fn from(err: std::io::Error) -> (ret: Self) {
        DecodeError::Io(err)
    }
}

impl vstd::std_specs::convert::FromSpecImpl<std::io::Error> for DecodeError {
    open spec fn obeys_from_spec() -> bool {
        true
    }

    open spec fn from_spec(err: std::io::Error) -> Self {
        DecodeError::Io(err)
    }
}

/// Whether an I/O error says that an operation ran out of time, as
/// `std::io::Error::kind` tells.
pub uninterp spec fn io_error_timed_out(err: std::io::Error) -> bool;

/// `std::io::Error::kind`, held against `ErrorKind::TimedOut`.
#[verifier::external_body]
pub(crate) fn is_timed_out(err: &std::io::Error) -> (timed_out: bool)
    ensures
        timed_out == io_error_timed_out(*err),
{
    err.kind() == std::io::ErrorKind::TimedOut
}

/// The reasons for which a packet cannot be written.
#[derive(Debug)]
pub enum EncodeError {
    Io(std::io::Error),
    KeepAliveTooHigh(std::time::Duration),
    RemainingLengthTooHigh(usize),
    StringTooLarge(usize),
    WillTooLarge(usize),
}

/// The mathematical value of an [`EncodeError`].
pub enum EncodeFailure {
    Io,
    /// The keep-alive, in nanoseconds.
    KeepAliveTooHigh(nat),
    RemainingLengthTooHigh(nat),
    StringTooLarge(nat),
    WillTooLarge(nat),
}

impl View for EncodeError {
    type V = EncodeFailure;

    open spec fn view(&self) -> EncodeFailure {
        match self {
            EncodeError::Io(_) => EncodeFailure::Io,
            EncodeError::KeepAliveTooHigh(keep_alive) => EncodeFailure::KeepAliveTooHigh(
                crate::time::duration_nanos(*keep_alive) as nat,
            ),
            EncodeError::RemainingLengthTooHigh(len) => EncodeFailure::RemainingLengthTooHigh(
                *len as nat,
            ),
            EncodeError::StringTooLarge(len) => EncodeFailure::StringTooLarge(*len as nat),
            EncodeError::WillTooLarge(len) => EncodeFailure::WillTooLarge(*len as nat),
        }
    }
}

impl EncodeError {
    /// Whether the error is the caller's: the packet asked for cannot be
    /// written at all, as opposed to a transport that failed.
    pub fn is_user_error(&self) -> (user: bool)
        ensures
            user == !(self is Io),
    {
        match self {
            EncodeError::Io(_) => false,
            EncodeError::KeepAliveTooHigh(_) => true,
            EncodeError::RemainingLengthTooHigh(_) => true,
            EncodeError::StringTooLarge(_) => true,
            EncodeError::WillTooLarge(_) => true,
        }
    }
}

impl From<std::io::Error> for EncodeError {
    fn from(err: std::io::Error) -> (ret: Self) {
        EncodeError::Io(err)
    }
}

impl vstd::std_specs::convert::FromSpecImpl<std::io::Error> for EncodeError {
    open spec fn obeys_from_spec() -> bool {
        true
    }

    open spec fn from_spec(err: std::io::Error) -> Self {
        EncodeError::Io(err)
    }
}

} // verus!
