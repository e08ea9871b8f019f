//! MQTT control packets and their wire format.
//!
//! Ref: 2 MQTT Control Packet format

use crate::proto::remaining_length::{spec_encode_remaining_length, MAX_REMAINING_LENGTH};
use crate::proto::wire::{
    spec_get_packet_identifier, spec_get_string, spec_get_u16, spec_get_u8, spec_put_string,
    spec_put_u16, string_fits,
};
use crate::proto::{
    spec_return_code_from_u8, spec_return_code_to_u8, ClientId, ClientIdView, ConnectReturnCode,
    DecodeFailure, EncodeFailure, PacketIdentifier,
};
use crate::time::{duration_nanos, NANOS_PER_SEC};
use vstd::prelude::*;
use vstd::utf8::encode_utf8;

verus! {

/// The level of reliability for a publication
///
/// Ref: 4.3 Quality of Service levels and protocol flows
#[derive(Clone, Copy, Debug, PartialEq, Eq, PartialOrd, Ord, Structural)]
pub enum QoS {
    AtMostOnce,
    AtLeastOnce,
    ExactlyOnce,
}

impl QoS {
    /// The number that stands for this level on the wire.
    pub open spec fn level(self) -> u8 {
        match self {
            QoS::AtMostOnce => 0,
            QoS::AtLeastOnce => 1,
            QoS::ExactlyOnce => 2,
        }
    }

    /// The level that `level` stands for, where it is 0, 1 or 2.
    pub open spec fn spec_from_level(level: u8) -> Option<QoS> {
        if level == 0 {
            Some(QoS::AtMostOnce)
        } else if level == 1 {
            Some(QoS::AtLeastOnce)
        } else if level == 2 {
            Some(QoS::ExactlyOnce)
        } else {
            None
        }
    }

    /// The level that `level` stands for, where it is 0, 1 or 2.
    pub fn from_level(level: u8) -> (qos: Option<QoS>)
        ensures
            qos == Self::spec_from_level(level),
    {
        match level {
            0x00 => Some(QoS::AtMostOnce),
            0x01 => Some(QoS::AtLeastOnce),
            0x02 => Some(QoS::ExactlyOnce),
            _ => None,
        }
    }
}

impl From<QoS> for u8 {
    fn from(qos: QoS) -> (ret: Self) {
        match qos {
            QoS::AtMostOnce => 0x00,
            QoS::AtLeastOnce => 0x01,
            QoS::ExactlyOnce => 0x02,
        }
    }
}

impl vstd::std_specs::convert::FromSpecImpl<QoS> for u8 {
    open spec fn obeys_from_spec() -> bool {
        true
    }

    open spec fn from_spec(qos: QoS) -> Self {
        qos.level()
    }
}

/// QoS returned in a SUBACK packet. Either one of the [`QoS`] values, or an error code.
#[derive(Clone, Copy, Debug, PartialEq, Eq, Structural)]
pub enum SubAckQos {
    Success(QoS),
    Failure,
}

impl SubAckQos {
    /// The byte that stands for this return code on the wire.
    pub open spec fn code(self) -> u8 {
        match self {
            SubAckQos::Success(qos) => qos.level(),
            SubAckQos::Failure => 0x80,
        }
    }

    /// The return code that `code` stands for, where it stands for one.
    pub open spec fn spec_from_code(code: u8) -> Option<SubAckQos> {
        if code == 0x80 {
            Some(SubAckQos::Failure)
        } else {
            match QoS::spec_from_level(code) {
                Some(qos) => Some(SubAckQos::Success(qos)),
                None => None,
            }
        }
    }
}

impl From<SubAckQos> for u8 {
    fn from(qos: SubAckQos) -> (ret: Self) {
        match qos {
            SubAckQos::Success(qos) => u8::from(qos),
            SubAckQos::Failure => 0x80,
        }
    }
}

impl vstd::std_specs::convert::FromSpecImpl<SubAckQos> for u8 {
    open spec fn obeys_from_spec() -> bool {
        true
    }

    open spec fn from_spec(qos: SubAckQos) -> Self {
        qos.code()
    }
}

/// A combination of the packet identifier, dup flag and QoS that only allows valid combinations of these three properties.
/// Used in [`Packet::Publish`]
#[derive(Clone, Copy, Debug, PartialEq, Eq)]
pub enum PacketIdentifierDupQoS {
    AtMostOnce,
    AtLeastOnce(PacketIdentifier, bool),
    ExactlyOnce(PacketIdentifier, bool),
}

/// The mathematical value of a [`PacketIdentifierDupQoS`].
pub enum Delivery {
    AtMostOnce,
    AtLeastOnce(u16, bool),
    ExactlyOnce(u16, bool),
}

impl View for PacketIdentifierDupQoS {
    type V = Delivery;

    open spec fn view(&self) -> Delivery {
        match self {
            PacketIdentifierDupQoS::AtMostOnce => Delivery::AtMostOnce,
            PacketIdentifierDupQoS::AtLeastOnce(id, dup) => Delivery::AtLeastOnce(id@, *dup),
            PacketIdentifierDupQoS::ExactlyOnce(id, dup) => Delivery::ExactlyOnce(id@, *dup),
        }
    }
}

impl Delivery {
    pub open spec fn qos(self) -> QoS {
        match self {
            Delivery::AtMostOnce => QoS::AtMostOnce,
            Delivery::AtLeastOnce(_, _) => QoS::AtLeastOnce,
            Delivery::ExactlyOnce(_, _) => QoS::ExactlyOnce,
        }
    }

    pub open spec fn dup(self) -> bool {
        match self {
            Delivery::AtMostOnce => false,
            Delivery::AtLeastOnce(_, dup) => dup,
            Delivery::ExactlyOnce(_, dup) => dup,
        }
    }

    pub open spec fn packet_identifier(self) -> Option<u16> {
        match self {
            Delivery::AtMostOnce => None,
            Delivery::AtLeastOnce(id, _) => Some(id),
            Delivery::ExactlyOnce(id, _) => Some(id),
        }
    }
}

/// A subscription request.
#[derive(Clone, Debug, PartialEq, Eq)]
pub struct SubscribeTo {
    pub topic_filter: String,
    pub qos: QoS,
}

/// The mathematical value of a [`SubscribeTo`].
pub struct SubscribeToView {
    pub topic_filter: Seq<char>,
    pub qos: QoS,
}

impl View for SubscribeTo {
    type V = SubscribeToView;

    open spec fn view(&self) -> SubscribeToView {
        SubscribeToView { topic_filter: self.topic_filter@, qos: self.qos }
    }
}

impl DeepView for SubscribeTo {
    type V = SubscribeToView;

    open spec fn deep_view(&self) -> SubscribeToView {
        self@
    }
}

impl SubscribeTo {
    /// A copy of this subscription request.
    pub fn duplicate(&self) -> (copy: SubscribeTo)
        ensures
            copy@ == self@,
    {
        SubscribeTo { topic_filter: self.topic_filter.clone(), qos: self.qos }
    }
}

/// A message that can be published to the server
#[derive(Clone, Debug, PartialEq, Eq)]
pub struct Publication {
    pub topic_name: String,
    pub qos: QoS,
    pub retain: bool,
    pub payload: Vec<u8>,
}

/// The mathematical value of a [`Publication`].
pub struct PublicationView {
    pub topic_name: Seq<char>,
    pub qos: QoS,
    pub retain: bool,
    pub payload: Seq<u8>,
}

impl View for Publication {
    type V = PublicationView;

    open spec fn view(&self) -> PublicationView {
        PublicationView {
            topic_name: self.topic_name@,
            qos: self.qos,
            retain: self.retain,
            payload: self.payload@,
        }
    }
}

/// A copy of some bytes.
pub fn duplicate_bytes(bytes: &Vec<u8>) -> (copy: Vec<u8>)
    ensures
        copy@ == bytes@,
{
    let mut copy: Vec<u8> = Vec::new();
    crate::proto::wire::append_bytes(bytes.as_slice(), &mut copy);
    proof {
        assert(copy@ =~= bytes@);
    }
    copy
}

impl Publication {
    /// A copy of this message.
    pub fn duplicate(&self) -> (copy: Publication)
        ensures
            copy@ == self@,
    {
        Publication {
            topic_name: self.topic_name.clone(),
            qos: self.qos,
            retain: self.retain,
            payload: duplicate_bytes(&self.payload),
        }
    }
}

/// An MQTT packet
#[derive(Clone, Debug, PartialEq, Eq)]
pub enum Packet {
    /// Ref: 3.2 CONNACK – Acknowledge connection request
    ConnAck { session_present: bool, return_code: ConnectReturnCode },
    /// Ref: 3.1 CONNECT – Client requests a connection to a Server
    Connect {
        username: Option<String>,
        password: Option<String>,
        will: Option<Publication>,
        client_id: ClientId,
        keep_alive: std::time::Duration,
    },
    Disconnect,
    /// Ref: 3.12 PINGREQ – PING request
    PingReq,
    /// Ref: 3.13 PINGRESP – PING response
    PingResp,
    /// Ref: 3.4 PUBACK – Publish acknowledgement
    PubAck { packet_identifier: PacketIdentifier },
    /// Ref: 3.7 PUBCOMP – Publish complete (QoS 2 publish received, part 3)
    PubComp { packet_identifier: PacketIdentifier },
    /// 3.3 PUBLISH – Publish message
    Publish {
        packet_identifier_dup_qos: PacketIdentifierDupQoS,
        retain: bool,
        topic_name: String,
        payload: Vec<u8>,
    },
    /// Ref: 3.5 PUBREC – Publish received (QoS 2 publish received, part 1)
    PubRec { packet_identifier: PacketIdentifier },
    /// Ref: 3.6 PUBREL – Publish release (QoS 2 publish received, part 2)
    PubRel { packet_identifier: PacketIdentifier },
    /// Ref: 3.9 SUBACK – Subscribe acknowledgement
    SubAck { packet_identifier: PacketIdentifier, qos: Vec<SubAckQos> },
    /// Ref: 3.8 SUBSCRIBE - Subscribe to topics
    Subscribe { packet_identifier: PacketIdentifier, subscribe_to: Vec<SubscribeTo> },
    /// Ref: 3.11 UNSUBACK – Unsubscribe acknowledgement
    UnsubAck { packet_identifier: PacketIdentifier },
    /// Ref: 3.10 UNSUBSCRIBE – Unsubscribe from topics
    Unsubscribe { packet_identifier: PacketIdentifier, unsubscribe_from: Vec<String> },
}

/// The mathematical value of a [`Packet`]. A keep-alive is held in
/// nanoseconds, a packet identifier as its raw value.
pub enum PacketView {
    ConnAck { session_present: bool, return_code: ConnectReturnCode },
    Connect {
        username: Option<Seq<char>>,
        password: Option<Seq<char>>,
        will: Option<PublicationView>,
        client_id: ClientIdView,
        keep_alive: nat,
    },
    Disconnect,
    PingReq,
    PingResp,
    PubAck { packet_identifier: u16 },
    PubComp { packet_identifier: u16 },
    Publish { delivery: Delivery, retain: bool, topic_name: Seq<char>, payload: Seq<u8> },
    PubRec { packet_identifier: u16 },
    PubRel { packet_identifier: u16 },
    SubAck { packet_identifier: u16, qos: Seq<SubAckQos> },
    Subscribe { packet_identifier: u16, subscribe_to: Seq<SubscribeToView> },
    UnsubAck { packet_identifier: u16 },
    Unsubscribe { packet_identifier: u16, unsubscribe_from: Seq<Seq<char>> },
}

/// The mathematical value of an optional string.
pub open spec fn option_string_view(s: Option<String>) -> Option<Seq<char>> {
    match s {
        Some(s) => Some(s@),
        None => None,
    }
}

/// The mathematical value of an optional message.
pub open spec fn option_publication_view(p: Option<Publication>) -> Option<PublicationView> {
    match p {
        Some(p) => Some(p@),
        None => None,
    }
}

impl View for Packet {
    type V = PacketView;

    open spec fn view(&self) -> PacketView {
        match self {
            Packet::ConnAck { session_present, return_code } => PacketView::ConnAck {
                session_present: *session_present,
                return_code: *return_code,
            },
            Packet::Connect { username, password, will, client_id, keep_alive } => {
                PacketView::Connect {
                    username: option_string_view(*username),
                    password: option_string_view(*password),
                    will: option_publication_view(*will),
                    client_id: client_id@,
                    keep_alive: duration_nanos(*keep_alive) as nat,
                }
            },
            Packet::Disconnect => PacketView::Disconnect,
            Packet::PingReq => PacketView::PingReq,
            Packet::PingResp => PacketView::PingResp,
            Packet::PubAck { packet_identifier } => PacketView::PubAck {
                packet_identifier: packet_identifier@,
            },
            Packet::PubComp { packet_identifier } => PacketView::PubComp {
                packet_identifier: packet_identifier@,
            },
            Packet::Publish { packet_identifier_dup_qos, retain, topic_name, payload } => {
                PacketView::Publish {
                    delivery: packet_identifier_dup_qos@,
                    retain: *retain,
                    topic_name: topic_name@,
                    payload: payload@,
                }
            },
            Packet::PubRec { packet_identifier } => PacketView::PubRec {
                packet_identifier: packet_identifier@,
            },
            Packet::PubRel { packet_identifier } => PacketView::PubRel {
                packet_identifier: packet_identifier@,
            },
            Packet::SubAck { packet_identifier, qos } => PacketView::SubAck {
                packet_identifier: packet_identifier@,
                qos: qos@,
            },
            Packet::Subscribe { packet_identifier, subscribe_to } => PacketView::Subscribe {
                packet_identifier: packet_identifier@,
                subscribe_to: subscribe_to.deep_view(),
            },
            Packet::UnsubAck { packet_identifier } => PacketView::UnsubAck {
                packet_identifier: packet_identifier@,
            },
            Packet::Unsubscribe { packet_identifier, unsubscribe_from } => {
                PacketView::Unsubscribe {
                    packet_identifier: packet_identifier@,
                    unsubscribe_from: unsubscribe_from.deep_view(),
                }
            },
        }
    }
}

impl Packet {
    /// The type of a [`Packet::ConnAck`]
    pub const CONNACK: u8 = 0x20;

    /// The type of a [`Packet::Connect`]
    pub const CONNECT: u8 = 0x10;

    /// The type of a [`Packet::Disconnect`]
    pub const DISCONNECT: u8 = 0xE0;

    /// The type of a [`Packet::PingReq`]
    pub const PINGREQ: u8 = 0xC0;

    /// The type of a [`Packet::PingResp`]
    pub const PINGRESP: u8 = 0xD0;

    /// The type of a [`Packet::PubAck`]
    pub const PUBACK: u8 = 0x40;

    /// The type of a [`Packet::PubComp`]
    pub const PUBCOMP: u8 = 0x70;

    /// The type of a [`Packet::Publish`]
    pub const PUBLISH: u8 = 0x30;

    /// The type of a [`Packet::PubRec`]
    pub const PUBREC: u8 = 0x50;

    /// The type of a [`Packet::PubRel`]
    pub const PUBREL: u8 = 0x60;

    /// The type of a [`Packet::SubAck`]
    pub const SUBACK: u8 = 0x90;

    /// The type of a [`Packet::Subscribe`]
    pub const SUBSCRIBE: u8 = 0x80;

    /// The type of a [`Packet::UnsubAck`]
    pub const UNSUBACK: u8 = 0xB0;

    /// The type of a [`Packet::Unsubscribe`]
    pub const UNSUBSCRIBE: u8 = 0xA0;
}

impl DeepView for Packet {
    type V = PacketView;

    open spec fn deep_view(&self) -> PacketView {
        self@
    }
}

/// A copy of some subscription requests.
pub fn duplicate_subscriptions(subscribe_to: &Vec<SubscribeTo>) -> (copy: Vec<SubscribeTo>)
    ensures
        copy.deep_view() == subscribe_to.deep_view(),
{
    let mut copy: Vec<SubscribeTo> = Vec::new();
    let mut i: usize = 0;
    while i < subscribe_to.len()
        invariant
            i <= subscribe_to.len(),
            copy.len() == i,
            forall|j: int| 0 <= j < i ==> copy@[j]@ == subscribe_to@[j]@,
        decreases subscribe_to.len() - i,
    {
        copy.push(subscribe_to[i].duplicate());
        i = i + 1;
    }
    proof {
        assert(copy.deep_view() =~= subscribe_to.deep_view());
    }
    copy
}

/// A copy of some strings.
pub fn duplicate_strings(strings: &Vec<String>) -> (copy: Vec<String>)
    ensures
        copy.deep_view() == strings.deep_view(),
{
    let mut copy: Vec<String> = Vec::new();
    let mut i: usize = 0;
    while i < strings.len()
        invariant
            i <= strings.len(),
            copy.len() == i,
            forall|j: int| 0 <= j < i ==> copy@[j]@ == strings@[j]@,
        decreases strings.len() - i,
    {
        copy.push(strings[i].clone());
        i = i + 1;
    }
    proof {
        assert(copy.deep_view() =~= strings.deep_view());
    }
    copy
}

/// The name that a CONNECT packet gives the protocol.
pub open spec fn protocol_name() -> Seq<char> {
    seq!['M', 'Q', 'T', 'T']
}

/// The level that a CONNECT packet gives the protocol.
pub const PROTOCOL_LEVEL: u8 = 0x04;

// ---------------------------------------------------------------------------
// Writing
// ---------------------------------------------------------------------------
/// What has been written, followed by what comes next; the first failure of
/// the two where there is one.
pub open spec fn followed_by(
    written: Result<Seq<u8>, EncodeFailure>,
    next: Result<Seq<u8>, EncodeFailure>,
) -> Result<Seq<u8>, EncodeFailure> {
    match written {
        Err(failure) => Err(failure),
        Ok(head) => match next {
            Err(failure) => Err(failure),
            Ok(tail) => Ok(head + tail),
        },
    }
}

/// The bytes of a string, or the failure to write one that is too long.
pub open spec fn spec_encode_string(s: Seq<char>) -> Result<Seq<u8>, EncodeFailure> {
    if string_fits(s) {
        Ok(spec_put_string(s))
    } else {
        Err(EncodeFailure::StringTooLarge(encode_utf8(s).len()))
    }
}

/// The bytes of a string that may be absent.
pub open spec fn spec_encode_option_string(s: Option<Seq<char>>) -> Result<
    Seq<u8>,
    EncodeFailure,
> {
    match s {
        Some(s) => spec_encode_string(s),
        None => Ok(Seq::empty()),
    }
}

/// The flags byte of a CONNECT packet.
pub open spec fn spec_connect_flags(
    username: bool,
    password: bool,
    will: Option<PublicationView>,
    clean_session: bool,
) -> u8 {
    ((if username {
        0x80int
    } else {
        0
    }) + (if password {
        0x40int
    } else {
        0
    }) + (match will {
        Some(will) => (if will.retain {
            0x20int
        } else {
            0
        }) + will.qos.level() * 0x08 + 0x04,
        None => 0,
    }) + (if clean_session {
        0x02int
    } else {
        0
    })) as u8
}

/// The keep-alive of a CONNECT packet in whole seconds, where they fit in
/// two bytes.
pub open spec fn spec_encode_keep_alive(keep_alive: nat) -> Result<Seq<u8>, EncodeFailure> {
    if keep_alive / (NANOS_PER_SEC as nat) <= u16::MAX {
        Ok(spec_put_u16((keep_alive / (NANOS_PER_SEC as nat)) as u16))
    } else {
        Err(EncodeFailure::KeepAliveTooHigh(keep_alive))
    }
}

/// The will of a CONNECT packet: its topic, then its payload behind a
/// two-byte length.
pub open spec fn spec_encode_will(will: Option<PublicationView>) -> Result<
    Seq<u8>,
    EncodeFailure,
> {
    match will {
        None => Ok(Seq::empty()),
        Some(will) => followed_by(
            spec_encode_string(will.topic_name),
            if will.payload.len() <= u16::MAX {
                Ok(spec_put_u16(will.payload.len() as u16) + will.payload)
            } else {
                Err(EncodeFailure::WillTooLarge(will.payload.len()))
            },
        ),
    }
}

/// The topic filters of a SUBSCRIBE packet, each followed by its QoS.
pub open spec fn spec_encode_subscriptions(subscribe_to: Seq<SubscribeToView>) -> Result<
    Seq<u8>,
    EncodeFailure,
>
    decreases subscribe_to.len(),
{
    if subscribe_to.len() == 0 {
        Ok(Seq::empty())
    } else {
        followed_by(
            followed_by(
                spec_encode_string(subscribe_to[0].topic_filter),
                Ok(seq![subscribe_to[0].qos.level()]),
            ),
            spec_encode_subscriptions(subscribe_to.drop_first()),
        )
    }
}

/// The topic filters of an UNSUBSCRIBE packet.
pub open spec fn spec_encode_topics(topics: Seq<Seq<char>>) -> Result<Seq<u8>, EncodeFailure>
    decreases topics.len(),
{
    if topics.len() == 0 {
        Ok(Seq::empty())
    } else {
        followed_by(spec_encode_string(topics[0]), spec_encode_topics(topics.drop_first()))
    }
}

/// The return codes of a SUBACK packet.
pub open spec fn spec_encode_return_codes(qos: Seq<SubAckQos>) -> Seq<u8> {
    Seq::new(qos.len(), |i: int| qos[i].code())
}

/// The first byte of a packet: its type, and the flags of its fixed header.
pub open spec fn spec_first_byte(packet: PacketView) -> u8 {
    match packet {
        PacketView::ConnAck { .. } => Packet::CONNACK,
        PacketView::Connect { .. } => Packet::CONNECT,
        PacketView::Disconnect => Packet::DISCONNECT,
        PacketView::PingReq => Packet::PINGREQ,
        PacketView::PingResp => Packet::PINGRESP,
        PacketView::PubAck { .. } => Packet::PUBACK,
        PacketView::PubComp { .. } => Packet::PUBCOMP,
        PacketView::Publish { delivery, retain, .. } => (Packet::PUBLISH + (if delivery.dup() {
            0x08int
        } else {
            0
        }) + delivery.qos().level() * 0x02 + (if retain {
            0x01int
        } else {
            0
        })) as u8,
        PacketView::PubRec { .. } => Packet::PUBREC,
        PacketView::PubRel { .. } => (Packet::PUBREL + 0x02) as u8,
        PacketView::SubAck { .. } => Packet::SUBACK,
        PacketView::Subscribe { .. } => (Packet::SUBSCRIBE + 0x02) as u8,
        PacketView::UnsubAck { .. } => Packet::UNSUBACK,
        PacketView::Unsubscribe { .. } => (Packet::UNSUBSCRIBE + 0x02) as u8,
    }
}

/// What follows the fixed header of a packet, or the first rule of the
/// format that the packet breaks.
#[verifier::opaque]
pub open spec fn spec_encode_body(packet: PacketView) -> Result<Seq<u8>, EncodeFailure> {
    match packet {
        PacketView::ConnAck { session_present, return_code } => Ok(
            seq![
                if session_present {
                    0x01u8
                } else {
                    0x00u8
                },
                spec_return_code_to_u8(return_code),
            ],
        ),
        PacketView::Connect { username, password, will, client_id, keep_alive } => followed_by(
            followed_by(
                followed_by(
                    followed_by(
                        followed_by(
                            Ok(
                                spec_put_string(protocol_name()) + seq![
                                    PROTOCOL_LEVEL,
                                    spec_connect_flags(
                                        username is Some,
                                        password is Some,
                                        will,
                                        client_id.clean_session(),
                                    ),
                                ],
                            ),
                            spec_encode_keep_alive(keep_alive),
                        ),
                        spec_encode_string(client_id.id()),
                    ),
                    spec_encode_will(will),
                ),
                spec_encode_option_string(username),
            ),
            spec_encode_option_string(password),
        ),
        PacketView::Disconnect => Ok(Seq::empty()),
        PacketView::PingReq => Ok(Seq::empty()),
        PacketView::PingResp => Ok(Seq::empty()),
        PacketView::PubAck { packet_identifier } => Ok(spec_put_u16(packet_identifier)),
        PacketView::PubComp { packet_identifier } => Ok(spec_put_u16(packet_identifier)),
        PacketView::Publish { delivery, retain, topic_name, payload } => followed_by(
            spec_encode_string(topic_name),
            Ok(
                (match delivery.packet_identifier() {
                    Some(packet_identifier) => spec_put_u16(packet_identifier),
                    None => Seq::empty(),
                }) + payload,
            ),
        ),
        PacketView::PubRec { packet_identifier } => Ok(spec_put_u16(packet_identifier)),
        PacketView::PubRel { packet_identifier } => Ok(spec_put_u16(packet_identifier)),
        PacketView::SubAck { packet_identifier, qos } => Ok(
            spec_put_u16(packet_identifier) + spec_encode_return_codes(qos),
        ),
        PacketView::Subscribe { packet_identifier, subscribe_to } => followed_by(
            Ok(spec_put_u16(packet_identifier)),
            spec_encode_subscriptions(subscribe_to),
        ),
        PacketView::UnsubAck { packet_identifier } => Ok(spec_put_u16(packet_identifier)),
        PacketView::Unsubscribe { packet_identifier, unsubscribe_from } => followed_by(
            Ok(spec_put_u16(packet_identifier)),
            spec_encode_topics(unsubscribe_from),
        ),
    }
}

/// The bytes of a packet: its first byte, the length of what follows in the
/// shortest form, and what follows. A packet is not written where a field of
/// it breaks a rule of the format, nor where what follows the fixed header
/// is longer than four bytes of length can say.
pub open spec fn spec_encode(packet: PacketView) -> Result<Seq<u8>, EncodeFailure> {
    match spec_encode_body(packet) {
        Err(failure) => Err(failure),
        Ok(body) => if body.len() > MAX_REMAINING_LENGTH {
            Err(EncodeFailure::RemainingLengthTooHigh(body.len()))
        } else {
            Ok(seq![spec_first_byte(packet)] + spec_encode_remaining_length(body.len()) + body)
        },
    }
}

// ---------------------------------------------------------------------------
// Reading
// ---------------------------------------------------------------------------
/// The type of a packet: the high four bits of its first byte, in place.
pub open spec fn spec_packet_type(first_byte: u8) -> u8 {
    (first_byte / 0x10 * 0x10) as u8
}

/// The flags of a fixed header: the low four bits of its first byte.
pub open spec fn spec_packet_flags(first_byte: u8) -> u8 {
    first_byte % 0x10
}

/// Whether bit `n` of `flags` is set.
pub open spec fn flag(flags: u8, n: nat) -> bool {
    (flags as int / place(n)) % 2 == 1
}

/// Two to the power `n`, for the bits of a byte.
pub open spec fn place(n: nat) -> int {
    if n == 0 {
        1
    } else if n == 1 {
        2
    } else if n == 2 {
        4
    } else if n == 3 {
        8
    } else if n == 4 {
        16
    } else if n == 5 {
        32
    } else if n == 6 {
        64
    } else {
        128
    }
}

/// Reads a string that is there only where `present` says so.
pub open spec fn spec_get_option_string(present: bool, bytes: Seq<u8>) -> Result<
    (Option<Seq<char>>, Seq<u8>),
    DecodeFailure,
> {
    if present {
        match spec_get_string(bytes) {
            Err(failure) => Err(failure),
            Ok((s, rest)) => Ok((Some(s), rest)),
        }
    } else {
        Ok((None, bytes))
    }
}

/// Reads the will of a CONNECT packet with the given flags.
pub open spec fn spec_get_will(flags: u8, bytes: Seq<u8>) -> Result<
    (Option<PublicationView>, Seq<u8>),
    DecodeFailure,
> {
    if !flag(flags, 2) {
        Ok((None, bytes))
    } else {
        match spec_get_string(bytes) {
            Err(failure) => Err(failure),
            Ok((topic_name, rest)) => match QoS::spec_from_level(((flags / 0x08) % 0x04) as u8) {
                None => Err(DecodeFailure::UnrecognizedQoS(((flags / 0x08) % 0x04) as u8)),
                Some(qos) => match spec_get_u16(rest) {
                    Err(failure) => Err(failure),
                    Ok((len, rest)) => if rest.len() < len {
                        Err(DecodeFailure::IncompletePacket)
                    } else {
                        Ok(
                            (
                                Some(
                                    PublicationView {
                                        topic_name,
                                        qos,
                                        retain: flag(flags, 5),
                                        payload: rest.take(len as int),
                                    },
                                ),
                                rest.skip(len as int),
                            ),
                        )
                    },
                },
            },
        }
    }
}

/// The client ID that a CONNECT packet with this identifier and these flags
/// stands for.
pub open spec fn spec_client_id(id: Seq<char>, flags: u8) -> ClientIdView {
    if id.len() == 0 {
        ClientIdView::ServerGenerated
    } else if !flag(flags, 1) {
        ClientIdView::IdWithExistingSession(id)
    } else {
        ClientIdView::IdWithCleanSession(id)
    }
}

/// Reads what follows the fixed header of a CONNECT packet. Bytes that
/// follow its last field are passed over.
pub open spec fn spec_decode_connect(bytes: Seq<u8>) -> Result<PacketView, DecodeFailure> {
    match spec_get_string(bytes) {
        Err(failure) => Err(failure),
        Ok((name, rest)) => if name != protocol_name() {
            Err(DecodeFailure::UnrecognizedProtocolName(name))
        } else {
            match spec_get_u8(rest) {
                Err(failure) => Err(failure),
                Ok((level, rest)) => if level != PROTOCOL_LEVEL {
                    Err(DecodeFailure::UnrecognizedProtocolLevel(level))
                } else {
                    match spec_get_u8(rest) {
                        Err(failure) => Err(failure),
                        Ok((flags, rest)) => if flag(flags, 0) {
                            Err(DecodeFailure::ConnectReservedSet)
                        } else {
                            spec_decode_connect_fields(flags, rest)
                        },
                    }
                },
            }
        },
    }
}

/// Reads the fields of a CONNECT packet that follow its flags.
pub open spec fn spec_decode_connect_fields(flags: u8, bytes: Seq<u8>) -> Result<
    PacketView,
    DecodeFailure,
> {
    match spec_get_u16(bytes) {
        Err(failure) => Err(failure),
        Ok((keep_alive, rest)) => match spec_get_string(rest) {
            Err(failure) => Err(failure),
            Ok((id, rest)) => match spec_get_will(flags, rest) {
                Err(failure) => Err(failure),
                Ok((will, rest)) => match spec_get_option_string(flag(flags, 7), rest) {
                    Err(failure) => Err(failure),
                    Ok((username, rest)) => match spec_get_option_string(flag(flags, 6), rest) {
                        Err(failure) => Err(failure),
                        Ok((password, _)) => Ok(
                            PacketView::Connect {
                                username,
                                password,
                                will,
                                client_id: spec_client_id(id, flags),
                                keep_alive: (keep_alive * NANOS_PER_SEC) as nat,
                            },
                        ),
                    },
                },
            },
        },
    }
}

/// Reads what follows the fixed header of a PUBLISH packet with the given
/// flags.
pub open spec fn spec_decode_publish(flags: u8, bytes: Seq<u8>) -> Result<
    PacketView,
    DecodeFailure,
> {
    let dup = flag(flags, 3);
    let retain = flag(flags, 0);
    let level = ((flags / 0x02) % 0x04) as u8;
    match spec_get_string(bytes) {
        Err(failure) => Err(failure),
        Ok((topic_name, rest)) => if level == 0 {
            if dup {
                Err(DecodeFailure::PublishDupAtMostOnce)
            } else {
                Ok(
                    PacketView::Publish {
                        delivery: Delivery::AtMostOnce,
                        retain,
                        topic_name,
                        payload: rest,
                    },
                )
            }
        } else if level == 3 {
            Err(DecodeFailure::UnrecognizedQoS(level))
        } else {
            match spec_get_packet_identifier(rest) {
                Err(failure) => Err(failure),
                Ok((packet_identifier, rest)) => Ok(
                    PacketView::Publish {
                        delivery: if level == 1 {
                            Delivery::AtLeastOnce(packet_identifier, dup)
                        } else {
                            Delivery::ExactlyOnce(packet_identifier, dup)
                        },
                        retain,
                        topic_name,
                        payload: rest,
                    },
                ),
            }
        },
    }
}

/// What has been read, followed by what the rest of the bytes gives.
pub open spec fn before<T>(head: Seq<T>, tail: Result<Seq<T>, DecodeFailure>) -> Result<
    Seq<T>,
    DecodeFailure,
> {
    match tail {
        Ok(tail) => Ok(head + tail),
        Err(failure) => Err(failure),
    }
}

/// Reads the return codes of a SUBACK packet, one in each byte.
pub open spec fn spec_get_return_codes(bytes: Seq<u8>) -> Result<Seq<SubAckQos>, DecodeFailure>
    decreases bytes.len(),
{
    if bytes.len() == 0 {
        Ok(Seq::empty())
    } else {
        match SubAckQos::spec_from_code(bytes[0]) {
            None => Err(DecodeFailure::UnrecognizedQoS(bytes[0])),
            Some(qos) => before(seq![qos], spec_get_return_codes(bytes.skip(1))),
        }
    }
}

/// Reads the topic filters of a SUBSCRIBE packet, each followed by its QoS,
/// to the end of the bytes.
pub open spec fn spec_get_subscriptions(bytes: Seq<u8>) -> Result<
    Seq<SubscribeToView>,
    DecodeFailure,
>
    decreases bytes.len(),
{
    if bytes.len() == 0 {
        Ok(Seq::empty())
    } else {
        match spec_get_string(bytes) {
            Err(failure) => Err(failure),
            Ok((topic_filter, rest)) => match spec_get_u8(rest) {
                Err(failure) => Err(failure),
                Ok((level, rest)) => match QoS::spec_from_level(level) {
                    None => Err(DecodeFailure::UnrecognizedQoS(level)),
                    Some(qos) => if rest.len() < bytes.len() {
                        before(
                            seq![SubscribeToView { topic_filter, qos }],
                            spec_get_subscriptions(rest),
                        )
                    } else {
                        Err(DecodeFailure::IncompletePacket)
                    },
                },
            },
        }
    }
}

/// Reads the topic filters of an UNSUBSCRIBE packet, to the end of the bytes.
pub open spec fn spec_get_topics(bytes: Seq<u8>) -> Result<Seq<Seq<char>>, DecodeFailure>
    decreases bytes.len(),
{
    if bytes.len() == 0 {
        Ok(Seq::empty())
    } else {
        match spec_get_string(bytes) {
            Err(failure) => Err(failure),
            Ok((topic_filter, rest)) => if rest.len() < bytes.len() {
                before(seq![topic_filter], spec_get_topics(rest))
            } else {
                Err(DecodeFailure::IncompletePacket)
            },
        }
    }
}

/// Reads a packet that holds a packet identifier and nothing else.
pub open spec fn spec_decode_identifier_only(
    bytes: Seq<u8>,
    packet: spec_fn(u16) -> PacketView,
) -> Result<PacketView, DecodeFailure> {
    match spec_get_packet_identifier(bytes) {
        Err(failure) => Err(failure),
        Ok((packet_identifier, _)) => Ok(packet(packet_identifier)),
    }
}

/// Reads what follows the fixed header of a packet whose first byte is
/// `first_byte`: `body` is all of it, and nothing else.
#[verifier::opaque]
pub open spec fn spec_decode_body(first_byte: u8, body: Seq<u8>) -> Result<
    PacketView,
    DecodeFailure,
> {
    let packet_type = spec_packet_type(first_byte);
    let flags = spec_packet_flags(first_byte);
    if packet_type == Packet::CONNACK && flags == 0 && body.len() == 2 {
        if body[0] > 1 {
            Err(DecodeFailure::UnrecognizedConnAckFlags(body[0]))
        } else {
            Ok(
                PacketView::ConnAck {
                    session_present: body[0] == 1,
                    return_code: spec_return_code_from_u8(body[1]),
                },
            )
        }
    } else if packet_type == Packet::CONNECT && flags == 0 {
        spec_decode_connect(body)
    } else if packet_type == Packet::DISCONNECT && flags == 0 && body.len() == 0 {
        Ok(PacketView::Disconnect)
    } else if packet_type == Packet::PINGREQ && flags == 0 && body.len() == 0 {
        Ok(PacketView::PingReq)
    } else if packet_type == Packet::PINGRESP && flags == 0 && body.len() == 0 {
        Ok(PacketView::PingResp)
    } else if packet_type == Packet::PUBACK && flags == 0 && body.len() == 2 {
        spec_decode_identifier_only(
            body,
            |packet_identifier: u16| PacketView::PubAck { packet_identifier },
        )
    } else if packet_type == Packet::PUBCOMP && flags == 0 && body.len() == 2 {
        spec_decode_identifier_only(
            body,
            |packet_identifier: u16| PacketView::PubComp { packet_identifier },
        )
    } else if packet_type == Packet::PUBLISH {
        spec_decode_publish(flags, body)
    } else if packet_type == Packet::PUBREC && flags == 0 && body.len() == 2 {
        spec_decode_identifier_only(
            body,
            |packet_identifier: u16| PacketView::PubRec { packet_identifier },
        )
    } else if packet_type == Packet::PUBREL && flags == 2 && body.len() == 2 {
        spec_decode_identifier_only(
            body,
            |packet_identifier: u16| PacketView::PubRel { packet_identifier },
        )
    } else if packet_type == Packet::SUBACK && flags == 0 {
        match spec_get_packet_identifier(body) {
            Err(failure) => Err(failure),
            Ok((packet_identifier, rest)) => match spec_get_return_codes(rest) {
                Err(failure) => Err(failure),
                Ok(qos) => Ok(PacketView::SubAck { packet_identifier, qos }),
            },
        }
    } else if packet_type == Packet::SUBSCRIBE && flags == 2 {
        match spec_get_packet_identifier(body) {
            Err(failure) => Err(failure),
            Ok((packet_identifier, rest)) => match spec_get_subscriptions(rest) {
                Err(failure) => Err(failure),
                Ok(subscribe_to) => if subscribe_to.len() == 0 {
                    Err(DecodeFailure::NoTopics)
                } else {
                    Ok(PacketView::Subscribe { packet_identifier, subscribe_to })
                },
            },
        }
    } else if packet_type == Packet::UNSUBACK && flags == 0 && body.len() == 2 {
        spec_decode_identifier_only(
            body,
            |packet_identifier: u16| PacketView::UnsubAck { packet_identifier },
        )
    } else if packet_type == Packet::UNSUBSCRIBE && flags == 2 {
        match spec_get_packet_identifier(body) {
            Err(failure) => Err(failure),
            Ok((packet_identifier, rest)) => match spec_get_topics(rest) {
                Err(failure) => Err(failure),
                Ok(unsubscribe_from) => if unsubscribe_from.len() == 0 {
                    Err(DecodeFailure::NoTopics)
                } else {
                    Ok(PacketView::Unsubscribe { packet_identifier, unsubscribe_from })
                },
            },
        }
    } else {
        Err(
            DecodeFailure::UnrecognizedPacket {
                packet_type,
                flags,
                remaining_length: body.len(),
            },
        )
    }
}

} // verus!
