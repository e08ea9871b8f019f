//! What is written is read back: the laws that tie the writer of packets to
//! the reader.

use crate::proto::codec::{spec_decode, Framing};
use crate::proto::packet::{
    flag, followed_by, protocol_name, spec_client_id, spec_connect_flags, spec_decode_body,
    spec_decode_connect, spec_decode_connect_fields, spec_decode_publish, spec_encode,
    spec_encode_body, spec_encode_keep_alive, spec_encode_option_string, spec_encode_return_codes,
    spec_encode_string, spec_encode_subscriptions, spec_encode_topics, spec_encode_will,
    spec_first_byte, spec_get_option_string, spec_get_return_codes, spec_get_subscriptions,
    spec_get_topics, spec_get_will, spec_packet_flags, spec_packet_type, PacketView,
    PublicationView, QoS, SubAckQos, SubscribeToView, PROTOCOL_LEVEL,
};
use crate::proto::remaining_length::{
    lemma_remaining_length_round_trip, spec_encode_remaining_length,
};
use crate::proto::wire::{
    lemma_string_round_trip, lemma_u16_round_trip, spec_get_packet_identifier, spec_get_string,
    spec_get_u16, spec_get_u8, spec_put_string, spec_put_u16, string_fits,
};
use crate::proto::{
    lemma_return_code_round_trip, ConnectReturnCode, ConnectionRefusedReason, DecodeFailure,
    EncodeFailure,
};
use crate::time::NANOS_PER_SEC;
use vstd::prelude::*;

verus! {

/// Whether a packet is one that the reader can give back: its packet
/// identifier is not zero, a SUBSCRIBE or UNSUBSCRIBE names a topic, a client
/// ID that is not server-generated is not empty, a keep-alive is in whole
/// seconds, and a return code with a name of its own goes by that name.
pub open spec fn in_range(packet: PacketView) -> bool {
    match packet {
        PacketView::ConnAck { return_code, .. } => !(return_code matches ConnectReturnCode::Refused(
            ConnectionRefusedReason::Other(code),
        ) && code <= 5),
        PacketView::Connect { client_id, keep_alive, .. } => {
            &&& keep_alive % (NANOS_PER_SEC as nat) == 0
            &&& client_id is ServerGenerated || client_id.id().len() > 0
        },
        PacketView::Disconnect => true,
        PacketView::PingReq => true,
        PacketView::PingResp => true,
        PacketView::PubAck { packet_identifier } => packet_identifier != 0,
        PacketView::PubComp { packet_identifier } => packet_identifier != 0,
        PacketView::Publish { delivery, .. } => delivery.packet_identifier() != Some(0u16),
        PacketView::PubRec { packet_identifier } => packet_identifier != 0,
        PacketView::PubRel { packet_identifier } => packet_identifier != 0,
        PacketView::SubAck { packet_identifier, .. } => packet_identifier != 0,
        PacketView::Subscribe { packet_identifier, subscribe_to } => packet_identifier != 0
            && subscribe_to.len() > 0,
        PacketView::UnsubAck { packet_identifier } => packet_identifier != 0,
        PacketView::Unsubscribe { packet_identifier, unsubscribe_from } => packet_identifier != 0
            && unsubscribe_from.len() > 0,
    }
}

proof fn lemma_packet_identifier_round_trip(packet_identifier: u16, rest: Seq<u8>)
    requires
        packet_identifier != 0,
    ensures
        spec_get_packet_identifier(spec_put_u16(packet_identifier) + rest) == Ok::<
            (u16, Seq<u8>),
            DecodeFailure,
        >((packet_identifier, rest)),
{
    lemma_u16_round_trip(packet_identifier, rest);
}

proof fn lemma_return_codes_round_trip(qos: Seq<SubAckQos>)
    ensures
        spec_get_return_codes(spec_encode_return_codes(qos)) == Ok::<
            Seq<SubAckQos>,
            DecodeFailure,
        >(qos),
    decreases qos.len(),
{
    let bytes = spec_encode_return_codes(qos);
    if qos.len() == 0 {
        assert(qos =~= Seq::<SubAckQos>::empty());
    } else {
        lemma_return_codes_round_trip(qos.drop_first());
        assert(bytes.skip(1) =~= spec_encode_return_codes(qos.drop_first()));
        assert(SubAckQos::spec_from_code(qos[0].code()) == Some(qos[0]));
        assert(seq![qos[0]] + qos.drop_first() =~= qos);
    }
}

proof fn lemma_subscriptions_round_trip(subscribe_to: Seq<SubscribeToView>)
    requires
        spec_encode_subscriptions(subscribe_to) is Ok,
    ensures
        spec_get_subscriptions(spec_encode_subscriptions(subscribe_to)->Ok_0) == Ok::<
            Seq<SubscribeToView>,
            DecodeFailure,
        >(subscribe_to),
    decreases subscribe_to.len(),
{
    let bytes = spec_encode_subscriptions(subscribe_to)->Ok_0;
    if subscribe_to.len() == 0 {
        assert(subscribe_to =~= Seq::<SubscribeToView>::empty());
    } else {
        let first = subscribe_to[0];
        let tail = spec_encode_subscriptions(subscribe_to.drop_first())->Ok_0;
        lemma_subscriptions_round_trip(subscribe_to.drop_first());
        let after_topic = seq![first.qos.level()] + tail;
        assert(bytes =~= spec_put_string(first.topic_filter) + after_topic);
        lemma_string_round_trip(first.topic_filter, after_topic);
        assert(after_topic.skip(1) =~= tail);
        assert(QoS::spec_from_level(first.qos.level()) == Some(first.qos));
        assert(seq![first] + subscribe_to.drop_first() =~= subscribe_to);
    }
}

proof fn lemma_topics_round_trip(topics: Seq<Seq<char>>)
    requires
        spec_encode_topics(topics) is Ok,
    ensures
        spec_get_topics(spec_encode_topics(topics)->Ok_0) == Ok::<Seq<Seq<char>>, DecodeFailure>(
            topics,
        ),
    decreases topics.len(),
{
    let bytes = spec_encode_topics(topics)->Ok_0;
    if topics.len() == 0 {
        assert(topics =~= Seq::<Seq<char>>::empty());
    } else {
        let tail = spec_encode_topics(topics.drop_first())->Ok_0;
        lemma_topics_round_trip(topics.drop_first());
        assert(bytes =~= spec_put_string(topics[0]) + tail);
        lemma_string_round_trip(topics[0], tail);
        assert(seq![topics[0]] + topics.drop_first() =~= topics);
    }
}

proof fn lemma_option_string_round_trip(s: Option<Seq<char>>, rest: Seq<u8>)
    requires
        spec_encode_option_string(s) is Ok,
    ensures
        spec_get_option_string(s is Some, spec_encode_option_string(s)->Ok_0 + rest) == Ok::<
            (Option<Seq<char>>, Seq<u8>),
            DecodeFailure,
        >((s, rest)),
{
    match s {
        Some(s) => lemma_string_round_trip(s, rest),
        None => assert(Seq::<u8>::empty() + rest =~= rest),
    }
}

/// What the bits of the flags of a CONNECT packet say.
proof fn lemma_connect_flags(
    username: bool,
    password: bool,
    will: Option<PublicationView>,
    clean_session: bool,
)
    ensures
        ({
            let flags = spec_connect_flags(username, password, will, clean_session);
            &&& !flag(flags, 0)
            &&& flag(flags, 1) == clean_session
            &&& flag(flags, 2) == (will is Some)
            &&& will matches Some(will) ==> ((flags / 0x08) % 0x04) as u8 == will.qos.level()
                && flag(flags, 5) == will.retain
            &&& flag(flags, 6) == password
            &&& flag(flags, 7) == username
        }),
{
}

proof fn lemma_will_round_trip(will: Option<PublicationView>, flags: u8, rest: Seq<u8>)
    requires
        spec_encode_will(will) is Ok,
        flag(flags, 2) == (will is Some),
        will matches Some(will) ==> ((flags / 0x08) % 0x04) as u8 == will.qos.level() && flag(
            flags,
            5,
        ) == will.retain,
    ensures
        spec_get_will(flags, spec_encode_will(will)->Ok_0 + rest) == Ok::<
            (Option<PublicationView>, Seq<u8>),
            DecodeFailure,
        >((will, rest)),
{
    match will {
        None => assert(Seq::<u8>::empty() + rest =~= rest),
        Some(will) => {
            let bytes = spec_encode_will(Some(will))->Ok_0 + rest;
            let len = will.payload.len() as u16;
            let after_len = will.payload + rest;
            let after_topic = spec_put_u16(len) + after_len;
            assert(bytes =~= spec_put_string(will.topic_name) + after_topic);
            lemma_string_round_trip(will.topic_name, after_topic);
            lemma_u16_round_trip(len, after_len);
            assert(after_len.take(len as int) =~= will.payload);
            assert(after_len.skip(len as int) =~= rest);
            assert(QoS::spec_from_level(will.qos.level()) == Some(will.qos));
        },
    }
}

/// What follows the flags of a CONNECT packet: the keep-alive, the client ID,
/// the will, the user name and the password.
pub open spec fn spec_connect_fields(packet: PacketView) -> Result<Seq<u8>, EncodeFailure>
    recommends
        packet is Connect,
{
    followed_by(
        followed_by(
            followed_by(
                followed_by(
                    spec_encode_keep_alive(packet->keep_alive),
                    spec_encode_string(packet->client_id.id()),
                ),
                spec_encode_will(packet->will),
            ),
            spec_encode_option_string(packet->username),
        ),
        spec_encode_option_string(packet->password),
    )
}

/// The flags of a CONNECT packet, as its fields call for them.
pub open spec fn spec_flags_of(packet: PacketView) -> u8
    recommends
        packet is Connect,
{
    spec_connect_flags(
        packet->username is Some,
        packet->password is Some,
        packet->will,
        packet->client_id.clean_session(),
    )
}

proof fn lemma_connect_layout(packet: PacketView)
    requires
        packet is Connect,
        spec_encode_body(packet) is Ok,
    ensures
        spec_connect_fields(packet) is Ok,
        spec_encode_body(packet)->Ok_0 == spec_put_string(protocol_name()) + (seq![PROTOCOL_LEVEL]
            + (seq![spec_flags_of(packet)] + spec_connect_fields(packet)->Ok_0)),
{
    reveal(spec_encode_body);
    let fields = spec_connect_fields(packet)->Ok_0;
    assert(spec_encode_body(packet)->Ok_0 =~= spec_put_string(protocol_name()) + (seq![
        PROTOCOL_LEVEL,
    ] + (seq![spec_flags_of(packet)] + fields)));
}

proof fn lemma_connect_fields_compose(
    flags: u8,
    bytes: Seq<u8>,
    keep_alive: u16,
    after_keep_alive: Seq<u8>,
    id: Seq<char>,
    after_id: Seq<u8>,
    will: Option<PublicationView>,
    after_will: Seq<u8>,
    username: Option<Seq<char>>,
    after_username: Seq<u8>,
    password: Option<Seq<char>>,
    after_password: Seq<u8>,
)
    requires
        spec_get_u16(bytes) == Ok::<(u16, Seq<u8>), DecodeFailure>((keep_alive, after_keep_alive)),
        spec_get_string(after_keep_alive) == Ok::<(Seq<char>, Seq<u8>), DecodeFailure>(
            (id, after_id),
        ),
        spec_get_will(flags, after_id) == Ok::<(Option<PublicationView>, Seq<u8>), DecodeFailure>(
            (will, after_will),
        ),
        spec_get_option_string(flag(flags, 7), after_will) == Ok::<
            (Option<Seq<char>>, Seq<u8>),
            DecodeFailure,
        >((username, after_username)),
        spec_get_option_string(flag(flags, 6), after_username) == Ok::<
            (Option<Seq<char>>, Seq<u8>),
            DecodeFailure,
        >((password, after_password)),
    ensures
        spec_decode_connect_fields(flags, bytes) == Ok::<PacketView, DecodeFailure>(
            PacketView::Connect {
                username,
                password,
                will,
                client_id: spec_client_id(id, flags),
                keep_alive: (keep_alive * NANOS_PER_SEC) as nat,
            },
        ),
{
}

proof fn lemma_connect_fields_round_trip(packet: PacketView)
    requires
        packet is Connect,
        in_range(packet),
        spec_connect_fields(packet) is Ok,
    ensures
        spec_decode_connect_fields(spec_flags_of(packet), spec_connect_fields(packet)->Ok_0)
            == Ok::<PacketView, DecodeFailure>(packet),
{
    let username = packet->username;
    let password = packet->password;
    let will = packet->will;
    let client_id = packet->client_id;
    let keep_alive = packet->keep_alive;
    let flags = spec_flags_of(packet);
    lemma_connect_flags(username is Some, password is Some, will, client_id.clean_session());
    let secs = (keep_alive / (NANOS_PER_SEC as nat)) as u16;
    let keep_alive_bytes = spec_put_u16(secs);
    let id_bytes = spec_put_string(client_id.id());
    let will_bytes = spec_encode_will(will)->Ok_0;
    let username_bytes = spec_encode_option_string(username)->Ok_0;
    let password_bytes = spec_encode_option_string(password)->Ok_0;
    let after_username = password_bytes + Seq::<u8>::empty();
    let after_will = username_bytes + after_username;
    let after_id = will_bytes + after_will;
    let after_keep_alive = id_bytes + after_id;
    let fields = keep_alive_bytes + after_keep_alive;
    assert(spec_connect_fields(packet)->Ok_0 =~= fields);
    lemma_u16_round_trip(secs, after_keep_alive);
    assert(spec_get_u16(fields) == Ok::<(u16, Seq<u8>), DecodeFailure>((secs, after_keep_alive)));
    lemma_string_round_trip(client_id.id(), after_id);
    assert(spec_get_string(after_keep_alive) == Ok::<(Seq<char>, Seq<u8>), DecodeFailure>((client_id.id(), after_id)));
    lemma_will_round_trip(will, flags, after_will);
    assert(spec_get_will(flags, after_id) == Ok::<(Option<PublicationView>, Seq<u8>), DecodeFailure>((will, after_will)));
    lemma_option_string_round_trip(username, after_username);
    assert(spec_get_option_string(flag(flags, 7), after_will) == Ok::<(Option<Seq<char>>, Seq<u8>), DecodeFailure>((username, after_username)));
    lemma_option_string_round_trip(password, Seq::<u8>::empty());
    assert(spec_get_option_string(flag(flags, 6), after_username) == Ok::<(Option<Seq<char>>, Seq<u8>), DecodeFailure>((password, Seq::<u8>::empty())));
    assert(spec_client_id(client_id.id(), flags) == client_id);
    assert((secs * NANOS_PER_SEC) as nat == keep_alive);
    lemma_connect_fields_compose(
        flags,
        fields,
        secs,
        after_keep_alive,
        client_id.id(),
        after_id,
        will,
        after_will,
        username,
        after_username,
        password,
        Seq::<u8>::empty(),
    );

}

proof fn lemma_connect_round_trip(packet: PacketView)
    requires
        packet is Connect,
        in_range(packet),
        spec_encode_body(packet) is Ok,
    ensures
        spec_decode_connect(spec_encode_body(packet)->Ok_0) == Ok::<PacketView, DecodeFailure>(
            packet,
        ),
{
    lemma_connect_layout(packet);
    lemma_connect_fields_round_trip(packet);
    let flags = spec_flags_of(packet);
    lemma_connect_flags(
        packet->username is Some,
        packet->password is Some,
        packet->will,
        packet->client_id.clean_session(),
    );
    let body = spec_encode_body(packet)->Ok_0;
    let after_flags = spec_connect_fields(packet)->Ok_0;
    let after_level = seq![flags] + after_flags;
    let after_name = seq![PROTOCOL_LEVEL] + after_level;
    crate::proto::encode::lemma_protocol_name_fits();
    lemma_string_round_trip(protocol_name(), after_name);
    assert(spec_get_string(body) == Ok::<(Seq<char>, Seq<u8>), DecodeFailure>(
        (protocol_name(), after_name),
    ));
    assert(after_name.skip(1) =~= after_level);
    assert(spec_get_u8(after_name) == Ok::<(u8, Seq<u8>), DecodeFailure>(
        (PROTOCOL_LEVEL, after_level),
    ));
    assert(after_level.skip(1) =~= after_flags);
    assert(spec_get_u8(after_level) == Ok::<(u8, Seq<u8>), DecodeFailure>((flags, after_flags)));
}

proof fn lemma_publish_layout(packet: PacketView)
    requires
        packet is Publish,
        spec_encode_body(packet) is Ok,
    ensures
        string_fits(packet->topic_name),
        spec_encode_body(packet)->Ok_0 == spec_put_string(packet->topic_name) + ((
        match packet->delivery.packet_identifier() {
            Some(packet_identifier) => spec_put_u16(packet_identifier),
            None => Seq::empty(),
        }) + packet->payload),
{
    reveal(spec_encode_body);
}

proof fn lemma_publish_round_trip(packet: PacketView)
    requires
        packet is Publish,
        in_range(packet),
        spec_encode_body(packet) is Ok,
    ensures
        spec_packet_type(spec_first_byte(packet)) == crate::proto::Packet::PUBLISH,
        spec_decode_publish(
            spec_packet_flags(spec_first_byte(packet)),
            spec_encode_body(packet)->Ok_0,
        ) == Ok::<PacketView, DecodeFailure>(packet),
{
    lemma_publish_layout(packet);
    let delivery = packet->delivery;
    let retain = packet->retain;
    let topic_name = packet->topic_name;
    let payload = packet->payload;
    let body = spec_encode_body(packet)->Ok_0;
    let flags = spec_packet_flags(spec_first_byte(packet));
    assert(flag(flags, 3) == delivery.dup());
    assert(flag(flags, 0) == retain);
    assert(((flags / 0x02) % 0x04) as u8 == delivery.qos().level());
    match delivery.packet_identifier() {
        None => {
            let after_topic = Seq::<u8>::empty() + payload;
            assert(after_topic =~= payload);
            lemma_string_round_trip(topic_name, payload);
        },
        Some(packet_identifier) => {
            let after_topic = spec_put_u16(packet_identifier) + payload;
            lemma_string_round_trip(topic_name, after_topic);
            lemma_packet_identifier_round_trip(packet_identifier, payload);
        },
    }
}

proof fn lemma_plain_round_trip(packet: PacketView)
    requires
        packet is ConnAck || packet is Disconnect || packet is PingReq || packet is PingResp,
        in_range(packet),
    ensures
        spec_encode_body(packet) is Ok,
        spec_decode_body(spec_first_byte(packet), spec_encode_body(packet)->Ok_0) == Ok::<
            PacketView,
            DecodeFailure,
        >(packet),
{
    reveal(spec_encode_body);
    reveal(spec_decode_body);
    if packet is ConnAck {
        lemma_return_code_round_trip(0, packet->return_code);
    }
}

proof fn lemma_identifier_only_round_trip(packet: PacketView)
    requires
        packet is PubAck || packet is PubComp || packet is PubRec || packet is PubRel
            || packet is UnsubAck,
        in_range(packet),
    ensures
        spec_encode_body(packet) is Ok,
        spec_decode_body(spec_first_byte(packet), spec_encode_body(packet)->Ok_0) == Ok::<
            PacketView,
            DecodeFailure,
        >(packet),
{
    reveal(spec_encode_body);
    reveal(spec_decode_body);
    let body = spec_encode_body(packet)->Ok_0;
    let empty = Seq::<u8>::empty();
    match packet {
        PacketView::PubAck { packet_identifier } => {
            assert(body =~= spec_put_u16(packet_identifier) + empty);
            lemma_packet_identifier_round_trip(packet_identifier, empty);
        },
        PacketView::PubComp { packet_identifier } => {
            assert(body =~= spec_put_u16(packet_identifier) + empty);
            lemma_packet_identifier_round_trip(packet_identifier, empty);
        },
        PacketView::PubRec { packet_identifier } => {
            assert(body =~= spec_put_u16(packet_identifier) + empty);
            lemma_packet_identifier_round_trip(packet_identifier, empty);
        },
        PacketView::PubRel { packet_identifier } => {
            assert(body =~= spec_put_u16(packet_identifier) + empty);
            lemma_packet_identifier_round_trip(packet_identifier, empty);
        },
        PacketView::UnsubAck { packet_identifier } => {
            assert(body =~= spec_put_u16(packet_identifier) + empty);
            lemma_packet_identifier_round_trip(packet_identifier, empty);
        },
        _ => {},
    }
}

proof fn lemma_list_round_trip(packet: PacketView)
    requires
        packet is SubAck || packet is Subscribe || packet is Unsubscribe,
        in_range(packet),
        spec_encode_body(packet) is Ok,
    ensures
        spec_decode_body(spec_first_byte(packet), spec_encode_body(packet)->Ok_0) == Ok::<
            PacketView,
            DecodeFailure,
        >(packet),
{
    reveal(spec_encode_body);
    reveal(spec_decode_body);
    match packet {
        PacketView::SubAck { packet_identifier, qos } => {
            lemma_packet_identifier_round_trip(packet_identifier, spec_encode_return_codes(qos));
            lemma_return_codes_round_trip(qos);
        },
        PacketView::Subscribe { packet_identifier, subscribe_to } => {
            lemma_packet_identifier_round_trip(
                packet_identifier,
                spec_encode_subscriptions(subscribe_to)->Ok_0,
            );
            lemma_subscriptions_round_trip(subscribe_to);
        },
        PacketView::Unsubscribe { packet_identifier, unsubscribe_from } => {
            lemma_packet_identifier_round_trip(
                packet_identifier,
                spec_encode_topics(unsubscribe_from)->Ok_0,
            );
            lemma_topics_round_trip(unsubscribe_from);
        },
        _ => {},
    }
}

proof fn lemma_dispatch(packet: PacketView, body: Seq<u8>)
    requires
        packet is Connect || packet is Publish,
    ensures
        packet is Connect ==> spec_decode_body(spec_first_byte(packet), body)
            == spec_decode_connect(body),
        packet is Publish && spec_packet_type(spec_first_byte(packet))
            == crate::proto::Packet::PUBLISH ==> spec_decode_body(spec_first_byte(packet), body)
            == spec_decode_publish(spec_packet_flags(spec_first_byte(packet)), body),
{
    reveal(spec_decode_body);
}

/// What follows the fixed header of a packet in range is read back as that
/// packet.
pub proof fn lemma_body_round_trip(packet: PacketView)
    requires
        in_range(packet),
        spec_encode_body(packet) is Ok,
    ensures
        spec_decode_body(spec_first_byte(packet), spec_encode_body(packet)->Ok_0) == Ok::<
            PacketView,
            DecodeFailure,
        >(packet),
{
    let body = spec_encode_body(packet)->Ok_0;
    if packet is Connect {
        lemma_connect_round_trip(packet);
        lemma_dispatch(packet, body);
    } else if packet is Publish {
        lemma_publish_round_trip(packet);
        lemma_dispatch(packet, body);
    } else if packet is SubAck || packet is Subscribe || packet is Unsubscribe {
        lemma_list_round_trip(packet);
    } else if packet is ConnAck || packet is Disconnect || packet is PingReq
        || packet is PingResp {
        lemma_plain_round_trip(packet);
    } else {
        lemma_identifier_only_round_trip(packet);
    }
}

/// The round trip: the bytes of a packet in range, with whatever follows
/// them, are read back as that packet, and what followed is left over.
pub proof fn lemma_round_trip(packet: PacketView, rest: Seq<u8>)
    requires
        in_range(packet),
        spec_encode(packet) is Ok,
    ensures
        spec_decode(spec_encode(packet)->Ok_0 + rest) == (Framing::Packet { packet, rest }),
{
    let body = spec_encode_body(packet)->Ok_0;
    let first_byte = spec_first_byte(packet);
    let bytes = spec_encode(packet)->Ok_0 + rest;
    let after_length = body + rest;
    let after_first_byte = spec_encode_remaining_length(body.len()) + after_length;
    assert(bytes =~= seq![first_byte] + after_first_byte);
    assert(bytes.skip(1) =~= after_first_byte);
    lemma_remaining_length_round_trip(body.len(), after_length);
    assert(after_length.take(body.len() as int) =~= body);
    assert(after_length.skip(body.len() as int) =~= rest);
    lemma_body_round_trip(packet);
}

} // verus!
