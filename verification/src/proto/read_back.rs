//! What is read can be written again: the laws that tie the reader of
//! packets to the writer.

use crate::proto::codec::{spec_decode, Framing};
use crate::proto::packet::{
    flag, spec_decode_body, spec_decode_connect, spec_decode_connect_fields,
    spec_decode_publish, spec_encode, spec_encode_body, spec_encode_keep_alive,
    spec_encode_option_string, spec_encode_return_codes, spec_encode_string,
    spec_encode_subscriptions, spec_encode_topics, spec_encode_will, spec_get_option_string,
    spec_get_return_codes, spec_get_subscriptions, spec_get_topics, spec_get_will,
    spec_packet_flags, PacketView, QoS, SubAckQos, SubscribeToView,
};
use crate::proto::remaining_length::{
    place_value, spec_decode_remaining_length, RemainingLengthParse, MAX_REMAINING_LENGTH,
};
use crate::proto::round_trip::{in_range, lemma_round_trip};
use crate::proto::wire::{
    spec_get_packet_identifier, spec_get_string, spec_get_u16, spec_put_string, spec_put_u16,
    string_fits,
};
use crate::proto::{spec_return_code_from_u8, spec_return_code_to_u8, EncodeFailure};
use crate::time::NANOS_PER_SEC;
use vstd::prelude::*;
use vstd::utf8::decode_utf8_encode_utf8;

verus! {

/// Two bytes that are read as a number are the bytes of that number.
proof fn lemma_u16_read_back(bytes: Seq<u8>)
    ensures
        spec_get_u16(bytes) matches Ok((n, rest)) ==> spec_put_u16(n) + rest == bytes,
{
    if bytes.len() >= 2 {
        let n = (bytes[0] * 0x100 + bytes[1]) as u16;
        assert(n / 0x100 == bytes[0] && n % 0x100 == bytes[1]);
        assert(spec_put_u16(n) + bytes.skip(2) =~= bytes);
    }
}

/// The bytes that are read as a string are the bytes of that string, and
/// the string fits.
proof fn lemma_string_read_back(bytes: Seq<u8>)
    ensures
        spec_get_string(bytes) matches Ok((s, rest)) ==> string_fits(s) && spec_put_string(s)
            + rest == bytes,
{
    if let Ok((s, rest)) = spec_get_string(bytes) {
        lemma_u16_read_back(bytes);
        let len = spec_get_u16(bytes)->Ok_0.0;
        let tail = spec_get_u16(bytes)->Ok_0.1;
        decode_utf8_encode_utf8(tail.take(len as int));
        assert(spec_put_string(s) + rest =~= spec_put_u16(len) + tail);
    }
}

/// The bytes that are read as return codes are the bytes of those codes.
proof fn lemma_return_codes_read_back(bytes: Seq<u8>)
    ensures
        spec_get_return_codes(bytes) matches Ok(qos) ==> spec_encode_return_codes(qos) == bytes,
    decreases bytes.len(),
{
    if let Ok(qos) = spec_get_return_codes(bytes) {
        if bytes.len() > 0 {
            lemma_return_codes_read_back(bytes.skip(1));
            let first = SubAckQos::spec_from_code(bytes[0])->Some_0;
            let others = spec_get_return_codes(bytes.skip(1))->Ok_0;
            assert(first.code() == bytes[0]);
            assert(qos == seq![first] + others);
            assert(spec_encode_return_codes(qos) =~= seq![bytes[0]] + spec_encode_return_codes(
                others,
            ));
            assert(seq![bytes[0]] + bytes.skip(1) =~= bytes);
        } else {
            assert(spec_encode_return_codes(qos) =~= bytes);
        }
    }
}

/// The bytes that are read as subscription requests are the bytes of those
/// requests.
proof fn lemma_subscriptions_read_back(bytes: Seq<u8>)
    ensures
        spec_get_subscriptions(bytes) matches Ok(subscribe_to) ==> spec_encode_subscriptions(
            subscribe_to,
        ) == Ok::<Seq<u8>, EncodeFailure>(bytes),
    decreases bytes.len(),
{
    if let Ok(subscribe_to) = spec_get_subscriptions(bytes) {
        if bytes.len() > 0 {
            lemma_string_read_back(bytes);
            let (topic_filter, after_filter) = spec_get_string(bytes)->Ok_0;
            let level = after_filter[0];
            let rest = after_filter.skip(1);
            let qos = QoS::spec_from_level(level)->Some_0;
            lemma_subscriptions_read_back(rest);
            let others = spec_get_subscriptions(rest)->Ok_0;
            assert(subscribe_to == seq![SubscribeToView { topic_filter, qos }] + others);
            assert(subscribe_to.drop_first() =~= others);
            assert(subscribe_to[0] == SubscribeToView { topic_filter, qos });
            assert(qos.level() == level);
            assert(spec_encode_string(topic_filter) == Ok::<Seq<u8>, EncodeFailure>(
                spec_put_string(topic_filter),
            ));
            assert(spec_put_string(topic_filter) + seq![level] + rest =~= spec_put_string(
                topic_filter,
            ) + after_filter);
        } else {
            assert(bytes =~= Seq::empty());
        }
    }
}

/// The bytes that are read as topic filters are the bytes of those filters.
proof fn lemma_topics_read_back(bytes: Seq<u8>)
    ensures
        spec_get_topics(bytes) matches Ok(topics) ==> spec_encode_topics(topics) == Ok::<
            Seq<u8>,
            EncodeFailure,
        >(bytes),
    decreases bytes.len(),
{
    if let Ok(topics) = spec_get_topics(bytes) {
        if bytes.len() > 0 {
            lemma_string_read_back(bytes);
            let (topic_filter, rest) = spec_get_string(bytes)->Ok_0;
            lemma_topics_read_back(rest);
            let others = spec_get_topics(rest)->Ok_0;
            assert(topics == seq![topic_filter] + others);
            assert(topics.drop_first() =~= others);
            assert(topics[0] == topic_filter);
            assert(spec_encode_string(topic_filter) == Ok::<Seq<u8>, EncodeFailure>(
                spec_put_string(topic_filter),
            ));
        } else {
            assert(bytes =~= Seq::empty());
        }
    }
}

/// The bytes that are read as a string that may be absent are the bytes of
/// that string.
proof fn lemma_option_string_read_back(present: bool, bytes: Seq<u8>)
    ensures
        spec_get_option_string(present, bytes) matches Ok((s, rest)) ==> {
            &&& spec_encode_option_string(s) matches Ok(written)
            &&& written + rest == bytes
        },
{
    if present {
        lemma_string_read_back(bytes);
    } else {
        assert(Seq::<u8>::empty() + bytes =~= bytes);
    }
}

/// The bytes that are read as a will are the bytes of that will.
proof fn lemma_will_read_back(flags: u8, bytes: Seq<u8>)
    ensures
        spec_get_will(flags, bytes) matches Ok((will, rest)) ==> {
            &&& spec_encode_will(will) matches Ok(written)
            &&& written + rest == bytes
        },
{
    if let Ok((will, rest)) = spec_get_will(flags, bytes) {
        if flag(flags, 2) {
            lemma_string_read_back(bytes);
            let (topic_name, after_topic) = spec_get_string(bytes)->Ok_0;
            lemma_u16_read_back(after_topic);
            let (len, after_len) = spec_get_u16(after_topic)->Ok_0;
            let payload = after_len.take(len as int);
            assert(will->Some_0.payload == payload);
            assert(payload + rest =~= after_len);
            assert(spec_put_string(topic_name) + (spec_put_u16(len) + payload) + rest
                =~= spec_put_string(topic_name) + (spec_put_u16(len) + after_len));
        } else {
            assert(Seq::<u8>::empty() + bytes =~= bytes);
        }
    }
}

/// The fields of a CONNECT packet that the reader gives can be written
/// again, in no more bytes than they were read from.
proof fn lemma_connect_fields_read_back(flags: u8, bytes: Seq<u8>)
    requires
        spec_decode_connect_fields(flags, bytes) is Ok,
    ensures
        ({
            let packet = spec_decode_connect_fields(flags, bytes)->Ok_0;
            &&& packet is Connect
            &&& in_range(packet)
            &&& spec_encode_keep_alive(packet->keep_alive) matches Ok(keep_alive)
            &&& spec_encode_string(packet->client_id.id()) matches Ok(id)
            &&& spec_encode_will(packet->will) matches Ok(will)
            &&& spec_encode_option_string(packet->username) matches Ok(username)
            &&& spec_encode_option_string(packet->password) matches Ok(password)
            &&& keep_alive.len() + id.len() + will.len() + username.len() + password.len()
                <= bytes.len()
        }),
{
    lemma_u16_read_back(bytes);
    let (keep_alive, after_keep_alive) = spec_get_u16(bytes)->Ok_0;
    lemma_string_read_back(after_keep_alive);
    let (id, after_id) = spec_get_string(after_keep_alive)->Ok_0;
    lemma_will_read_back(flags, after_id);
    let (will, after_will) = spec_get_will(flags, after_id)->Ok_0;
    lemma_option_string_read_back(flag(flags, 7), after_will);
    let (username, after_username) = spec_get_option_string(flag(flags, 7), after_will)->Ok_0;
    lemma_option_string_read_back(flag(flags, 6), after_username);
    let packet = spec_decode_connect_fields(flags, bytes)->Ok_0;
    assert(packet->keep_alive == keep_alive * NANOS_PER_SEC);
    assert(packet->keep_alive / (NANOS_PER_SEC as nat) == keep_alive);
    assert(packet->keep_alive % (NANOS_PER_SEC as nat) == 0);
    assert(packet->client_id.id() =~= id);
    assert((spec_put_u16(keep_alive) + after_keep_alive).len() == bytes.len());
    assert((spec_put_string(id) + after_id).len() == after_keep_alive.len());
    assert((spec_encode_will(will)->Ok_0 + after_will).len() == after_id.len());
    assert((spec_encode_option_string(username)->Ok_0 + after_username).len()
        == after_will.len());
}

/// A CONNECT packet that the reader gives is in range, and can be written
/// again in no more bytes than it was read from.
proof fn lemma_connect_read_back(body: Seq<u8>)
    requires
        spec_decode_connect(body) is Ok,
    ensures
        ({
            let packet = spec_decode_connect(body)->Ok_0;
            &&& in_range(packet)
            &&& spec_encode_body(packet) matches Ok(written)
            &&& written.len() <= body.len()
        }),
{
    reveal(spec_encode_body);
    lemma_string_read_back(body);
    let (name, after_name) = spec_get_string(body)->Ok_0;
    let flags = after_name[1];
    let fields = after_name.skip(1).skip(1);
    lemma_connect_fields_read_back(flags, fields);
    assert((spec_put_string(name) + after_name).len() == body.len());
}

/// A PUBLISH packet that the reader gives is in range, and is written again
/// as the bytes that it was read from.
proof fn lemma_publish_read_back(flags: u8, body: Seq<u8>)
    requires
        spec_decode_publish(flags, body) is Ok,
    ensures
        ({
            let packet = spec_decode_publish(flags, body)->Ok_0;
            &&& in_range(packet)
            &&& spec_encode_body(packet) == Ok::<Seq<u8>, EncodeFailure>(body)
        }),
{
    reveal(spec_encode_body);
    lemma_string_read_back(body);
    let (topic_name, after_topic) = spec_get_string(body)->Ok_0;
    let level = ((flags / 0x02) % 0x04) as u8;
    if level == 0 {
        assert(spec_put_string(topic_name) + (Seq::<u8>::empty() + after_topic) =~= body);
    } else {
        lemma_u16_read_back(after_topic);
        let (packet_identifier, payload) = spec_get_packet_identifier(after_topic)->Ok_0;
        assert(spec_put_string(topic_name) + (spec_put_u16(packet_identifier) + payload)
            =~= spec_put_string(topic_name) + after_topic);
    }
}

/// Two bytes that are read as a packet identifier are the bytes of that
/// identifier, which is not zero.
proof fn lemma_identifier_read_back(body: Seq<u8>)
    requires
        body.len() == 2,
        spec_get_packet_identifier(body) is Ok,
    ensures
        spec_get_packet_identifier(body)->Ok_0.0 != 0,
        spec_put_u16(spec_get_packet_identifier(body)->Ok_0.0) == body,
{
    lemma_u16_read_back(body);
    let (packet_identifier, rest) = spec_get_u16(body)->Ok_0;
    assert(spec_put_u16(packet_identifier) + rest =~= spec_put_u16(packet_identifier));
}

/// What the reader gives is in range, and can be written again in no more
/// bytes than it was read from.
pub proof fn lemma_body_read_back(first_byte: u8, body: Seq<u8>)
    requires
        spec_decode_body(first_byte, body) is Ok,
    ensures
        ({
            let packet = spec_decode_body(first_byte, body)->Ok_0;
            &&& in_range(packet)
            &&& spec_encode_body(packet) matches Ok(written)
            &&& written.len() <= body.len()
        }),
{
    reveal(spec_decode_body);
    reveal(spec_encode_body);
    let packet = spec_decode_body(first_byte, body)->Ok_0;
    match packet {
        PacketView::ConnAck { .. } => {
            assert(spec_return_code_to_u8(spec_return_code_from_u8(body[1])) == body[1]);
        },
        PacketView::Connect { .. } => {
            lemma_connect_read_back(body);
        },
        PacketView::Publish { .. } => {
            lemma_publish_read_back(spec_packet_flags(first_byte), body);
        },
        PacketView::SubAck { packet_identifier, qos } => {
            lemma_u16_read_back(body);
            lemma_return_codes_read_back(spec_get_u16(body)->Ok_0.1);
        },
        PacketView::Subscribe { packet_identifier, subscribe_to } => {
            lemma_u16_read_back(body);
            lemma_subscriptions_read_back(spec_get_u16(body)->Ok_0.1);
        },
        PacketView::Unsubscribe { packet_identifier, unsubscribe_from } => {
            lemma_u16_read_back(body);
            lemma_topics_read_back(spec_get_u16(body)->Ok_0.1);
        },
        PacketView::Disconnect | PacketView::PingReq | PacketView::PingResp => {},
        _ => {
            lemma_identifier_read_back(body);
        },
    }
}

/// A length that is read in at most four bytes is one that can be written.
proof fn lemma_remaining_length_in_range(result: nat, num_bytes_read: nat, bytes: Seq<u8>)
    requires
        num_bytes_read < 4,
        result < place_value(num_bytes_read),
    ensures
        spec_decode_remaining_length(result, num_bytes_read, bytes) matches RemainingLengthParse::Done {
            value,
            ..
        } ==> value <= MAX_REMAINING_LENGTH,
    decreases bytes.len(),
{
    if bytes.len() > 0 {
        let byte = bytes[0];
        let next = (result + (byte % 0x80) * place_value(num_bytes_read)) as nat;
        assert(next < place_value(num_bytes_read + 1)) by {
            if num_bytes_read == 0 {
            } else if num_bytes_read == 1 {
            } else if num_bytes_read == 2 {
            } else {
            }
        }
        if byte >= 0x80 && num_bytes_read + 1 < 4 {
            lemma_remaining_length_in_range(next, num_bytes_read + 1, bytes.skip(1));
        }
    }
}

/// The round trip from the reader's side: a packet that is read off some
/// bytes is in range and can be written, and what is written, with whatever
/// follows it, is read back as that packet.
pub proof fn lemma_read_back(bytes: Seq<u8>, rest: Seq<u8>)
    requires
        spec_decode(bytes) is Packet,
    ensures
        ({
            let packet = spec_decode(bytes)->packet;
            &&& in_range(packet)
            &&& spec_encode(packet) matches Ok(written)
            &&& spec_decode(written + rest) == (Framing::Packet { packet, rest })
        }),
{
    let first_byte = bytes[0];
    lemma_remaining_length_in_range(0, 0, bytes.skip(1));
    let length = spec_decode_remaining_length(0, 0, bytes.skip(1));
    let body = length->Done_rest.take(length->Done_value as int);
    lemma_body_read_back(first_byte, body);
    lemma_round_trip(spec_decode(bytes)->packet, rest);
}

} // verus!
