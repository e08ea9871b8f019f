//! The executable reader of packets.

use crate::proto::packet::{
    before, flag, option_publication_view, option_string_view, place, protocol_name,
    spec_decode_body, spec_decode_connect, spec_decode_connect_fields, spec_decode_publish,
    spec_get_option_string, spec_get_return_codes, spec_get_subscriptions, spec_get_topics,
    spec_get_will, Packet, PacketIdentifierDupQoS, PacketView, Publication, QoS, SubAckQos,
    SubscribeTo, SubscribeToView, PROTOCOL_LEVEL,
};
use crate::proto::wire::{take_packet_identifier, take_string, take_u16, take_u8};
use crate::proto::{ClientId, ConnectReturnCode, DecodeError, DecodeFailure};

use vstd::prelude::*;
use vstd::slice::{slice_subrange, slice_to_vec};

verus! {

/// Whether what the reader returned is what the format says: the packet with
/// the expected value, or the expected failure.
pub open spec fn decoded_as(
    got: Result<Packet, DecodeError>,
    expected: Result<PacketView, DecodeFailure>,
) -> bool {
    match expected {
        Ok(view) => got matches Ok(packet) && packet@ == view,
        Err(failure) => got matches Err(err) && err@ == failure,
    }
}

/// Whether bit `n` of `flags` is set.
fn bit(flags: u8, n: u8) -> (set: bool)
    requires
        n < 8,
    ensures
        set == flag(flags, n as nat),
{
    let place: u8 = if n == 0 {
        1
    } else if n == 1 {
        2
    } else if n == 2 {
        4
    } else if n == 3 {
        8
    } else if n == 4 {
        16
    } else if n == 5 {
        32
    } else if n == 6 {
        64
    } else {
        128
    };
    (flags / place) % 2 == 1
}

fn take_option_string<'a>(present: bool, src: &'a [u8]) -> (got: Result<
    (Option<String>, &'a [u8]),
    DecodeError,
>)
    ensures
        match spec_get_option_string(present, src@) {
            Ok((value, rest)) => got matches Ok((v, r)) && option_string_view(v) == value && r@
                == rest,
            Err(failure) => got matches Err(err) && err@ == failure,
        },
{
    if present {
        let (s, rest) = take_string(src)?;
        Ok((Some(s), rest))
    } else {
        Ok((None, src))
    }
}

fn take_will<'a>(flags: u8, src: &'a [u8]) -> (got: Result<
    (Option<Publication>, &'a [u8]),
    DecodeError,
>)
    ensures
        match spec_get_will(flags, src@) {
            Ok((value, rest)) => got matches Ok((v, r)) && option_publication_view(v) == value
                && r@ == rest,
            Err(failure) => got matches Err(err) && err@ == failure,
        },
{
    if !bit(flags, 2) {
        return Ok((None, src));
    }
    let (topic_name, rest) = take_string(src)?;
    let level: u8 = (flags / 0x08) % 0x04;
    let qos = match QoS::from_level(level) {
        Some(qos) => qos,
        None => return Err(DecodeError::UnrecognizedQoS(level)),
    };
    let retain = bit(flags, 5);
    let (payload_len, rest) = take_u16(rest)?;
    let payload_len: usize = payload_len as usize;
    if rest.len() < payload_len {
        return Err(DecodeError::IncompletePacket);
    }
    let payload = slice_to_vec(slice_subrange(rest, 0, payload_len));
    Ok(
        (
            Some(Publication { topic_name, qos, retain, payload }),
            slice_subrange(rest, payload_len, rest.len()),
        ),
    )
}

fn decode_connect(src: &[u8]) -> (got: Result<Packet, DecodeError>)
    ensures
        decoded_as(got, spec_decode_connect(src@)),
{
    let (name, rest) = take_string(src)?;
    proof {
        reveal_strlit("MQTT");
        assert("MQTT"@ =~= protocol_name());
    }
    let expected: String = "MQTT".to_owned();
    if !(name == expected) {
        return Err(DecodeError::UnrecognizedProtocolName(name));
    }
    let (protocol_level, rest) = take_u8(rest)?;
    if protocol_level != PROTOCOL_LEVEL {
        return Err(DecodeError::UnrecognizedProtocolLevel(protocol_level));
    }
    let (connect_flags, rest) = take_u8(rest)?;
    if bit(connect_flags, 0) {
        return Err(DecodeError::ConnectReservedSet);
    }
    decode_connect_fields(connect_flags, rest)
}

fn decode_connect_fields(connect_flags: u8, src: &[u8]) -> (got: Result<Packet, DecodeError>)
    ensures
        decoded_as(got, spec_decode_connect_fields(connect_flags, src@)),
{
    let (keep_alive, rest) = take_u16(src)?;
    let keep_alive = std::time::Duration::from_secs(keep_alive as u64);
    let (client_id, rest) = take_string(rest)?;
    let client_id = if client_id.as_str().is_empty() {
        ClientId::ServerGenerated
    } else if !bit(connect_flags, 1) {
        ClientId::IdWithExistingSession(client_id)
    } else {
        ClientId::IdWithCleanSession(client_id)
    };
    let (will, rest) = take_will(connect_flags, rest)?;
    let (username, rest) = take_option_string(bit(connect_flags, 7), rest)?;
    let (password, _) = take_option_string(bit(connect_flags, 6), rest)?;
    Ok(Packet::Connect { username, password, will, client_id, keep_alive })
}

fn decode_publish(flags: u8, src: &[u8]) -> (got: Result<Packet, DecodeError>)
    ensures
        decoded_as(got, spec_decode_publish(flags, src@)),
{
    let dup = bit(flags, 3);
    let retain = bit(flags, 0);
    let (topic_name, rest) = take_string(src)?;
    let level: u8 = (flags / 0x02) % 0x04;
    let (packet_identifier_dup_qos, rest) = if level == 0 {
        if dup {
            return Err(DecodeError::PublishDupAtMostOnce);
        }
        (PacketIdentifierDupQoS::AtMostOnce, rest)
    } else if level == 1 {
        let (packet_identifier, rest) = take_packet_identifier(rest)?;
        (PacketIdentifierDupQoS::AtLeastOnce(packet_identifier, dup), rest)
    } else if level == 2 {
        let (packet_identifier, rest) = take_packet_identifier(rest)?;
        (PacketIdentifierDupQoS::ExactlyOnce(packet_identifier, dup), rest)
    } else {
        return Err(DecodeError::UnrecognizedQoS(level));
    };
    let payload = slice_to_vec(rest);
    Ok(Packet::Publish { packet_identifier_dup_qos, retain, topic_name, payload })
}

fn take_return_codes(src: &[u8]) -> (got: Result<Vec<SubAckQos>, DecodeError>)
    ensures
        match spec_get_return_codes(src@) {
            Ok(value) => got matches Ok(v) && v@ == value,
            Err(failure) => got matches Err(err) && err@ == failure,
        },
{
    let mut qos: Vec<SubAckQos> = Vec::new();
    let mut i: usize = 0;
    proof {
        assert(src@.skip(0) =~= src@);
        assert(qos@ =~= Seq::<SubAckQos>::empty());
        assert forall|r: Result<Seq<SubAckQos>, DecodeFailure>| #[trigger]
            before(Seq::<SubAckQos>::empty(), r) == r by {
            match r {
                Ok(tail) => assert(Seq::<SubAckQos>::empty() + tail =~= tail),
                Err(_) => {},
            }
        }
    }
    while i < src.len()
        invariant
            i <= src.len(),
            spec_get_return_codes(src@) == before(qos@, spec_get_return_codes(src@.skip(i as int))),
        decreases src.len() - i,
    {
        let ghost tail = src@.skip(i as int);
        let ghost so_far = qos@;
        proof {
            assert(tail[0] == src@[i as int]);
            assert(tail.skip(1) =~= src@.skip(i + 1));
        }
        let code: u8 = src[i];
        let item = if code == 0x80 {
            SubAckQos::Failure
        } else {
            match QoS::from_level(code) {
                Some(qos) => SubAckQos::Success(qos),
                None => return Err(DecodeError::UnrecognizedQoS(code)),
            }
        };
        qos.push(item);
        i = i + 1;
        proof {
            match spec_get_return_codes(src@.skip(i as int)) {
                Ok(rest) => assert(qos@ + rest =~= so_far + (seq![item] + rest)),
                Err(_) => {},
            }
        }
    }
    proof {
        assert(src@.skip(i as int) =~= Seq::<u8>::empty());
        assert(qos@ + Seq::<SubAckQos>::empty() =~= qos@);
    }
    Ok(qos)
}

fn take_subscriptions(src: &[u8]) -> (got: Result<Vec<SubscribeTo>, DecodeError>)
    ensures
        match spec_get_subscriptions(src@) {
            Ok(value) => got matches Ok(v) && v.deep_view() == value,
            Err(failure) => got matches Err(err) && err@ == failure,
        },
{
    let mut subscribe_to: Vec<SubscribeTo> = Vec::new();
    let mut rest: &[u8] = src;
    proof {
        assert(subscribe_to.deep_view() =~= Seq::<SubscribeToView>::empty());
        match spec_get_subscriptions(src@) {
            Ok(tail) => assert(Seq::<SubscribeToView>::empty() + tail =~= tail),
            Err(_) => {},
        }
    }
    while rest.len() > 0
        invariant
            spec_get_subscriptions(src@) == before(
                subscribe_to.deep_view(),
                spec_get_subscriptions(rest@),
            ),
        decreases rest.len(),
    {
        let ghost so_far = subscribe_to.deep_view();
        let (topic_filter, after_topic) = take_string(rest)?;
        let (level, after_qos) = take_u8(after_topic)?;
        let qos = match QoS::from_level(level) {
            Some(qos) => qos,
            None => return Err(DecodeError::UnrecognizedQoS(level)),
        };
        let item = SubscribeTo { topic_filter, qos };
        let ghost item_view = item@;
        subscribe_to.push(item);
        rest = after_qos;
        proof {
            assert(subscribe_to.deep_view() =~= so_far.push(item_view));
            match spec_get_subscriptions(rest@) {
                Ok(tail) => assert(subscribe_to.deep_view() + tail =~= so_far + (seq![item_view]
                    + tail)),
                Err(_) => {},
            }
        }
    }
    proof {
        assert(subscribe_to.deep_view() + Seq::<SubscribeToView>::empty()
            =~= subscribe_to.deep_view());
    }
    Ok(subscribe_to)
}

fn take_topics(src: &[u8]) -> (got: Result<Vec<String>, DecodeError>)
    ensures
        match spec_get_topics(src@) {
            Ok(value) => got matches Ok(v) && v.deep_view() == value,
            Err(failure) => got matches Err(err) && err@ == failure,
        },
{
    let mut topics: Vec<String> = Vec::new();
    let mut rest: &[u8] = src;
    proof {
        assert(topics.deep_view() =~= Seq::<Seq<char>>::empty());
        match spec_get_topics(src@) {
            Ok(tail) => assert(Seq::<Seq<char>>::empty() + tail =~= tail),
            Err(_) => {},
        }
    }
    while rest.len() > 0
        invariant
            spec_get_topics(src@) == before(topics.deep_view(), spec_get_topics(rest@)),
        decreases rest.len(),
    {
        let ghost so_far = topics.deep_view();
        let (topic_filter, after_topic) = take_string(rest)?;
        let ghost item_view = topic_filter@;
        topics.push(topic_filter);
        rest = after_topic;
        proof {
            assert(topics.deep_view() =~= so_far.push(item_view));
            match spec_get_topics(rest@) {
                Ok(tail) => assert(topics.deep_view() + tail =~= so_far + (seq![item_view]
                    + tail)),
                Err(_) => {},
            }
        }
    }
    proof {
        assert(topics.deep_view() + Seq::<Seq<char>>::empty() =~= topics.deep_view());
    }
    Ok(topics)
}

/// Reads what follows the fixed header of a packet whose first byte is
/// `first_byte`: `body` is all of it, and nothing else.
pub fn decode_body(first_byte: u8, body: &[u8]) -> (got: Result<Packet, DecodeError>)
    ensures
        decoded_as(got, spec_decode_body(first_byte, body@)),
{
    proof {
        reveal(spec_decode_body);
    }
    let packet_type: u8 = first_byte / 0x10 * 0x10;
    let flags: u8 = first_byte % 0x10;
    let remaining_length: usize = body.len();
    if packet_type == Packet::CONNACK && flags == 0 && remaining_length == 2 {
        let session_present = match body[0] {
            0x00 => false,
            0x01 => true,
            flags => return Err(DecodeError::UnrecognizedConnAckFlags(flags)),
        };
        let return_code = ConnectReturnCode::from(body[1]);
        Ok(Packet::ConnAck { session_present, return_code })
    } else if packet_type == Packet::CONNECT && flags == 0 {
        decode_connect(body)
    } else if packet_type == Packet::DISCONNECT && flags == 0 && remaining_length == 0 {
        Ok(Packet::Disconnect)
    } else if packet_type == Packet::PINGREQ && flags == 0 && remaining_length == 0 {
        Ok(Packet::PingReq)
    } else if packet_type == Packet::PINGRESP && flags == 0 && remaining_length == 0 {
        Ok(Packet::PingResp)
    } else if packet_type == Packet::PUBACK && flags == 0 && remaining_length == 2 {
        let (packet_identifier, _) = take_packet_identifier(body)?;
        Ok(Packet::PubAck { packet_identifier })
    } else if packet_type == Packet::PUBCOMP && flags == 0 && remaining_length == 2 {
        let (packet_identifier, _) = take_packet_identifier(body)?;
        Ok(Packet::PubComp { packet_identifier })
    } else if packet_type == Packet::PUBLISH {
        decode_publish(flags, body)
    } else if packet_type == Packet::PUBREC && flags == 0 && remaining_length == 2 {
        let (packet_identifier, _) = take_packet_identifier(body)?;
        Ok(Packet::PubRec { packet_identifier })
    } else if packet_type == Packet::PUBREL && flags == 2 && remaining_length == 2 {
        let (packet_identifier, _) = take_packet_identifier(body)?;
        Ok(Packet::PubRel { packet_identifier })
    } else if packet_type == Packet::SUBACK && flags == 0 {
        let (packet_identifier, rest) = take_packet_identifier(body)?;
        let qos = take_return_codes(rest)?;
        Ok(Packet::SubAck { packet_identifier, qos })
    } else if packet_type == Packet::SUBSCRIBE && flags == 2 {
        let (packet_identifier, rest) = take_packet_identifier(body)?;
        let subscribe_to = take_subscriptions(rest)?;
        if subscribe_to.len() == 0 {
            return Err(DecodeError::NoTopics);
        }
        Ok(Packet::Subscribe { packet_identifier, subscribe_to })
    } else if packet_type == Packet::UNSUBACK && flags == 0 && remaining_length == 2 {
        let (packet_identifier, _) = take_packet_identifier(body)?;
        Ok(Packet::UnsubAck { packet_identifier })
    } else if packet_type == Packet::UNSUBSCRIBE && flags == 2 {
        let (packet_identifier, rest) = take_packet_identifier(body)?;
        let unsubscribe_from = take_topics(rest)?;
        if unsubscribe_from.len() == 0 {
            return Err(DecodeError::NoTopics);
        }
        Ok(Packet::Unsubscribe { packet_identifier, unsubscribe_from })
    } else {
        Err(DecodeError::UnrecognizedPacket { packet_type, flags, remaining_length })
    }
}

} // verus!
