//! The executable writer of packets.

use crate::proto::packet::{
    followed_by, option_publication_view, option_string_view, protocol_name, spec_connect_flags,
    spec_encode, spec_encode_body, spec_encode_keep_alive, spec_encode_option_string,
    spec_encode_return_codes, spec_encode_string, spec_encode_subscriptions, spec_encode_topics,
    spec_encode_will, spec_first_byte, Packet, PacketIdentifierDupQoS, PacketView, Publication, QoS,
    SubAckQos, SubscribeTo, SubscribeToView, PROTOCOL_LEVEL,
};
use crate::proto::remaining_length::{append_remaining_length, MAX_REMAINING_LENGTH};
use crate::proto::wire::{
    append_bytes, append_packet_identifier, append_string, append_u16, spec_put_string,
    spec_put_u16, string_fits,
};
use crate::proto::{ClientId, EncodeError, EncodeFailure};
use crate::time::duration_nanos;
use vstd::prelude::*;
use vstd::utf8::encode_utf8;

verus! {

// ---------------------------------------------------------------------------
// The executable writer
// ---------------------------------------------------------------------------
/// Whether a writer that returned `result` and turned `before` into `after`
/// did what the format says: it appended the expected bytes, or failed in the
/// expected way.
pub open spec fn wrote(
    result: Result<(), EncodeError>,
    before: Seq<u8>,
    after: Seq<u8>,
    expected: Result<Seq<u8>, EncodeFailure>,
) -> bool {
    match expected {
        Ok(bytes) => result is Ok && after == before + bytes,
        Err(failure) => result matches Err(err) && err@ == failure,
    }
}

fn put_string(item: &str, dst: &mut Vec<u8>) -> (result: Result<(), EncodeError>)
    ensures
        wrote(result, old(dst)@, final(dst)@, spec_encode_string(item@)),
{
    append_string(item, dst)
}

fn put_option_string(item: &Option<String>, dst: &mut Vec<u8>) -> (result: Result<
    (),
    EncodeError,
>)
    ensures
        wrote(
            result,
            old(dst)@,
            final(dst)@,
            spec_encode_option_string(option_string_view(*item)),
        ),
{
    match item {
        Some(item) => put_string(item.as_str(), dst),
        None => {
            proof {
                assert(dst@ =~= old(dst)@ + Seq::<u8>::empty());
            }
            Ok(())
        },
    }
}

fn put_keep_alive(keep_alive: std::time::Duration, dst: &mut Vec<u8>) -> (result: Result<
    (),
    EncodeError,
>)
    ensures
        wrote(
            result,
            old(dst)@,
            final(dst)@,
            spec_encode_keep_alive(duration_nanos(keep_alive) as nat),
        ),
{
    let secs: u64 = keep_alive.as_secs();
    if secs <= 0xFFFF {
        append_u16(secs as u16, dst);
        Ok(())
    } else {
        Err(EncodeError::KeepAliveTooHigh(keep_alive))
    }
}

fn put_will(will: &Option<Publication>, dst: &mut Vec<u8>) -> (result: Result<(), EncodeError>)
    ensures
        wrote(result, old(dst)@, final(dst)@, spec_encode_will(option_publication_view(*will))),
{
    match will {
        None => {
            proof {
                assert(dst@ =~= old(dst)@ + Seq::<u8>::empty());
            }
            Ok(())
        },
        Some(will) => {
            put_string(will.topic_name.as_str(), dst)?;
            let will_len: usize = will.payload.len();
            if will_len > 0xFFFF {
                return Err(EncodeError::WillTooLarge(will_len));
            }
            append_u16(will_len as u16, dst);
            append_bytes(will.payload.as_slice(), dst);
            proof {
                assert(dst@ =~= old(dst)@ + (spec_put_string(will@.topic_name) + (spec_put_u16(
                    will_len as u16,
                ) + will@.payload)));
            }
            Ok(())
        },
    }
}

fn connect_flags(
    username: &Option<String>,
    password: &Option<String>,
    will: &Option<Publication>,
    client_id: &ClientId,
) -> (flags: u8)
    ensures
        flags == spec_connect_flags(
            username is Some,
            password is Some,
            option_publication_view(*will),
            client_id@.clean_session(),
        ),
{
    let mut connect_flags: u8 = 0x00;
    if username.is_some() {
        connect_flags += 0x80;
    }
    if password.is_some() {
        connect_flags += 0x40;
    }
    if let Some(will) = will {
        if will.retain {
            connect_flags += 0x20;
        }
        connect_flags += match will.qos {
            QoS::AtMostOnce => 0x00,
            QoS::AtLeastOnce => 0x08,
            QoS::ExactlyOnce => 0x10,
        };
        connect_flags += 0x04;
    }
    match client_id {
        ClientId::ServerGenerated | ClientId::IdWithCleanSession(_) => connect_flags += 0x02,
        ClientId::IdWithExistingSession(_) => (),
    }
    connect_flags
}

fn put_connect(
    username: &Option<String>,
    password: &Option<String>,
    will: &Option<Publication>,
    client_id: &ClientId,
    keep_alive: std::time::Duration,
    dst: &mut Vec<u8>,
) -> (result: Result<(), EncodeError>)
    requires
        old(dst)@.len() == 0,
    ensures
        wrote(
            result,
            old(dst)@,
            final(dst)@,
            spec_encode_body(
                PacketView::Connect {
                    username: option_string_view(*username),
                    password: option_string_view(*password),
                    will: option_publication_view(*will),
                    client_id: client_id@,
                    keep_alive: duration_nanos(keep_alive) as nat,
                },
            ),
        ),
{
    proof {
        reveal(spec_encode_body);
        reveal_strlit("MQTT");
        reveal_strlit("");
        assert("MQTT"@ =~= protocol_name());
        assert(""@ =~= Seq::<char>::empty());
        lemma_protocol_name_fits();
    }
    let flags = connect_flags(username, password, will, client_id);
    put_string("MQTT", dst)?;
    dst.push(PROTOCOL_LEVEL);
    dst.push(flags);
    let ghost head = dst@;
    proof {
        assert(head =~= spec_put_string(protocol_name()) + seq![PROTOCOL_LEVEL, flags]);
    }
    put_keep_alive(keep_alive, dst)?;
    match client_id {
        ClientId::ServerGenerated => put_string("", dst)?,
        ClientId::IdWithCleanSession(id) => put_string(id.as_str(), dst)?,
        ClientId::IdWithExistingSession(id) => put_string(id.as_str(), dst)?,
    }
    put_will(will, dst)?;
    put_option_string(username, dst)?;
    put_option_string(password, dst)?;
    Ok(())
}

/// The four characters of the protocol name take four bytes.
pub proof fn lemma_protocol_name_fits()
    ensures
        string_fits(protocol_name()),
        encode_utf8(protocol_name()).len() == 4,
{
    vstd::utf8::is_ascii_chars_encode_utf8(protocol_name());
}

fn put_subscriptions(subscribe_to: &Vec<SubscribeTo>, dst: &mut Vec<u8>) -> (result: Result<
    (),
    EncodeError,
>)
    ensures
        wrote(
            result,
            old(dst)@,
            final(dst)@,
            spec_encode_subscriptions(subscribe_to.deep_view()),
        ),
{
    let ghost all = subscribe_to.deep_view();
    let ghost mut written: Seq<u8> = Seq::empty();
    let mut i: usize = 0;
    proof {
        assert(all.skip(0) =~= all);
        assert(dst@ =~= old(dst)@ + written);
    }
    while i < subscribe_to.len()
        invariant
            i <= subscribe_to.len(),
            all == subscribe_to.deep_view(),
            all.len() == subscribe_to.len(),
            dst@ == old(dst)@ + written,
            spec_encode_subscriptions(all) == followed_by(
                Ok(written),
                spec_encode_subscriptions(all.skip(i as int)),
            ),
        decreases subscribe_to.len() - i,
    {
        let ghost tail = all.skip(i as int);
        proof {
            assert(tail[0] == subscribe_to@[i as int]@);
            assert(tail.drop_first() =~= all.skip(i + 1));
        }
        let ghost before = dst@;
        put_string(subscribe_to[i].topic_filter.as_str(), dst)?;
        dst.push(u8::from(subscribe_to[i].qos));
        proof {
            let item = spec_put_string(tail[0].topic_filter) + seq![tail[0].qos.level()];
            let so_far = written;
            assert(dst@ =~= old(dst)@ + (so_far + item));
            written = so_far + item;
            match spec_encode_subscriptions(all.skip(i + 1)) {
                Ok(rest) => {
                    assert(written + rest =~= so_far + (item + rest));
                },
                Err(_) => {},
            }
        }
        i = i + 1;
    }
    proof {
        assert(all.skip(i as int) =~= Seq::<SubscribeToView>::empty());
        assert(written + Seq::<u8>::empty() =~= written);
    }
    Ok(())
}

fn put_topics(topics: &Vec<String>, dst: &mut Vec<u8>) -> (result: Result<(), EncodeError>)
    ensures
        wrote(result, old(dst)@, final(dst)@, spec_encode_topics(topics.deep_view())),
{
    let ghost all = topics.deep_view();
    let ghost mut written: Seq<u8> = Seq::empty();
    let mut i: usize = 0;
    proof {
        assert(all.skip(0) =~= all);
        assert(dst@ =~= old(dst)@ + written);
    }
    while i < topics.len()
        invariant
            i <= topics.len(),
            all == topics.deep_view(),
            all.len() == topics.len(),
            dst@ == old(dst)@ + written,
            spec_encode_topics(all) == followed_by(
                Ok(written),
                spec_encode_topics(all.skip(i as int)),
            ),
        decreases topics.len() - i,
    {
        let ghost tail = all.skip(i as int);
        proof {
            assert(tail[0] == topics@[i as int]@);
            assert(tail.drop_first() =~= all.skip(i + 1));
        }
        put_string(topics[i].as_str(), dst)?;
        proof {
            let item = spec_put_string(tail[0]);
            let so_far = written;
            assert(dst@ =~= old(dst)@ + (so_far + item));
            written = so_far + item;
            match spec_encode_topics(all.skip(i + 1)) {
                Ok(rest) => {
                    assert(written + rest =~= so_far + (item + rest));
                },
                Err(_) => {},
            }
        }
        i = i + 1;
    }
    proof {
        assert(all.skip(i as int) =~= Seq::<Seq<char>>::empty());
        assert(written + Seq::<u8>::empty() =~= written);
    }
    Ok(())
}

fn put_return_codes(qos: &Vec<SubAckQos>, dst: &mut Vec<u8>)
    ensures
        final(dst)@ == old(dst)@ + spec_encode_return_codes(qos@),
{
    let mut i: usize = 0;
    proof {
        assert(dst@ =~= old(dst)@ + spec_encode_return_codes(qos@.take(0)));
    }
    while i < qos.len()
        invariant
            i <= qos.len(),
            dst@ == old(dst)@ + spec_encode_return_codes(qos@.take(i as int)),
        decreases qos.len() - i,
    {
        dst.push(u8::from(qos[i]));
        i = i + 1;
        proof {
            assert(dst@ =~= old(dst)@ + spec_encode_return_codes(qos@.take(i as int)));
        }
    }
    proof {
        assert(qos@.take(i as int) =~= qos@);
    }
}

/// The first byte of a packet: its type, and the flags of its fixed header.
fn first_byte(packet: &Packet) -> (byte: u8)
    ensures
        byte == spec_first_byte(packet@),
{
    match packet {
        Packet::ConnAck { .. } => Packet::CONNACK,
        Packet::Connect { .. } => Packet::CONNECT,
        Packet::Disconnect => Packet::DISCONNECT,
        Packet::PingReq => Packet::PINGREQ,
        Packet::PingResp => Packet::PINGRESP,
        Packet::PubAck { .. } => Packet::PUBACK,
        Packet::PubComp { .. } => Packet::PUBCOMP,
        Packet::Publish { packet_identifier_dup_qos, retain, .. } => {
            let mut packet_type: u8 = Packet::PUBLISH;
            packet_type += match packet_identifier_dup_qos {
                PacketIdentifierDupQoS::AtMostOnce => 0x00,
                PacketIdentifierDupQoS::AtLeastOnce(_, true) => 0x0A,
                PacketIdentifierDupQoS::AtLeastOnce(_, false) => 0x02,
                PacketIdentifierDupQoS::ExactlyOnce(_, true) => 0x0C,
                PacketIdentifierDupQoS::ExactlyOnce(_, false) => 0x04,
            };
            if *retain {
                packet_type += 0x01;
            }
            packet_type
        },
        Packet::PubRec { .. } => Packet::PUBREC,
        Packet::PubRel { .. } => Packet::PUBREL + 0x02,
        Packet::SubAck { .. } => Packet::SUBACK,
        Packet::Subscribe { .. } => Packet::SUBSCRIBE + 0x02,
        Packet::UnsubAck { .. } => Packet::UNSUBACK,
        Packet::Unsubscribe { .. } => Packet::UNSUBSCRIBE + 0x02,
    }
}

/// Writes what follows the fixed header of a packet into an empty `dst`.
fn put_body(packet: &Packet, dst: &mut Vec<u8>) -> (result: Result<(), EncodeError>)
    requires
        old(dst)@.len() == 0,
    ensures
        match spec_encode_body(packet@) {
            Ok(body) => result is Ok && final(dst)@ == body,
            Err(failure) => result matches Err(err) && err@ == failure,
        },
{
    proof {
        reveal(spec_encode_body);
        assert(dst@ =~= Seq::<u8>::empty());
    }
    match packet {
        Packet::ConnAck { session_present, return_code } => {
            if *session_present {
                dst.push(0x01);
            } else {
                dst.push(0x00);
            }
            dst.push(u8::from(*return_code));
            proof {
                assert(dst@ =~= spec_encode_body(packet@)->Ok_0);
            }
        },
        Packet::Connect { username, password, will, client_id, keep_alive } => {
            put_connect(username, password, will, client_id, *keep_alive, dst)?;
            proof {
                assert(dst@ =~= spec_encode_body(packet@)->Ok_0);
            }
        },
        Packet::Disconnect => (),
        Packet::PingReq => (),
        Packet::PingResp => (),
        Packet::PubAck { packet_identifier } => {
            append_packet_identifier(*packet_identifier, dst);
            proof {
                assert(dst@ =~= spec_encode_body(packet@)->Ok_0);
            }
        },
        Packet::PubComp { packet_identifier } => {
            append_packet_identifier(*packet_identifier, dst);
            proof {
                assert(dst@ =~= spec_encode_body(packet@)->Ok_0);
            }
        },
        Packet::Publish { packet_identifier_dup_qos, retain: _, topic_name, payload } => {
            put_string(topic_name.as_str(), dst)?;
            match packet_identifier_dup_qos {
                PacketIdentifierDupQoS::AtMostOnce => (),
                PacketIdentifierDupQoS::AtLeastOnce(packet_identifier, _) => {
                    append_packet_identifier(*packet_identifier, dst)
                },
                PacketIdentifierDupQoS::ExactlyOnce(packet_identifier, _) => {
                    append_packet_identifier(*packet_identifier, dst)
                },
            }
            append_bytes(payload.as_slice(), dst);
            proof {
                assert(dst@ =~= spec_encode_body(packet@)->Ok_0);
            }
        },
        Packet::PubRec { packet_identifier } => {
            append_packet_identifier(*packet_identifier, dst);
            proof {
                assert(dst@ =~= spec_encode_body(packet@)->Ok_0);
            }
        },
        Packet::PubRel { packet_identifier } => {
            append_packet_identifier(*packet_identifier, dst);
            proof {
                assert(dst@ =~= spec_encode_body(packet@)->Ok_0);
            }
        },
        Packet::SubAck { packet_identifier, qos } => {
            append_packet_identifier(*packet_identifier, dst);
            put_return_codes(qos, dst);
            proof {
                assert(dst@ =~= spec_encode_body(packet@)->Ok_0);
            }
        },
        Packet::Subscribe { packet_identifier, subscribe_to } => {
            append_packet_identifier(*packet_identifier, dst);
            put_subscriptions(subscribe_to, dst)?;
            proof {
                assert(dst@ =~= spec_encode_body(packet@)->Ok_0);
            }
        },
        Packet::UnsubAck { packet_identifier } => {
            append_packet_identifier(*packet_identifier, dst);
            proof {
                assert(dst@ =~= spec_encode_body(packet@)->Ok_0);
            }
        },
        Packet::Unsubscribe { packet_identifier, unsubscribe_from } => {
            append_packet_identifier(*packet_identifier, dst);
            put_topics(unsubscribe_from, dst)?;
            proof {
                assert(dst@ =~= spec_encode_body(packet@)->Ok_0);
            }
        },
    }
    Ok(())
}

/// Appends the bytes of `packet` to `dst`, or leaves `dst` as it is and says
/// which rule of the format the packet breaks.
pub fn encode_packet(packet: &Packet, dst: &mut Vec<u8>) -> (result: Result<(), EncodeError>)
    ensures
        wrote(result, old(dst)@, final(dst)@, spec_encode(packet@)),
        result is Err ==> final(dst)@ == old(dst)@,
        result is Ok ==> final(dst)@.len() <= old(dst)@.len() + 5 + MAX_REMAINING_LENGTH,
{
    let mut body: Vec<u8> = Vec::new();
    put_body(packet, &mut body)?;
    let remaining_length: usize = body.len();
    if remaining_length > MAX_REMAINING_LENGTH {
        return Err(EncodeError::RemainingLengthTooHigh(remaining_length));
    }
    dst.push(first_byte(packet));
    append_remaining_length(remaining_length, dst);
    append_bytes(body.as_slice(), dst);
    proof {
        assert(dst@ =~= old(dst)@ + spec_encode(packet@)->Ok_0);
    }
    Ok(())
}

} // verus!
