use mqtt::proto::{
    ClientId, ConnectReturnCode, ConnectionRefusedReason, DecodeError, EncodeError, Packet,
    PacketCodec, PacketIdentifier, PacketIdentifierDupQoS, Publication, QoS, SubAckQos,
    SubscribeTo, Utf8StringCodec,
};

fn id(raw: u16) -> PacketIdentifier {
    PacketIdentifier::new(raw).unwrap()
}

fn encode(packet: Packet) -> Vec<u8> {
    let mut bytes = bytes::BytesMut::new();
    PacketCodec::default().encode(packet, &mut bytes).unwrap();
    bytes.to_vec()
}

fn decode(bytes: &[u8]) -> Result<Option<Packet>, DecodeError> {
    let mut bytes = bytes::BytesMut::from(bytes);
    PacketCodec::default().decode(&mut bytes)
}

fn round_trip(packet: Packet, expected: &[u8]) {
    assert_eq!(encode(packet.clone()), expected);
    let mut bytes = bytes::BytesMut::from(expected);
    bytes.extend_from_slice(&[0xAA, 0xBB]);
    let decoded = PacketCodec::default().decode(&mut bytes).unwrap().unwrap();
    assert_eq!(decoded, packet);
    assert_eq!(&*bytes, &[0xAA_u8, 0xBB][..]);
}

#[test]
fn packet_identifier_is_not_zero() {
    assert_eq!(PacketIdentifier::new(0), None);
    assert_eq!(PacketIdentifier::new(1).unwrap().get(), 1);
    assert_eq!(PacketIdentifier::new(65535).unwrap().get(), 65535);
    assert_eq!(PacketIdentifier::max_value().get(), 65535);
    assert_eq!(PacketIdentifier::max_value().add(1).get(), 1);
    assert_eq!(id(7).add(3).get(), 10);
    assert_eq!(id(65534).add(1).get(), 65535);
}

#[test]
fn connect_return_codes() {
    assert_eq!(ConnectReturnCode::from(0), ConnectReturnCode::Accepted);
    assert_eq!(
        ConnectReturnCode::from(1),
        ConnectReturnCode::Refused(ConnectionRefusedReason::UnacceptableProtocolVersion)
    );
    assert_eq!(
        ConnectReturnCode::from(2),
        ConnectReturnCode::Refused(ConnectionRefusedReason::IdentifierRejected)
    );
    assert_eq!(
        ConnectReturnCode::from(3),
        ConnectReturnCode::Refused(ConnectionRefusedReason::ServerUnavailable)
    );
    assert_eq!(
        ConnectReturnCode::from(4),
        ConnectReturnCode::Refused(ConnectionRefusedReason::BadUserNameOrPassword)
    );
    assert_eq!(
        ConnectReturnCode::from(5),
        ConnectReturnCode::Refused(ConnectionRefusedReason::NotAuthorized)
    );
    assert_eq!(
        ConnectReturnCode::from(6),
        ConnectReturnCode::Refused(ConnectionRefusedReason::Other(6))
    );
    for code in 0..=255_u8 {
        assert_eq!(u8::from(ConnectReturnCode::from(code)), code);
    }
    assert_eq!(u8::from(QoS::AtMostOnce), 0);
    assert_eq!(u8::from(QoS::AtLeastOnce), 1);
    assert_eq!(u8::from(QoS::ExactlyOnce), 2);
    assert_eq!(u8::from(SubAckQos::Failure), 0x80);
    assert_eq!(u8::from(SubAckQos::Success(QoS::ExactlyOnce)), 2);
    assert_eq!(QoS::from_level(1), Some(QoS::AtLeastOnce));
    assert_eq!(QoS::from_level(3), None);
    assert!(QoS::AtMostOnce < QoS::AtLeastOnce && QoS::AtLeastOnce < QoS::ExactlyOnce);
}

#[test]
fn encode_error_is_user_error() {
    assert!(EncodeError::KeepAliveTooHigh(std::time::Duration::from_secs(65536)).is_user_error());
    assert!(EncodeError::RemainingLengthTooHigh(0x1000_0000).is_user_error());
    assert!(EncodeError::StringTooLarge(65536).is_user_error());
    assert!(EncodeError::WillTooLarge(65536).is_user_error());
    assert!(!EncodeError::Io(std::io::ErrorKind::BrokenPipe.into()).is_user_error());
}

#[test]
fn round_trip_simple_packets() {
    round_trip(Packet::Disconnect, &[0xE0, 0x00]);
    round_trip(Packet::PingReq, &[0xC0, 0x00]);
    round_trip(Packet::PingResp, &[0xD0, 0x00]);
    round_trip(
        Packet::PubAck {
            packet_identifier: id(0x0102),
        },
        &[0x40, 0x02, 0x01, 0x02],
    );
    round_trip(
        Packet::PubRec {
            packet_identifier: id(5),
        },
        &[0x50, 0x02, 0x00, 0x05],
    );
    round_trip(
        Packet::PubRel {
            packet_identifier: id(5),
        },
        &[0x62, 0x02, 0x00, 0x05],
    );
    round_trip(
        Packet::PubComp {
            packet_identifier: id(0xFFFF),
        },
        &[0x70, 0x02, 0xFF, 0xFF],
    );
    round_trip(
        Packet::UnsubAck {
            packet_identifier: id(9),
        },
        &[0xB0, 0x02, 0x00, 0x09],
    );
}

#[test]
fn round_trip_connack() {
    round_trip(
        Packet::ConnAck {
            session_present: false,
            return_code: ConnectReturnCode::Accepted,
        },
        &[0x20, 0x02, 0x00, 0x00],
    );
    round_trip(
        Packet::ConnAck {
            session_present: true,
            return_code: ConnectReturnCode::Refused(ConnectionRefusedReason::NotAuthorized),
        },
        &[0x20, 0x02, 0x01, 0x05],
    );
    round_trip(
        Packet::ConnAck {
            session_present: false,
            return_code: ConnectReturnCode::Refused(ConnectionRefusedReason::Other(0x80)),
        },
        &[0x20, 0x02, 0x00, 0x80],
    );
    assert!(matches!(
        decode(&[0x20, 0x02, 0x02, 0x00]),
        Err(DecodeError::UnrecognizedConnAckFlags(0x02))
    ));
}

#[test]
fn round_trip_connect() {
    round_trip(
        Packet::Connect {
            username: None,
            password: None,
            will: None,
            client_id: ClientId::ServerGenerated,
            keep_alive: std::time::Duration::from_secs(4),
        },
        &[
            0x10, 0x0C, 0x00, 0x04, b'M', b'Q', b'T', b'T', 0x04, 0x02, 0x00, 0x04, 0x00, 0x00,
        ],
    );
    round_trip(
        Packet::Connect {
            username: Some("u".to_string()),
            password: Some("pw".to_string()),
            will: Some(Publication {
                topic_name: "w".to_string(),
                qos: QoS::AtLeastOnce,
                retain: true,
                payload: vec![1, 2, 3],
            }),
            client_id: ClientId::IdWithExistingSession("id".to_string()),
            keep_alive: std::time::Duration::from_secs(0x0102),
        },
        &[
            0x10, 0x1D, 0x00, 0x04, b'M', b'Q', b'T', b'T', 0x04, 0xEC, 0x01, 0x02, 0x00, 0x02,
            b'i', b'd', 0x00, 0x01, b'w', 0x00, 0x03, 1, 2, 3, 0x00, 0x01, b'u', 0x00, 0x02, b'p',
            b'w',
        ],
    );
    round_trip(
        Packet::Connect {
            username: None,
            password: None,
            will: Some(Publication {
                topic_name: "w".to_string(),
                qos: QoS::ExactlyOnce,
                retain: false,
                payload: vec![],
            }),
            client_id: ClientId::IdWithCleanSession("c".to_string()),
            keep_alive: std::time::Duration::from_secs(0),
        },
        &[
            0x10, 0x12, 0x00, 0x04, b'M', b'Q', b'T', b'T', 0x04, 0x16, 0x00, 0x00, 0x00, 0x01,
            b'c', 0x00, 0x01, b'w', 0x00, 0x00,
        ],
    );
}

#[test]
fn connect_is_validated() {
    assert!(matches!(
        decode(&[0x10, 0x0C, 0x00, 0x04, b'M', b'Q', b'T', b'S', 0x04, 0x02, 0x00, 0x04, 0x00, 0x00]),
        Err(DecodeError::UnrecognizedProtocolName(name)) if name == "MQTS"
    ));
    assert!(matches!(
        decode(&[0x10, 0x0C, 0x00, 0x04, b'M', b'Q', b'T', b'T', 0x05, 0x02, 0x00, 0x04, 0x00, 0x00]),
        Err(DecodeError::UnrecognizedProtocolLevel(0x05))
    ));
    assert!(matches!(
        decode(&[0x10, 0x0C, 0x00, 0x04, b'M', b'Q', b'T', b'T', 0x04, 0x03, 0x00, 0x04, 0x00, 0x00]),
        Err(DecodeError::ConnectReservedSet)
    ));
    // The QoS of the will is 3.
    assert!(matches!(
        decode(&[
            0x10, 0x11, 0x00, 0x04, b'M', b'Q', b'T', b'T', 0x04, 0x1E, 0x00, 0x04, 0x00, 0x00,
            0x00, 0x01, b'w', 0x00, 0x00
        ]),
        Err(DecodeError::UnrecognizedQoS(3))
    ));
    // The packet ends within the client ID.
    assert!(matches!(
        decode(&[0x10, 0x0C, 0x00, 0x04, b'M', b'Q', b'T', b'T', 0x04, 0x02, 0x00, 0x04, 0x00, 0x05]),
        Err(DecodeError::IncompletePacket)
    ));
    // An empty client ID stands for a server-generated one, whatever the session asked for.
    assert_eq!(
        decode(&[0x10, 0x0C, 0x00, 0x04, b'M', b'Q', b'T', b'T', 0x04, 0x00, 0x00, 0x04, 0x00, 0x00])
            .unwrap()
            .unwrap(),
        Packet::Connect {
            username: None,
            password: None,
            will: None,
            client_id: ClientId::ServerGenerated,
            keep_alive: std::time::Duration::from_secs(4),
        }
    );
}

#[test]
fn connect_encode_errors() {
    let mut bytes = bytes::BytesMut::new();
    let err = PacketCodec::default()
        .encode(
            Packet::Connect {
                username: None,
                password: None,
                will: None,
                client_id: ClientId::ServerGenerated,
                keep_alive: std::time::Duration::from_secs(65536),
            },
            &mut bytes,
        )
        .unwrap_err();
    assert!(matches!(err, EncodeError::KeepAliveTooHigh(d) if d == std::time::Duration::from_secs(65536)));
    assert!(bytes.is_empty());

    let err = PacketCodec::default()
        .encode(
            Packet::Connect {
                username: None,
                password: None,
                will: Some(Publication {
                    topic_name: "w".to_string(),
                    qos: QoS::AtMostOnce,
                    retain: false,
                    payload: vec![0; 65536],
                }),
                client_id: ClientId::ServerGenerated,
                keep_alive: std::time::Duration::from_secs(1),
            },
            &mut bytes,
        )
        .unwrap_err();
    assert!(matches!(err, EncodeError::WillTooLarge(65536)));

    let err = PacketCodec::default()
        .encode(
            Packet::Connect {
                username: Some("x".repeat(65536)),
                password: None,
                will: None,
                client_id: ClientId::ServerGenerated,
                keep_alive: std::time::Duration::from_secs(1),
            },
            &mut bytes,
        )
        .unwrap_err();
    assert!(matches!(err, EncodeError::StringTooLarge(65536)));

    // The keep-alive is checked before the strings that follow it.
    let err = PacketCodec::default()
        .encode(
            Packet::Connect {
                username: Some("x".repeat(65536)),
                password: None,
                will: None,
                client_id: ClientId::ServerGenerated,
                keep_alive: std::time::Duration::from_secs(70000),
            },
            &mut bytes,
        )
        .unwrap_err();
    assert!(matches!(err, EncodeError::KeepAliveTooHigh(_)));
    assert!(bytes.is_empty());

    // A keep-alive is sent in whole seconds.
    assert_eq!(
        encode(Packet::Connect {
            username: None,
            password: None,
            will: None,
            client_id: ClientId::ServerGenerated,
            keep_alive: std::time::Duration::from_millis(4999),
        }),
        &[0x10, 0x0C, 0x00, 0x04, b'M', b'Q', b'T', b'T', 0x04, 0x02, 0x00, 0x04, 0x00, 0x00]
    );
}

#[test]
fn round_trip_publish() {
    round_trip(
        Packet::Publish {
            packet_identifier_dup_qos: PacketIdentifierDupQoS::AtMostOnce,
            retain: false,
            topic_name: "a/b".to_string(),
            payload: vec![0xDE, 0xAD],
        },
        &[0x30, 0x07, 0x00, 0x03, b'a', b'/', b'b', 0xDE, 0xAD],
    );
    round_trip(
        Packet::Publish {
            packet_identifier_dup_qos: PacketIdentifierDupQoS::AtLeastOnce(id(10), true),
            retain: true,
            topic_name: "t".to_string(),
            payload: vec![],
        },
        &[0x3B, 0x05, 0x00, 0x01, b't', 0x00, 0x0A],
    );
    round_trip(
        Packet::Publish {
            packet_identifier_dup_qos: PacketIdentifierDupQoS::AtLeastOnce(id(10), false),
            retain: false,
            topic_name: "t".to_string(),
            payload: vec![1],
        },
        &[0x32, 0x06, 0x00, 0x01, b't', 0x00, 0x0A, 1],
    );
    round_trip(
        Packet::Publish {
            packet_identifier_dup_qos: PacketIdentifierDupQoS::ExactlyOnce(id(0x1234), true),
            retain: false,
            topic_name: "é".to_string(),
            payload: vec![7],
        },
        &[0x3C, 0x07, 0x00, 0x02, 0xC3, 0xA9, 0x12, 0x34, 7],
    );
    round_trip(
        Packet::Publish {
            packet_identifier_dup_qos: PacketIdentifierDupQoS::ExactlyOnce(id(1), false),
            retain: true,
            topic_name: "".to_string(),
            payload: vec![],
        },
        &[0x35, 0x04, 0x00, 0x00, 0x00, 0x01],
    );
}

#[test]
fn publish_is_validated() {
    assert!(matches!(
        decode(&[0x38, 0x03, 0x00, 0x01, b't']),
        Err(DecodeError::PublishDupAtMostOnce)
    ));
    assert!(matches!(
        decode(&[0x36, 0x05, 0x00, 0x01, b't', 0x00, 0x01]),
        Err(DecodeError::UnrecognizedQoS(3))
    ));
    assert!(matches!(
        decode(&[0x32, 0x05, 0x00, 0x01, b't', 0x00, 0x00]),
        Err(DecodeError::ZeroPacketIdentifier)
    ));
    // A QoS above 0 without a packet identifier.
    assert!(matches!(
        decode(&[0x32, 0x03, 0x00, 0x01, b't']),
        Err(DecodeError::IncompletePacket)
    ));
    assert!(matches!(
        decode(&[0x30, 0x03, 0x00, 0x01, 0xFF]),
        Err(DecodeError::StringNotUtf8(_))
    ));
    assert!(matches!(
        decode(&[0x30, 0x01, 0x00]),
        Err(DecodeError::IncompletePacket)
    ));
}

#[test]
fn round_trip_subscriptions() {
    round_trip(
        Packet::Subscribe {
            packet_identifier: id(1),
            subscribe_to: vec![
                SubscribeTo {
                    topic_filter: "a".to_string(),
                    qos: QoS::AtMostOnce,
                },
                SubscribeTo {
                    topic_filter: "bc".to_string(),
                    qos: QoS::ExactlyOnce,
                },
            ],
        },
        &[
            0x82, 0x0B, 0x00, 0x01, 0x00, 0x01, b'a', 0x00, 0x00, 0x02, b'b', b'c', 0x02,
        ],
    );
    round_trip(
        Packet::Unsubscribe {
            packet_identifier: id(2),
            unsubscribe_from: vec!["a".to_string(), "bc".to_string()],
        },
        &[0xA2, 0x09, 0x00, 0x02, 0x00, 0x01, b'a', 0x00, 0x02, b'b', b'c'],
    );
    round_trip(
        Packet::SubAck {
            packet_identifier: id(3),
            qos: vec![
                SubAckQos::Success(QoS::AtMostOnce),
                SubAckQos::Success(QoS::AtLeastOnce),
                SubAckQos::Success(QoS::ExactlyOnce),
                SubAckQos::Failure,
            ],
        },
        &[0x90, 0x06, 0x00, 0x03, 0x00, 0x01, 0x02, 0x80],
    );
    round_trip(
        Packet::SubAck {
            packet_identifier: id(3),
            qos: vec![],
        },
        &[0x90, 0x02, 0x00, 0x03],
    );
}

#[test]
fn subscriptions_are_validated() {
    assert!(matches!(
        decode(&[0x82, 0x02, 0x00, 0x01]),
        Err(DecodeError::NoTopics)
    ));
    assert!(matches!(
        decode(&[0xA2, 0x02, 0x00, 0x01]),
        Err(DecodeError::NoTopics)
    ));
    assert!(matches!(
        decode(&[0x82, 0x06, 0x00, 0x01, 0x00, 0x01, b'a', 0x03]),
        Err(DecodeError::UnrecognizedQoS(3))
    ));
    assert!(matches!(
        decode(&[0x90, 0x03, 0x00, 0x01, 0x03]),
        Err(DecodeError::UnrecognizedQoS(3))
    ));
    assert!(matches!(
        decode(&[0x90, 0x03, 0x00, 0x00, 0x00]),
        Err(DecodeError::ZeroPacketIdentifier)
    ));
    assert!(matches!(
        decode(&[0x82, 0x05, 0x00, 0x01, 0x00, 0x01, b'a']),
        Err(DecodeError::IncompletePacket)
    ));
}

#[test]
fn reserved_bits_are_enforced() {
    assert!(matches!(
        decode(&[0x61, 0x02, 0x00, 0x05]),
        Err(DecodeError::UnrecognizedPacket {
            packet_type: 0x60,
            flags: 0x01,
            remaining_length: 2
        })
    ));
    assert!(matches!(
        decode(&[0x80, 0x05, 0x00, 0x01, 0x00, 0x00, 0x00]),
        Err(DecodeError::UnrecognizedPacket {
            packet_type: 0x80,
            flags: 0x00,
            remaining_length: 5
        })
    ));
    assert!(matches!(
        decode(&[0xC0, 0x01, 0x00]),
        Err(DecodeError::UnrecognizedPacket {
            packet_type: 0xC0,
            flags: 0x00,
            remaining_length: 1
        })
    ));
    assert!(matches!(
        decode(&[0x00, 0x00]),
        Err(DecodeError::UnrecognizedPacket {
            packet_type: 0x00,
            flags: 0x00,
            remaining_length: 0
        })
    ));
    assert!(matches!(
        decode(&[0xF0, 0x00]),
        Err(DecodeError::UnrecognizedPacket {
            packet_type: 0xF0,
            flags: 0x00,
            remaining_length: 0
        })
    ));
    assert!(matches!(
        decode(&[0x40, 0x03, 0x00, 0x05, 0x00]),
        Err(DecodeError::UnrecognizedPacket {
            packet_type: 0x40,
            flags: 0x00,
            remaining_length: 3
        })
    ));
}

#[test]
fn packets_arrive_in_pieces() {
    let whole = [
        0x3B_u8, 0x05, 0x00, 0x01, b't', 0x00, 0x0A, 0xC0, 0x00,
    ];
    for split in 0..=6 {
        let mut codec = PacketCodec::default();
        let mut bytes = bytes::BytesMut::from(&whole[..split]);
        assert_eq!(codec.decode(&mut bytes).unwrap(), None);
        bytes.extend_from_slice(&whole[split..]);
        assert_eq!(
            codec.decode(&mut bytes).unwrap(),
            Some(Packet::Publish {
                packet_identifier_dup_qos: PacketIdentifierDupQoS::AtLeastOnce(id(10), true),
                retain: true,
                topic_name: "t".to_string(),
                payload: vec![],
            })
        );
        assert_eq!(codec.decode(&mut bytes).unwrap(), Some(Packet::PingReq));
        assert_eq!(codec.decode(&mut bytes).unwrap(), None);
        assert!(bytes.is_empty());
    }
}

#[test]
fn longer_than_necessary_remaining_length_is_accepted() {
    assert_eq!(
        decode(&[0x40, 0x82, 0x00, 0x00, 0x07]).unwrap(),
        Some(Packet::PubAck {
            packet_identifier: id(7)
        })
    );
    assert!(matches!(
        decode(&[0x40, 0x80, 0x80, 0x80, 0x80, 0x00]),
        Err(DecodeError::RemainingLengthTooHigh)
    ));
}

#[test]
fn encode_appends() {
    let mut bytes = bytes::BytesMut::from(&[0x11_u8, 0x22, 0x33, 0x44][..]);
    PacketCodec::default()
        .encode(Packet::PingReq, &mut bytes)
        .unwrap();
    PacketCodec::default()
        .encode(
            Packet::PubAck {
                packet_identifier: id(1),
            },
            &mut bytes,
        )
        .unwrap();
    assert_eq!(
        &*bytes,
        &[0x11_u8, 0x22, 0x33, 0x44, 0xC0, 0x00, 0x40, 0x02, 0x00, 0x01][..]
    );
}

#[test]
fn long_packets() {
    let payload = vec![0x55_u8; 200];
    let encoded = encode(Packet::Publish {
        packet_identifier_dup_qos: PacketIdentifierDupQoS::AtMostOnce,
        retain: false,
        topic_name: "t".to_string(),
        payload: payload.clone(),
    });
    assert_eq!(&encoded[..6], &[0x30, 0xCB, 0x01, 0x00, 0x01, b't']);
    assert_eq!(encoded.len(), 3 + 203);
    assert_eq!(
        decode(&encoded).unwrap(),
        Some(Packet::Publish {
            packet_identifier_dup_qos: PacketIdentifierDupQoS::AtMostOnce,
            retain: false,
            topic_name: "t".to_string(),
            payload,
        })
    );

    let mut bytes = bytes::BytesMut::from(&[0x01_u8][..]);
    let err = PacketCodec::default()
        .encode(
            Packet::Publish {
                packet_identifier_dup_qos: PacketIdentifierDupQoS::AtMostOnce,
                retain: false,
                topic_name: "t".to_string(),
                payload: vec![0; 0x0FFF_FFFF - 2],
            },
            &mut bytes,
        )
        .unwrap_err();
    assert!(matches!(err, EncodeError::RemainingLengthTooHigh(0x1000_0000)));
    assert_eq!(&*bytes, &[0x01_u8][..]);
}

#[test]
fn utf8_strings() {
    let mut bytes = bytes::BytesMut::new();
    Utf8StringCodec::default()
        .encode("héllo".to_string(), &mut bytes)
        .unwrap();
    assert_eq!(&*bytes, &[0x00_u8, 0x06, b'h', 0xC3, 0xA9, b'l', b'l', b'o'][..]);
    bytes.extend_from_slice(&[0x00]);
    let mut codec = Utf8StringCodec::default();
    assert_eq!(codec.decode(&mut bytes).unwrap(), Some("héllo".to_string()));
    assert_eq!(&*bytes, &[0x00_u8][..]);
    assert_eq!(codec.decode(&mut bytes).unwrap(), None);
    assert_eq!(&*bytes, &[0x00_u8][..]);
    bytes.extend_from_slice(&[0x02, b'o']);
    assert_eq!(codec.decode(&mut bytes).unwrap(), None);
    assert_eq!(&*bytes, &[b'o'][..]);
    bytes.extend_from_slice(&[b'k', b'!']);
    assert_eq!(codec.decode(&mut bytes).unwrap(), Some("ok".to_string()));
    assert_eq!(&*bytes, &[b'!'][..]);

    let mut bytes = bytes::BytesMut::from(&[0x00_u8, 0x02, 0xC3, 0x28, 0x07][..]);
    assert!(matches!(
        Utf8StringCodec::default().decode(&mut bytes),
        Err(DecodeError::StringNotUtf8(_))
    ));
    assert_eq!(&*bytes, &[0x07_u8][..]);

    let mut bytes = bytes::BytesMut::from(&[0x09_u8][..]);
    let err = Utf8StringCodec::default()
        .encode("x".repeat(65536), &mut bytes)
        .unwrap_err();
    assert!(matches!(err, EncodeError::StringTooLarge(65536)));
    assert_eq!(&*bytes, &[0x09_u8][..]);
    Utf8StringCodec::default()
        .encode("y".repeat(65535), &mut bytes)
        .unwrap();
    assert_eq!(bytes.len(), 1 + 2 + 65535);
    assert_eq!(&bytes[..4], &[0x09_u8, 0xFF, 0xFF, b'y'][..]);
}

fn read_back(bytes: &[u8]) -> Vec<u8> {
    let packet = decode(bytes).unwrap().unwrap();
    let written = encode(packet.clone());
    assert_eq!(decode(&written).unwrap().unwrap(), packet);
    written
}

#[test]
fn what_is_read_is_written_and_read_again() {
    // A length in more bytes than it needs is written in the fewest.
    assert_eq!(read_back(&[0xC0, 0x80, 0x00]), [0xC0, 0x00]);
    assert_eq!(read_back(&[0x40, 0x82, 0x80, 0x00, 0x12, 0x34]), [0x40, 0x02, 0x12, 0x34]);
    // The flags of a will that is not there are dropped, and so is what follows the last
    // field of a CONNECT packet.
    assert_eq!(
        read_back(&[
            0x10, 0x0F, 0x00, 0x04, b'M', b'Q', b'T', b'T', 0x04, 0x3A, 0x00, 0x05, 0x00, 0x01,
            b'a', 0xEE, 0xFF,
        ]),
        [0x10, 0x0D, 0x00, 0x04, b'M', b'Q', b'T', b'T', 0x04, 0x02, 0x00, 0x05, 0x00, 0x01, b'a']
    );
    // An empty client ID stands for one that the server generates, and asks for a clean
    // session when it is written.
    assert_eq!(
        read_back(&[0x10, 0x0C, 0x00, 0x04, b'M', b'Q', b'T', b'T', 0x04, 0x00, 0x00, 0x05, 0x00, 0x00]),
        [0x10, 0x0C, 0x00, 0x04, b'M', b'Q', b'T', b'T', 0x04, 0x02, 0x00, 0x05, 0x00, 0x00]
    );
    // The other packets are written as the bytes that they were read from.
    let publish = [0x3D, 0x07, 0x00, 0x01, b't', 0x00, 0x09, b'h', b'i'];
    assert_eq!(read_back(&publish), publish);
    let subscribe = [0x82, 0x0A, 0x00, 0x01, 0x00, 0x01, b'a', 0x01, 0x00, 0x01, b'b', 0x02];
    assert_eq!(read_back(&subscribe), subscribe);
    let suback = [0x90, 0x05, 0x00, 0x01, 0x00, 0x80, 0x02];
    assert_eq!(read_back(&suback), suback);
    let connack = [0x20, 0x02, 0x01, 0x17];
    assert_eq!(read_back(&connack), connack);
}
