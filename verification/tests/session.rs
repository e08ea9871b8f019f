use mqtt::client::publish::State as PublishMachine;
use mqtt::client::subscriptions::State as SubscriptionsMachine;
use mqtt::client::PacketIdentifiers;
use mqtt::proto::{
    Packet, PacketIdentifier, PacketIdentifierDupQoS, Publication, QoS, SubscribeTo,
};
use mqtt::{Error, SubscriptionUpdate};

fn id(raw: u16) -> PacketIdentifier {
    PacketIdentifier::new(raw).unwrap()
}

fn publication(topic_name: &str, qos: QoS) -> Publication {
    Publication {
        topic_name: topic_name.to_string(),
        qos,
        retain: false,
        payload: vec![],
    }
}

#[test]
fn allocator_searches_for_a_free_identifier() {
    let mut packet_identifiers = PacketIdentifiers::new();
    assert!(!packet_identifiers.is_reserved(id(1)));
    for expected in 1..=65535_u16 {
        assert_eq!(packet_identifiers.reserve().unwrap().get(), expected);
        assert!(packet_identifiers.is_reserved(id(expected)));
    }
    assert!(matches!(
        packet_identifiers.reserve(),
        Err(Error::PacketIdentifiersExhausted)
    ));
    // The search starts behind the identifier handed out last, and wraps around.
    packet_identifiers.discard(id(7));
    packet_identifiers.discard(id(65000));
    assert!(!packet_identifiers.is_reserved(id(7)));
    assert_eq!(packet_identifiers.reserve().unwrap().get(), 7);
    assert_eq!(packet_identifiers.reserve().unwrap().get(), 65000);
    assert!(matches!(
        packet_identifiers.reserve(),
        Err(Error::PacketIdentifiersExhausted)
    ));
    packet_identifiers.discard(id(64999));
    packet_identifiers.discard(id(65001));
    assert_eq!(packet_identifiers.reserve().unwrap().get(), 65001);
    assert_eq!(packet_identifiers.reserve().unwrap().get(), 64999);
    // To give back an identifier that is not in use changes nothing.
    let mut packet_identifiers = PacketIdentifiers::new();
    packet_identifiers.reserve().unwrap();
    let before = packet_identifiers.in_use().to_vec();
    packet_identifiers.discard(id(2));
    packet_identifiers.discard(id(65535));
    assert_eq!(packet_identifiers.in_use(), &before[..]);
    assert_eq!(packet_identifiers.reserve().unwrap().get(), 2);
    assert_eq!(PacketIdentifiers::entry(id(1)), (0, 2));
    assert_eq!(
        PacketIdentifiers::entry(id(65535)),
        (PacketIdentifiers::SIZE - 1, 1 << (usize::BITS - 1))
    );
}

#[test]
fn publish_machine_waits_for_a_free_identifier() {
    let mut packet_identifiers = PacketIdentifiers::new();
    for _ in 1..=65534_u16 {
        packet_identifiers.reserve().unwrap();
    }
    let mut machine: PublishMachine<u8> = PublishMachine::new();
    machine.publish(publication("a", QoS::AtMostOnce), 1);
    machine.publish(publication("b", QoS::AtLeastOnce), 2);
    machine.publish(publication("c", QoS::ExactlyOnce), 3);
    machine.publish(publication("d", QoS::AtMostOnce), 4);
    let mut acks = vec![];
    // The last identifier goes to the second message; the third finds none.
    assert!(matches!(
        machine.poll(&mut None, &mut packet_identifiers, &mut acks),
        Err(Error::PacketIdentifiersExhausted)
    ));
    assert_eq!(acks, vec![1]);
    // The third message is still at the front, and goes out once an identifier is free.
    let mut acknowledged = Some(Packet::PubAck {
        packet_identifier: id(65535),
    });
    let (packets, received) = machine
        .poll(&mut acknowledged, &mut packet_identifiers, &mut acks)
        .unwrap();
    assert_eq!(acknowledged, None);
    assert_eq!(received, None);
    assert_eq!(acks, vec![1, 2, 4]);
    assert_eq!(
        packets,
        vec![
            Packet::Publish {
                packet_identifier_dup_qos: PacketIdentifierDupQoS::ExactlyOnce(id(65535), false),
                retain: false,
                topic_name: "c".to_string(),
                payload: vec![],
            },
            Packet::Publish {
                packet_identifier_dup_qos: PacketIdentifierDupQoS::AtMostOnce,
                retain: false,
                topic_name: "d".to_string(),
                payload: vec![],
            },
        ]
    );
    // A packet that is not for the machine is left in place.
    let mut other = Some(Packet::PingResp);
    assert_eq!(
        machine
            .poll(&mut other, &mut packet_identifiers, &mut acks)
            .unwrap(),
        (vec![], None)
    );
    assert_eq!(other, Some(Packet::PingResp));
    // The session goes on: the message is sent again, marked as a duplicate.
    assert_eq!(
        machine.new_connection(false, &mut packet_identifiers),
        vec![Packet::Publish {
            packet_identifier_dup_qos: PacketIdentifierDupQoS::ExactlyOnce(id(65535), true),
            retain: false,
            topic_name: "c".to_string(),
            payload: vec![],
        }]
    );
}

#[test]
fn subscriptions_machine_keeps_what_it_cannot_send() {
    let mut packet_identifiers = PacketIdentifiers::new();
    for _ in 1..=65535_u16 {
        packet_identifiers.reserve().unwrap();
    }
    let subscribe = |topic_filter: &str| {
        SubscriptionUpdate::Subscribe(SubscribeTo {
            topic_filter: topic_filter.to_string(),
            qos: QoS::AtMostOnce,
        })
    };
    let mut machine = SubscriptionsMachine::new();
    machine.update_subscription(subscribe("b"));
    machine.update_subscription(subscribe("a"));
    assert!(matches!(
        machine.poll(&mut None, &mut packet_identifiers),
        Err(Error::PacketIdentifiersExhausted)
    ));
    packet_identifiers.discard(id(300));
    let (packets, events) = machine.poll(&mut None, &mut packet_identifiers).unwrap();
    assert_eq!(events, vec![]);
    assert_eq!(
        packets,
        vec![Packet::Subscribe {
            packet_identifier: id(300),
            subscribe_to: vec![
                SubscribeTo {
                    topic_filter: "a".to_string(),
                    qos: QoS::AtMostOnce,
                },
                SubscribeTo {
                    topic_filter: "b".to_string(),
                    qos: QoS::AtMostOnce,
                },
            ],
        }]
    );
    // The session goes on: what is not acknowledged is sent again under its identifier.
    assert_eq!(
        machine.new_connection(false, &mut packet_identifiers).unwrap(),
        packets
    );
    // The session starts afresh: the identifier is given back, and taken anew for all
    // subscriptions. The search for it starts behind the one handed out last.
    machine.update_subscription(SubscriptionUpdate::Unsubscribe("b".to_string()));
    assert_eq!(
        machine.new_connection(true, &mut packet_identifiers).unwrap(),
        packets
    );
    assert!(packet_identifiers.is_reserved(id(300)));
    // The subscriptions count as acknowledged only once the server says so: until then
    // there is nothing to unsubscribe from.
    let (packets, events) = machine.poll(&mut None, &mut packet_identifiers).unwrap();
    assert_eq!(packets, vec![]);
    assert_eq!(events, vec![]);
}

fn inbound(packet_identifier: u16, dup: bool) -> Option<Packet> {
    Some(Packet::Publish {
        packet_identifier_dup_qos: PacketIdentifierDupQoS::ExactlyOnce(id(packet_identifier), dup),
        retain: false,
        topic_name: "in".to_string(),
        payload: vec![1],
    })
}

#[test]
fn identifiers_of_the_servers_messages_are_in_use() {
    let mut packet_identifiers = PacketIdentifiers::new();
    let mut machine: PublishMachine<u8> = PublishMachine::new();
    let mut acks = vec![];

    // A message of the server that waits for its release has its identifier marked.
    let (packets, received) = machine
        .poll(&mut inbound(1, false), &mut packet_identifiers, &mut acks)
        .unwrap();
    assert_eq!(packets, vec![Packet::PubRec { packet_identifier: id(1) }]);
    assert_eq!(received, None);
    assert!(packet_identifiers.is_marked(id(1)));
    assert!(!packet_identifiers.is_reserved(id(1)));

    // The client does not take an identifier that is marked.
    machine.publish(publication("out", QoS::AtLeastOnce), 7);
    let (packets, _) = machine
        .poll(&mut None, &mut packet_identifiers, &mut acks)
        .unwrap();
    assert_eq!(
        packets,
        vec![Packet::Publish {
            packet_identifier_dup_qos: PacketIdentifierDupQoS::AtLeastOnce(id(2), false),
            retain: false,
            topic_name: "out".to_string(),
            payload: vec![],
        }]
    );
    assert!(packet_identifiers.is_reserved(id(2)));

    // The server may pick an identifier that the client has reserved: then both hold it, and
    // each gives back its own hold alone.
    machine
        .poll(&mut inbound(2, false), &mut packet_identifiers, &mut acks)
        .unwrap();
    assert!(packet_identifiers.is_marked(id(2)));
    assert!(packet_identifiers.is_reserved(id(2)));
    let (packets, received) = machine
        .poll(
            &mut Some(Packet::PubRel { packet_identifier: id(2) }),
            &mut packet_identifiers,
            &mut acks,
        )
        .unwrap();
    assert_eq!(packets, vec![Packet::PubComp { packet_identifier: id(2) }]);
    assert!(received.is_some());
    assert!(!packet_identifiers.is_marked(id(2)));
    assert!(packet_identifiers.is_reserved(id(2)));
    machine
        .poll(&mut inbound(2, false), &mut packet_identifiers, &mut acks)
        .unwrap();
    machine
        .poll(
            &mut Some(Packet::PubAck { packet_identifier: id(2) }),
            &mut packet_identifiers,
            &mut acks,
        )
        .unwrap();
    assert_eq!(acks, vec![7]);
    assert!(packet_identifiers.is_marked(id(2)));
    assert!(!packet_identifiers.is_reserved(id(2)));

    // A PUBREL for a message that does not wait takes no mark off.
    machine
        .poll(
            &mut Some(Packet::PubRel { packet_identifier: id(3) }),
            &mut packet_identifiers,
            &mut acks,
        )
        .unwrap();
    assert!(packet_identifiers.is_marked(id(1)));
    assert!(packet_identifiers.is_marked(id(2)));

    // Where the session goes on, the marks stay; where it starts afresh, they go with the
    // messages.
    assert_eq!(
        machine.new_connection(false, &mut packet_identifiers),
        vec![
            Packet::PubRec { packet_identifier: id(1) },
            Packet::PubRec { packet_identifier: id(2) },
        ]
    );
    assert!(packet_identifiers.is_marked(id(1)));
    assert_eq!(machine.new_connection(true, &mut packet_identifiers), vec![]);
    assert!(!packet_identifiers.is_marked(id(1)));
    assert!(!packet_identifiers.is_marked(id(2)));
    assert_eq!(packet_identifiers.reserve().unwrap().get(), 3);
}

#[test]
fn marks_are_set_and_taken_off() {
    let mut packet_identifiers = PacketIdentifiers::new();
    let words = packet_identifiers.in_use().to_vec();
    packet_identifiers.mark(id(1));
    packet_identifiers.mark(id(2));
    packet_identifiers.mark(id(2));
    packet_identifiers.mark(id(65535));
    assert!(packet_identifiers.is_marked(id(1)));
    assert!(packet_identifiers.is_marked(id(65535)));
    assert!(!packet_identifiers.is_marked(id(3)));
    // A mark is no reservation, and leaves the words of the client's identifiers alone.
    assert!(!packet_identifiers.is_reserved(id(1)));
    assert_eq!(packet_identifiers.in_use(), &words[..]);
    assert_eq!(packet_identifiers.reserve().unwrap().get(), 3);
    packet_identifiers.unmark(id(2));
    packet_identifiers.unmark(id(4));
    assert!(!packet_identifiers.is_marked(id(2)));
    assert!(packet_identifiers.is_marked(id(1)));
    assert_eq!(packet_identifiers.reserve().unwrap().get(), 4);
    packet_identifiers.discard(id(3));
    assert_eq!(packet_identifiers.reserve().unwrap().get(), 5);
    assert_eq!(packet_identifiers.reserve().unwrap().get(), 6);
    // With every other identifier reserved, the marked ones are still not handed out.
    for _ in 7..=65534_u16 {
        packet_identifiers.reserve().unwrap();
    }
    assert_eq!(packet_identifiers.reserve().unwrap().get(), 2);
    assert_eq!(packet_identifiers.reserve().unwrap().get(), 3);
    assert!(matches!(
        packet_identifiers.reserve(),
        Err(Error::PacketIdentifiersExhausted)
    ));
}
