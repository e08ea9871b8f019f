use mqtt::client::connect::{first_back_off, Action, Outcome};
use mqtt::client::engine::{Closure, Farewell};
use mqtt::proto::{
    ClientId, ConnectReturnCode, ConnectionRefusedReason, EncodeError, Packet, PacketCodec,
    PacketIdentifier, PacketIdentifierDupQoS, Publication, QoS, SubAckQos, SubscribeTo,
};
use mqtt::{
    Client, Error, Event, PublishError, ReceivedPublication, ShutdownError, SubscriptionUpdate,
    UpdateSubscriptionError,
};
use std::collections::VecDeque;

/// A single step in the connection between a client and a server
#[derive(Debug)]
enum TestConnectionStep {
    Receives(Packet),
    Sends(Packet),
}

/// Sends a packet over the wire: through the encoder and back through the decoder.
fn over_the_wire(packet: Packet) -> Packet {
    let mut codec = PacketCodec::default();
    let mut bytes = bytes::BytesMut::new();
    codec.encode(packet, &mut bytes).unwrap();
    let packet = codec.decode(&mut bytes).unwrap().unwrap();
    assert!(bytes.is_empty());
    packet
}

fn server_receives(steps: &mut VecDeque<TestConnectionStep>, packet: Packet) {
    match steps.pop_front() {
        Some(TestConnectionStep::Receives(expected)) => {
            assert_eq!(expected, over_the_wire(packet));
        }
        other => panic!(
            "client wrote {:?} to server but server wants {:?}",
            packet, other
        ),
    }
}

/// Runs the client against a server that pretends to be a real MQTT server.
///
/// Each element of `server_steps` represents a single connection between the client and server. The element contains
/// an ordered sequence of what packets the server expects to send or receive in that connection.
///
/// When the connection is broken by the server, the current element is dropped. When the client reconnects,
/// it is served based on the next element. The run ends when the client asks for a connection and none is left.
/// Each connection's packets must have been used up completely before that connection was dropped.
///
/// Time does not pass by itself: where the client has nothing to send and the server waits for a packet,
/// the clock is put forward to the time of the next ping.
fn run(
    client: &mut Client<u32>,
    server_steps: Vec<Vec<TestConnectionStep>>,
    expected: Vec<Event>,
) -> Vec<u32> {
    let mut expected = expected.into_iter();
    let mut connections = server_steps.into_iter();
    let mut steps: VecDeque<TestConnectionStep> = VecDeque::new();
    let mut now: u128 = 0;
    let mut outcome = None;
    let mut acks = vec![];

    loop {
        let action = client.engine().unwrap().connect(outcome.take());
        match action {
            Action::BackOff(back_off) => {
                now += back_off.as_nanos();
                outcome = Some(Outcome::BackedOff);
            }

            Action::Connect => {
                assert!(
                    steps.is_empty(),
                    "connection broken while there were still steps remaining on the server"
                );
                match connections.next() {
                    Some(connection) => {
                        steps = connection.into();
                        outcome = Some(Outcome::IoConnected);
                    }
                    None => break,
                }
            }

            Action::Send(packet) => {
                server_receives(&mut steps, packet);
                outcome = Some(Outcome::ConnectSent);
            }

            Action::Flush => outcome = Some(Outcome::Flushed),

            Action::Receive => match steps.pop_front() {
                Some(TestConnectionStep::Sends(packet)) => {
                    outcome = Some(Outcome::Received(over_the_wire(packet)));
                }
                Some(step) => panic!(
                    "client is reading from server but server wants {:?}",
                    step
                ),
                None => outcome = Some(Outcome::Closed),
            },

            Action::Connected {
                new_connection,
                reset_session,
            } => {
                if new_connection {
                    let event = client
                        .engine()
                        .unwrap()
                        .new_connection(reset_session)
                        .unwrap();
                    assert_eq!(expected.next(), Some(event));
                }

                let engine = client.engine().unwrap();
                while let Some(packet) = engine.packet_to_send() {
                    server_receives(&mut steps, packet);
                }

                let packet = match steps.front() {
                    Some(TestConnectionStep::Sends(_)) => match steps.pop_front() {
                        Some(TestConnectionStep::Sends(packet)) => Some(over_the_wire(packet)),
                        _ => unreachable!(),
                    },
                    Some(TestConnectionStep::Receives(_)) => {
                        if let Some(due) = engine.next_ping() {
                            now = due;
                        }
                        None
                    }
                    None => {
                        client.failed(Error::ServerClosedConnection);
                        continue;
                    }
                };

                match engine.received(packet, now, &mut acks) {
                    Ok(Some(event)) => assert_eq!(expected.next(), Some(event)),
                    Ok(None) => (),
                    Err(err) => client.failed(err),
                }
            }
        }
    }

    acks
}

fn id(raw: u16) -> PacketIdentifier {
    PacketIdentifier::new(raw).unwrap()
}

fn connect(client_id: ClientId) -> TestConnectionStep {
    TestConnectionStep::Receives(Packet::Connect {
        username: None,
        password: None,
        will: None,
        client_id,
        keep_alive: std::time::Duration::from_secs(4),
    })
}

fn connack(session_present: bool) -> TestConnectionStep {
    TestConnectionStep::Sends(Packet::ConnAck {
        session_present,
        return_code: ConnectReturnCode::Accepted,
    })
}

fn new_client(client_id: Option<&str>) -> Client<u32> {
    Client::new(
        client_id.map(ToOwned::to_owned),
        None,
        None,
        None,
        std::time::Duration::from_secs(0),
        std::time::Duration::from_secs(4),
    )
}

fn subscribe_to(topic_filter: &str, qos: QoS) -> SubscribeTo {
    SubscribeTo {
        topic_filter: topic_filter.to_string(),
        qos,
    }
}

#[test]
fn server_generated_id_can_connect_and_idle() {
    let mut client = new_client(None);

    run(
        &mut client,
        vec![
            vec![
                TestConnectionStep::Receives(Packet::Connect {
                    username: None,
                    password: None,
                    will: None,
                    client_id: ClientId::ServerGenerated,
                    keep_alive: std::time::Duration::from_secs(4),
                }),
                TestConnectionStep::Sends(Packet::ConnAck {
                    session_present: false,
                    return_code: ConnectReturnCode::Accepted,
                }),
                TestConnectionStep::Receives(Packet::PingReq),
                TestConnectionStep::Sends(Packet::PingResp),
                TestConnectionStep::Receives(Packet::PingReq),
                TestConnectionStep::Sends(Packet::PingResp),
            ],
            vec![
                TestConnectionStep::Receives(Packet::Connect {
                    username: None,
                    password: None,
                    will: None,
                    client_id: ClientId::ServerGenerated,
                    keep_alive: std::time::Duration::from_secs(4),
                }),
                TestConnectionStep::Sends(Packet::ConnAck {
                    session_present: false,
                    return_code: ConnectReturnCode::Accepted,
                }),
                TestConnectionStep::Receives(Packet::PingReq),
                TestConnectionStep::Sends(Packet::PingResp),
                TestConnectionStep::Receives(Packet::PingReq),
                TestConnectionStep::Sends(Packet::PingResp),
            ],
        ],
        vec![
            Event::NewConnection {
                reset_session: true,
            },
            Event::NewConnection {
                reset_session: true,
            },
        ],
    );
}

#[test]
fn client_id_can_connect_and_idle() {
    let mut client = new_client(Some("idle_client_id"));

    run(
        &mut client,
        vec![
            vec![
                TestConnectionStep::Receives(Packet::Connect {
                    username: None,
                    password: None,
                    will: None,
                    client_id: ClientId::IdWithCleanSession("idle_client_id".to_string()),
                    keep_alive: std::time::Duration::from_secs(4),
                }),
                TestConnectionStep::Sends(Packet::ConnAck {
                    session_present: false,
                    return_code: ConnectReturnCode::Accepted,
                }),
                TestConnectionStep::Receives(Packet::PingReq),
                TestConnectionStep::Sends(Packet::PingResp),
                TestConnectionStep::Receives(Packet::PingReq),
                TestConnectionStep::Sends(Packet::PingResp),
            ],
            vec![
                TestConnectionStep::Receives(Packet::Connect {
                    username: None,
                    password: None,
                    will: None,
                    client_id: ClientId::IdWithExistingSession("idle_client_id".to_string()),
                    keep_alive: std::time::Duration::from_secs(4),
                }),
                TestConnectionStep::Sends(Packet::ConnAck {
                    // The clean session bit also determines if the *current* session should be persisted.
                    // So when the previous session requested a clean session, the server would not persist *that* session either.
                    // So this second session will still have `session_present == false`
                    session_present: false,
                    return_code: ConnectReturnCode::Accepted,
                }),
                TestConnectionStep::Receives(Packet::PingReq),
                TestConnectionStep::Sends(Packet::PingResp),
                TestConnectionStep::Receives(Packet::PingReq),
                TestConnectionStep::Sends(Packet::PingResp),
            ],
            vec![
                TestConnectionStep::Receives(Packet::Connect {
                    username: None,
                    password: None,
                    will: None,
                    client_id: ClientId::IdWithExistingSession("idle_client_id".to_string()),
                    keep_alive: std::time::Duration::from_secs(4),
                }),
                TestConnectionStep::Sends(Packet::ConnAck {
                    session_present: true,
                    return_code: ConnectReturnCode::Accepted,
                }),
                TestConnectionStep::Receives(Packet::PingReq),
                TestConnectionStep::Sends(Packet::PingResp),
                TestConnectionStep::Receives(Packet::PingReq),
                TestConnectionStep::Sends(Packet::PingResp),
            ],
        ],
        vec![
            Event::NewConnection {
                reset_session: true,
            },
            Event::NewConnection {
                reset_session: true,
            },
            Event::NewConnection {
                reset_session: false,
            },
        ],
    );
}

fn three_topics() -> Vec<SubscribeTo> {
    vec![
        SubscribeTo {
            topic_filter: "topic1".to_string(),
            qos: QoS::AtMostOnce,
        },
        SubscribeTo {
            topic_filter: "topic2".to_string(),
            qos: QoS::AtLeastOnce,
        },
        SubscribeTo {
            topic_filter: "topic3".to_string(),
            qos: QoS::ExactlyOnce,
        },
    ]
}

fn three_topics_acked() -> Event {
    Event::SubscriptionUpdates(vec![
        SubscriptionUpdate::Subscribe(SubscribeTo {
            topic_filter: "topic1".to_string(),
            qos: QoS::AtMostOnce,
        }),
        SubscriptionUpdate::Subscribe(SubscribeTo {
            topic_filter: "topic2".to_string(),
            qos: QoS::AtLeastOnce,
        }),
        SubscriptionUpdate::Subscribe(SubscribeTo {
            topic_filter: "topic3".to_string(),
            qos: QoS::ExactlyOnce,
        }),
    ])
}

fn subscribes_to_three_topics(client_id: ClientId, packet_identifier: u16) -> Vec<TestConnectionStep> {
    vec![
        TestConnectionStep::Receives(Packet::Connect {
            username: None,
            password: None,
            will: None,
            client_id,
            keep_alive: std::time::Duration::from_secs(4),
        }),
        TestConnectionStep::Sends(Packet::ConnAck {
            session_present: false,
            return_code: ConnectReturnCode::Accepted,
        }),
        TestConnectionStep::Receives(Packet::Subscribe {
            packet_identifier: PacketIdentifier::new(packet_identifier).unwrap(),
            subscribe_to: three_topics(),
        }),
        TestConnectionStep::Sends(Packet::SubAck {
            packet_identifier: PacketIdentifier::new(packet_identifier).unwrap(),
            qos: vec![
                SubAckQos::Success(QoS::AtMostOnce),
                SubAckQos::Success(QoS::AtLeastOnce),
                SubAckQos::Success(QoS::ExactlyOnce),
            ],
        }),
        TestConnectionStep::Receives(Packet::PingReq),
        TestConnectionStep::Sends(Packet::PingResp),
    ]
}

#[test]
fn server_generated_id_must_always_resubscribe() {
    let mut client = new_client(None);
    client
        .subscribe(SubscribeTo {
            topic_filter: "topic1".to_string(),
            qos: QoS::AtMostOnce,
        })
        .unwrap();
    client
        .subscribe(SubscribeTo {
            topic_filter: "topic2".to_string(),
            qos: QoS::AtLeastOnce,
        })
        .unwrap();
    client
        .subscribe(SubscribeTo {
            topic_filter: "topic3".to_string(),
            qos: QoS::ExactlyOnce,
        })
        .unwrap();

    run(
        &mut client,
        vec![
            subscribes_to_three_topics(ClientId::ServerGenerated, 1),
            subscribes_to_three_topics(ClientId::ServerGenerated, 2),
        ],
        vec![
            Event::NewConnection {
                reset_session: true,
            },
            three_topics_acked(),
            Event::NewConnection {
                reset_session: true,
            },
            three_topics_acked(),
            Event::NewConnection {
                reset_session: false,
            },
            three_topics_acked(),
        ],
    );
}

#[test]
fn client_id_should_not_resubscribe_when_session_is_present() {
    let mut client = new_client(Some("idle_client_id"));
    client
        .subscribe(SubscribeTo {
            topic_filter: "topic1".to_string(),
            qos: QoS::AtMostOnce,
        })
        .unwrap();
    client
        .subscribe(SubscribeTo {
            topic_filter: "topic2".to_string(),
            qos: QoS::AtLeastOnce,
        })
        .unwrap();
    client
        .subscribe(SubscribeTo {
            topic_filter: "topic3".to_string(),
            qos: QoS::ExactlyOnce,
        })
        .unwrap();

    run(
        &mut client,
        vec![
            subscribes_to_three_topics(
                ClientId::IdWithCleanSession("idle_client_id".to_string()),
                1,
            ),
            // The clean session bit also determines if the *current* session should be persisted.
            // So when the previous session requested a clean session, the server would not persist *that* session either.
            // So this second session will still have `session_present == false`
            subscribes_to_three_topics(
                ClientId::IdWithExistingSession("idle_client_id".to_string()),
                2,
            ),
            vec![
                TestConnectionStep::Receives(Packet::Connect {
                    username: None,
                    password: None,
                    will: None,
                    client_id: ClientId::IdWithExistingSession("idle_client_id".to_string()),
                    keep_alive: std::time::Duration::from_secs(4),
                }),
                TestConnectionStep::Sends(Packet::ConnAck {
                    session_present: true,
                    return_code: ConnectReturnCode::Accepted,
                }),
                TestConnectionStep::Receives(Packet::PingReq),
                TestConnectionStep::Sends(Packet::PingResp),
            ],
        ],
        vec![
            Event::NewConnection {
                reset_session: true,
            },
            three_topics_acked(),
            Event::NewConnection {
                reset_session: true,
            },
            three_topics_acked(),
            Event::NewConnection {
                reset_session: false,
            },
        ],
    );
}

#[test]
fn should_combine_pending_subscription_updates() {
    let mut client = new_client(None);
    client
        .subscribe(SubscribeTo {
            topic_filter: "topic1".to_string(),
            qos: QoS::AtMostOnce,
        })
        .unwrap();
    client
        .subscribe(SubscribeTo {
            topic_filter: "topic2".to_string(),
            qos: QoS::AtLeastOnce,
        })
        .unwrap();
    client
        .subscribe(SubscribeTo {
            topic_filter: "topic3".to_string(),
            qos: QoS::ExactlyOnce,
        })
        .unwrap();
    client
        .subscribe(SubscribeTo {
            topic_filter: "topic1".to_string(),
            qos: QoS::AtLeastOnce,
        })
        .unwrap();
    client.unsubscribe("topic2".to_string()).unwrap();

    run(
        &mut client,
        vec![vec![
            TestConnectionStep::Receives(Packet::Connect {
                username: None,
                password: None,
                will: None,
                client_id: ClientId::ServerGenerated,
                keep_alive: std::time::Duration::from_secs(4),
            }),
            TestConnectionStep::Sends(Packet::ConnAck {
                session_present: false,
                return_code: ConnectReturnCode::Accepted,
            }),
            TestConnectionStep::Receives(Packet::Subscribe {
                packet_identifier: PacketIdentifier::new(1).unwrap(),
                subscribe_to: vec![
                    SubscribeTo {
                        topic_filter: "topic1".to_string(),
                        qos: QoS::AtLeastOnce,
                    },
                    SubscribeTo {
                        topic_filter: "topic3".to_string(),
                        qos: QoS::ExactlyOnce,
                    },
                ],
            }),
            TestConnectionStep::Sends(Packet::SubAck {
                packet_identifier: PacketIdentifier::new(1).unwrap(),
                qos: vec![
                    SubAckQos::Success(QoS::AtLeastOnce),
                    SubAckQos::Success(QoS::ExactlyOnce),
                ],
            }),
            TestConnectionStep::Receives(Packet::PingReq),
            TestConnectionStep::Sends(Packet::PingResp),
        ]],
        vec![
            Event::NewConnection {
                reset_session: true,
            },
            Event::SubscriptionUpdates(vec![
                SubscriptionUpdate::Subscribe(SubscribeTo {
                    topic_filter: "topic1".to_string(),
                    qos: QoS::AtLeastOnce,
                }),
                SubscriptionUpdate::Subscribe(SubscribeTo {
                    topic_filter: "topic3".to_string(),
                    qos: QoS::ExactlyOnce,
                }),
            ]),
        ],
    );
}

#[test]
fn subscribe_then_unsubscribe_sends_nothing() {
    let mut client = new_client(None);
    client.subscribe(subscribe_to("topic1", QoS::AtLeastOnce)).unwrap();
    client.unsubscribe("topic1".to_string()).unwrap();

    run(
        &mut client,
        vec![vec![
            connect(ClientId::ServerGenerated),
            connack(false),
            TestConnectionStep::Receives(Packet::PingReq),
            TestConnectionStep::Sends(Packet::PingResp),
        ]],
        vec![Event::NewConnection {
            reset_session: true,
        }],
    );
}

#[test]
fn subscribe_twice_sends_the_second() {
    let mut client = new_client(None);
    client.subscribe(subscribe_to("topic1", QoS::AtMostOnce)).unwrap();
    client.subscribe(subscribe_to("topic1", QoS::ExactlyOnce)).unwrap();

    run(
        &mut client,
        vec![vec![
            connect(ClientId::ServerGenerated),
            connack(false),
            TestConnectionStep::Receives(Packet::Subscribe {
                packet_identifier: id(1),
                subscribe_to: vec![subscribe_to("topic1", QoS::ExactlyOnce)],
            }),
            TestConnectionStep::Sends(Packet::SubAck {
                packet_identifier: id(1),
                qos: vec![SubAckQos::Success(QoS::ExactlyOnce)],
            }),
        ]],
        vec![
            Event::NewConnection {
                reset_session: true,
            },
            Event::SubscriptionUpdates(vec![SubscriptionUpdate::Subscribe(subscribe_to(
                "topic1",
                QoS::ExactlyOnce,
            ))]),
        ],
    );
}

#[test]
fn unsubscribe_goes_out_after_subscribe_in_order_of_topics() {
    let mut client = new_client(Some("c"));
    client.subscribe(subscribe_to("b", QoS::AtMostOnce)).unwrap();
    client.subscribe(subscribe_to("a", QoS::AtMostOnce)).unwrap();
    client.subscribe(subscribe_to("B", QoS::AtMostOnce)).unwrap();
    client.subscribe(subscribe_to("ab", QoS::AtMostOnce)).unwrap();
    client.subscribe(subscribe_to("é", QoS::AtMostOnce)).unwrap();

    let sorted = vec![
        subscribe_to("B", QoS::AtMostOnce),
        subscribe_to("a", QoS::AtMostOnce),
        subscribe_to("ab", QoS::AtMostOnce),
        subscribe_to("b", QoS::AtMostOnce),
        subscribe_to("é", QoS::AtMostOnce),
    ];

    run(
        &mut client,
        vec![vec![
            connect(ClientId::IdWithCleanSession("c".to_string())),
            connack(false),
            TestConnectionStep::Receives(Packet::Subscribe {
                packet_identifier: id(1),
                subscribe_to: sorted.clone(),
            }),
            TestConnectionStep::Sends(Packet::SubAck {
                packet_identifier: id(1),
                qos: vec![SubAckQos::Success(QoS::AtMostOnce); 5],
            }),
        ]],
        vec![
            Event::NewConnection {
                reset_session: true,
            },
            Event::SubscriptionUpdates(
                sorted
                    .iter()
                    .cloned()
                    .map(SubscriptionUpdate::Subscribe)
                    .collect(),
            ),
        ],
    );

    client.unsubscribe("b".to_string()).unwrap();
    client.unsubscribe("B".to_string()).unwrap();
    client.subscribe(subscribe_to("a", QoS::AtLeastOnce)).unwrap();
    client.subscribe(subscribe_to("0", QoS::AtLeastOnce)).unwrap();
    client.unsubscribe("never".to_string()).unwrap();

    run(
        &mut client,
        vec![vec![
            connect(ClientId::IdWithExistingSession("c".to_string())),
            connack(true),
            TestConnectionStep::Receives(Packet::Subscribe {
                packet_identifier: id(2),
                subscribe_to: vec![
                    subscribe_to("0", QoS::AtLeastOnce),
                    subscribe_to("a", QoS::AtLeastOnce),
                ],
            }),
            TestConnectionStep::Receives(Packet::Unsubscribe {
                packet_identifier: id(3),
                unsubscribe_from: vec!["B".to_string(), "b".to_string()],
            }),
            TestConnectionStep::Sends(Packet::SubAck {
                packet_identifier: id(2),
                qos: vec![
                    SubAckQos::Success(QoS::ExactlyOnce),
                    SubAckQos::Success(QoS::AtLeastOnce),
                ],
            }),
            TestConnectionStep::Sends(Packet::UnsubAck {
                packet_identifier: id(3),
            }),
        ]],
        vec![
            Event::NewConnection {
                reset_session: false,
            },
            Event::SubscriptionUpdates(vec![
                SubscriptionUpdate::Subscribe(subscribe_to("0", QoS::ExactlyOnce)),
                SubscriptionUpdate::Subscribe(subscribe_to("a", QoS::AtLeastOnce)),
            ]),
            Event::SubscriptionUpdates(vec![
                SubscriptionUpdate::Unsubscribe("B".to_string()),
                SubscriptionUpdate::Unsubscribe("b".to_string()),
            ]),
        ],
    );
}

fn publication(topic_name: &str, qos: QoS, payload: &[u8]) -> Publication {
    Publication {
        topic_name: topic_name.to_string(),
        qos,
        retain: false,
        payload: payload.to_vec(),
    }
}

fn publish(delivery: PacketIdentifierDupQoS, topic_name: &str, payload: &[u8]) -> Packet {
    Packet::Publish {
        packet_identifier_dup_qos: delivery,
        retain: false,
        topic_name: topic_name.to_string(),
        payload: payload.to_vec(),
    }
}

#[test]
fn publications_are_acknowledged_as_their_qos_asks() {
    let mut client = new_client(Some("c"));
    client.publish(publication("t0", QoS::AtMostOnce, b"zero"), 10).unwrap();
    client.publish(publication("t1", QoS::AtLeastOnce, b"one"), 11).unwrap();
    client.publish(publication("t2", QoS::ExactlyOnce, b"two"), 12).unwrap();

    // The message of QoS 0 is acknowledged once it is queued.
    let acks = run(
        &mut client,
        vec![vec![
            connect(ClientId::IdWithCleanSession("c".to_string())),
            connack(false),
            TestConnectionStep::Receives(publish(PacketIdentifierDupQoS::AtMostOnce, "t0", b"zero")),
            TestConnectionStep::Receives(publish(
                PacketIdentifierDupQoS::AtLeastOnce(id(1), false),
                "t1",
                b"one",
            )),
            TestConnectionStep::Receives(publish(
                PacketIdentifierDupQoS::ExactlyOnce(id(2), false),
                "t2",
                b"two",
            )),
        ]],
        vec![Event::NewConnection {
            reset_session: true,
        }],
    );
    assert_eq!(acks, vec![10]);

    // The session goes on: what is not acknowledged is sent again, marked as a duplicate.
    let acks = run(
        &mut client,
        vec![vec![
            connect(ClientId::IdWithExistingSession("c".to_string())),
            connack(true),
            TestConnectionStep::Receives(publish(
                PacketIdentifierDupQoS::AtLeastOnce(id(1), true),
                "t1",
                b"one",
            )),
            TestConnectionStep::Receives(publish(
                PacketIdentifierDupQoS::ExactlyOnce(id(2), true),
                "t2",
                b"two",
            )),
            TestConnectionStep::Sends(Packet::PubRec {
                packet_identifier: id(2),
            }),
            TestConnectionStep::Receives(Packet::PubRel {
                packet_identifier: id(2),
            }),
            TestConnectionStep::Sends(Packet::PubAck {
                packet_identifier: id(1),
            }),
        ]],
        vec![Event::NewConnection {
            reset_session: false,
        }],
    );
    assert_eq!(acks, vec![11]);

    // The server is told again to release the message that waits for its completion, behind
    // the messages that wait for their acknowledgement, and new messages go behind that.
    client.publish(publication("t3", QoS::AtLeastOnce, b"three"), 13).unwrap();
    let acks = run(
        &mut client,
        vec![vec![
            connect(ClientId::IdWithExistingSession("c".to_string())),
            connack(true),
            TestConnectionStep::Receives(Packet::PubRel {
                packet_identifier: id(2),
            }),
            TestConnectionStep::Receives(publish(
                PacketIdentifierDupQoS::AtLeastOnce(id(3), false),
                "t3",
                b"three",
            )),
            TestConnectionStep::Sends(Packet::PubComp {
                packet_identifier: id(2),
            }),
            TestConnectionStep::Sends(Packet::PubAck {
                packet_identifier: id(3),
            }),
            // Acknowledgements of what was never sent are passed over.
            TestConnectionStep::Sends(Packet::PubAck {
                packet_identifier: id(9),
            }),
            TestConnectionStep::Sends(Packet::PubComp {
                packet_identifier: id(9),
            }),
            TestConnectionStep::Sends(Packet::PubRec {
                packet_identifier: id(9),
            }),
            TestConnectionStep::Receives(Packet::PubRel {
                packet_identifier: id(9),
            }),
        ]],
        vec![Event::NewConnection {
            reset_session: false,
        }],
    );
    assert_eq!(acks, vec![12, 13]);
}

#[test]
fn reset_session_restarts_exactly_once_flows() {
    let mut client = new_client(Some("c"));
    client.publish(publication("t2", QoS::ExactlyOnce, b"two"), 1).unwrap();
    client.publish(publication("t1", QoS::AtLeastOnce, b"one"), 2).unwrap();

    run(
        &mut client,
        vec![
            vec![
                connect(ClientId::IdWithCleanSession("c".to_string())),
                connack(false),
                TestConnectionStep::Receives(publish(
                    PacketIdentifierDupQoS::ExactlyOnce(id(1), false),
                    "t2",
                    b"two",
                )),
                TestConnectionStep::Receives(publish(
                    PacketIdentifierDupQoS::AtLeastOnce(id(2), false),
                    "t1",
                    b"one",
                )),
                TestConnectionStep::Sends(Packet::PubRec {
                    packet_identifier: id(1),
                }),
                TestConnectionStep::Receives(Packet::PubRel {
                    packet_identifier: id(1),
                }),
                TestConnectionStep::Sends(publish(
                    PacketIdentifierDupQoS::ExactlyOnce(id(7), false),
                    "in",
                    b"bound",
                )),
                TestConnectionStep::Receives(Packet::PubRec {
                    packet_identifier: id(7),
                }),
            ],
            // The server has lost the session: the flow of QoS 2 starts again with its PUBLISH,
            // in the order of the packet identifiers, and the message from the server is forgotten.
            vec![
                connect(ClientId::IdWithExistingSession("c".to_string())),
                connack(false),
                TestConnectionStep::Receives(publish(
                    PacketIdentifierDupQoS::ExactlyOnce(id(1), true),
                    "t2",
                    b"two",
                )),
                TestConnectionStep::Receives(publish(
                    PacketIdentifierDupQoS::AtLeastOnce(id(2), true),
                    "t1",
                    b"one",
                )),
                TestConnectionStep::Sends(Packet::PubRel {
                    packet_identifier: id(7),
                }),
                TestConnectionStep::Receives(Packet::PubComp {
                    packet_identifier: id(7),
                }),
            ],
        ],
        vec![
            Event::NewConnection {
                reset_session: true,
            },
            Event::NewConnection {
                reset_session: true,
            },
        ],
    );
}

#[test]
fn inbound_publications() {
    let mut client = new_client(Some("c"));
    run(
        &mut client,
        vec![vec![
            connect(ClientId::IdWithCleanSession("c".to_string())),
            connack(false),
            TestConnectionStep::Sends(Packet::Publish {
                packet_identifier_dup_qos: PacketIdentifierDupQoS::AtMostOnce,
                retain: true,
                topic_name: "a".to_string(),
                payload: vec![1],
            }),
            TestConnectionStep::Sends(publish(
                PacketIdentifierDupQoS::AtLeastOnce(id(4), true),
                "b",
                b"2",
            )),
            TestConnectionStep::Receives(Packet::PubAck {
                packet_identifier: id(4),
            }),
            TestConnectionStep::Sends(publish(
                PacketIdentifierDupQoS::ExactlyOnce(id(5), false),
                "c",
                b"3",
            )),
            TestConnectionStep::Receives(Packet::PubRec {
                packet_identifier: id(5),
            }),
            // The same message again, marked as a duplicate: the PUBREC is sent once more.
            TestConnectionStep::Sends(publish(
                PacketIdentifierDupQoS::ExactlyOnce(id(5), true),
                "c",
                b"3",
            )),
            TestConnectionStep::Receives(Packet::PubRec {
                packet_identifier: id(5),
            }),
            TestConnectionStep::Sends(Packet::PubRel {
                packet_identifier: id(5),
            }),
            TestConnectionStep::Receives(Packet::PubComp {
                packet_identifier: id(5),
            }),
        ]],
        vec![
            Event::NewConnection {
                reset_session: true,
            },
            Event::Publication(ReceivedPublication {
                topic_name: "a".to_string(),
                dup: false,
                qos: QoS::AtMostOnce,
                retain: true,
                payload: vec![1],
            }),
            Event::Publication(ReceivedPublication {
                topic_name: "b".to_string(),
                dup: true,
                qos: QoS::AtLeastOnce,
                retain: false,
                payload: b"2".to_vec(),
            }),
            Event::Publication(ReceivedPublication {
                topic_name: "c".to_string(),
                dup: false,
                qos: QoS::ExactlyOnce,
                retain: false,
                payload: b"3".to_vec(),
            }),
        ],
    );
}

#[test]
fn duplicate_exactly_once_publish_not_marked_duplicate_fails() {
    let mut client = new_client(Some("c"));
    let mut acks = vec![];
    let engine = client.engine().unwrap();
    assert_eq!(
        engine
            .received(
                Some(publish(PacketIdentifierDupQoS::ExactlyOnce(id(5), false), "c", b"3")),
                0,
                &mut acks
            )
            .unwrap(),
        None
    );
    assert_eq!(
        engine.packet_to_send(),
        Some(Packet::PubRec {
            packet_identifier: id(5)
        })
    );
    let err = engine
        .received(
            Some(publish(PacketIdentifierDupQoS::ExactlyOnce(id(5), false), "c", b"3")),
            0,
            &mut acks,
        )
        .unwrap_err();
    assert!(matches!(
        err,
        Error::DuplicateExactlyOncePublishPacketNotMarkedDuplicate(packet_identifier)
            if packet_identifier.get() == 5
    ));
    assert!(!err.is_user_error());
    assert!(!err.session_is_resumable());
    assert_eq!(engine.packet_to_send(), None);

    // Marked as a duplicate, the message is passed over and the PUBREC sent once more.
    assert_eq!(
        engine
            .received(
                Some(publish(PacketIdentifierDupQoS::ExactlyOnce(id(5), true), "c", b"3")),
                0,
                &mut acks
            )
            .unwrap(),
        None
    );
    assert_eq!(
        engine.packet_to_send(),
        Some(Packet::PubRec {
            packet_identifier: id(5)
        })
    );
    assert_eq!(engine.packet_to_send(), None);
}

#[test]
fn refused_connection_backs_off() {
    let mut client: Client<u32> = Client::new(
        Some("c".to_string()),
        Some("user".to_string()),
        Some("secret".to_string()),
        Some(publication("will", QoS::AtLeastOnce, b"gone")),
        std::time::Duration::from_secs(5),
        std::time::Duration::from_secs(4),
    );
    let engine = client.engine().unwrap();
    assert!(matches!(engine.connect(None), Action::Connect));
    // An outcome of another action changes nothing.
    assert!(matches!(engine.connect(Some(Outcome::Flushed)), Action::Connect));
    assert!(matches!(engine.connect(Some(Outcome::IoFailed)), Action::Connect));
    assert!(matches!(
        engine.connect(Some(Outcome::IoFailed)),
        Action::BackOff(back_off) if back_off == std::time::Duration::from_secs(1)
    ));
    assert!(matches!(
        engine.connect(None),
        Action::BackOff(back_off) if back_off == std::time::Duration::from_secs(1)
    ));
    assert!(matches!(engine.connect(Some(Outcome::BackedOff)), Action::Connect));
    assert!(matches!(
        engine.connect(Some(Outcome::IoFailed)),
        Action::BackOff(back_off) if back_off == std::time::Duration::from_secs(2)
    ));
    assert!(matches!(engine.connect(Some(Outcome::BackedOff)), Action::Connect));
    assert!(matches!(
        engine.connect(Some(Outcome::IoFailed)),
        Action::BackOff(back_off) if back_off == std::time::Duration::from_secs(4)
    ));
    assert!(matches!(engine.connect(Some(Outcome::BackedOff)), Action::Connect));
    // The back-off is capped.
    assert!(matches!(
        engine.connect(Some(Outcome::IoFailed)),
        Action::BackOff(back_off) if back_off == std::time::Duration::from_secs(5)
    ));
    assert!(matches!(engine.connect(Some(Outcome::BackedOff)), Action::Connect));
    match engine.connect(Some(Outcome::IoConnected)) {
        Action::Send(packet) => assert_eq!(
            packet,
            Packet::Connect {
                username: Some("user".to_string()),
                password: Some("secret".to_string()),
                will: Some(publication("will", QoS::AtLeastOnce, b"gone")),
                client_id: ClientId::IdWithCleanSession("c".to_string()),
                keep_alive: std::time::Duration::from_secs(4),
            }
        ),
        action => panic!("{:?}", action),
    }
    assert!(matches!(engine.connect(Some(Outcome::ConnectSent)), Action::Flush));
    assert!(matches!(engine.connect(Some(Outcome::Flushed)), Action::Receive));
    assert!(matches!(
        engine.connect(Some(Outcome::Received(Packet::ConnAck {
            session_present: false,
            return_code: ConnectReturnCode::Refused(ConnectionRefusedReason::ServerUnavailable),
        }))),
        Action::BackOff(back_off) if back_off == std::time::Duration::from_secs(5)
    ));
    assert!(matches!(engine.connect(Some(Outcome::BackedOff)), Action::Connect));
    assert!(matches!(engine.connect(Some(Outcome::IoConnected)), Action::Send(_)));
    assert!(matches!(engine.connect(Some(Outcome::ConnectSent)), Action::Flush));
    assert!(matches!(engine.connect(Some(Outcome::Flushed)), Action::Receive));
    // Anything but a CONNACK is a failure.
    assert!(matches!(
        engine.connect(Some(Outcome::Received(Packet::PingResp))),
        Action::BackOff(_)
    ));
    assert!(matches!(engine.connect(Some(Outcome::BackedOff)), Action::Connect));
    assert!(matches!(engine.connect(Some(Outcome::IoConnected)), Action::Send(_)));
    assert!(matches!(engine.connect(Some(Outcome::ConnectSent)), Action::Flush));
    assert!(matches!(engine.connect(Some(Outcome::Flushed)), Action::Receive));
    assert!(matches!(
        engine.connect(Some(Outcome::Received(Packet::ConnAck {
            session_present: false,
            return_code: ConnectReturnCode::Accepted,
        }))),
        Action::Connected {
            new_connection: true,
            reset_session: true
        }
    ));
    assert!(matches!(
        engine.connect(None),
        Action::Connected {
            new_connection: false,
            reset_session: false
        }
    ));
    // An accepted connection resets the back-off: the next attempt is made at once, the one
    // after it a second later.
    client.failed(Error::ServerClosedConnection);
    let engine = client.engine().unwrap();
    assert!(matches!(engine.connect(None), Action::Connect));
    assert!(matches!(
        engine.connect(Some(Outcome::IoFailed)),
        Action::BackOff(back_off) if back_off == std::time::Duration::from_secs(1)
    ));
    assert!(matches!(engine.connect(Some(Outcome::BackedOff)), Action::Connect));
    match engine.connect(Some(Outcome::IoConnected)) {
        Action::Send(Packet::Connect { client_id, .. }) => assert_eq!(
            client_id,
            ClientId::IdWithExistingSession("c".to_string())
        ),
        action => panic!("{:?}", action),
    }
}

#[test]
fn errors_are_classified() {
    let timed_out = Error::DecodePacket(mqtt::proto::DecodeError::Io(
        std::io::ErrorKind::TimedOut.into(),
    ));
    assert!(!timed_out.is_user_error());
    assert!(timed_out.session_is_resumable());
    let broken = Error::DecodePacket(mqtt::proto::DecodeError::Io(
        std::io::ErrorKind::BrokenPipe.into(),
    ));
    assert!(!broken.session_is_resumable());
    assert!(!Error::DecodePacket(mqtt::proto::DecodeError::NoTopics).session_is_resumable());
    assert!(Error::ServerClosedConnection.session_is_resumable());
    assert!(!Error::PacketIdentifiersExhausted.session_is_resumable());
    assert!(!Error::SubscriptionRejectedByServer.session_is_resumable());
    assert!(Error::EncodePacket(EncodeError::StringTooLarge(70000)).is_user_error());
    assert!(!Error::EncodePacket(EncodeError::Io(std::io::ErrorKind::BrokenPipe.into()))
        .is_user_error());
    assert!(!Error::PingTimer(mqtt::client::TimerError::Shutdown).is_user_error());

    // An error after which the session cannot go on makes the client ask for a clean session.
    let mut client = new_client(Some("c"));
    run(
        &mut client,
        vec![vec![
            connect(ClientId::IdWithCleanSession("c".to_string())),
            connack(false),
            TestConnectionStep::Sends(Packet::SubAck {
                packet_identifier: id(1),
                qos: vec![],
            }),
        ]],
        vec![Event::NewConnection {
            reset_session: true,
        }],
    );
    let engine = client.engine().unwrap();
    match engine.connect(Some(Outcome::IoConnected)) {
        Action::Send(Packet::Connect { client_id, .. }) => {
            assert_eq!(client_id, ClientId::IdWithCleanSession("c".to_string()))
        }
        action => panic!("{:?}", action),
    }
}

#[test]
fn unexpected_acknowledgements() {
    let mut client = new_client(None);
    let mut acks = vec![];
    let engine = client.engine().unwrap();
    assert!(matches!(
        engine.received(Some(Packet::UnsubAck { packet_identifier: id(3) }), 0, &mut acks),
        Err(Error::UnexpectedUnsubAck(packet_identifier, mqtt::client::UnexpectedSubUnsubAckReason::DidNotExpect))
            if packet_identifier.get() == 3
    ));
    engine.update_subscription(SubscriptionUpdate::Subscribe(subscribe_to("a", QoS::AtLeastOnce)));
    assert_eq!(engine.received(None, 0, &mut acks).unwrap(), None);
    assert_eq!(
        engine.packet_to_send(),
        Some(Packet::Subscribe {
            packet_identifier: id(1),
            subscribe_to: vec![subscribe_to("a", QoS::AtLeastOnce)],
        })
    );
    assert!(matches!(
        engine.received(Some(Packet::UnsubAck { packet_identifier: id(1) }), 0, &mut acks),
        Err(Error::UnexpectedUnsubAck(_, mqtt::client::UnexpectedSubUnsubAckReason::ExpectedSubAck(expected)))
            if expected.get() == 1
    ));
    assert!(matches!(
        engine.received(
            Some(Packet::SubAck { packet_identifier: id(2), qos: vec![SubAckQos::Failure] }),
            0,
            &mut acks
        ),
        Err(Error::UnexpectedSubAck(got, mqtt::client::UnexpectedSubUnsubAckReason::Expected(expected)))
            if got.get() == 2 && expected.get() == 1
    ));
    assert!(matches!(
        engine.received(
            Some(Packet::SubAck { packet_identifier: id(1), qos: vec![] }),
            0,
            &mut acks
        ),
        Err(Error::SubAckDoesNotContainEnoughQoS(packet_identifier, 1, 0))
            if packet_identifier.get() == 1
    ));
    // The server grants less than was asked for.
    assert!(matches!(
        engine.received(
            Some(Packet::SubAck {
                packet_identifier: id(1),
                qos: vec![SubAckQos::Success(QoS::AtMostOnce)]
            }),
            0,
            &mut acks
        ),
        Err(Error::SubscriptionDowngraded(topic, QoS::AtLeastOnce, QoS::AtMostOnce)) if topic == "a"
    ));
    // The subscription is kept with the QoS that was asked for, so that nothing is pending.
    assert_eq!(engine.received(None, 0, &mut acks).unwrap(), None);
    assert_eq!(engine.packet_to_send(), None);

    engine.update_subscription(SubscriptionUpdate::Subscribe(subscribe_to("b", QoS::ExactlyOnce)));
    engine.update_subscription(SubscriptionUpdate::Unsubscribe("a".to_string()));
    assert_eq!(engine.received(None, 0, &mut acks).unwrap(), None);
    assert_eq!(
        engine.packet_to_send(),
        Some(Packet::Subscribe {
            packet_identifier: id(2),
            subscribe_to: vec![subscribe_to("b", QoS::ExactlyOnce)],
        })
    );
    assert_eq!(
        engine.packet_to_send(),
        Some(Packet::Unsubscribe {
            packet_identifier: id(3),
            unsubscribe_from: vec!["a".to_string()],
        })
    );
    assert!(matches!(
        engine.received(
            Some(Packet::SubAck { packet_identifier: id(2), qos: vec![SubAckQos::Failure] }),
            0,
            &mut acks
        ),
        Err(Error::SubscriptionRejectedByServer)
    ));
    assert!(matches!(
        engine.received(
            Some(Packet::SubAck { packet_identifier: id(3), qos: vec![] }),
            0,
            &mut acks
        ),
        Err(Error::UnexpectedSubAck(_, mqtt::client::UnexpectedSubUnsubAckReason::ExpectedUnsubAck(expected)))
            if expected.get() == 3
    ));
    assert_eq!(
        engine
            .received(Some(Packet::UnsubAck { packet_identifier: id(3) }), 0, &mut acks)
            .unwrap(),
        Some(Event::SubscriptionUpdates(vec![SubscriptionUpdate::Unsubscribe(
            "a".to_string()
        )]))
    );
}

#[test]
fn pings_keep_their_pace() {
    let mut client = new_client(None);
    let mut acks = vec![];
    let engine = client.engine().unwrap();
    let second: u128 = 1_000_000_000;
    assert_eq!(engine.next_ping(), None);
    assert_eq!(engine.received(None, 10 * second, &mut acks).unwrap(), None);
    assert_eq!(engine.next_ping(), Some(12 * second));
    assert_eq!(engine.packet_to_send(), None);
    assert_eq!(engine.received(None, 12 * second - 1, &mut acks).unwrap(), None);
    assert_eq!(engine.packet_to_send(), None);
    // The ping is late, and the next one is due two seconds after this one was.
    assert_eq!(engine.received(None, 13 * second, &mut acks).unwrap(), None);
    assert_eq!(engine.packet_to_send(), Some(Packet::PingReq));
    assert_eq!(engine.next_ping(), Some(14 * second));
    // A PINGRESP puts the next ping two seconds from now.
    assert_eq!(
        engine
            .received(Some(Packet::PingResp), 13 * second + 5, &mut acks)
            .unwrap(),
        None
    );
    assert_eq!(engine.packet_to_send(), None);
    assert_eq!(engine.next_ping(), Some(15 * second + 5));
    assert_eq!(mqtt::client::ping::deadline(7, std::time::Duration::from_secs(3)), 1_500_000_007);
    assert_eq!(
        mqtt::client::ping::deadline(u128::MAX - 1, std::time::Duration::from_secs(3)),
        u128::MAX
    );
}

#[test]
fn packets_not_sent_go_back_to_the_front() {
    let mut client = new_client(None);
    let mut acks = vec![];
    let engine = client.engine().unwrap();
    engine.publish(publication("a", QoS::AtMostOnce, b"1"), 1);
    engine.publish(publication("b", QoS::AtMostOnce, b"2"), 2);
    assert_eq!(engine.received(None, 0, &mut acks).unwrap(), None);
    assert_eq!(acks, vec![1, 2]);
    let first = engine.packet_to_send().unwrap();
    assert_eq!(first, publish(PacketIdentifierDupQoS::AtMostOnce, "a", b"1"));
    engine.packet_not_sent(first);
    assert_eq!(
        engine.packet_to_send(),
        Some(publish(PacketIdentifierDupQoS::AtMostOnce, "a", b"1"))
    );
    assert_eq!(
        engine.packet_to_send(),
        Some(publish(PacketIdentifierDupQoS::AtMostOnce, "b", b"2"))
    );
    assert_eq!(engine.packet_to_send(), None);
}

#[test]
fn shutdown() {
    let mut client = new_client(None);
    assert!(client.is_up());
    assert!(client.shutting_down(None, None).is_none());
    run(
        &mut client,
        vec![vec![connect(ClientId::ServerGenerated), connack(false)]],
        vec![Event::NewConnection {
            reset_session: true,
        }],
    );
    // The run ends when the client asks for a second connection.
    assert_eq!(client.shutdown(), Ok(()));
    assert!(!client.is_up());
    assert_eq!(client.shutdown(), Err(ShutdownError::ClientDoesNotExist));
    assert_eq!(
        client.publish(publication("a", QoS::AtMostOnce, b"1"), 1),
        Err(PublishError::ClientDoesNotExist)
    );
    assert_eq!(
        client.subscribe(subscribe_to("a", QoS::AtMostOnce)),
        Err(UpdateSubscriptionError::ClientDoesNotExist)
    );
    assert_eq!(
        client.unsubscribe("a".to_string()),
        Err(UpdateSubscriptionError::ClientDoesNotExist)
    );
    assert!(client.engine().is_none());
    assert_eq!(ShutdownError::ClientDoesNotExist.message(), "client does not exist");
    assert_eq!(PublishError::ClientDoesNotExist.message(), "client does not exist");
    assert_eq!(
        UpdateSubscriptionError::ClientDoesNotExist.message(),
        "client does not exist"
    );
    // The client has no connection: it shuts down at once.
    assert!(matches!(
        client.shutting_down(None, None),
        Some(Closure::End(None))
    ));
    assert!(matches!(
        client.shutting_down(None, None),
        Some(Closure::End(None))
    ));

    // A client with a connection says goodbye.
    let mut client = new_client(None);
    let engine = client.engine().unwrap();
    assert!(matches!(engine.connect(None), Action::Connect));
    assert!(matches!(engine.connect(Some(Outcome::IoConnected)), Action::Send(_)));
    assert!(matches!(engine.connect(Some(Outcome::ConnectSent)), Action::Flush));
    assert!(matches!(engine.connect(Some(Outcome::Flushed)), Action::Receive));
    client.shutdown().unwrap();
    assert!(matches!(
        client.shutting_down(
            Some(Outcome::Received(Packet::ConnAck {
                session_present: false,
                return_code: ConnectReturnCode::Accepted,
            })),
            None
        ),
        Some(Closure::SendDisconnect)
    ));
    assert!(matches!(
        client.shutting_down(None, None),
        Some(Closure::SendDisconnect)
    ));
    assert!(matches!(
        client.shutting_down(None, Some(Farewell::Sent)),
        Some(Closure::Flush)
    ));
    assert!(matches!(
        client.shutting_down(None, None),
        Some(Closure::Flush)
    ));
    assert!(matches!(
        client.shutting_down(None, Some(Farewell::Flushed)),
        Some(Closure::End(None))
    ));

    // An error that is the caller's ends the client, and is handed out once.
    let mut client = new_client(None);
    client.failed(Error::EncodePacket(EncodeError::StringTooLarge(70000)));
    assert!(!client.is_up());
    assert!(matches!(
        client.shutting_down(None, None),
        Some(Closure::End(Some(Error::EncodePacket(EncodeError::StringTooLarge(70000)))))
    ));
    assert!(matches!(
        client.shutting_down(None, None),
        Some(Closure::End(None))
    ));
}

#[test]
fn back_off_is_never_longer_than_allowed() {
    assert_eq!(first_back_off(std::time::Duration::from_secs(0)), std::time::Duration::from_secs(0));
    assert_eq!(first_back_off(std::time::Duration::from_millis(300)), std::time::Duration::from_millis(300));
    assert_eq!(first_back_off(std::time::Duration::from_secs(1)), std::time::Duration::from_secs(1));
    assert_eq!(first_back_off(std::time::Duration::from_secs(30)), std::time::Duration::from_secs(1));

    // A client that may not back off at all connects again at once, however often it fails.
    let mut client: Client<u32> =
        Client::new(None, None, None, None, std::time::Duration::from_secs(0), std::time::Duration::from_secs(4));
    let engine = client.engine().unwrap();
    assert!(matches!(engine.connect(None), Action::Connect));
    for _ in 0..5 {
        assert!(matches!(engine.connect(Some(Outcome::IoFailed)), Action::Connect));
    }

    // One that may back off for a second at most does so from the second failure on.
    let mut client: Client<u32> =
        Client::new(None, None, None, None, std::time::Duration::from_secs(1), std::time::Duration::from_secs(4));
    let engine = client.engine().unwrap();
    assert!(matches!(engine.connect(None), Action::Connect));
    assert!(matches!(engine.connect(Some(Outcome::IoFailed)), Action::Connect));
    for _ in 0..3 {
        assert!(matches!(
            engine.connect(Some(Outcome::IoFailed)),
            Action::BackOff(back_off) if back_off == std::time::Duration::from_secs(1)
        ));
        assert!(matches!(engine.connect(Some(Outcome::BackedOff)), Action::Connect));
    }
}
