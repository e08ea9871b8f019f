use mqtt::client::engine::ClientState;
use mqtt::client::connect::{Action, Outcome};
use mqtt::iothub::desired::{Message as TwinMessage, Response, State as TwinMachine};
use mqtt::iothub::module::{Client as HubClient, Message};
use mqtt::iothub::reported::{Message as ReportMessage, State as ReportMachine};
use mqtt::iothub::topic::{
    client_id, direct_method, events_topic, method_response_topic, reported_patch_topic,
    twin_get_topic, twin_patch, twin_response, username, websocket_url, InternalMessage,
    InternalTwinStateMessage, MessageParseError, Topics,
};
use mqtt::iothub::{
    client_new, direct_method_response, method_response, Authentication,
    DirectMethodResponseError,
    ReportTwinStateRequest, Status, Transport, TwinProperties, TwinState,
};
use mqtt::proto::{ClientId, Packet, Publication, QoS, SubscribeTo};
use mqtt::{Client, Event, ReceivedPublication, SubscriptionUpdate};

fn received(topic_name: &str, payload: &[u8]) -> ReceivedPublication {
    ReceivedPublication {
        topic_name: topic_name.to_string(),
        dup: false,
        qos: QoS::AtMostOnce,
        retain: false,
        payload: payload.to_vec(),
    }
}

fn json(text: &str) -> serde_json::Value {
    serde_json::from_str(text).unwrap()
}

#[test]
fn status_codes() {
    assert_eq!(Status::from_str("200"), Some(Status::Okay));
    assert_eq!(Status::from_str("204"), Some(Status::NoContent));
    assert_eq!(Status::from_str("400"), Some(Status::BadRequest));
    assert_eq!(Status::from_str("429"), Some(Status::TooManyRequests));
    assert_eq!(Status::from_str("500"), Some(Status::Error(500)));
    assert_eq!(Status::from_str("599"), Some(Status::Error(599)));
    assert_eq!(Status::from_str("600"), Some(Status::Other(600)));
    assert_eq!(Status::from_str("499"), Some(Status::Other(499)));
    assert_eq!(Status::from_str("0"), Some(Status::Other(0)));
    assert_eq!(Status::from_str("+200"), Some(Status::Okay));
    assert_eq!(Status::from_str("0200"), Some(Status::Okay));
    assert_eq!(Status::from_str("4294967295"), Some(Status::Other(4294967295)));
    assert_eq!(Status::from_str("4294967296"), None);
    assert_eq!(Status::from_str(""), None);
    assert_eq!(Status::from_str("+"), None);
    assert_eq!(Status::from_str("-1"), None);
    assert_eq!(Status::from_str("2 0"), None);
    assert_eq!(Status::from_str("٢٠٠"), None);
    assert_eq!(Status::from_code(204), Status::NoContent);
    assert_eq!(Status::from_code(503), Status::Error(503));

    assert_eq!(Status::Okay.to_text(), "200");
    assert_eq!(Status::NoContent.to_text(), "204");
    assert_eq!(Status::BadRequest.to_text(), "400");
    assert_eq!(Status::TooManyRequests.to_text(), "429");
    assert_eq!(Status::Error(503).to_text(), "503");
    assert_eq!(Status::Other(0).to_text(), "0");
    assert_eq!(Status::Other(4294967295).to_text(), "4294967295");
}

#[test]
fn transports_and_errors() {
    assert_eq!(Transport::Tcp.port(), 8883);
    assert_eq!(Transport::WebSocket.port(), 443);
    assert_eq!(
        DirectMethodResponseError::ClientDoesNotExist.message(),
        "client does not exist"
    );
}

#[test]
fn topics_to_publish_to() {
    assert_eq!(twin_get_topic(0), "$iothub/twin/GET/?$rid=0");
    assert_eq!(twin_get_topic(255), "$iothub/twin/GET/?$rid=255");
    assert_eq!(
        reported_patch_topic(17),
        "$iothub/twin/PATCH/properties/reported/?$rid=17"
    );
    assert_eq!(
        method_response_topic(Status::Okay, "abc"),
        "$iothub/methods/res/200/?$rid=abc"
    );
    assert_eq!(
        method_response_topic(Status::Error(504), "1"),
        "$iothub/methods/res/504/?$rid=1"
    );
    assert_eq!(events_topic("dev", None), "devices/dev/messages/events/");
    assert_eq!(
        events_topic("dev", Some("mod")),
        "devices/dev/modules/mod/messages/events/"
    );
    assert_eq!(client_id("dev", None), "dev");
    assert_eq!(client_id("dev", Some("mod")), "dev/mod");
    assert_eq!(
        username("hub.example", "dev", None),
        "hub.example/dev/?api-version=2018-06-30"
    );
    assert_eq!(
        username("hub.example", "dev", Some("mod")),
        "hub.example/dev/mod/?api-version=2018-06-30"
    );
    assert_eq!(
        websocket_url("hub.example"),
        "ws://hub.example/$iothub/websocket"
    );
}

#[test]
fn direct_method_response_is_a_publication() {
    assert_eq!(
        direct_method_response("7", Status::Okay, &json(r#"{"message":"rebooting"}"#)),
        Publication {
            topic_name: "$iothub/methods/res/200/?$rid=7".to_string(),
            qos: QoS::AtLeastOnce,
            retain: false,
            payload: br#"{"message":"rebooting"}"#.to_vec(),
        }
    );
    assert_eq!(
        direct_method_response("x y", Status::BadRequest, &serde_json::Value::Null),
        Publication {
            topic_name: "$iothub/methods/res/400/?$rid=x y".to_string(),
            qos: QoS::AtLeastOnce,
            retain: false,
            payload: b"null".to_vec(),
        }
    );
}

#[test]
fn method_response_carries_the_body_given() {
    assert_eq!(
        method_response("12ab", Status::Error(503), b"{}".to_vec()),
        Publication {
            topic_name: "$iothub/methods/res/503/?$rid=12ab".to_string(),
            qos: QoS::AtLeastOnce,
            retain: false,
            payload: b"{}".to_vec(),
        }
    );
}

#[test]
fn messages_of_the_hub() {
    let topics = Topics::new().unwrap();

    match topics
        .parse(received("$iothub/methods/POST/reboot/?$rid=12ab", br#"{"delay": 5}"#))
        .unwrap()
    {
        InternalMessage::DirectMethod {
            name,
            payload,
            request_id,
        } => {
            assert_eq!(name, "reboot");
            assert_eq!(payload, json(r#"{"delay":5}"#));
            assert_eq!(request_id, "12ab");
        }
        message => panic!("{:?}", message),
    }
    assert!(matches!(
        topics.parse(received("$iothub/methods/POST/reboot/?$rid=1", b"{")),
        Err(MessageParseError::Json(_))
    ));
    // The name of a method holds no slash, and the ID of a request is not empty.
    assert!(matches!(
        topics.parse(received("$iothub/methods/POST/a/b/?$rid=1", b"null")),
        Err(MessageParseError::UnrecognizedMessage)
    ));
    assert!(matches!(
        topics.parse(received("$iothub/methods/POST/a/?$rid=", b"null")),
        Err(MessageParseError::UnrecognizedMessage)
    ));
    assert!(matches!(
        topics.parse(received("x$iothub/methods/POST/a/?$rid=1", b"null")),
        Err(MessageParseError::UnrecognizedMessage)
    ));

    match topics
        .parse(received("$iothub/twin/res/200/?$rid=3", b"body"))
        .unwrap()
    {
        InternalMessage::TwinState(InternalTwinStateMessage::Response {
            status,
            request_id,
            payload,
            version,
        }) => {
            assert_eq!(status, Status::Okay);
            assert_eq!(request_id, 3);
            assert_eq!(payload, b"body");
            assert_eq!(version, None);
        }
        message => panic!("{:?}", message),
    }
    match topics
        .parse(received("$iothub/twin/res/204/?$rid=255&$version=42", b""))
        .unwrap()
    {
        InternalMessage::TwinState(InternalTwinStateMessage::Response {
            status,
            request_id,
            payload,
            version,
        }) => {
            assert_eq!(status, Status::NoContent);
            assert_eq!(request_id, 255);
            assert_eq!(payload, b"");
            assert_eq!(version, Some(42));
        }
        message => panic!("{:?}", message),
    }
    assert!(matches!(
        topics.parse(received("$iothub/twin/res/200/?$rid=256", b"")),
        Err(MessageParseError::ParseResponseRequestId)
    ));
    assert!(matches!(
        topics.parse(received("$iothub/twin/res/99999999999/?$rid=1", b"")),
        Err(MessageParseError::ParseResponseStatus)
    ));
    assert!(matches!(
        topics.parse(received(
            "$iothub/twin/res/200/?$rid=1&$version=99999999999999999999999",
            b""
        )),
        Err(MessageParseError::ParseResponseVersion)
    ));
    assert!(matches!(
        topics.parse(received("$iothub/twin/res/200/?$rid=x", b"")),
        Err(MessageParseError::UnrecognizedMessage)
    ));

    match topics
        .parse(received(
            "$iothub/twin/PATCH/properties/desired/?$version=8",
            br#"{"speed": 3, "$version": 8}"#,
        ))
        .unwrap()
    {
        InternalMessage::TwinState(InternalTwinStateMessage::TwinPatch(properties)) => {
            assert_eq!(properties.version, 8);
            assert_eq!(properties.properties, json(r#"{"speed":3,"$version":8}"#));
        }
        message => panic!("{:?}", message),
    }
    assert!(matches!(
        topics.parse(received(
            "$iothub/twin/PATCH/properties/desired/?$version=8",
            br#"{"speed": 3}"#
        )),
        Err(MessageParseError::Json(_))
    ));
    assert!(matches!(
        topics.parse(received("devices/dev/messages/devicebound/", b"")),
        Err(MessageParseError::UnrecognizedMessage)
    ));
}

#[test]
fn messages_from_what_a_topic_captured() {
    let groups = |groups: &[Option<&str>]| -> Vec<Option<String>> {
        groups.iter().map(|group| group.map(ToOwned::to_owned)).collect()
    };
    assert!(matches!(
        direct_method(&groups(&[Some("all"), Some("name"), Some("rid")]), b"[1]"),
        Ok(InternalMessage::DirectMethod { name, request_id, .. }) if name == "name" && request_id == "rid"
    ));
    assert!(matches!(
        direct_method(&groups(&[Some("all"), None, Some("rid")]), b"[1]"),
        Err(MessageParseError::UnrecognizedMessage)
    ));
    assert!(matches!(
        direct_method(&groups(&[Some("all"), Some("name")]), b"[1]"),
        Err(MessageParseError::UnrecognizedMessage)
    ));
    assert!(matches!(
        direct_method(&groups(&[Some("all"), Some("name"), Some("rid")]), b"[1"),
        Err(MessageParseError::Json(_))
    ));
    assert!(matches!(
        twin_response(&groups(&[Some("all"), Some("429"), Some("9"), None]), vec![1]),
        Ok(InternalMessage::TwinState(InternalTwinStateMessage::Response {
            status: Status::TooManyRequests,
            request_id: 9,
            version: None,
            ..
        }))
    ));
    assert!(matches!(
        twin_response(&groups(&[Some("all"), Some("x"), None, None]), vec![]),
        Err(MessageParseError::UnrecognizedMessage)
    ));
    assert!(matches!(
        twin_response(&groups(&[Some("all"), Some("x"), Some("1"), None]), vec![]),
        Err(MessageParseError::ParseResponseStatus)
    ));
    assert!(matches!(
        twin_response(&groups(&[Some("all"), Some("200"), Some("1")]), vec![]),
        Err(MessageParseError::UnrecognizedMessage)
    ));
    assert!(matches!(
        twin_patch(br#"{"$version": 1}"#),
        Ok(InternalMessage::TwinState(InternalTwinStateMessage::TwinPatch(
            TwinProperties { version: 1, .. }
        )))
    ));
    assert!(matches!(
        twin_patch(br#"{"$version": -1}"#),
        Err(MessageParseError::Json(_))
    ));
    assert!(matches!(twin_patch(b"nope"), Err(MessageParseError::Json(_))));
}

#[test]
fn twins() {
    let twin = json(
        r#"{"desired": {"speed": 3, "$version": 8}, "reported": {"speed": 2, "$version": 5}}"#,
    );
    let state = TwinState::from_value(&twin).unwrap();
    assert_eq!(state.desired.version, 8);
    assert_eq!(state.desired.properties, json(r#"{"speed":3,"$version":8}"#));
    assert_eq!(state.reported.version, 5);
    assert_eq!(state.reported.properties, json(r#"{"speed":2,"$version":5}"#));
    assert!(TwinState::from_value(&json(r#"{"desired": {"$version": 8}}"#)).is_none());
    assert!(TwinState::from_value(&json(
        r#"{"desired": {"$version": 8}, "reported": {"$version": "5"}}"#
    ))
    .is_none());
    assert!(TwinState::from_value(&json("[]")).is_none());
    assert!(TwinProperties::from_value(json(r#"{"$version": 1.5}"#)).is_none());
    assert_eq!(
        TwinProperties::from_value(json(r#"{"$version": 0}"#))
            .unwrap()
            .version,
        0
    );
}

fn response(status: Status, request_id: u8, payload: &[u8]) -> Option<InternalTwinStateMessage> {
    Some(InternalTwinStateMessage::Response {
        status,
        request_id,
        payload: payload.to_vec(),
        version: None,
    })
}

fn patch(version: usize) -> Option<InternalTwinStateMessage> {
    Some(InternalTwinStateMessage::TwinPatch(TwinProperties {
        version,
        properties: json(r#"{"a": 1}"#),
    }))
}

const TWIN: &[u8] = br#"{"desired": {"$version": 8}, "reported": {"$version": 5}}"#;
const SECOND: u128 = 1_000_000_000;

fn get_request(request_id: u8) -> Publication {
    Publication {
        topic_name: format!("$iothub/twin/GET/?$rid={}", request_id),
        qos: QoS::AtMostOnce,
        retain: false,
        payload: vec![],
    }
}

#[test]
fn twin_machine_follows_the_twin() {
    let mut machine = TwinMachine::new(
        std::time::Duration::from_secs(3),
        std::time::Duration::from_secs(5),
    );
    let mut previous_request_id = u8::MAX;
    let mut publications = vec![];
    let mut message = None;

    // The machine asks for the twin.
    assert!(matches!(
        machine.poll(&mut message, &mut previous_request_id, 0, &mut publications),
        Ok(Response::Continue)
    ));
    assert_eq!(previous_request_id, 0);
    assert_eq!(publications, vec![get_request(0)]);
    assert!(matches!(
        machine.poll(&mut message, &mut previous_request_id, 10 * SECOND - 1, &mut publications),
        Ok(Response::NotReady)
    ));
    // A change of the desired properties is not for a machine without the twin.
    let mut message = patch(9);
    assert!(matches!(
        machine.poll(&mut message, &mut previous_request_id, SECOND, &mut publications),
        Ok(Response::NotReady)
    ));
    assert!(message.is_some());
    // Nor is the response to another request.
    let mut message = response(Status::Okay, 1, TWIN);
    assert!(matches!(
        machine.poll(&mut message, &mut previous_request_id, SECOND, &mut publications),
        Ok(Response::NotReady)
    ));
    assert!(message.is_some());
    // After twice the keep-alive time the machine asks again.
    let mut message = None;
    assert!(matches!(
        machine.poll(&mut message, &mut previous_request_id, 10 * SECOND, &mut publications),
        Ok(Response::Continue)
    ));
    assert_eq!(previous_request_id, 1);
    assert_eq!(publications, vec![get_request(0), get_request(1)]);

    // The hub says to try later: the first time the machine asks again at once.
    let mut message = response(Status::TooManyRequests, 1, b"");
    assert!(matches!(
        machine.poll(&mut message, &mut previous_request_id, 11 * SECOND, &mut publications),
        Ok(Response::Continue)
    ));
    assert!(message.is_none());
    assert_eq!(previous_request_id, 2);
    // The second time it waits a second, the third time two, then three at most.
    let mut message = response(Status::Error(503), 2, b"");
    assert!(matches!(
        machine.poll(&mut message, &mut previous_request_id, 12 * SECOND, &mut publications),
        Ok(Response::NotReady)
    ));
    assert!(message.is_none());
    assert!(matches!(
        machine.poll(&mut message, &mut previous_request_id, 13 * SECOND - 1, &mut publications),
        Ok(Response::NotReady)
    ));
    assert_eq!(publications.len(), 3);
    assert!(matches!(
        machine.poll(&mut message, &mut previous_request_id, 13 * SECOND, &mut publications),
        Ok(Response::Continue)
    ));
    assert_eq!(previous_request_id, 3);
    let mut message = response(Status::Error(500), 3, b"");
    assert!(matches!(
        machine.poll(&mut message, &mut previous_request_id, 20 * SECOND, &mut publications),
        Ok(Response::NotReady)
    ));
    let mut message = None;
    assert!(matches!(
        machine.poll(&mut message, &mut previous_request_id, 22 * SECOND - 1, &mut publications),
        Ok(Response::NotReady)
    ));
    assert!(matches!(
        machine.poll(&mut message, &mut previous_request_id, 22 * SECOND, &mut publications),
        Ok(Response::Continue)
    ));
    let mut message = response(Status::TooManyRequests, 4, b"");
    assert!(matches!(
        machine.poll(&mut message, &mut previous_request_id, 30 * SECOND, &mut publications),
        Ok(Response::NotReady)
    ));
    let mut message = None;
    assert!(matches!(
        machine.poll(&mut message, &mut previous_request_id, 33 * SECOND - 1, &mut publications),
        Ok(Response::NotReady)
    ));
    assert!(matches!(
        machine.poll(&mut message, &mut previous_request_id, 33 * SECOND, &mut publications),
        Ok(Response::Continue)
    ));
    assert_eq!(previous_request_id, 5);

    // Another status is an error.
    let mut message = response(Status::BadRequest, 5, b"");
    assert!(matches!(
        machine.poll(&mut message, &mut previous_request_id, 34 * SECOND, &mut publications),
        Err(MessageParseError::IotHubStatus(Status::BadRequest))
    ));
    assert!(message.is_none());
    // A payload that is no twin is an error, and the message is left in place.
    let mut message = response(Status::Okay, 5, b"{}");
    assert!(matches!(
        machine.poll(&mut message, &mut previous_request_id, 34 * SECOND, &mut publications),
        Err(MessageParseError::Json(_))
    ));
    assert!(message.is_some());

    // The twin.
    let mut message = response(Status::Okay, 5, TWIN);
    match machine.poll(&mut message, &mut previous_request_id, 34 * SECOND, &mut publications) {
        Ok(Response::Message(TwinMessage::Initial(twin))) => {
            assert_eq!(twin.desired.version, 8);
            assert_eq!(twin.reported.version, 5);
        }
        other => panic!("{:?}", other),
    }
    assert!(message.is_none());
    assert!(matches!(
        machine.poll(&mut message, &mut previous_request_id, 1000 * SECOND, &mut publications),
        Ok(Response::NotReady)
    ));
    // Changes whose versions follow one another are handed out.
    let mut message = patch(9);
    assert!(matches!(
        machine.poll(&mut message, &mut previous_request_id, 35 * SECOND, &mut publications),
        Ok(Response::Message(TwinMessage::Patch(TwinProperties { version: 9, .. })))
    ));
    let mut message = patch(10);
    assert!(matches!(
        machine.poll(&mut message, &mut previous_request_id, 35 * SECOND, &mut publications),
        Ok(Response::Message(TwinMessage::Patch(TwinProperties { version: 10, .. })))
    ));
    // A gap makes the machine ask for the twin again.
    let requests = publications.len();
    let mut message = patch(12);
    assert!(matches!(
        machine.poll(&mut message, &mut previous_request_id, 36 * SECOND, &mut publications),
        Ok(Response::Continue)
    ));
    assert!(message.is_none());
    assert_eq!(previous_request_id, 6);
    assert_eq!(publications.len(), requests + 1);
    assert_eq!(publications.last(), Some(&get_request(6)));
    // So does a new connection.
    machine.new_connection();
    let mut message = None;
    assert!(matches!(
        machine.poll(&mut message, &mut previous_request_id, 37 * SECOND, &mut publications),
        Ok(Response::Continue)
    ));
    assert_eq!(previous_request_id, 7);

    // The IDs of the requests wrap around.
    let mut previous_request_id = u8::MAX - 1;
    machine.new_connection();
    assert!(matches!(
        machine.poll(&mut message, &mut previous_request_id, 37 * SECOND, &mut publications),
        Ok(Response::Continue)
    ));
    assert_eq!(previous_request_id, 255);
    machine.new_connection();
    assert!(matches!(
        machine.poll(&mut message, &mut previous_request_id, 37 * SECOND, &mut publications),
        Ok(Response::Continue)
    ));
    assert_eq!(previous_request_id, 0);
}

#[test]
fn hub_client_hands_out_messages() {
    let mut client = HubClient::new(
        std::time::Duration::from_secs(3),
        std::time::Duration::from_secs(5),
    )
    .unwrap();
    let mut publications = vec![];

    // While the client waits for the subscriptions, it hands out direct methods only.
    assert!(matches!(
        client.poll(None, 0, &mut publications),
        (None, false)
    ));
    assert!(matches!(
        client.poll(
            Some(Event::NewConnection { reset_session: true }),
            0,
            &mut publications
        ),
        (None, true)
    ));
    assert!(matches!(
        client.poll(
            Some(Event::Publication(received("$iothub/methods/POST/m/?$rid=1", b"1"))),
            0,
            &mut publications
        ),
        (Some(Message::DirectMethod { .. }), true)
    ));
    assert!(matches!(
        client.poll(
            Some(Event::Publication(received("$iothub/twin/res/200/?$rid=0", TWIN))),
            0,
            &mut publications
        ),
        (None, true)
    ));
    assert!(publications.is_empty());
    assert!(matches!(
        client.poll(
            Some(Event::SubscriptionUpdates(vec![SubscriptionUpdate::Subscribe(
                SubscribeTo {
                    topic_filter: "$iothub/twin/res/#".to_string(),
                    qos: QoS::AtMostOnce
                }
            )])),
            0,
            &mut publications
        ),
        (None, true)
    ));

    // Idle, it asks for the twin.
    assert!(matches!(client.poll(None, SECOND, &mut publications), (None, true)));
    assert_eq!(publications, vec![get_request(0)]);
    assert!(matches!(client.poll(None, SECOND, &mut publications), (None, false)));
    match client.poll(
        Some(Event::Publication(received("$iothub/twin/res/200/?$rid=0", TWIN))),
        2 * SECOND,
        &mut publications,
    ) {
        (Some(Message::TwinInitial(twin)), true) => assert_eq!(twin.desired.version, 8),
        other => panic!("{:?}", other),
    }
    assert!(matches!(
        client.poll(
            Some(Event::Publication(received(
                "$iothub/twin/PATCH/properties/desired/?$version=9",
                br#"{"$version": 9}"#
            ))),
            2 * SECOND,
            &mut publications
        ),
        (Some(Message::TwinPatch(TwinProperties { version: 9, .. })), true)
    ));
    assert!(matches!(
        client.poll(
            Some(Event::Publication(received("$iothub/methods/POST/m/?$rid=2", b"{}"))),
            2 * SECOND,
            &mut publications
        ),
        (Some(Message::DirectMethod { .. }), true)
    ));
    assert!(matches!(
        client.poll(
            Some(Event::Publication(received("somewhere/else", b"{}"))),
            2 * SECOND,
            &mut publications
        ),
        (None, true)
    ));
    assert_eq!(publications.len(), 1);

    // A new connection whose session goes on: the client does not wait for subscriptions, and
    // asks for the twin again. No change is handed out before the twin.
    assert!(matches!(
        client.poll(
            Some(Event::NewConnection { reset_session: false }),
            3 * SECOND,
            &mut publications
        ),
        (None, true)
    ));
    assert!(matches!(
        client.poll(
            Some(Event::Publication(received(
                "$iothub/twin/PATCH/properties/desired/?$version=10",
                br#"{"$version": 10}"#
            ))),
            3 * SECOND,
            &mut publications
        ),
        (None, true)
    ));
    assert_eq!(publications, vec![get_request(0), get_request(1)]);
    assert!(matches!(
        client.poll(
            Some(Event::Publication(received("$iothub/twin/res/200/?$rid=1", TWIN))),
            3 * SECOND,
            &mut publications
        ),
        (Some(Message::TwinInitial(_)), true)
    ));
}

#[test]
fn clients_of_the_hub() {
    let (mut client, certificate): (Client<()>, _) = client_new(
        "hub.example",
        "dev",
        None,
        Authentication::SasToken("token".to_string()),
        Some(vec![1, 2]),
        std::time::Duration::from_secs(30),
        std::time::Duration::from_secs(5),
    );
    assert_eq!(certificate, None);
    let engine = client.engine().unwrap();
    assert!(matches!(engine.connect(None), Action::Connect));
    match engine.connect(Some(Outcome::IoConnected)) {
        Action::Send(packet) => assert_eq!(
            packet,
            Packet::Connect {
                username: Some("hub.example/dev/?api-version=2018-06-30".to_string()),
                password: Some("token".to_string()),
                will: Some(Publication {
                    topic_name: "devices/dev/messages/events/".to_string(),
                    qos: QoS::AtMostOnce,
                    retain: false,
                    payload: vec![1, 2],
                }),
                client_id: ClientId::IdWithCleanSession("dev".to_string()),
                keep_alive: std::time::Duration::from_secs(5),
            }
        ),
        action => panic!("{:?}", action),
    }
    let mut acks = vec![];
    assert_eq!(engine.received(None, 0, &mut acks).unwrap(), None);
    assert_eq!(
        engine.packet_to_send(),
        Some(Packet::Subscribe {
            packet_identifier: mqtt::proto::PacketIdentifier::new(1).unwrap(),
            subscribe_to: vec![
                SubscribeTo {
                    topic_filter: "$iothub/methods/POST/#".to_string(),
                    qos: QoS::AtLeastOnce,
                },
                SubscribeTo {
                    topic_filter: "$iothub/twin/PATCH/properties/desired/#".to_string(),
                    qos: QoS::AtMostOnce,
                },
                SubscribeTo {
                    topic_filter: "$iothub/twin/res/#".to_string(),
                    qos: QoS::AtMostOnce,
                },
            ],
        })
    );
    assert_eq!(engine.packet_to_send(), None);

    let (mut client, certificate): (Client<()>, _) = client_new(
        "hub.example",
        "dev",
        Some("mod"),
        Authentication::Certificate {
            der: vec![9, 9],
            password: "pw".to_string(),
        },
        None,
        std::time::Duration::from_secs(30),
        std::time::Duration::from_secs(5),
    );
    assert_eq!(certificate, Some((vec![9, 9], "pw".to_string())));
    assert!(matches!(client.state_ref(), ClientState::Up(_)));
    let engine = client.engine().unwrap();
    assert!(matches!(engine.connect(None), Action::Connect));
    match engine.connect(Some(Outcome::IoConnected)) {
        Action::Send(packet) => assert_eq!(
            packet,
            Packet::Connect {
                username: Some("hub.example/dev/mod/?api-version=2018-06-30".to_string()),
                password: None,
                will: None,
                client_id: ClientId::IdWithCleanSession("dev/mod".to_string()),
                keep_alive: std::time::Duration::from_secs(5),
            }
        ),
        action => panic!("{:?}", action),
    }
}

fn acknowledgement(status: Status, request_id: u8, version: Option<usize>) -> Option<InternalTwinStateMessage> {
    Some(InternalTwinStateMessage::Response {
        status,
        request_id,
        payload: vec![],
        version,
    })
}

fn report(request_id: u8, body: &[u8]) -> Publication {
    Publication {
        topic_name: format!("$iothub/twin/PATCH/properties/reported/?$rid={}", request_id),
        qos: QoS::AtMostOnce,
        retain: false,
        payload: body.to_vec(),
    }
}

#[test]
fn report_machine_reports_one_after_the_other() {
    assert_eq!(
        ReportTwinStateRequest::Replace(json(r#"{"a": 1, "b": null}"#)).body(),
        br#"{"a":1,"b":null}"#.to_vec()
    );
    assert_eq!(
        ReportTwinStateRequest::Patch(json(r#"{"b": [true]}"#)).body(),
        br#"{"b":[true]}"#.to_vec()
    );

    let mut machine = ReportMachine::new(
        std::time::Duration::from_secs(3),
        std::time::Duration::from_secs(5),
    );
    let mut previous_request_id = 41;
    let mut publications = vec![];
    let mut message = None;

    assert!(matches!(
        machine.poll(&mut message, &mut previous_request_id, 0, &mut publications),
        Ok(Response::NotReady)
    ));
    assert_eq!(machine.next_deadline(), None);
    machine.new_connection();
    assert!(matches!(
        machine.poll(&mut message, &mut previous_request_id, 0, &mut publications),
        Ok(Response::NotReady)
    ));
    machine.report(b"one".to_vec());
    machine.report(b"two".to_vec());
    assert!(matches!(
        machine.poll(&mut message, &mut previous_request_id, SECOND, &mut publications),
        Ok(Response::Continue)
    ));
    assert_eq!(previous_request_id, 42);
    assert_eq!(publications, vec![report(42, b"one")]);
    assert_eq!(machine.next_deadline(), Some(11 * SECOND));
    // The second report waits for the first to be acknowledged.
    assert!(matches!(
        machine.poll(&mut message, &mut previous_request_id, 2 * SECOND, &mut publications),
        Ok(Response::NotReady)
    ));
    // The response to another request is not for this machine, nor is a change of the
    // desired properties.
    let mut message = acknowledgement(Status::NoContent, 41, Some(3));
    assert!(matches!(
        machine.poll(&mut message, &mut previous_request_id, 2 * SECOND, &mut publications),
        Ok(Response::NotReady)
    ));
    assert!(message.is_some());
    let mut message = patch(9);
    assert!(matches!(
        machine.poll(&mut message, &mut previous_request_id, 2 * SECOND, &mut publications),
        Ok(Response::NotReady)
    ));
    assert!(message.is_some());
    // The hub says to try later: the report is sent again, at once the first time.
    let mut message = acknowledgement(Status::TooManyRequests, 42, None);
    assert!(matches!(
        machine.poll(&mut message, &mut previous_request_id, 2 * SECOND, &mut publications),
        Ok(Response::Continue)
    ));
    assert!(message.is_none());
    assert_eq!(publications, vec![report(42, b"one"), report(43, b"one")]);
    // Then a second later.
    let mut message = acknowledgement(Status::Error(500), 43, None);
    assert!(matches!(
        machine.poll(&mut message, &mut previous_request_id, 3 * SECOND, &mut publications),
        Ok(Response::NotReady)
    ));
    assert_eq!(machine.next_deadline(), Some(4 * SECOND));
    let mut message = None;
    assert!(matches!(
        machine.poll(&mut message, &mut previous_request_id, 4 * SECOND, &mut publications),
        Ok(Response::Continue)
    ));
    assert_eq!(publications.last(), Some(&report(44, b"one")));
    // Without a response the report is sent again after twice the keep-alive time.
    assert!(matches!(
        machine.poll(&mut message, &mut previous_request_id, 14 * SECOND - 1, &mut publications),
        Ok(Response::NotReady)
    ));
    assert!(matches!(
        machine.poll(&mut message, &mut previous_request_id, 14 * SECOND, &mut publications),
        Ok(Response::Continue)
    ));
    assert_eq!(publications.last(), Some(&report(45, b"one")));
    // So it is after a new connection.
    machine.new_connection();
    assert!(matches!(
        machine.poll(&mut message, &mut previous_request_id, 15 * SECOND, &mut publications),
        Ok(Response::Continue)
    ));
    assert_eq!(publications.last(), Some(&report(46, b"one")));
    // Errors.
    let mut message = acknowledgement(Status::BadRequest, 46, None);
    assert!(matches!(
        machine.poll(&mut message, &mut previous_request_id, 15 * SECOND, &mut publications),
        Err(MessageParseError::IotHubStatus(Status::BadRequest))
    ));
    assert!(message.is_none());
    let mut message = acknowledgement(Status::NoContent, 46, None);
    assert!(matches!(
        machine.poll(&mut message, &mut previous_request_id, 15 * SECOND, &mut publications),
        Err(MessageParseError::ParseResponseVersion)
    ));
    // The hub has taken the report.
    let mut message = acknowledgement(Status::NoContent, 46, Some(7));
    assert_eq!(
        match machine.poll(&mut message, &mut previous_request_id, 16 * SECOND, &mut publications) {
            Ok(Response::Message(message)) => message,
            other => panic!("{:?}", other),
        },
        ReportMessage::Reported(7)
    );
    assert!(message.is_none());
    // Now the second report goes out.
    let sent = publications.len();
    assert!(matches!(
        machine.poll(&mut message, &mut previous_request_id, 16 * SECOND, &mut publications),
        Ok(Response::Continue)
    ));
    assert_eq!(publications.len(), sent + 1);
    assert_eq!(publications.last(), Some(&report(47, b"two")));
}

#[test]
fn hub_client_reports() {
    let mut client = HubClient::new(
        std::time::Duration::from_secs(3),
        std::time::Duration::from_secs(5),
    )
    .unwrap();
    let mut publications = vec![];
    assert!(client.expects_subscription_updates());
    client.report_twin_state(ReportTwinStateRequest::Patch(json(r#"{"a": 1}"#)));
    // Nothing is reported while the client waits for its subscriptions.
    assert!(matches!(client.poll(None, 0, &mut publications), (None, false)));
    assert!(publications.is_empty());
    assert!(matches!(
        client.poll(Some(Event::SubscriptionUpdates(vec![])), 0, &mut publications),
        (None, true)
    ));
    assert!(!client.expects_subscription_updates());
    // The request for the twin and the report count their IDs together.
    assert!(matches!(client.poll(None, SECOND, &mut publications), (None, true)));
    assert_eq!(
        publications,
        vec![get_request(0), report(1, br#"{"a":1}"#)]
    );
    assert_eq!(client.next_deadline(), Some(11 * SECOND));
    assert_eq!(client.next_report_deadline(), Some(11 * SECOND));
    assert!(matches!(client.poll(None, SECOND, &mut publications), (None, false)));
    assert!(matches!(
        client.poll(
            Some(Event::Publication(received(
                "$iothub/twin/res/204/?$rid=1&$version=12",
                b""
            ))),
            2 * SECOND,
            &mut publications
        ),
        (Some(Message::ReportedTwinState(12)), true)
    ));
    assert_eq!(client.next_report_deadline(), None);
    client.report(b"{}".to_vec());
    assert!(matches!(client.poll(None, 2 * SECOND, &mut publications), (None, true)));
    assert_eq!(publications.last(), Some(&report(2, b"{}")));
}

#[test]
fn every_kind_of_value_is_written() {
    let cases: [(&str, &[u8]); 8] = [
        ("null", b"null"),
        ("true", b"true"),
        ("17", b"17"),
        ("-3", b"-3"),
        ("1.5", b"1.5"),
        (r#""a\"b""#, br#""a\"b""#),
        ("[1, [], {}]", b"[1,[],{}]"),
        (r#"{"b": {"c": [null]}, "a": 1}"#, br#"{"a":1,"b":{"c":[null]}}"#),
    ];
    for (text, written) in cases.iter() {
        let value = json(text);
        let response = direct_method_response("1", Status::NoContent, &value);
        assert_eq!(response.topic_name, "$iothub/methods/res/204/?$rid=1");
        assert_eq!(response.payload, written.to_vec());
        assert_eq!(
            ReportTwinStateRequest::Replace(json(text)).body(),
            written.to_vec()
        );
    }
}
