//! The Azure IoT Hub dialect of MQTT: device twins and direct methods on top
//! of the client's messages and subscriptions.

use crate::client::connect::{Machine, Stage};
use crate::client::engine::{Client, ClientState};
use crate::client::subscriptions::Update;
use crate::iothub::json::{json_text, to_text};
use crate::iothub::topic::{
    client_id, events_topic, method_response_topic, spec_client_id, spec_events_topic,
    spec_method_response_topic, spec_username, username,
};
use crate::proto::packet::{PublicationView, SubscribeToView};
use crate::proto::{ClientIdView, Publication, QoS, SubscribeTo};
use crate::text::{decimal, parse_u32, parse_unsigned, u32_to_string};
use crate::time::duration_nanos;
use std::time::Duration;
use vstd::prelude::*;

pub mod desired;
pub mod json;
pub mod module;
pub mod reported;
pub mod topic;

pub use self::json::{TwinProperties, TwinState};
pub use self::reported::ReportTwinStateRequest;

verus! {

/// The type of authentication the client should use to connect to the Azure IoT Hub
#[derive(Debug)]
pub enum Authentication {
    SasToken(String),
    Certificate { der: Vec<u8>, password: String },
}

/// The transport to use for the connection to the Azure IoT Hub
#[derive(Clone, Copy, Debug, PartialEq, Eq, Structural)]
pub enum Transport {
    Tcp,
    WebSocket,
}

impl Transport {
    /// The port of the hub that the transport connects to.
    pub fn port(self) -> (port: u16)
        ensures
            port == match self {
                Transport::Tcp => 8883u16,
                Transport::WebSocket => 443u16,
            },
    {
        match self {
            Transport::Tcp => 8883,
            Transport::WebSocket => 443,
        }
    }
}

/// Why a response to a direct method could not be sent.
#[derive(Clone, Copy, Debug, PartialEq, Eq, Structural)]
pub enum DirectMethodResponseError {
    ClientDoesNotExist,
}

impl DirectMethodResponseError {
    /// The error in words.
    pub fn message(&self) -> (message: String)
        ensures
            message@ == "client does not exist"@,
    {
        "client does not exist".to_owned()
    }
}

/// Represents the status code used in initial twin responses and device method responses
#[derive(Clone, Copy, Debug, PartialEq, Eq, Structural)]
pub enum Status {
    /// 200
    Okay,
    /// 204
    NoContent,
    /// 400
    BadRequest,
    /// 429
    TooManyRequests,
    /// 5xx
    Error(u32),
    /// Other
    Other(u32),
}

impl Status {
    /// The status that a code stands for.
    pub open spec fn spec_from_code(code: u32) -> Status {
        if code == 200 {
            Status::Okay
        } else if code == 204 {
            Status::NoContent
        } else if code == 400 {
            Status::BadRequest
        } else if code == 429 {
            Status::TooManyRequests
        } else if 500 <= code < 600 {
            Status::Error(code)
        } else {
            Status::Other(code)
        }
    }

    /// The code of a status.
    pub open spec fn code(self) -> u32 {
        match self {
            Status::Okay => 200,
            Status::NoContent => 204,
            Status::BadRequest => 400,
            Status::TooManyRequests => 429,
            Status::Error(raw) => raw,
            Status::Other(raw) => raw,
        }
    }

    /// The status that a code stands for.
    pub fn from_code(code: u32) -> (status: Status)
        ensures
            status == Self::spec_from_code(code),
    {
        if code == 200 {
            Status::Okay
        } else if code == 204 {
            Status::NoContent
        } else if code == 400 {
            Status::BadRequest
        } else if code == 429 {
            Status::TooManyRequests
        } else if code >= 500 && code < 600 {
            Status::Error(code)
        } else {
            Status::Other(code)
        }
    }

    /// The status that a string stands for: that of the code that the string
    /// is in base ten.
    pub fn from_str(s: &str) -> (status: Option<Status>)
        ensures
            status == match parse_unsigned(s@, u32::MAX as nat) {
                Some(code) => Some(Self::spec_from_code(code as u32)),
                None => None,
            },
    {
        match parse_u32(s) {
            Some(code) => Some(Status::from_code(code)),
            None => None,
        }
    }

    /// The code of the status in base ten.
    pub fn to_text(&self) -> (text: String)
        ensures
            text@ == decimal(self.code() as nat),
    {
        match self {
            Status::Okay => u32_to_string(200),
            Status::NoContent => u32_to_string(204),
            Status::BadRequest => u32_to_string(400),
            Status::TooManyRequests => u32_to_string(429),
            Status::Error(raw) => u32_to_string(*raw),
            Status::Other(raw) => u32_to_string(*raw),
        }
    }
}

/// The response to a direct method with the given body: it goes to the
/// topic of the status and of the request, at QoS 1.
pub open spec fn spec_method_response(
    request_id: Seq<char>,
    status: Status,
    payload: Seq<u8>,
) -> PublicationView {
    PublicationView {
        topic_name: spec_method_response_topic(status, request_id),
        qos: QoS::AtLeastOnce,
        retain: false,
        payload,
    }
}

/// The response to a direct method with the given body.
pub fn method_response(request_id: &str, status: Status, payload: Vec<u8>) -> (response:
    Publication)
    ensures
        response@ == spec_method_response(request_id@, status, payload@),
{
    Publication {
        topic_name: method_response_topic(status, request_id),
        qos: QoS::AtLeastOnce,
        retain: false,
        payload,
    }
}

/// The response to a direct method: its body is the payload as JSON.
pub fn direct_method_response(request_id: &str, status: Status, payload: &serde_json::Value) -> (response:
    Publication)
    ensures
        response@ == spec_method_response(request_id@, status, json_text(*payload)),
{
    method_response(request_id, status, to_text(payload))
}

/// A subscription at QoS 0 or 1 to a topic filter of the hub.
pub open spec fn spec_subscription(topic_filter: Seq<char>, qos: QoS) -> Update {
    Update::Subscribe(SubscribeToView { topic_filter, qos })
}

/// The subscriptions that a client of the hub starts with: to the responses
/// about the twin, to the changes of the desired properties, and to the
/// direct methods. The client of a device asks for the last a second time.
pub open spec fn spec_default_subscriptions(module: bool) -> Seq<Update> {
    let common = seq![
        spec_subscription("$iothub/twin/res/#"@, QoS::AtMostOnce),
        spec_subscription("$iothub/twin/PATCH/properties/desired/#"@, QoS::AtMostOnce),
        spec_subscription("$iothub/methods/POST/#"@, QoS::AtLeastOnce),
    ];
    if module {
        common
    } else {
        common.push(spec_subscription("$iothub/methods/POST/#"@, QoS::AtLeastOnce))
    }
}

/// The mathematical value of a string that may be absent.
pub open spec fn option_str_view(s: Option<&str>) -> Option<Seq<char>> {
    match s {
        Some(s) => Some(s@),
        None => None,
    }
}

/// The MQTT client of a device of the hub, or of one of its modules, and the
/// certificate to show the hub where the client is to authenticate with
/// one.
///
/// The client connects under the ID of the device or module, with the name
/// that the hub knows it by and, where it authenticates with a token, with
/// the token as its password. Its will, where it has one, goes to the topic
/// of its messages. It starts with the subscriptions that the dialect of the
/// hub needs.
pub fn client_new<A>(
    iothub_hostname: &str,
    device_id: &str,
    module_id: Option<&str>,
    authentication: Authentication,
    will: Option<Vec<u8>>,
    max_back_off: Duration,
    keep_alive: Duration,
) -> (created: (Client<A>, Option<(Vec<u8>, String)>))
    ensures
        created.0.wf(),
        created.0.state() matches ClientState::Up(engine) && {
            &&& engine.client_id() == ClientIdView::IdWithCleanSession(
                spec_client_id(device_id@, option_str_view(module_id)),
            )
            &&& engine.username() == Some(
                spec_username(iothub_hostname@, device_id@, option_str_view(module_id)),
            )
            &&& engine.password() == match authentication {
                Authentication::SasToken(sas_token) => Some(sas_token@),
                Authentication::Certificate { .. } => None,
            }
            &&& engine.will() == match will {
                Some(payload) => Some(
                    PublicationView {
                        topic_name: spec_events_topic(device_id@, option_str_view(module_id)),
                        qos: QoS::AtMostOnce,
                        retain: false,
                        payload: payload@,
                    },
                ),
                None => None,
            }
            &&& engine.keep_alive() == keep_alive
            &&& engine.connect_machine() == (Machine {
                max_back_off: duration_nanos(max_back_off) as nat,
                current_back_off: 0,
                state: Stage::BeginConnecting,
            })
            &&& engine.ping() == crate::client::ping::State::BeginWaitingForNextPing
            &&& engine.queue() == Seq::<crate::proto::packet::PacketView>::empty()
            &&& engine.publishing() == (crate::client::publish::Session::<A> {
                requests: Seq::empty(),
                waiting_to_be_acked: Seq::empty(),
                waiting_to_be_released: Seq::empty(),
                waiting_to_be_completed: Seq::empty(),
                reserved: Set::empty(),
                marked: Set::empty(),
                previous: u16::MAX,
            })
            &&& engine.subscribing() == (crate::client::subscriptions::Session {
                subscriptions: Seq::empty(),
                updates: spec_default_subscriptions(module_id is Some),
                unacked: Seq::empty(),
                reserved: Set::empty(),
                marked: Set::empty(),
                previous: u16::MAX,
            })
        },
        created.1 == match authentication {
            Authentication::SasToken(_) => None,
            Authentication::Certificate { der, password } => Some((der, password)),
        },
{
    let client_id = client_id(device_id, module_id);
    let username = username(iothub_hostname, device_id, module_id);
    let (password, certificate) = match authentication {
        Authentication::SasToken(sas_token) => (Some(sas_token), None),
        Authentication::Certificate { der, password } => (None, Some((der, password))),
    };
    let will = match will {
        Some(payload) => Some(
            Publication {
                topic_name: events_topic(device_id, module_id),
                qos: QoS::AtMostOnce,
                retain: false,
                payload,
            },
        ),
        None => None,
    };
    let mut inner = Client::new(
        Some(client_id),
        Some(username),
        password,
        will,
        max_back_off,
        keep_alive,
    );
    // Twin initial GET response
    let _ = inner.subscribe(
        SubscribeTo { topic_filter: "$iothub/twin/res/#".to_owned(), qos: QoS::AtMostOnce },
    );
    // Twin patches
    let _ = inner.subscribe(
        SubscribeTo {
            topic_filter: "$iothub/twin/PATCH/properties/desired/#".to_owned(),
            qos: QoS::AtMostOnce,
        },
    );
    // Module methods
    let _ = inner.subscribe(
        SubscribeTo { topic_filter: "$iothub/methods/POST/#".to_owned(), qos: QoS::AtLeastOnce },
    );
    if module_id.is_none() {
        // Direct methods
        let _ = inner.subscribe(
            SubscribeTo {
                topic_filter: "$iothub/methods/POST/#".to_owned(),
                qos: QoS::AtLeastOnce,
            },
        );
    }
    proof {
        let engine = inner.state()->Up_0;
        assert(engine.subscribing().updates =~= spec_default_subscriptions(module_id is Some));
    }
    (inner, certificate)
}

} // verus!
