//! The topics of the Azure IoT Hub: those that the client publishes to, and
//! what the messages on those that it subscribes to say.

use crate::client::ReceivedPublication;
use crate::iothub::json::{from_slice, json_read, json_text, spec_version, TwinProperties};
use crate::pattern::{
    captures, compile, compiled_from, groups_view, regex_captures, regex_compiles,
};
use crate::iothub::Status;
use crate::text::{decimal, parse_u8, parse_unsigned, parse_usize, u32_to_string};
use vstd::prelude::*;
use vstd::string::StringExecFns;

verus! {

/// The topic that a request for the twin is published to.
pub open spec fn spec_twin_get_topic(request_id: u8) -> Seq<char> {
    "$iothub/twin/GET/?$rid="@ + decimal(request_id as nat)
}

/// The topic that a report of properties is published to.
pub open spec fn spec_reported_patch_topic(request_id: u8) -> Seq<char> {
    "$iothub/twin/PATCH/properties/reported/?$rid="@ + decimal(request_id as nat)
}

/// The topic that the response to a direct method is published to.
pub open spec fn spec_method_response_topic(status: Status, request_id: Seq<char>) -> Seq<char> {
    "$iothub/methods/res/"@ + decimal(status.code() as nat) + "/?$rid="@ + request_id
}

/// The topic of the messages of a device, or of one of its modules: that of
/// its will.
pub open spec fn spec_events_topic(device_id: Seq<char>, module_id: Option<Seq<char>>) -> Seq<char> {
    match module_id {
        Some(module_id) => "devices/"@ + device_id + "/modules/"@ + module_id
            + "/messages/events/"@,
        None => "devices/"@ + device_id + "/messages/events/"@,
    }
}

/// The client ID of a device, or of one of its modules.
pub open spec fn spec_client_id(device_id: Seq<char>, module_id: Option<Seq<char>>) -> Seq<char> {
    match module_id {
        Some(module_id) => device_id + "/"@ + module_id,
        None => device_id,
    }
}

/// The user name of a device, or of one of its modules, at a hub.
pub open spec fn spec_username(
    iothub_hostname: Seq<char>,
    device_id: Seq<char>,
    module_id: Option<Seq<char>>,
) -> Seq<char> {
    match module_id {
        Some(module_id) => iothub_hostname + "/"@ + device_id + "/"@ + module_id
            + "/?api-version=2018-06-30"@,
        None => iothub_hostname + "/"@ + device_id + "/?api-version=2018-06-30"@,
    }
}

/// The address of a hub for the WebSocket transport.
pub open spec fn spec_websocket_url(iothub_hostname: Seq<char>) -> Seq<char> {
    "ws://"@ + iothub_hostname + "/$iothub/websocket"@
}

/// The topic that a request for the twin is published to.
pub fn twin_get_topic(request_id: u8) -> (topic: String)
    ensures
        topic@ == spec_twin_get_topic(request_id),
{
    let mut topic = "$iothub/twin/GET/?$rid=".to_owned();
    topic.append(u32_to_string(request_id as u32).as_str());
    topic
}

/// The topic that a report of properties is published to.
pub fn reported_patch_topic(request_id: u8) -> (topic: String)
    ensures
        topic@ == spec_reported_patch_topic(request_id),
{
    let mut topic = "$iothub/twin/PATCH/properties/reported/?$rid=".to_owned();
    topic.append(u32_to_string(request_id as u32).as_str());
    topic
}

/// The topic that the response to a direct method is published to.
pub fn method_response_topic(status: Status, request_id: &str) -> (topic: String)
    ensures
        topic@ == spec_method_response_topic(status, request_id@),
{
    let mut topic = "$iothub/methods/res/".to_owned();
    topic.append(status.to_text().as_str());
    topic.append("/?$rid=");
    topic.append(request_id);
    topic
}

/// The topic of the messages of a device, or of one of its modules.
pub fn events_topic(device_id: &str, module_id: Option<&str>) -> (topic: String)
    ensures
        topic@ == spec_events_topic(
            device_id@,
            match module_id {
                Some(module_id) => Some(module_id@),
                None => None,
            },
        ),
{
    let mut topic = "devices/".to_owned();
    topic.append(device_id);
    match module_id {
        Some(module_id) => {
            topic.append("/modules/");
            topic.append(module_id);
        },
        None => {},
    }
    topic.append("/messages/events/");
    topic
}

/// The client ID of a device, or of one of its modules.
pub fn client_id(device_id: &str, module_id: Option<&str>) -> (id: String)
    ensures
        id@ == spec_client_id(
            device_id@,
            match module_id {
                Some(module_id) => Some(module_id@),
                None => None,
            },
        ),
{
    let mut id = device_id.to_owned();
    match module_id {
        Some(module_id) => {
            id.append("/");
            id.append(module_id);
        },
        None => {},
    }
    id
}

/// The user name of a device, or of one of its modules, at a hub.
pub fn username(iothub_hostname: &str, device_id: &str, module_id: Option<&str>) -> (name: String)
    ensures
        name@ == spec_username(
            iothub_hostname@,
            device_id@,
            match module_id {
                Some(module_id) => Some(module_id@),
                None => None,
            },
        ),
{
    let mut name = iothub_hostname.to_owned();
    name.append("/");
    name.append(device_id);
    match module_id {
        Some(module_id) => {
            name.append("/");
            name.append(module_id);
        },
        None => {},
    }
    name.append("/?api-version=2018-06-30");
    name
}

/// The address of a hub for the WebSocket transport.
pub fn websocket_url(iothub_hostname: &str) -> (url: String)
    ensures
        url@ == spec_websocket_url(iothub_hostname@),
{
    let mut url = "ws://".to_owned();
    url.append(iothub_hostname);
    url.append("/$iothub/websocket");
    url
}

/// Why a message from the hub could not be read.
#[derive(Debug)]
pub enum MessageParseError {
    /// The hub answered a request with a status that is not expected.
    IotHubStatus(Status),
    /// The payload is not JSON, or not the JSON expected. The reason is held
    /// in words where the parser gave one.
    Json(String),
    /// The status in the topic of a response is no number.
    ParseResponseStatus,
    /// The request ID in the topic of a response is no number below 256.
    ParseResponseRequestId,
    /// The version in the topic of a response is no number.
    ParseResponseVersion,
    /// The topic is none that the hub is known to publish to.
    UnrecognizedMessage,
}

/// The mathematical value of a [`MessageParseError`].
pub enum ParseFailure {
    IotHubStatus(Status),
    Json,
    ParseResponseStatus,
    ParseResponseRequestId,
    ParseResponseVersion,
    UnrecognizedMessage,
}

impl View for MessageParseError {
    type V = ParseFailure;

    open spec fn view(&self) -> ParseFailure {
        match self {
            MessageParseError::IotHubStatus(status) => ParseFailure::IotHubStatus(*status),
            MessageParseError::Json(_) => ParseFailure::Json,
            MessageParseError::ParseResponseStatus => ParseFailure::ParseResponseStatus,
            MessageParseError::ParseResponseRequestId => ParseFailure::ParseResponseRequestId,
            MessageParseError::ParseResponseVersion => ParseFailure::ParseResponseVersion,
            MessageParseError::UnrecognizedMessage => ParseFailure::UnrecognizedMessage,
        }
    }
}

/// A message of the hub about the twin.
#[derive(Debug)]
pub enum InternalTwinStateMessage {
    /// The response to a request: to one for the twin, or to a report of
    /// properties.
    Response { status: Status, request_id: u8, payload: Vec<u8>, version: Option<usize> },
    /// A change of the desired properties.
    TwinPatch(TwinProperties),
}

/// A message of the hub.
#[derive(Debug)]
pub enum InternalMessage {
    /// A direct method invocation
    DirectMethod { name: String, payload: serde_json::Value, request_id: String },
    TwinState(InternalTwinStateMessage),
}

/// The mathematical value of an [`InternalMessage`]. A JSON value is held
/// as its text.
#[allow(inconsistent_fields)]
pub enum HubMessage {
    DirectMethod { name: Seq<char>, payload: Seq<u8>, request_id: Seq<char> },
    Response { status: Status, request_id: u8, payload: Seq<u8>, version: Option<usize> },
    TwinPatch { version: usize, properties: Seq<u8> },
}

impl View for InternalTwinStateMessage {
    type V = HubMessage;

    open spec fn view(&self) -> HubMessage {
        match self {
            InternalTwinStateMessage::Response { status, request_id, payload, version } => {
                HubMessage::Response {
                    status: *status,
                    request_id: *request_id,
                    payload: payload@,
                    version: *version,
                }
            },
            InternalTwinStateMessage::TwinPatch(properties) => HubMessage::TwinPatch {
                version: properties.version,
                properties: json_text(properties.properties),
            },
        }
    }
}

impl View for InternalMessage {
    type V = HubMessage;

    open spec fn view(&self) -> HubMessage {
        match self {
            InternalMessage::DirectMethod { name, payload, request_id } => {
                HubMessage::DirectMethod {
                    name: name@,
                    payload: json_text(*payload),
                    request_id: request_id@,
                }
            },
            InternalMessage::TwinState(message) => message@,
        }
    }
}

/// Whether what the reader returned is what the message says.
pub open spec fn parsed_as(
    parsed: Result<InternalMessage, MessageParseError>,
    expected: Result<HubMessage, ParseFailure>,
) -> bool {
    match expected {
        Ok(message) => parsed matches Ok(m) && m@ == message,
        Err(failure) => parsed matches Err(err) && err@ == failure,
    }
}

/// What the invocation of a direct method says, given what its topic
/// captured: the name of the method, the ID of the request, and the payload
/// as JSON.
pub open spec fn spec_direct_method(groups: Seq<Option<Seq<char>>>, payload: Seq<u8>) -> Result<
    HubMessage,
    ParseFailure,
> {
    if groups.len() == 3 && groups[1] is Some && groups[2] is Some {
        match json_read(payload) {
            Some(payload) => Ok(
                HubMessage::DirectMethod {
                    name: groups[1]->Some_0,
                    payload,
                    request_id: groups[2]->Some_0,
                },
            ),
            None => Err(ParseFailure::Json),
        }
    } else {
        Err(ParseFailure::UnrecognizedMessage)
    }
}

/// What a response says, given what its topic captured: the status, the ID
/// of the request, and the version where there is one.
pub open spec fn spec_twin_response(groups: Seq<Option<Seq<char>>>, payload: Seq<u8>) -> Result<
    HubMessage,
    ParseFailure,
> {
    if groups.len() == 4 && groups[1] is Some && groups[2] is Some {
        match parse_unsigned(groups[1]->Some_0, u32::MAX as nat) {
            None => Err(ParseFailure::ParseResponseStatus),
            Some(status) => match parse_unsigned(groups[2]->Some_0, u8::MAX as nat) {
                None => Err(ParseFailure::ParseResponseRequestId),
                Some(request_id) => match groups[3] {
                    None => Ok(
                        HubMessage::Response {
                            status: Status::spec_from_code(status as u32),
                            request_id: request_id as u8,
                            payload,
                            version: None,
                        },
                    ),
                    Some(version) => match parse_unsigned(version, usize::MAX as nat) {
                        None => Err(ParseFailure::ParseResponseVersion),
                        Some(version) => Ok(
                            HubMessage::Response {
                                status: Status::spec_from_code(status as u32),
                                request_id: request_id as u8,
                                payload,
                                version: Some(version as usize),
                            },
                        ),
                    },
                },
            },
        }
    } else {
        Err(ParseFailure::UnrecognizedMessage)
    }
}

/// What a change of the desired properties says: the payload as JSON, and
/// the version that it holds.
pub open spec fn spec_twin_patch(payload: Seq<u8>) -> Result<HubMessage, ParseFailure> {
    match json_read(payload) {
        None => Err(ParseFailure::Json),
        Some(properties) => match spec_version(properties) {
            None => Err(ParseFailure::Json),
            Some(version) => Ok(HubMessage::TwinPatch { version, properties }),
        },
    }
}

fn duplicate_group(group: &Option<String>) -> (copy: Option<String>)
    ensures
        copy == *group,
{
    match group {
        Some(group) => Some(group.clone()),
        None => None,
    }
}

/// Reads the invocation of a direct method, given what its topic captured.
pub fn direct_method(groups: &Vec<Option<String>>, payload: &[u8]) -> (parsed: Result<
    InternalMessage,
    MessageParseError,
>)
    ensures
        parsed_as(parsed, spec_direct_method(groups_view(Some(*groups))->Some_0, payload@)),
{
    if groups.len() != 3 {
        return Err(MessageParseError::UnrecognizedMessage);
    }
    let name = match duplicate_group(&groups[1]) {
        Some(name) => name,
        None => return Err(MessageParseError::UnrecognizedMessage),
    };
    let request_id = match duplicate_group(&groups[2]) {
        Some(request_id) => request_id,
        None => return Err(MessageParseError::UnrecognizedMessage),
    };
    let payload = match from_slice(payload) {
        Ok(payload) => payload,
        Err(err) => return Err(MessageParseError::Json(err)),
    };
    Ok(InternalMessage::DirectMethod { name, payload, request_id })
}

/// Reads a response, given what its topic captured.
pub fn twin_response(groups: &Vec<Option<String>>, payload: Vec<u8>) -> (parsed: Result<
    InternalMessage,
    MessageParseError,
>)
    ensures
        parsed_as(parsed, spec_twin_response(groups_view(Some(*groups))->Some_0, payload@)),
{
    if groups.len() != 4 {
        return Err(MessageParseError::UnrecognizedMessage);
    }
    let status = match &groups[1] {
        Some(status) => status,
        None => return Err(MessageParseError::UnrecognizedMessage),
    };
    let request_id = match &groups[2] {
        Some(request_id) => request_id,
        None => return Err(MessageParseError::UnrecognizedMessage),
    };
    let status = match Status::from_str(status.as_str()) {
        Some(status) => status,
        None => return Err(MessageParseError::ParseResponseStatus),
    };
    let request_id = match parse_u8(request_id.as_str()) {
        Some(request_id) => request_id,
        None => return Err(MessageParseError::ParseResponseRequestId),
    };
    let version = match &groups[3] {
        Some(version) => match parse_usize(version.as_str()) {
            Some(version) => Some(version),
            None => return Err(MessageParseError::ParseResponseVersion),
        },
        None => None,
    };
    Ok(
        InternalMessage::TwinState(
            InternalTwinStateMessage::Response { status, request_id, payload, version },
        ),
    )
}

/// Reads a change of the desired properties.
pub fn twin_patch(payload: &[u8]) -> (parsed: Result<InternalMessage, MessageParseError>)
    ensures
        parsed_as(parsed, spec_twin_patch(payload@)),
{
    let properties = match from_slice(payload) {
        Ok(properties) => properties,
        Err(err) => return Err(MessageParseError::Json(err)),
    };
    match TwinProperties::from_value(properties) {
        Some(properties) => Ok(
            InternalMessage::TwinState(InternalTwinStateMessage::TwinPatch(properties)),
        ),
        None => Err(MessageParseError::Json("the properties hold no version".to_owned())),
    }
}

/// The pattern of the topics that direct methods are invoked on.
pub open spec fn direct_method_pattern() -> Seq<char> {
    r"^\$iothub/methods/POST/([^/]+)/\?\$rid=(.+)$"@
}

/// The pattern of the topics that responses come on.
pub open spec fn twin_response_pattern() -> Seq<char> {
    r"^\$iothub/twin/res/(\d+)/\?\$rid=(\d+)(?:&\$version=(\d+))?$"@
}

/// The pattern of the topics that changes of the desired properties come
/// on.
pub open spec fn twin_patch_pattern() -> Seq<char> {
    r"^\$iothub/twin/PATCH/properties/desired/\?\$version=(\d+)$"@
}

/// The patterns of the topics that the hub publishes to.
pub struct Topics {
    direct_method: regex::Regex,
    twin_response: regex::Regex,
    twin_patch: regex::Regex,
}

/// What a message says: it is told by its topic whether it invokes a direct
/// method, responds to a request, or changes the desired properties.
pub open spec fn spec_parse(topic_name: Seq<char>, payload: Seq<u8>) -> Result<
    HubMessage,
    ParseFailure,
> {
    match regex_captures(direct_method_pattern(), topic_name) {
        Some(groups) => spec_direct_method(groups, payload),
        None => match regex_captures(twin_response_pattern(), topic_name) {
            Some(groups) => spec_twin_response(groups, payload),
            None => match regex_captures(twin_patch_pattern(), topic_name) {
                Some(_) => spec_twin_patch(payload),
                None => Err(ParseFailure::UnrecognizedMessage),
            },
        },
    }
}

/// Whether the three patterns of the topics compile.
pub open spec fn patterns_compile() -> bool {
    &&& regex_compiles(direct_method_pattern())
    &&& regex_compiles(twin_response_pattern())
    &&& regex_compiles(twin_patch_pattern())
}

impl Topics {
    /// Each pattern is the one that is meant.
    pub closed spec fn wf(&self) -> bool {
        &&& compiled_from(self.direct_method, direct_method_pattern())
        &&& compiled_from(self.twin_response, twin_response_pattern())
        &&& compiled_from(self.twin_patch, twin_patch_pattern())
    }

    /// Compiles the patterns. There are topics exactly where all three
    /// compile.
    pub fn new() -> (topics: Option<Topics>)
        ensures
            topics is Some <==> patterns_compile(),
            topics matches Some(topics) ==> topics.wf(),
    {
        let direct_method = match compile(r"^\$iothub/methods/POST/([^/]+)/\?\$rid=(.+)$") {
            Some(re) => re,
            None => return None,
        };
        let twin_response = match compile(
            r"^\$iothub/twin/res/(\d+)/\?\$rid=(\d+)(?:&\$version=(\d+))?$",
        ) {
            Some(re) => re,
            None => return None,
        };
        let twin_patch = match compile(
            r"^\$iothub/twin/PATCH/properties/desired/\?\$version=(\d+)$",
        ) {
            Some(re) => re,
            None => return None,
        };
        Some(Topics { direct_method, twin_response, twin_patch })
    }

    /// Reads a message of the hub.
    pub fn parse(&self, publication: ReceivedPublication) -> (parsed: Result<
        InternalMessage,
        MessageParseError,
    >)
        requires
            self.wf(),
        ensures
            parsed_as(parsed, spec_parse(publication.topic_name@, publication.payload@)),
    {
        let topic_name = publication.topic_name.as_str();
        match captures(&self.direct_method, topic_name) {
            Some(groups) => return direct_method(&groups, publication.payload.as_slice()),
            None => {},
        }
        match captures(&self.twin_response, topic_name) {
            Some(groups) => return twin_response(&groups, publication.payload),
            None => {},
        }
        match captures(&self.twin_patch, topic_name) {
            Some(_) => twin_patch(publication.payload.as_slice()),
            None => Err(MessageParseError::UnrecognizedMessage),
        }
    }
}

} // verus!
