//! What the library assumes of the `serde_json` crate.
//!
//! A JSON value is opaque to the verifier. It is known by its text: what it
//! holds, in the compact form in which `serde_json` writes a value.

use vstd::pervasive::unreached;
use vstd::prelude::*;

verus! {

#[verifier::external_type_specification]
#[verifier::external_body]
pub struct ExValue(serde_json::Value);

/// The text of a JSON value: what it holds, in the compact form in which
/// `serde_json::to_vec` writes a value.
pub uninterp spec fn json_text(value: serde_json::Value) -> Seq<u8>;

/// The text of the JSON value that some bytes stand for, where they stand
/// for one, as `serde_json::from_slice` reads them.
pub uninterp spec fn json_read(bytes: Seq<u8>) -> Option<Seq<u8>>;

/// The text of the member of a JSON object under a key, where the value with
/// the given text is an object that has one, as `Value::get` finds it.
pub uninterp spec fn json_member(text: Seq<u8>, key: Seq<char>) -> Option<Seq<u8>>;

/// The number that a JSON value with the given text is, where it is a
/// whole number that is not negative and fits in 64 bits, as
/// `Value::as_u64` tells.
pub uninterp spec fn json_u64(text: Seq<u8>) -> Option<u64>;

/// The text of a JSON value that may be absent.
pub open spec fn option_json_text(value: Option<serde_json::Value>) -> Option<Seq<u8>> {
    match value {
        Some(value) => Some(json_text(value)),
        None => None,
    }
}

/// `serde_json::from_slice`: reads a JSON value, or says in words why the
/// bytes are none.
#[verifier::external_body]
pub(crate) fn from_slice(bytes: &[u8]) -> (value: Result<serde_json::Value, String>)
    ensures
        match value {
            Ok(value) => json_read(bytes@) == Some(json_text(value)),
            Err(_) => json_read(bytes@) is None,
        },
{
    serde_json::from_slice::<serde_json::Value>(bytes).map_err(|err| err.to_string())
}

/// `serde_json::to_vec`: writes the text of a JSON value. It fails where a
/// value's own way of being written fails, where a map has a key that is no
/// string, or where the writer fails: a `Value` is written part by part
/// without a failure of its own, the keys of its objects are strings, and a
/// vector takes whatever is written to it.
#[verifier::external_body]
pub(crate) fn to_vec(value: &serde_json::Value) -> (text: Option<Vec<u8>>)
    ensures
        text matches Some(text) && text@ == json_text(*value),
{
    serde_json::to_vec(value).ok()
}

/// The text of a JSON value.
pub fn to_text(value: &serde_json::Value) -> (text: Vec<u8>)
    ensures
        text@ == json_text(*value),
{
    match to_vec(value) {
        Some(text) => text,
        None => unreached(),
    }
}

/// `Value::get` with a string: the member of an object under a key.
#[verifier::external_body]
pub(crate) fn member(value: &serde_json::Value, key: &str) -> (found: Option<serde_json::Value>)
    ensures
        option_json_text(found) == json_member(json_text(*value), key@),
{
    value.get(key).cloned()
}

/// `Value::as_u64`: the number that a value is.
#[verifier::external_body]
pub(crate) fn as_u64(value: &serde_json::Value) -> (number: Option<u64>)
    ensures
        number == json_u64(json_text(*value)),
{
    value.as_u64()
}

/// One section of a twin, desired or reported: its properties, and the
/// version that the hub counts them by.
#[derive(Debug)]
pub struct TwinProperties {
    pub version: usize,
    /// The JSON object of the section, as the hub sent it.
    pub properties: serde_json::Value,
}

/// The full twin state, as currently stored in the Azure IoT Hub.
#[derive(Debug)]
pub struct TwinState {
    /// The properties that the hub wants the device to have.
    pub desired: TwinProperties,
    /// The properties that the device has reported.
    pub reported: TwinProperties,
}

/// The version of the section with the given text: the number under
/// `$version`, where there is one and it fits.
pub open spec fn spec_version(text: Seq<u8>) -> Option<usize> {
    match json_member(text, "$version"@) {
        Some(version) => match json_u64(version) {
            Some(version) => if version <= usize::MAX {
                Some(version as usize)
            } else {
                None
            },
            None => None,
        },
        None => None,
    }
}

/// Whether a JSON value with the given text is a twin: an object with a
/// section of desired and one of reported properties, each with a version.
pub open spec fn spec_is_twin(text: Seq<u8>) -> bool {
    &&& json_member(text, "desired"@) matches Some(desired)
    &&& spec_version(desired) is Some
    &&& json_member(text, "reported"@) matches Some(reported)
    &&& spec_version(reported) is Some
}

impl TwinProperties {
    /// Reads a section of a twin: its version is the number under
    /// `$version`.
    pub fn from_value(properties: serde_json::Value) -> (section: Option<TwinProperties>)
        ensures
            match spec_version(json_text(properties)) {
                Some(version) => section matches Some(section) && section.version == version
                    && section.properties == properties,
                None => section is None,
            },
    {
        let version = match member(&properties, "$version") {
            Some(version) => version,
            None => return None,
        };
        let version: u64 = match as_u64(&version) {
            Some(version) => version,
            None => return None,
        };
        if version > usize::MAX as u64 {
            return None;
        }
        Some(TwinProperties { version: version as usize, properties })
    }
}

impl TwinState {
    /// Reads a twin: its sections are the objects under `desired` and
    /// `reported`.
    pub fn from_value(twin: &serde_json::Value) -> (state: Option<TwinState>)
        ensures
            spec_is_twin(json_text(*twin)) <==> state is Some,
            state matches Some(state) ==> {
                &&& Some(json_text(state.desired.properties)) == json_member(
                    json_text(*twin),
                    "desired"@,
                )
                &&& Some(state.desired.version) == spec_version(
                    json_text(state.desired.properties),
                )
                &&& Some(json_text(state.reported.properties)) == json_member(
                    json_text(*twin),
                    "reported"@,
                )
                &&& Some(state.reported.version) == spec_version(
                    json_text(state.reported.properties),
                )
            },
    {
        let desired = match member(twin, "desired") {
            Some(desired) => desired,
            None => return None,
        };
        let desired = match TwinProperties::from_value(desired) {
            Some(desired) => desired,
            None => return None,
        };
        let reported = match member(twin, "reported") {
            Some(reported) => reported,
            None => return None,
        };
        let reported = match TwinProperties::from_value(reported) {
            Some(reported) => reported,
            None => return None,
        };
        Some(TwinState { desired, reported })
    }
}

} // verus!
