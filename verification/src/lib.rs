//! An MQTT v3.1.1 client engine: the wire codec, the session state machines
//! of a long-lived client, and the Azure IoT Hub dialect layered on top.

pub mod buffer;
pub mod client;
pub mod iothub;
pub mod ota;
pub mod pattern;
pub mod proto;
pub mod text;
pub mod time;

pub use self::client::{
    Client, Error, Event, PublishError, ReceivedPublication, ShutdownError, SubscriptionUpdate,
    UpdateSubscriptionError,
};
