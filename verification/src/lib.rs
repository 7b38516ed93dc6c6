//! Dispatch core of an MQTT 5 broker: cluster policy, packet identifiers,
//! acknowledgement tracking and shared-subscription fan-out.

pub mod ack;
pub mod channel;
pub mod cluster;
pub mod delivery;
pub mod handles;
pub mod json;
pub mod leader;
pub mod message;
pub mod metadata;
pub mod mqtt5;
pub mod packet;
pub mod pkid;
pub mod pusher;
pub mod qos;
pub mod strategy;
pub mod subscribe;
pub mod wire;
