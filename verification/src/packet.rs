//! The MQTT packets that the dispatch core builds and hands to the egress
//! queue, as plain data. Encoding them is the codec's business.

use crate::qos::QoS;
use bytes::Bytes;
use vstd::prelude::*;

verus! {

/// Protocol version that a client spoke when it connected.
#[derive(Clone, Copy, Debug, PartialEq, Eq, Structural)]
pub enum MQTTProtocol {
    MQTT3,
    MQTT4,
    MQTT5,
}

/// Reason attached to a DISCONNECT that the broker sends.
#[derive(Clone, Copy, Debug, PartialEq, Eq, Structural)]
pub enum DisconnectReasonCode {
    NormalDisconnection,
    UnspecifiedError,
    NotAuthorized,
}

impl DisconnectReasonCode {
    /// The reason as MQTT 5 numbers it.
    pub open spec fn ordinal(self) -> int {
        match self {
            DisconnectReasonCode::NormalDisconnection => 0x00,
            DisconnectReasonCode::UnspecifiedError => 0x80,
            DisconnectReasonCode::NotAuthorized => 0x87,
        }
    }

    /// Returns the reason as the byte that goes on the wire.
    pub fn code(self) -> (n: u8)
        ensures
            n == self.ordinal(),
    {
        match self {
            DisconnectReasonCode::NormalDisconnection => 0x00,
            DisconnectReasonCode::UnspecifiedError => 0x80,
            DisconnectReasonCode::NotAuthorized => 0x87,
        }
    }
}

/// Fixed part of a PUBLISH.
#[derive(Clone, Debug, PartialEq, Eq)]
pub struct Publish {
    pub dup: bool,
    pub qos: QoS,
    pub pkid: u16,
    pub retain: bool,
    pub topic: Bytes,
    pub payload: Bytes,
}

/// MQTT 5 properties of a PUBLISH.
#[derive(Clone, Debug, PartialEq, Eq)]
pub struct PublishProperties {
    pub payload_format_indicator: Option<u8>,
    pub message_expiry_interval: Option<u32>,
    pub topic_alias: Option<u16>,
    pub response_topic: Option<String>,
    pub correlation_data: Option<Bytes>,
    pub user_properties: Vec<(String, String)>,
    pub subscription_identifiers: Vec<usize>,
    pub content_type: Option<String>,
}

/// What CONNACK tells a client of the cluster policy.
#[derive(Clone, Copy, Debug, PartialEq, Eq, Structural)]
pub struct ConnAckProperties {
    pub session_expiry_interval: u32,
    pub receive_max: u16,
    pub max_qos: u8,
    pub retain_available: u8,
    pub max_packet_size: u32,
    pub topic_alias_max: u16,
    pub wildcard_subscription_available: u8,
    pub subscription_identifiers_available: u8,
    pub shared_subscription_available: u8,
    pub server_keep_alive: u16,
}

/// A packet on its way to a client.
#[derive(Clone, Debug, PartialEq, Eq)]
pub enum MQTTPacket {
    ConnAck(ConnAckProperties),
    Publish(Publish, Option<PublishProperties>),
    PubAck,
    PubRel { pkid: u16 },
    SubAck,
    UnsubAck,
    PingResp,
    Disconnect(DisconnectReasonCode),
}

/// An entry of the egress queue: a packet and the connection it goes to.
#[derive(Clone, Debug, PartialEq, Eq)]
pub struct ResponsePackage {
    pub connection_id: u64,
    pub packet: MQTTPacket,
}

/// CONNECT as it reaches the service.
#[derive(Clone, Debug, PartialEq, Eq)]
pub struct Connect {
    pub keep_alive: u16,
    pub client_id: String,
    pub clean_session: bool,
}

/// MQTT 5 properties of a CONNECT.
#[derive(Clone, Copy, Debug, PartialEq, Eq, Structural)]
pub struct ConnectProperties {
    pub session_expiry_interval: Option<u32>,
    pub receive_maximum: Option<u16>,
    pub max_packet_size: Option<u32>,
    pub topic_alias_max: Option<u16>,
}

/// The will that a client leaves with the broker.
#[derive(Clone, Debug, PartialEq, Eq)]
pub struct LastWill {
    pub topic: Bytes,
    pub message: Bytes,
    pub qos: QoS,
    pub retain: bool,
}

/// MQTT 5 properties of a will.
#[derive(Clone, Copy, Debug, PartialEq, Eq, Structural)]
pub struct LastWillProperties {
    pub delay_interval: Option<u32>,
    pub message_expiry_interval: Option<u32>,
}

/// Credentials of a CONNECT.
#[derive(Clone, Debug, PartialEq, Eq)]
pub struct Login {
    pub username: String,
    pub password: String,
}

/// One topic filter of a SUBSCRIBE.
#[derive(Clone, Debug, PartialEq, Eq)]
pub struct Filter {
    pub path: String,
    pub qos: QoS,
}

/// SUBSCRIBE as it reaches the service.
#[derive(Clone, Debug, PartialEq, Eq)]
pub struct Subscribe {
    pub packet_identifier: u16,
    pub filters: Vec<Filter>,
}

/// MQTT 5 properties of a SUBSCRIBE.
#[derive(Clone, Copy, Debug, PartialEq, Eq, Structural)]
pub struct SubscribeProperties {
    pub subscription_identifier: Option<usize>,
}

/// UNSUBSCRIBE as it reaches the service.
#[derive(Clone, Debug, PartialEq, Eq)]
pub struct Unsubscribe {
    pub pkid: u16,
    pub filters: Vec<String>,
}

/// MQTT 5 properties of an UNSUBSCRIBE.
#[derive(Clone, Debug, PartialEq, Eq)]
pub struct UnsubscribeProperties {
    pub user_properties: Vec<(String, String)>,
}

/// PINGREQ: it carries nothing.
#[derive(Clone, Copy, Debug, PartialEq, Eq, Structural)]
pub struct PingReq {}

} // verus!
