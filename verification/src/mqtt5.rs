//! The MQTT 5 front of the broker: which packet answers which request.

use crate::cluster::MQTTCluster;
use crate::metadata::MetadataCache;
use crate::packet::{
    ConnAckProperties, Connect, ConnectProperties, DisconnectReasonCode, LastWill,
    LastWillProperties, Login, MQTTPacket, PingReq, Publish, PublishProperties, Subscribe,
    SubscribeProperties, Unsubscribe, UnsubscribeProperties,
};
use std::sync::{Arc, RwLock};
use vstd::prelude::*;

verus! {

/// `std::sync::RwLock`: the lock behind which the metadata cache is
/// shared. The service carries it and never takes it.
#[verifier::external_type_specification]
#[verifier::external_body]
#[verifier::reject_recursive_types(T)]
pub struct ExRwLock<T: ?Sized>(RwLock<T>);

/// Builds the packets that the broker answers with.
#[derive(Clone, Copy, Debug, PartialEq, Eq, Structural)]
pub struct MQTTAckBuild {
    pub cluster: MQTTCluster,
}

impl MQTTAckBuild {
    /// What CONNACK tells a client of a policy. Each feature flag goes out
    /// as its ordinal, the highest level as its number.
    pub open spec fn connack_properties(policy: MQTTCluster) -> ConnAckProperties {
        ConnAckProperties {
            session_expiry_interval: policy.session_expiry_interval,
            receive_max: policy.receive_max,
            max_qos: policy.max_qos.rank() as u8,
            retain_available: policy.retain_available.ordinal() as u8,
            max_packet_size: policy.max_packet_size,
            topic_alias_max: policy.topic_alias_max,
            wildcard_subscription_available: policy.wildcard_subscription_available.ordinal() as u8,
            subscription_identifiers_available:
                policy.subscription_identifiers_available.ordinal() as u8,
            shared_subscription_available: policy.shared_subscription_available.ordinal() as u8,
            server_keep_alive: policy.default_server_keep_alive,
        }
    }

    /// Returns a builder for a cluster policy.
    pub fn new(cluster: MQTTCluster) -> (build: Self)
        ensures
            build.cluster == cluster,
    {
        MQTTAckBuild { cluster }
    }

    /// Returns the CONNACK that carries the cluster policy.
    pub fn conn_ack(&self) -> (packet: MQTTPacket)
        ensures
            packet == MQTTPacket::ConnAck(MQTTAckBuild::connack_properties(self.cluster)),
    {
        MQTTPacket::ConnAck(
            ConnAckProperties {
                session_expiry_interval: self.cluster.session_expiry_interval,
                receive_max: self.cluster.receive_max(),
                max_qos: self.cluster.max_qos().level(),
                retain_available: self.cluster.retain_available(),
                max_packet_size: self.cluster.max_packet_size(),
                topic_alias_max: self.cluster.topic_alias_max(),
                wildcard_subscription_available: self.cluster.wildcard_subscription_available(),
                subscription_identifiers_available:
                    self.cluster.subscription_identifiers_available(),
                shared_subscription_available: self.cluster.shared_subscription_available(),
                server_keep_alive: self.cluster.default_server_keep_alive,
            },
        )
    }

    /// Returns a PUBACK.
    pub fn pub_ack(&self) -> (packet: MQTTPacket)
        ensures
            packet == MQTTPacket::PubAck,
    {
        MQTTPacket::PubAck
    }

    /// Returns a SUBACK.
    pub fn sub_ack(&self) -> (packet: MQTTPacket)
        ensures
            packet == MQTTPacket::SubAck,
    {
        MQTTPacket::SubAck
    }

    /// Returns an UNSUBACK.
    pub fn unsub_ack(&self) -> (packet: MQTTPacket)
        ensures
            packet == MQTTPacket::UnsubAck,
    {
        MQTTPacket::UnsubAck
    }

    /// Returns a PINGRESP.
    pub fn ping_resp(&self) -> (packet: MQTTPacket)
        ensures
            packet == MQTTPacket::PingResp,
    {
        MQTTPacket::PingResp
    }

    /// Returns a DISCONNECT with a reason.
    pub fn distinct(&self, reason: DisconnectReasonCode) -> (packet: MQTTPacket)
        ensures
            packet == MQTTPacket::Disconnect(reason),
    {
        MQTTPacket::Disconnect(reason)
    }
}

/// The MQTT 5 service of one connection.
#[derive(Clone)]
pub struct Mqtt5Service {
    metadata_cache: Arc<RwLock<MetadataCache>>,
    ack_build: MQTTAckBuild,
    un_login: bool,
}

impl Mqtt5Service {
    /// Whether the connection has not logged in yet.
    pub closed spec fn un_login(&self) -> bool {
        self.un_login
    }

    /// The builder of the service's answers.
    pub closed spec fn ack_build(&self) -> MQTTAckBuild {
        self.ack_build
    }

    /// The cache that the service shares with the rest of the broker.
    pub closed spec fn metadata_cache(&self) -> Arc<RwLock<MetadataCache>> {
        self.metadata_cache
    }

    /// What answers a request that needs a login the connection lacks.
    pub open spec fn not_authorized() -> MQTTPacket {
        MQTTPacket::Disconnect(DisconnectReasonCode::NotAuthorized)
    }

    /// What answers a request other than CONNECT: the acknowledgement on a
    /// connection that has logged in, DISCONNECT with `NotAuthorized` on
    /// any other.
    pub open spec fn answer(&self, acknowledgement: MQTTPacket) -> MQTTPacket {
        if self.un_login() {
            Mqtt5Service::not_authorized()
        } else {
            acknowledgement
        }
    }

    /// Returns the service of a connection that has not logged in.
    pub fn new(
        metadata_cache: Arc<RwLock<MetadataCache>>,
        ack_build: MQTTAckBuild,
    ) -> (service: Self)
        ensures
            service.un_login(),
            service.ack_build() == ack_build,
            service.metadata_cache() == metadata_cache,
    {
        Mqtt5Service { metadata_cache, ack_build, un_login: true }
    }

    /// Answers CONNECT: CONNACK on a connection that has not logged in,
    /// DISCONNECT with `NotAuthorized` on one that has.
    pub fn connect(
        &self,
        connnect: Connect,
        properties: Option<ConnectProperties>,
        last_will: Option<LastWill>,
        last_will_properties: Option<LastWillProperties>,
        login: Option<Login>,
    ) -> (packet: MQTTPacket)
        ensures
            packet == if self.un_login() {
                MQTTPacket::ConnAck(MQTTAckBuild::connack_properties(self.ack_build().cluster))
            } else {
                Mqtt5Service::not_authorized()
            },
    {
        if !self.un_login {
            return self.un_login_err();
        }
        self.ack_build.conn_ack()
    }

    /// Answers PUBLISH.
    pub fn publish(
        &self,
        publish: Publish,
        publish_properties: Option<PublishProperties>,
    ) -> (packet: MQTTPacket)
        ensures
            packet == self.answer(MQTTPacket::PubAck),
    {
        if self.un_login {
            return self.un_login_err();
        }
        self.ack_build.pub_ack()
    }

    /// Answers SUBSCRIBE.
    pub fn subscribe(
        &self,
        subscribe: Subscribe,
        subscribe_properties: Option<SubscribeProperties>,
    ) -> (packet: MQTTPacket)
        ensures
            packet == self.answer(MQTTPacket::SubAck),
    {
        if self.un_login {
            return self.un_login_err();
        }
        self.ack_build.sub_ack()
    }

    /// Answers PINGREQ.
    pub fn ping(&self, ping: PingReq) -> (packet: MQTTPacket)
        ensures
            packet == self.answer(MQTTPacket::PingResp),
    {
        if self.un_login {
            return self.un_login_err();
        }
        self.ack_build.ping_resp()
    }

    /// Answers UNSUBSCRIBE.
    pub fn un_subscribe(
        &self,
        un_subscribe: Unsubscribe,
        un_subscribe_properties: Option<UnsubscribeProperties>,
    ) -> (packet: MQTTPacket)
        ensures
            packet == self.answer(MQTTPacket::UnsubAck),
    {
        if self.un_login {
            return self.un_login_err();
        }
        self.ack_build.unsub_ack()
    }

    fn un_login_err(&self) -> (packet: MQTTPacket)
        ensures
            packet == Mqtt5Service::not_authorized(),
    {
        self.ack_build.distinct(DisconnectReasonCode::NotAuthorized)
    }
}

} // verus!
