use bytes::Bytes;
use mqtt_broker::cluster::{AvailableFlag, MQTTCluster};
use mqtt_broker::metadata::MetadataCache;
use mqtt_broker::mqtt5::{MQTTAckBuild, Mqtt5Service};
use mqtt_broker::packet::{
    ConnAckProperties, Connect, DisconnectReasonCode, Filter, MQTTPacket, PingReq, Publish,
    Subscribe, Unsubscribe,
};
use mqtt_broker::qos::QoS;
use std::sync::{Arc, RwLock};

fn service(cluster: MQTTCluster) -> Mqtt5Service {
    Mqtt5Service::new(Arc::new(RwLock::new(MetadataCache::new())), MQTTAckBuild::new(cluster))
}

fn connect_packet() -> Connect {
    Connect { keep_alive: 30, client_id: "c".to_string(), clean_session: true }
}

#[test]
fn reason_codes_are_numbered_as_in_mqtt() {
    assert_eq!(DisconnectReasonCode::NotAuthorized.code(), 0x87);
    assert_eq!(DisconnectReasonCode::NormalDisconnection.code(), 0x00);
    assert_eq!(DisconnectReasonCode::UnspecifiedError.code(), 0x80);
}

#[test]
fn connect_is_answered_with_the_cluster_policy() {
    let mut cluster = MQTTCluster::new();
    cluster.retain_available = AvailableFlag::Disable;
    cluster.max_qos = QoS::AtLeastOnce;
    cluster.receive_max = 9;
    let packet = service(cluster).connect(connect_packet(), None, None, None, None);
    assert_eq!(
        packet,
        MQTTPacket::ConnAck(ConnAckProperties {
            session_expiry_interval: 1800,
            receive_max: 9,
            max_qos: 1,
            retain_available: 0,
            max_packet_size: 10_485_760,
            topic_alias_max: 65535,
            wildcard_subscription_available: 1,
            subscription_identifiers_available: 1,
            shared_subscription_available: 1,
            server_keep_alive: 60,
        })
    );
}

#[test]
fn requests_without_login_are_not_authorized() {
    let service = service(MQTTCluster::new());
    let refused = MQTTPacket::Disconnect(DisconnectReasonCode::NotAuthorized);
    let publish = Publish {
        dup: false,
        qos: QoS::AtMostOnce,
        pkid: 0,
        retain: false,
        topic: Bytes::from("t"),
        payload: Bytes::from("p"),
    };
    assert_eq!(service.publish(publish, None), refused);
    let subscribe = Subscribe {
        packet_identifier: 1,
        filters: vec![Filter { path: "a/b".to_string(), qos: QoS::AtMostOnce }],
    };
    assert_eq!(service.subscribe(subscribe, None), refused);
    assert_eq!(service.ping(PingReq {}), refused);
    let unsubscribe = Unsubscribe { pkid: 2, filters: vec!["a/b".to_string()] };
    assert_eq!(service.un_subscribe(unsubscribe, None), refused);
}

#[test]
fn the_builder_makes_each_acknowledgement() {
    let build = MQTTAckBuild::new(MQTTCluster::new());
    assert_eq!(build.pub_ack(), MQTTPacket::PubAck);
    assert_eq!(build.sub_ack(), MQTTPacket::SubAck);
    assert_eq!(build.unsub_ack(), MQTTPacket::UnsubAck);
    assert_eq!(build.ping_resp(), MQTTPacket::PingResp);
    assert_eq!(
        build.distinct(DisconnectReasonCode::UnspecifiedError),
        MQTTPacket::Disconnect(DisconnectReasonCode::UnspecifiedError)
    );
}
