use bytes::Bytes;
use mqtt_broker::ack::{AckKind, AckManager, AckOutcome};
use mqtt_broker::channel::{ack_channel, ChannelSignal};
use mqtt_broker::cluster::MQTTCluster;
use mqtt_broker::delivery::{
    after_stall, enqueue, event_of_send, event_of_wait, has_room, BeginError, Delivery,
    DeliveryAction, DeliveryEvent, DeliveryPhase, EgressQueue, FailReason, StallStep, Stalled,
    Waited,
};
use mqtt_broker::metadata::MetadataCache;
use mqtt_broker::packet::{MQTTPacket, MQTTProtocol, Publish, PublishProperties, ResponsePackage};
use mqtt_broker::pusher::Dispatch;
use mqtt_broker::qos::QoS;
use tokio::sync::broadcast::error::TryRecvError;
use tokio::sync::broadcast::{channel, Receiver};

fn properties() -> PublishProperties {
    PublishProperties {
        payload_format_indicator: None,
        message_expiry_interval: None,
        topic_alias: None,
        response_topic: None,
        correlation_data: None,
        user_properties: Vec::new(),
        subscription_identifiers: vec![5],
        content_type: None,
    }
}

fn publish(qos: QoS, pkid: u16) -> Publish {
    Publish {
        dup: false,
        qos,
        pkid,
        retain: false,
        topic: Bytes::from("t"),
        payload: Bytes::from("m"),
    }
}

fn dispatch(client: &str, qos: QoS, protocol: MQTTProtocol) -> Dispatch {
    Dispatch {
        client_id: client.to_string(),
        connection_id: 99,
        protocol,
        offset: 1,
        publish: publish(qos, 0),
        properties: properties(),
    }
}

struct World {
    cache: MetadataCache,
    acks: AckManager<ChannelSignal>,
    cluster: MQTTCluster,
}

fn world() -> World {
    World { cache: MetadataCache::new(), acks: AckManager::new(30), cluster: MQTTCluster::new() }
}

fn begin(
    w: &mut World,
    d: Dispatch,
) -> (Result<(Delivery, DeliveryAction), Stalled>, Receiver<AckOutcome>) {
    let (sink, rx) = ack_channel();
    (Delivery::begin(d, sink, 1000, &mut w.cache, &mut w.acks, &w.cluster), rx)
}

fn step(w: &mut World, delivery: &mut Delivery, event: DeliveryEvent) -> DeliveryAction {
    delivery.step(event, &mut w.cache, &mut w.acks, &w.cluster)
}

#[test]
fn qos0_takes_no_identifier_and_no_waiter() {
    let mut w = world();
    let (result, _rx) = begin(&mut w, dispatch("a", QoS::AtMostOnce, MQTTProtocol::MQTT5));
    let (mut delivery, action) = result.unwrap();
    assert_eq!(
        action,
        DeliveryAction::Enqueue {
            queue: EgressQueue::V5,
            package: ResponsePackage {
                connection_id: 99,
                packet: MQTTPacket::Publish(publish(QoS::AtMostOnce, 0), Some(properties())),
            },
        }
    );
    assert_eq!(delivery.pkid, 0);
    assert_eq!(delivery.phase, DeliveryPhase::Sending);
    assert_eq!(w.cache.live_pkids(&"a".to_string()), 0);
    assert_eq!(w.acks.len(), 0);
    assert_eq!(step(&mut w, &mut delivery, DeliveryEvent::Enqueued), DeliveryAction::Finished(None));
    assert_eq!(delivery.phase, DeliveryPhase::Done);
    assert_eq!(w.cache.next_pkid(&"a".to_string()), Ok(1));
}

#[test]
fn qos1_with_timely_puback() {
    let mut w = world();
    let a = "a".to_string();
    let (result, mut rx) = begin(&mut w, dispatch("a", QoS::AtLeastOnce, MQTTProtocol::MQTT4));
    let (mut delivery, action) = result.unwrap();
    assert_eq!(
        action,
        DeliveryAction::Enqueue {
            queue: EgressQueue::V4,
            package: ResponsePackage {
                connection_id: 99,
                packet: MQTTPacket::Publish(publish(QoS::AtLeastOnce, 1), Some(properties())),
            },
        }
    );
    assert_eq!(delivery.pkid, 1);
    assert_eq!(w.cache.live_pkids(&a), 1);
    assert!(w.acks.contains(&a, 1));
    assert_eq!(step(&mut w, &mut delivery, DeliveryEvent::Enqueued), DeliveryAction::AwaitAck);
    assert_eq!(delivery.phase, DeliveryPhase::AwaitingAck);
    assert_eq!(w.acks.complete(&a, 1, AckKind::PubAck), Some(AckOutcome::Acked(AckKind::PubAck)));
    let outcome = rx.try_recv().unwrap();
    assert_eq!(outcome, AckOutcome::Acked(AckKind::PubAck));
    assert_eq!(
        step(&mut w, &mut delivery, DeliveryEvent::Outcome(outcome)),
        DeliveryAction::Finished(None)
    );
    assert_eq!(delivery.phase, DeliveryPhase::Done);
    assert_eq!(w.cache.live_pkids(&a), 0);
    assert!(!w.acks.contains(&a, 1));
    assert_eq!(w.acks.len(), 0);
}

#[test]
fn qos2_handshake() {
    let mut w = world();
    let a = "a".to_string();
    let (result, mut rx) = begin(&mut w, dispatch("a", QoS::ExactlyOnce, MQTTProtocol::MQTT5));
    let (mut delivery, _) = result.unwrap();
    assert_eq!(step(&mut w, &mut delivery, DeliveryEvent::Enqueued), DeliveryAction::AwaitAck);
    assert_eq!(delivery.phase, DeliveryPhase::AwaitingRec);
    assert_eq!(w.acks.complete(&a, 1, AckKind::PubRec), Some(AckOutcome::Acked(AckKind::PubRec)));
    assert!(w.acks.contains(&a, 1));
    let outcome = rx.try_recv().unwrap();
    assert_eq!(
        step(&mut w, &mut delivery, DeliveryEvent::Outcome(outcome)),
        DeliveryAction::Enqueue {
            queue: EgressQueue::V5,
            package: ResponsePackage { connection_id: 99, packet: MQTTPacket::PubRel { pkid: 1 } },
        }
    );
    assert_eq!(delivery.phase, DeliveryPhase::Releasing);
    assert_eq!(w.cache.live_pkids(&a), 1);
    assert_eq!(step(&mut w, &mut delivery, DeliveryEvent::Enqueued), DeliveryAction::AwaitAck);
    assert_eq!(delivery.phase, DeliveryPhase::AwaitingComp);
    assert_eq!(w.acks.complete(&a, 1, AckKind::PubComp), Some(AckOutcome::Acked(AckKind::PubComp)));
    let outcome = rx.try_recv().unwrap();
    assert_eq!(
        step(&mut w, &mut delivery, DeliveryEvent::Outcome(outcome)),
        DeliveryAction::Finished(None)
    );
    assert_eq!(delivery.phase, DeliveryPhase::Done);
    assert_eq!(w.cache.live_pkids(&a), 0);
    assert!(!w.acks.contains(&a, 1));
}

#[test]
fn a_timeout_releases_identifier_and_waiter() {
    let mut w = world();
    let a = "a".to_string();
    let (result, mut rx) = begin(&mut w, dispatch("a", QoS::AtLeastOnce, MQTTProtocol::MQTT5));
    let (mut delivery, _) = result.unwrap();
    step(&mut w, &mut delivery, DeliveryEvent::Enqueued);
    assert_eq!(
        step(&mut w, &mut delivery, DeliveryEvent::Outcome(AckOutcome::Timeout)),
        DeliveryAction::Finished(Some(FailReason::Timeout))
    );
    assert_eq!(delivery.phase, DeliveryPhase::Failed(FailReason::Timeout));
    assert_eq!(w.cache.live_pkids(&a), 0);
    assert!(!w.acks.contains(&a, 1));
    assert_eq!(rx.try_recv(), Err(TryRecvError::Closed));
    assert_eq!(
        step(&mut w, &mut delivery, DeliveryEvent::Enqueued),
        DeliveryAction::Finished(Some(FailReason::Timeout))
    );
}

#[test]
fn a_cancelled_waiter_fails_the_delivery() {
    let mut w = world();
    let a = "a".to_string();
    let (result, mut rx) = begin(&mut w, dispatch("a", QoS::ExactlyOnce, MQTTProtocol::MQTT5));
    let (mut delivery, _) = result.unwrap();
    step(&mut w, &mut delivery, DeliveryEvent::Enqueued);
    assert_eq!(w.acks.sweep(2000), 1);
    let outcome = rx.try_recv().unwrap();
    assert_eq!(outcome, AckOutcome::Cancelled);
    assert_eq!(
        step(&mut w, &mut delivery, DeliveryEvent::Outcome(outcome)),
        DeliveryAction::Finished(Some(FailReason::Cancelled))
    );
    assert_eq!(w.cache.live_pkids(&a), 0);
}

#[test]
fn a_stop_cancels_the_handshake() {
    let mut w = world();
    let a = "a".to_string();
    let (result, mut rx) = begin(&mut w, dispatch("a", QoS::AtLeastOnce, MQTTProtocol::MQTT5));
    let (mut delivery, _) = result.unwrap();
    step(&mut w, &mut delivery, DeliveryEvent::Enqueued);
    assert_eq!(
        step(&mut w, &mut delivery, DeliveryEvent::Stop),
        DeliveryAction::Finished(Some(FailReason::Stopped))
    );
    assert_eq!(rx.try_recv(), Ok(AckOutcome::Cancelled));
    assert_eq!(w.cache.live_pkids(&a), 0);
    assert_eq!(w.acks.len(), 0);
}

#[test]
fn a_closed_queue_is_final() {
    let mut w = world();
    let a = "a".to_string();
    let (result, _rx) = begin(&mut w, dispatch("a", QoS::ExactlyOnce, MQTTProtocol::MQTT5));
    let (mut delivery, _) = result.unwrap();
    assert_eq!(
        step(&mut w, &mut delivery, DeliveryEvent::QueueClosed),
        DeliveryAction::Finished(Some(FailReason::ClientGone))
    );
    assert_eq!(w.cache.live_pkids(&a), 0);
    assert!(!w.acks.contains(&a, 1));
}

#[test]
fn a_full_queue_is_retried_within_the_budget() {
    let mut w = world();
    w.cluster.send_max_try_mut_times = 3;
    w.cluster.send_try_mut_sleep_time_ms = 25;
    let (result, _rx) = begin(&mut w, dispatch("a", QoS::AtLeastOnce, MQTTProtocol::MQTT5));
    let (mut delivery, _) = result.unwrap();
    assert_eq!(delivery.attempts, 1);
    assert_eq!(
        step(&mut w, &mut delivery, DeliveryEvent::QueueFull),
        DeliveryAction::Retry { after_millis: 25 }
    );
    assert_eq!(
        step(&mut w, &mut delivery, DeliveryEvent::QueueFull),
        DeliveryAction::Retry { after_millis: 25 }
    );
    assert_eq!(delivery.attempts, 3);
    assert_eq!(delivery.phase, DeliveryPhase::Sending);
    assert_eq!(
        step(&mut w, &mut delivery, DeliveryEvent::QueueFull),
        DeliveryAction::Finished(Some(FailReason::QueueExhausted))
    );
    assert_eq!(w.cache.live_pkids(&"a".to_string()), 0);
    assert_eq!(w.acks.len(), 0);
}

#[test]
fn the_default_budget_is_128_attempts_100_ms_apart() {
    let mut w = world();
    let (result, _rx) = begin(&mut w, dispatch("a", QoS::AtMostOnce, MQTTProtocol::MQTT5));
    let (mut delivery, _) = result.unwrap();
    for _ in 1..128 {
        assert_eq!(
            step(&mut w, &mut delivery, DeliveryEvent::QueueFull),
            DeliveryAction::Retry { after_millis: 100 }
        );
    }
    assert_eq!(delivery.attempts, 128);
    assert_eq!(
        step(&mut w, &mut delivery, DeliveryEvent::QueueFull),
        DeliveryAction::Finished(Some(FailReason::QueueExhausted))
    );
}

#[test]
fn a_retry_that_succeeds_goes_on() {
    let mut w = world();
    let (result, _rx) = begin(&mut w, dispatch("a", QoS::AtLeastOnce, MQTTProtocol::MQTT5));
    let (mut delivery, _) = result.unwrap();
    step(&mut w, &mut delivery, DeliveryEvent::QueueFull);
    assert_eq!(step(&mut w, &mut delivery, DeliveryEvent::Enqueued), DeliveryAction::AwaitAck);
    assert_eq!(delivery.phase, DeliveryPhase::AwaitingAck);
}

#[test]
fn an_unexpected_acknowledgement_fails_the_delivery() {
    let mut w = world();
    let (result, _rx) = begin(&mut w, dispatch("a", QoS::AtLeastOnce, MQTTProtocol::MQTT5));
    let (mut delivery, _) = result.unwrap();
    step(&mut w, &mut delivery, DeliveryEvent::Enqueued);
    assert_eq!(
        step(
            &mut w,
            &mut delivery,
            DeliveryEvent::Outcome(AckOutcome::Acked(AckKind::PubComp))
        ),
        DeliveryAction::Finished(Some(FailReason::UnexpectedAck))
    );
    assert_eq!(w.cache.live_pkids(&"a".to_string()), 0);
}

#[test]
fn events_without_meaning_are_ignored() {
    let mut w = world();
    let (result, _rx) = begin(&mut w, dispatch("a", QoS::AtLeastOnce, MQTTProtocol::MQTT5));
    let (mut delivery, _) = result.unwrap();
    step(&mut w, &mut delivery, DeliveryEvent::Enqueued);
    assert_eq!(step(&mut w, &mut delivery, DeliveryEvent::QueueFull), DeliveryAction::Ignored);
    assert_eq!(step(&mut w, &mut delivery, DeliveryEvent::QueueClosed), DeliveryAction::Ignored);
    assert_eq!(step(&mut w, &mut delivery, DeliveryEvent::Enqueued), DeliveryAction::Ignored);
    assert_eq!(delivery.phase, DeliveryPhase::AwaitingAck);
    assert_eq!(w.cache.live_pkids(&"a".to_string()), 1);
}

#[test]
fn deliveries_stall_at_receive_max() {
    let mut w = world();
    w.cluster.receive_max = 2;
    let a = "a".to_string();
    let (first, _r1) = begin(&mut w, dispatch("a", QoS::AtLeastOnce, MQTTProtocol::MQTT5));
    let (second, _r2) = begin(&mut w, dispatch("a", QoS::ExactlyOnce, MQTTProtocol::MQTT5));
    let (mut first, _) = first.unwrap();
    assert_eq!(second.unwrap().0.pkid, 2);
    let (third, _r3) = begin(&mut w, dispatch("a", QoS::AtLeastOnce, MQTTProtocol::MQTT5));
    assert_eq!(
        third,
        Err(Stalled {
            reason: BeginError::Exhausted,
            dispatch: dispatch("a", QoS::AtLeastOnce, MQTTProtocol::MQTT5),
        })
    );
    assert_eq!(w.cache.live_pkids(&a), 2);
    assert_eq!(w.acks.len(), 2);
    let (zero, _r0) = begin(&mut w, dispatch("a", QoS::AtMostOnce, MQTTProtocol::MQTT5));
    assert!(zero.is_ok());
    let (other, _r4) = begin(&mut w, dispatch("b", QoS::AtLeastOnce, MQTTProtocol::MQTT5));
    assert_eq!(other.unwrap().0.pkid, 1);
    step(&mut w, &mut first, DeliveryEvent::Stop);
    let (fourth, _r5) = begin(&mut w, dispatch("a", QoS::AtLeastOnce, MQTTProtocol::MQTT5));
    assert_eq!(fourth.unwrap().0.pkid, 3);
}

#[test]
fn a_stale_waiter_blocks_its_identifier() {
    let mut w = world();
    let a = "a".to_string();
    let (first, _r1) = begin(&mut w, dispatch("a", QoS::AtLeastOnce, MQTTProtocol::MQTT5));
    assert_eq!(first.unwrap().0.pkid, 1);
    w.cache.end_session(&a, false);
    let (second, _r2) = begin(&mut w, dispatch("a", QoS::AtLeastOnce, MQTTProtocol::MQTT5));
    assert_eq!(
        second,
        Err(Stalled {
            reason: BeginError::DuplicateWaiter,
            dispatch: dispatch("a", QoS::AtLeastOnce, MQTTProtocol::MQTT5),
        })
    );
    assert_eq!(w.cache.live_pkids(&a), 0);
    assert_eq!(w.acks.len(), 1);
    let (third, _r3) = begin(&mut w, dispatch("a", QoS::AtLeastOnce, MQTTProtocol::MQTT5));
    assert_eq!(third.unwrap().0.pkid, 2);
}

fn package(pkid: u16) -> ResponsePackage {
    ResponsePackage { connection_id: 1, packet: MQTTPacket::PubRel { pkid } }
}

#[test]
fn an_offer_reports_a_full_queue_without_writing() {
    let (queue, mut reader) = channel::<ResponsePackage>(2);
    assert_eq!(enqueue(&queue, 2, package(1)), DeliveryEvent::Enqueued);
    assert_eq!(enqueue(&queue, 2, package(2)), DeliveryEvent::Enqueued);
    assert_eq!(enqueue(&queue, 2, package(3)), DeliveryEvent::QueueFull);
    assert_eq!(reader.try_recv().unwrap(), package(1));
    assert_eq!(enqueue(&queue, 2, package(3)), DeliveryEvent::Enqueued);
    assert_eq!(reader.try_recv().unwrap(), package(2));
    assert_eq!(reader.try_recv().unwrap(), package(3));
    assert_eq!(enqueue(&queue, 0, package(4)), DeliveryEvent::QueueFull);
    assert!(reader.try_recv().is_err());
}

#[test]
fn an_offer_to_a_queue_without_readers_finds_it_closed() {
    let (queue, reader) = channel::<ResponsePackage>(2);
    drop(reader);
    assert_eq!(enqueue(&queue, 2, package(1)), DeliveryEvent::QueueClosed);
}

#[test]
fn room_and_send_give_their_events() {
    assert!(has_room(0, 1));
    assert!(has_room(127, 128));
    assert!(!has_room(128, 128));
    assert!(!has_room(0, 0));
    assert_eq!(event_of_send(true), DeliveryEvent::Enqueued);
    assert_eq!(event_of_send(false), DeliveryEvent::QueueClosed);
}

#[test]
fn a_wake_up_becomes_an_event() {
    assert_eq!(event_of_wait(Waited::StopSignal(true)), Some(DeliveryEvent::Stop));
    assert_eq!(event_of_wait(Waited::StopSignal(false)), None);
    assert_eq!(event_of_wait(Waited::StopClosed), Some(DeliveryEvent::Stop));
    assert_eq!(
        event_of_wait(Waited::Told(AckOutcome::Acked(AckKind::PubRec))),
        Some(DeliveryEvent::Outcome(AckOutcome::Acked(AckKind::PubRec)))
    );
    assert_eq!(
        event_of_wait(Waited::SinkClosed),
        Some(DeliveryEvent::Outcome(AckOutcome::Cancelled))
    );
    assert_eq!(
        event_of_wait(Waited::DeadlinePassed),
        Some(DeliveryEvent::Outcome(AckOutcome::Timeout))
    );
}

#[test]
fn a_stalled_delivery_rests_unless_it_is_told_to_stop() {
    let mut cluster = MQTTCluster::new();
    assert_eq!(after_stall(Some(true), &cluster), StallStep::GiveUp);
    assert_eq!(after_stall(Some(false), &cluster), StallStep::Retry { after_millis: 100 });
    assert_eq!(after_stall(None, &cluster), StallStep::Retry { after_millis: 100 });
    cluster.send_try_mut_sleep_time_ms = 7;
    assert_eq!(after_stall(None, &cluster), StallStep::Retry { after_millis: 7 });
}
