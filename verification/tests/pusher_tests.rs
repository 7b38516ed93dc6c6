use bytes::Bytes;
use mqtt_broker::cluster::MQTTCluster;
use mqtt_broker::message::Message;
use mqtt_broker::metadata::MetadataCache;
use mqtt_broker::packet::MQTTProtocol;
use mqtt_broker::pusher::{
    share_sub_rewrite_publish_flag, BatchRun, Dispatch, ExitReason, Pusher, PusherStep,
    RecordOutcome, RunStep, MAX_WAIT_MS,
};
use mqtt_broker::qos::QoS;
use mqtt_broker::strategy::{Strategy, StrategyState};
use mqtt_broker::subscribe::{SubscribeManager, SubscriberEntry};

fn entry(client: &str, qos: QoS) -> SubscriberEntry {
    SubscriberEntry {
        client_id: client.to_string(),
        qos,
        subscription_identifier: None,
        protocol: MQTTProtocol::MQTT5,
        is_contain_rewrite_flag: false,
    }
}

fn message(offset: u64, qos: QoS, payload: &str) -> Message {
    Message {
        offset,
        qos,
        payload: Bytes::from(payload.to_string()),
        user_properties: Vec::new(),
        timestamp: 1_700_000_000,
        retained: false,
    }
}

fn connected(clients: &[(&str, u64)]) -> MetadataCache {
    let mut cache = MetadataCache::new();
    for (client, id) in clients {
        cache.set_connect_id(client.to_string(), *id);
    }
    cache
}

fn pusher() -> Pusher {
    Pusher::new("G".to_string(), "T".to_string(), "topic/name".to_string(), Strategy::RoundRobin, 0)
}

fn delivered(outcome: &RecordOutcome) -> &Dispatch {
    match outcome {
        RecordOutcome::Deliver(dispatch) => dispatch,
        other => panic!("not delivered: {:?}", other),
    }
}

#[test]
fn a_new_pusher_starts_its_strategy() {
    let p = pusher();
    assert_eq!(p.group_name, "G");
    assert_eq!(p.topic_id, "T");
    assert_eq!(p.topic_name, "topic/name");
    assert_eq!(p.state, StrategyState::RoundRobin { cursor: 0 });
    assert_eq!(p.consumer_group(), "system_sub_G_T");
    let random = Pusher::new("g".to_string(), "t".to_string(), "n".to_string(), Strategy::Random, 9);
    assert_eq!(random.state, StrategyState::Random { seed: 9 });
}

#[test]
fn qos0_fan_out_round_robin() {
    let subs = vec![
        entry("A", QoS::ExactlyOnce),
        entry("B", QoS::ExactlyOnce),
        entry("C", QoS::ExactlyOnce),
    ];
    let cache = connected(&[("A", 1), ("B", 2), ("C", 3)]);
    let cluster = MQTTCluster::new();
    let records: Vec<Option<Message>> = (1..=6)
        .map(|i| Some(message(i, QoS::AtMostOnce, &format!("M{}", i))))
        .collect();
    let mut p = pusher();
    let outcomes = p.dispatch_batch(&subs, &records, &cache, &cluster);
    assert_eq!(outcomes.len(), 6);
    let got: Vec<(String, String)> = outcomes
        .iter()
        .map(|o| {
            let d = delivered(o);
            (d.client_id.clone(), String::from_utf8(d.publish.payload.to_vec()).unwrap())
        })
        .collect();
    let expected: Vec<(String, String)> = [
        ("A", "M1"),
        ("B", "M2"),
        ("C", "M3"),
        ("A", "M4"),
        ("B", "M5"),
        ("C", "M6"),
    ]
    .iter()
    .map(|(c, m)| (c.to_string(), m.to_string()))
    .collect();
    assert_eq!(got, expected);
    for outcome in &outcomes {
        let d = delivered(outcome);
        assert_eq!(d.publish.qos, QoS::AtMostOnce);
        assert_eq!(d.publish.pkid, 0);
    }
    assert_eq!(cache.live_pkids(&"A".to_string()), 0);
    assert_eq!(cache.live_pkids(&"B".to_string()), 0);
    assert_eq!(cache.live_pkids(&"C".to_string()), 0);
    assert_eq!(p.state, StrategyState::RoundRobin { cursor: 6 });
}

#[test]
fn qos_clamp() {
    let subs = vec![
        entry("A", QoS::AtMostOnce),
        entry("B", QoS::ExactlyOnce),
        entry("C", QoS::ExactlyOnce),
    ];
    let cache = connected(&[("A", 1), ("B", 2), ("C", 3)]);
    let cluster = MQTTCluster::new();
    let records: Vec<Option<Message>> =
        (1..=3).map(|i| Some(message(i, QoS::ExactlyOnce, "m"))).collect();
    let mut p = pusher();
    let outcomes = p.dispatch_batch(&subs, &records, &cache, &cluster);
    assert_eq!(delivered(&outcomes[0]).client_id, "A");
    assert_eq!(delivered(&outcomes[0]).publish.qos, QoS::AtMostOnce);
    assert_eq!(delivered(&outcomes[1]).client_id, "B");
    assert_eq!(delivered(&outcomes[1]).publish.qos, QoS::ExactlyOnce);
    assert_eq!(delivered(&outcomes[2]).client_id, "C");
    assert_eq!(delivered(&outcomes[2]).publish.qos, QoS::ExactlyOnce);
}

#[test]
fn the_cluster_clamps_too() {
    let subs = vec![entry("A", QoS::ExactlyOnce)];
    let cache = connected(&[("A", 1)]);
    let mut cluster = MQTTCluster::new();
    cluster.max_qos = QoS::AtLeastOnce;
    let mut p = pusher();
    let outcome =
        p.dispatch_record(&subs, &Some(message(1, QoS::ExactlyOnce, "m")), &cache, &cluster);
    assert_eq!(delivered(&outcome).publish.qos, QoS::AtLeastOnce);
}

#[test]
fn a_dispatch_carries_the_publish_as_specified() {
    let mut sub = entry("A", QoS::AtLeastOnce);
    sub.subscription_identifier = Some(77);
    sub.is_contain_rewrite_flag = true;
    sub.protocol = MQTTProtocol::MQTT4;
    let subs = vec![sub];
    let cache = connected(&[("A", 4321)]);
    let mut p = pusher();
    let outcome = p.dispatch_record(
        &subs,
        &Some(message(12, QoS::ExactlyOnce, "hello")),
        &cache,
        &MQTTCluster::new(),
    );
    let d = delivered(&outcome);
    assert_eq!(d.client_id, "A");
    assert_eq!(d.connection_id, 4321);
    assert_eq!(d.protocol, MQTTProtocol::MQTT4);
    assert_eq!(d.offset, 12);
    assert!(!d.publish.dup);
    assert!(!d.publish.retain);
    assert_eq!(d.publish.pkid, 0);
    assert_eq!(d.publish.qos, QoS::AtLeastOnce);
    assert_eq!(d.publish.topic, Bytes::from("topic/name"));
    assert_eq!(d.publish.payload, Bytes::from("hello"));
    assert_eq!(d.properties.payload_format_indicator, None);
    assert_eq!(d.properties.message_expiry_interval, None);
    assert_eq!(d.properties.topic_alias, None);
    assert_eq!(d.properties.response_topic, None);
    assert_eq!(d.properties.correlation_data, None);
    assert_eq!(d.properties.content_type, None);
    assert_eq!(d.properties.subscription_identifiers, vec![77]);
    assert_eq!(
        d.properties.user_properties,
        vec![("$system_ssrpf".to_string(), "True".to_string())]
    );
    assert_eq!(
        share_sub_rewrite_publish_flag(),
        ("$system_ssrpf".to_string(), "True".to_string())
    );
}

#[test]
fn a_topic_name_goes_out_as_its_utf8_bytes() {
    let subs = vec![entry("A", QoS::AtMostOnce)];
    let cache = connected(&[("A", 1)]);
    let mut p = Pusher::new(
        "g".to_string(),
        "t".to_string(),
        "sensor/温度/ü".to_string(),
        Strategy::RoundRobin,
        0,
    );
    let outcome =
        p.dispatch_record(&subs, &Some(message(1, QoS::AtMostOnce, "x")), &cache, &MQTTCluster::new());
    let d = delivered(&outcome);
    assert_eq!(d.publish.topic.to_vec(), "sensor/温度/ü".as_bytes().to_vec());
    assert!(d.properties.user_properties.is_empty());
    assert!(d.properties.subscription_identifiers.is_empty());
}

#[test]
fn a_record_that_does_not_decode_is_dropped() {
    let subs = vec![entry("A", QoS::AtMostOnce), entry("B", QoS::AtMostOnce)];
    let cache = connected(&[("A", 1), ("B", 2)]);
    let records = vec![
        Some(message(1, QoS::AtMostOnce, "m1")),
        None,
        Some(message(3, QoS::AtMostOnce, "m3")),
    ];
    let mut p = pusher();
    let outcomes = p.dispatch_batch(&subs, &records, &cache, &MQTTCluster::new());
    assert_eq!(delivered(&outcomes[0]).client_id, "A");
    assert_eq!(outcomes[1], RecordOutcome::Dropped);
    assert_eq!(delivered(&outcomes[2]).client_id, "B");
    assert_eq!(p.state, StrategyState::RoundRobin { cursor: 2 });
}

#[test]
fn a_member_without_connection_is_skipped() {
    let subs = vec![entry("A", QoS::AtMostOnce), entry("B", QoS::AtMostOnce)];
    let cache = connected(&[("A", 1)]);
    let records: Vec<Option<Message>> =
        (1..=4).map(|i| Some(message(i, QoS::AtMostOnce, "m"))).collect();
    let mut p = pusher();
    let outcomes = p.dispatch_batch(&subs, &records, &cache, &MQTTCluster::new());
    assert_eq!(delivered(&outcomes[0]).offset, 1);
    assert_eq!(outcomes[1], RecordOutcome::ClientGone { client_id: "B".to_string() });
    assert_eq!(delivered(&outcomes[2]).offset, 3);
    assert_eq!(outcomes[3], RecordOutcome::ClientGone { client_id: "B".to_string() });
    assert_eq!(p.state, StrategyState::RoundRobin { cursor: 4 });
}

#[test]
fn an_empty_list_takes_no_message() {
    let subs: Vec<SubscriberEntry> = Vec::new();
    let mut p = pusher();
    let outcome = p.dispatch_record(
        &subs,
        &Some(message(1, QoS::AtMostOnce, "m")),
        &MetadataCache::new(),
        &MQTTCluster::new(),
    );
    assert_eq!(outcome, RecordOutcome::NoSubscriber);
    assert_eq!(p.state, StrategyState::RoundRobin { cursor: 0 });
}

#[test]
fn deliveries_keep_the_order_of_the_log() {
    let subs = vec![entry("A", QoS::AtMostOnce), entry("B", QoS::AtMostOnce), entry("C", QoS::AtMostOnce)];
    let cache = connected(&[("A", 1), ("C", 3)]);
    let records: Vec<Option<Message>> = vec![
        Some(message(10, QoS::AtMostOnce, "a")),
        Some(message(11, QoS::AtMostOnce, "b")),
        None,
        Some(message(15, QoS::AtMostOnce, "c")),
        Some(message(16, QoS::AtMostOnce, "d")),
        Some(message(20, QoS::AtMostOnce, "e")),
    ];
    let mut p = pusher();
    let outcomes = p.dispatch_batch(&subs, &records, &cache, &MQTTCluster::new());
    let mut offsets = Vec::new();
    for outcome in &outcomes {
        if let RecordOutcome::Deliver(d) = outcome {
            offsets.push(d.offset);
        }
    }
    assert_eq!(offsets, vec![10, 15, 16]);
}

#[test]
fn the_cursor_lives_across_batches() {
    let subs = vec![entry("A", QoS::AtMostOnce), entry("B", QoS::AtMostOnce), entry("C", QoS::AtMostOnce)];
    let cache = connected(&[("A", 1), ("B", 2), ("C", 3)]);
    let mut p = pusher();
    let first: Vec<Option<Message>> =
        (1..=2).map(|i| Some(message(i, QoS::AtMostOnce, "m"))).collect();
    let second: Vec<Option<Message>> =
        (3..=4).map(|i| Some(message(i, QoS::AtMostOnce, "m"))).collect();
    let a = p.dispatch_batch(&subs, &first, &cache, &MQTTCluster::new());
    let b = p.dispatch_batch(&subs, &second, &cache, &MQTTCluster::new());
    assert_eq!(delivered(&a[0]).client_id, "A");
    assert_eq!(delivered(&a[1]).client_id, "B");
    assert_eq!(delivered(&b[0]).client_id, "C");
    assert_eq!(delivered(&b[1]).client_id, "A");
}

#[test]
fn a_round_begins_with_the_stop_signal() {
    let mut subs = SubscribeManager::new();
    subs.add_subscriber("G".to_string(), "T".to_string(), "topic/name".to_string(), entry("A", QoS::AtMostOnce));
    let p = pusher();
    assert_eq!(p.begin_iteration(Some(true), &subs), PusherStep::Exit(ExitReason::Stopped));
    assert_eq!(
        p.begin_iteration(Some(true), &SubscribeManager::new()),
        PusherStep::Exit(ExitReason::Stopped)
    );
}

#[test]
fn a_round_ends_the_pusher_when_the_group_is_gone() {
    let p = pusher();
    assert_eq!(
        p.begin_iteration(None, &SubscribeManager::new()),
        PusherStep::Exit(ExitReason::GroupGone)
    );
    let mut subs = SubscribeManager::new();
    subs.add_subscriber("G".to_string(), "other".to_string(), "x".to_string(), entry("A", QoS::AtMostOnce));
    assert_eq!(p.begin_iteration(Some(false), &subs), PusherStep::Exit(ExitReason::GroupGone));
}

#[test]
fn a_round_rests_while_the_group_is_empty() {
    let mut subs = SubscribeManager::new();
    subs.add_subscriber("G".to_string(), "T".to_string(), "topic/name".to_string(), entry("A", QoS::AtMostOnce));
    subs.remove_subscriber(&"G".to_string(), &"T".to_string(), &"A".to_string());
    assert_eq!(pusher().begin_iteration(None, &subs), PusherStep::Sleep { millis: 500 });
    assert_eq!(MAX_WAIT_MS, 500);
}

#[test]
fn a_round_reads_twice_as_many_records_as_members() {
    let mut subs = SubscribeManager::new();
    for client in ["A", "B", "C"] {
        subs.add_subscriber("G".to_string(), "T".to_string(), "topic/name".to_string(), entry(client, QoS::AtLeastOnce));
    }
    let step = pusher().begin_iteration(Some(false), &subs);
    assert_eq!(
        step,
        PusherStep::Read {
            topic_id: "T".to_string(),
            group_id: "system_sub_G_T".to_string(),
            max_records: 6,
            sub_list: vec![
                entry("A", QoS::AtLeastOnce),
                entry("B", QoS::AtLeastOnce),
                entry("C", QoS::AtLeastOnce)
            ],
        }
    );
}

#[test]
fn a_read_without_records_is_followed_by_a_rest() {
    assert_eq!(Pusher::backoff_after_read(false, 0), Some(500));
    assert_eq!(Pusher::backoff_after_read(true, 0), Some(500));
    assert_eq!(Pusher::backoff_after_read(true, 3), Some(500));
    assert_eq!(Pusher::backoff_after_read(false, 1), None);
}

#[test]
fn the_local_strategy_learns_who_is_connected() {
    let subs = vec![
        entry("A", QoS::AtMostOnce),
        entry("B", QoS::AtMostOnce),
        entry("C", QoS::AtMostOnce),
    ];
    let cache = connected(&[("C", 3), ("A", 1)]);
    let mut p = Pusher::new("g".to_string(), "t".to_string(), "n".to_string(), Strategy::Local, 0);
    p.observe_connections(&subs, &cache);
    assert_eq!(
        p.state,
        StrategyState::Local { cursor: 0, on_node: vec!["A".to_string(), "C".to_string()] }
    );
    let records: Vec<Option<Message>> =
        (1..=4).map(|i| Some(message(i, QoS::AtMostOnce, "m"))).collect();
    let outcomes = p.dispatch_batch(&subs, &records, &cache, &MQTTCluster::new());
    let clients: Vec<String> = outcomes.iter().map(|o| delivered(o).client_id.clone()).collect();
    assert_eq!(clients, vec!["A", "C", "C", "A"]);
    let mut q = pusher();
    q.observe_connections(&subs, &cache);
    assert_eq!(q.state, StrategyState::RoundRobin { cursor: 0 });
}

#[test]
fn sticky_rebinds_when_its_member_has_no_connection() {
    let subs = vec![entry("A", QoS::AtMostOnce), entry("B", QoS::AtMostOnce)];
    let cache = connected(&[("B", 2)]);
    let mut p = Pusher::new("g".to_string(), "t".to_string(), "n".to_string(), Strategy::Sticky, 0);
    let records: Vec<Option<Message>> =
        (1..=3).map(|i| Some(message(i, QoS::AtMostOnce, "m"))).collect();
    let outcomes = p.dispatch_batch(&subs, &records, &cache, &MQTTCluster::new());
    assert_eq!(outcomes[0], RecordOutcome::ClientGone { client_id: "A".to_string() });
    assert_eq!(delivered(&outcomes[1]).client_id, "B");
    assert_eq!(delivered(&outcomes[2]).client_id, "B");
    assert_eq!(p.state, StrategyState::Sticky { bound: Some("B".to_string()) });
}

#[test]
fn sticky_goes_round_until_it_finds_a_connection() {
    let subs = vec![
        entry("A", QoS::AtMostOnce),
        entry("B", QoS::AtMostOnce),
        entry("C", QoS::AtMostOnce),
    ];
    let mut p = Pusher::new("g".to_string(), "t".to_string(), "n".to_string(), Strategy::Sticky, 0);
    p.state = StrategyState::Sticky { bound: Some("B".to_string()) };
    let cache = connected(&[("A", 1)]);
    let records: Vec<Option<Message>> =
        (1..=4).map(|i| Some(message(i, QoS::AtMostOnce, "m"))).collect();
    let outcomes = p.dispatch_batch(&subs, &records, &cache, &MQTTCluster::new());
    assert_eq!(outcomes[0], RecordOutcome::ClientGone { client_id: "B".to_string() });
    assert_eq!(outcomes[1], RecordOutcome::ClientGone { client_id: "C".to_string() });
    assert_eq!(delivered(&outcomes[2]).client_id, "A");
    assert_eq!(delivered(&outcomes[3]).client_id, "A");
}

#[test]
fn a_run_hands_out_one_delivery_at_a_time() {
    let subs = vec![entry("A", QoS::AtLeastOnce), entry("B", QoS::AtLeastOnce)];
    let cache = connected(&[("A", 1)]);
    let cluster = MQTTCluster::new();
    let mut p = pusher();
    let mut run = BatchRun::new(vec![
        Some(message(5, QoS::AtLeastOnce, "a")),
        Some(message(6, QoS::AtLeastOnce, "b")),
        None,
        Some(message(8, QoS::AtLeastOnce, "c")),
    ]);
    match run.next_record(&mut p, &subs, &cache, &cluster) {
        RunStep::Outcome(RecordOutcome::Deliver(d)) => assert_eq!(d.offset, 5),
        other => panic!("no delivery: {:?}", other),
    }
    assert_eq!(run.next_record(&mut p, &subs, &cache, &cluster), RunStep::Wait);
    assert_eq!(run.next_record(&mut p, &subs, &cache, &cluster), RunStep::Wait);
    assert_eq!(p.state, StrategyState::RoundRobin { cursor: 1 });
    run.delivery_over();
    assert_eq!(
        run.next_record(&mut p, &subs, &cache, &cluster),
        RunStep::Outcome(RecordOutcome::ClientGone { client_id: "B".to_string() })
    );
    assert_eq!(
        run.next_record(&mut p, &subs, &cache, &cluster),
        RunStep::Outcome(RecordOutcome::Dropped)
    );
    match run.next_record(&mut p, &subs, &cache, &cluster) {
        RunStep::Outcome(RecordOutcome::Deliver(d)) => assert_eq!(d.offset, 8),
        other => panic!("no delivery: {:?}", other),
    }
    assert_eq!(run.next_record(&mut p, &subs, &cache, &cluster), RunStep::Wait);
    run.delivery_over();
    assert_eq!(run.next_record(&mut p, &subs, &cache, &cluster), RunStep::Done);
    assert_eq!(run.next_record(&mut p, &subs, &cache, &cluster), RunStep::Done);
    assert_eq!(p.state, StrategyState::RoundRobin { cursor: 3 });
}
