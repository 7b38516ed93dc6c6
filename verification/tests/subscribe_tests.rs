use mqtt_broker::packet::MQTTProtocol;
use mqtt_broker::qos::QoS;
use mqtt_broker::subscribe::{find_client, group_key, SubscribeManager, SubscriberEntry};

fn entry(client: &str, qos: QoS) -> SubscriberEntry {
    SubscriberEntry {
        client_id: client.to_string(),
        qos,
        subscription_identifier: None,
        protocol: MQTTProtocol::MQTT5,
        is_contain_rewrite_flag: false,
    }
}

fn names(manager: &SubscribeManager, group: &str, topic: &str) -> Vec<String> {
    manager
        .snapshot(&group.to_string(), &topic.to_string())
        .unwrap()
        .into_iter()
        .map(|e| e.client_id)
        .collect()
}

#[test]
fn group_key_joins_group_and_topic() {
    assert_eq!(group_key("g1", "t7"), "g1_t7");
    assert_eq!(group_key("", ""), "_");
    assert_eq!(group_key("grüppe", "töpic"), "grüppe_töpic");
}

#[test]
fn group_key_keeps_pairs_apart() {
    assert_eq!(group_key("a_b", "c"), "a\\_b_c");
    assert_eq!(group_key("a", "b_c"), "a_b_c");
    assert_eq!(group_key("a\\", "b"), "a\\\\_b");
    assert_eq!(group_key("a", "\\_b"), "a_\\_b");
    assert_eq!(group_key("_", ""), "\\__");
    assert_eq!(group_key("", "_"), "__");
    assert_ne!(group_key("a_b", "c"), group_key("a", "b_c"));
    assert_ne!(group_key("_", ""), group_key("", "_"));
}

#[test]
fn pairs_that_read_alike_are_different_groups() {
    let mut manager = SubscribeManager::new();
    manager.add_subscriber("a_b".to_string(), "c".to_string(), "x".to_string(), entry("one", QoS::AtMostOnce));
    manager.add_subscriber("a".to_string(), "b_c".to_string(), "y".to_string(), entry("two", QoS::AtMostOnce));
    assert_eq!(manager.len(), 2);
    assert_eq!(names(&manager, "a_b", "c"), vec!["one"]);
    assert_eq!(names(&manager, "a", "b_c"), vec!["two"]);
    assert_eq!(manager.get(&"a".to_string(), &"b_c".to_string()).unwrap().topic_name, "y");
    assert!(manager.remove_group(&"a_b".to_string(), &"c".to_string()));
    assert_eq!(names(&manager, "a", "b_c"), vec!["two"]);
}

#[test]
fn subscribers_keep_their_order() {
    let mut manager = SubscribeManager::new();
    let g = "g".to_string();
    let t = "t".to_string();
    assert_eq!(manager.len(), 0);
    assert!(manager.snapshot(&g, &t).is_none());
    for client in ["a", "b", "c"] {
        manager.add_subscriber(g.clone(), t.clone(), "topic/x".to_string(), entry(client, QoS::AtLeastOnce));
    }
    assert_eq!(manager.len(), 1);
    assert_eq!(names(&manager, "g", "t"), vec!["a", "b", "c"]);
    let group = manager.get(&g, &t).unwrap();
    assert_eq!(group.group_name, "g");
    assert_eq!(group.topic_id, "t");
    assert_eq!(group.topic_name, "topic/x");
    assert_eq!(group.epoch, 2);
    assert!(manager.remove_subscriber(&g, &t, &"b".to_string()));
    assert_eq!(names(&manager, "g", "t"), vec!["a", "c"]);
    assert_eq!(manager.get(&g, &t).unwrap().epoch, 3);
    assert!(!manager.remove_subscriber(&g, &t, &"b".to_string()));
    assert_eq!(manager.get(&g, &t).unwrap().epoch, 3);
}

#[test]
fn subscribing_again_replaces_the_entry_in_place() {
    let mut manager = SubscribeManager::new();
    let g = "g".to_string();
    let t = "t".to_string();
    manager.add_subscriber(g.clone(), t.clone(), "x".to_string(), entry("a", QoS::AtMostOnce));
    manager.add_subscriber(g.clone(), t.clone(), "x".to_string(), entry("b", QoS::AtMostOnce));
    manager.add_subscriber(g.clone(), t.clone(), "x".to_string(), entry("a", QoS::ExactlyOnce));
    let list = manager.snapshot(&g, &t).unwrap();
    assert_eq!(list.len(), 2);
    assert_eq!(list[0], entry("a", QoS::ExactlyOnce));
    assert_eq!(list[1], entry("b", QoS::AtMostOnce));
    assert_eq!(find_client(&list, &"b".to_string()), Some(1));
    assert_eq!(find_client(&list, &"z".to_string()), None);
}

#[test]
fn an_empty_group_stays_filed_until_it_is_removed() {
    let mut manager = SubscribeManager::new();
    let g = "g".to_string();
    let t = "t".to_string();
    manager.add_subscriber(g.clone(), t.clone(), "x".to_string(), entry("a", QoS::AtMostOnce));
    assert!(manager.remove_subscriber(&g, &t, &"a".to_string()));
    assert!(manager.contains_key(&"g_t".to_string()));
    assert_eq!(manager.snapshot(&g, &t).unwrap().len(), 0);
    assert!(manager.remove_group(&g, &t));
    assert!(!manager.remove_group(&g, &t));
    assert!(!manager.contains_key(&"g_t".to_string()));
    assert!(manager.get(&g, &t).is_none());
    assert!(!manager.remove_subscriber(&g, &t, &"a".to_string()));
}

#[test]
fn groups_are_kept_apart() {
    let mut manager = SubscribeManager::new();
    manager.add_subscriber("g1".to_string(), "t".to_string(), "x".to_string(), entry("a", QoS::AtMostOnce));
    manager.add_subscriber("g2".to_string(), "t".to_string(), "x".to_string(), entry("b", QoS::AtMostOnce));
    assert_eq!(manager.len(), 2);
    assert_eq!(manager.group_at(0).group_name, "g1");
    assert_eq!(manager.group_at(1).group_name, "g2");
    assert_eq!(manager.find_key(&"g2_t".to_string()), Some(1));
    assert_eq!(names(&manager, "g1", "t"), vec!["a"]);
    assert_eq!(names(&manager, "g2", "t"), vec!["b"]);
    assert!(manager.remove_group(&"g1".to_string(), &"t".to_string()));
    assert_eq!(manager.len(), 1);
    assert_eq!(manager.group_at(0).group_name, "g2");
}
