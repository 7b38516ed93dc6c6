use mqtt_broker::qos::{effective_qos, min_qos, QoS};

#[test]
fn levels_are_numbered_as_in_mqtt() {
    assert_eq!(QoS::AtMostOnce.level(), 0);
    assert_eq!(QoS::AtLeastOnce.level(), 1);
    assert_eq!(QoS::ExactlyOnce.level(), 2);
    assert_eq!(QoS::from_level(0), Some(QoS::AtMostOnce));
    assert_eq!(QoS::from_level(1), Some(QoS::AtLeastOnce));
    assert_eq!(QoS::from_level(2), Some(QoS::ExactlyOnce));
    assert_eq!(QoS::from_level(3), None);
}

#[test]
fn min_qos_takes_the_lower() {
    assert_eq!(min_qos(QoS::ExactlyOnce, QoS::AtMostOnce), QoS::AtMostOnce);
    assert_eq!(min_qos(QoS::AtLeastOnce, QoS::ExactlyOnce), QoS::AtLeastOnce);
    assert_eq!(min_qos(QoS::ExactlyOnce, QoS::ExactlyOnce), QoS::ExactlyOnce);
}

#[test]
fn effective_qos_is_the_minimum_of_the_three() {
    let all = [QoS::AtMostOnce, QoS::AtLeastOnce, QoS::ExactlyOnce];
    for producer in all {
        for subscriber in all {
            for cluster in all {
                let expected = producer.level().min(subscriber.level()).min(cluster.level());
                assert_eq!(effective_qos(producer, subscriber, cluster).level(), expected);
            }
        }
    }
    assert_eq!(
        effective_qos(QoS::ExactlyOnce, QoS::AtLeastOnce, QoS::ExactlyOnce),
        QoS::AtLeastOnce
    );
    assert_eq!(
        effective_qos(QoS::ExactlyOnce, QoS::ExactlyOnce, QoS::AtMostOnce),
        QoS::AtMostOnce
    );
}
