//! Quality-of-service levels and the clamp applied to every outgoing message.

use vstd::prelude::*;

verus! {

/// MQTT quality of service of a message or of a subscription.
#[derive(Clone, Copy, Debug, PartialEq, Eq, Structural)]
pub enum QoS {
    AtMostOnce,
    AtLeastOnce,
    ExactlyOnce,
}

impl QoS {
    /// The level as MQTT numbers it: 0, 1 or 2.
    pub open spec fn rank(self) -> int {
        match self {
            QoS::AtMostOnce => 0,
            QoS::AtLeastOnce => 1,
            QoS::ExactlyOnce => 2,
        }
    }

    /// The level as the byte that goes on the wire.
    pub fn level(self) -> (n: u8)
        ensures
            n == self.rank(),
    {
        match self {
            QoS::AtMostOnce => 0,
            QoS::AtLeastOnce => 1,
            QoS::ExactlyOnce => 2,
        }
    }

    /// The level that a wire byte names, if it names one.
    pub fn from_level(n: u8) -> (q: Option<QoS>)
        ensures
            n <= 2 ==> q is Some && q->0.rank() == n,
            n > 2 ==> q is None,
    {
        if n == 0 {
            Some(QoS::AtMostOnce)
        } else if n == 1 {
            Some(QoS::AtLeastOnce)
        } else if n == 2 {
            Some(QoS::ExactlyOnce)
        } else {
            None
        }
    }
}

/// The lower of two levels.
pub open spec fn lower_qos(a: QoS, b: QoS) -> QoS {
    if a.rank() <= b.rank() {
        a
    } else {
        b
    }
}

/// The level at which a message is delivered: the lowest of what the
/// producer sent, what the subscriber asked for and what the cluster allows.
pub open spec fn clamped_qos(producer: QoS, subscriber: QoS, cluster_max: QoS) -> QoS {
    lower_qos(lower_qos(producer, subscriber), cluster_max)
}

/// Returns the lower of two levels.
pub fn min_qos(a: QoS, b: QoS) -> (q: QoS)
    ensures
        q == lower_qos(a, b),
        q.rank() == vstd::math::min(a.rank(), b.rank()),
{
    if a.level() <= b.level() {
        a
    } else {
        b
    }
}

/// Returns the level at which a message reaches a subscriber.
pub fn effective_qos(producer: QoS, subscriber: QoS, cluster_max: QoS) -> (q: QoS)
    ensures
        q == clamped_qos(producer, subscriber, cluster_max),
        q.rank() == vstd::math::min(
            vstd::math::min(producer.rank(), subscriber.rank()),
            cluster_max.rank(),
        ),
{
    min_qos(min_qos(producer, subscriber), cluster_max)
}

/// The delivered level never exceeds any of its three bounds, equals one of
/// them, and does not depend on the order in which they are clamped.
pub proof fn lemma_clamped_qos_is_minimum(producer: QoS, subscriber: QoS, cluster_max: QoS)
    ensures
        clamped_qos(producer, subscriber, cluster_max).rank() <= producer.rank(),
        clamped_qos(producer, subscriber, cluster_max).rank() <= subscriber.rank(),
        clamped_qos(producer, subscriber, cluster_max).rank() <= cluster_max.rank(),
        clamped_qos(producer, subscriber, cluster_max) == producer || clamped_qos(
            producer,
            subscriber,
            cluster_max,
        ) == subscriber || clamped_qos(producer, subscriber, cluster_max) == cluster_max,
        clamped_qos(producer, subscriber, cluster_max) == clamped_qos(
            subscriber,
            cluster_max,
            producer,
        ),
{
}

} // verus!
