//! The delivery of one message to one subscriber: the handshake of its
//! QoS level as a state machine. The task that owns a delivery performs
//! each action, reports what happened, and is told what comes next.

use crate::ack::{
    first_stage, has_waiter, lemma_registered_waiter, waiters_after_ack, waiters_without,
    AckExpect, AckKind, AckManager, AckOutcome, AckSignal, AckWaiter, WaiterStage, WaiterView,
};
use crate::channel::{broadcast_len, broadcast_send};
use crate::cluster::MQTTCluster;
use crate::metadata::MetadataCache;
use crate::packet::{MQTTPacket, MQTTProtocol, Publish, ResponsePackage};
use crate::pkid::{probe, probe_distance};
use crate::pusher::Dispatch;
use crate::qos::QoS;
use tokio::sync::broadcast::Sender;
use vstd::prelude::*;

verus! {

/// The egress queue of a protocol family.
#[derive(Clone, Copy, Debug, PartialEq, Eq, Structural)]
pub enum EgressQueue {
    /// MQTT 3.1 and 3.1.1.
    V4,
    /// MQTT 5.
    V5,
}

/// The egress queue that serves a protocol version.
pub open spec fn queue_of(protocol: MQTTProtocol) -> EgressQueue {
    match protocol {
        MQTTProtocol::MQTT5 => EgressQueue::V5,
        _ => EgressQueue::V4,
    }
}

/// Why a delivery failed.
#[derive(Clone, Copy, Debug, PartialEq, Eq, Structural)]
pub enum FailReason {
    /// The egress queue stayed full for every attempt of the budget.
    QueueExhausted,
    /// The egress queue is closed: the client has disconnected.
    ClientGone,
    /// No acknowledgement came in time.
    Timeout,
    /// The waiter was cancelled.
    Cancelled,
    /// The pusher was told to stop.
    Stopped,
    /// An acknowledgement came that the handshake does not expect here.
    UnexpectedAck,
}

/// Where a delivery stands.
#[derive(Clone, Copy, Debug, PartialEq, Eq, Structural)]
pub enum DeliveryPhase {
    /// The PUBLISH is being put on the egress queue.
    Sending,
    /// QoS 1: PUBLISH is out, PUBACK is awaited.
    AwaitingAck,
    /// QoS 2: PUBLISH is out, PUBREC is awaited.
    AwaitingRec,
    /// QoS 2: PUBREC is in, PUBREL is being put on the egress queue.
    Releasing,
    /// QoS 2: PUBREL is out, PUBCOMP is awaited.
    AwaitingComp,
    Done,
    Failed(FailReason),
}

/// What the task reports to a delivery.
#[derive(Clone, Copy, Debug, PartialEq, Eq, Structural)]
pub enum DeliveryEvent {
    /// The packet handed out last is on the egress queue.
    Enqueued,
    /// The egress queue had no room.
    QueueFull,
    /// The egress queue is closed.
    QueueClosed,
    /// The waiter was told this.
    Outcome(AckOutcome),
    /// The stop signal of the pusher was seen.
    Stop,
}

/// What the task has to do next.
#[derive(Debug, PartialEq, Eq)]
pub enum DeliveryAction {
    /// Put this packet on the egress queue and report how that went.
    Enqueue { queue: EgressQueue, package: ResponsePackage },
    /// Rest, then put the packet handed out last on the queue once more.
    Retry { after_millis: u64 },
    /// Await the waiter, up to the deadline, and report what it was told.
    AwaitAck,
    /// The delivery is over; `None` stands for success.
    Finished(Option<FailReason>),
    /// The event means nothing in this phase: go on as before.
    Ignored,
}

/// Why a delivery could not begin.
#[derive(Clone, Copy, Debug, PartialEq, Eq, Structural)]
pub enum BeginError {
    /// The client has as many packet identifiers in flight as it may:
    /// its deliveries above QoS 0 stall until one is free.
    Exhausted,
    /// The packet identifier that came free still has a waiter.
    DuplicateWaiter,
}

/// A delivery that could not begin, with the dispatch handed back so
/// that it can be tried again.
#[derive(Debug, PartialEq, Eq)]
pub struct Stalled {
    pub reason: BeginError,
    pub dispatch: Dispatch,
}

/// What follows a delivery that could not begin.
#[derive(Clone, Copy, Debug, PartialEq, Eq, Structural)]
pub enum StallStep {
    /// The pusher was told to stop: the dispatch is given up.
    GiveUp,
    /// Rest, then try to begin once more.
    Retry { after_millis: u64 },
}

/// What a delivery that awaits its acknowledgement woke up to.
#[derive(Clone, Copy, Debug, PartialEq, Eq, Structural)]
pub enum Waited {
    /// The stop signal held a value.
    StopSignal(bool),
    /// The stop signal is closed: the supervisor has dropped the pusher.
    StopClosed,
    /// The waiter was told this.
    Told(AckOutcome),
    /// The waiter is gone without having been told anything.
    SinkClosed,
    /// The deadline has passed.
    DeadlinePassed,
}

/// The event that a wake-up means for a delivery, `None` where it means
/// nothing and the delivery goes on waiting. A stop wins over everything;
/// a waiter that is gone counts as cancelled.
pub open spec fn event_after(waited: Waited) -> Option<DeliveryEvent> {
    match waited {
        Waited::StopSignal(flag) => if flag {
            Some(DeliveryEvent::Stop)
        } else {
            None
        },
        Waited::StopClosed => Some(DeliveryEvent::Stop),
        Waited::Told(outcome) => Some(DeliveryEvent::Outcome(outcome)),
        Waited::SinkClosed => Some(DeliveryEvent::Outcome(AckOutcome::Cancelled)),
        Waited::DeadlinePassed => Some(DeliveryEvent::Outcome(AckOutcome::Timeout)),
    }
}

/// The event that an offer to an egress queue means: a queue that holds
/// as many packets as it has room for is full and is offered nothing; a
/// queue that nobody reads any more is closed.
pub open spec fn event_of_offer(queued: usize, capacity: usize, heard: bool) -> DeliveryEvent {
    if queued >= capacity {
        DeliveryEvent::QueueFull
    } else if heard {
        DeliveryEvent::Enqueued
    } else {
        DeliveryEvent::QueueClosed
    }
}

/// Returns the event that a wake-up means for a delivery.
pub fn event_of_wait(waited: Waited) -> (event: Option<DeliveryEvent>)
    ensures
        event == event_after(waited),
{
    match waited {
        Waited::StopSignal(flag) => if flag {
            Some(DeliveryEvent::Stop)
        } else {
            None
        },
        Waited::StopClosed => Some(DeliveryEvent::Stop),
        Waited::Told(outcome) => Some(DeliveryEvent::Outcome(outcome)),
        Waited::SinkClosed => Some(DeliveryEvent::Outcome(AckOutcome::Cancelled)),
        Waited::DeadlinePassed => Some(DeliveryEvent::Outcome(AckOutcome::Timeout)),
    }
}

/// Whether an egress queue that holds `queued` packets has room for one
/// more.
pub fn has_room(queued: usize, capacity: usize) -> (room: bool)
    ensures
        room == (queued < capacity),
{
    queued < capacity
}

/// Returns the event that a send to an egress queue with room means.
pub fn event_of_send(heard: bool) -> (event: DeliveryEvent)
    ensures
        event == if heard {
            DeliveryEvent::Enqueued
        } else {
            DeliveryEvent::QueueClosed
        },
{
    if heard {
        DeliveryEvent::Enqueued
    } else {
        DeliveryEvent::QueueClosed
    }
}

/// Offers a packet to an egress queue of `capacity` packets and says how
/// that went. A full queue is not written to: the packet is offered again
/// on the next attempt.
pub fn enqueue(
    queue: &Sender<ResponsePackage>,
    capacity: usize,
    package: ResponsePackage,
) -> (event: DeliveryEvent)
    ensures
        exists|queued: usize, heard: bool| #[trigger]
            event_of_offer(queued, capacity, heard) == event,
{
    let queued = broadcast_len(queue);
    if !has_room(queued, capacity) {
        assert(event_of_offer(queued, capacity, false) == DeliveryEvent::QueueFull);
        return DeliveryEvent::QueueFull;
    }
    let heard = broadcast_send(queue, package);
    let event = event_of_send(heard);
    assert(event_of_offer(queued, capacity, heard) == event);
    event
}

/// What follows a delivery that could not begin: the pusher gives the
/// dispatch up where its stop signal holds `true`, else it rests for the
/// retry pause of the policy and tries again.
pub fn after_stall(stop: Option<bool>, cluster: &MQTTCluster) -> (step: StallStep)
    ensures
        step == if stop == Some(true) {
            StallStep::GiveUp
        } else {
            (StallStep::Retry { after_millis: cluster.send_try_mut_sleep_time_ms })
        },
{
    match stop {
        Some(flag) => if flag {
            StallStep::GiveUp
        } else {
            StallStep::Retry { after_millis: cluster.send_try_mut_sleep_time_ms }
        },
        None => StallStep::Retry { after_millis: cluster.send_try_mut_sleep_time_ms },
    }
}

/// Whether a phase is an end.
pub open spec fn is_over(phase: DeliveryPhase) -> bool {
    phase is Done || phase is Failed
}

/// The phase that follows when the packet handed out last is on the
/// queue.
pub open spec fn after_enqueued(phase: DeliveryPhase, qos: QoS) -> DeliveryPhase {
    match phase {
        DeliveryPhase::Sending => match qos {
            QoS::AtMostOnce => DeliveryPhase::Done,
            QoS::AtLeastOnce => DeliveryPhase::AwaitingAck,
            QoS::ExactlyOnce => DeliveryPhase::AwaitingRec,
        },
        DeliveryPhase::Releasing => DeliveryPhase::AwaitingComp,
        other => other,
    }
}

/// The phase that follows when the waiter was told `outcome`.
pub open spec fn after_outcome(phase: DeliveryPhase, outcome: AckOutcome) -> DeliveryPhase {
    if is_over(phase) {
        phase
    } else {
        match outcome {
            AckOutcome::Timeout => DeliveryPhase::Failed(FailReason::Timeout),
            AckOutcome::Cancelled => DeliveryPhase::Failed(FailReason::Cancelled),
            AckOutcome::Acked(kind) => match (phase, kind) {
                (DeliveryPhase::AwaitingAck, AckKind::PubAck) => DeliveryPhase::Done,
                (DeliveryPhase::AwaitingRec, AckKind::PubRec) => DeliveryPhase::Releasing,
                (DeliveryPhase::AwaitingComp, AckKind::PubComp) => DeliveryPhase::Done,
                _ => DeliveryPhase::Failed(FailReason::UnexpectedAck),
            },
        }
    }
}

/// The phase that follows an event. `attempts` counts how often the
/// current packet was offered to the queue, `budget` how often it may be.
pub open spec fn next_phase(
    phase: DeliveryPhase,
    qos: QoS,
    attempts: u64,
    budget: u64,
    event: DeliveryEvent,
) -> DeliveryPhase {
    if is_over(phase) {
        phase
    } else {
        match event {
            DeliveryEvent::Stop => DeliveryPhase::Failed(FailReason::Stopped),
            DeliveryEvent::Outcome(outcome) => after_outcome(phase, outcome),
            DeliveryEvent::Enqueued => after_enqueued(phase, qos),
            DeliveryEvent::QueueClosed => if phase is Sending || phase is Releasing {
                DeliveryPhase::Failed(FailReason::ClientGone)
            } else {
                phase
            },
            DeliveryEvent::QueueFull => if (phase is Sending || phase is Releasing) && attempts
                >= budget {
                DeliveryPhase::Failed(FailReason::QueueExhausted)
            } else {
                phase
            },
        }
    }
}

/// How often the current packet was offered to the queue after an event.
pub open spec fn next_attempts(
    phase: DeliveryPhase,
    attempts: u64,
    budget: u64,
    event: DeliveryEvent,
) -> u64 {
    if (phase is Sending || phase is Releasing) && event is QueueFull && attempts < budget {
        (attempts + 1) as u64
    } else if phase is AwaitingRec && event == DeliveryEvent::Outcome(
        AckOutcome::Acked(AckKind::PubRec),
    ) {
        1
    } else {
        attempts
    }
}

/// Whether `action` is what the task is told when an event has taken a
/// delivery of `pkid` on `connection_id` from `phase` to `next`.
pub open spec fn action_fits(
    action: DeliveryAction,
    phase: DeliveryPhase,
    next: DeliveryPhase,
    event: DeliveryEvent,
    protocol: MQTTProtocol,
    connection_id: u64,
    pkid: u16,
    sleep_ms: u64,
) -> bool {
    match next {
        DeliveryPhase::Done => action == DeliveryAction::Finished(None),
        DeliveryPhase::Failed(reason) => action == DeliveryAction::Finished(Some(reason)),
        _ => if next != phase {
            if next is Releasing {
                action == (DeliveryAction::Enqueue {
                    queue: queue_of(protocol),
                    package: ResponsePackage { connection_id, packet: MQTTPacket::PubRel { pkid } },
                })
            } else {
                action == DeliveryAction::AwaitAck
            }
        } else if (phase is Sending || phase is Releasing) && event is QueueFull {
            action == (DeliveryAction::Retry { after_millis: sleep_ms })
        } else {
            action == DeliveryAction::Ignored
        },
    }
}

/// One message on its way to one subscriber.
#[derive(Debug, PartialEq, Eq)]
pub struct Delivery {
    pub client_id: String,
    pub connection_id: u64,
    pub protocol: MQTTProtocol,
    pub qos: QoS,
    /// The packet identifier; 0 for QoS 0, which has none.
    pub pkid: u16,
    pub phase: DeliveryPhase,
    /// How often the current packet was offered to the egress queue.
    pub attempts: u64,
}

impl Delivery {
    /// Begins the delivery of a dispatched message. QoS 0 takes neither a
    /// packet identifier nor a waiter. Above QoS 0 the client gets its
    /// next packet identifier and a waiter under it, both or neither; it
    /// gets neither while it has `receive_max` identifiers in flight.
    pub fn begin<S: AckSignal>(
        dispatch: Dispatch,
        sink: S,
        now: u64,
        cache: &mut MetadataCache,
        acks: &mut AckManager<S>,
        cluster: &MQTTCluster,
    ) -> (result: Result<(Delivery, DeliveryAction), Stalled>)
        requires
            old(cache).wf(),
            old(acks).wf(),
        ensures
            final(cache).wf(),
            final(acks).wf(),
            final(acks).timeout() == old(acks).timeout(),
            final(cache).connections() == old(cache).connections(),
            forall|c: Seq<char>|
                c != dispatch.client_id@ ==> final(cache).in_flight(c) == old(cache).in_flight(c)
                    && final(cache).last_pkid(c) == old(cache).last_pkid(c),
            dispatch.publish.qos == QoS::AtMostOnce ==> {
                &&& result is Ok
                &&& final(acks)@ == old(acks)@
                &&& final(cache).last_pkid(dispatch.client_id@) == old(cache).last_pkid(
                    dispatch.client_id@,
                )
                &&& final(cache).in_flight(dispatch.client_id@) == old(cache).in_flight(
                    dispatch.client_id@,
                )
                &&& began(result->Ok_0.0, result->Ok_0.1, dispatch, 0)
            },
            dispatch.publish.qos != QoS::AtMostOnce ==> {
                let in_flight = old(cache).in_flight(dispatch.client_id@);
                let full = in_flight.len() >= cluster.receive_max || forall|id: int|
                    1 <= id <= 65535 ==> in_flight.contains(id);
                &&& result is Err && result->Err_0.reason == BeginError::Exhausted <==> full
                &&& result is Err && result->Err_0.reason == BeginError::DuplicateWaiter
                    <==> !full && has_waiter(
                    old(acks)@,
                    dispatch.client_id@,
                    the_next_pkid(old(cache).last_pkid(dispatch.client_id@), in_flight),
                )
                &&& result is Err ==> result->Err_0.dispatch == dispatch
                &&& result is Err ==> final(acks)@ == old(acks)@ && final(cache).in_flight(
                    dispatch.client_id@,
                ) == in_flight
                &&& full ==> final(cache).last_pkid(dispatch.client_id@) == old(cache).last_pkid(
                    dispatch.client_id@,
                )
                &&& !full ==> final(cache).last_pkid(dispatch.client_id@) == the_next_pkid(
                    old(cache).last_pkid(dispatch.client_id@),
                    in_flight,
                )
                &&& result matches Ok(pair) ==> {
                    let pkid = pair.0.pkid;
                    &&& 1 <= pkid <= 65535
                    &&& !in_flight.contains(pkid as int)
                    &&& forall|step: int|
                        1 <= step < probe_distance(
                            old(cache).last_pkid(dispatch.client_id@),
                            pkid as int,
                        ) ==> in_flight.contains(
                            #[trigger] probe(old(cache).last_pkid(dispatch.client_id@), step),
                        )
                    &&& final(cache).in_flight(dispatch.client_id@) == in_flight.insert(pkid as int)
                    &&& !has_waiter(old(acks)@, dispatch.client_id@, pkid)
                    &&& final(acks)@ == old(acks)@.push(
                        WaiterView {
                            client_id: dispatch.client_id@,
                            pkid,
                            created_at: now,
                            expected: expect_of(dispatch.publish.qos),
                            stage: first_stage(expect_of(dispatch.publish.qos)),
                        },
                    )
                    &&& began(pair.0, pair.1, dispatch, pkid)
                }
            },
    {
        let Dispatch { client_id, connection_id, protocol, offset, publish, properties } = dispatch;
        let qos = publish.qos;
        let queue = match protocol {
            MQTTProtocol::MQTT5 => EgressQueue::V5,
            _ => EgressQueue::V4,
        };
        let pkid: u16 = match qos {
            QoS::AtMostOnce => 0,
            _ => {
                proof {
                    cache.lemma_in_flight_bounds(client_id@);
                }
                if cache.live_pkids(&client_id) >= cluster.receive_max as usize {
                    return Err(
                        Stalled {
                            reason: BeginError::Exhausted,
                            dispatch: Dispatch {
                                client_id,
                                connection_id,
                                protocol,
                                offset,
                                publish,
                                properties,
                            },
                        },
                    );
                }
                let ghost in_flight = cache.in_flight(client_id@);
                let ghost last = cache.last_pkid(client_id@);
                let pkid = match cache.next_pkid(&client_id) {
                    Ok(pkid) => pkid,
                    Err(_) => {
                        return Err(
                            Stalled {
                                reason: BeginError::Exhausted,
                                dispatch: Dispatch {
                                    client_id,
                                    connection_id,
                                    protocol,
                                    offset,
                                    publish,
                                    properties,
                                },
                            },
                        );
                    },
                };
                proof {
                    lemma_next_pkid_is_the_next(last, in_flight, pkid as int);
                }
                let expected = match qos {
                    QoS::AtLeastOnce => AckExpect::PubAck,
                    _ => AckExpect::PubRecThenPubComp,
                };
                let waiter = AckWaiter::new(client_id.clone(), pkid, sink, now, expected);
                match acks.register(waiter) {
                    Ok(()) => {},
                    Err(_) => {
                        cache.forget_pkid(&client_id, pkid);
                        assert(in_flight.insert(pkid as int).remove(pkid as int) =~= in_flight);
                        return Err(
                            Stalled {
                                reason: BeginError::DuplicateWaiter,
                                dispatch: Dispatch {
                                    client_id,
                                    connection_id,
                                    protocol,
                                    offset,
                                    publish,
                                    properties,
                                },
                            },
                        );
                    },
                }
                pkid
            },
        };
        let publish = Publish { pkid, ..publish };
        let package = ResponsePackage {
            connection_id,
            packet: MQTTPacket::Publish(publish, Some(properties)),
        };
        let delivery = Delivery {
            client_id,
            connection_id,
            protocol,
            qos,
            pkid,
            phase: DeliveryPhase::Sending,
            attempts: 1,
        };
        Ok((delivery, DeliveryAction::Enqueue { queue, package }))
    }

    /// Takes in what the task reports and says what comes next. When the
    /// event ends a delivery above QoS 0, its packet identifier is released
    /// and its waiter dropped; otherwise cache and manager stay as they are.
    pub fn step<S: AckSignal>(
        &mut self,
        event: DeliveryEvent,
        cache: &mut MetadataCache,
        acks: &mut AckManager<S>,
        cluster: &MQTTCluster,
    ) -> (action: DeliveryAction)
        requires
            old(cache).wf(),
            old(acks).wf(),
        ensures
            final(cache).wf(),
            final(acks).wf(),
            final(acks).timeout() == old(acks).timeout(),
            final(self).client_id == old(self).client_id,
            final(self).connection_id == old(self).connection_id,
            final(self).protocol == old(self).protocol,
            final(self).qos == old(self).qos,
            final(self).pkid == old(self).pkid,
            final(self).phase == next_phase(
                old(self).phase,
                old(self).qos,
                old(self).attempts,
                cluster.send_max_try_mut_times,
                event,
            ),
            final(self).attempts == next_attempts(
                old(self).phase,
                old(self).attempts,
                cluster.send_max_try_mut_times,
                event,
            ),
            action_fits(
                action,
                old(self).phase,
                final(self).phase,
                event,
                old(self).protocol,
                old(self).connection_id,
                old(self).pkid,
                cluster.send_try_mut_sleep_time_ms,
            ),
            final(cache).connections() == old(cache).connections(),
            forall|c: Seq<char>| final(cache).last_pkid(c) == old(cache).last_pkid(c),
            forall|c: Seq<char>|
                c != old(self).client_id@ ==> final(cache).in_flight(c) == old(cache).in_flight(c),
            releases(old(self).phase, final(self).phase, old(self).qos) ==> {
                &&& final(cache).in_flight(old(self).client_id@) == old(cache).in_flight(
                    old(self).client_id@,
                ).remove(old(self).pkid as int)
                &&& final(acks)@ == waiters_without(
                    old(acks)@,
                    old(self).client_id@,
                    old(self).pkid,
                )
            },
            !releases(old(self).phase, final(self).phase, old(self).qos) ==> {
                &&& final(cache).in_flight(old(self).client_id@) == old(cache).in_flight(
                    old(self).client_id@,
                )
                &&& final(acks)@ == old(acks)@
            },
    {
        let before = self.phase;
        let budget = cluster.send_max_try_mut_times;
        let sending = match before {
            DeliveryPhase::Sending => true,
            DeliveryPhase::Releasing => true,
            _ => false,
        };
        let over = match before {
            DeliveryPhase::Done => true,
            DeliveryPhase::Failed(_) => true,
            _ => false,
        };
        let mut retry = false;
        let next: DeliveryPhase = if over {
            before
        } else {
            match event {
                DeliveryEvent::Stop => DeliveryPhase::Failed(FailReason::Stopped),
                DeliveryEvent::Outcome(outcome) => match outcome {
                    AckOutcome::Timeout => DeliveryPhase::Failed(FailReason::Timeout),
                    AckOutcome::Cancelled => DeliveryPhase::Failed(FailReason::Cancelled),
                    AckOutcome::Acked(kind) => match (before, kind) {
                        (DeliveryPhase::AwaitingAck, AckKind::PubAck) => DeliveryPhase::Done,
                        (DeliveryPhase::AwaitingRec, AckKind::PubRec) => DeliveryPhase::Releasing,
                        (DeliveryPhase::AwaitingComp, AckKind::PubComp) => DeliveryPhase::Done,
                        _ => DeliveryPhase::Failed(FailReason::UnexpectedAck),
                    },
                },
                DeliveryEvent::Enqueued => match before {
                    DeliveryPhase::Sending => match self.qos {
                        QoS::AtMostOnce => DeliveryPhase::Done,
                        QoS::AtLeastOnce => DeliveryPhase::AwaitingAck,
                        QoS::ExactlyOnce => DeliveryPhase::AwaitingRec,
                    },
                    DeliveryPhase::Releasing => DeliveryPhase::AwaitingComp,
                    other => other,
                },
                DeliveryEvent::QueueClosed => if sending {
                    DeliveryPhase::Failed(FailReason::ClientGone)
                } else {
                    before
                },
                DeliveryEvent::QueueFull => if sending {
                    if self.attempts >= budget {
                        DeliveryPhase::Failed(FailReason::QueueExhausted)
                    } else {
                        retry = true;
                        before
                    }
                } else {
                    before
                },
            }
        };
        if retry {
            self.attempts = self.attempts + 1;
        }
        self.phase = next;
        match next {
            DeliveryPhase::Done => {
                if !over {
                    self.release(false, cache, acks);
                }
                DeliveryAction::Finished(None)
            },
            DeliveryPhase::Failed(reason) => {
                if !over {
                    let tell = match reason {
                        FailReason::Stopped => true,
                        FailReason::ClientGone => true,
                        FailReason::QueueExhausted => true,
                        _ => false,
                    };
                    self.release(tell, cache, acks);
                }
                DeliveryAction::Finished(Some(reason))
            },
            DeliveryPhase::Releasing => {
                if next != before {
                    self.attempts = 1;
                    let queue = match self.protocol {
                        MQTTProtocol::MQTT5 => EgressQueue::V5,
                        _ => EgressQueue::V4,
                    };
                    DeliveryAction::Enqueue {
                        queue,
                        package: ResponsePackage {
                            connection_id: self.connection_id,
                            packet: MQTTPacket::PubRel { pkid: self.pkid },
                        },
                    }
                } else if retry {
                    DeliveryAction::Retry { after_millis: cluster.send_try_mut_sleep_time_ms }
                } else {
                    DeliveryAction::Ignored
                }
            },
            _ => {
                if next != before {
                    DeliveryAction::AwaitAck
                } else if retry {
                    DeliveryAction::Retry { after_millis: cluster.send_try_mut_sleep_time_ms }
                } else {
                    DeliveryAction::Ignored
                }
            },
        }
    }

    /// Releases the packet identifier and drops the waiter of a delivery
    /// above QoS 0. With `tell` the waiter is told that it is cancelled.
    fn release<S: AckSignal>(
        &self,
        tell: bool,
        cache: &mut MetadataCache,
        acks: &mut AckManager<S>,
    )
        requires
            old(cache).wf(),
            old(acks).wf(),
        ensures
            final(cache).wf(),
            final(acks).wf(),
            final(acks).timeout() == old(acks).timeout(),
            final(cache).connections() == old(cache).connections(),
            forall|c: Seq<char>| final(cache).last_pkid(c) == old(cache).last_pkid(c),
            forall|c: Seq<char>|
                c != self.client_id@ ==> final(cache).in_flight(c) == old(cache).in_flight(c),
            self.qos != QoS::AtMostOnce ==> {
                &&& final(cache).in_flight(self.client_id@) == old(cache).in_flight(
                    self.client_id@,
                ).remove(self.pkid as int)
                &&& final(acks)@ == waiters_without(old(acks)@, self.client_id@, self.pkid)
            },
            self.qos == QoS::AtMostOnce ==> {
                &&& final(cache).in_flight(self.client_id@) == old(cache).in_flight(self.client_id@)
                &&& final(acks)@ == old(acks)@
            },
    {
        match self.qos {
            QoS::AtMostOnce => {},
            _ => {
                cache.forget_pkid(&self.client_id, self.pkid);
                if tell {
                    acks.cancel(&self.client_id, self.pkid);
                } else {
                    acks.remove(&self.client_id, self.pkid);
                }
            },
        }
    }
}

/// Whether an event that took a delivery from `phase` to `next` ended it,
/// so that what it held is given back.
pub open spec fn releases(phase: DeliveryPhase, next: DeliveryPhase, qos: QoS) -> bool {
    !is_over(phase) && is_over(next) && qos != QoS::AtMostOnce
}

/// What a waiter of a delivery at `qos` expects.
pub open spec fn expect_of(qos: QoS) -> AckExpect {
    match qos {
        QoS::ExactlyOnce => AckExpect::PubRecThenPubComp,
        _ => AckExpect::PubAck,
    }
}

/// The packet identifier that comes next after `last`: the first in the
/// order of trial that is not in flight. Meaningful while one is free.
pub open spec fn the_next_pkid(last: int, in_flight: Set<int>) -> u16 {
    choose|pkid: u16|
        1 <= pkid <= 65535 && !in_flight.contains(pkid as int) && forall|step: int|
            1 <= step < probe_distance(last, pkid as int) ==> in_flight.contains(
                #[trigger] probe(last, step),
            )
}

/// The first free identifier in the order of trial is the only one.
pub proof fn lemma_next_pkid_is_the_next(last: int, in_flight: Set<int>, pkid: int)
    requires
        0 <= last <= 65535,
        1 <= pkid <= 65535,
        !in_flight.contains(pkid),
        forall|step: int|
            1 <= step < probe_distance(last, pkid) ==> in_flight.contains(
                #[trigger] probe(last, step),
            ),
    ensures
        the_next_pkid(last, in_flight) == pkid,
{
    let found = pkid as u16;
    let other = the_next_pkid(last, in_flight);
    assert(1 <= found <= 65535 && !in_flight.contains(found as int) && forall|step: int|
        1 <= step < probe_distance(last, found as int) ==> in_flight.contains(
            #[trigger] probe(last, step),
        ));
    crate::pkid::lemma_probe_reaches(last, pkid);
    crate::pkid::lemma_probe_reaches(last, other as int);
    let dp = probe_distance(last, pkid);
    let dq = probe_distance(last, other as int);
    if dp < dq {
        assert(in_flight.contains(probe(last, dp)));
    }
    if dq < dp {
        assert(in_flight.contains(probe(last, dq)));
    }
}

/// Whether `delivery` and `action` are the start of the delivery of
/// `dispatch` under `pkid`: the PUBLISH goes to the queue of the client's
/// protocol, unchanged but for the packet identifier.
pub open spec fn began(
    delivery: Delivery,
    action: DeliveryAction,
    dispatch: Dispatch,
    pkid: u16,
) -> bool {
    &&& delivery.client_id == dispatch.client_id
    &&& delivery.connection_id == dispatch.connection_id
    &&& delivery.protocol == dispatch.protocol
    &&& delivery.qos == dispatch.publish.qos
    &&& delivery.pkid == pkid
    &&& delivery.phase == DeliveryPhase::Sending
    &&& delivery.attempts == 1
    &&& action == (DeliveryAction::Enqueue {
        queue: queue_of(dispatch.protocol),
        package: ResponsePackage {
            connection_id: dispatch.connection_id,
            packet: MQTTPacket::Publish(
                Publish { pkid, ..dispatch.publish },
                Some(dispatch.properties),
            ),
        },
    })
}

/// The waiter that a delivery registers when it begins.
pub open spec fn waiter_of(client_id: Seq<char>, pkid: u16, now: u64, qos: QoS) -> WaiterView {
    WaiterView {
        client_id,
        pkid,
        created_at: now,
        expected: expect_of(qos),
        stage: first_stage(expect_of(qos)),
    }
}

/// The QoS 1 handshake with a PUBACK in time, from any state in which the
/// delivery could begin under `pkid`: once the PUBLISH is on the queue
/// the delivery awaits PUBACK; the PUBACK ends the waiter; the delivery
/// that hears of it is done, without a failure, and gives back what it
/// held, so that the waiters and the identifiers in flight are as they
/// were before it began.
pub proof fn lemma_qos1_handshake(
    waiters: Seq<WaiterView>,
    in_flight: Set<int>,
    client_id: Seq<char>,
    pkid: u16,
    now: u64,
    attempts: u64,
    budget: u64,
    protocol: MQTTProtocol,
    connection_id: u64,
    sleep_ms: u64,
)
    requires
        !has_waiter(waiters, client_id, pkid),
        !in_flight.contains(pkid as int),
    ensures
        action_fits(
            DeliveryAction::AwaitAck,
            DeliveryPhase::Sending,
            DeliveryPhase::AwaitingAck,
            DeliveryEvent::Enqueued,
            protocol,
            connection_id,
            pkid,
            sleep_ms,
        ),
        action_fits(
            DeliveryAction::Finished(None),
            DeliveryPhase::AwaitingAck,
            DeliveryPhase::Done,
            DeliveryEvent::Outcome(AckOutcome::Acked(AckKind::PubAck)),
            protocol,
            connection_id,
            pkid,
            sleep_ms,
        ),
        next_phase(
            DeliveryPhase::Sending,
            QoS::AtLeastOnce,
            attempts,
            budget,
            DeliveryEvent::Enqueued,
        ) == DeliveryPhase::AwaitingAck,
        waiters_after_ack(
            waiters.push(waiter_of(client_id, pkid, now, QoS::AtLeastOnce)),
            client_id,
            pkid,
            AckKind::PubAck,
        ) == waiters,
        next_phase(
            DeliveryPhase::AwaitingAck,
            QoS::AtLeastOnce,
            attempts,
            budget,
            DeliveryEvent::Outcome(AckOutcome::Acked(AckKind::PubAck)),
        ) == DeliveryPhase::Done,
        releases(DeliveryPhase::AwaitingAck, DeliveryPhase::Done, QoS::AtLeastOnce),
        waiters_without(waiters, client_id, pkid) == waiters,
        in_flight.insert(pkid as int).remove(pkid as int) == in_flight,
{
    lemma_registered_waiter(
        waiters,
        waiter_of(client_id, pkid, now, QoS::AtLeastOnce),
        AckKind::PubAck,
    );
    assert(in_flight.insert(pkid as int).remove(pkid as int) =~= in_flight);
}

/// The QoS 2 handshake with PUBREC and PUBCOMP in time, from any state
/// in which the delivery could begin under `pkid`: once the PUBLISH is on
/// the queue the delivery awaits PUBREC; the PUBREC moves the waiter on to
/// await PUBCOMP and the delivery on to send PUBREL under the same
/// identifier; once that is on the queue the delivery awaits PUBCOMP; the
/// PUBCOMP ends the waiter; the delivery that hears of it is done, without
/// a failure, and gives back what it held.
pub proof fn lemma_qos2_handshake(
    waiters: Seq<WaiterView>,
    in_flight: Set<int>,
    client_id: Seq<char>,
    pkid: u16,
    now: u64,
    attempts: u64,
    budget: u64,
    protocol: MQTTProtocol,
    connection_id: u64,
    sleep_ms: u64,
)
    requires
        !has_waiter(waiters, client_id, pkid),
        !in_flight.contains(pkid as int),
    ensures
        waiter_of(client_id, pkid, now, QoS::ExactlyOnce).stage == WaiterStage::AwaitingRec,
        next_phase(
            DeliveryPhase::Sending,
            QoS::ExactlyOnce,
            attempts,
            budget,
            DeliveryEvent::Enqueued,
        ) == DeliveryPhase::AwaitingRec,
        waiters_after_ack(
            waiters.push(waiter_of(client_id, pkid, now, QoS::ExactlyOnce)),
            client_id,
            pkid,
            AckKind::PubRec,
        ) == waiters.push(
            WaiterView {
                stage: WaiterStage::AwaitingComp,
                ..waiter_of(client_id, pkid, now, QoS::ExactlyOnce)
            },
        ),
        next_phase(
            DeliveryPhase::AwaitingRec,
            QoS::ExactlyOnce,
            attempts,
            budget,
            DeliveryEvent::Outcome(AckOutcome::Acked(AckKind::PubRec)),
        ) == DeliveryPhase::Releasing,
        action_fits(
            (DeliveryAction::Enqueue {
                queue: queue_of(protocol),
                package: ResponsePackage { connection_id, packet: MQTTPacket::PubRel { pkid } },
            }),
            DeliveryPhase::AwaitingRec,
            DeliveryPhase::Releasing,
            DeliveryEvent::Outcome(AckOutcome::Acked(AckKind::PubRec)),
            protocol,
            connection_id,
            pkid,
            sleep_ms,
        ),
        action_fits(
            DeliveryAction::Finished(None),
            DeliveryPhase::AwaitingComp,
            DeliveryPhase::Done,
            DeliveryEvent::Outcome(AckOutcome::Acked(AckKind::PubComp)),
            protocol,
            connection_id,
            pkid,
            sleep_ms,
        ),
        next_phase(
            DeliveryPhase::Releasing,
            QoS::ExactlyOnce,
            attempts,
            budget,
            DeliveryEvent::Enqueued,
        ) == DeliveryPhase::AwaitingComp,
        waiters_after_ack(
            waiters.push(
                WaiterView {
                    stage: WaiterStage::AwaitingComp,
                    ..waiter_of(client_id, pkid, now, QoS::ExactlyOnce)
                },
            ),
            client_id,
            pkid,
            AckKind::PubComp,
        ) == waiters,
        next_phase(
            DeliveryPhase::AwaitingComp,
            QoS::ExactlyOnce,
            attempts,
            budget,
            DeliveryEvent::Outcome(AckOutcome::Acked(AckKind::PubComp)),
        ) == DeliveryPhase::Done,
        releases(DeliveryPhase::AwaitingComp, DeliveryPhase::Done, QoS::ExactlyOnce),
        waiters_without(waiters, client_id, pkid) == waiters,
        in_flight.insert(pkid as int).remove(pkid as int) == in_flight,
{
    let first = waiter_of(client_id, pkid, now, QoS::ExactlyOnce);
    let second = WaiterView { stage: WaiterStage::AwaitingComp, ..first };
    lemma_registered_waiter(waiters, first, AckKind::PubRec);
    lemma_registered_waiter(waiters, second, AckKind::PubComp);
    assert(in_flight.insert(pkid as int).remove(pkid as int) =~= in_flight);
}

} // verus!
