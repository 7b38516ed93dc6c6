//! Broadcast channels of `tokio`: the stop signal between the supervisor
//! and a pusher, and the rendezvous between a delivery and its
//! acknowledgement.

use crate::ack::{AckOutcome, AckSignal};
use tokio::sync::broadcast::{channel, Receiver, Sender};
use vstd::prelude::*;

verus! {

/// `tokio::sync::broadcast::Sender`: the sending half of a broadcast
/// channel.
#[verifier::external_type_specification]
#[verifier::external_body]
#[verifier::reject_recursive_types(T)]
pub struct ExSender<T>(Sender<T>);

/// `tokio::sync::broadcast::Receiver`: a receiving half of a broadcast
/// channel.
#[verifier::external_type_specification]
#[verifier::external_body]
#[verifier::reject_recursive_types(T)]
pub struct ExReceiver<T>(Receiver<T>);

/// `tokio::sync::broadcast::channel`: a new channel with one sender and
/// one receiver. It panics on a capacity of 0 or above `usize::MAX / 2`,
/// and allocates `capacity` slots, so the capacity is bounded here.
#[verifier::external_body]
pub(crate) fn broadcast_channel<T: Clone>(capacity: usize) -> (ends: (Sender<T>, Receiver<T>))
    requires
        0 < capacity <= 65536,
{
    channel(capacity)
}

/// `Sender::send`: hands the value to every receiver that is subscribed.
/// Returns whether there was one; nothing is known of that beforehand.
#[verifier::external_body]
pub(crate) fn broadcast_send<T>(sender: &Sender<T>, value: T) -> (heard: bool) {
    sender.send(value).is_ok()
}

/// `Sender::len`: how many values the channel holds that some receiver
/// has yet to take. Nothing is known of it beforehand.
#[verifier::external_body]
pub(crate) fn broadcast_len<T>(sender: &Sender<T>) -> (queued: usize) {
    sender.len()
}

/// `Receiver::try_recv`: takes the next value that is waiting, without
/// blocking. `None` where none is waiting, the channel is closed or the
/// receiver has lagged; nothing is known of that beforehand.
#[verifier::external_body]
pub(crate) fn broadcast_try_recv<T: Clone>(receiver: &mut Receiver<T>) -> (value: Option<T>) {
    receiver.try_recv().ok()
}

/// A waiter's sink that is the sending half of a broadcast channel: the
/// delivery holds the receiving half and awaits the outcome there.
pub struct ChannelSignal {
    pub sx: Sender<AckOutcome>,
}

impl AckSignal for ChannelSignal {
    fn signal(&mut self, outcome: AckOutcome) {
        broadcast_send(&self.sx, outcome);
    }
}

/// Returns a sink for a waiter, and the end at which its outcomes arrive.
/// The channel holds two outcomes, as many as the longest handshake has.
pub fn ack_channel() -> (ends: (ChannelSignal, Receiver<AckOutcome>)) {
    let (sx, rx) = broadcast_channel(2);
    (ChannelSignal { sx }, rx)
}

} // verus!
