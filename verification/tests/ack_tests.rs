use mqtt_broker::ack::{
    AckError, AckExpect, AckKind, AckManager, AckOutcome, AckSignal, AckWaiter, WaiterStage,
};
use mqtt_broker::channel::{ack_channel, ChannelSignal};
use std::cell::RefCell;
use std::rc::Rc;
use tokio::sync::broadcast::error::TryRecvError;

struct Recorder {
    told: Rc<RefCell<Vec<AckOutcome>>>,
}

impl AckSignal for Recorder {
    fn signal(&mut self, outcome: AckOutcome) {
        self.told.borrow_mut().push(outcome);
    }
}

fn recorder() -> (Recorder, Rc<RefCell<Vec<AckOutcome>>>) {
    let told = Rc::new(RefCell::new(Vec::new()));
    (Recorder { told: told.clone() }, told)
}

fn waiter(client: &str, pkid: u16, at: u64, expected: AckExpect) -> (AckWaiter<Recorder>, Rc<RefCell<Vec<AckOutcome>>>) {
    let (sink, told) = recorder();
    (AckWaiter::new(client.to_string(), pkid, sink, at, expected), told)
}

#[test]
fn a_new_waiter_starts_its_handshake() {
    let (w, _) = waiter("a", 7, 100, AckExpect::PubAck);
    assert_eq!(w.client_id, "a");
    assert_eq!(w.pkid, 7);
    assert_eq!(w.created_at, 100);
    assert_eq!(w.expected, AckExpect::PubAck);
    assert_eq!(w.stage, WaiterStage::AwaitingAck);
    let (w2, _) = waiter("a", 8, 100, AckExpect::PubRecThenPubComp);
    assert_eq!(w2.stage, WaiterStage::AwaitingRec);
}

#[test]
fn a_pair_has_at_most_one_waiter() {
    let mut acks: AckManager<Recorder> = AckManager::new(30);
    let a = "a".to_string();
    assert!(!acks.contains(&a, 1));
    assert_eq!(acks.register(waiter("a", 1, 0, AckExpect::PubAck).0), Ok(()));
    assert_eq!(
        acks.register(waiter("a", 1, 5, AckExpect::PubRecThenPubComp).0),
        Err(AckError::DuplicateWaiter)
    );
    assert_eq!(acks.len(), 1);
    assert_eq!(acks.register(waiter("a", 2, 0, AckExpect::PubAck).0), Ok(()));
    assert_eq!(acks.register(waiter("b", 1, 0, AckExpect::PubAck).0), Ok(()));
    assert_eq!(acks.len(), 3);
    assert!(acks.contains(&a, 1));
    assert!(acks.contains(&a, 2));
    assert!(acks.contains(&"b".to_string(), 1));
    assert!(!acks.contains(&"b".to_string(), 2));
}

#[test]
fn complete_tells_the_waiter_and_drops_it() {
    let mut acks: AckManager<Recorder> = AckManager::new(30);
    let a = "a".to_string();
    let (w, told) = waiter("a", 1, 0, AckExpect::PubAck);
    assert_eq!(acks.register(w), Ok(()));
    assert_eq!(acks.complete(&a, 1, AckKind::PubAck), Some(AckOutcome::Acked(AckKind::PubAck)));
    assert_eq!(*told.borrow(), vec![AckOutcome::Acked(AckKind::PubAck)]);
    assert!(!acks.contains(&a, 1));
    assert_eq!(acks.complete(&a, 1, AckKind::PubAck), None);
    assert_eq!(told.borrow().len(), 1);
    let (again, _) = waiter("a", 1, 9, AckExpect::PubAck);
    assert_eq!(acks.register(again), Ok(()));
}

#[test]
fn complete_without_a_waiter_does_nothing() {
    let mut acks: AckManager<Recorder> = AckManager::new(30);
    let (w, told) = waiter("a", 1, 0, AckExpect::PubAck);
    assert_eq!(acks.register(w), Ok(()));
    assert_eq!(acks.complete(&"a".to_string(), 2, AckKind::PubAck), None);
    assert_eq!(acks.complete(&"b".to_string(), 1, AckKind::PubAck), None);
    assert_eq!(acks.len(), 1);
    assert!(told.borrow().is_empty());
}

#[test]
fn pubrec_moves_the_waiter_on_and_pubcomp_ends_it() {
    let mut acks: AckManager<Recorder> = AckManager::new(30);
    let a = "a".to_string();
    let (w, told) = waiter("a", 3, 0, AckExpect::PubRecThenPubComp);
    assert_eq!(acks.register(w), Ok(()));
    assert_eq!(acks.complete(&a, 3, AckKind::PubRec), Some(AckOutcome::Acked(AckKind::PubRec)));
    assert!(acks.contains(&a, 3));
    assert_eq!(acks.complete(&a, 3, AckKind::PubComp), Some(AckOutcome::Acked(AckKind::PubComp)));
    assert!(!acks.contains(&a, 3));
    assert_eq!(
        *told.borrow(),
        vec![AckOutcome::Acked(AckKind::PubRec), AckOutcome::Acked(AckKind::PubComp)]
    );
}

#[test]
fn a_second_pubrec_ends_the_waiter() {
    let mut acks: AckManager<Recorder> = AckManager::new(30);
    let a = "a".to_string();
    let (w, told) = waiter("a", 3, 0, AckExpect::PubRecThenPubComp);
    assert_eq!(acks.register(w), Ok(()));
    assert_eq!(acks.complete(&a, 3, AckKind::PubRec), Some(AckOutcome::Acked(AckKind::PubRec)));
    assert_eq!(acks.complete(&a, 3, AckKind::PubRec), Some(AckOutcome::Acked(AckKind::PubRec)));
    assert!(!acks.contains(&a, 3));
    assert_eq!(told.borrow().len(), 2);
}

#[test]
fn cancel_tells_the_waiter_and_remove_does_not() {
    let mut acks: AckManager<Recorder> = AckManager::new(30);
    let a = "a".to_string();
    let (w1, told1) = waiter("a", 1, 0, AckExpect::PubAck);
    let (w2, told2) = waiter("a", 2, 0, AckExpect::PubAck);
    assert_eq!(acks.register(w1), Ok(()));
    assert_eq!(acks.register(w2), Ok(()));
    assert!(acks.cancel(&a, 1));
    assert!(!acks.cancel(&a, 1));
    assert!(acks.remove(&a, 2));
    assert!(!acks.remove(&a, 2));
    assert_eq!(*told1.borrow(), vec![AckOutcome::Cancelled]);
    assert!(told2.borrow().is_empty());
    assert_eq!(acks.len(), 0);
}

#[test]
fn sweep_cancels_what_is_older_than_the_timeout() {
    let mut acks: AckManager<Recorder> = AckManager::new(30);
    let (w1, told1) = waiter("a", 1, 100, AckExpect::PubAck);
    let (w2, told2) = waiter("a", 2, 120, AckExpect::PubAck);
    let (w3, told3) = waiter("b", 1, 90, AckExpect::PubRecThenPubComp);
    let (w4, told4) = waiter("c", 1, 200, AckExpect::PubAck);
    for w in [w1, w2, w3, w4] {
        assert_eq!(acks.register(w), Ok(()));
    }
    assert_eq!(acks.sweep(120), 0);
    assert_eq!(acks.len(), 4);
    assert_eq!(acks.sweep(121), 1);
    assert_eq!(*told3.borrow(), vec![AckOutcome::Cancelled]);
    assert!(told1.borrow().is_empty());
    assert_eq!(acks.sweep(131), 1);
    assert_eq!(*told1.borrow(), vec![AckOutcome::Cancelled]);
    assert!(told2.borrow().is_empty());
    assert!(told4.borrow().is_empty());
    assert!(!acks.contains(&"a".to_string(), 1));
    assert!(acks.contains(&"a".to_string(), 2));
    assert!(!acks.contains(&"b".to_string(), 1));
    assert!(acks.contains(&"c".to_string(), 1));
    assert_eq!(acks.sweep(150), 0);
    assert_eq!(acks.sweep(151), 1);
    assert_eq!(acks.sweep(230), 0);
    assert_eq!(acks.sweep(u64::MAX), 1);
    assert_eq!(*told4.borrow(), vec![AckOutcome::Cancelled]);
    assert_eq!(acks.len(), 0);
    assert_eq!(acks.sweep(u64::MAX), 0);
}

#[test]
fn a_channel_carries_the_outcome_to_the_delivery() {
    let mut acks: AckManager<ChannelSignal> = AckManager::new(30);
    let a = "a".to_string();
    let (sink, mut rx) = ack_channel();
    assert_eq!(rx.try_recv(), Err(TryRecvError::Empty));
    assert_eq!(
        acks.register(AckWaiter::new(a.clone(), 1, sink, 0, AckExpect::PubRecThenPubComp)),
        Ok(())
    );
    assert_eq!(acks.complete(&a, 1, AckKind::PubRec), Some(AckOutcome::Acked(AckKind::PubRec)));
    assert_eq!(acks.complete(&a, 1, AckKind::PubComp), Some(AckOutcome::Acked(AckKind::PubComp)));
    assert_eq!(rx.try_recv(), Ok(AckOutcome::Acked(AckKind::PubRec)));
    assert_eq!(rx.try_recv(), Ok(AckOutcome::Acked(AckKind::PubComp)));
    assert_eq!(rx.try_recv(), Err(TryRecvError::Closed));
}

#[test]
fn a_cancelled_channel_waiter_hears_of_it() {
    let mut acks: AckManager<ChannelSignal> = AckManager::new(30);
    let a = "a".to_string();
    let (sink, mut rx) = ack_channel();
    assert_eq!(acks.register(AckWaiter::new(a.clone(), 1, sink, 0, AckExpect::PubAck)), Ok(()));
    assert!(acks.cancel(&a, 1));
    assert_eq!(rx.try_recv(), Ok(AckOutcome::Cancelled));
}
