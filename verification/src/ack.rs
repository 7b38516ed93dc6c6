//! The acknowledgement manager: where a delivery that waits for PUBACK,
//! PUBREC or PUBCOMP meets the packet when it comes in.

use vstd::prelude::*;

verus! {

/// The acknowledgement packets of the QoS 1 and QoS 2 handshakes.
#[derive(Clone, Copy, Debug, PartialEq, Eq, Structural)]
pub enum AckKind {
    PubAck,
    PubRec,
    PubComp,
}

/// What a waiter is told.
#[derive(Clone, Copy, Debug, PartialEq, Eq, Structural)]
pub enum AckOutcome {
    /// The acknowledgement of this kind has come in.
    Acked(AckKind),
    /// The waiter's own deadline has passed.
    Timeout,
    /// The waiter was cancelled: the client is gone, the pusher stops, or
    /// the entry was swept.
    Cancelled,
}

/// What a waiter expects to see.
#[derive(Clone, Copy, Debug, PartialEq, Eq, Structural)]
pub enum AckExpect {
    /// One PUBACK (QoS 1).
    PubAck,
    /// PUBREC, then PUBCOMP (QoS 2).
    PubRecThenPubComp,
}

/// Where a waiter stands in its handshake.
#[derive(Clone, Copy, Debug, PartialEq, Eq, Structural)]
pub enum WaiterStage {
    AwaitingAck,
    AwaitingRec,
    AwaitingComp,
}

/// Why a waiter could not be registered.
#[derive(Clone, Copy, Debug, PartialEq, Eq, Structural)]
pub enum AckError {
    /// The (client, packet identifier) pair has a waiter already.
    DuplicateWaiter,
}

/// What a waiter can do: take an outcome. A channel, a promise or a
/// condition variable can stand behind it.
pub trait AckSignal {
    /// Hands an outcome to whoever waits.
    fn signal(&mut self, outcome: AckOutcome);
}

/// The stage in which a waiter starts.
pub open spec fn first_stage(expected: AckExpect) -> WaiterStage {
    match expected {
        AckExpect::PubAck => WaiterStage::AwaitingAck,
        AckExpect::PubRecThenPubComp => WaiterStage::AwaitingRec,
    }
}

/// A delivery that waits for its acknowledgement.
pub struct AckWaiter<S> {
    pub client_id: String,
    pub pkid: u16,
    pub sink: S,
    /// Seconds since the epoch at which the waiter was made.
    pub created_at: u64,
    pub expected: AckExpect,
    pub stage: WaiterStage,
}

/// What an `AckWaiter` holds, without its sink, as a mathematical value.
pub ghost struct WaiterView {
    pub client_id: Seq<char>,
    pub pkid: u16,
    pub created_at: u64,
    pub expected: AckExpect,
    pub stage: WaiterStage,
}

impl<S> View for AckWaiter<S> {
    type V = WaiterView;

    open spec fn view(&self) -> WaiterView {
        WaiterView {
            client_id: self.client_id@,
            pkid: self.pkid,
            created_at: self.created_at,
            expected: self.expected,
            stage: self.stage,
        }
    }
}

impl<S> AckWaiter<S> {
    /// Returns a waiter at the start of its handshake.
    pub fn new(
        client_id: String,
        pkid: u16,
        sink: S,
        created_at: u64,
        expected: AckExpect,
    ) -> (waiter: Self)
        ensures
            waiter@ == (WaiterView {
                client_id: client_id@,
                pkid,
                created_at,
                expected,
                stage: first_stage(expected),
            }),
            waiter.sink == sink,
    {
        let stage = match expected {
            AckExpect::PubAck => WaiterStage::AwaitingAck,
            AckExpect::PubRecThenPubComp => WaiterStage::AwaitingRec,
        };
        AckWaiter { client_id, pkid, sink, created_at, expected, stage }
    }
}

/// Whether a waiter stands for the pair.
pub open spec fn has_waiter(waiters: Seq<WaiterView>, client_id: Seq<char>, pkid: u16) -> bool {
    exists|i: int|
        0 <= i < waiters.len() && (#[trigger] waiters[i]).client_id == client_id && waiters[i].pkid
            == pkid
}

/// Where the waiter of the pair stands. Meaningful when there is one.
pub open spec fn waiter_position(waiters: Seq<WaiterView>, client_id: Seq<char>, pkid: u16) -> int {
    choose|i: int|
        0 <= i < waiters.len() && (#[trigger] waiters[i]).client_id == client_id && waiters[i].pkid
            == pkid
}

/// No pair has two waiters.
pub open spec fn distinct_pairs(waiters: Seq<WaiterView>) -> bool {
    forall|i: int, j: int|
        0 <= i < waiters.len() && 0 <= j < waiters.len() && i != j ==> !((
        #[trigger] waiters[i]).client_id == (#[trigger] waiters[j]).client_id && waiters[i].pkid
            == waiters[j].pkid)
}

/// Whether a waiter made at `created_at` is older than `timeout` at `now`.
pub open spec fn is_expired(created_at: u64, now: u64, timeout: u64) -> bool {
    now - created_at > timeout
}

/// The waiters among the first `count` that a sweep at `now` leaves.
pub open spec fn unexpired(waiters: Seq<WaiterView>, now: u64, timeout: u64, count: int) -> Seq<
    WaiterView,
>
    decreases count,
{
    if count <= 0 {
        Seq::empty()
    } else {
        let earlier = unexpired(waiters, now, timeout, count - 1);
        if is_expired(waiters[count - 1].created_at, now, timeout) {
            earlier
        } else {
            earlier.push(waiters[count - 1])
        }
    }
}

/// The waiters after an acknowledgement of `kind` for the pair has come
/// in. A PUBREC moves a waiter that awaits it on to await PUBCOMP; any
/// other acknowledgement ends the waiter. Without a waiter nothing changes.
pub open spec fn waiters_after_ack(
    waiters: Seq<WaiterView>,
    client_id: Seq<char>,
    pkid: u16,
    kind: AckKind,
) -> Seq<WaiterView> {
    if has_waiter(waiters, client_id, pkid) {
        let at = waiter_position(waiters, client_id, pkid);
        if waiters[at].stage == WaiterStage::AwaitingRec && kind == AckKind::PubRec {
            waiters.update(at, WaiterView { stage: WaiterStage::AwaitingComp, ..waiters[at] })
        } else {
            waiters.remove(at)
        }
    } else {
        waiters
    }
}

/// The waiters without the one of the pair.
pub open spec fn waiters_without(waiters: Seq<WaiterView>, client_id: Seq<char>, pkid: u16) -> Seq<
    WaiterView,
> {
    if has_waiter(waiters, client_id, pkid) {
        waiters.remove(waiter_position(waiters, client_id, pkid))
    } else {
        waiters
    }
}

/// At most one waiter stands for a (client, packet identifier) pair: two
/// places of a valid list that hold the same pair are one place.
pub proof fn lemma_at_most_one_waiter(waiters: Seq<WaiterView>, first: int, second: int)
    requires
        distinct_pairs(waiters),
        0 <= first < waiters.len(),
        0 <= second < waiters.len(),
        waiters[first].client_id == waiters[second].client_id,
        waiters[first].pkid == waiters[second].pkid,
    ensures
        first == second,
        first == waiter_position(waiters, waiters[first].client_id, waiters[first].pkid),
{
    let at = waiter_position(waiters, waiters[first].client_id, waiters[first].pkid);
    assert(0 <= at < waiters.len() && waiters[at].client_id == waiters[first].client_id
        && waiters[at].pkid == waiters[first].pkid);
}

/// A waiter registered under a pair that had none stands last, and is
/// the one that an acknowledgement, a cancellation or a removal for the
/// pair finds: taking it away gives the waiters as they were, and a PUBREC
/// that it awaits moves it on in its place.
pub proof fn lemma_registered_waiter(waiters: Seq<WaiterView>, waiter: WaiterView, kind: AckKind)
    requires
        !has_waiter(waiters, waiter.client_id, waiter.pkid),
    ensures
        has_waiter(waiters.push(waiter), waiter.client_id, waiter.pkid),
        waiter_position(waiters.push(waiter), waiter.client_id, waiter.pkid) == waiters.len(),
        waiters_without(waiters.push(waiter), waiter.client_id, waiter.pkid) == waiters,
        waiters_without(waiters, waiter.client_id, waiter.pkid) == waiters,
        waiters_after_ack(waiters.push(waiter), waiter.client_id, waiter.pkid, kind)
            == if waiter.stage == WaiterStage::AwaitingRec && kind == AckKind::PubRec {
            waiters.push(WaiterView { stage: WaiterStage::AwaitingComp, ..waiter })
        } else {
            waiters
        },
{
    let after = waiters.push(waiter);
    assert(after[waiters.len() as int] == waiter);
    let at = waiter_position(after, waiter.client_id, waiter.pkid);
    if at < waiters.len() {
        assert(waiters[at] == after[at]);
    }
    assert(after.remove(waiters.len() as int) =~= waiters);
    assert(after.update(
        waiters.len() as int,
        WaiterView { stage: WaiterStage::AwaitingComp, ..waiter },
    ) =~= waiters.push(WaiterView { stage: WaiterStage::AwaitingComp, ..waiter }));
}

/// Taking a waiter away leaves the others distinct, and the pair of the
/// one taken has no waiter any more.
pub proof fn lemma_remove_keeps_distinct(waiters: Seq<WaiterView>, at: int)
    requires
        distinct_pairs(waiters),
        0 <= at < waiters.len(),
    ensures
        distinct_pairs(waiters.remove(at)),
        !has_waiter(waiters.remove(at), waiters[at].client_id, waiters[at].pkid),
        forall|client_id: Seq<char>, pkid: u16|
            !(client_id == waiters[at].client_id && pkid == waiters[at].pkid) ==> (has_waiter(
                waiters.remove(at),
                client_id,
                pkid,
            ) <==> has_waiter(waiters, client_id, pkid)),
{
    let after = waiters.remove(at);
    assert forall|i: int| 0 <= i < after.len() implies #[trigger] after[i] == waiters[if i < at {
        i
    } else {
        i + 1
    }] by {}
    assert forall|i: int, j: int|
        0 <= i < after.len() && 0 <= j < after.len() && i != j implies !((
    #[trigger] after[i]).client_id == (#[trigger] after[j]).client_id && after[i].pkid
        == after[j].pkid) by {
        let oi = if i < at { i } else { i + 1 };
        let oj = if j < at { j } else { j + 1 };
        assert(after[i] == waiters[oi]);
        assert(after[j] == waiters[oj]);
    }
    assert forall|i: int| 0 <= i < after.len() implies !((#[trigger] after[i]).client_id
        == waiters[at].client_id && after[i].pkid == waiters[at].pkid) by {
        let oi = if i < at { i } else { i + 1 };
        assert(after[i] == waiters[oi]);
    }
    assert forall|client_id: Seq<char>, pkid: u16|
        !(client_id == waiters[at].client_id && pkid == waiters[at].pkid) implies (has_waiter(
        after,
        client_id,
        pkid,
    ) <==> has_waiter(waiters, client_id, pkid)) by {
        if has_waiter(after, client_id, pkid) {
            let i = waiter_position(after, client_id, pkid);
            let oi = if i < at { i } else { i + 1 };
            assert(after[i] == waiters[oi]);
        }
        if has_waiter(waiters, client_id, pkid) {
            let o = waiter_position(waiters, client_id, pkid);
            let i = if o < at { o } else { o - 1 };
            assert(after[i] == waiters[o]);
        }
    }
}

/// The acknowledgement manager. The view lists the waiters in the order
/// in which they were registered.
pub struct AckManager<S> {
    waiters: Vec<AckWaiter<S>>,
    timeout: u64,
}

impl<S> View for AckManager<S> {
    type V = Seq<WaiterView>;

    closed spec fn view(&self) -> Seq<WaiterView> {
        self.waiters@.map_values(|w: AckWaiter<S>| w@)
    }
}

impl<S: AckSignal> AckManager<S> {
    /// The age in seconds beyond which a sweep cancels a waiter.
    pub closed spec fn timeout(&self) -> u64 {
        self.timeout
    }

    /// At most one waiter stands for a (client, packet identifier) pair.
    pub open spec fn wf(&self) -> bool {
        distinct_pairs(self@)
    }

    /// Returns a manager without waiters.
    pub fn new(timeout: u64) -> (manager: Self)
        ensures
            manager.wf(),
            manager@ == Seq::<WaiterView>::empty(),
            manager.timeout() == timeout,
    {
        let manager = AckManager { waiters: Vec::new(), timeout };
        assert(manager@ =~= Seq::<WaiterView>::empty());
        manager
    }

    /// Returns the number of waiters.
    pub fn len(&self) -> (n: usize)
        ensures
            n == self@.len(),
    {
        self.waiters.len()
    }

    fn find(&self, client_id: &String, pkid: u16) -> (found: Option<usize>)
        ensures
            found is Some <==> has_waiter(self@, client_id@, pkid),
            found matches Some(i) ==> i < self@.len() && self@[i as int].client_id == client_id@
                && self@[i as int].pkid == pkid,
            found matches Some(i) ==> (distinct_pairs(self@) ==> i == waiter_position(
                self@,
                client_id@,
                pkid,
            )),
    {
        let mut i: usize = 0;
        while i < self.waiters.len()
            invariant
                i <= self.waiters.len(),
                self@.len() == self.waiters.len(),
                forall|j: int|
                    0 <= j < i ==> !((#[trigger] self@[j]).client_id == client_id@ && self@[j].pkid
                        == pkid),
            decreases self.waiters.len() - i,
        {
            assert(self@[i as int] == self.waiters[i as int]@);
            if self.waiters[i].pkid == pkid && self.waiters[i].client_id == *client_id {
                return Some(i);
            }
            i = i + 1;
        }
        None
    }

    /// Whether a waiter stands for the pair.
    pub fn contains(&self, client_id: &String, pkid: u16) -> (found: bool)
        ensures
            found == has_waiter(self@, client_id@, pkid),
    {
        self.find(client_id, pkid).is_some()
    }

    /// Registers a waiter under its (client, packet identifier) pair.
    /// Fails, and changes nothing, where the pair has a waiter already.
    pub fn register(&mut self, waiter: AckWaiter<S>) -> (result: Result<(), AckError>)
        requires
            old(self).wf(),
        ensures
            final(self).wf(),
            final(self).timeout() == old(self).timeout(),
            result is Err <==> has_waiter(old(self)@, waiter.client_id@, waiter.pkid),
            result is Err ==> final(self)@ == old(self)@,
            result is Ok ==> final(self)@ == old(self)@.push(waiter@),
    {
        match self.find(&waiter.client_id, waiter.pkid) {
            Some(_) => Err(AckError::DuplicateWaiter),
            None => {
                let ghost before = self@;
                let ghost added = waiter@;
                self.waiters.push(waiter);
                proof {
                    assert(self@ =~= before.push(added));
                    let after = self@;
                    assert forall|i: int, j: int|
                        0 <= i < after.len() && 0 <= j < after.len() && i != j implies !((
                    #[trigger] after[i]).client_id == (#[trigger] after[j]).client_id
                        && after[i].pkid == after[j].pkid) by {
                        if i < before.len() {
                            assert(after[i] == before[i]);
                        }
                        if j < before.len() {
                            assert(after[j] == before[j]);
                        }
                    }
                }
                Ok(())
            },
        }
    }

    /// Takes in an acknowledgement of `kind` for the pair and tells the
    /// waiter. Returns what the waiter was told, `None` where the pair has
    /// no waiter.
    pub fn complete(
        &mut self,
        client_id: &String,
        pkid: u16,
        kind: AckKind,
    ) -> (told: Option<AckOutcome>)
        requires
            old(self).wf(),
        ensures
            final(self).wf(),
            final(self).timeout() == old(self).timeout(),
            final(self)@ == waiters_after_ack(old(self)@, client_id@, pkid, kind),
            told == if has_waiter(old(self)@, client_id@, pkid) {
                Some(AckOutcome::Acked(kind))
            } else {
                None
            },
    {
        let ghost before = self@;
        match self.find(client_id, pkid) {
            None => None,
            Some(at) => {
                assert(before[at as int] == self.waiters[at as int]@);
                let moves_on = match self.waiters[at].stage {
                    WaiterStage::AwaitingRec => match kind {
                        AckKind::PubRec => true,
                        _ => false,
                    },
                    _ => false,
                };
                if moves_on {
                    self.waiters[at].sink.signal(AckOutcome::Acked(kind));
                    self.waiters[at].stage = WaiterStage::AwaitingComp;
                    proof {
                        let after = waiters_after_ack(before, client_id@, pkid, kind);
                        assert(self@ =~= after);
                        assert forall|i: int, j: int|
                            0 <= i < after.len() && 0 <= j < after.len() && i != j implies !((
                        #[trigger] after[i]).client_id == (#[trigger] after[j]).client_id
                            && after[i].pkid == after[j].pkid) by {
                            assert(after[i].client_id == before[i].client_id && after[i].pkid
                                == before[i].pkid);
                            assert(after[j].client_id == before[j].client_id && after[j].pkid
                                == before[j].pkid);
                        }
                    }
                } else {
                    let mut waiter = self.waiters.remove(at);
                    waiter.sink.signal(AckOutcome::Acked(kind));
                    proof {
                        assert(self@ =~= before.remove(at as int));
                        lemma_remove_keeps_distinct(before, at as int);
                    }
                }
                Some(AckOutcome::Acked(kind))
            },
        }
    }

    /// Cancels the waiter of the pair: tells it so and drops it. Returns
    /// whether there was one.
    pub fn cancel(&mut self, client_id: &String, pkid: u16) -> (cancelled: bool)
        requires
            old(self).wf(),
        ensures
            final(self).wf(),
            final(self).timeout() == old(self).timeout(),
            final(self)@ == waiters_without(old(self)@, client_id@, pkid),
            cancelled == has_waiter(old(self)@, client_id@, pkid),
            !has_waiter(final(self)@, client_id@, pkid),
    {
        let ghost before = self@;
        match self.find(client_id, pkid) {
            None => false,
            Some(at) => {
                let mut waiter = self.waiters.remove(at);
                waiter.sink.signal(AckOutcome::Cancelled);
                proof {
                    assert(self@ =~= before.remove(at as int));
                    lemma_remove_keeps_distinct(before, at as int);
                }
                true
            },
        }
    }

    /// Drops the waiter of the pair without telling it anything: the
    /// delivery that owns it is done with it. Returns whether there was one.
    pub fn remove(&mut self, client_id: &String, pkid: u16) -> (removed: bool)
        requires
            old(self).wf(),
        ensures
            final(self).wf(),
            final(self).timeout() == old(self).timeout(),
            final(self)@ == waiters_without(old(self)@, client_id@, pkid),
            removed == has_waiter(old(self)@, client_id@, pkid),
            !has_waiter(final(self)@, client_id@, pkid),
    {
        let ghost before = self@;
        match self.find(client_id, pkid) {
            None => false,
            Some(at) => {
                self.waiters.remove(at);
                proof {
                    assert(self@ =~= before.remove(at as int));
                    lemma_remove_keeps_distinct(before, at as int);
                }
                true
            },
        }
    }

    /// Cancels every waiter that is older than the timeout at `now`.
    /// Returns how many were cancelled.
    pub fn sweep(&mut self, now: u64) -> (cancelled: usize)
        requires
            old(self).wf(),
        ensures
            final(self).wf(),
            final(self).timeout() == old(self).timeout(),
            final(self)@ == unexpired(
                old(self)@,
                now,
                old(self).timeout(),
                old(self)@.len() as int,
            ),
            cancelled == old(self)@.len() - final(self)@.len(),
    {
        let ghost before = self@;
        let ghost mut done: int = 0;
        let mut i: usize = 0;
        let mut cancelled: usize = 0;
        assert(before.len() == self.waiters.len());
        assert(self@ =~= unexpired(before, now, self.timeout, 0) + before.subrange(
            0,
            before.len() as int,
        ));
        while i < self.waiters.len()
            invariant
                self.timeout == old(self).timeout,
                before == old(self)@,
                0 <= done <= before.len(),
                before.len() <= usize::MAX,
                i == unexpired(before, now, self.timeout, done).len(),
                i <= self.waiters.len(),
                self@ == unexpired(before, now, self.timeout, done) + before.subrange(
                    done,
                    before.len() as int,
                ),
                cancelled == done - i,
                distinct_pairs(self@),
            decreases before.len() - done,
        {
            let ghost kept = unexpired(before, now, self.timeout, done);
            let ghost now_view = self@;
            assert(now_view.len() == kept.len() + (before.len() - done));
            assert(self@[i as int] == self.waiters[i as int]@);
            assert(now_view[i as int] == before[done]);
            let created_at = self.waiters[i].created_at;
            if now > created_at && now - created_at > self.timeout {
                let mut waiter = self.waiters.remove(i);
                waiter.sink.signal(AckOutcome::Cancelled);
                cancelled = cancelled + 1;
                proof {
                    assert(self@ =~= now_view.remove(i as int));
                    lemma_remove_keeps_distinct(now_view, i as int);
                    assert(unexpired(before, now, self.timeout, done + 1) == kept);
                    assert(self@ =~= kept + before.subrange(done + 1, before.len() as int));
                    done = done + 1;
                }
            } else {
                i = i + 1;
                proof {
                    assert(unexpired(before, now, self.timeout, done + 1) == kept.push(
                        before[done],
                    ));
                    assert(self@ =~= kept.push(before[done]) + before.subrange(
                        done + 1,
                        before.len() as int,
                    ));
                    done = done + 1;
                }
            }
        }
        proof {
            assert(done == before.len());
            assert(before.subrange(done, before.len() as int) =~= Seq::<WaiterView>::empty());
            assert(self@ =~= unexpired(before, now, self.timeout, done));
        }
        cancelled
    }
}

} // verus!
