//! The supervisor of the shared-subscription pushers: once per tick it
//! makes the table of running pushers agree with the share groups that
//! have members.

use crate::channel::{broadcast_channel, broadcast_send, broadcast_try_recv};
use crate::handles::{
    handle_keys, handles_contains, handles_insert, handles_keys, handles_remove,
    handles_with_capacity,
};
use crate::pusher::{step_fits, Pusher, PusherStep};
use crate::strategy::{initial_state, texts, Strategy};
use crate::subscribe::{
    distinct_keys, group_key, has_key, share_key, ShareGroupView, SubscribeManager,
};
use dashmap::DashMap;
use tokio::sync::broadcast::{Receiver, Sender};
use vstd::prelude::*;

verus! {

/// A pusher that the supervisor has just registered, with the receiving
/// end of its stop signal. The caller runs it as a task of its own.
pub struct PushTask {
    pub pusher: Pusher,
    pub stop_rx: Receiver<bool>,
}

impl PushTask {
    /// Looks at the stop signal, without waiting, and decides what the
    /// round of the loop begins with.
    pub fn begin_iteration(&mut self, subs: &SubscribeManager) -> (step: PusherStep)
        requires
            subs.wf(),
        ensures
            final(self).pusher == old(self).pusher,
            exists|stop: Option<bool>| #[trigger]
                step_fits(
                    step,
                    stop,
                    subs@,
                    old(self).pusher.group_name@,
                    old(self).pusher.topic_id@,
                ),
    {
        let stop = broadcast_try_recv(&mut self.stop_rx);
        let step = self.pusher.begin_iteration(stop, subs);
        assert(step_fits(step, stop, subs@, self.pusher.group_name@, self.pusher.topic_id@));
        step
    }
}

/// What one tick of the supervisor did.
pub struct TickReport {
    /// The pushers registered in this tick, in the order of their groups.
    pub started: Vec<PushTask>,
    /// The keys of the pushers that were told to stop and dropped.
    pub stopped: Vec<String>,
}

/// Whether a group with members is filed under `key`.
pub open spec fn is_live_key(groups: Seq<ShareGroupView>, key: Seq<char>) -> bool {
    exists|i: int|
        0 <= i < groups.len() && (#[trigger] groups[i]).key() == key && groups[i].sub_list.len()
            > 0
}

/// The keys of the table after a tick: a pusher is registered exactly for
/// the groups that have members. Where the configuration names no known
/// strategy nothing is started, and only pushers that ran before remain.
pub open spec fn handles_after_tick(
    before: Set<Seq<char>>,
    groups: Seq<ShareGroupView>,
    starts: bool,
) -> Set<Seq<char>> {
    Set::new(|key: Seq<char>| is_live_key(groups, key) && (starts || before.contains(key)))
}

/// Whether the table holds `key` once the first `count` groups have been
/// looked at.
pub open spec fn held_after(
    before: Set<Seq<char>>,
    groups: Seq<ShareGroupView>,
    starts: bool,
    count: int,
    key: Seq<char>,
) -> bool {
    if has_key(groups.take(count), key) {
        is_live_key(groups.take(count), key) && (starts || before.contains(key))
    } else {
        before.contains(key)
    }
}

/// The groups among the first `count` for which a pusher has to be
/// started: those with members and without a pusher, in their order.
pub open spec fn fresh_groups(
    before: Set<Seq<char>>,
    groups: Seq<ShareGroupView>,
    count: int,
) -> Seq<ShareGroupView>
    decreases count,
{
    if count <= 0 {
        Seq::empty()
    } else {
        let earlier = fresh_groups(before, groups, count - 1);
        let group = groups[count - 1];
        if group.sub_list.len() > 0 && !before.contains(group.key()) {
            earlier.push(group)
        } else {
            earlier
        }
    }
}

/// Whether `task` is a pusher for `group` that has dispatched nothing yet.
pub open spec fn task_fits(
    task: PushTask,
    group: ShareGroupView,
    strategy: Strategy,
    seed: u64,
) -> bool {
    &&& task.pusher.group_name@ == group.group_name
    &&& task.pusher.topic_id@ == group.topic_id
    &&& task.pusher.topic_name@ == group.topic_name
    &&& task.pusher.state@ == initial_state(strategy, seed)
}

/// Whether the tasks are pushers for the groups, one for one.
pub open spec fn tasks_fit(
    tasks: Seq<PushTask>,
    groups: Seq<ShareGroupView>,
    strategy: Strategy,
    seed: u64,
) -> bool {
    &&& tasks.len() == groups.len()
    &&& forall|i: int|
        0 <= i < tasks.len() ==> task_fits(#[trigger] tasks[i], groups[i], strategy, seed)
}

/// Looking at one more group changes what is known of its key alone.
proof fn lemma_take_step(groups: Seq<ShareGroupView>, count: int, key: Seq<char>)
    requires
        0 <= count < groups.len(),
        distinct_keys(groups),
    ensures
        has_key(groups.take(count + 1), key) <==> has_key(groups.take(count), key) || key
            == groups[count].key(),
        is_live_key(groups.take(count + 1), key) <==> is_live_key(groups.take(count), key) || (key
            == groups[count].key() && groups[count].sub_list.len() > 0),
        !has_key(groups.take(count), groups[count].key()),
{
    let shorter = groups.take(count);
    let longer = groups.take(count + 1);
    assert(longer[count] == groups[count]);
    assert forall|i: int| 0 <= i < count implies #[trigger] longer[i] == shorter[i] by {}
    if has_key(shorter, key) {
        let i = choose|i: int| 0 <= i < shorter.len() && (#[trigger] shorter[i]).key() == key;
        assert(longer[i].key() == key);
    }
    if is_live_key(shorter, key) {
        let i = choose|i: int|
            0 <= i < shorter.len() && (#[trigger] shorter[i]).key() == key
                && shorter[i].sub_list.len() > 0;
        assert(longer[i].key() == key);
    }
    if has_key(longer, key) {
        let i = choose|i: int| 0 <= i < longer.len() && (#[trigger] longer[i]).key() == key;
        if i < count {
            assert(shorter[i].key() == key);
        }
    }
    if is_live_key(longer, key) {
        let i = choose|i: int|
            0 <= i < longer.len() && (#[trigger] longer[i]).key() == key
                && longer[i].sub_list.len() > 0;
        if i < count {
            assert(shorter[i].key() == key);
        }
    }
    if has_key(shorter, groups[count].key()) {
        let i = choose|i: int|
            0 <= i < shorter.len() && (#[trigger] shorter[i]).key() == groups[count].key();
        assert(shorter[i] == groups[i]);
    }
}

/// The supervisor of the pushers of shared subscriptions.
pub struct SubscribeShareLeader {
    /// The stop signal of every running pusher, under the key of its
    /// (group, topic) pair.
    pub leader_push_thread: DashMap<String, Sender<bool>>,
    pub subscribe_manager: SubscribeManager,
}

impl SubscribeShareLeader {
    /// The share groups are filed consistently.
    pub open spec fn wf(&self) -> bool {
        self.subscribe_manager.wf()
    }

    /// The keys of the running pushers.
    pub open spec fn handles(&self) -> Set<Seq<char>> {
        handle_keys(self.leader_push_thread)
    }

    /// Returns a supervisor that runs no pusher yet.
    pub fn new(subscribe_manager: SubscribeManager) -> (leader: Self)
        ensures
            leader.handles() == Set::<Seq<char>>::empty(),
            leader.subscribe_manager == subscribe_manager,
    {
        SubscribeShareLeader { leader_push_thread: handles_with_capacity(128), subscribe_manager }
    }

    fn key(&self, group_name: String, topic_id: String) -> (key: String)
        ensures
            key@ == share_key(group_name@, topic_id@),
    {
        group_key(group_name.as_str(), topic_id.as_str())
    }

    /// Registers a pusher for a (group, topic) pair under any strategy:
    /// makes its stop signal, files the sending end under the pair's key
    /// and hands the pusher back with the receiving end.
    fn start_push(
        &mut self,
        strategy: Strategy,
        seed: u64,
        group_name: String,
        topic_id: String,
        topic_name: String,
    ) -> (task: PushTask)
        ensures
            final(self).subscribe_manager == old(self).subscribe_manager,
            final(self).handles() == old(self).handles().insert(share_key(group_name@, topic_id@)),
            task.pusher.group_name == group_name,
            task.pusher.topic_id == topic_id,
            task.pusher.topic_name == topic_name,
            task.pusher.state@ == initial_state(strategy, seed),
    {
        let (stop_sx, stop_rx) = broadcast_channel(1);
        let key = self.key(group_name.clone(), topic_id.clone());
        handles_insert(&mut self.leader_push_thread, key, stop_sx);
        PushTask { pusher: Pusher::new(group_name, topic_id, topic_name, strategy, seed), stop_rx }
    }

    /// Registers a round-robin pusher for a (group, topic) pair. Its
    /// cursor starts at 0 and lives as long as the pusher.
    pub fn start_push_by_round_robin(
        &mut self,
        group_name: String,
        topic_id: String,
        topic_name: String,
    ) -> (task: PushTask)
        ensures
            final(self).subscribe_manager == old(self).subscribe_manager,
            final(self).handles() == old(self).handles().insert(share_key(group_name@, topic_id@)),
            task.pusher.group_name == group_name,
            task.pusher.topic_id == topic_id,
            task.pusher.topic_name == topic_name,
            task.pusher.state@ == initial_state(Strategy::RoundRobin, 0),
    {
        self.start_push(Strategy::RoundRobin, 0, group_name, topic_id, topic_name)
    }

    fn start_push_by_random(
        &mut self,
        seed: u64,
        group_name: String,
        topic_id: String,
        topic_name: String,
    ) -> (task: PushTask)
        ensures
            final(self).subscribe_manager == old(self).subscribe_manager,
            final(self).handles() == old(self).handles().insert(share_key(group_name@, topic_id@)),
            task.pusher.group_name == group_name,
            task.pusher.topic_id == topic_id,
            task.pusher.topic_name == topic_name,
            task.pusher.state@ == initial_state(Strategy::Random, seed),
    {
        self.start_push(Strategy::Random, seed, group_name, topic_id, topic_name)
    }

    fn start_push_by_hash(
        &mut self,
        group_name: String,
        topic_id: String,
        topic_name: String,
    ) -> (task: PushTask)
        ensures
            final(self).subscribe_manager == old(self).subscribe_manager,
            final(self).handles() == old(self).handles().insert(share_key(group_name@, topic_id@)),
            task.pusher.group_name == group_name,
            task.pusher.topic_id == topic_id,
            task.pusher.topic_name == topic_name,
            task.pusher.state@ == initial_state(Strategy::Hash, 0),
    {
        self.start_push(Strategy::Hash, 0, group_name, topic_id, topic_name)
    }

    fn start_push_by_sticky(
        &mut self,
        group_name: String,
        topic_id: String,
        topic_name: String,
    ) -> (task: PushTask)
        ensures
            final(self).subscribe_manager == old(self).subscribe_manager,
            final(self).handles() == old(self).handles().insert(share_key(group_name@, topic_id@)),
            task.pusher.group_name == group_name,
            task.pusher.topic_id == topic_id,
            task.pusher.topic_name == topic_name,
            task.pusher.state@ == initial_state(Strategy::Sticky, 0),
    {
        self.start_push(Strategy::Sticky, 0, group_name, topic_id, topic_name)
    }

    fn start_push_by_local(
        &mut self,
        group_name: String,
        topic_id: String,
        topic_name: String,
    ) -> (task: PushTask)
        ensures
            final(self).subscribe_manager == old(self).subscribe_manager,
            final(self).handles() == old(self).handles().insert(share_key(group_name@, topic_id@)),
            task.pusher.group_name == group_name,
            task.pusher.topic_id == topic_id,
            task.pusher.topic_name == topic_name,
            task.pusher.state@ == initial_state(Strategy::Local, 0),
    {
        self.start_push(Strategy::Local, 0, group_name, topic_id, topic_name)
    }

    /// One tick of the supervisor; the task that owns the supervisor runs
    /// it once a second. A pusher whose group has no members, or is no
    /// longer filed, is told to stop and dropped from the table, whether
    /// or not it still listens; a group with members and without a pusher
    /// gets one, of the strategy that the configuration names. Where the
    /// configuration names no strategy that is known, nothing is started.
    pub fn start(&mut self, strategy_name: &String, seed: u64) -> (report: TickReport)
        requires
            old(self).wf(),
        ensures
            final(self).subscribe_manager == old(self).subscribe_manager,
            final(self).handles() == handles_after_tick(
                old(self).handles(),
                old(self).subscribe_manager@,
                Strategy::named(strategy_name@) is Some,
            ),
            match Strategy::named(strategy_name@) {
                Some(strategy) => tasks_fit(
                    report.started@,
                    fresh_groups(
                        old(self).handles(),
                        old(self).subscribe_manager@,
                        old(self).subscribe_manager@.len() as int,
                    ),
                    strategy,
                    seed,
                ),
                None => report.started@.len() == 0,
            },
            forall|key: Seq<char>|
                texts(report.stopped@).contains(key) <==> old(self).handles().contains(key)
                    && !final(self).handles().contains(key),
            texts(report.stopped@).no_duplicates(),
    {
        let strategy = Strategy::from_name(strategy_name);
        let ghost before = self.handles();
        let ghost groups = self.subscribe_manager@;
        let ghost starts = strategy is Some;
        let mut started: Vec<PushTask> = Vec::new();
        let mut stopped: Vec<String> = Vec::new();
        let count = self.subscribe_manager.len();
        let mut i: usize = 0;
        assert(groups.take(0) =~= Seq::<ShareGroupView>::empty());
        while i < count
            invariant
                i <= count,
                count == groups.len(),
                self.subscribe_manager == old(self).subscribe_manager,
                groups == self.subscribe_manager@,
                before == old(self).handles(),
                distinct_keys(groups),
                strategy == Strategy::named(strategy_name@),
                starts == (strategy is Some),
                forall|key: Seq<char>|
                    self.handles().contains(key) <==> held_after(
                        before,
                        groups,
                        starts,
                        i as int,
                        key,
                    ),
                forall|key: Seq<char>|
                    texts(stopped@).contains(key) <==> before.contains(key)
                        && !self.handles().contains(key),
                texts(stopped@).no_duplicates(),
                match strategy {
                    Some(st) => tasks_fit(
                        started@,
                        fresh_groups(before, groups, i as int),
                        st,
                        seed,
                    ),
                    None => started@.len() == 0,
                },
            decreases count - i,
        {
            let ghost handles_then = self.handles();
            let ghost stopped_then = texts(stopped@);
            let sub_data = self.subscribe_manager.group_at(i);
            let key = self.key(sub_data.group_name.clone(), sub_data.topic_id.clone());
            let ghost group = groups[i as int];
            assert(key@ == group.key());
            proof {
                assert forall|k: Seq<char>|
                    (has_key(groups.take(i + 1), k) <==> has_key(groups.take(i as int), k) || k
                        == group.key()) && (is_live_key(groups.take(i + 1), k) <==> is_live_key(
                        groups.take(i as int),
                        k,
                    ) || (k == group.key() && group.sub_list.len() > 0)) by {
                    lemma_take_step(groups, i as int, k);
                }
                lemma_take_step(groups, i as int, group.key());
                assert(handles_then.contains(key@) == before.contains(key@));
            }
            if sub_data.sub_list.len() == 0 {
                match handles_remove(&mut self.leader_push_thread, &key) {
                    Some(sx) => {
                        broadcast_send(&sx, true);
                        stopped.push(key);
                        proof {
                            let now = texts(stopped@);
                            assert(now =~= stopped_then.push(group.key()));
                            assert forall|k: Seq<char>|
                                now.contains(k) <==> stopped_then.contains(k) || k
                                    == group.key() by {
                                if stopped_then.contains(k) {
                                    let at = choose|at: int|
                                        0 <= at < stopped_then.len() && stopped_then[at] == k;
                                    assert(now[at] == k);
                                }
                                if k == group.key() {
                                    assert(now[stopped_then.len() as int] == k);
                                }
                            }
                            assert(!stopped_then.contains(group.key()));
                            assert forall|a: int, b: int|
                                0 <= a < now.len() && 0 <= b < now.len() && a != b implies now[a]
                                != now[b] by {
                                if a < stopped_then.len() {
                                    assert(stopped_then[a] == now[a]);
                                    assert(stopped_then.contains(now[a]));
                                }
                                if b < stopped_then.len() {
                                    assert(stopped_then[b] == now[b]);
                                    assert(stopped_then.contains(now[b]));
                                }
                            }
                        }
                    },
                    None => {},
                }
            } else if !handles_contains(&self.leader_push_thread, &key) {
                match strategy {
                    Some(st) => {
                        let group_name = sub_data.group_name.clone();
                        let topic_id = sub_data.topic_id.clone();
                        let topic_name = sub_data.topic_name.clone();
                        let task = match st {
                            Strategy::RoundRobin => self.start_push_by_round_robin(
                                group_name,
                                topic_id,
                                topic_name,
                            ),
                            Strategy::Random => self.start_push_by_random(
                                seed,
                                group_name,
                                topic_id,
                                topic_name,
                            ),
                            Strategy::Sticky => self.start_push_by_sticky(
                                group_name,
                                topic_id,
                                topic_name,
                            ),
                            Strategy::Hash => self.start_push_by_hash(
                                group_name,
                                topic_id,
                                topic_name,
                            ),
                            Strategy::Local => self.start_push_by_local(
                                group_name,
                                topic_id,
                                topic_name,
                            ),
                        };
                        started.push(task);
                    },
                    None => {},
                }
            }
            i = i + 1;
        }
        assert(groups.take(count as int) =~= groups);
        let ghost middle = self.handles();
        let keys = handles_keys(&self.leader_push_thread);
        let mut t: usize = 0;
        while t < keys.len()
            invariant
                t <= keys.len(),
                self.subscribe_manager == old(self).subscribe_manager,
                self.subscribe_manager.wf(),
                groups == self.subscribe_manager@,
                before == old(self).handles(),
                forall|key: Seq<char>| texts(keys@).contains(key) <==> middle.contains(key),
                forall|key: Seq<char>|
                    middle.contains(key) <==> held_after(
                        before,
                        groups,
                        starts,
                        groups.len() as int,
                        key,
                    ),
                groups.take(groups.len() as int) == groups,
                forall|key: Seq<char>| self.handles().contains(key) ==> middle.contains(key),
                forall|key: Seq<char>|
                    middle.contains(key) && has_key(groups, key) ==> self.handles().contains(key),
                forall|u: int|
                    0 <= u < t && !has_key(groups, #[trigger] texts(keys@)[u])
                        ==> !self.handles().contains(texts(keys@)[u]),
                forall|key: Seq<char>|
                    texts(stopped@).contains(key) <==> before.contains(key)
                        && !self.handles().contains(key),
                texts(stopped@).no_duplicates(),
            decreases keys.len() - t,
        {
            let ghost stopped_then = texts(stopped@);
            let ghost name = keys[t as int]@;
            assert(texts(keys@)[t as int] == name);
            assert(texts(keys@).contains(name));
            assert(middle.contains(name));
            assert(held_after(before, groups, starts, groups.len() as int, name));
            assert(!has_key(groups, name) ==> before.contains(name));
            let ghost handles_then = self.handles();
            let ghost mut removed = false;
            if !self.subscribe_manager.contains_key(&keys[t]) {
                match handles_remove(&mut self.leader_push_thread, &keys[t]) {
                    Some(sx) => {
                        broadcast_send(&sx, true);
                        stopped.push(keys[t].clone());
                        proof {
                            removed = true;
                            let now = texts(stopped@);
                            assert(now =~= stopped_then.push(name));
                            assert(!stopped_then.contains(name));
                            assert forall|a: int, b: int|
                                0 <= a < now.len() && 0 <= b < now.len() && a != b implies now[a]
                                != now[b] by {
                                if a < stopped_then.len() {
                                    assert(stopped_then[a] == now[a]);
                                    assert(stopped_then.contains(now[a]));
                                }
                                if b < stopped_then.len() {
                                    assert(stopped_then[b] == now[b]);
                                    assert(stopped_then.contains(now[b]));
                                }
                            }
                        }
                    },
                    None => {
                        assert(self.handles() =~= handles_then);
                    },
                }
            }
            proof {
                let now = texts(stopped@);
                assert forall|k: Seq<char>|
                    now.contains(k) <==> before.contains(k) && !self.handles().contains(k) by {
                    assert(stopped_then.contains(k) <==> before.contains(k)
                        && !handles_then.contains(k));
                    if removed {
                        if stopped_then.contains(k) {
                            let at = choose|at: int|
                                0 <= at < stopped_then.len() && stopped_then[at] == k;
                            assert(now[at] == k);
                        }
                        if k == name {
                            assert(now[stopped_then.len() as int] == k);
                        }
                        if now.contains(k) {
                            let at = choose|at: int| 0 <= at < now.len() && now[at] == k;
                            if at < stopped_then.len() {
                                assert(stopped_then[at] == k);
                            }
                        }
                    }
                }
            }
            t = t + 1;
        }
        proof {
            let after = handles_after_tick(before, groups, starts);
            assert forall|key: Seq<char>| self.handles().contains(key) <==> after.contains(
                key,
            ) by {
                assert(held_after(before, groups, starts, groups.len() as int, key)
                    == middle.contains(key));
                if middle.contains(key) && !has_key(groups, key) {
                    assert(texts(keys@).contains(key));
                    let u = choose|u: int| 0 <= u < texts(keys@).len() && texts(keys@)[u] == key;
                    assert(!has_key(groups, texts(keys@)[u]));
                    assert(!self.handles().contains(key));
                }
                if is_live_key(groups, key) {
                    let w = choose|w: int|
                        0 <= w < groups.len() && (#[trigger] groups[w]).key() == key
                            && groups[w].sub_list.len() > 0;
                    assert(groups[w].key() == key);
                }
            }
            assert(self.handles() =~= after);
        }
        let report = TickReport { started, stopped };
        proof {
            let ended = self.handles();
            assert forall|key: Seq<char>|
                texts(report.stopped@).contains(key) <==> before.contains(key) && !ended.contains(
                    key,
                ) by {
                assert(texts(stopped@).contains(key) <==> before.contains(key)
                    && !self.handles().contains(key));
            }
        }
        report
    }
}

/// After a tick every pusher has a group with members behind it: a
/// pusher whose group is gone or empty does not survive the tick, at most
/// one pusher stands under a key, and, where the configuration names a
/// strategy, no group with members is left without one.
pub proof fn lemma_tick_keeps_live_handles(
    before: Set<Seq<char>>,
    groups: Seq<ShareGroupView>,
    starts: bool,
    key: Seq<char>,
)
    ensures
        handles_after_tick(before, groups, starts).contains(key) ==> is_live_key(groups, key),
        before.contains(key) && !is_live_key(groups, key) ==> !handles_after_tick(
            before,
            groups,
            starts,
        ).contains(key),
        starts && is_live_key(groups, key) ==> handles_after_tick(before, groups, starts).contains(
            key,
        ),
        handles_after_tick(handles_after_tick(before, groups, starts), groups, starts)
            == handles_after_tick(before, groups, starts),
{
    assert(handles_after_tick(handles_after_tick(before, groups, starts), groups, starts)
        =~= handles_after_tick(before, groups, starts));
}

} // verus!
