//! The pusher of one share group: what it does in each round of its loop,
//! and what it makes of each record of the topic log. The task that runs
//! the loop reads the log, sleeps and waits; every decision is taken here.

use crate::cluster::MQTTCluster;
use crate::message::Message;
use crate::metadata::MetadataCache;
use crate::packet::{MQTTProtocol, Publish, PublishProperties};
use crate::qos::{clamped_qos, effective_qos, QoS};
use crate::strategy::{
    after_message, after_skip, initial_state, is_pick, lemma_round_robin_fair,
    lemma_round_robin_pick, lemma_round_robin_whole_rounds, texts, the_pick, turns, Strategy,
    StrategyState, StrategyView,
};
use crate::subscribe::{
    has_key, key_position, members, share_key, ShareGroupView, SubscribeManager, SubscriberEntry,
    SubscriberView,
};
use crate::wire::{bytes_of_text, bytes_seq};
use vstd::prelude::*;
use vstd::string::StringExecFns;

verus! {

/// How long a pusher rests when there is nothing to do, in milliseconds.
pub const MAX_WAIT_MS: u64 = 500;

/// Why a pusher ends.
#[derive(Clone, Copy, Debug, PartialEq, Eq, Structural)]
pub enum ExitReason {
    /// The supervisor has signalled stop.
    Stopped,
    /// The share group is no longer filed.
    GroupGone,
}

/// What the pusher task has to do next.
#[derive(Debug, PartialEq, Eq)]
pub enum PusherStep {
    /// End the task.
    Exit(ExitReason),
    /// Rest, then begin the next round.
    Sleep { millis: u64 },
    /// Read up to `max_records` records of the topic under the consumer
    /// group `group_id`, and dispatch them to the members in `sub_list`.
    Read { topic_id: String, group_id: String, max_records: u128, sub_list: Vec<SubscriberEntry> },
}

/// A message on its way to one subscriber, before the handshake of its
/// level begins.
#[derive(Debug, PartialEq, Eq)]
pub struct Dispatch {
    pub client_id: String,
    pub connection_id: u64,
    pub protocol: MQTTProtocol,
    pub offset: u64,
    pub publish: Publish,
    pub properties: PublishProperties,
}

/// What became of one record of the log.
#[derive(Debug, PartialEq, Eq)]
pub enum RecordOutcome {
    /// The record could not be decoded: it is dropped.
    Dropped,
    /// The group has no member to give the message to.
    NoSubscriber,
    /// The member picked is not connected: the message is skipped for it.
    ClientGone { client_id: String },
    /// The message goes out.
    Deliver(Dispatch),
}

/// The name of the durable cursor from which a share group reads its topic.
pub open spec fn consumer_group_name(group_name: Seq<char>, topic_id: Seq<char>) -> Seq<char> {
    "system_sub_"@ + group_name + "_"@ + topic_id
}

/// User properties, each as a pair of character sequences.
pub open spec fn pairs(list: Seq<(String, String)>) -> Seq<(Seq<char>, Seq<char>)> {
    list.map_values(|p: (String, String)| (p.0@, p.1@))
}

/// The user property that marks a PUBLISH as forwarded through a shared
/// subscription whose topic was rewritten.
pub open spec fn rewrite_flag() -> (Seq<char>, Seq<char>) {
    ("$system_ssrpf"@, "True"@)
}

/// Returns the user property that marks a rewritten shared subscription.
pub fn share_sub_rewrite_publish_flag() -> (flag: (String, String))
    ensures
        (flag.0@, flag.1@) == rewrite_flag(),
{
    (String::from_str("$system_ssrpf"), String::from_str("True"))
}

/// Whether `dispatch` is the message `message` made ready for the member
/// `member` on connection `connection_id`: the level clamped, no packet
/// identifier yet, neither retained nor a duplicate, under the topic's
/// name, with the member's subscription identifier and rewrite marker.
pub open spec fn dispatch_fits(
    dispatch: Dispatch,
    member: SubscriberView,
    connection_id: u64,
    topic_name: Seq<char>,
    message: Message,
    max_qos: QoS,
) -> bool {
    &&& dispatch.client_id@ == member.client_id
    &&& dispatch.connection_id == connection_id
    &&& dispatch.protocol == member.protocol
    &&& dispatch.offset == message.offset
    &&& !dispatch.publish.dup
    &&& !dispatch.publish.retain
    &&& dispatch.publish.pkid == 0
    &&& dispatch.publish.qos == clamped_qos(message.qos, member.qos, max_qos)
    &&& bytes_seq(dispatch.publish.topic) == vstd::utf8::encode_utf8(topic_name)
    &&& bytes_seq(dispatch.publish.payload) == bytes_seq(message.payload)
    &&& dispatch.properties.payload_format_indicator is None
    &&& dispatch.properties.message_expiry_interval is None
    &&& dispatch.properties.topic_alias is None
    &&& dispatch.properties.response_topic is None
    &&& dispatch.properties.correlation_data is None
    &&& dispatch.properties.content_type is None
    &&& pairs(dispatch.properties.user_properties@) == if member.is_contain_rewrite_flag {
        seq![rewrite_flag()]
    } else {
        Seq::<(Seq<char>, Seq<char>)>::empty()
    }
    &&& dispatch.properties.subscription_identifiers@ == match member.subscription_identifier {
        Some(id) => seq![id],
        None => Seq::<usize>::empty(),
    }
}

/// Whether `outcome` is what a pusher in strategy state `state` makes of
/// `record`, given the members, the live connections and the cluster's
/// highest level. A message whose pick has no connection is skipped for
/// that member; what the strategy makes of the skip is in `after_record`.
pub open spec fn outcome_fits(
    outcome: RecordOutcome,
    state: StrategyView,
    list: Seq<SubscriberView>,
    record: Option<Message>,
    connections: Map<Seq<char>, u64>,
    topic_name: Seq<char>,
    max_qos: QoS,
) -> bool {
    match record {
        None => outcome is Dropped,
        Some(message) => if list.len() == 0 {
            outcome is NoSubscriber
        } else {
            let member = list[the_pick(state, list, message.offset)];
            if connections.contains_key(member.client_id) {
                outcome matches RecordOutcome::Deliver(dispatch) && dispatch_fits(
                    dispatch,
                    member,
                    connections[member.client_id],
                    topic_name,
                    message,
                    max_qos,
                )
            } else {
                outcome matches RecordOutcome::ClientGone { client_id } && client_id@
                    == member.client_id
            }
        },
    }
}

/// The clients among the first `count` members that are connected, in
/// the order of the list.
pub open spec fn connected_among(
    list: Seq<SubscriberView>,
    connections: Map<Seq<char>, u64>,
    count: int,
) -> Seq<Seq<char>>
    decreases count,
{
    if count <= 0 {
        Seq::empty()
    } else {
        let earlier = connected_among(list, connections, count - 1);
        if connections.contains_key(list[count - 1].client_id) {
            earlier.push(list[count - 1].client_id)
        } else {
            earlier
        }
    }
}

/// The strategy state after a record. A record that does not decode
/// leaves it alone. After a message whose pick has no connection the
/// strategy has moved past the pick and, where it is sticky, is bound to
/// the member that follows the pick, so that the next message does not go
/// to the same absent member.
pub open spec fn after_record(
    state: StrategyView,
    list: Seq<SubscriberView>,
    connections: Map<Seq<char>, u64>,
    record: Option<Message>,
) -> StrategyView {
    match record {
        None => state,
        Some(message) => {
            let moved = after_message(state, list, message.offset);
            let at = the_pick(state, list, message.offset);
            if list.len() > 0 && !connections.contains_key(list[at].client_id) {
                after_skip(moved, list, at)
            } else {
                moved
            }
        },
    }
}

/// The strategy state after the first `count` records of a batch.
pub open spec fn after_records(
    state: StrategyView,
    list: Seq<SubscriberView>,
    connections: Map<Seq<char>, u64>,
    records: Seq<Option<Message>>,
    count: int,
) -> StrategyView
    decreases count,
{
    if count <= 0 {
        state
    } else {
        after_record(
            after_records(state, list, connections, records, count - 1),
            list,
            connections,
            records[count - 1],
        )
    }
}

/// Whether `step` is what a pusher of (group, topic) does at the start of
/// a round, given what its stop signal holds and which groups are filed.
pub open spec fn step_fits(
    step: PusherStep,
    stop: Option<bool>,
    groups: Seq<ShareGroupView>,
    group_name: Seq<char>,
    topic_id: Seq<char>,
) -> bool {
    let key = share_key(group_name, topic_id);
    if stop == Some(true) {
        step == PusherStep::Exit(ExitReason::Stopped)
    } else if !has_key(groups, key) {
        step == PusherStep::Exit(ExitReason::GroupGone)
    } else {
        let group = groups[key_position(groups, key)];
        if group.sub_list.len() == 0 {
            step == (PusherStep::Sleep { millis: 500 })
        } else {
            &&& step matches PusherStep::Read { topic_id: topic, group_id, max_records, sub_list }
            &&& topic@ == topic_id
            &&& group_id@ == consumer_group_name(group_name, topic_id)
            &&& max_records == 2 * group.sub_list.len()
            &&& members(sub_list@) == group.sub_list
        }
    }
}

/// The pusher of one share group.
#[derive(Debug, PartialEq, Eq)]
pub struct Pusher {
    pub group_name: String,
    pub topic_id: String,
    pub topic_name: String,
    /// What the strategy remembers. It lives as long as the pusher, from
    /// one batch of records to the next.
    pub state: StrategyState,
}

impl Pusher {
    /// Returns a pusher that has dispatched nothing yet.
    pub fn new(
        group_name: String,
        topic_id: String,
        topic_name: String,
        strategy: Strategy,
        seed: u64,
    ) -> (pusher: Self)
        ensures
            pusher.group_name == group_name,
            pusher.topic_id == topic_id,
            pusher.topic_name == topic_name,
            pusher.state@ == initial_state(strategy, seed),
    {
        Pusher { group_name, topic_id, topic_name, state: StrategyState::new(strategy, seed) }
    }

    /// Returns the name of the durable cursor from which this pusher reads.
    pub fn consumer_group(&self) -> (name: String)
        ensures
            name@ == consumer_group_name(self.group_name@, self.topic_id@),
    {
        let mut name = String::from_str("system_sub_");
        name.append(self.group_name.as_str());
        name.append("_");
        name.append(self.topic_id.as_str());
        name
    }

    /// Tells the strategy which members are connected to this node: those
    /// for which the cache holds a connection. Only the local strategy
    /// makes use of it.
    pub fn observe_connections(&mut self, sub_list: &Vec<SubscriberEntry>, cache: &MetadataCache)
        ensures
            final(self).group_name == old(self).group_name,
            final(self).topic_id == old(self).topic_id,
            final(self).topic_name == old(self).topic_name,
            final(self).state@ == match old(self).state@ {
                StrategyView::Local { cursor, on_node } => StrategyView::Local {
                    cursor,
                    on_node: connected_among(
                        members(sub_list@),
                        cache.connections(),
                        sub_list.len() as int,
                    ),
                },
                other => other,
            },
    {
        let mut on_node: Vec<String> = Vec::new();
        let mut i: usize = 0;
        assert(texts(on_node@) =~= Seq::<Seq<char>>::empty());
        while i < sub_list.len()
            invariant
                i <= sub_list.len(),
                texts(on_node@) == connected_among(
                    members(sub_list@),
                    cache.connections(),
                    i as int,
                ),
            decreases sub_list.len() - i,
        {
            let ghost before = texts(on_node@);
            assert(members(sub_list@)[i as int] == sub_list[i as int]@);
            if cache.connect_id(&sub_list[i].client_id).is_some() {
                on_node.push(sub_list[i].client_id.clone());
                assert(texts(on_node@) =~= before.push(sub_list[i as int].client_id@));
            }
            i = i + 1;
        }
        self.state.observe_node(on_node);
    }

    /// Decides what a round of the loop begins with. `stop` is what a
    /// look at the stop signal gave: `Some(true)` ends the pusher.
    pub fn begin_iteration(&self, stop: Option<bool>, subs: &SubscribeManager) -> (step: PusherStep)
        requires
            subs.wf(),
        ensures
            step_fits(step, stop, subs@, self.group_name@, self.topic_id@),
    {
        match stop {
            Some(flag) => {
                if flag {
                    return PusherStep::Exit(ExitReason::Stopped);
                }
            },
            None => {},
        }
        match subs.snapshot(&self.group_name, &self.topic_id) {
            None => PusherStep::Exit(ExitReason::GroupGone),
            Some(sub_list) => {
                if sub_list.len() == 0 {
                    PusherStep::Sleep { millis: MAX_WAIT_MS }
                } else {
                    let max_records: u128 = (sub_list.len() as u128) * 2;
                    PusherStep::Read {
                        topic_id: self.topic_id.clone(),
                        group_id: self.consumer_group(),
                        max_records,
                        sub_list,
                    }
                }
            },
        }
    }

    /// Decides what follows a read of the log: a read that failed or
    /// brought nothing is followed by a rest of 500 ms, after any other
    /// the records are dispatched at once.
    pub fn backoff_after_read(read_failed: bool, records: usize) -> (millis: Option<u64>)
        ensures
            millis == if read_failed || records == 0 {
                Some(500u64)
            } else {
                None
            },
    {
        if read_failed || records == 0 {
            Some(MAX_WAIT_MS)
        } else {
            None
        }
    }

    /// Makes one record of the log ready for the member that the strategy
    /// picks. `None` stands for a record that did not decode.
    pub fn dispatch_record(
        &mut self,
        sub_list: &Vec<SubscriberEntry>,
        record: &Option<Message>,
        cache: &MetadataCache,
        cluster: &MQTTCluster,
    ) -> (outcome: RecordOutcome)
        ensures
            final(self).group_name == old(self).group_name,
            final(self).topic_id == old(self).topic_id,
            final(self).topic_name == old(self).topic_name,
            final(self).state@ == after_record(
                old(self).state@,
                members(sub_list@),
                cache.connections(),
                *record,
            ),
            outcome_fits(
                outcome,
                old(self).state@,
                members(sub_list@),
                *record,
                cache.connections(),
                old(self).topic_name@,
                cluster.max_qos,
            ),
    {
        let message = match record {
            None => {
                return RecordOutcome::Dropped;
            },
            Some(message) => message,
        };
        let at = match self.state.pick(sub_list, message) {
            None => {
                return RecordOutcome::NoSubscriber;
            },
            Some(at) => at,
        };
        let subscribe = &sub_list[at];
        assert(members(sub_list@)[at as int] == subscribe@);
        let connect_id = match cache.connect_id(&subscribe.client_id) {
            Some(connect_id) => connect_id,
            None => {
                self.state.rebind(sub_list, at);
                return RecordOutcome::ClientGone { client_id: subscribe.client_id.clone() };
            },
        };
        let mut sub_id: Vec<usize> = Vec::new();
        match subscribe.subscription_identifier {
            Some(id) => {
                sub_id.push(id);
            },
            None => {},
        }
        let qos = effective_qos(message.qos, subscribe.qos, cluster.max_qos);
        let publish = Publish {
            dup: false,
            qos,
            pkid: 0,
            retain: false,
            topic: bytes_of_text(self.topic_name.clone()),
            payload: message.payload.clone(),
        };
        let mut user_properties: Vec<(String, String)> = Vec::new();
        if subscribe.is_contain_rewrite_flag {
            user_properties.push(share_sub_rewrite_publish_flag());
        }
        assert(pairs(user_properties@) =~= if subscribe.is_contain_rewrite_flag {
            seq![rewrite_flag()]
        } else {
            Seq::<(Seq<char>, Seq<char>)>::empty()
        });
        assert(sub_id@ =~= match subscribe.subscription_identifier {
            Some(id) => seq![id],
            None => Seq::<usize>::empty(),
        });
        let properties = PublishProperties {
            payload_format_indicator: None,
            message_expiry_interval: None,
            topic_alias: None,
            response_topic: None,
            correlation_data: None,
            user_properties,
            subscription_identifiers: sub_id,
            content_type: None,
        };
        RecordOutcome::Deliver(
            Dispatch {
                client_id: subscribe.client_id.clone(),
                connection_id: connect_id,
                protocol: subscribe.protocol,
                offset: message.offset,
                publish,
                properties,
            },
        )
    }

    /// Makes a batch of records ready, in the order of the log: one
    /// outcome for each record, at the record's place.
    pub fn dispatch_batch(
        &mut self,
        sub_list: &Vec<SubscriberEntry>,
        records: &Vec<Option<Message>>,
        cache: &MetadataCache,
        cluster: &MQTTCluster,
    ) -> (outcomes: Vec<RecordOutcome>)
        ensures
            final(self).group_name == old(self).group_name,
            final(self).topic_id == old(self).topic_id,
            final(self).topic_name == old(self).topic_name,
            outcomes.len() == records.len(),
            final(self).state@ == after_records(
                old(self).state@,
                members(sub_list@),
                cache.connections(),
                records@,
                records.len() as int,
            ),
            forall|i: int|
                0 <= i < records.len() ==> outcome_fits(
                    #[trigger] outcomes[i],
                    after_records(
                        old(self).state@,
                        members(sub_list@),
                        cache.connections(),
                        records@,
                        i,
                    ),
                    members(sub_list@),
                    records[i],
                    cache.connections(),
                    old(self).topic_name@,
                    cluster.max_qos,
                ),
    {
        let mut outcomes: Vec<RecordOutcome> = Vec::new();
        let mut i: usize = 0;
        while i < records.len()
            invariant
                i <= records.len(),
                outcomes.len() == i,
                self.group_name == old(self).group_name,
                self.topic_id == old(self).topic_id,
                self.topic_name == old(self).topic_name,
                self.state@ == after_records(
                    old(self).state@,
                    members(sub_list@),
                    cache.connections(),
                    records@,
                    i as int,
                ),
                forall|k: int|
                    0 <= k < i ==> outcome_fits(
                        #[trigger] outcomes[k],
                        after_records(
                            old(self).state@,
                            members(sub_list@),
                            cache.connections(),
                            records@,
                            k,
                        ),
                        members(sub_list@),
                        records[k],
                        cache.connections(),
                        old(self).topic_name@,
                        cluster.max_qos,
                    ),
            decreases records.len() - i,
        {
            let outcome = self.dispatch_record(sub_list, &records[i], cache, cluster);
            outcomes.push(outcome);
            i = i + 1;
        }
        outcomes
    }
}

/// What a run through a batch hands out next.
#[derive(Debug, PartialEq, Eq)]
pub enum RunStep {
    /// The delivery handed out last is not over: nothing is handed out.
    Wait,
    /// Every record of the batch has been dealt with.
    Done,
    /// What became of the next record of the batch.
    Outcome(RecordOutcome),
}

/// A run through one batch of records, in the order of the log and one
/// delivery at a time: after a message has gone out, the next record is
/// not touched before that delivery is reported over.
pub struct BatchRun {
    records: Vec<Option<Message>>,
    next: usize,
    open: bool,
}

impl BatchRun {
    /// The records of the batch.
    pub closed spec fn records(&self) -> Seq<Option<Message>> {
        self.records@
    }

    /// How many records have been dealt with.
    pub closed spec fn position(&self) -> int {
        self.next as int
    }

    /// Whether a delivery that the run handed out is not over yet.
    pub closed spec fn is_open(&self) -> bool {
        self.open
    }

    /// Returns a run that has dealt with no record of the batch yet.
    pub fn new(records: Vec<Option<Message>>) -> (run: Self)
        ensures
            run.records() == records@,
            run.position() == 0,
            !run.is_open(),
    {
        BatchRun { records, next: 0, open: false }
    }

    /// Deals with the next record of the batch, unless a delivery is open
    /// or no record is left. A message that goes out opens a delivery.
    pub fn next_record(
        &mut self,
        pusher: &mut Pusher,
        sub_list: &Vec<SubscriberEntry>,
        cache: &MetadataCache,
        cluster: &MQTTCluster,
    ) -> (step: RunStep)
        ensures
            final(self).records() == old(self).records(),
            final(pusher).group_name == old(pusher).group_name,
            final(pusher).topic_id == old(pusher).topic_id,
            final(pusher).topic_name == old(pusher).topic_name,
            old(self).is_open() ==> step is Wait,
            !old(self).is_open() && old(self).position() >= old(self).records().len()
                ==> step is Done,
            step is Wait || step is Done ==> final(self).position() == old(self).position()
                && final(self).is_open() == old(self).is_open() && final(pusher).state@ == old(
                pusher,
            ).state@,
            !old(self).is_open() && old(self).position() < old(self).records().len() ==> {
                let record = old(self).records()[old(self).position()];
                &&& step matches RunStep::Outcome(outcome)
                &&& outcome_fits(
                    outcome,
                    old(pusher).state@,
                    members(sub_list@),
                    record,
                    cache.connections(),
                    old(pusher).topic_name@,
                    cluster.max_qos,
                )
                &&& final(pusher).state@ == after_record(
                    old(pusher).state@,
                    members(sub_list@),
                    cache.connections(),
                    record,
                )
                &&& final(self).position() == old(self).position() + 1
                &&& final(self).is_open() == (outcome is Deliver)
            },
    {
        if self.open {
            return RunStep::Wait;
        }
        if self.next >= self.records.len() {
            return RunStep::Done;
        }
        let outcome = pusher.dispatch_record(sub_list, &self.records[self.next], cache, cluster);
        self.next = self.next + 1;
        self.open = match outcome {
            RecordOutcome::Deliver(_) => true,
            _ => false,
        };
        RunStep::Outcome(outcome)
    }

    /// Takes note that the delivery handed out last is over, done or
    /// failed: the run may go on.
    pub fn delivery_over(&mut self)
        ensures
            final(self).records() == old(self).records(),
            final(self).position() == old(self).position(),
            !final(self).is_open(),
    {
        self.open = false;
    }
}

/// Two batches dispatched one after the other leave the strategy where
/// one batch made of both would: the strategy's memory lives across
/// batches.
pub proof fn lemma_batches_compose(
    state: StrategyView,
    list: Seq<SubscriberView>,
    connections: Map<Seq<char>, u64>,
    first: Seq<Option<Message>>,
    second: Seq<Option<Message>>,
    count: int,
)
    requires
        0 <= count <= second.len(),
    ensures
        after_records(state, list, connections, first + second, first.len() + count)
            == after_records(
            after_records(state, list, connections, first, first.len() as int),
            list,
            connections,
            second,
            count,
        ),
    decreases first.len() + count,
{
    let both = first + second;
    if count == 0 {
        if first.len() > 0 {
            lemma_prefix_decides(state, list, connections, both, first, first.len() as int);
        }
    } else {
        lemma_batches_compose(state, list, connections, first, second, count - 1);
        assert(both[first.len() + count - 1] == second[count - 1]);
    }
}

/// The strategy after the first `count` records depends on those records
/// alone.
pub proof fn lemma_prefix_decides(
    state: StrategyView,
    list: Seq<SubscriberView>,
    connections: Map<Seq<char>, u64>,
    longer: Seq<Option<Message>>,
    shorter: Seq<Option<Message>>,
    count: int,
)
    requires
        0 <= count <= shorter.len() <= longer.len(),
        forall|i: int| 0 <= i < count ==> longer[i] == shorter[i],
    ensures
        after_records(state, list, connections, longer, count) == after_records(
            state,
            list,
            connections,
            shorter,
            count,
        ),
    decreases count,
{
    if count > 0 {
        lemma_prefix_decides(state, list, connections, longer, shorter, count - 1);
    }
}

/// How many of the first `count` records of a batch the strategy gives to
/// the member at `at`.
pub open spec fn picks_of(
    state: StrategyView,
    list: Seq<SubscriberView>,
    connections: Map<Seq<char>, u64>,
    records: Seq<Option<Message>>,
    count: int,
    at: int,
) -> int
    decreases count,
{
    if count <= 0 {
        0
    } else {
        let earlier = picks_of(state, list, connections, records, count - 1, at);
        match records[count - 1] {
            Some(message) => if list.len() > 0 && the_pick(
                after_records(state, list, connections, records, count - 1),
                list,
                message.offset,
            ) == at {
                earlier + 1
            } else {
                earlier
            },
            None => earlier,
        }
    }
}

/// Round-robin gives the records of a batch to the members in turn: while
/// the cursor does not start over, after `count` records that decode it
/// stands `count` further, and each member has got as many records as
/// `turns` counts for it.
pub proof fn lemma_round_robin_batch(
    cursor: u64,
    list: Seq<SubscriberView>,
    connections: Map<Seq<char>, u64>,
    records: Seq<Option<Message>>,
    count: int,
    at: int,
)
    requires
        list.len() > 0,
        0 <= count <= records.len(),
        forall|i: int| 0 <= i < count ==> (#[trigger] records[i]) is Some,
        cursor + count <= u64::MAX,
    ensures
        after_records((StrategyView::RoundRobin { cursor }), list, connections, records, count) == (
        StrategyView::RoundRobin { cursor: (cursor + count) as u64 }),
        picks_of(
            (StrategyView::RoundRobin { cursor }),
            list,
            connections,
            records,
            count,
            at,
        ) == turns(cursor as int, list.len() as int, count, at),
    decreases count,
{
    if count > 0 {
        lemma_round_robin_batch(cursor, list, connections, records, count - 1, at);
        let reached = (cursor + count - 1) as u64;
        let state = StrategyView::RoundRobin { cursor: reached };
        let message = records[count - 1]->0;
        let place = reached as int % list.len() as int;
        assert(is_pick(state, list, message.offset, place));
        lemma_round_robin_pick(
            reached,
            list,
            message.offset,
            the_pick(state, list, message.offset),
        );
    }
}

/// Round-robin over a list whose members stay is fair to the record: of
/// any number of records that decode, no member gets more than one record
/// more than another, as long as the cursor does not start over.
pub proof fn lemma_round_robin_batch_is_fair(
    cursor: u64,
    list: Seq<SubscriberView>,
    connections: Map<Seq<char>, u64>,
    records: Seq<Option<Message>>,
    one: int,
    other: int,
)
    requires
        forall|i: int| 0 <= i < records.len() ==> (#[trigger] records[i]) is Some,
        cursor + records.len() <= u64::MAX,
        0 <= one < list.len(),
        0 <= other < list.len(),
    ensures
        -1 <= picks_of(
            (StrategyView::RoundRobin { cursor }),
            list,
            connections,
            records,
            records.len() as int,
            one,
        ) - picks_of(
            (StrategyView::RoundRobin { cursor }),
            list,
            connections,
            records,
            records.len() as int,
            other,
        ) <= 1,
{
    let count = records.len() as int;
    lemma_round_robin_batch(cursor, list, connections, records, count, one);
    lemma_round_robin_batch(cursor, list, connections, records, count, other);
    lemma_round_robin_fair(cursor as int, list.len() as int, count, one, other);
}

/// The picks of the first `count` records depend on those records alone.
pub proof fn lemma_prefix_decides_picks(
    state: StrategyView,
    list: Seq<SubscriberView>,
    connections: Map<Seq<char>, u64>,
    longer: Seq<Option<Message>>,
    shorter: Seq<Option<Message>>,
    count: int,
    at: int,
)
    requires
        0 <= count <= shorter.len() <= longer.len(),
        forall|i: int| 0 <= i < count ==> longer[i] == shorter[i],
    ensures
        picks_of(state, list, connections, longer, count, at) == picks_of(
            state,
            list,
            connections,
            shorter,
            count,
            at,
        ),
    decreases count,
{
    if count > 0 {
        lemma_prefix_decides_picks(state, list, connections, longer, shorter, count - 1, at);
        lemma_prefix_decides(state, list, connections, longer, shorter, count - 1);
    }
}

/// The picks of two batches dispatched one after the other are the picks
/// of one batch made of both.
pub proof fn lemma_picks_compose(
    state: StrategyView,
    list: Seq<SubscriberView>,
    connections: Map<Seq<char>, u64>,
    first: Seq<Option<Message>>,
    second: Seq<Option<Message>>,
    count: int,
    at: int,
)
    requires
        0 <= count <= second.len(),
    ensures
        picks_of(state, list, connections, first + second, first.len() + count, at) == picks_of(
            state,
            list,
            connections,
            first,
            first.len() as int,
            at,
        ) + picks_of(
            after_records(state, list, connections, first, first.len() as int),
            list,
            connections,
            second,
            count,
            at,
        ),
    decreases count,
{
    let both = first + second;
    if count == 0 {
        lemma_prefix_decides_picks(
            state,
            list,
            connections,
            both,
            first,
            first.len() as int,
            at,
        );
    } else {
        lemma_picks_compose(state, list, connections, first, second, count - 1, at);
        lemma_batches_compose(state, list, connections, first, second, count - 1);
        assert(both[first.len() + count - 1] == second[count - 1]);
    }
}

/// The records of the first `count` batches, one batch after the other.
pub open spec fn joined(batches: Seq<Seq<Option<Message>>>, count: int) -> Seq<Option<Message>>
    decreases count,
{
    if count <= 0 {
        Seq::empty()
    } else {
        joined(batches, count - 1) + batches[count - 1]
    }
}

/// The strategy state after the first `count` batches were dispatched,
/// each by a call of its own.
pub open spec fn after_batches(
    state: StrategyView,
    list: Seq<SubscriberView>,
    connections: Map<Seq<char>, u64>,
    batches: Seq<Seq<Option<Message>>>,
    count: int,
) -> StrategyView
    decreases count,
{
    if count <= 0 {
        state
    } else {
        after_records(
            after_batches(state, list, connections, batches, count - 1),
            list,
            connections,
            batches[count - 1],
            batches[count - 1].len() as int,
        )
    }
}

/// How many records of the first `count` batches the strategy gives to
/// the member at `at`, when each batch is dispatched by a call of its own.
pub open spec fn picks_in_batches(
    state: StrategyView,
    list: Seq<SubscriberView>,
    connections: Map<Seq<char>, u64>,
    batches: Seq<Seq<Option<Message>>>,
    count: int,
    at: int,
) -> int
    decreases count,
{
    if count <= 0 {
        0
    } else {
        picks_in_batches(state, list, connections, batches, count - 1, at) + picks_of(
            after_batches(state, list, connections, batches, count - 1),
            list,
            connections,
            batches[count - 1],
            batches[count - 1].len() as int,
            at,
        )
    }
}

/// However the log cuts its records into batches, the pusher does with
/// them what it would do with one batch of all: the same state in the
/// end, the same number of records for every member.
pub proof fn lemma_batches_are_one_batch(
    state: StrategyView,
    list: Seq<SubscriberView>,
    connections: Map<Seq<char>, u64>,
    batches: Seq<Seq<Option<Message>>>,
    count: int,
    at: int,
)
    requires
        0 <= count <= batches.len(),
    ensures
        after_batches(state, list, connections, batches, count) == after_records(
            state,
            list,
            connections,
            joined(batches, count),
            joined(batches, count).len() as int,
        ),
        picks_in_batches(state, list, connections, batches, count, at) == picks_of(
            state,
            list,
            connections,
            joined(batches, count),
            joined(batches, count).len() as int,
            at,
        ),
    decreases count,
{
    if count > 0 {
        lemma_batches_are_one_batch(state, list, connections, batches, count - 1, at);
        let first = joined(batches, count - 1);
        let second = batches[count - 1];
        lemma_batches_compose(state, list, connections, first, second, second.len() as int);
        lemma_picks_compose(state, list, connections, first, second, second.len() as int, at);
    }
}

/// Round-robin is fair however the log cuts its records into batches:
/// with members that stay and records that all decode, every member gets
/// as many records as `turns` counts for it, no two members are more than
/// one record apart, and when the records make up whole rounds (10 N
/// records for N members, say) every member gets exactly as many as there
/// are rounds. The cursor must not start over on the way.
pub proof fn lemma_round_robin_is_fair_over_batches(
    cursor: u64,
    list: Seq<SubscriberView>,
    connections: Map<Seq<char>, u64>,
    batches: Seq<Seq<Option<Message>>>,
    rounds: int,
    one: int,
    other: int,
)
    requires
        forall|i: int|
            0 <= i < joined(batches, batches.len() as int).len() ==> (#[trigger] joined(
                batches,
                batches.len() as int,
            )[i]) is Some,
        cursor + joined(batches, batches.len() as int).len() <= u64::MAX,
        0 <= one < list.len(),
        0 <= other < list.len(),
    ensures
        picks_in_batches(
            (StrategyView::RoundRobin { cursor }),
            list,
            connections,
            batches,
            batches.len() as int,
            one,
        ) == turns(
            cursor as int,
            list.len() as int,
            joined(batches, batches.len() as int).len() as int,
            one,
        ),
        -1 <= picks_in_batches(
            (StrategyView::RoundRobin { cursor }),
            list,
            connections,
            batches,
            batches.len() as int,
            one,
        ) - picks_in_batches(
            (StrategyView::RoundRobin { cursor }),
            list,
            connections,
            batches,
            batches.len() as int,
            other,
        ) <= 1,
        rounds >= 0 && joined(batches, batches.len() as int).len() == rounds * list.len()
            ==> picks_in_batches(
            (StrategyView::RoundRobin { cursor }),
            list,
            connections,
            batches,
            batches.len() as int,
            one,
        ) == rounds,
{
    let state = StrategyView::RoundRobin { cursor };
    let count = batches.len() as int;
    let records = joined(batches, count);
    let total = records.len() as int;
    lemma_batches_are_one_batch(state, list, connections, batches, count, one);
    lemma_batches_are_one_batch(state, list, connections, batches, count, other);
    lemma_round_robin_batch(cursor, list, connections, records, total, one);
    lemma_round_robin_batch(cursor, list, connections, records, total, other);
    lemma_round_robin_fair(cursor as int, list.len() as int, total, one, other);
    if rounds >= 0 && total == rounds * list.len() {
        lemma_round_robin_whole_rounds(cursor as int, list.len() as int, rounds, one);
    }
}

/// While every member is connected, round-robin sends every record that
/// decodes to the member at `cursor % len`.
pub proof fn lemma_round_robin_delivers(
    outcome: RecordOutcome,
    cursor: u64,
    list: Seq<SubscriberView>,
    message: Message,
    connections: Map<Seq<char>, u64>,
    topic_name: Seq<char>,
    max_qos: QoS,
)
    requires
        list.len() > 0,
        forall|i: int|
            0 <= i < list.len() ==> connections.contains_key((#[trigger] list[i]).client_id),
        outcome_fits(
            outcome,
            (StrategyView::RoundRobin { cursor }),
            list,
            Some(message),
            connections,
            topic_name,
            max_qos,
        ),
    ensures
        outcome is Deliver,
        outcome->Deliver_0.client_id@ == list[cursor as int % list.len() as int].client_id,
        outcome->Deliver_0.offset == message.offset,
{
    let state = StrategyView::RoundRobin { cursor };
    let place = cursor as int % list.len() as int;
    assert(is_pick(state, list, message.offset, place));
    lemma_round_robin_pick(cursor, list, message.offset, the_pick(state, list, message.offset));
    assert(connections.contains_key(list[place].client_id));
}

/// Messages leave in the order of the log: where the offsets of a batch
/// rise from record to record, of two messages that go out the one with
/// the lower offset stands first.
pub proof fn lemma_deliveries_in_log_order(
    outcomes: Seq<RecordOutcome>,
    state: StrategyView,
    list: Seq<SubscriberView>,
    records: Seq<Option<Message>>,
    connections: Map<Seq<char>, u64>,
    topic_name: Seq<char>,
    max_qos: QoS,
    first: int,
    second: int,
)
    requires
        outcomes.len() == records.len(),
        forall|i: int|
            0 <= i < records.len() ==> outcome_fits(
                #[trigger] outcomes[i],
                after_records(state, list, connections, records, i),
                list,
                records[i],
                connections,
                topic_name,
                max_qos,
            ),
        forall|i: int, j: int|
            0 <= i < j < records.len() && records[i] is Some && records[j] is Some ==> (
            #[trigger] records[i])->0.offset < (#[trigger] records[j])->0.offset,
        0 <= first < second < outcomes.len(),
        outcomes[first] is Deliver,
        outcomes[second] is Deliver,
    ensures
        outcomes[first]->Deliver_0.offset < outcomes[second]->Deliver_0.offset,
        records[first] is Some && outcomes[first]->Deliver_0.offset == records[first]->0.offset,
        records[second] is Some && outcomes[second]->Deliver_0.offset == records[second]->0.offset,
{
    assert(outcome_fits(
        outcomes[first],
        after_records(state, list, connections, records, first),
        list,
        records[first],
        connections,
        topic_name,
        max_qos,
    ));
    assert(outcome_fits(
        outcomes[second],
        after_records(state, list, connections, records, second),
        list,
        records[second],
        connections,
        topic_name,
        max_qos,
    ));
}

} // verus!
