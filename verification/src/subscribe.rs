//! Shared-subscription groups: who subscribes to which (group, topic), in
//! which order, and how often the membership has changed.

use crate::handles::{slot_keys, slot_map, slots_from, slots_get};
use crate::packet::MQTTProtocol;
use crate::qos::QoS;
use dashmap::DashMap;
use vstd::prelude::*;
use vstd::string::{StrSliceExecFns, StringExecFns};

verus! {

/// One member of a share group.
#[derive(Debug, PartialEq, Eq)]
pub struct SubscriberEntry {
    pub client_id: String,
    pub qos: QoS,
    pub subscription_identifier: Option<usize>,
    pub protocol: MQTTProtocol,
    pub is_contain_rewrite_flag: bool,
}

/// What a `SubscriberEntry` holds, as a mathematical value.
pub ghost struct SubscriberView {
    pub client_id: Seq<char>,
    pub qos: QoS,
    pub subscription_identifier: Option<usize>,
    pub protocol: MQTTProtocol,
    pub is_contain_rewrite_flag: bool,
}

impl View for SubscriberEntry {
    type V = SubscriberView;

    open spec fn view(&self) -> SubscriberView {
        SubscriberView {
            client_id: self.client_id@,
            qos: self.qos,
            subscription_identifier: self.subscription_identifier,
            protocol: self.protocol,
            is_contain_rewrite_flag: self.is_contain_rewrite_flag,
        }
    }
}

impl Clone for SubscriberEntry {
    fn clone(&self) -> (copy: Self)
        ensures
            copy@ == self@,
    {
        SubscriberEntry {
            client_id: self.client_id.clone(),
            qos: self.qos,
            subscription_identifier: self.subscription_identifier,
            protocol: self.protocol,
            is_contain_rewrite_flag: self.is_contain_rewrite_flag,
        }
    }
}

/// The members of a list, each as a mathematical value.
pub open spec fn members(list: Seq<SubscriberEntry>) -> Seq<SubscriberView> {
    list.map_values(|e: SubscriberEntry| e@)
}

/// Whether a client is a member.
pub open spec fn has_client(list: Seq<SubscriberView>, client_id: Seq<char>) -> bool {
    exists|i: int| 0 <= i < list.len() && (#[trigger] list[i]).client_id == client_id
}

/// Where a client stands in the list. Meaningful when it is a member.
pub open spec fn client_position(list: Seq<SubscriberView>, client_id: Seq<char>) -> int {
    choose|i: int| 0 <= i < list.len() && (#[trigger] list[i]).client_id == client_id
}

/// Whether `at` is the first place at which a client stands in the list.
pub open spec fn first_client_at(list: Seq<SubscriberView>, client_id: Seq<char>, at: int) -> bool {
    &&& 0 <= at < list.len()
    &&& list[at].client_id == client_id
    &&& forall|j: int| 0 <= j < at ==> (#[trigger] list[j]).client_id != client_id
}

/// No client is a member twice.
pub open spec fn distinct_clients(list: Seq<SubscriberView>) -> bool {
    forall|i: int, j: int|
        0 <= i < list.len() && 0 <= j < list.len() && i != j ==> (#[trigger] list[i]).client_id != (
        #[trigger] list[j]).client_id
}

/// The list after a client has subscribed: a member keeps its place and
/// takes the new entry, a newcomer goes to the end.
pub open spec fn with_member(list: Seq<SubscriberView>, entry: SubscriberView) -> Seq<
    SubscriberView,
> {
    if has_client(list, entry.client_id) {
        list.update(client_position(list, entry.client_id), entry)
    } else {
        list.push(entry)
    }
}

/// The list after a client has left: the others keep their order.
pub open spec fn without_member(list: Seq<SubscriberView>, client_id: Seq<char>) -> Seq<
    SubscriberView,
> {
    if has_client(list, client_id) {
        list.remove(client_position(list, client_id))
    } else {
        list
    }
}

/// A character of a group name as it stands in a key: an underscore and
/// a backslash stand behind a backslash, any other character stands for
/// itself.
pub open spec fn escaped_char(c: char) -> Seq<char> {
    if c == '_' || c == '\\' {
        seq!['\\', c]
    } else {
        seq![c]
    }
}

/// A group name as it stands in a key, character by character.
pub open spec fn escaped(name: Seq<char>) -> Seq<char>
    decreases name.len(),
{
    if name.len() == 0 {
        Seq::empty()
    } else {
        escaped_char(name[0]) + escaped(name.drop_first())
    }
}

/// The name under which a (group, topic) pair is filed: the group name,
/// an underscore, the topic id. In the group name every underscore and
/// every backslash stands behind a backslash, so that the first
/// underscore without one is the separator. A group name that holds
/// neither stands as it is.
pub open spec fn share_key(group_name: Seq<char>, topic_id: Seq<char>) -> Seq<char> {
    escaped(group_name) + seq!['_'] + topic_id
}

/// A key begins with the first character of the group name as it stands
/// in keys, and goes on with the key of the rest.
pub proof fn lemma_share_key_unfolds(group_name: Seq<char>, topic_id: Seq<char>)
    requires
        group_name.len() > 0,
    ensures
        share_key(group_name, topic_id) == escaped_char(group_name[0]) + share_key(
            group_name.drop_first(),
            topic_id,
        ),
        share_key(group_name, topic_id)[0] != '_',
        share_key(group_name, topic_id)[0] == '\\' <==> (group_name[0] == '_' || group_name[0]
            == '\\'),
{
    let head = escaped_char(group_name[0]);
    let rest = group_name.drop_first();
    assert(share_key(group_name, topic_id) =~= head + share_key(rest, topic_id));
    assert(share_key(group_name, topic_id)[0] == head[0]);
}

/// Different pairs are filed under different names: a key tells the
/// group name and the topic id that it was made of.
pub proof fn lemma_share_key_injective(
    group_name: Seq<char>,
    topic_id: Seq<char>,
    other_group: Seq<char>,
    other_topic: Seq<char>,
)
    requires
        share_key(group_name, topic_id) == share_key(other_group, other_topic),
    ensures
        group_name == other_group,
        topic_id == other_topic,
    decreases group_name.len(),
{
    let key = share_key(group_name, topic_id);
    let other = share_key(other_group, other_topic);
    if group_name.len() == 0 {
        assert(key =~= seq!['_'] + topic_id);
        assert(key[0] == '_');
        if other_group.len() > 0 {
            lemma_share_key_unfolds(other_group, other_topic);
        } else {
            assert(other =~= seq!['_'] + other_topic);
            assert(topic_id =~= key.skip(1));
            assert(other_topic =~= other.skip(1));
            assert(group_name =~= other_group);
        }
    } else if other_group.len() == 0 {
        assert(other =~= seq!['_'] + other_topic);
        assert(other[0] == '_');
        lemma_share_key_unfolds(group_name, topic_id);
    } else {
        lemma_share_key_unfolds(group_name, topic_id);
        lemma_share_key_unfolds(other_group, other_topic);
        let head = escaped_char(group_name[0]);
        let other_head = escaped_char(other_group[0]);
        let rest = share_key(group_name.drop_first(), topic_id);
        let other_rest = share_key(other_group.drop_first(), other_topic);
        assert(head.len() == other_head.len());
        assert(key[head.len() - 1] == group_name[0]);
        assert(other[head.len() - 1] == other_group[0]);
        assert(rest =~= key.skip(head.len() as int));
        assert(other_rest =~= other.skip(head.len() as int));
        lemma_share_key_injective(
            group_name.drop_first(),
            topic_id,
            other_group.drop_first(),
            other_topic,
        );
        assert(group_name =~= seq![group_name[0]] + group_name.drop_first());
        assert(other_group =~= seq![other_group[0]] + other_group.drop_first());
    }
}

/// Returns the name under which a (group, topic) pair is filed.
pub fn group_key(group_name: &str, topic_id: &str) -> (key: String)
    ensures
        key@ == share_key(group_name@, topic_id@),
{
    let mut key = String::new();
    let count = group_name.unicode_len();
    let mut i: usize = 0;
    proof {
        reveal_strlit("\\");
        reveal_strlit("_");
        assert(group_name@.skip(0) =~= group_name@);
    }
    while i < count
        invariant
            i <= count,
            count == group_name@.len(),
            "\\"@ == seq!['\\'],
            key@ + escaped(group_name@.skip(i as int)) == escaped(group_name@),
        decreases count - i,
    {
        let c = group_name.get_char(i);
        let ghost before = key@;
        let ghost tail = group_name@.skip(i as int);
        assert(tail[0] == c);
        assert(tail.drop_first() =~= group_name@.skip(i + 1));
        if c == '_' || c == '\\' {
            key.append("\\");
        }
        key.append(group_name.substring_char(i, i + 1));
        assert(group_name@.subrange(i as int, i + 1) =~= seq![c]);
        assert(key@ =~= before + escaped_char(c));
        assert(key@ + escaped(group_name@.skip(i + 1)) =~= before + escaped(tail));
        i = i + 1;
    }
    assert(escaped(group_name@.skip(count as int)) =~= Seq::<char>::empty());
    assert(key@ =~= escaped(group_name@));
    key.append("_");
    key.append(topic_id);
    assert(key@ =~= share_key(group_name@, topic_id@)) by {
        assert("_"@ =~= seq!['_']);
    }
    key
}

/// The epoch that follows `epoch`.
pub open spec fn next_epoch(epoch: u64) -> u64 {
    if epoch == u64::MAX {
        0
    } else {
        (epoch + 1) as u64
    }
}

/// The subscribers of one (group, topic) pair.
#[derive(Debug, PartialEq, Eq)]
pub struct ShareGroup {
    pub group_name: String,
    pub topic_id: String,
    pub topic_name: String,
    pub sub_list: Vec<SubscriberEntry>,
    pub epoch: u64,
}

/// What a `ShareGroup` holds, as a mathematical value.
pub ghost struct ShareGroupView {
    pub group_name: Seq<char>,
    pub topic_id: Seq<char>,
    pub topic_name: Seq<char>,
    pub sub_list: Seq<SubscriberView>,
    pub epoch: u64,
}

impl ShareGroupView {
    /// The name under which the group is filed.
    pub open spec fn key(self) -> Seq<char> {
        share_key(self.group_name, self.topic_id)
    }
}

impl View for ShareGroup {
    type V = ShareGroupView;

    open spec fn view(&self) -> ShareGroupView {
        ShareGroupView {
            group_name: self.group_name@,
            topic_id: self.topic_id@,
            topic_name: self.topic_name@,
            sub_list: members(self.sub_list@),
            epoch: self.epoch,
        }
    }
}

/// Returns a copy of a subscriber list, member for member.
pub fn copy_sub_list(list: &Vec<SubscriberEntry>) -> (copy: Vec<SubscriberEntry>)
    ensures
        members(copy@) == members(list@),
{
    let mut copy: Vec<SubscriberEntry> = Vec::new();
    let mut i: usize = 0;
    while i < list.len()
        invariant
            i <= list.len(),
            copy.len() == i,
            forall|j: int| 0 <= j < i ==> copy[j]@ == list[j]@,
        decreases list.len() - i,
    {
        copy.push(list[i].clone());
        i = i + 1;
    }
    assert(members(copy@) =~= members(list@));
    copy
}

impl Clone for ShareGroup {
    fn clone(&self) -> (copy: Self)
        ensures
            copy@ == self@,
    {
        ShareGroup {
            group_name: self.group_name.clone(),
            topic_id: self.topic_id.clone(),
            topic_name: self.topic_name.clone(),
            sub_list: copy_sub_list(&self.sub_list),
            epoch: self.epoch,
        }
    }
}

/// Returns where a client stands in a list, if it is a member.
pub fn find_client(list: &Vec<SubscriberEntry>, client_id: &String) -> (found: Option<usize>)
    ensures
        found is Some <==> has_client(members(list@), client_id@),
        found matches Some(i) ==> first_client_at(members(list@), client_id@, i as int),
        found matches Some(i) ==> (distinct_clients(members(list@)) ==> i == client_position(
            members(list@),
            client_id@,
        )),
{
    let mut i: usize = 0;
    while i < list.len()
        invariant
            i <= list.len(),
            forall|j: int| 0 <= j < i ==> list[j]@.client_id != client_id@,
        decreases list.len() - i,
    {
        if list[i].client_id == *client_id {
            assert(members(list@)[i as int].client_id == client_id@);
            assert forall|j: int| 0 <= j < i implies (#[trigger] members(list@)[j]).client_id
                != client_id@ by {
                assert(members(list@)[j] == list[j]@);
            }
            return Some(i);
        }
        i = i + 1;
    }
    assert forall|j: int| 0 <= j < list.len() implies (#[trigger] members(list@)[j]).client_id
        != client_id@ by {
        assert(members(list@)[j] == list[j]@);
    }
    None
}

/// Whether a group is filed under `key`.
pub open spec fn has_key(groups: Seq<ShareGroupView>, key: Seq<char>) -> bool {
    exists|i: int| 0 <= i < groups.len() && (#[trigger] groups[i]).key() == key
}

/// Where the group filed under `key` stands. Meaningful when there is one.
pub open spec fn key_position(groups: Seq<ShareGroupView>, key: Seq<char>) -> int {
    choose|i: int| 0 <= i < groups.len() && (#[trigger] groups[i]).key() == key
}

/// No two groups are filed under one name.
pub open spec fn distinct_keys(groups: Seq<ShareGroupView>) -> bool {
    forall|i: int, j: int|
        0 <= i < groups.len() && 0 <= j < groups.len() && i != j ==> (#[trigger] groups[i]).key()
            != (#[trigger] groups[j]).key()
}

/// The groups after `entry` has subscribed to (group, topic): an existing
/// group takes the member and moves to its next epoch, a new group starts
/// at epoch 0 with the one member.
pub open spec fn groups_with_member(
    groups: Seq<ShareGroupView>,
    group_name: Seq<char>,
    topic_id: Seq<char>,
    topic_name: Seq<char>,
    entry: SubscriberView,
) -> Seq<ShareGroupView> {
    let key = share_key(group_name, topic_id);
    if has_key(groups, key) {
        let at = key_position(groups, key);
        groups.update(
            at,
            ShareGroupView {
                sub_list: with_member(groups[at].sub_list, entry),
                epoch: next_epoch(groups[at].epoch),
                ..groups[at]
            },
        )
    } else {
        groups.push(
            ShareGroupView { group_name, topic_id, topic_name, sub_list: seq![entry], epoch: 0 },
        )
    }
}

/// The groups after a client has left (group, topic): the group stays,
/// even when it is empty now, and moves to its next epoch if the client
/// was a member.
pub open spec fn groups_without_member(
    groups: Seq<ShareGroupView>,
    key: Seq<char>,
    client_id: Seq<char>,
) -> Seq<ShareGroupView> {
    if has_key(groups, key) && has_client(groups[key_position(groups, key)].sub_list, client_id) {
        let at = key_position(groups, key);
        groups.update(
            at,
            ShareGroupView {
                sub_list: without_member(groups[at].sub_list, client_id),
                epoch: next_epoch(groups[at].epoch),
                ..groups[at]
            },
        )
    } else {
        groups
    }
}

/// The groups after the one filed under `key` has been taken away.
pub open spec fn groups_without(groups: Seq<ShareGroupView>, key: Seq<char>) -> Seq<
    ShareGroupView,
> {
    if has_key(groups, key) {
        groups.remove(key_position(groups, key))
    } else {
        groups
    }
}

/// A list without repeated clients stays so when a member is replaced in
/// place or a newcomer is added at the end.
pub proof fn lemma_with_member_distinct(list: Seq<SubscriberView>, entry: SubscriberView)
    requires
        distinct_clients(list),
    ensures
        distinct_clients(with_member(list, entry)),
        has_client(with_member(list, entry), entry.client_id),
        with_member(list, entry).len() >= 1,
{
    let after = with_member(list, entry);
    if has_client(list, entry.client_id) {
        let at = client_position(list, entry.client_id);
        assert(after[at].client_id == entry.client_id);
        assert forall|i: int, j: int|
            0 <= i < after.len() && 0 <= j < after.len() && i != j implies (
        #[trigger] after[i]).client_id != (#[trigger] after[j]).client_id by {
            assert(after[i].client_id == list[i].client_id);
            assert(after[j].client_id == list[j].client_id);
        }
    } else {
        assert(after[list.len() as int].client_id == entry.client_id);
        assert forall|i: int, j: int|
            0 <= i < after.len() && 0 <= j < after.len() && i != j implies (
        #[trigger] after[i]).client_id != (#[trigger] after[j]).client_id by {
            if i < list.len() {
                assert(after[i] == list[i]);
            }
            if j < list.len() {
                assert(after[j] == list[j]);
            }
        }
    }
}

/// A list without repeated clients stays so when a member leaves, and the
/// one who left is no member any more.
pub proof fn lemma_without_member_distinct(list: Seq<SubscriberView>, client_id: Seq<char>)
    requires
        distinct_clients(list),
    ensures
        distinct_clients(without_member(list, client_id)),
        !has_client(without_member(list, client_id), client_id),
{
    let after = without_member(list, client_id);
    if has_client(list, client_id) {
        let at = client_position(list, client_id);
        assert forall|i: int| 0 <= i < after.len() implies (#[trigger] after[i]) == list[if i
            < at {
            i
        } else {
            i + 1
        }] by {}
        assert forall|i: int, j: int|
            0 <= i < after.len() && 0 <= j < after.len() && i != j implies (
        #[trigger] after[i]).client_id != (#[trigger] after[j]).client_id by {
            let oi = if i < at { i } else { i + 1 };
            let oj = if j < at { j } else { j + 1 };
            assert(after[i] == list[oi]);
            assert(after[j] == list[oj]);
        }
        assert forall|i: int| 0 <= i < after.len() implies (#[trigger] after[i]).client_id
            != client_id by {
            let oi = if i < at { i } else { i + 1 };
            assert(after[i] == list[oi]);
            assert(list[at].client_id == client_id);
        }
    }
}

/// The subscription manager: every share group, in the order in which
/// the groups were created, and an index that finds the group of a key.
pub struct SubscribeManager {
    /// Where the group filed under each key stands in `groups`.
    share_leader_subscribe: DashMap<String, usize>,
    groups: Vec<ShareGroup>,
}

impl View for SubscribeManager {
    type V = Seq<ShareGroupView>;

    closed spec fn view(&self) -> Seq<ShareGroupView> {
        self.groups@.map_values(|g: ShareGroup| g@)
    }
}

impl SubscribeManager {
    /// The index holds the key of every group, with the place at which
    /// the group stands, and nothing else.
    pub closed spec fn indexed(&self) -> bool {
        let slots = slot_map(self.share_leader_subscribe);
        &&& forall|key: Seq<char>| #[trigger]
            slots.contains_key(key) ==> slots[key] < self@.len() && self@[slots[key] as int].key()
                == key
        &&& forall|i: int|
            0 <= i < self@.len() ==> slots.contains_key((#[trigger] self@[i]).key())
                && slots[self@[i].key()] == i
    }

    /// The index is right, no two groups share a name, and no client is
    /// twice in one group.
    pub open spec fn wf(&self) -> bool {
        &&& self.indexed()
        &&& distinct_keys(self@)
        &&& forall|i: int| 0 <= i < self@.len() ==> distinct_clients((#[trigger] self@[i]).sub_list)
    }

    /// An index stays right while every group keeps its place and its
    /// key.
    proof fn lemma_index_survives(before: SubscribeManager, after: SubscribeManager)
        requires
            before.indexed(),
            after.share_leader_subscribe == before.share_leader_subscribe,
            after@.len() == before@.len(),
            forall|i: int|
                0 <= i < after@.len() ==> (#[trigger] after@[i]).key() == before@[i].key(),
        ensures
            after.indexed(),
    {
        let slots = slot_map(after.share_leader_subscribe);
        assert forall|key: Seq<char>| #[trigger] slots.contains_key(key) implies slots[key]
            < after@.len() && after@[slots[key] as int].key() == key by {
            assert(before@[slots[key] as int].key() == key);
        }
        assert forall|i: int| 0 <= i < after@.len() implies slots.contains_key(
            (#[trigger] after@[i]).key(),
        ) && slots[after@[i].key()] == i by {
            assert(slots.contains_key(before@[i].key()));
        }
    }

    /// Builds the index anew from the groups.
    fn reindex(&mut self)
        requires
            distinct_keys(old(self)@),
        ensures
            final(self)@ == old(self)@,
            final(self).groups == old(self).groups,
            final(self).indexed(),
    {
        let mut pairs: Vec<(String, usize)> = Vec::new();
        let mut i: usize = 0;
        while i < self.groups.len()
            invariant
                i <= self.groups.len(),
                self@.len() == self.groups.len(),
                pairs.len() == i,
                forall|j: int|
                    0 <= j < i ==> (#[trigger] pairs[j]).0@ == self@[j].key() && pairs[j].1 == j,
            decreases self.groups.len() - i,
        {
            let group = &self.groups[i];
            assert(self@[i as int] == group@);
            pairs.push((group_key(group.group_name.as_str(), group.topic_id.as_str()), i));
            i = i + 1;
        }
        let ghost keys = slot_keys(pairs@);
        proof {
            assert forall|j: int| 0 <= j < keys.len() implies #[trigger] keys[j]
                == self@[j].key() by {
                assert(keys[j] == pairs[j].0@);
            }
            assert forall|a: int, b: int|
                0 <= a < keys.len() && 0 <= b < keys.len() && a != b implies keys[a]
                != keys[b] by {
                assert(self@[a].key() != self@[b].key());
            }
        }
        self.share_leader_subscribe = slots_from(pairs);
        proof {
            let slots = slot_map(self.share_leader_subscribe);
            assert forall|key: Seq<char>| #[trigger] slots.contains_key(key) implies slots[key]
                < self@.len() && self@[slots[key] as int].key() == key by {
                assert(keys.contains(key));
                let j = choose|j: int| 0 <= j < keys.len() && keys[j] == key;
                assert(slots[keys[j]] == pairs[j].1);
            }
            assert forall|j: int| 0 <= j < self@.len() implies slots.contains_key(
                (#[trigger] self@[j]).key(),
            ) && slots[self@[j].key()] == j by {
                assert(keys[j] == self@[j].key());
                assert(keys.contains(keys[j]));
                assert(slots[keys[j]] == pairs[j].1);
            }
        }
    }

    /// Returns a manager without groups.
    pub fn new() -> (manager: Self)
        ensures
            manager@ == Seq::<ShareGroupView>::empty(),
            manager.wf(),
    {
        let pairs: Vec<(String, usize)> = Vec::new();
        assert(slot_keys(pairs@) =~= Seq::<Seq<char>>::empty());
        let manager = SubscribeManager {
            share_leader_subscribe: slots_from(pairs),
            groups: Vec::new(),
        };
        assert(manager@ =~= Seq::<ShareGroupView>::empty());
        assert forall|key: Seq<char>| !slot_map(manager.share_leader_subscribe).contains_key(
            key,
        ) by {
            assert(!slot_keys(pairs@).contains(key));
        }
        manager
    }

    /// Returns the number of groups, empty ones included.
    pub fn len(&self) -> (n: usize)
        ensures
            n == self@.len(),
    {
        self.groups.len()
    }

    /// Returns the group at a place of the creation order.
    pub fn group_at(&self, at: usize) -> (group: &ShareGroup)
        requires
            at < self@.len(),
        ensures
            group@ == self@[at as int],
    {
        &self.groups[at]
    }

    /// Returns where the group filed under `key` stands, if there is one.
    pub fn find_key(&self, key: &String) -> (found: Option<usize>)
        requires
            self.wf(),
        ensures
            found is Some <==> has_key(self@, key@),
            found matches Some(i) ==> i < self@.len() && self@[i as int].key() == key@ && i
                == key_position(self@, key@),
    {
        let found = slots_get(&self.share_leader_subscribe, key);
        proof {
            let slots = slot_map(self.share_leader_subscribe);
            if has_key(self@, key@) {
                let at = key_position(self@, key@);
                assert(slots.contains_key(self@[at].key()));
            }
            if slots.contains_key(key@) {
                assert(self@[slots[key@] as int].key() == key@);
            }
        }
        found
    }

    /// Whether a group is filed under `key`.
    pub fn contains_key(&self, key: &String) -> (found: bool)
        requires
            self.wf(),
        ensures
            found == has_key(self@, key@),
    {
        self.find_key(key).is_some()
    }

    /// Returns the group of a (group, topic) pair, if there is one.
    pub fn get(&self, group_name: &String, topic_id: &String) -> (found: Option<&ShareGroup>)
        requires
            self.wf(),
        ensures
            found is Some <==> has_key(self@, share_key(group_name@, topic_id@)),
            found matches Some(g) ==> g@ == self@[key_position(
                self@,
                share_key(group_name@, topic_id@),
            )],
    {
        let key = group_key(group_name.as_str(), topic_id.as_str());
        match self.find_key(&key) {
            Some(i) => {
                assert(self@[i as int] == self.groups[i as int]@);
                Some(&self.groups[i])
            },
            None => None,
        }
    }

    /// Returns a copy of the members of a (group, topic) pair as they are
    /// now, or `None` where no such group is filed.
    pub fn snapshot(
        &self,
        group_name: &String,
        topic_id: &String,
    ) -> (list: Option<Vec<SubscriberEntry>>)
        requires
            self.wf(),
        ensures
            list is Some <==> has_key(self@, share_key(group_name@, topic_id@)),
            list matches Some(l) ==> members(l@) == self@[key_position(
                self@,
                share_key(group_name@, topic_id@),
            )].sub_list,
    {
        match self.get(group_name, topic_id) {
            Some(group) => Some(copy_sub_list(&group.sub_list)),
            None => None,
        }
    }

    /// Subscribes a client to a (group, topic) pair, creating the group
    /// where none is filed yet.
    pub fn add_subscriber(
        &mut self,
        group_name: String,
        topic_id: String,
        topic_name: String,
        entry: SubscriberEntry,
    )
        requires
            old(self).wf(),
        ensures
            final(self).wf(),
            final(self)@ == groups_with_member(
                old(self)@,
                group_name@,
                topic_id@,
                topic_name@,
                entry@,
            ),
    {
        let key = group_key(group_name.as_str(), topic_id.as_str());
        let ghost before = self@;
        let ghost member = entry@;
        match self.find_key(&key) {
            Some(at) => {
                let ghost old_list = before[at as int].sub_list;
                assert(before[at as int] == self.groups[at as int]@);
                let epoch = self.groups[at].epoch;
                let next = if epoch == u64::MAX {
                    0
                } else {
                    epoch + 1
                };
                match find_client(&self.groups[at].sub_list, &entry.client_id) {
                    Some(place) => {
                        self.groups[at].sub_list[place] = entry;
                        assert(members(self.groups[at as int].sub_list@)
                            =~= with_member(old_list, member));
                    },
                    None => {
                        self.groups[at].sub_list.push(entry);
                        assert(members(self.groups[at as int].sub_list@)
                            =~= with_member(old_list, member));
                    },
                }
                self.groups[at].epoch = next;
                proof {
                    lemma_with_member_distinct(old_list, member);
                    let after = groups_with_member(
                        before,
                        group_name@,
                        topic_id@,
                        topic_name@,
                        member,
                    );
                    assert(self@ =~= after);
                    assert forall|i: int, j: int|
                        0 <= i < after.len() && 0 <= j < after.len() && i != j implies (
                    #[trigger] after[i]).key() != (#[trigger] after[j]).key() by {
                        assert(after[i].key() == before[i].key());
                        assert(after[j].key() == before[j].key());
                    }
                    assert forall|i: int| 0 <= i < after.len() implies distinct_clients(
                        (#[trigger] after[i]).sub_list,
                    ) by {
                        if i != at {
                            assert(after[i] == before[i]);
                        }
                    }
                    assert forall|i: int| 0 <= i < after.len() implies (
                    #[trigger] self@[i]).key() == before[i].key() by {}
                    Self::lemma_index_survives(*old(self), *self);
                }
            },
            None => {
                let mut sub_list: Vec<SubscriberEntry> = Vec::new();
                sub_list.push(entry);
                assert(members(sub_list@) =~= seq![member]);
                self.groups.push(
                    ShareGroup { group_name, topic_id, topic_name, sub_list, epoch: 0 },
                );
                proof {
                    let after = groups_with_member(
                        before,
                        group_name@,
                        topic_id@,
                        topic_name@,
                        member,
                    );
                    assert(self@ =~= after);
                    assert forall|i: int, j: int|
                        0 <= i < after.len() && 0 <= j < after.len() && i != j implies (
                    #[trigger] after[i]).key() != (#[trigger] after[j]).key() by {
                        if i < before.len() {
                            assert(after[i] == before[i]);
                        }
                        if j < before.len() {
                            assert(after[j] == before[j]);
                        }
                    }
                    assert forall|i: int| 0 <= i < after.len() implies distinct_clients(
                        (#[trigger] after[i]).sub_list,
                    ) by {
                        if i < before.len() {
                            assert(after[i] == before[i]);
                        }
                    }
                }
                self.reindex();
            },
        }
    }

    /// Takes a client out of a (group, topic) pair. Returns whether it was
    /// a member. The group stays filed, even when it is empty now.
    pub fn remove_subscriber(
        &mut self,
        group_name: &String,
        topic_id: &String,
        client_id: &String,
    ) -> (removed: bool)
        requires
            old(self).wf(),
        ensures
            final(self).wf(),
            final(self)@ == groups_without_member(
                old(self)@,
                share_key(group_name@, topic_id@),
                client_id@,
            ),
            removed == (has_key(old(self)@, share_key(group_name@, topic_id@)) && has_client(
                old(self)@[key_position(old(self)@, share_key(group_name@, topic_id@))].sub_list,
                client_id@,
            )),
    {
        let key = group_key(group_name.as_str(), topic_id.as_str());
        let ghost before = self@;
        match self.find_key(&key) {
            Some(at) => {
                let ghost old_list = before[at as int].sub_list;
                assert(before[at as int] == self.groups[at as int]@);
                match find_client(&self.groups[at].sub_list, client_id) {
                    Some(place) => {
                        let epoch = self.groups[at].epoch;
                        let next = if epoch == u64::MAX {
                            0
                        } else {
                            epoch + 1
                        };
                        self.groups[at].sub_list.remove(place);
                        assert(members(self.groups[at as int].sub_list@)
                            =~= without_member(old_list, client_id@));
                        self.groups[at].epoch = next;
                        proof {
                            lemma_without_member_distinct(old_list, client_id@);
                            let after = groups_without_member(before, key@, client_id@);
                            assert(self@ =~= after);
                            assert forall|i: int, j: int|
                                0 <= i < after.len() && 0 <= j < after.len() && i
                                    != j implies (#[trigger] after[i]).key() != (
                            #[trigger] after[j]).key() by {
                                assert(after[i].key() == before[i].key());
                                assert(after[j].key() == before[j].key());
                            }
                            assert forall|i: int| 0 <= i < after.len() implies distinct_clients(
                                (#[trigger] after[i]).sub_list,
                            ) by {
                                if i != at {
                                    assert(after[i] == before[i]);
                                }
                            }
                            assert forall|i: int| 0 <= i < after.len() implies (
                            #[trigger] self@[i]).key() == before[i].key() by {}
                            Self::lemma_index_survives(*old(self), *self);
                        }
                        true
                    },
                    None => false,
                }
            },
            None => false,
        }
    }

    /// Takes the group of a (group, topic) pair away, members and all.
    /// Returns whether there was one.
    pub fn remove_group(&mut self, group_name: &String, topic_id: &String) -> (removed: bool)
        requires
            old(self).wf(),
        ensures
            final(self).wf(),
            final(self)@ == groups_without(old(self)@, share_key(group_name@, topic_id@)),
            removed == has_key(old(self)@, share_key(group_name@, topic_id@)),
            !has_key(final(self)@, share_key(group_name@, topic_id@)),
    {
        let key = group_key(group_name.as_str(), topic_id.as_str());
        let ghost before = self@;
        match self.find_key(&key) {
            Some(at) => {
                self.groups.remove(at);
                proof {
                    let after = groups_without(before, key@);
                    assert(self@ =~= after);
                    assert forall|i: int| 0 <= i < after.len() implies (#[trigger] after[i])
                        == before[if i < at {
                        i
                    } else {
                        i + 1
                    }] by {}
                    assert forall|i: int, j: int|
                        0 <= i < after.len() && 0 <= j < after.len() && i != j implies (
                    #[trigger] after[i]).key() != (#[trigger] after[j]).key() by {
                        let oi = if i < at { i } else { i + 1 };
                        let oj = if j < at { j } else { j + 1 };
                        assert(after[i] == before[oi]);
                        assert(after[j] == before[oj]);
                    }
                    assert forall|i: int| 0 <= i < after.len() implies distinct_clients(
                        (#[trigger] after[i]).sub_list,
                    ) by {
                        let oi = if i < at { i } else { i + 1 };
                        assert(after[i] == before[oi]);
                    }
                    assert forall|i: int| 0 <= i < after.len() implies (#[trigger] after[i]).key()
                        != key@ by {
                        let oi = if i < at { i } else { i + 1 };
                        assert(after[i] == before[oi]);
                        assert(before[at as int].key() == key@);
                    }
                }
                self.reindex();
                true
            },
            None => false,
        }
    }
}

} // verus!
