//! How a share group picks the member that gets the next message.

use crate::message::Message;
use crate::subscribe::{
    find_client, first_client_at, has_client, members, SubscriberEntry, SubscriberView,
};
use vstd::prelude::*;
use vstd::string::StringExecFns;

verus! {

/// The dispatch strategies that the configuration can name.
#[derive(Clone, Copy, Debug, PartialEq, Eq, Structural)]
pub enum Strategy {
    RoundRobin,
    Random,
    Sticky,
    Hash,
    Local,
}

impl Strategy {
    /// The strategy that a configuration value names, if it names one.
    pub open spec fn named(name: Seq<char>) -> Option<Strategy> {
        if name == "round_robin"@ {
            Some(Strategy::RoundRobin)
        } else if name == "random"@ {
            Some(Strategy::Random)
        } else if name == "sticky"@ {
            Some(Strategy::Sticky)
        } else if name == "hash"@ {
            Some(Strategy::Hash)
        } else if name == "local"@ {
            Some(Strategy::Local)
        } else {
            None
        }
    }

    /// Returns the strategy that a configuration value names.
    pub fn from_name(name: &String) -> (strategy: Option<Strategy>)
        ensures
            strategy == Strategy::named(name@),
    {
        if *name == String::from_str("round_robin") {
            Some(Strategy::RoundRobin)
        } else if *name == String::from_str("random") {
            Some(Strategy::Random)
        } else if *name == String::from_str("sticky") {
            Some(Strategy::Sticky)
        } else if *name == String::from_str("hash") {
            Some(Strategy::Hash)
        } else if *name == String::from_str("local") {
            Some(Strategy::Local)
        } else {
            None
        }
    }
}

impl Default for Strategy {
    /// The strategy of a broker whose configuration names none.
    fn default() -> (strategy: Self)
        ensures
            strategy == Strategy::RoundRobin,
    {
        Strategy::RoundRobin
    }
}

/// What a strategy remembers from one message to the next.
#[derive(Debug, PartialEq, Eq)]
pub enum StrategyState {
    /// A cursor that counts the messages dispatched.
    RoundRobin { cursor: u64 },
    /// The state of a linear congruential generator.
    Random { seed: u64 },
    /// The client that gets every message while it stays a member.
    Sticky { bound: Option<String> },
    /// Nothing: the ring is built from the members at each message.
    Hash,
    /// A cursor as for round-robin, and the clients connected to this node.
    Local { cursor: u64, on_node: Vec<String> },
}

/// What a `StrategyState` holds, as a mathematical value.
pub ghost enum StrategyView {
    RoundRobin { cursor: u64 },
    Random { seed: u64 },
    Sticky { bound: Option<Seq<char>> },
    Hash,
    Local { cursor: u64, on_node: Seq<Seq<char>> },
}

/// The texts of a list, each as a sequence of characters.
pub open spec fn texts(list: Seq<String>) -> Seq<Seq<char>> {
    list.map_values(|s: String| s@)
}

impl View for StrategyState {
    type V = StrategyView;

    open spec fn view(&self) -> StrategyView {
        match self {
            StrategyState::RoundRobin { cursor } => StrategyView::RoundRobin { cursor: *cursor },
            StrategyState::Random { seed } => StrategyView::Random { seed: *seed },
            StrategyState::Sticky { bound } => StrategyView::Sticky {
                bound: match bound {
                    Some(client) => Some(client@),
                    None => None,
                },
            },
            StrategyState::Hash => StrategyView::Hash,
            StrategyState::Local { cursor, on_node } => StrategyView::Local {
                cursor: *cursor,
                on_node: texts(on_node@),
            },
        }
    }
}

/// The state in which a strategy starts. Only the random strategy reads
/// the seed.
pub open spec fn initial_state(strategy: Strategy, seed: u64) -> StrategyView {
    match strategy {
        Strategy::RoundRobin => StrategyView::RoundRobin { cursor: 0 },
        Strategy::Random => StrategyView::Random { seed },
        Strategy::Sticky => StrategyView::Sticky { bound: None },
        Strategy::Hash => StrategyView::Hash,
        Strategy::Local => StrategyView::Local { cursor: 0, on_node: Seq::empty() },
    }
}

/// The cursor after one more message. It starts over after 2^64 - 1.
pub open spec fn next_cursor(cursor: u64) -> u64 {
    if cursor == u64::MAX {
        0
    } else {
        (cursor + 1) as u64
    }
}

/// The generator state that follows `seed`.
pub open spec fn next_seed(seed: u64) -> u64 {
    ((seed as int * 6364136223846793005 + 1442695040888963407) % 0x1_0000_0000_0000_0000) as u64
}

/// The number drawn when the generator leaves `seed`: the upper half of
/// the state that follows.
pub open spec fn draw(seed: u64) -> int {
    next_seed(seed) as int / 0x1_0000_0000
}

/// One step of the FNV-1a hash.
pub open spec fn fnv_step(hash: u64, byte: u8) -> u64 {
    (((hash ^ (byte as u64)) as int * 0x100_0000_01b3) % 0x1_0000_0000_0000_0000) as u64
}

/// The 64-bit FNV-1a hash of a byte string.
pub open spec fn fnv1a(bytes: Seq<u8>) -> u64
    decreases bytes.len(),
{
    if bytes.len() == 0 {
        0xcbf2_9ce4_8422_2325
    } else {
        fnv_step(fnv1a(bytes.drop_last()), bytes.last())
    }
}

/// Where a client sits on the hash ring.
pub open spec fn ring_point(client_id: Seq<char>) -> u64 {
    fnv1a(vstd::utf8::encode_utf8(client_id))
}

/// Where a message lands on the hash ring: its log offset, spread over
/// the ring by a multiplication.
pub open spec fn key_point(offset: u64) -> u64 {
    ((offset as int * 0x9e37_79b9_7f4a_7c15) % 0x1_0000_0000_0000_0000) as u64
}

/// How far clockwise `point` lies from `key` on the ring.
pub open spec fn ring_distance(key: u64, point: u64) -> int {
    (point as int - key as int) % 0x1_0000_0000_0000_0000
}

/// How far `at` lies behind the place that the cursor points at, going
/// round the list.
pub open spec fn turn_distance(cursor: u64, len: int, at: int) -> int {
    (at - cursor as int % len) % len
}

/// The rank of a member under the local strategy: members connected to
/// this node come first, and within each kind the order is that of
/// round-robin.
pub open spec fn local_rank(
    list: Seq<SubscriberView>,
    cursor: u64,
    on_node: Seq<Seq<char>>,
    at: int,
) -> int {
    turn_distance(cursor, list.len() as int, at) + if on_node.contains(list[at].client_id) {
        0int
    } else {
        list.len() as int
    }
}

/// Whether a strategy in state `state` gives the message at `offset` to
/// the member at `at`. For a list that is not empty exactly one place
/// qualifies.
pub open spec fn is_pick(
    state: StrategyView,
    list: Seq<SubscriberView>,
    offset: u64,
    at: int,
) -> bool {
    &&& 0 <= at < list.len()
    &&& match state {
        StrategyView::RoundRobin { cursor } => at == cursor as int % list.len() as int,
        StrategyView::Random { seed } => at == draw(seed) % list.len() as int,
        StrategyView::Sticky { bound } => if bound is Some && has_client(list, bound->0) {
            first_client_at(list, bound->0, at)
        } else {
            at == 0
        },
        StrategyView::Hash => forall|j: int|
            0 <= j < list.len() ==> {
                &&& ring_distance(key_point(offset), ring_point(list[at].client_id))
                    <= ring_distance(key_point(offset), #[trigger] ring_point(list[j].client_id))
                &&& j < at ==> ring_distance(key_point(offset), ring_point(list[at].client_id))
                    < ring_distance(key_point(offset), ring_point(list[j].client_id))
            },
        StrategyView::Local { cursor, on_node } => forall|j: int|
            0 <= j < list.len() ==> local_rank(list, cursor, on_node, at) <= #[trigger] local_rank(
                list,
                cursor,
                on_node,
                j,
            ),
    }
}

/// The place of the member that gets the message at `offset`. Meaningful
/// for a list that is not empty.
pub open spec fn the_pick(state: StrategyView, list: Seq<SubscriberView>, offset: u64) -> int {
    choose|at: int| is_pick(state, list, offset, at)
}

/// The state after a strategy has placed the message at `offset`: as it
/// was where the list is empty, else moved on past the pick.
pub open spec fn after_message(
    state: StrategyView,
    list: Seq<SubscriberView>,
    offset: u64,
) -> StrategyView {
    if list.len() == 0 {
        state
    } else {
        after_pick(state, list, the_pick(state, list, offset))
    }
}

/// The state after the member at `at` was picked.
pub open spec fn after_pick(
    state: StrategyView,
    list: Seq<SubscriberView>,
    at: int,
) -> StrategyView {
    match state {
        StrategyView::RoundRobin { cursor } => StrategyView::RoundRobin {
            cursor: next_cursor(cursor),
        },
        StrategyView::Random { seed } => StrategyView::Random { seed: next_seed(seed) },
        StrategyView::Sticky { bound } => StrategyView::Sticky { bound: Some(list[at].client_id) },
        StrategyView::Hash => StrategyView::Hash,
        StrategyView::Local { cursor, on_node } => StrategyView::Local {
            cursor: next_cursor(cursor),
            on_node,
        },
    }
}

/// The state after the member at `at` was picked and found without a
/// connection: the sticky strategy binds to the member that follows in
/// the list, the first after the last; the other strategies stay as they
/// are.
pub open spec fn after_skip(
    state: StrategyView,
    list: Seq<SubscriberView>,
    at: int,
) -> StrategyView {
    match state {
        StrategyView::Sticky { bound } => StrategyView::Sticky {
            bound: Some(list[(at + 1) % list.len() as int].client_id),
        },
        other => other,
    }
}

/// At most one member is the pick.
pub proof fn lemma_pick_unique(
    state: StrategyView,
    list: Seq<SubscriberView>,
    offset: u64,
    a: int,
    b: int,
)
    requires
        is_pick(state, list, offset, a),
        is_pick(state, list, offset, b),
    ensures
        a == b,
{
    match state {
        StrategyView::Hash => {
            let key = key_point(offset);
            assert(ring_distance(key, ring_point(list[a].client_id)) <= ring_distance(
                key,
                ring_point(list[b].client_id),
            ));
            assert(ring_distance(key, ring_point(list[b].client_id)) <= ring_distance(
                key,
                ring_point(list[a].client_id),
            ));
        },
        StrategyView::Local { cursor, on_node } => {
            let n = list.len() as int;
            assert(local_rank(list, cursor, on_node, a) <= local_rank(list, cursor, on_node, b));
            assert(local_rank(list, cursor, on_node, b) <= local_rank(list, cursor, on_node, a));
            let ta = turn_distance(cursor, n, a);
            let tb = turn_distance(cursor, n, b);
            assert(0 <= ta < n && 0 <= tb < n);
            assert(ta == tb);
            lemma_turn_distance_injective(cursor, n, a, b);
        },
        _ => {},
    }
}

/// The distance behind the cursor, without a remainder: places at or
/// after the cursor count from it, those before it come after the end of
/// the list.
pub proof fn lemma_turn_distance_value(cursor: u64, len: int, at: int)
    requires
        0 <= at < len,
    ensures
        0 <= turn_distance(cursor, len, at) < len,
        turn_distance(cursor, len, at) == if at >= cursor as int % len {
            at - cursor as int % len
        } else {
            at - cursor as int % len + len
        },
{
    let s = cursor as int % len;
    assert(0 <= s < len);
    let d = at - s;
    if d >= 0 {
        vstd::arithmetic::div_mod::lemma_small_mod(d as nat, len as nat);
    } else {
        vstd::arithmetic::div_mod::lemma_small_mod((d + len) as nat, len as nat);
        vstd::arithmetic::div_mod::lemma_mod_add_multiples_vanish(d, len);
    }
}

/// Two places at the same distance behind the cursor are one place.
pub proof fn lemma_turn_distance_injective(cursor: u64, len: int, a: int, b: int)
    requires
        0 <= a < len,
        0 <= b < len,
        turn_distance(cursor, len, a) == turn_distance(cursor, len, b),
    ensures
        a == b,
{
    lemma_turn_distance_value(cursor, len, a);
    lemma_turn_distance_value(cursor, len, b);
}

/// Returns where a client sits on the hash ring.
pub fn ring_point_of(client_id: &String) -> (point: u64)
    ensures
        point == ring_point(client_id@),
{
    let bytes = client_id.as_str().as_bytes();
    let mut hash: u64 = 0xcbf2_9ce4_8422_2325;
    let mut i: usize = 0;
    assert(bytes@.take(0) =~= Seq::<u8>::empty());
    while i < bytes.len()
        invariant
            i <= bytes.len(),
            hash == fnv1a(bytes@.take(i as int)),
        decreases bytes.len() - i,
    {
        let mixed: u128 = (hash ^ (bytes[i] as u64)) as u128;
        assert(bytes@.take(i + 1).drop_last() =~= bytes@.take(i as int));
        assert(bytes@.take(i + 1).last() == bytes@[i as int]);
        hash = ((mixed * 0x100_0000_01b3u128) % 0x1_0000_0000_0000_0000u128) as u64;
        i = i + 1;
    }
    assert(bytes@.take(bytes.len() as int) =~= bytes@);
    hash
}

/// Whether a list of texts holds a given text.
pub fn holds_text(list: &Vec<String>, text: &String) -> (found: bool)
    ensures
        found == texts(list@).contains(text@),
{
    let mut i: usize = 0;
    while i < list.len()
        invariant
            i <= list.len(),
            forall|j: int| 0 <= j < i ==> list[j]@ != text@,
        decreases list.len() - i,
    {
        if list[i] == *text {
            assert(texts(list@)[i as int] == text@);
            return true;
        }
        i = i + 1;
    }
    assert forall|j: int| 0 <= j < texts(list@).len() implies texts(list@)[j] != text@ by {
        assert(texts(list@)[j] == list[j]@);
    }
    false
}

impl StrategyState {
    /// Returns the state in which a strategy starts. Only the random
    /// strategy reads the seed.
    pub fn new(strategy: Strategy, seed: u64) -> (state: Self)
        ensures
            state@ == initial_state(strategy, seed),
    {
        match strategy {
            Strategy::RoundRobin => StrategyState::RoundRobin { cursor: 0 },
            Strategy::Random => StrategyState::Random { seed },
            Strategy::Sticky => StrategyState::Sticky { bound: None },
            Strategy::Hash => StrategyState::Hash,
            Strategy::Local => {
                let on_node: Vec<String> = Vec::new();
                assert(texts(on_node@) =~= Seq::<Seq<char>>::empty());
                StrategyState::Local { cursor: 0, on_node }
            },
        }
    }

    /// Tells the local strategy which clients are connected to this node.
    /// The other strategies do not care.
    pub fn observe_node(&mut self, clients: Vec<String>)
        ensures
            final(self)@ == match old(self)@ {
                StrategyView::Local { cursor, on_node } => StrategyView::Local {
                    cursor,
                    on_node: texts(clients@),
                },
                other => other,
            },
    {
        let cursor = match self {
            StrategyState::Local { cursor, .. } => Some(*cursor),
            _ => None,
        };
        match cursor {
            Some(cursor) => {
                *self = StrategyState::Local { cursor, on_node: clients };
            },
            None => {},
        }
    }

    /// Moves the sticky strategy on from the member at `at`, which has no
    /// connection, to the member that follows it. The other strategies do
    /// not care.
    pub fn rebind(&mut self, sub_list: &Vec<SubscriberEntry>, at: usize)
        requires
            at < sub_list.len(),
        ensures
            final(self)@ == after_skip(old(self)@, members(sub_list@), at as int),
    {
        let sticky = match self {
            StrategyState::Sticky { .. } => true,
            _ => false,
        };
        if sticky {
            let next = if at + 1 == sub_list.len() {
                0
            } else {
                at + 1
            };
            assert(next == (at + 1) % sub_list.len() as int) by {
                if at + 1 == sub_list.len() {
                    vstd::arithmetic::div_mod::lemma_mod_self_0(sub_list.len() as int);
                } else {
                    vstd::arithmetic::div_mod::lemma_small_mod(
                        (at + 1) as nat,
                        sub_list.len() as nat,
                    );
                }
            }
            assert(members(sub_list@)[next as int] == sub_list[next as int]@);
            *self = StrategyState::Sticky { bound: Some(sub_list[next].client_id.clone()) };
        }
    }

    /// Takes the binding of the sticky strategy away, so that the next
    /// message binds anew. The other strategies do not care.
    pub fn unstick(&mut self)
        ensures
            final(self)@ == match old(self)@ {
                StrategyView::Sticky { bound } => StrategyView::Sticky { bound: None },
                other => other,
            },
    {
        let sticky = match self {
            StrategyState::Sticky { .. } => true,
            _ => false,
        };
        if sticky {
            *self = StrategyState::Sticky { bound: None };
        }
    }

    /// Picks the place of the member that gets `message`, and moves the
    /// state on. An empty list has no pick and leaves the state as it is.
    pub fn pick(
        &mut self,
        sub_list: &Vec<SubscriberEntry>,
        message: &Message,
    ) -> (at: Option<usize>)
        ensures
            sub_list.len() == 0 ==> at is None && final(self)@ == old(self)@,
            sub_list.len() > 0 ==> at is Some && is_pick(
                old(self)@,
                members(sub_list@),
                message.offset,
                at->0 as int,
            ) && final(self)@ == after_pick(old(self)@, members(sub_list@), at->0 as int),
            sub_list.len() > 0 ==> at->0 == the_pick(
                old(self)@,
                members(sub_list@),
                message.offset,
            ),
            final(self)@ == after_message(old(self)@, members(sub_list@), message.offset),
    {
        let n = sub_list.len();
        if n == 0 {
            return None;
        }
        let ghost list = members(sub_list@);
        let ghost before = self@;
        let picked: usize = match self {
            StrategyState::RoundRobin { cursor } => (*cursor % (n as u64)) as usize,
            StrategyState::Random { seed } => {
                let next: u64 = ((*seed as u128 * 6364136223846793005u128
                    + 1442695040888963407u128) % 0x1_0000_0000_0000_0000u128) as u64;
                ((next / 0x1_0000_0000u64) % (n as u64)) as usize
            },
            StrategyState::Sticky { bound } => match bound {
                Some(client) => match find_client(sub_list, client) {
                    Some(i) => i,
                    None => 0,
                },
                None => 0,
            },
            StrategyState::Hash => {
                let key: u64 = ((message.offset as u128 * 0x9e37_79b9_7f4a_7c15u128)
                    % 0x1_0000_0000_0000_0000u128) as u64;
                let mut best: usize = 0;
                let mut best_distance: u64 = 0;
                let mut j: usize = 0;
                while j < n
                    invariant
                        n == sub_list.len(),
                        n > 0,
                        list == members(sub_list@),
                        key == key_point(message.offset),
                        j <= n,
                        j > 0 ==> best < j && best_distance == ring_distance(
                            key,
                            ring_point(list[best as int].client_id),
                        ),
                        forall|k: int|
                            0 <= k < j ==> {
                                &&& best_distance <= ring_distance(
                                    key,
                                    #[trigger] ring_point(list[k].client_id),
                                )
                                &&& k < best ==> best_distance < ring_distance(
                                    key,
                                    ring_point(list[k].client_id),
                                )
                            },
                    decreases n - j,
                {
                    let point = ring_point_of(&sub_list[j].client_id);
                    assert(list[j as int] == sub_list[j as int]@);
                    let distance: u64 = if point >= key {
                        point - key
                    } else {
                        (u64::MAX - key) + point + 1
                    };
                    assert(distance == ring_distance(key, point));
                    if j == 0 || distance < best_distance {
                        best = j;
                        best_distance = distance;
                    }
                    j = j + 1;
                }
                best
            },
            StrategyState::Local { cursor, on_node } => {
                let start: usize = (*cursor % (n as u64)) as usize;
                let ghost here = texts(on_node@);
                let mut best: usize = 0;
                let mut best_rank: u128 = 0;
                let mut j: usize = 0;
                while j < n
                    invariant
                        n == sub_list.len(),
                        n > 0,
                        list == members(sub_list@),
                        here == texts(on_node@),
                        start == *cursor as int % n as int,
                        j <= n,
                        j > 0 ==> best < j && best_rank == local_rank(
                            list,
                            *cursor,
                            here,
                            best as int,
                        ),
                        forall|k: int|
                            0 <= k < j ==> best_rank <= #[trigger] local_rank(
                                list,
                                *cursor,
                                here,
                                k,
                            ),
                    decreases n - j,
                {
                    let turn: usize = if j >= start {
                        j - start
                    } else {
                        j + (n - start)
                    };
                    proof {
                        lemma_turn_distance_value(*cursor, n as int, j as int);
                    }
                    assert(list[j as int] == sub_list[j as int]@);
                    let rank: u128 = if holds_text(on_node, &sub_list[j].client_id) {
                        turn as u128
                    } else {
                        turn as u128 + n as u128
                    };
                    assert(rank == local_rank(list, *cursor, here, j as int));
                    if j == 0 || rank < best_rank {
                        best = j;
                        best_rank = rank;
                    }
                    j = j + 1;
                }
                best
            },
        };
        match self {
            StrategyState::RoundRobin { cursor } => {
                *cursor = if *cursor == u64::MAX {
                    0
                } else {
                    *cursor + 1
                };
            },
            StrategyState::Random { seed } => {
                *seed = ((*seed as u128 * 6364136223846793005u128 + 1442695040888963407u128)
                    % 0x1_0000_0000_0000_0000u128) as u64;
            },
            StrategyState::Sticky { bound } => {
                *bound = Some(sub_list[picked].client_id.clone());
                assert(list[picked as int] == sub_list[picked as int]@);
            },
            StrategyState::Hash => {},
            StrategyState::Local { cursor, .. } => {
                *cursor = if *cursor == u64::MAX {
                    0
                } else {
                    *cursor + 1
                };
            },
        }
        proof {
            lemma_pick_unique(
                before,
                list,
                message.offset,
                picked as int,
                the_pick(before, list, message.offset),
            );
        }
        Some(picked)
    }
}

/// Picks the member that gets `message`, and moves the state on. An empty
/// list has no pick and leaves the state as it is.
pub fn choose_subscriber<'a>(
    sub_list: &'a Vec<SubscriberEntry>,
    message: &Message,
    state: &mut StrategyState,
) -> (chosen: Option<&'a SubscriberEntry>)
    ensures
        sub_list.len() == 0 ==> chosen is None && final(state)@ == old(state)@,
        sub_list.len() > 0 ==> chosen is Some && exists|at: int|
            {
                &&& #[trigger] is_pick(old(state)@, members(sub_list@), message.offset, at)
                &&& *chosen->0 == sub_list[at]
                &&& final(state)@ == after_pick(old(state)@, members(sub_list@), at)
            },
{
    match state.pick(sub_list, message) {
        Some(at) => Some(&sub_list[at]),
        None => None,
    }
}

/// How many of the first `count` messages round-robin gives to the member
/// at `at`, when the cursor starts at `cursor` and the list keeps its
/// `len` members.
pub open spec fn turns(cursor: int, len: int, count: int, at: int) -> int
    decreases count,
{
    if count <= 0 {
        0
    } else {
        turns(cursor, len, count - 1, at) + if (cursor + count - 1) % len == at {
            1int
        } else {
            0
        }
    }
}

/// The share of every member in closed form: the full rounds, and one
/// more for the members that the last, partial round reaches.
pub proof fn lemma_turns_value(cursor: int, len: int, count: int, at: int)
    requires
        len > 0,
        count >= 0,
        0 <= at < len,
    ensures
        turns(cursor, len, count, at) == count / len + if (at - cursor) % len < count % len {
            1int
        } else {
            0
        },
    decreases count,
{
    let d = (at - cursor) % len;
    vstd::arithmetic::div_mod::lemma_mod_bound(at - cursor, len);
    if count == 0 {
        vstd::arithmetic::div_mod::lemma_small_mod(0, len as nat);
        vstd::arithmetic::div_mod::lemma_basic_div(0, len);
    } else {
        lemma_turns_value(cursor, len, count - 1, at);
        let q = (count - 1) / len;
        let r = (count - 1) % len;
        vstd::arithmetic::div_mod::lemma_fundamental_div_mod(count - 1, len);
        vstd::arithmetic::div_mod::lemma_mod_bound(count - 1, len);
        assert(count - 1 == len * q + r);
        if r + 1 < len {
            assert(count == q * len + (r + 1)) by (nonlinear_arith)
                requires
                    count - 1 == len * q + r,
            ;
            vstd::arithmetic::div_mod::lemma_fundamental_div_mod_converse(count, len, q, r + 1);
        } else {
            assert(count == (q + 1) * len + 0) by (nonlinear_arith)
                requires
                    count - 1 == len * q + r,
                    r + 1 == len,
            ;
            vstd::arithmetic::div_mod::lemma_fundamental_div_mod_converse(count, len, q + 1, 0);
        }
        vstd::arithmetic::div_mod::lemma_small_mod(at as nat, len as nat);
        vstd::arithmetic::div_mod::lemma_mod_equivalence(cursor + count - 1, at, len);
        vstd::arithmetic::div_mod::lemma_mod_equivalence(count - 1, at - cursor, len);
        assert(((cursor + count - 1) % len == at) <==> (r == d));
    }
}

/// Round-robin over a list whose members stay gives every member the same
/// number of messages, up to one: whatever the cursor and however many
/// messages, no two members are more than one message apart.
pub proof fn lemma_round_robin_fair(cursor: int, len: int, count: int, a: int, b: int)
    requires
        len > 0,
        count >= 0,
        0 <= a < len,
        0 <= b < len,
    ensures
        -1 <= turns(cursor, len, count, a) - turns(cursor, len, count, b) <= 1,
{
    lemma_turns_value(cursor, len, count, a);
    lemma_turns_value(cursor, len, count, b);
}

/// How many of the first `count` messages round-robin gives to the
/// members before the place `upto`, taken together.
pub open spec fn turns_below(cursor: int, len: int, count: int, upto: int) -> int
    decreases upto,
{
    if upto <= 0 {
        0
    } else {
        turns_below(cursor, len, count, upto - 1) + turns(cursor, len, count, upto - 1)
    }
}

/// One more message is one more turn for the one member that it goes to.
pub proof fn lemma_turns_below_step(cursor: int, len: int, count: int, upto: int)
    requires
        len > 0,
        count > 0,
        0 <= upto <= len,
    ensures
        turns_below(cursor, len, count, upto) == turns_below(cursor, len, count - 1, upto) + if (
        cursor + count - 1) % len < upto {
            1int
        } else {
            0
        },
    decreases upto,
{
    vstd::arithmetic::div_mod::lemma_mod_bound(cursor + count - 1, len);
    if upto > 0 {
        lemma_turns_below_step(cursor, len, count, upto - 1);
    }
}

/// Every message goes to exactly one member: the turns of all members
/// add up to the number of messages.
pub proof fn lemma_turns_add_up(cursor: int, len: int, count: int)
    requires
        len > 0,
        count >= 0,
    ensures
        turns_below(cursor, len, count, len) == count,
    decreases count,
{
    if count > 0 {
        lemma_turns_add_up(cursor, len, count - 1);
        lemma_turns_below_step(cursor, len, count, len);
        vstd::arithmetic::div_mod::lemma_mod_bound(cursor + count - 1, len);
    } else {
        lemma_turns_add_up_none(cursor, len, len);
    }
}

/// Without messages nobody has a turn.
pub proof fn lemma_turns_add_up_none(cursor: int, len: int, upto: int)
    requires
        0 <= upto,
    ensures
        turns_below(cursor, len, 0, upto) == 0,
    decreases upto,
{
    if upto > 0 {
        lemma_turns_add_up_none(cursor, len, upto - 1);
    }
}

/// Over a whole number of rounds every member gets exactly as many
/// messages as there are rounds.
pub proof fn lemma_round_robin_whole_rounds(cursor: int, len: int, rounds: int, at: int)
    requires
        len > 0,
        rounds >= 0,
        0 <= at < len,
    ensures
        turns(cursor, len, rounds * len, at) == rounds,
{
    assert(rounds * len >= 0) by (nonlinear_arith)
        requires
            rounds >= 0,
            len > 0,
    ;
    lemma_turns_value(cursor, len, rounds * len, at);
    vstd::arithmetic::div_mod::lemma_fundamental_div_mod_converse(rounds * len, len, rounds, 0);
    vstd::arithmetic::div_mod::lemma_mod_bound(at - cursor, len);
}

/// While the cursor does not start over, round-robin gives the message
/// to the member at `cursor % len` and moves the cursor on by one; so the
/// `k`-th message after `cursor` goes where `turns` counts it.
pub proof fn lemma_round_robin_pick(cursor: u64, list: Seq<SubscriberView>, offset: u64, at: int)
    requires
        is_pick((StrategyView::RoundRobin { cursor }), list, offset, at),
    ensures
        at == cursor as int % list.len() as int,
        cursor < u64::MAX ==> after_pick((StrategyView::RoundRobin { cursor }), list, at) == (
        StrategyView::RoundRobin { cursor: (cursor + 1) as u64 }),
{
}

} // verus!
