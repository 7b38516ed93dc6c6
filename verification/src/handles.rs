//! The concurrent maps of `dashmap` that the library keeps: the table of
//! running pushers with their stop signals, and the index of the share
//! groups. The library changes them through exclusive references only.

use crate::strategy::texts;
use dashmap::DashMap;
use tokio::sync::broadcast::Sender;
use vstd::prelude::*;

verus! {

/// `dashmap::DashMap`: a sharded concurrent hash map.
#[verifier::external_type_specification]
#[verifier::external_body]
#[verifier::reject_recursive_types(K)]
#[verifier::reject_recursive_types(V)]
#[verifier::reject_recursive_types(S)]
pub struct ExDashMap<K, V, S>(DashMap<K, V, S>);

/// The keys under which the table holds a stop signal.
pub uninterp spec fn handle_keys(table: DashMap<String, Sender<bool>>) -> Set<Seq<char>>;

/// `DashMap::with_capacity`: a map without entries. The capacity is
/// bounded here so that rounding it up to the shard count cannot overflow.
#[verifier::external_body]
pub(crate) fn handles_with_capacity(capacity: usize) -> (table: DashMap<String, Sender<bool>>)
    requires
        capacity <= 65536,
    ensures
        handle_keys(table) == Set::<Seq<char>>::empty(),
{
    DashMap::with_capacity(capacity)
}

/// `DashMap::contains_key`: whether the map holds an entry under the key.
#[verifier::external_body]
pub(crate) fn handles_contains(table: &DashMap<String, Sender<bool>>, key: &String) -> (found: bool)
    ensures
        found == handle_keys(*table).contains(key@),
{
    table.contains_key(key)
}

/// `DashMap::insert`: puts the value under the key, replacing what was
/// there; the other entries stay.
#[verifier::external_body]
pub(crate) fn handles_insert(
    table: &mut DashMap<String, Sender<bool>>,
    key: String,
    signal: Sender<bool>,
)
    ensures
        handle_keys(*final(table)) == handle_keys(*old(table)).insert(key@),
{
    table.insert(key, signal);
}

/// `DashMap::remove`: takes the entry under the key out of the map and
/// hands its value back, `None` where there was none; the other entries
/// stay.
#[verifier::external_body]
pub(crate) fn handles_remove(
    table: &mut DashMap<String, Sender<bool>>,
    key: &String,
) -> (signal: Option<Sender<bool>>)
    ensures
        handle_keys(*final(table)) == handle_keys(*old(table)).remove(key@),
        signal is Some <==> handle_keys(*old(table)).contains(key@),
{
    table.remove(key).map(|entry| entry.1)
}

/// `DashMap::iter`: visits every entry, in no order that could be named.
/// The keys come back as a list that holds exactly the keys of the map.
#[verifier::external_body]
pub(crate) fn handles_keys(table: &DashMap<String, Sender<bool>>) -> (keys: Vec<String>)
    ensures
        forall|key: Seq<char>| texts(keys@).contains(key) <==> handle_keys(*table).contains(key),
{
    table.iter().map(|entry| entry.key().clone()).collect()
}

/// The keys of a list of slots, each as a sequence of characters.
pub open spec fn slot_keys(pairs: Seq<(String, usize)>) -> Seq<Seq<char>> {
    pairs.map_values(|p: (String, usize)| p.0@)
}

/// The slot that an index holds under each key.
pub uninterp spec fn slot_map(index: DashMap<String, usize>) -> Map<Seq<char>, usize>;

/// `DashMap::from_iter`: a new map into which every pair is inserted.
/// For a list without repeated keys the map holds exactly its keys, each
/// with its own slot.
#[verifier::external_body]
pub(crate) fn slots_from(pairs: Vec<(String, usize)>) -> (index: DashMap<String, usize>)
    requires
        slot_keys(pairs@).no_duplicates(),
    ensures
        forall|key: Seq<char>|
            slot_map(index).contains_key(key) <==> slot_keys(pairs@).contains(key),
        forall|i: int|
            0 <= i < pairs.len() ==> slot_map(index)[#[trigger] slot_keys(pairs@)[i]]
                == pairs[i].1,
{
    pairs.into_iter().collect()
}

/// `DashMap::get`: the value under the key, `None` where there is none.
#[verifier::external_body]
pub(crate) fn slots_get(index: &DashMap<String, usize>, key: &String) -> (slot: Option<usize>)
    ensures
        slot == if slot_map(*index).contains_key(key@) {
            Some(slot_map(*index)[key@])
        } else {
            None
        },
{
    index.get(key).map(|slot| *slot)
}

} // verus!
