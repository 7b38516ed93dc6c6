//! What the broker knows of each client while it dispatches: the live
//! connection, and the packet identifiers in flight.

use crate::pkid::{probe, probe_distance, PacketIdState, PkidError};
use vstd::hash_map::StringHashMap;
use vstd::prelude::*;

verus! {

/// The metadata cache. Packet identifiers are kept per client: one
/// client's allocations never touch another's.
pub struct MetadataCache {
    connections: StringHashMap<u64>,
    slots: StringHashMap<usize>,
    states: Vec<PacketIdState>,
}

impl MetadataCache {
    /// The connection of each connected client.
    pub closed spec fn connections(&self) -> Map<Seq<char>, u64> {
        self.connections@
    }

    /// The packet identifiers that a client has in flight.
    pub closed spec fn in_flight(&self, client_id: Seq<char>) -> Set<int> {
        if self.slots@.contains_key(client_id) {
            self.states@[self.slots@[client_id] as int]@
        } else {
            Set::empty()
        }
    }

    /// The packet identifier that a client was given last, 0 before the
    /// first.
    pub closed spec fn last_pkid(&self, client_id: Seq<char>) -> int {
        if self.slots@.contains_key(client_id) {
            self.states@[self.slots@[client_id] as int].last()
        } else {
            0
        }
    }

    /// Every client has a state of its own, and each state is valid.
    pub closed spec fn wf(&self) -> bool {
        &&& forall|c: Seq<char>| #[trigger]
            self.slots@.contains_key(c) ==> self.slots@[c] < self.states@.len()
        &&& forall|c: Seq<char>, d: Seq<char>|
            self.slots@.contains_key(c) && self.slots@.contains_key(d) && c != d
                ==> #[trigger] self.slots@[c] != #[trigger] self.slots@[d]
        &&& forall|i: int| 0 <= i < self.states@.len() ==> (#[trigger] self.states@[i]).wf()
    }

    /// In a valid cache a client has finitely many identifiers in flight,
    /// all from 1 to 65535.
    pub proof fn lemma_in_flight_bounds(&self, client_id: Seq<char>)
        requires
            self.wf(),
        ensures
            self.in_flight(client_id).finite(),
            self.in_flight(client_id).len() <= 65535,
            0 <= self.last_pkid(client_id) <= 65535,
            forall|id: int| #[trigger]
                self.in_flight(client_id).contains(id) ==> 1 <= id <= 65535,
    {
        if self.slots@.contains_key(client_id) {
            self.states@[self.slots@[client_id] as int].lemma_wf_bounds();
        }
    }

    /// Returns a cache that knows no client.
    pub fn new() -> (cache: Self)
        ensures
            cache.wf(),
            cache.connections() == Map::<Seq<char>, u64>::empty(),
            forall|c: Seq<char>| cache.in_flight(c) == Set::<int>::empty(),
            forall|c: Seq<char>| cache.last_pkid(c) == 0,
    {
        MetadataCache {
            connections: StringHashMap::new(),
            slots: StringHashMap::new(),
            states: Vec::new(),
        }
    }

    /// Records the live connection of a client.
    pub fn set_connect_id(&mut self, client_id: String, connect_id: u64)
        requires
            old(self).wf(),
        ensures
            final(self).wf(),
            final(self).connections() == old(self).connections().insert(client_id@, connect_id),
            forall|c: Seq<char>| final(self).in_flight(c) == old(self).in_flight(c),
            forall|c: Seq<char>| final(self).last_pkid(c) == old(self).last_pkid(c),
    {
        self.connections.insert(client_id, connect_id);
    }

    /// Records that a client is no longer connected.
    pub fn remove_connect_id(&mut self, client_id: &String)
        requires
            old(self).wf(),
        ensures
            final(self).wf(),
            final(self).connections() == old(self).connections().remove(client_id@),
            forall|c: Seq<char>| final(self).in_flight(c) == old(self).in_flight(c),
            forall|c: Seq<char>| final(self).last_pkid(c) == old(self).last_pkid(c),
    {
        self.connections.remove(client_id.as_str());
    }

    /// Returns the live connection of a client, `None` when it is not
    /// connected.
    pub fn connect_id(&self, client_id: &String) -> (id: Option<u64>)
        ensures
            id == if self.connections().contains_key(client_id@) {
                Some(self.connections()[client_id@])
            } else {
                None
            },
    {
        match self.connections.get(client_id.as_str()) {
            Some(id) => Some(*id),
            None => None,
        }
    }

    /// Returns how many packet identifiers a client has in flight.
    pub fn live_pkids(&self, client_id: &String) -> (n: usize)
        requires
            self.wf(),
        ensures
            n == self.in_flight(client_id@).len(),
            n <= 65535,
    {
        match self.slots.get(client_id.as_str()) {
            Some(slot) => self.states[*slot].live_count(),
            None => 0,
        }
    }

    /// Hands a client its next packet identifier: the first one after the
    /// last that it has not in flight. Fails only when it has all 65535 in
    /// flight. No other client is touched.
    pub fn next_pkid(&mut self, client_id: &String) -> (result: Result<u16, PkidError>)
        requires
            old(self).wf(),
        ensures
            final(self).wf(),
            final(self).connections() == old(self).connections(),
            forall|c: Seq<char>|
                c != client_id@ ==> final(self).in_flight(c) == old(self).in_flight(c)
                    && final(self).last_pkid(c) == old(self).last_pkid(c),
            result is Err <==> forall|id: int|
                1 <= id <= 65535 ==> old(self).in_flight(client_id@).contains(id),
            result is Err ==> final(self).in_flight(client_id@) == old(self).in_flight(client_id@)
                && final(self).last_pkid(client_id@) == old(self).last_pkid(client_id@),
            result matches Ok(pkid) ==> {
                &&& 1 <= pkid <= 65535
                &&& !old(self).in_flight(client_id@).contains(pkid as int)
                &&& final(self).in_flight(client_id@) == old(self).in_flight(client_id@).insert(
                    pkid as int,
                )
                &&& final(self).last_pkid(client_id@) == pkid
                &&& forall|step: int|
                    1 <= step < probe_distance(old(self).last_pkid(client_id@), pkid as int)
                        ==> old(self).in_flight(client_id@).contains(
                        #[trigger] probe(old(self).last_pkid(client_id@), step),
                    )
            },
    {
        let slot = match self.slots.get(client_id.as_str()) {
            Some(slot) => *slot,
            None => {
                let fresh = self.states.len();
                self.states.push(PacketIdState::new());
                self.slots.insert(client_id.clone(), fresh);
                assert(forall|c: Seq<char>|
                    c != client_id@ ==> self.in_flight(c) == old(self).in_flight(c));
                assert(self.in_flight(client_id@) == old(self).in_flight(client_id@));
                fresh
            },
        };
        let ghost middle = *self;
        assert(middle.wf());
        assert(middle.slots@[client_id@] == slot);
        let ghost before = old(self).in_flight(client_id@);
        assert(middle.states@[slot as int]@ == before);
        assert(middle.states@[slot as int].last() == old(self).last_pkid(client_id@));
        let result = self.states[slot].acquire();
        proof {
            assert(self.slots@ == middle.slots@);
            assert(self.in_flight(client_id@) == self.states@[slot as int]@);
            assert(result is Err <==> forall|id: int| 1 <= id <= 65535 ==> before.contains(id));
            assert forall|c: Seq<char>| c != client_id@ implies self.in_flight(c)
                == old(self).in_flight(c) && self.last_pkid(c) == old(self).last_pkid(c) by {
                if middle.slots@.contains_key(c) {
                    assert(middle.slots@[c] != middle.slots@[client_id@]);
                }
            }
        }
        result
    }

    /// Takes a packet identifier of a client out of flight. Forgetting one
    /// that is not in flight changes nothing.
    pub fn forget_pkid(&mut self, client_id: &String, pkid: u16)
        requires
            old(self).wf(),
        ensures
            final(self).wf(),
            final(self).connections() == old(self).connections(),
            final(self).in_flight(client_id@) == old(self).in_flight(client_id@).remove(
                pkid as int,
            ),
            forall|c: Seq<char>|
                c != client_id@ ==> final(self).in_flight(c) == old(self).in_flight(c),
            forall|c: Seq<char>| final(self).last_pkid(c) == old(self).last_pkid(c),
    {
        match self.slots.get(client_id.as_str()) {
            Some(slot) => {
                let slot = *slot;
                self.states[slot].release(pkid);
                proof {
                    assert forall|c: Seq<char>| c != client_id@ implies self.in_flight(c)
                        == old(self).in_flight(c) && self.last_pkid(c) == old(self).last_pkid(
                        c,
                    ) by {
                        if self.slots@.contains_key(c) {
                            assert(self.slots@[c] != self.slots@[client_id@]);
                        }
                    }
                }
            },
            None => {
                assert(Set::<int>::empty().remove(pkid as int) =~= Set::<int>::empty());
            },
        }
    }

    /// Ends the session of a client. Unless packet identifiers persist
    /// across sessions, those in flight are discarded and counting starts
    /// anew.
    pub fn end_session(&mut self, client_id: &String, pkid_persistent: bool)
        requires
            old(self).wf(),
        ensures
            final(self).wf(),
            final(self).connections() == old(self).connections(),
            pkid_persistent ==> final(self).in_flight(client_id@) == old(self).in_flight(
                client_id@,
            ) && final(self).last_pkid(client_id@) == old(self).last_pkid(client_id@),
            !pkid_persistent ==> final(self).in_flight(client_id@) == Set::<int>::empty()
                && final(self).last_pkid(client_id@) == 0,
            forall|c: Seq<char>|
                c != client_id@ ==> final(self).in_flight(c) == old(self).in_flight(c)
                    && final(self).last_pkid(c) == old(self).last_pkid(c),
    {
        if !pkid_persistent {
            match self.slots.get(client_id.as_str()) {
                Some(slot) => {
                    let slot = *slot;
                    self.states.set(slot, PacketIdState::new());
                    proof {
                        assert forall|c: Seq<char>| c != client_id@ implies self.in_flight(c)
                            == old(self).in_flight(c) && self.last_pkid(c) == old(self).last_pkid(
                            c,
                        ) by {
                            if self.slots@.contains_key(c) {
                                assert(self.slots@[c] != self.slots@[client_id@]);
                            }
                        }
                    }
                },
                None => {},
            }
        }
    }
}

} // verus!
