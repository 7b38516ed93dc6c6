//! Packet identifiers of one client: which are in flight, and which comes
//! next.

use vstd::prelude::*;
use vstd::set_lib::*;

verus! {

/// The largest packet identifier. Zero is never one.
pub const MAX_PKID: u16 = 65535;

/// Why no packet identifier could be handed out.
#[derive(Clone, Copy, Debug, PartialEq, Eq, Structural)]
pub enum PkidError {
    /// Every identifier from 1 to 65535 is in flight.
    Exhausted,
}

/// The `step`-th identifier that is tried after `last` was handed out:
/// they count upwards, and 1 follows 65535.
pub open spec fn probe(last: int, step: int) -> int {
    (last + step - 1) % 65535 + 1
}

/// The number of tries after which `id` comes up when `last` was the
/// identifier handed out before.
pub open spec fn probe_distance(last: int, id: int) -> int {
    (id - 1 - last) % 65535 + 1
}

/// Every identifier comes up exactly once within 65535 tries.
pub proof fn lemma_probe_reaches(last: int, id: int)
    requires
        0 <= last <= 65535,
        1 <= id <= 65535,
    ensures
        1 <= probe_distance(last, id) <= 65535,
        probe(last, probe_distance(last, id)) == id,
        forall|step: int|
            1 <= step <= 65535 && #[trigger] probe(last, step) == id ==> step == probe_distance(
                last,
                id,
            ),
        forall|step: int| 1 <= step ==> 1 <= #[trigger] probe(last, step) <= 65535,
{
}

/// The identifiers of one client. The view is the set of those in flight.
pub struct PacketIdState {
    last: u16,
    live: Vec<bool>,
    count: usize,
    ids: Ghost<Set<int>>,
}

impl View for PacketIdState {
    type V = Set<int>;

    closed spec fn view(&self) -> Set<int> {
        self.ids@
    }
}

impl PacketIdState {
    /// The identifier handed out last, 0 before the first.
    pub closed spec fn last(&self) -> int {
        self.last as int
    }

    /// The table, the counter and the set agree.
    pub closed spec fn wf(&self) -> bool {
        &&& self.live@.len() == 65536
        &&& self.ids@.finite()
        &&& self.count == self.ids@.len()
        &&& forall|id: int|
            0 <= id < 65536 ==> (#[trigger] self.live@[id] <==> self.ids@.contains(id))
        &&& forall|id: int| #[trigger] self.ids@.contains(id) ==> 1 <= id <= 65535
    }

    /// A valid state holds identifiers from 1 to 65535 only, finitely many.
    pub proof fn lemma_wf_bounds(&self)
        requires
            self.wf(),
        ensures
            self@.finite(),
            self@.len() <= 65535,
            0 <= self.last() <= 65535,
            forall|id: int| #[trigger] self@.contains(id) ==> 1 <= id <= 65535,
    {
        lemma_int_range(1, 65536);
        assert(self.ids@.subset_of(set_int_range(1, 65536)));
        lemma_len_subset(self.ids@, set_int_range(1, 65536));
    }

    /// Returns the state of a client that has nothing in flight.
    pub fn new() -> (state: Self)
        ensures
            state.wf(),
            state@ == Set::<int>::empty(),
            state.last() == 0,
    {
        let mut live: Vec<bool> = Vec::new();
        let mut i: u32 = 0;
        while i < 65536
            invariant
                i <= 65536,
                live@.len() == i,
                forall|j: int| 0 <= j < i ==> !live@[j],
            decreases 65536 - i,
        {
            live.push(false);
            i = i + 1;
        }
        PacketIdState { last: 0, live, count: 0, ids: Ghost(Set::empty()) }
    }

    /// Whether an identifier is in flight.
    pub fn is_live(&self, pkid: u16) -> (live: bool)
        requires
            self.wf(),
        ensures
            live == self@.contains(pkid as int),
    {
        self.live[pkid as usize]
    }

    /// Returns how many identifiers are in flight.
    pub fn live_count(&self) -> (n: usize)
        requires
            self.wf(),
        ensures
            n == self@.len(),
            n <= 65535,
    {
        proof {
            self.lemma_wf_bounds();
        }
        self.count
    }

    /// Hands out the first identifier after the last one that is not in
    /// flight. Fails only when all 65535 are.
    pub fn acquire(&mut self) -> (result: Result<u16, PkidError>)
        requires
            old(self).wf(),
        ensures
            final(self).wf(),
            result is Err <==> forall|id: int| 1 <= id <= 65535 ==> old(self)@.contains(id),
            result is Err ==> final(self)@ == old(self)@ && final(self).last() == old(self).last(),
            result matches Ok(pkid) ==> {
                &&& 1 <= pkid <= 65535
                &&& !old(self)@.contains(pkid as int)
                &&& final(self)@ == old(self)@.insert(pkid as int)
                &&& final(self).last() == pkid
                &&& forall|step: int|
                    1 <= step < probe_distance(old(self).last(), pkid as int) ==> old(
                        self
                    )@.contains(#[trigger] probe(old(self).last(), step))
            },
    {
        proof {
            self.lemma_wf_bounds();
        }
        let ghost start = self.last as int;
        let mut candidate: u16 = self.last;
        let mut step: u32 = 0;
        while step < 65535
            invariant
                self.wf(),
                *self == *old(self),
                start == self.last as int,
                0 <= step <= 65535,
                step == 0 ==> candidate as int == start,
                step > 0 ==> candidate as int == probe(start, step as int),
                forall|k: int| 1 <= k <= step ==> self.ids@.contains(#[trigger] probe(start, k)),
            decreases 65535 - step,
        {
            candidate = if candidate == MAX_PKID {
                1
            } else {
                candidate + 1
            };
            step = step + 1;
            assert(candidate as int == probe(start, step as int));
            if !self.live[candidate as usize] {
                proof {
                    lemma_probe_reaches(start, candidate as int);
                    assert(probe_distance(start, candidate as int) == step);
                    self.lemma_wf_bounds();
                }
                self.live.set(candidate as usize, true);
                self.last = candidate;
                self.count = self.count + 1;
                self.ids = Ghost(self.ids@.insert(candidate as int));
                return Ok(candidate);
            }
        }
        proof {
            assert forall|id: int| 1 <= id <= 65535 implies self.ids@.contains(id) by {
                lemma_probe_reaches(start, id);
                assert(self.ids@.contains(probe(start, probe_distance(start, id))));
            }
        }
        Err(PkidError::Exhausted)
    }

    /// Takes an identifier out of flight. Releasing one that is not in
    /// flight changes nothing.
    pub fn release(&mut self, pkid: u16)
        requires
            old(self).wf(),
        ensures
            final(self).wf(),
            final(self)@ == old(self)@.remove(pkid as int),
            final(self).last() == old(self).last(),
    {
        if self.live[pkid as usize] {
            proof {
                assert(self.ids@.contains(pkid as int));
            }
            self.live.set(pkid as usize, false);
            self.count = self.count - 1;
            self.ids = Ghost(self.ids@.remove(pkid as int));
        } else {
            assert(self.ids@.remove(pkid as int) =~= self.ids@);
        }
    }
}

} // verus!
