//! A time-ordered set of payloads: each payload is held once, under the time
//! at which it falls due.

use vstd::prelude::*;
use vstd::slice::slice_to_vec;

verus! {

/// Whether `p` is held in `m` under the smallest due time of all.
pub open spec fn is_earliest(m: Map<Seq<u8>, u64>, p: Seq<u8>) -> bool {
    m.contains_key(p) && forall|o: Seq<u8>| #[trigger] m.contains_key(o) ==> m[p] <= m[o]
}

/// Payloads and their due times, each payload held once.
pub struct ReminderQueue {
    entries: Vec<(Vec<u8>, u64)>,
    model: Ghost<Map<Seq<u8>, u64>>,
}

fn same_bytes(a: &Vec<u8>, b: &Vec<u8>) -> (r: bool)
    ensures
        r == (a@ == b@),
{
    if a.len() != b.len() {
        return false;
    }
    let mut k: usize = 0;
    while k < a.len()
        invariant
            a@.len() == b@.len(),
            k <= a@.len(),
            forall|m: int| 0 <= m < k ==> a@[m] == b@[m],
        decreases a@.len() - k,
    {
        if a[k] != b[k] {
            return false;
        }
        k = k + 1;
    }
    assert(a@ == b@);
    true
}

impl View for ReminderQueue {
    type V = Map<Seq<u8>, u64>;

    closed spec fn view(&self) -> Map<Seq<u8>, u64> {
        self.model@
    }
}

impl ReminderQueue {
    /// The entries hold each payload once, and exactly the pairs of the model.
    pub closed spec fn wf(&self) -> bool {
        &&& forall|i: int, j: int|
            0 <= i < j < self.entries@.len() ==> self.entries@[i].0@ != self.entries@[j].0@
        &&& forall|i: int|
            0 <= i < self.entries@.len() ==> self.model@.contains_key(
                #[trigger] self.entries@[i].0@,
            ) && self.model@[self.entries@[i].0@] == self.entries@[i].1
        &&& forall|p: Seq<u8>| #[trigger]
            self.model@.contains_key(p) ==> exists|i: int|
                0 <= i < self.entries@.len() && #[trigger] self.entries@[i].0@ == p
    }

    /// An empty queue.
    pub fn new() -> (r: ReminderQueue)
        ensures
            r.wf(),
            r@ == Map::<Seq<u8>, u64>::empty(),
    {
        ReminderQueue { entries: Vec::new(), model: Ghost(Map::empty()) }
    }

    /// Where `payload` stands among the entries, if it is held.
    fn position(&self, payload: &Vec<u8>) -> (r: Option<usize>)
        requires
            self.wf(),
        ensures
            match r {
                Some(i) => i < self.entries@.len() && self.entries@[i as int].0@ == payload@,
                None => !self@.contains_key(payload@),
            },
    {
        let mut i: usize = 0;
        while i < self.entries.len()
            invariant
                self.wf(),
                i <= self.entries@.len(),
                forall|k: int| 0 <= k < i ==> self.entries@[k].0@ != payload@,
            decreases self.entries@.len() - i,
        {
            if same_bytes(&self.entries[i].0, payload) {
                return Some(i);
            }
            i = i + 1;
        }
        None
    }

    /// Holds `payload` under `due_at`; a payload already held keeps one entry,
    /// now under `due_at`.
    pub fn insert(&mut self, payload: Vec<u8>, due_at: u64)
        requires
            old(self).wf(),
        ensures
            final(self).wf(),
            final(self)@ == old(self)@.insert(payload@, due_at),
    {
        let ghost key = payload@;
        let ghost at: int;
        match self.position(&payload) {
            Some(i) => {
                self.entries.set(i, (payload, due_at));
                proof {
                    at = i as int;
                }
            },
            None => {
                self.entries.push((payload, due_at));
                proof {
                    at = self.entries@.len() - 1;
                }
            },
        }
        assert(self.entries@[at].0@ == key);
        self.model = Ghost(self.model@.insert(key, due_at));
        assert forall|p: Seq<u8>| #[trigger] self.model@.contains_key(p) implies exists|i: int|
            0 <= i < self.entries@.len() && #[trigger] self.entries@[i].0@ == p by {
            if p != key {
                let i = choose|i: int|
                    0 <= i < old(self).entries@.len() && #[trigger] old(self).entries@[i].0@ == p;
                assert(self.entries@[i].0@ == p);
            } else {
                assert(self.entries@[at].0@ == p);
            }
        }
    }

    /// The entry due first, without taking it out; `None` when empty.
    pub fn peek_earliest(&self) -> (r: Option<(Vec<u8>, u64)>)
        requires
            self.wf(),
        ensures
            r is None <==> self@.is_empty(),
            r matches Some((p, d)) ==> is_earliest(self@, p@) && self@[p@] == d,
    {
        if self.entries.len() == 0 {
            proof {
                if exists|p: Seq<u8>| self@.contains_key(p) {
                    let p = choose|p: Seq<u8>| self@.contains_key(p);
                    assert(self.model@.contains_key(p));
                }
            }
            assert(self@ =~= Map::<Seq<u8>, u64>::empty());
            return None;
        }
        let mut best: usize = 0;
        let mut i: usize = 1;
        while i < self.entries.len()
            invariant
                self.wf(),
                1 <= i <= self.entries@.len(),
                best < i,
                forall|k: int| 0 <= k < i ==> self.entries@[best as int].1 <= #[trigger] self.entries@[k].1,
            decreases self.entries@.len() - i,
        {
            if self.entries[i].1 < self.entries[best].1 {
                best = i;
            }
            i = i + 1;
        }
        let p = slice_to_vec(self.entries[best].0.as_slice());
        let d = self.entries[best].1;
        assert(self.model@.contains_key(self.entries@[best as int].0@));
        assert forall|o: Seq<u8>| #[trigger] self@.contains_key(o) implies self@[p@] <= self@[o] by {
            assert(self.model@.contains_key(o));
            let k = choose|k: int| 0 <= k < self.entries@.len() && #[trigger] self.entries@[k].0@ == o;
            assert(self.model@.contains_key(self.entries@[k].0@));
        }
        proof {
            assert(!self@.is_empty()) by {
                assert(self@.contains_key(p@));
            }
        }
        Some((p, d))
    }

    /// Takes `payload` out; nothing changes when it is not held.
    pub fn remove(&mut self, payload: &Vec<u8>)
        requires
            old(self).wf(),
        ensures
            final(self).wf(),
            final(self)@ == old(self)@.remove(payload@),
    {
        match self.position(payload) {
            Some(i) => {
                let ghost before = self.entries@;
                self.entries.remove(i);
                self.model = Ghost(self.model@.remove(payload@));
                assert forall|k: int| 0 <= k < self.entries@.len() implies self.model@.contains_key(
                    #[trigger] self.entries@[k].0@,
                ) && self.model@[self.entries@[k].0@] == self.entries@[k].1 by {
                    if k < i {
                        assert(self.entries@[k] == before[k]);
                    } else {
                        assert(self.entries@[k] == before[k + 1]);
                    }
                }
                assert forall|p: Seq<u8>| #[trigger] self.model@.contains_key(p) implies exists|k: int|
                    0 <= k < self.entries@.len() && #[trigger] self.entries@[k].0@ == p by {
                    let k = choose|k: int| 0 <= k < before.len() && #[trigger] before[k].0@ == p;
                    if k < i {
                        assert(self.entries@[k] == before[k]);
                    } else {
                        assert(self.entries@[k - 1] == before[k]);
                    }
                }
            },
            None => {
                assert(self.model@.remove(payload@) =~= self.model@);
            },
        }
    }
}

/// Taking out a payload that is not held leaves the queue as it was.
pub proof fn lemma_remove_absent(m: Map<Seq<u8>, u64>, p: Seq<u8>)
    requires
        !m.contains_key(p),
    ensures
        m.remove(p) == m,
{
    assert(m.remove(p) =~= m);
}

} // verus!
