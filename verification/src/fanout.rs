//! The fan-out engine: a key-value batch whose entries are transformed
//! concurrently by workers and reassembled by key.
//!
//! The engine is a state machine driven from outside: a driver takes tasks
//! (one per entry, each carrying its slot index and an owned copy of the
//! value, so nothing is shared across workers unchecked), runs each
//! transformation wherever it likes, and delivers every outcome back tagged
//! with its slot. Outcomes land in key-indexed slots, so the reassembled
//! mapping is identical whatever order workers complete in. The partial
//! failure policy is per-key markers: one failed transformation never
//! discards the other entries' results; each key keeps its own outcome.
//! Cooperative cancellation: after `cancel`, no further task is handed out.

use vstd::prelude::*;
use vstd::pervasive::unreached;

verus! {

/// Why one entry's transformation failed.
#[derive(Clone, Copy, PartialEq, Eq, Structural, Debug)]
pub enum ApplyError {
    /// A host value could not be adapted to the expected shape.
    Conversion,
    /// The embedded operation failed to compile or raised during execution.
    Execution,
    /// An externally supplied callable itself failed.
    Callable,
}

/// The mathematical image of one worker outcome.
pub open spec fn outcome_view(r: Result<Vec<u8>, ApplyError>) -> Result<Seq<u8>, ApplyError> {
    match r {
        Ok(v) => Ok(v@),
        Err(e) => Err(e),
    }
}

/// The keys of `entries` are pairwise distinct.
pub open spec fn unique_keys(entries: Seq<(String, Vec<u8>)>) -> bool {
    forall|a: int, b: int| 0 <= a < b < entries.len() ==> entries[a].0@ != entries[b].0@
}

/// A fan-out batch: the input entries, one outcome slot per entry, how many
/// tasks have been handed out, and whether the batch was cancelled.
pub struct FanOut {
    keys: Vec<String>,
    values: Vec<Vec<u8>>,
    slots: Vec<Option<Result<Vec<u8>, ApplyError>>>,
    handed: usize,
    cancelled: bool,
}

impl FanOut {
    /// How many entries the batch has.
    pub closed spec fn size(&self) -> int {
        self.keys@.len() as int
    }

    /// The key of the entry at slot `i`.
    pub closed spec fn key_at(&self, i: int) -> Seq<char> {
        self.keys@[i]@
    }

    /// The input value of the entry at slot `i`.
    pub closed spec fn value_at(&self, i: int) -> Seq<u8> {
        self.values@[i]@
    }

    /// The outcome delivered for slot `i`, if one has been.
    pub closed spec fn slot_at(&self, i: int) -> Option<Result<Seq<u8>, ApplyError>> {
        match self.slots@[i] {
            None => None,
            Some(r) => Some(outcome_view(r)),
        }
    }

    /// How many tasks have been handed out so far.
    pub closed spec fn handed_out(&self) -> int {
        self.handed as int
    }

    /// Whether the batch has been cancelled.
    pub closed spec fn is_cancelled(&self) -> bool {
        self.cancelled
    }

    /// Well-formedness: the columns line up, keys are pairwise distinct, and
    /// no slot is filled before its task was handed out.
    pub closed spec fn wf(&self) -> bool {
        &&& self.values@.len() == self.keys@.len()
        &&& self.slots@.len() == self.keys@.len()
        &&& self.handed <= self.keys@.len()
        &&& forall|a: int, b: int| 0 <= a < b < self.size() ==> self.key_at(a) != self.key_at(b)
        &&& forall|i: int| self.handed_out() <= i < self.size() ==> self.slot_at(i) is None
    }

    /// The input (size, keys and values) of `post` is that of `pre`.
    pub open spec fn input_unchanged(pre: FanOut, post: FanOut) -> bool {
        &&& post.size() == pre.size()
        &&& forall|i: int| 0 <= i < pre.size() ==> post.key_at(i) == pre.key_at(i)
        &&& forall|i: int| 0 <= i < pre.size() ==> post.value_at(i) == pre.value_at(i)
    }

    /// A well-formed batch has pairwise-distinct keys, so its reassembled
    /// pairs satisfy what `lemma_pairs_to_map_exact` asks of them.
    pub proof fn lemma_distinct_keys(&self)
        requires
            self.wf(),
        ensures
            forall|a: int, b: int| 0 <= a < b < self.size() ==> self.key_at(a) != self.key_at(b),
    {
    }

    /// Builds a batch from a mapping, given as entries in iteration order.
    ///
    /// Succeeds exactly when the keys are pairwise distinct; duplicate keys
    /// mean the input was no mapping at all, a conversion error.
    pub fn new(entries: Vec<(String, Vec<u8>)>) -> (r: Result<FanOut, ApplyError>)
        ensures
            r is Ok <==> unique_keys(entries@),
            r matches Ok(f) ==> {
                &&& f.wf()
                &&& !f.is_cancelled()
                &&& f.handed_out() == 0
                &&& f.size() == entries@.len()
                &&& forall|i: int| 0 <= i < entries@.len() ==> f.key_at(i) == entries@[i].0@
                &&& forall|i: int| 0 <= i < entries@.len() ==> f.value_at(i) == entries@[i].1@
                &&& forall|i: int| 0 <= i < entries@.len() ==> f.slot_at(i) is None
            },
            r matches Err(e) ==> e == ApplyError::Conversion,
    {
        let n = entries.len();
        let mut i: usize = 0;
        while i < n
            invariant
                n == entries@.len(),
                0 <= i <= n,
                forall|a: int, b: int| 0 <= a < b < i ==> entries@[a].0@ != entries@[b].0@,
            decreases n - i,
        {
            let mut j: usize = 0;
            while j < i
                invariant
                    n == entries@.len(),
                    0 <= j <= i < n,
                    forall|a: int, b: int| 0 <= a < b < i ==> entries@[a].0@ != entries@[b].0@,
                    forall|a: int| 0 <= a < j ==> entries@[a].0@ != entries@[i as int].0@,
                decreases i - j,
            {
                if entries[j].0 == entries[i].0 {
                    proof {
                        assert(!unique_keys(entries@)) by {
                            assert(entries@[j as int].0@ == entries@[i as int].0@);
                        }
                    }
                    return Err(ApplyError::Conversion);
                }
                j = j + 1;
            }
            i = i + 1;
        }
        let mut keys: Vec<String> = Vec::new();
        let mut values: Vec<Vec<u8>> = Vec::new();
        let mut slots: Vec<Option<Result<Vec<u8>, ApplyError>>> = Vec::new();
        let mut k: usize = 0;
        while k < n
            invariant
                n == entries@.len(),
                0 <= k <= n,
                keys@.len() == k,
                values@.len() == k,
                slots@.len() == k,
                forall|a: int| 0 <= a < k ==> keys@[a]@ == entries@[a].0@,
                forall|a: int| 0 <= a < k ==> values@[a]@ == entries@[a].1@,
                forall|a: int| 0 <= a < k ==> slots@[a] is None,
            decreases n - k,
        {
            keys.push(entries[k].0.clone());
            values.push(clone_bytes(&entries[k].1));
            slots.push(None);
            k = k + 1;
        }
        let f = FanOut { keys, values, slots, handed: 0, cancelled: false };
        Ok(f)
    }

    /// Hands out the next task: its slot index, its key, and an owned copy of
    /// its value, so the worker shares nothing with the batch or its peers.
    /// Returns `None` once every task is out, or after cancellation.
    pub fn take_task(&mut self) -> (r: Option<(usize, String, Vec<u8>)>)
        requires
            old(self).wf(),
        ensures
            final(self).wf(),
            FanOut::input_unchanged(*old(self), *final(self)),
            final(self).is_cancelled() == old(self).is_cancelled(),
            forall|i: int|
                0 <= i < old(self).size() ==> final(self).slot_at(i) == old(self).slot_at(i),
            old(self).is_cancelled() || old(self).handed_out() == old(self).size() ==> {
                &&& r is None
                &&& *final(self) == *old(self)
            },
            !old(self).is_cancelled() && old(self).handed_out() < old(self).size() ==> {
                &&& r matches Some(t)
                    && t.0 == old(self).handed_out()
                    && t.1@ == old(self).key_at(t.0 as int)
                    && t.2@ == old(self).value_at(t.0 as int)
                &&& final(self).handed_out() == old(self).handed_out() + 1
            },
    {
        if self.cancelled || self.handed == self.keys.len() {
            None
        } else {
            let i = self.handed;
            let key = self.keys[i].clone();
            let value = clone_bytes(&self.values[i]);
            self.handed = i + 1;
            proof {
                assert forall|a: int, b: int|
                    0 <= a < b < self.size() implies self.key_at(a) != self.key_at(b) by {
                    assert(old(self).key_at(a) != old(self).key_at(b));
                }
                assert forall|j: int|
                    self.handed_out() <= j < self.size() implies self.slot_at(j) is None by {
                    assert(old(self).slot_at(j) is None);
                }
            }
            Some((i, key, value))
        }
    }

    /// Records the outcome a worker delivered for slot `i`. Slots are
    /// key-indexed, so delivery order does not matter; each slot accepts
    /// exactly one outcome.
    pub fn deliver(&mut self, i: usize, outcome: Result<Vec<u8>, ApplyError>)
        requires
            old(self).wf(),
            i < old(self).handed_out(),
            old(self).slot_at(i as int) is None,
        ensures
            final(self).wf(),
            FanOut::input_unchanged(*old(self), *final(self)),
            final(self).handed_out() == old(self).handed_out(),
            final(self).is_cancelled() == old(self).is_cancelled(),
            final(self).slot_at(i as int) == Some(outcome_view(outcome)),
            forall|j: int|
                0 <= j < old(self).size() && j != i ==> final(self).slot_at(j) == old(
                    self,
                ).slot_at(j),
    {
        self.slots.set(i, Some(outcome));
        proof {
            assert forall|a: int, b: int|
                0 <= a < b < self.size() implies self.key_at(a) != self.key_at(b) by {
                assert(old(self).key_at(a) != old(self).key_at(b));
            }
            assert forall|j: int|
                self.handed_out() <= j < self.size() implies self.slot_at(j) is None by {
                assert(self.slots@[j] == old(self).slots@[j]);
                assert(old(self).slot_at(j) is None);
            }
            assert forall|j: int|
                0 <= j < old(self).size() && j != i implies self.slot_at(j) == old(self).slot_at(
                    j,
                ) by {
                assert(self.slots@[j] == old(self).slots@[j]);
            }
        }
    }

    /// Cancels the batch: no further task will be handed out. Outcomes
    /// already delivered are kept.
    pub fn cancel(&mut self)
        requires
            old(self).wf(),
        ensures
            final(self).wf(),
            FanOut::input_unchanged(*old(self), *final(self)),
            final(self).is_cancelled(),
            final(self).handed_out() == old(self).handed_out(),
            forall|i: int|
                0 <= i < old(self).size() ==> final(self).slot_at(i) == old(self).slot_at(i),
    {
        self.cancelled = true;
        proof {
            assert forall|a: int, b: int|
                0 <= a < b < self.size() implies self.key_at(a) != self.key_at(b) by {
                assert(old(self).key_at(a) != old(self).key_at(b));
            }
            assert forall|j: int|
                self.handed_out() <= j < self.size() implies self.slot_at(j) is None by {
                assert(old(self).slot_at(j) is None);
            }
        }
    }

    /// How many entries the batch has.
    pub fn entry_count(&self) -> (r: usize)
        ensures
            r == self.size(),
    {
        self.keys.len()
    }

    /// How many tasks have been handed out.
    pub fn handed_count(&self) -> (r: usize)
        ensures
            r == self.handed_out(),
    {
        self.handed
    }

    /// Whether an outcome has been delivered for slot `i`.
    pub fn slot_filled(&self, i: usize) -> (r: bool)
        requires
            self.wf(),
            i < self.size(),
        ensures
            r == (self.slot_at(i as int) is Some),
    {
        self.slots[i].is_some()
    }

    /// Whether every task has been handed out and every outcome delivered.
    pub fn is_complete(&self) -> (r: bool)
        requires
            self.wf(),
        ensures
            r <==> {
                &&& self.handed_out() == self.size()
                &&& forall|i: int| 0 <= i < self.size() ==> self.slot_at(i) is Some
            },
    {
        if self.handed < self.keys.len() {
            return false;
        }
        let mut i: usize = 0;
        while i < self.slots.len()
            invariant
                self.wf(),
                0 <= i <= self.size(),
                forall|j: int| 0 <= j < i ==> self.slot_at(j) is Some,
            decreases self.size() - i,
        {
            if self.slots[i].is_none() {
                proof {
                    assert(self.slot_at(i as int) is None);
                }
                return false;
            }
            i = i + 1;
        }
        true
    }

    /// Reassembles the result mapping once every outcome is in: entry `i` of
    /// the output carries the input's key at `i` and the outcome delivered
    /// for that very slot. One failed entry leaves every other entry's
    /// result intact.
    pub fn finish(self) -> (r: Vec<(String, Result<Vec<u8>, ApplyError>)>)
        requires
            self.wf(),
            self.handed_out() == self.size(),
            forall|i: int| 0 <= i < self.size() ==> self.slot_at(i) is Some,
        ensures
            r@.len() == self.size(),
            forall|i: int| 0 <= i < self.size() ==> r@[i].0@ == self.key_at(i),
            forall|i: int| 0 <= i < self.size() ==> Some(outcome_view(r@[i].1)) == self.slot_at(i),
    {
        let mut out: Vec<(String, Result<Vec<u8>, ApplyError>)> = Vec::new();
        let mut i: usize = 0;
        while i < self.keys.len()
            invariant
                self.wf(),
                forall|j: int| 0 <= j < self.size() ==> self.slot_at(j) is Some,
                0 <= i <= self.size(),
                out@.len() == i,
                forall|j: int| 0 <= j < i ==> out@[j].0@ == self.key_at(j),
                forall|j: int| 0 <= j < i ==> Some(outcome_view(out@[j].1)) == self.slot_at(j),
            decreases self.size() - i,
        {
            let key = self.keys[i].clone();
            let outcome = match &self.slots[i] {
                Some(o) => clone_outcome(o),
                None => {
                    proof {
                        assert(self.slot_at(i as int) is Some);
                    }
                    unreached()
                },
            };
            out.push((key, outcome));
            i = i + 1;
        }
        out
    }
}

fn clone_bytes(v: &Vec<u8>) -> (r: Vec<u8>)
    ensures
        r@ == v@,
{
    let mut r: Vec<u8> = Vec::new();
    let mut i: usize = 0;
    while i < v.len()
        invariant
            0 <= i <= v@.len(),
            r@ == v@.subrange(0, i as int),
        decreases v@.len() - i,
    {
        r.push(v[i]);
        proof {
            assert(r@ =~= v@.subrange(0, i + 1));
        }
        i = i + 1;
    }
    proof {
        assert(v@.subrange(0, v@.len() as int) =~= v@);
    }
    r
}

fn clone_outcome(o: &Result<Vec<u8>, ApplyError>) -> (r: Result<Vec<u8>, ApplyError>)
    ensures
        outcome_view(r) == outcome_view(*o),
{
    match o {
        Ok(v) => Ok(clone_bytes(v)),
        Err(e) => Err(*e),
    }
}

/// Workers may complete in any order: recording two outcomes in distinct
/// slots leaves the same slot state whichever lands first.
pub proof fn lemma_delivery_order_irrelevant<T>(slots: Seq<T>, i: int, j: int, x: T, y: T)
    requires
        0 <= i < slots.len(),
        0 <= j < slots.len(),
        i != j,
    ensures
        slots.update(i, x).update(j, y) == slots.update(j, y).update(i, x),
{
    assert(slots.update(i, x).update(j, y) =~= slots.update(j, y).update(i, x));
}

/// A sequence of key-outcome pairs read as a mapping, later entries winning.
pub open spec fn pairs_to_map<K, V>(pairs: Seq<(K, V)>) -> Map<K, V>
    decreases pairs.len(),
{
    if pairs.len() == 0 {
        Map::empty()
    } else {
        pairs_to_map(pairs.drop_last()).insert(pairs.last().0, pairs.last().1)
    }
}

/// Read as a mapping, a reassembled batch with pairwise-distinct keys holds
/// exactly the keys of its pair sequence, and each key maps to the outcome
/// recorded beside it.
pub proof fn lemma_pairs_to_map_exact<K, V>(pairs: Seq<(K, V)>)
    requires
        forall|i: int, j: int| 0 <= i < j < pairs.len() ==> pairs[i].0 != pairs[j].0,
    ensures
        pairs_to_map(pairs).dom() == pairs.map_values(|p: (K, V)| p.0).to_set(),
        forall|i: int|
            0 <= i < pairs.len() ==> pairs_to_map(pairs)[#[trigger] pairs[i].0] == pairs[i].1,
    decreases pairs.len(),
{
    let keys = pairs.map_values(|p: (K, V)| p.0);
    if pairs.len() == 0 {
        assert(pairs_to_map(pairs).dom() =~= keys.to_set());
    } else {
        let rest = pairs.drop_last();
        lemma_pairs_to_map_exact(rest);
        let rkeys = rest.map_values(|p: (K, V)| p.0);
        assert(keys.drop_last() =~= rkeys);
        assert forall|k: K| keys.to_set().contains(k) implies pairs_to_map(
            pairs,
        ).dom().contains(k) by {
            let i = choose|i: int| 0 <= i < keys.len() && keys[i] == k;
            if i < pairs.len() - 1 {
                assert(rkeys[i] == k);
                assert(rkeys.contains(k));
                assert(pairs_to_map(rest).dom().contains(k));
            }
        }
        assert forall|k: K| pairs_to_map(pairs).dom().contains(k) implies keys.to_set().contains(
            k,
        ) by {
            if k == pairs.last().0 {
                assert(keys[keys.len() - 1] == k);
            } else {
                assert(pairs_to_map(rest).dom().contains(k));
                assert(rkeys.to_set().contains(k));
                let i = choose|i: int| 0 <= i < rkeys.len() && rkeys[i] == k;
                assert(keys[i] == k);
            }
        }
        assert(pairs_to_map(pairs).dom() =~= keys.to_set());
        assert forall|i: int| 0 <= i < pairs.len() implies pairs_to_map(pairs)[pairs[i].0]
            == pairs[i].1 by {
            if i < pairs.len() - 1 {
                assert(pairs[i].0 != pairs.last().0);
                assert(rest[i] == pairs[i]);
                assert(pairs_to_map(rest)[rest[i].0] == rest[i].1);
            }
        }
    }
}

/// A reassembled mapping whose key sequence matches the input's pointwise
/// carries exactly the input's key set.
pub proof fn lemma_key_set_preserved(input_keys: Seq<Seq<char>>, output_keys: Seq<Seq<char>>)
    requires
        input_keys.len() == output_keys.len(),
        forall|i: int| 0 <= i < input_keys.len() ==> output_keys[i] == input_keys[i],
    ensures
        output_keys.to_set() == input_keys.to_set(),
{
    assert(output_keys =~= input_keys);
}

} // verus!
