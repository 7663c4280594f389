//! A hash set of 32-bit integers with open addressing and linear probing.

use vstd::prelude::*;
use crate::collections::int_hash_map::{IntHashMap, IntHashMapKeys};
use crate::collections::probe::{
    is_capacity, threshold, MAX_CAPACITY, MAX_ENTRIES, MIN_CAPACITY, MISSING_VALUE,
};

verus! {

/// A set of 32-bit integers, kept as the keys of an open-addressed table with linear
/// probing. The key `MISSING_VALUE` marks the empty slots and cannot be stored.
pub struct IntHashSet {
    table: IntHashMap<()>,
}

impl IntHashSet {
    /// The members of the set.
    pub closed spec fn view(&self) -> Set<i32> {
        self.table@.dom()
    }

    /// The number of slots of the table.
    pub closed spec fn spec_capacity(&self) -> nat {
        self.table.spec_capacity()
    }

    /// Whether the set is well formed: a search finds every member.
    pub closed spec fn wf(&self) -> bool {
        self.table.wf()
    }

    /// An empty set with the smallest capacity.
    pub fn new() -> (set: Self)
        ensures
            set.wf(),
            set@ == Set::<i32>::empty(),
            set.spec_capacity() == MIN_CAPACITY,
    {
        let set = IntHashSet { table: IntHashMap::new() };
        assert(set@ =~= Set::<i32>::empty());
        set
    }

    /// An empty set whose capacity is the smallest power of two that is at least
    /// `initial_capacity` and at least `MIN_CAPACITY`, and at most `MAX_CAPACITY`.
    pub fn with_capacity(initial_capacity: usize) -> (set: Self)
        ensures
            set.wf(),
            set@ == Set::<i32>::empty(),
            is_capacity(set.spec_capacity() as int),
            set.spec_capacity() >= initial_capacity || set.spec_capacity() == MAX_CAPACITY,
            set.spec_capacity() == MIN_CAPACITY || set.spec_capacity() / 2 < initial_capacity,
    {
        let set = IntHashSet { table: IntHashMap::with_capacity(initial_capacity) };
        assert(set@ =~= Set::<i32>::empty());
        set
    }

    /// The number of members.
    pub fn len(&self) -> (n: usize)
        requires
            self.wf(),
        ensures
            n == self@.len(),
    {
        self.table.len()
    }

    /// Whether the set has no member.
    pub fn is_empty(&self) -> (r: bool)
        requires
            self.wf(),
        ensures
            r == (self@.len() == 0),
    {
        self.table.is_empty()
    }

    /// The number of slots.
    pub fn capacity(&self) -> (capacity: usize)
        requires
            self.wf(),
        ensures
            capacity == self.spec_capacity(),
            is_capacity(capacity as int),
    {
        self.table.capacity()
    }

    /// Whether `key` is a member.
    pub fn contains(&self, key: i32) -> (r: bool)
        requires
            self.wf(),
        ensures
            r == self@.contains(key),
    {
        self.table.contains_key(key)
    }

    /// Makes `key` a member and says whether it was none before. The table doubles
    /// first where it holds as many members as its threshold. The key `MISSING_VALUE`
    /// is not taken: the set stays as it is, and the answer is `false`.
    pub fn insert(&mut self, key: i32) -> (r: bool)
        requires
            old(self).wf(),
            old(self)@.len() < MAX_ENTRIES,
        ensures
            final(self).wf(),
            key == MISSING_VALUE ==> !r && final(self)@ == old(self)@ && final(self).spec_capacity()
                == old(self).spec_capacity(),
            key != MISSING_VALUE ==> final(self)@ == old(self)@.insert(key) && r == !old(self)@.contains(key) && final(self).spec_capacity() == (if old(self)@.len() >= threshold(
                old(self).spec_capacity() as int,
            ) {
                2 * old(self).spec_capacity()
            } else {
                old(self).spec_capacity()
            }),
    {
        if key == MISSING_VALUE {
            return false;
        }
        let previous = self.table.insert(key, ());
        assert(self@ =~= old(self)@.insert(key));
        previous.is_none()
    }

    /// Takes `key` out and says whether it was a member.
    pub fn remove(&mut self, key: i32) -> (r: bool)
        requires
            old(self).wf(),
        ensures
            final(self).wf(),
            final(self)@ == old(self)@.remove(key),
            r == old(self)@.contains(key),
            final(self).spec_capacity() == old(self).spec_capacity(),
    {
        let previous = self.table.remove(key);
        assert(self@ =~= old(self)@.remove(key));
        previous.is_some()
    }

    /// Takes every member out. The capacity stays.
    pub fn clear(&mut self)
        requires
            old(self).wf(),
        ensures
            final(self).wf(),
            final(self)@ == Set::<i32>::empty(),
            final(self).spec_capacity() == old(self).spec_capacity(),
    {
        self.table.clear();
        assert(self@ =~= Set::<i32>::empty());
    }
}

impl IntHashSet {
    /// The members of the set in the order in which they stand in the table, which
    /// is the order in which they are walked.
    pub closed spec fn elements(&self) -> Seq<i32> {
        self.table.entries().map_values(|e: (i32, ())| e.0)
    }

    /// The walk of a set meets every member once.
    pub proof fn lemma_elements(&self)
        requires
            self.wf(),
        ensures
            self.elements().len() == self@.len(),
            self.elements().no_duplicates(),
            forall|k: i32| self@.contains(k) <==> self.elements().contains(k),
    {
        self.table.lemma_entries();
        let entries = self.table.entries();
        let elements = self.elements();
        assert forall|k: i32| self@.contains(k) implies elements.contains(k) by {
            let i = choose|i: int| 0 <= i < entries.len() && (#[trigger] entries[i]).0 == k;
            assert(elements[i] == k);
        }
        assert forall|k: i32| elements.contains(k) implies self@.contains(k) by {
            let i = choose|i: int| 0 <= i < elements.len() && elements[i] == k;
            assert(entries[i].0 == k);
        }
        assert forall|i: int, j: int|
            0 <= i < elements.len() && 0 <= j < elements.len() && i != j implies elements[i]
            != elements[j] by {
            assert(elements[i] == entries[i].0 && elements[j] == entries[j].0);
            if i < j {
                assert(entries[i].0 != entries[j].0);
            } else {
                assert(entries[j].0 != entries[i].0);
            }
        }
    }

    /// A walk over the members in the order in which they stand in the table.
    pub fn iter(&self) -> (walk: IntHashSetIter<'_>)
        requires
            self.wf(),
        ensures
            walk.wf(),
            walk.remaining() == self.elements(),
            walk.set_len() == self@.len(),
    {
        IntHashSetIter { keys: self.table.keys() }
    }
}

/// A walk over the members of a set in the order in which they stand in the table.
pub struct IntHashSetIter<'a> {
    keys: IntHashMapKeys<'a, ()>,
}

impl<'a> IntHashSetIter<'a> {
    /// Whether the walk is over a well-formed set.
    pub closed spec fn wf(&self) -> bool {
        self.keys.wf()
    }

    /// The members that the walk has still to give, in order.
    pub closed spec fn remaining(&self) -> Seq<i32> {
        self.keys.remaining()
    }

    /// The number of members of the set that is walked.
    pub closed spec fn set_len(&self) -> nat {
        self.keys.map_len()
    }

    /// The next member, or `None` when the walk is over.
    pub fn next(&mut self) -> (r: Option<i32>)
        requires
            old(self).wf(),
        ensures
            final(self).wf(),
            final(self).set_len() == old(self).set_len(),
            match r {
                Some(key) => old(self).remaining().len() > 0 && old(self).remaining()[0] == key
                    && final(self).remaining() == old(self).remaining().drop_first(),
                None => old(self).remaining().len() == 0 && final(self).remaining().len() == 0,
            },
    {
        self.keys.next()
    }

    /// The bounds on how many members are still to come: none at least, and at most
    /// as many as the set has.
    pub fn size_hint(&self) -> (r: (usize, Option<usize>))
        requires
            self.wf(),
        ensures
            r == (0usize, Some(self.set_len() as usize)),
    {
        self.keys.size_hint()
    }
}

impl Default for IntHashSet {
    /// An empty set with the smallest capacity.
    fn default() -> (set: Self)
        ensures
            set.wf(),
            set@ == Set::<i32>::empty(),
            set.spec_capacity() == MIN_CAPACITY,
    {
        Self::new()
    }
}

} // verus!
