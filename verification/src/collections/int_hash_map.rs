//! A hash map for 32-bit integer keys with open addressing and linear probing.

use vstd::prelude::*;
use crate::collections::probe::{
    chains_intact, compacting, dist, ideal_slot, indexed, is_capacity, lemma_compaction_ends,
    lemma_compaction_moves, lemma_compaction_skips, lemma_compaction_starts, lemma_empty_slot,
    lemma_ideal_slot_in_table, lemma_insert_keeps_chains, lemma_search_ends_empty,
    spec_should_move, step, threshold, MAX_CAPACITY, MAX_ENTRIES, MIN_CAPACITY, MISSING_VALUE,
};
use crate::hashing::{fast_int_hash, mix_hash};

verus! {

/// A map from 32-bit integer keys to values, kept in an open-addressed table with
/// linear probing. The key `MISSING_VALUE` marks the empty slots and cannot be stored.
pub struct IntHashMap<V> {
    keys: Vec<i32>,
    values: Vec<V>,
    size: usize,
    resize_threshold: usize,
    mask: usize,
    slots: Ghost<Map<i32, int>>,
}

/// The slot after `index` in a table whose capacity is `mask + 1`.
pub(crate) fn next_slot(index: usize, mask: usize) -> (next: usize)
    requires
        index <= mask,
        is_capacity(mask + 1),
    ensures
        next == step(index as int, 1, mask + 1),
{
    assert((index + 1) as usize & mask == if index == mask {
        0
    } else {
        (index + 1) as usize
    }) by (bit_vector)
        requires
            index <= mask,
            mask < 0x4000_0000,
            (mask + 1) as usize & mask == 0,
    ;
    (index + 1) & mask
}

/// The threshold of a table of `capacity` slots.
pub(crate) fn threshold_of(capacity: usize) -> (limit: usize)
    requires
        capacity <= MAX_CAPACITY,
    ensures
        limit == threshold(capacity as int),
{
    ((capacity as u64) * 67 / 100) as usize
}

/// The smallest capacity that is at least `initial_capacity`, or the largest there is.
pub(crate) fn capacity_for(initial_capacity: usize) -> (capacity: usize)
    ensures
        is_capacity(capacity as int),
        capacity >= initial_capacity || capacity == MAX_CAPACITY,
        capacity == MIN_CAPACITY || capacity / 2 < initial_capacity,
{
    let mut capacity: usize = MIN_CAPACITY;
    assert(is_capacity(8)) by {
        assert(8usize & 7usize == 0) by (bit_vector);
    }
    while capacity < initial_capacity && capacity < MAX_CAPACITY
        invariant
            is_capacity(capacity as int),
            capacity == MIN_CAPACITY || capacity / 2 < initial_capacity,
        decreases MAX_CAPACITY - capacity,
    {
        assert(capacity <= 0x2000_0000 && (2 * capacity) as usize & (2 * capacity - 1) as usize == 0)
            by (bit_vector)
            requires
                capacity & (capacity - 1) as usize == 0,
                8 <= capacity < 0x4000_0000,
        ;
        capacity = capacity * 2;
    }
    capacity
}

/// Whether `v` is a value that `V::default()` gives.
pub open spec fn is_default<V: Default>(v: V) -> bool {
    call_ensures(V::default, (), v)
}

/// Takes the value out of slot `i` and leaves the default value there.
pub(crate) fn take_at<V: Default>(values: &mut Vec<V>, i: usize) -> (v: V)
    requires
        i < old(values)@.len(),
    ensures
        v == old(values)@[i as int],
        final(values)@.len() == old(values)@.len(),
        is_default(final(values)@[i as int]),
        forall|j: int|
            0 <= j < old(values)@.len() && j != i ==> final(values)@[j] == old(values)@[j],
{
    let mut v = V::default();
    core::mem::swap(&mut values[i], &mut v);
    v
}

/// Puts `v` into slot `i` and returns the value that stood there.
pub(crate) fn replace_at<V>(values: &mut Vec<V>, i: usize, v: V) -> (previous: V)
    requires
        i < old(values)@.len(),
    ensures
        previous == old(values)@[i as int],
        final(values)@ == old(values)@.update(i as int, v),
{
    let mut v = v;
    core::mem::swap(&mut values[i], &mut v);
    v
}

impl<V: Clone + Default> IntHashMap<V> {
    /// The entries of the map.
    pub closed spec fn view(&self) -> Map<i32, V> {
        Map::new(|k: i32| self.slots@.dom().contains(k), |k: i32| self.values@[self.slots@[k]])
    }

    /// The number of slots of the table.
    pub closed spec fn spec_capacity(&self) -> nat {
        self.keys@.len()
    }

    /// Whether the table has the shape of one: its sizes fit, each key is known by
    /// its slot, and the empty slots hold the default value.
    pub closed spec fn shaped(&self) -> bool {
        &&& is_capacity(self.keys@.len() as int)
        &&& self.values@.len() == self.keys@.len()
        &&& forall|i: int|
            0 <= i < self.keys@.len() && self.keys@[i] == MISSING_VALUE ==> is_default(
                #[trigger] self.values@[i],
            )
        &&& self.mask == self.keys@.len() - 1
        &&& self.resize_threshold == threshold(self.keys@.len() as int)
        &&& indexed(self.keys@, self.slots@)
        &&& self.size == self.slots@.dom().len()
        &&& self.size <= self.resize_threshold
    }

    /// Whether the map is well formed: it has the shape of a table, and a search
    /// finds every key.
    pub closed spec fn wf(&self) -> bool {
        &&& self.shaped()
        &&& chains_intact(self.keys@, self.mask)
    }
}

impl<V: Clone + Default> IntHashMap<V> {
    /// An empty map with the smallest capacity.
    pub fn new() -> (map: Self)
        ensures
            map.wf(),
            map@ == Map::<i32, V>::empty(),
            map.spec_capacity() == MIN_CAPACITY,
    {
        assert(is_capacity(8)) by {
            assert(8usize & 7usize == 0) by (bit_vector);
        }
        Self::with_slots(MIN_CAPACITY)
    }

    /// An empty map whose capacity is the smallest power of two that is at least
    /// `initial_capacity` and at least `MIN_CAPACITY`, and at most `MAX_CAPACITY`.
    pub fn with_capacity(initial_capacity: usize) -> (map: Self)
        ensures
            map.wf(),
            map@ == Map::<i32, V>::empty(),
            is_capacity(map.spec_capacity() as int),
            map.spec_capacity() >= initial_capacity || map.spec_capacity() == MAX_CAPACITY,
            map.spec_capacity() == MIN_CAPACITY || map.spec_capacity() / 2 < initial_capacity,
    {
        Self::with_slots(capacity_for(initial_capacity))
    }

    /// An empty map of exactly `capacity` slots.
    fn with_slots(capacity: usize) -> (map: Self)
        requires
            is_capacity(capacity as int),
        ensures
            map.wf(),
            map@ == Map::<i32, V>::empty(),
            map.spec_capacity() == capacity,
    {
        let keys: Vec<i32> = vec![MISSING_VALUE; capacity];
        let mut values: Vec<V> = Vec::with_capacity(capacity);
        let mut i: usize = 0;
        while i < capacity
            invariant
                0 <= i <= capacity,
                values@.len() == i,
                forall|j: int| 0 <= j < i ==> is_default(#[trigger] values@[j]),
            decreases capacity - i,
        {
            values.push(V::default());
            i += 1;
        }
        let map = IntHashMap {
            keys,
            values,
            size: 0,
            resize_threshold: threshold_of(capacity),
            mask: capacity - 1,
            slots: Ghost(Map::empty()),
        };
        assert(map@ =~= Map::<i32, V>::empty());
        map
    }

    /// The number of entries.
    pub fn len(&self) -> (n: usize)
        requires
            self.wf(),
        ensures
            n == self@.len(),
    {
        assert(self@.dom() =~= self.slots@.dom());
        self.size
    }

    /// Whether the map has no entry.
    pub fn is_empty(&self) -> (r: bool)
        requires
            self.wf(),
        ensures
            r == (self@.len() == 0),
    {
        assert(self@.dom() =~= self.slots@.dom());
        self.size == 0
    }

    /// The number of slots.
    pub fn capacity(&self) -> (capacity: usize)
        requires
            self.wf(),
        ensures
            capacity == self.spec_capacity(),
            is_capacity(capacity as int),
    {
        self.keys.len()
    }

    /// The hash of `key` that decides where the search for it starts.
    fn hash_key(key: i32) -> (h: usize)
        ensures
            h == crate::hashing::spec_mix_hash(crate::hashing::spec_fast_int_hash(key)) as usize,
    {
        mix_hash(fast_int_hash(key)) as usize
    }

    /// Searches for `key` from its ideal slot on: the slot that holds it and `true`,
    /// or the first empty slot on the way and `false`.
    fn find_index(&self, key: i32) -> (r: (usize, bool))
        requires
            self.wf(),
        ensures
            r.0 < self.keys@.len(),
            r.1 ==> key != MISSING_VALUE && self.keys@[r.0 as int] == key,
            r.1 == self@.contains_key(key),
            !r.1 ==> self.keys@[r.0 as int] == MISSING_VALUE,
            !r.1 && key != MISSING_VALUE ==> crate::collections::probe::run_occupied(
                self.keys@,
                ideal_slot(key, self.mask),
                dist(ideal_slot(key, self.mask), r.0 as int, self.keys@.len() as int),
            ),
    {
        let mut index = Self::hash_key(key) & self.mask;
        let ghost capacity = self.keys@.len() as int;
        let ghost ideal = ideal_slot(key, self.mask);
        proof {
            lemma_ideal_slot_in_table(key, self.mask);
            lemma_threshold_below(capacity);
            lemma_empty_slot(self.keys@, self.slots@, Set::empty());
        }
        let ghost e = choose|e: int| 0 <= e < capacity && self.keys@[e] == MISSING_VALUE;
        loop
            invariant
                self.wf(),
                capacity == self.keys@.len(),
                ideal == ideal_slot(key, self.mask),
                0 <= ideal < capacity,
                index < capacity,
                0 <= e < capacity,
                self.keys@[e] == MISSING_VALUE,
                dist(ideal, index as int, capacity) <= dist(ideal, e, capacity),
                forall|d: int|
                    0 <= d < dist(ideal, index as int, capacity) ==> self.keys@[#[trigger] step(
                        ideal,
                        d,
                        capacity,
                    )] != MISSING_VALUE && self.keys@[step(ideal, d, capacity)] != key,
            decreases dist(index as int, e, capacity),
        {
            let existing = self.keys[index];
            if existing == MISSING_VALUE {
                proof {
                    if key != MISSING_VALUE {
                        lemma_search_ends_empty(self.keys@, self.mask, key, index as int);
                    }
                }
                return (index, false);
            }
            if existing == key {
                return (index, true);
            }
            let ghost before = index as int;
            index = next_slot(index, self.mask);
            proof {
                assert(dist(ideal, index as int, capacity) == dist(ideal, before, capacity) + 1);
                assert forall|d: int|
                    0 <= d < dist(ideal, index as int, capacity) implies self.keys@[#[trigger] step(
                    ideal,
                    d,
                    capacity,
                )] != MISSING_VALUE && self.keys@[step(ideal, d, capacity)] != key by {
                    if d == dist(ideal, before, capacity) {
                        assert(step(ideal, d, capacity) == before);
                    }
                }
            }
        }
    }

    /// The value that stands under `key`, if there is one.
    pub fn get(&self, key: i32) -> (r: Option<&V>)
        requires
            self.wf(),
        ensures
            match r {
                Some(v) => self@.contains_key(key) && *v == self@[key],
                None => !self@.contains_key(key),
            },
    {
        let (index, found) = self.find_index(key);
        if found {
            Some(&self.values[index])
        } else {
            None
        }
    }

    /// Whether a value stands under `key`.
    pub fn contains_key(&self, key: i32) -> (r: bool)
        requires
            self.wf(),
        ensures
            r == self@.contains_key(key),
    {
        self.find_index(key).1
    }
}

impl<V: Clone + Default> IntHashMap<V> {
    /// Puts `value` under `key` in a table that has room for one more entry.
    fn insert_entry(&mut self, key: i32, value: V) -> (r: Option<V>)
        requires
            old(self).wf(),
            key != MISSING_VALUE,
            old(self).size < old(self).resize_threshold,
        ensures
            final(self).wf(),
            final(self)@ == old(self)@.insert(key, value),
            r == (if old(self)@.contains_key(key) {
                Some(old(self)@[key])
            } else {
                None
            }),
            final(self).keys@.len() == old(self).keys@.len(),
    {
        let (index, found) = self.find_index(key);
        if found {
            let previous = replace_at(&mut self.values, index, value);
            assert(self@ =~= old(self)@.insert(key, value));
            Some(previous)
        } else {
            proof {
                lemma_insert_keeps_chains(self.keys@, self.mask, key, index as int);
            }
            self.keys[index] = key;
            self.values[index] = value;
            self.size += 1;
            self.slots = Ghost(self.slots@.insert(key, index as int));
            assert(self@ =~= old(self)@.insert(key, value));
            None
        }
    }

    /// Doubles the capacity and puts every entry into the new table.
    fn resize(&mut self)
        requires
            old(self).wf(),
            2 * old(self).keys@.len() <= MAX_CAPACITY,
        ensures
            final(self).wf(),
            final(self)@ == old(self)@,
            final(self).keys@.len() == 2 * old(self).keys@.len(),
            final(self).size == old(self).size,
    {
        let capacity = self.keys.len();
        assert((2 * capacity) as usize & (2 * capacity - 1) as usize == 0) by (bit_vector)
            requires
                capacity & (capacity - 1) as usize == 0,
                8 <= capacity <= 0x2000_0000,
        ;
        let mut grown: IntHashMap<V> = Self::with_slots(capacity * 2);
        let ghost slots = self.slots@;
        let ghost values = self.values@;
        proof {
            lemma_threshold_below(capacity as int);
        }
        let mut i: usize = 0;
        while i < capacity
            invariant
                0 <= i <= capacity,
                capacity == self.keys@.len(),
                self.keys@ == old(self).keys@,
                self.values@.len() == capacity,
                slots == old(self).slots@,
                values == old(self).values@,
                indexed(self.keys@, slots),
                self.size == slots.dom().len(),
                self.size <= threshold(capacity as int),
                threshold(capacity as int) < threshold(2 * capacity),
                forall|j: int| i <= j < capacity ==> self.values@[j] == values[j],
                grown.wf(),
                grown.keys@.len() == 2 * capacity,
                grown@ =~= Map::new(
                    |k: i32| slots.dom().contains(k) && slots[k] < i,
                    |k: i32| values[slots[k]],
                ),
            decreases capacity - i,
        {
            let key = self.keys[i];
            if key != MISSING_VALUE {
                let value = take_at(&mut self.values, i);
                proof {
                    assert(grown@.dom() =~= grown.slots@.dom());
                    assert(grown@.dom().subset_of(slots.dom()));
                    vstd::set_lib::lemma_len_subset(grown@.dom(), slots.dom());
                }
                let _ = grown.insert_entry(key, value);
            }
            i += 1;
        }
        assert(grown@ =~= old(self)@);
        assert(grown@.dom() =~= grown.slots@.dom());
        assert(old(self)@.dom() =~= slots.dom());
        *self = grown;
    }

    /// Puts `value` under `key` and returns the value that stood there before, if
    /// there was one. The table doubles first where it holds as many entries as its
    /// threshold. The key `MISSING_VALUE` is not taken: the map stays as it is.
    pub fn insert(&mut self, key: i32, value: V) -> (r: Option<V>)
        requires
            old(self).wf(),
            old(self)@.len() < MAX_ENTRIES,
        ensures
            final(self).wf(),
            key == MISSING_VALUE ==> r is None && final(self)@ == old(self)@ && final(self).spec_capacity() == old(self).spec_capacity(),
            key != MISSING_VALUE ==> final(self)@ == old(self)@.insert(key, value) && r == (
            if old(self)@.contains_key(key) {
                Some(old(self)@[key])
            } else {
                None
            }) && final(self).spec_capacity() == (if old(self)@.len() >= threshold(
                old(self).spec_capacity() as int,
            ) {
                2 * old(self).spec_capacity()
            } else {
                old(self).spec_capacity()
            }),
    {
        if key == MISSING_VALUE {
            return None;
        }
        assert(self@.dom() =~= self.slots@.dom());
        if self.size >= self.resize_threshold {
            let capacity = self.keys.len();
            assert(capacity <= 0x2000_0000) by (bit_vector)
                requires
                    capacity & (capacity - 1) as usize == 0,
                    8 <= capacity < 0x4000_0000,
            ;
            self.resize();
            proof {
                lemma_threshold_below(capacity as int);
            }
        }
        self.insert_entry(key, value)
    }

    /// Takes the entry of `key` out and returns its value, if there was one.
    pub fn remove(&mut self, key: i32) -> (r: Option<V>)
        requires
            old(self).wf(),
        ensures
            final(self).wf(),
            final(self)@ == old(self)@.remove(key),
            r == (if old(self)@.contains_key(key) {
                Some(old(self)@[key])
            } else {
                None
            }),
            final(self).spec_capacity() == old(self).spec_capacity(),
    {
        let (index, found) = self.find_index(key);
        if !found {
            assert(self@ =~= old(self)@.remove(key));
            return None;
        }
        proof {
            lemma_compaction_starts(self.keys@, self.mask, index as int);
        }
        let old_value = take_at(&mut self.values, index);
        self.keys[index] = MISSING_VALUE;
        self.size -= 1;
        self.slots = Ghost(self.slots@.remove(key));
        assert(self@ =~= old(self)@.remove(key));
        self.compact_chain(index);
        Some(old_value)
    }

    /// Closes the hole that a removal left at `deleted_index`: every entry behind it,
    /// up to the next empty slot, whose search would cross the hole moves into it and
    /// leaves the next hole.
    fn compact_chain(&mut self, deleted_index: usize)
        requires
            old(self).shaped(),
            old(self).size < old(self).resize_threshold,
            compacting(
                old(self).keys@,
                old(self).mask,
                deleted_index as int,
                step(deleted_index as int, 1, old(self).keys@.len() as int),
            ),
        ensures
            final(self).wf(),
            final(self)@ == old(self)@,
            final(self).keys@.len() == old(self).keys@.len(),
    {
        let ghost capacity = self.keys@.len() as int;
        let mut hole = deleted_index;
        let mut index = next_slot(hole, self.mask);
        proof {
            lemma_threshold_below(capacity);
            lemma_empty_slot(self.keys@, self.slots@, set![hole as int]);
        }
        let ghost e = choose|e: int|
            0 <= e < capacity && !set![hole as int].contains(e) && self.keys@[e] == MISSING_VALUE;
        loop
            invariant_except_break
                compacting(self.keys@, self.mask, hole as int, index as int),
            invariant
                self.shaped(),
                capacity == self.keys@.len(),
                capacity == old(self).keys@.len(),
                hole < capacity,
                index < capacity,
                0 <= e < capacity,
                e != hole,
                self.keys@[e] == MISSING_VALUE,
                self@ == old(self)@,
            ensures
                chains_intact(self.keys@, self.mask),
            decreases dist(index as int, e, capacity),
        {
            let key = self.keys[index];
            if key == MISSING_VALUE {
                proof {
                    lemma_compaction_ends(self.keys@, self.mask, hole as int, index as int);
                }
                break;
            }
            let ideal_index = Self::hash_key(key) & self.mask;
            if self.should_move_entry(hole, index, ideal_index) {
                proof {
                    lemma_compaction_moves(self.keys@, self.mask, hole as int, index as int);
                }
                let ghost before = self@;
                self.keys[hole] = key;
                let value = take_at(&mut self.values, index);
                self.values[hole] = value;
                self.keys[index] = MISSING_VALUE;
                self.slots = Ghost(self.slots@.insert(key, hole as int));
                assert(self.slots@.dom() =~= old(self)@.dom());
                assert(self@ =~= before);
                hole = index;
            } else {
                proof {
                    if step(index as int, 1, capacity) == hole {
                        assert(0 < dist(hole as int, e, capacity) < dist(
                            hole as int,
                            index as int,
                            capacity,
                        ));
                    }
                    lemma_compaction_skips(self.keys@, self.mask, hole as int, index as int);
                }
            }
            index = next_slot(index, self.mask);
        }
    }

    /// Whether the entry at `current_index`, whose ideal slot is `ideal_index`, has to
    /// move into the hole at `deleted_index`.
    fn should_move_entry(&self, deleted_index: usize, current_index: usize, ideal_index: usize) -> (r:
        bool)
        ensures
            r == spec_should_move(deleted_index as int, current_index as int, ideal_index as int),
    {
        if deleted_index < current_index {
            ideal_index <= deleted_index || ideal_index > current_index
        } else {
            ideal_index <= deleted_index && ideal_index > current_index
        }
    }

    /// Takes every entry out. The capacity stays.
    pub fn clear(&mut self)
        requires
            old(self).wf(),
        ensures
            final(self).wf(),
            final(self)@ == Map::<i32, V>::empty(),
            final(self).spec_capacity() == old(self).spec_capacity(),
    {
        let capacity = self.keys.len();
        let mut i: usize = 0;
        while i < capacity
            invariant
                0 <= i <= capacity,
                capacity == self.keys@.len(),
                capacity == old(self).keys@.len(),
                self.values@.len() == capacity,
                self.mask == old(self).mask,
                self.resize_threshold == old(self).resize_threshold,
                forall|j: int| 0 <= j < i ==> self.keys@[j] == MISSING_VALUE,
                forall|j: int| 0 <= j < i ==> is_default(#[trigger] self.values@[j]),
            decreases capacity - i,
        {
            self.keys[i] = MISSING_VALUE;
            self.values[i] = V::default();
            i += 1;
        }
        self.size = 0;
        self.slots = Ghost(Map::empty());
        assert(self@ =~= Map::<i32, V>::empty());
    }

    /// The value that stands under `key`, to be changed in place, if there is one.
    pub fn get_mut(&mut self, key: i32) -> (r: Option<&mut V>)
        requires
            old(self).wf(),
        ensures
            final(self).wf(),
            final(self).spec_capacity() == old(self).spec_capacity(),
            match r {
                Some(v) => old(self)@.contains_key(key) && *v == old(self)@[key] && final(self)@
                    == old(self)@.insert(key, *final(v)),
                None => !old(self)@.contains_key(key) && final(self)@ == old(self)@,
            },
    {
        let (index, found) = self.find_index(key);
        if found {
            Some(&mut self.values[index])
        } else {
            None
        }
    }
}

/// The entries that stand in the slots from `from` on, in the order of the slots.
pub open spec fn entries_from<V>(keys: Seq<i32>, values: Seq<V>, from: int) -> Seq<(i32, V)>
    decreases keys.len() - from,
{
    if from < 0 || from >= keys.len() {
        Seq::empty()
    } else if keys[from] == MISSING_VALUE {
        entries_from(keys, values, from + 1)
    } else {
        seq![(keys[from], values[from])] + entries_from(keys, values, from + 1)
    }
}

impl<V: Clone + Default> IntHashMap<V> {
    /// The entries of the map in the order in which they stand in the table, which
    /// is the order in which they are walked.
    pub closed spec fn entries(&self) -> Seq<(i32, V)> {
        entries_from(self.keys@, self.values@, 0)
    }

    /// The entries from slot `from` on are the entries of the map whose slot is not
    /// before `from`, each once.
    proof fn lemma_entries_from(&self, from: int)
        requires
            self.wf(),
            0 <= from <= self.keys@.len(),
        ensures
            entries_from(self.keys@, self.values@, from).len() == self.slots@.dom().filter(
                |k: i32| self.slots@[k] >= from,
            ).len(),
            forall|i: int|
                0 <= i < entries_from(self.keys@, self.values@, from).len() ==> {
                    let e = #[trigger] entries_from(self.keys@, self.values@, from)[i];
                    self@.contains_key(e.0) && self@[e.0] == e.1 && self.slots@[e.0] >= from
                },
            forall|i: int, j: int|
                0 <= i < j < entries_from(self.keys@, self.values@, from).len() ==> self.slots@[(
                #[trigger] entries_from(self.keys@, self.values@, from)[i]).0] < self.slots@[(
                #[trigger] entries_from(self.keys@, self.values@, from)[j]).0],
            forall|k: i32|
                self@.contains_key(k) && self.slots@[k] >= from ==> exists|i: int|
                    0 <= i < entries_from(self.keys@, self.values@, from).len() && (
                    #[trigger] entries_from(self.keys@, self.values@, from)[i]).0 == k,
        decreases self.keys@.len() - from,
    {
        let here = self.slots@.dom().filter(|k: i32| self.slots@[k] >= from);
        let all = entries_from(self.keys@, self.values@, from);
        if from >= self.keys@.len() {
            assert(here =~= Set::<i32>::empty());
        } else {
            self.lemma_entries_from(from + 1);
            let rest = entries_from(self.keys@, self.values@, from + 1);
            let after = self.slots@.dom().filter(|k: i32| self.slots@[k] >= from + 1);
            if self.keys@[from] == MISSING_VALUE {
                assert(here =~= after);
            } else {
                let key = self.keys@[from];
                assert(here =~= after.insert(key));
                assert(!after.contains(key));
                vstd::set_lib::lemma_set_subset_finite(self.slots@.dom(), after);
                assert forall|i: int| 0 <= i < all.len() implies {
                    let e = #[trigger] all[i];
                    self@.contains_key(e.0) && self@[e.0] == e.1 && self.slots@[e.0] >= from
                } by {
                    if i > 0 {
                        assert(all[i] == rest[i - 1]);
                    }
                }
                assert forall|i: int, j: int| 0 <= i < j < all.len() implies self.slots@[(
                #[trigger] all[i]).0] < self.slots@[(#[trigger] all[j]).0] by {
                    assert(all[j] == rest[j - 1]);
                    if i > 0 {
                        assert(all[i] == rest[i - 1]);
                    }
                }
                assert forall|k: i32|
                    self@.contains_key(k) && self.slots@[k] >= from implies exists|i: int|
                    0 <= i < all.len() && (#[trigger] all[i]).0 == k by {
                    if k == key {
                        assert(all[0].0 == k);
                    } else {
                        let i = choose|i: int| 0 <= i < rest.len() && (#[trigger] rest[i]).0 == k;
                        assert(all[i + 1] == rest[i]);
                    }
                }
            }
        }
    }

    /// The walk of a map meets every entry once: the entries in storage order are as
    /// many as the map has, each is an entry of the map, no key comes twice, and every
    /// key of the map comes.
    pub proof fn lemma_entries(&self)
        requires
            self.wf(),
        ensures
            self.entries().len() == self@.len(),
            forall|i: int|
                0 <= i < self.entries().len() ==> self@.contains_key(
                    (#[trigger] self.entries()[i]).0,
                ) && self@[self.entries()[i].0] == self.entries()[i].1,
            forall|i: int, j: int|
                0 <= i < j < self.entries().len() ==> (#[trigger] self.entries()[i]).0 != (
                #[trigger] self.entries()[j]).0,
            forall|k: i32|
                self@.contains_key(k) ==> exists|i: int|
                    0 <= i < self.entries().len() && (#[trigger] self.entries()[i]).0 == k,
    {
        self.lemma_entries_from(0);
        assert(self.slots@.dom().filter(|k: i32| self.slots@[k] >= 0) =~= self.slots@.dom());
        assert(self@.dom() =~= self.slots@.dom());
    }
}

/// A walk over the entries of a map in the order in which they stand in the table.
pub struct IntHashMapIter<'a, V> {
    map: &'a IntHashMap<V>,
    index: usize,
}

impl<'a, V: Clone + Default> IntHashMapIter<'a, V> {
    /// Whether the walk is over a well-formed map.
    pub closed spec fn wf(&self) -> bool {
        self.map.wf() && self.index <= self.map.keys@.len()
    }

    /// The entries that the walk has still to give, in order.
    pub closed spec fn remaining(&self) -> Seq<(i32, V)> {
        entries_from(self.map.keys@, self.map.values@, self.index as int)
    }

    /// The number of entries of the map that is walked.
    pub closed spec fn map_len(&self) -> nat {
        self.map@.len()
    }

    /// The next entry, or `None` when the walk is over.
    pub fn next(&mut self) -> (r: Option<(i32, &'a V)>)
        requires
            old(self).wf(),
        ensures
            final(self).wf(),
            final(self).map_len() == old(self).map_len(),
            match r {
                Some(entry) => old(self).remaining().len() > 0 && old(self).remaining()[0] == (
                    entry.0,
                    *entry.1,
                ) && final(self).remaining() == old(self).remaining().drop_first(),
                None => old(self).remaining().len() == 0 && final(self).remaining().len() == 0,
            },
    {
        while self.index < self.map.keys.len()
            invariant
                self.wf(),
                self.map == old(self).map,
                self.remaining() == old(self).remaining(),
            decreases self.map.keys@.len() - self.index,
        {
            let key = self.map.keys[self.index];
            if key != MISSING_VALUE {
                let value = &self.map.values[self.index];
                self.index += 1;
                assert(self.remaining() =~= old(self).remaining().drop_first());
                return Some((key, value));
            }
            self.index += 1;
        }
        None
    }

    /// The bounds on how many entries are still to come: none at least, and at most
    /// as many as the map has.
    pub fn size_hint(&self) -> (r: (usize, Option<usize>))
        requires
            self.wf(),
        ensures
            r == (0usize, Some(self.map_len() as usize)),
    {
        assert(self.map@.dom() =~= self.map.slots@.dom());
        (0, Some(self.map.size))
    }
}

/// A walk over the keys of a map in the order in which they stand in the table.
pub struct IntHashMapKeys<'a, V> {
    entries: IntHashMapIter<'a, V>,
}

impl<'a, V: Clone + Default> IntHashMapKeys<'a, V> {
    /// Whether the walk is over a well-formed map.
    pub closed spec fn wf(&self) -> bool {
        self.entries.wf()
    }

    /// The keys that the walk has still to give, in order.
    pub closed spec fn remaining(&self) -> Seq<i32> {
        self.entries.remaining().map_values(|e: (i32, V)| e.0)
    }

    /// The number of entries of the map that is walked.
    pub closed spec fn map_len(&self) -> nat {
        self.entries.map_len()
    }

    /// The next key, or `None` when the walk is over.
    pub fn next(&mut self) -> (r: Option<i32>)
        requires
            old(self).wf(),
        ensures
            final(self).wf(),
            final(self).map_len() == old(self).map_len(),
            match r {
                Some(key) => old(self).remaining().len() > 0 && old(self).remaining()[0] == key
                    && final(self).remaining() == old(self).remaining().drop_first(),
                None => old(self).remaining().len() == 0 && final(self).remaining().len() == 0,
            },
    {
        match self.entries.next() {
            Some(entry) => {
                assert(self.remaining() =~= old(self).remaining().drop_first());
                Some(entry.0)
            },
            None => None,
        }
    }

    /// The bounds on how many keys are still to come: none at least, and at most as
    /// many as the map has.
    pub fn size_hint(&self) -> (r: (usize, Option<usize>))
        requires
            self.wf(),
        ensures
            r == (0usize, Some(self.map_len() as usize)),
    {
        self.entries.size_hint()
    }
}

/// A walk over the values of a map in the order in which they stand in the table.
pub struct IntHashMapValues<'a, V> {
    entries: IntHashMapIter<'a, V>,
}

impl<'a, V: Clone + Default> IntHashMapValues<'a, V> {
    /// Whether the walk is over a well-formed map.
    pub closed spec fn wf(&self) -> bool {
        self.entries.wf()
    }

    /// The values that the walk has still to give, in order.
    pub closed spec fn remaining(&self) -> Seq<V> {
        self.entries.remaining().map_values(|e: (i32, V)| e.1)
    }

    /// The number of entries of the map that is walked.
    pub closed spec fn map_len(&self) -> nat {
        self.entries.map_len()
    }

    /// The next value, or `None` when the walk is over.
    pub fn next(&mut self) -> (r: Option<&'a V>)
        requires
            old(self).wf(),
        ensures
            final(self).wf(),
            final(self).map_len() == old(self).map_len(),
            match r {
                Some(value) => old(self).remaining().len() > 0 && old(self).remaining()[0]
                    == *value && final(self).remaining() == old(self).remaining().drop_first(),
                None => old(self).remaining().len() == 0 && final(self).remaining().len() == 0,
            },
    {
        match self.entries.next() {
            Some(entry) => {
                assert(self.remaining() =~= old(self).remaining().drop_first());
                Some(entry.1)
            },
            None => None,
        }
    }

    /// The bounds on how many values are still to come: none at least, and at most
    /// as many as the map has.
    pub fn size_hint(&self) -> (r: (usize, Option<usize>))
        requires
            self.wf(),
        ensures
            r == (0usize, Some(self.map_len() as usize)),
    {
        self.entries.size_hint()
    }
}

impl<V: Clone + Default> IntHashMap<V> {
    /// A walk over the entries in the order in which they stand in the table.
    pub fn iter(&self) -> (walk: IntHashMapIter<'_, V>)
        requires
            self.wf(),
        ensures
            walk.wf(),
            walk.remaining() == self.entries(),
            walk.map_len() == self@.len(),
    {
        IntHashMapIter { map: self, index: 0 }
    }

    /// A walk over the keys in the order in which they stand in the table.
    pub fn keys(&self) -> (walk: IntHashMapKeys<'_, V>)
        requires
            self.wf(),
        ensures
            walk.wf(),
            walk.remaining() == self.entries().map_values(|e: (i32, V)| e.0),
            walk.map_len() == self@.len(),
    {
        IntHashMapKeys { entries: self.iter() }
    }

    /// A walk over the values in the order in which they stand in the table.
    pub fn values(&self) -> (walk: IntHashMapValues<'_, V>)
        requires
            self.wf(),
        ensures
            walk.wf(),
            walk.remaining() == self.entries().map_values(|e: (i32, V)| e.1),
            walk.map_len() == self@.len(),
    {
        IntHashMapValues { entries: self.iter() }
    }
}

impl<V: Clone + Default> Default for IntHashMap<V> {
    /// An empty map with the smallest capacity.
    fn default() -> (map: Self)
        ensures
            map.wf(),
            map@ == Map::<i32, V>::empty(),
            map.spec_capacity() == MIN_CAPACITY,
    {
        Self::new()
    }
}

/// A table always grows before it is full.
pub proof fn lemma_threshold_below(capacity: int)
    requires
        capacity >= 1,
    ensures
        threshold(capacity) < capacity,
        threshold(capacity) + 1 < capacity || capacity < 4,
        threshold(capacity) <= threshold(2 * capacity),
        capacity >= 2 ==> threshold(capacity) < threshold(2 * capacity),
{
}

} // verus!
