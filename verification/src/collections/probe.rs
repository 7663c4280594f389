//! Tables with linear probing: where a key is searched, when a table is intact, and
//! why insertion and the compaction after a removal keep it so.

use vstd::prelude::*;
use vstd::set_lib::{
    lemma_int_range, lemma_len_subset, lemma_len_union, lemma_map_size_bound, set_int_range,
};
use crate::hashing::{spec_fast_int_hash, spec_mix_hash};

verus! {

/// The key that marks an empty slot. It cannot itself be stored.
pub const MISSING_VALUE: i32 = i32::MIN;

/// The smallest number of slots of a table.
pub const MIN_CAPACITY: usize = 8;

/// The largest number of slots of a table.
pub const MAX_CAPACITY: usize = 0x4000_0000;

/// The largest number of entries of a table: the threshold of the largest capacity.
pub const MAX_ENTRIES: usize = 719_407_022;

/// Whether `capacity` can be the number of slots of a table: a power of two from
/// `MIN_CAPACITY` to `MAX_CAPACITY`.
pub open spec fn is_capacity(capacity: int) -> bool {
    &&& MIN_CAPACITY <= capacity <= MAX_CAPACITY
    &&& (capacity as usize) & ((capacity - 1) as usize) == 0
}

/// The number of entries at which a table of `capacity` slots grows before it takes
/// another one: 67 in 100 of the capacity, rounded down.
pub open spec fn threshold(capacity: int) -> int {
    capacity * 67 / 100
}

/// The slot at which the search for `key` starts in a table whose capacity is `mask + 1`.
pub open spec fn ideal_slot(key: i32, mask: usize) -> int {
    ((spec_mix_hash(spec_fast_int_hash(key)) as usize) & mask) as int
}

/// The slot `d` steps after slot `a`, going round at the end of the table.
pub open spec fn step(a: int, d: int, capacity: int) -> int {
    if a + d < capacity {
        a + d
    } else {
        a + d - capacity
    }
}

/// The number of steps from slot `a` on to slot `b`, going round at the end of the table.
pub open spec fn dist(a: int, b: int, capacity: int) -> int {
    if b >= a {
        b - a
    } else {
        b - a + capacity
    }
}

/// Whether the `len` slots from `from` on all hold a key.
pub open spec fn run_occupied(keys: Seq<i32>, from: int, len: int) -> bool {
    forall|d: int|
        0 <= d < len ==> keys[#[trigger] step(from, d, keys.len() as int)] != MISSING_VALUE
}

/// Whether the key in slot `s` is found by a search: no slot is empty from the key's
/// ideal slot up to `s`.
pub open spec fn reachable(keys: Seq<i32>, mask: usize, s: int) -> bool {
    run_occupied(
        keys,
        ideal_slot(keys[s], mask),
        dist(ideal_slot(keys[s], mask), s, keys.len() as int),
    )
}

/// Whether every key of the table is found by a search.
pub open spec fn chains_intact(keys: Seq<i32>, mask: usize) -> bool {
    forall|s: int| 0 <= s < keys.len() && #[trigger] keys[s] != MISSING_VALUE ==> reachable(keys, mask, s)
}

/// Whether `slots` says of each key of the table where it stands, and of nothing else.
pub open spec fn indexed(keys: Seq<i32>, slots: Map<i32, int>) -> bool {
    &&& slots.dom().finite()
    &&& forall|k: i32| #[trigger]
        slots.dom().contains(k) ==> 0 <= slots[k] < keys.len() && keys[slots[k]] == k && k
            != MISSING_VALUE
    &&& forall|i: int|
        0 <= i < keys.len() && #[trigger] keys[i] != MISSING_VALUE ==> slots.dom().contains(keys[i])
            && slots[keys[i]] == i
}

/// The move test of the compaction that follows a removal. With the hole at
/// `deleted`, the entry at `current` moves into the hole exactly where its ideal slot
/// does not lie after the hole and up to `current`: where a search for it would have
/// to cross the hole.
pub open spec fn spec_should_move(deleted: int, current: int, ideal: int) -> bool {
    if deleted < current {
        ideal <= deleted || ideal > current
    } else {
        ideal <= deleted && ideal > current
    }
}

/// The move test says whether the hole lies on the way from the ideal slot to the entry.
pub proof fn lemma_should_move(deleted: int, current: int, ideal: int, capacity: int)
    requires
        0 <= deleted < capacity,
        0 <= current < capacity,
        0 <= ideal < capacity,
        deleted != current,
    ensures
        spec_should_move(deleted, current, ideal) <==> dist(ideal, current, capacity) >= dist(
            deleted,
            current,
            capacity,
        ),
{
}

/// A table with fewer entries than slots, not counting the slots in `excluded`, has an
/// empty slot outside `excluded`.
pub proof fn lemma_empty_slot(keys: Seq<i32>, slots: Map<i32, int>, excluded: Set<int>)
    requires
        indexed(keys, slots),
        excluded.finite(),
        slots.dom().len() + excluded.len() < keys.len(),
    ensures
        exists|e: int| 0 <= e < keys.len() && !excluded.contains(e) && keys[e] == MISSING_VALUE,
{
    let capacity = keys.len() as int;
    let all = set_int_range(0, capacity);
    let occupied = slots.dom().map(|k: i32| slots[k]);
    lemma_int_range(0, capacity);
    lemma_map_size_bound(slots.dom(), occupied, |k: i32| slots[k]);
    if forall|e: int| 0 <= e < capacity && !excluded.contains(e) ==> keys[e] != MISSING_VALUE {
        assert forall|i: int| all.contains(i) implies occupied.union(excluded).contains(i) by {
            if !excluded.contains(i) {
                assert(keys[i] != MISSING_VALUE);
                assert(slots.dom().contains(keys[i]) && slots[keys[i]] == i);
            }
        }
        lemma_len_union(occupied, excluded);
        lemma_len_subset(all, occupied.union(excluded));
    }
}

/// The ideal slot of a key lies within the table.
pub proof fn lemma_ideal_slot_in_table(key: i32, mask: usize)
    ensures
        0 <= ideal_slot(key, mask) <= mask,
{
    let h = spec_mix_hash(spec_fast_int_hash(key)) as usize;
    assert(h & mask <= mask) by (bit_vector);
}

/// A key put into the first empty slot that a search for it meets is found by a
/// search, and so is every other key as before.
pub proof fn lemma_insert_keeps_chains(keys: Seq<i32>, mask: usize, key: i32, index: int)
    requires
        chains_intact(keys, mask),
        keys.len() == mask + 1,
        0 <= index < keys.len(),
        keys[index] == MISSING_VALUE,
        key != MISSING_VALUE,
        run_occupied(
            keys,
            ideal_slot(key, mask),
            dist(ideal_slot(key, mask), index, keys.len() as int),
        ),
    ensures
        chains_intact(keys.update(index, key), mask),
{
    let capacity = keys.len() as int;
    let after = keys.update(index, key);
    assert forall|s: int| 0 <= s < after.len() && #[trigger] after[s] != MISSING_VALUE implies reachable(
        after,
        mask,
        s,
    ) by {
        let ideal = ideal_slot(after[s], mask);
        lemma_ideal_slot_in_table(after[s], mask);
        assert forall|d: int| 0 <= d < dist(ideal, s, capacity) implies after[#[trigger] step(
            ideal,
            d,
            capacity,
        )] != MISSING_VALUE by {
            if s == index {
                assert(keys[step(ideal, d, capacity)] != MISSING_VALUE);
            } else {
                assert(keys[s] != MISSING_VALUE);
                assert(reachable(keys, mask, s));
                assert(keys[step(ideal, d, capacity)] != MISSING_VALUE);
            }
        }
    }
}

/// A search that meets an empty slot before it meets the key has shown that the key
/// is not in the table.
pub proof fn lemma_search_ends_empty(keys: Seq<i32>, mask: usize, key: i32, index: int)
    requires
        chains_intact(keys, mask),
        keys.len() == mask + 1,
        0 <= index < keys.len(),
        keys[index] == MISSING_VALUE,
        key != MISSING_VALUE,
        forall|d: int|
            0 <= d < dist(ideal_slot(key, mask), index, keys.len() as int) ==> keys[#[trigger] step(
                ideal_slot(key, mask),
                d,
                keys.len() as int,
            )] != key,
    ensures
        forall|s: int| 0 <= s < keys.len() ==> keys[s] != key,
{
    let capacity = keys.len() as int;
    let ideal = ideal_slot(key, mask);
    lemma_ideal_slot_in_table(key, mask);
    assert forall|s: int| 0 <= s < keys.len() implies keys[s] != key by {
        if keys[s] == key {
            assert(reachable(keys, mask, s));
            let to_s = dist(ideal, s, capacity);
            let to_index = dist(ideal, index, capacity);
            if to_s > to_index {
                assert(step(ideal, to_index, capacity) == index);
            } else if to_s < to_index {
                assert(step(ideal, to_s, capacity) == s);
            }
        }
    }
}

/// Whether nothing but the hole is empty on the way from the ideal slot of the key
/// in slot `s` to `s`.
pub open spec fn nearly_reachable(keys: Seq<i32>, mask: usize, s: int, hole: int) -> bool {
    forall|d: int|
        0 <= d < dist(ideal_slot(keys[s], mask), s, keys.len() as int) && #[trigger] step(
            ideal_slot(keys[s], mask),
            d,
            keys.len() as int,
        ) != hole ==> keys[step(ideal_slot(keys[s], mask), d, keys.len() as int)] != MISSING_VALUE
}

/// The state of a table while the chain behind a removed key is compacted: `hole` is
/// empty, the slots after it and before `current` hold keys that a search finds, and
/// a search for any other key is stopped by the hole at most.
pub open spec fn compacting(keys: Seq<i32>, mask: usize, hole: int, current: int) -> bool {
    &&& 0 <= hole < keys.len()
    &&& 0 <= current < keys.len()
    &&& hole != current
    &&& keys[hole] == MISSING_VALUE
    &&& forall|s: int|
        0 <= s < keys.len() && 0 < dist(hole, s, keys.len() as int) < dist(
            hole,
            current,
            keys.len() as int,
        ) ==> #[trigger] keys[s] != MISSING_VALUE && reachable(keys, mask, s)
    &&& forall|s: int|
        0 <= s < keys.len() && #[trigger] keys[s] != MISSING_VALUE ==> nearly_reachable(
            keys,
            mask,
            s,
            hole,
        )
}

/// Emptying a slot of an intact table starts a compaction at the next slot.
pub proof fn lemma_compaction_starts(keys: Seq<i32>, mask: usize, hole: int)
    requires
        chains_intact(keys, mask),
        keys.len() == mask + 1,
        keys.len() >= 2,
        0 <= hole < keys.len(),
    ensures
        compacting(
            keys.update(hole, MISSING_VALUE),
            mask,
            hole,
            step(hole, 1, keys.len() as int),
        ),
{
    let capacity = keys.len() as int;
    let after = keys.update(hole, MISSING_VALUE);
    assert forall|s: int|
        0 <= s < after.len() && #[trigger] after[s] != MISSING_VALUE implies nearly_reachable(
        after,
        mask,
        s,
        hole,
    ) by {
        assert(keys[s] != MISSING_VALUE);
        assert(reachable(keys, mask, s));
        let ideal = ideal_slot(after[s], mask);
        assert forall|d: int|
            0 <= d < dist(ideal, s, capacity) && #[trigger] step(ideal, d, capacity)
                != hole implies after[step(ideal, d, capacity)] != MISSING_VALUE by {
            assert(keys[step(ideal, d, capacity)] != MISSING_VALUE);
        }
    }
}

/// A compaction that has come to an empty slot leaves an intact table.
pub proof fn lemma_compaction_ends(keys: Seq<i32>, mask: usize, hole: int, current: int)
    requires
        compacting(keys, mask, hole, current),
        keys.len() == mask + 1,
        keys[current] == MISSING_VALUE,
    ensures
        chains_intact(keys, mask),
{
    let capacity = keys.len() as int;
    assert forall|s: int| 0 <= s < keys.len() && #[trigger] keys[s] != MISSING_VALUE implies reachable(
        keys,
        mask,
        s,
    ) by {
        let ideal = ideal_slot(keys[s], mask);
        lemma_ideal_slot_in_table(keys[s], mask);
        assert(nearly_reachable(keys, mask, s, hole));
        if 0 < dist(hole, s, capacity) < dist(hole, current, capacity) {
        } else {
            assert forall|d: int| 0 <= d < dist(ideal, s, capacity) implies keys[#[trigger] step(
                ideal,
                d,
                capacity,
            )] != MISSING_VALUE by {
                if step(ideal, d, capacity) == hole {
                    let further = d + dist(hole, current, capacity);
                    assert(step(ideal, further, capacity) == current);
                    assert(further < dist(ideal, s, capacity));
                    assert(step(ideal, further, capacity) != hole);
                }
            }
        }
    }
}

/// An entry whose search does not cross the hole stays, and the compaction goes on
/// behind it.
pub proof fn lemma_compaction_skips(keys: Seq<i32>, mask: usize, hole: int, current: int)
    requires
        compacting(keys, mask, hole, current),
        keys.len() == mask + 1,
        keys[current] != MISSING_VALUE,
        !spec_should_move(hole, current, ideal_slot(keys[current], mask)),
        step(current, 1, keys.len() as int) != hole,
    ensures
        compacting(keys, mask, hole, step(current, 1, keys.len() as int)),
{
    let capacity = keys.len() as int;
    let next = step(current, 1, capacity);
    let ideal = ideal_slot(keys[current], mask);
    lemma_ideal_slot_in_table(keys[current], mask);
    lemma_should_move(hole, current, ideal, capacity);
    assert forall|s: int|
        0 <= s < keys.len() && 0 < dist(hole, s, capacity) < dist(
            hole,
            next,
            capacity,
        ) implies #[trigger] keys[s] != MISSING_VALUE && reachable(keys, mask, s) by {
        if s == current {
            assert forall|d: int| 0 <= d < dist(ideal, s, capacity) implies keys[#[trigger] step(
                ideal,
                d,
                capacity,
            )] != MISSING_VALUE by {
                let t = step(ideal, d, capacity);
                assert(0 < dist(hole, t, capacity) < dist(hole, current, capacity));
            }
        } else {
            assert(0 < dist(hole, s, capacity) < dist(hole, current, capacity));
        }
    }
}

/// An entry whose search crosses the hole moves into it, and the compaction goes on
/// behind the hole that it leaves.
pub proof fn lemma_compaction_moves(keys: Seq<i32>, mask: usize, hole: int, current: int)
    requires
        compacting(keys, mask, hole, current),
        keys.len() == mask + 1,
        keys.len() >= 2,
        keys[current] != MISSING_VALUE,
        spec_should_move(hole, current, ideal_slot(keys[current], mask)),
    ensures
        compacting(
            keys.update(hole, keys[current]).update(current, MISSING_VALUE),
            mask,
            current,
            step(current, 1, keys.len() as int),
        ),
{
    let capacity = keys.len() as int;
    let key = keys[current];
    let after = keys.update(hole, key).update(current, MISSING_VALUE);
    let ideal = ideal_slot(key, mask);
    lemma_ideal_slot_in_table(key, mask);
    lemma_should_move(hole, current, ideal, capacity);
    assert(nearly_reachable(keys, mask, current, hole));
    assert forall|s: int|
        0 <= s < after.len() && #[trigger] after[s] != MISSING_VALUE implies nearly_reachable(
        after,
        mask,
        s,
        current,
    ) by {
        let from = ideal_slot(after[s], mask);
        lemma_ideal_slot_in_table(after[s], mask);
        assert forall|d: int|
            0 <= d < dist(from, s, capacity) && #[trigger] step(from, d, capacity)
                != current implies after[step(from, d, capacity)] != MISSING_VALUE by {
            let t = step(from, d, capacity);
            if t != hole {
                if s == hole {
                    assert(from == ideal);
                    assert(d < dist(ideal, current, capacity));
                    assert(keys[step(ideal, d, capacity)] != MISSING_VALUE);
                } else {
                    assert(keys[s] != MISSING_VALUE);
                    assert(nearly_reachable(keys, mask, s, hole));
                    assert(keys[step(from, d, capacity)] != MISSING_VALUE);
                }
            }
        }
    }
}

} // verus!
