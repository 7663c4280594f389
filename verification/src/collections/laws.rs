//! What holds of a map over any run of inserts and removes.

use vstd::prelude::*;
use crate::collections::probe::MISSING_VALUE;

verus! {

/// One change of a map, as the contracts of `insert` and `remove` describe it.
pub enum Operation<V> {
    Insert(i32, V),
    Remove(i32),
}

impl<V> Operation<V> {
    /// The key that the change is about.
    pub open spec fn key(self) -> i32 {
        match self {
            Operation::Insert(k, _) => k,
            Operation::Remove(k) => k,
        }
    }

    /// The entries after the change: `insert` takes every key but `MISSING_VALUE`.
    pub open spec fn apply(self, entries: Map<i32, V>) -> Map<i32, V> {
        match self {
            Operation::Insert(k, v) => if k == MISSING_VALUE {
                entries
            } else {
                entries.insert(k, v)
            },
            Operation::Remove(k) => entries.remove(k),
        }
    }
}

/// The entries of a map that was empty and has seen the changes `ops` in turn.
pub open spec fn replay<V>(ops: Seq<Operation<V>>) -> Map<i32, V>
    decreases ops.len(),
{
    if ops.len() == 0 {
        Map::empty()
    } else {
        ops.last().apply(replay(ops.drop_last()))
    }
}

/// Whether the last of `ops` that is about `key` is an insert.
pub open spec fn live<V>(ops: Seq<Operation<V>>, key: i32) -> bool {
    exists|i: int|
        0 <= i < ops.len() && #[trigger] ops[i].key() == key && ops[i] is Insert && forall|j: int|
            i < j < ops.len() ==> #[trigger] ops[j].key() != key
}

/// A value that was put under a key is found there; once the key is removed, nothing
/// is found there; and neither change touches another key.
pub proof fn lemma_insert_get_remove<V>(entries: Map<i32, V>, key: i32, value: V, other: i32)
    requires
        key != MISSING_VALUE,
        other != key,
    ensures
        Operation::Insert(key, value).apply(entries).contains_key(key),
        Operation::Insert(key, value).apply(entries)[key] == value,
        !Operation::<V>::Remove(key).apply(
            Operation::Insert(key, value).apply(entries),
        ).contains_key(key),
        Operation::Insert(key, value).apply(entries).contains_key(other) == entries.contains_key(
            other,
        ),
        entries.contains_key(other) ==> Operation::Insert(key, value).apply(entries)[other]
            == entries[other],
        Operation::<V>::Remove(key).apply(entries).contains_key(other) == entries.contains_key(
            other,
        ),
        entries.contains_key(other) ==> Operation::<V>::Remove(key).apply(entries)[other]
            == entries[other],
{
}

/// After any run of inserts and removes on an empty map, the keys of the map are the
/// keys whose last change was an insert, and the size of the map is their number.
pub proof fn lemma_replay_keys<V>(ops: Seq<Operation<V>>)
    ensures
        replay(ops).dom().finite(),
        forall|k: i32| #[trigger] replay(ops).contains_key(k) <==> k != MISSING_VALUE && live(ops, k),
        replay(ops).len() == Set::new(|k: i32| k != MISSING_VALUE && live(ops, k)).len(),
    decreases ops.len(),
{
    if ops.len() > 0 {
        let before = ops.drop_last();
        let last = ops.last();
        lemma_replay_keys(before);
        assert forall|k: i32| #[trigger]
            replay(ops).contains_key(k) <==> k != MISSING_VALUE && live(ops, k) by {
            if last.key() == k {
                if last is Insert && k != MISSING_VALUE {
                    assert(ops[ops.len() - 1].key() == k);
                }
                if live(ops, k) {
                    let i = choose|i: int|
                        0 <= i < ops.len() && #[trigger] ops[i].key() == k && ops[i] is Insert
                            && forall|j: int| i < j < ops.len() ==> #[trigger] ops[j].key() != k;
                    if i < ops.len() - 1 {
                        assert(ops[ops.len() - 1].key() == k);
                    }
                }
            } else {
                if replay(before).contains_key(k) {
                    let i = choose|i: int|
                        0 <= i < before.len() && #[trigger] before[i].key() == k && before[i] is Insert
                            && forall|j: int|
                            i < j < before.len() ==> #[trigger] before[j].key() != k;
                    assert(ops[i].key() == k && ops[i] is Insert);
                    assert forall|j: int| i < j < ops.len() implies #[trigger] ops[j].key() != k by {
                        if j < before.len() {
                            assert(before[j].key() != k);
                        }
                    }
                }
                if live(ops, k) {
                    let i = choose|i: int|
                        0 <= i < ops.len() && #[trigger] ops[i].key() == k && ops[i] is Insert
                            && forall|j: int| i < j < ops.len() ==> #[trigger] ops[j].key() != k;
                    assert(before[i].key() == k && before[i] is Insert);
                    assert forall|j: int| i < j < before.len() implies #[trigger] before[j].key()
                        != k by {
                        assert(ops[j].key() != k);
                    }
                }
            }
        }
    } else {
        assert forall|k: i32| !live(ops, k) by {}
    }
    assert(replay(ops).dom() =~= Set::new(|k: i32| k != MISSING_VALUE && live(ops, k)));
}

} // verus!
