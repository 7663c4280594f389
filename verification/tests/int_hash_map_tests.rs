use agrona::collections::int_hash_map::IntHashMap;
use agrona::collections::probe::{MAX_CAPACITY, MAX_ENTRIES, MIN_CAPACITY, MISSING_VALUE};
use std::collections::HashMap;

fn collect_keys<V: Clone + Default>(map: &IntHashMap<V>) -> Vec<i32> {
    let mut walk = map.keys();
    let mut keys = Vec::new();
    while let Some(key) = walk.next() {
        keys.push(key);
    }
    keys
}

fn collect_values<V: Clone + Default>(map: &IntHashMap<V>) -> Vec<V> {
    let mut walk = map.values();
    let mut values = Vec::new();
    while let Some(value) = walk.next() {
        values.push(value.clone());
    }
    values
}

fn collect_entries<V: Clone + Default>(map: &IntHashMap<V>) -> Vec<(i32, V)> {
    let mut walk = map.iter();
    let mut entries = Vec::new();
    while let Some((key, value)) = walk.next() {
        entries.push((key, value.clone()));
    }
    entries
}

#[test]
fn int_hash_map_test_basic_operations() {
    let mut map = IntHashMap::new();

    assert_eq!(map.len(), 0);
    assert!(map.is_empty());

    assert_eq!(map.insert(1, "one".to_string()), None);
    assert_eq!(map.insert(2, "two".to_string()), None);
    assert_eq!(map.len(), 2);

    assert_eq!(map.get(1), Some(&"one".to_string()));
    assert_eq!(map.get(2), Some(&"two".to_string()));
    assert_eq!(map.get(3), None);

    assert_eq!(map.insert(1, "ONE".to_string()), Some("one".to_string()));
    assert_eq!(map.len(), 2);

    assert_eq!(map.remove(1), Some("ONE".to_string()));
    assert_eq!(map.len(), 1);
    assert_eq!(map.get(1), None);
}

#[test]
fn int_hash_map_test_resize() {
    let mut map = IntHashMap::with_capacity(4);

    for i in 0..10 {
        map.insert(i, i * 2);
    }

    assert_eq!(map.len(), 10);
    for i in 0..10 {
        assert_eq!(map.get(i), Some(&(i * 2)));
    }
}

#[test]
fn test_iterators() {
    let mut map = IntHashMap::new();
    map.insert(1, 10);
    map.insert(2, 20);
    map.insert(3, 30);

    let mut keys: Vec<_> = collect_keys(&map);
    keys.sort();
    assert_eq!(keys, vec![1, 2, 3]);

    let mut values: Vec<_> = collect_values(&map);
    values.sort();
    assert_eq!(values, vec![10, 20, 30]);

    let count = collect_entries(&map).len();
    assert_eq!(count, 3);
}

#[test]
fn sequential_fill_of_a_thousand_keys() {
    let mut map = IntHashMap::new();
    for i in 0..1000 {
        assert_eq!(map.insert(i, 2 * i), None);
        assert_eq!(map.len(), (i + 1) as usize);
    }
    for i in 0..1000 {
        assert_eq!(map.get(i), Some(&(2 * i)));
    }
    assert_eq!(map.get(-1), None);
    assert_eq!(map.capacity(), 2048);
}

#[test]
fn delete_chain_keeps_the_rest_reachable() {
    let mut map = IntHashMap::with_capacity(8);
    assert_eq!(map.capacity(), 8);
    for key in [1, 9, 17, 25] {
        assert_eq!(map.insert(key, key * 100), None);
    }
    assert_eq!(map.remove(1), Some(100));
    assert_eq!(map.get(1), None);
    for key in [9, 17, 25] {
        assert_eq!(map.get(key), Some(&(key * 100)));
    }
    assert_eq!(map.len(), 3);
}

#[test]
fn delete_from_a_run_of_colliding_keys() {
    // In a table of 8 slots the keys 3, 4 and 9 all start at slot 4.
    for first in [3, 4, 9] {
        let mut map = IntHashMap::with_capacity(8);
        for key in [3, 4, 9, 25] {
            map.insert(key, -key);
        }
        assert_eq!(map.remove(first), Some(-first));
        assert_eq!(map.remove(first), None);
        for key in [3, 4, 9, 25] {
            if key == first {
                assert_eq!(map.get(key), None);
                assert!(!map.contains_key(key));
            } else {
                assert_eq!(map.get(key), Some(&-key));
                assert!(map.contains_key(key));
            }
        }
        assert_eq!(map.len(), 3);
        assert_eq!(map.capacity(), 8);
    }
}

#[test]
fn capacity_is_a_power_of_two_from_eight() {
    assert_eq!(MIN_CAPACITY, 8);
    assert_eq!(IntHashMap::<i32>::new().capacity(), 8);
    assert_eq!(IntHashMap::<i32>::default().capacity(), 8);
    assert_eq!(IntHashMap::<i32>::with_capacity(0).capacity(), 8);
    assert_eq!(IntHashMap::<i32>::with_capacity(8).capacity(), 8);
    assert_eq!(IntHashMap::<i32>::with_capacity(9).capacity(), 16);
    assert_eq!(IntHashMap::<i32>::with_capacity(1000).capacity(), 1024);
    assert_eq!(IntHashMap::<i32>::with_capacity(1024).capacity(), 1024);
    assert_eq!(IntHashMap::<i32>::with_capacity(1025).capacity(), 2048);
}

#[test]
fn limits_of_a_table() {
    assert_eq!(MAX_CAPACITY, 1 << 30);
    assert_eq!(MAX_ENTRIES as u64, (MAX_CAPACITY as u64) * 67 / 100);
    assert_eq!(MISSING_VALUE, i32::MIN);
}

#[test]
fn table_doubles_at_its_threshold() {
    // 67 in 100 of 8 slots, rounded down, is 5.
    let mut map = IntHashMap::new();
    for key in 0..5 {
        map.insert(key, key);
        assert_eq!(map.capacity(), 8);
    }
    map.insert(5, 5);
    assert_eq!(map.capacity(), 16);
    // 67 in 100 of 16 slots, rounded down, is 10.
    for key in 6..10 {
        map.insert(key, key);
        assert_eq!(map.capacity(), 16);
    }
    map.insert(10, 10);
    assert_eq!(map.capacity(), 32);
    assert_eq!(map.len(), 11);
    for key in 0..11 {
        assert_eq!(map.get(key), Some(&key));
    }
}

#[test]
fn table_doubles_at_its_threshold_even_for_a_key_that_it_holds() {
    let mut map = IntHashMap::new();
    for key in 0..5 {
        map.insert(key, key);
    }
    assert_eq!(map.capacity(), 8);
    assert_eq!(map.insert(0, 100), Some(0));
    assert_eq!(map.capacity(), 16);
    assert_eq!(map.len(), 5);
}

#[test]
fn missing_value_is_not_taken_as_a_key() {
    let mut map = IntHashMap::new();
    map.insert(7, 70);
    assert_eq!(map.insert(MISSING_VALUE, 1), None);
    assert_eq!(map.len(), 1);
    assert_eq!(map.get(MISSING_VALUE), None);
    assert!(!map.contains_key(MISSING_VALUE));
    assert_eq!(map.remove(MISSING_VALUE), None);
    assert_eq!(map.len(), 1);
    assert_eq!(map.get(7), Some(&70));
}

#[test]
fn extreme_keys_are_kept() {
    let mut map = IntHashMap::new();
    map.insert(i32::MAX, 1);
    map.insert(i32::MIN + 1, 2);
    map.insert(0, 3);
    map.insert(-1, 4);
    assert_eq!(map.get(i32::MAX), Some(&1));
    assert_eq!(map.get(i32::MIN + 1), Some(&2));
    assert_eq!(map.get(0), Some(&3));
    assert_eq!(map.get(-1), Some(&4));
    assert_eq!(map.len(), 4);
}

#[test]
fn clear_keeps_the_capacity() {
    let mut map = IntHashMap::new();
    for key in 0..100 {
        map.insert(key, key);
    }
    let capacity = map.capacity();
    assert_eq!(capacity, 256);
    map.clear();
    assert_eq!(map.len(), 0);
    assert!(map.is_empty());
    assert_eq!(map.capacity(), capacity);
    for key in 0..100 {
        assert_eq!(map.get(key), None);
    }
    assert_eq!(collect_entries(&map), vec![]);
    map.insert(5, 6);
    assert_eq!(map.get(5), Some(&6));
}

#[test]
fn get_mut_changes_the_value_in_place() {
    let mut map = IntHashMap::new();
    map.insert(1, 10);
    map.insert(2, 20);
    if let Some(value) = map.get_mut(1) {
        *value += 5;
    }
    assert_eq!(map.get(1), Some(&15));
    assert_eq!(map.get(2), Some(&20));
    assert!(map.get_mut(3).is_none());
    assert_eq!(map.len(), 2);
}

#[test]
fn walks_of_an_unchanged_map_agree() {
    let mut map = IntHashMap::new();
    for key in 0..50 {
        map.insert(key * 7 - 100, key);
    }
    let first = collect_entries(&map);
    let second = collect_entries(&map);
    assert_eq!(first, second);
    assert_eq!(first.len(), 50);
    let keys = collect_keys(&map);
    let values = collect_values(&map);
    for (i, (key, value)) in first.iter().enumerate() {
        assert_eq!(keys[i], *key);
        assert_eq!(values[i], *value);
        assert_eq!(map.get(*key), Some(value));
    }
    let mut sorted = keys.clone();
    sorted.sort();
    sorted.dedup();
    assert_eq!(sorted.len(), 50);
}

#[test]
fn walk_bounds() {
    let mut map = IntHashMap::new();
    map.insert(1, 1);
    map.insert(2, 2);
    let mut walk = map.iter();
    assert_eq!(walk.size_hint(), (0, Some(2)));
    assert!(walk.next().is_some());
    assert!(walk.next().is_some());
    assert!(walk.next().is_none());
    assert!(walk.next().is_none());
    assert_eq!(map.keys().size_hint(), (0, Some(2)));
    assert_eq!(map.values().size_hint(), (0, Some(2)));
}

#[test]
fn size_follows_inserts_and_removes() {
    let mut map = IntHashMap::new();
    let mut model: HashMap<i32, u64> = HashMap::new();
    let mut state: u64 = 0x2545_f491_4f6c_dd1d;
    for step in 0..20_000u64 {
        state ^= state << 13;
        state ^= state >> 7;
        state ^= state << 17;
        let key = (state % 257) as i32 - 128;
        if state & 0x100 == 0 {
            assert_eq!(map.insert(key, step), model.insert(key, step));
        } else {
            assert_eq!(map.remove(key), model.remove(&key));
        }
        assert_eq!(map.len(), model.len());
        assert_eq!(map.is_empty(), model.is_empty());
        if step % 500 == 0 {
            for probe in -130..130 {
                assert_eq!(map.get(probe), model.get(&probe));
                assert_eq!(map.contains_key(probe), model.contains_key(&probe));
            }
            let mut entries = collect_entries(&map);
            entries.sort();
            let mut expected: Vec<(i32, u64)> = model.iter().map(|(k, v)| (*k, *v)).collect();
            expected.sort();
            assert_eq!(entries, expected);
        }
    }
}

#[test]
fn insert_then_get_then_remove() {
    let mut map = IntHashMap::new();
    for key in [-5, 0, 5, 1 << 20, i32::MAX] {
        assert_eq!(map.insert(key, key as i64 * 3), None);
        assert_eq!(map.get(key), Some(&(key as i64 * 3)));
        assert_eq!(map.remove(key), Some(key as i64 * 3));
        assert_eq!(map.get(key), None);
    }
    assert!(map.is_empty());
}
