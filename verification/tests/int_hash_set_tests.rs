use agrona::collections::int_hash_set::IntHashSet;
use agrona::collections::probe::MISSING_VALUE;
use std::collections::HashSet;

fn collect(set: &IntHashSet) -> Vec<i32> {
    let mut walk = set.iter();
    let mut members = Vec::new();
    while let Some(key) = walk.next() {
        members.push(key);
    }
    members
}

#[test]
fn int_hash_set_test_basic_operations() {
    let mut set = IntHashSet::new();

    assert_eq!(set.len(), 0);
    assert!(set.is_empty());

    assert!(set.insert(1));
    assert!(set.insert(2));
    assert_eq!(set.len(), 2);

    assert!(set.contains(1));
    assert!(set.contains(2));
    assert!(!set.contains(3));

    assert!(!set.insert(1));
    assert_eq!(set.len(), 2);

    assert!(set.remove(1));
    assert_eq!(set.len(), 1);
    assert!(!set.contains(1));
}

#[test]
fn int_hash_set_test_resize() {
    let mut set = IntHashSet::with_capacity(4);

    for i in 0..10 {
        set.insert(i);
    }

    assert_eq!(set.len(), 10);
    for i in 0..10 {
        assert!(set.contains(i));
    }
}

#[test]
fn test_iterator() {
    let mut set = IntHashSet::new();
    set.insert(1);
    set.insert(2);
    set.insert(3);

    let mut values: Vec<_> = collect(&set);
    values.sort();
    assert_eq!(values, vec![1, 2, 3]);
}

#[test]
fn set_capacity_and_growth() {
    assert_eq!(IntHashSet::new().capacity(), 8);
    assert_eq!(IntHashSet::default().capacity(), 8);
    assert_eq!(IntHashSet::with_capacity(100).capacity(), 128);
    let mut set = IntHashSet::new();
    for key in 0..5 {
        set.insert(key);
    }
    assert_eq!(set.capacity(), 8);
    set.insert(5);
    assert_eq!(set.capacity(), 16);
    for key in 0..1000 {
        set.insert(key);
    }
    assert_eq!(set.len(), 1000);
    assert_eq!(set.capacity(), 2048);
}

#[test]
fn set_does_not_take_the_missing_value() {
    let mut set = IntHashSet::new();
    assert!(!set.insert(MISSING_VALUE));
    assert_eq!(set.len(), 0);
    assert!(!set.contains(MISSING_VALUE));
    assert!(!set.remove(MISSING_VALUE));
    assert!(set.insert(i32::MIN + 1));
    assert!(set.contains(i32::MIN + 1));
}

#[test]
fn set_remove_from_a_run_of_colliding_keys() {
    for first in [3, 4, 9] {
        let mut set = IntHashSet::with_capacity(8);
        for key in [3, 4, 9, 25] {
            assert!(set.insert(key));
        }
        assert!(set.remove(first));
        assert!(!set.remove(first));
        for key in [3, 4, 9, 25] {
            assert_eq!(set.contains(key), key != first);
        }
        assert_eq!(set.len(), 3);
    }
}

#[test]
fn set_clear_keeps_the_capacity() {
    let mut set = IntHashSet::new();
    for key in 0..40 {
        set.insert(key);
    }
    let capacity = set.capacity();
    set.clear();
    assert!(set.is_empty());
    assert_eq!(set.capacity(), capacity);
    assert_eq!(collect(&set), vec![]);
    assert!(!set.contains(3));
    assert!(set.insert(3));
}

#[test]
fn set_follows_a_model() {
    let mut set = IntHashSet::new();
    let mut model: HashSet<i32> = HashSet::new();
    let mut state: u64 = 0x9e37_79b9_7f4a_7c15;
    for step in 0..20_000u64 {
        state ^= state << 13;
        state ^= state >> 7;
        state ^= state << 17;
        let key = (state % 301) as i32 - 150;
        if state & 0x200 == 0 {
            assert_eq!(set.insert(key), model.insert(key));
        } else {
            assert_eq!(set.remove(key), model.remove(&key));
        }
        assert_eq!(set.len(), model.len());
        if step % 1000 == 0 {
            let mut members = collect(&set);
            members.sort();
            let mut expected: Vec<i32> = model.iter().copied().collect();
            expected.sort();
            assert_eq!(members, expected);
            assert_eq!(set.iter().size_hint(), (0, Some(model.len())));
        }
    }
}
