use agrona::hashing::{compound_hash, fast_int_hash, fast_long_hash, mix_hash, FastHasher};

#[test]
fn test_fast_int_hash() {
    let hash1 = fast_int_hash(42);
    let hash2 = fast_int_hash(42);
    let hash3 = fast_int_hash(43);

    assert_eq!(hash1, hash2);
    assert_ne!(hash1, hash3);
}

#[test]
fn test_fast_long_hash() {
    let hash1 = fast_long_hash(1234567890123456789);
    let hash2 = fast_long_hash(1234567890123456789);
    let hash3 = fast_long_hash(1234567890123456788);

    assert_eq!(hash1, hash2);
    assert_ne!(hash1, hash3);
}

#[test]
fn test_compound_hash() {
    let hash1 = compound_hash(1, 2);
    let hash2 = compound_hash(1, 2);
    let hash3 = compound_hash(2, 1);

    assert_eq!(hash1, hash2);
    assert_ne!(hash1, hash3);
}

#[test]
fn fast_int_hash_exact_values() {
    assert_eq!(fast_int_hash(0), 0);
    assert_eq!(fast_int_hash(1), 824515495);
    assert_eq!(fast_int_hash(-1), 539527247);
    assert_eq!(fast_int_hash(42), 4147366645);
    assert_eq!(fast_int_hash(43), 1543550320);
}

#[test]
fn fast_long_hash_exact_values() {
    assert_eq!(fast_long_hash(0), 0);
    assert_eq!(fast_long_hash(1), 269157861);
    assert_eq!(fast_long_hash(-1), 4073438587);
    assert_eq!(fast_long_hash(1234567890123456789), 3603843666);
    assert_eq!(fast_long_hash(1234567890123456788), 3759680341);
}

#[test]
fn mix_hash_exact_values() {
    assert_eq!(mix_hash(0), 0);
    assert_eq!(mix_hash(1), 1364076727);
    assert_eq!(mix_hash(0x12345678), 3816608188);
    assert_eq!(mix_hash(0xffff_ffff), 2180083513);
}

#[test]
fn compound_hash_exact_values() {
    assert_eq!(compound_hash(1, 2), 1512435602);
    assert_eq!(compound_hash(2, 1), 2674909136);
    let expected = 31u32
        .wrapping_mul(31u32.wrapping_add(fast_int_hash(7)))
        .wrapping_add(fast_int_hash(-9));
    assert_eq!(compound_hash(7, -9), expected);
}

#[test]
fn hasher_starts_at_zero() {
    assert_eq!(FastHasher::new().finish(), 0);
    assert_eq!(FastHasher::default().finish(), 0);
}

#[test]
fn hasher_folds_chunks_of_eight_bytes() {
    let mut hasher = FastHasher::new();
    hasher.write(b"hello world, this is agrona");
    assert_eq!(hasher.finish(), 9744144808);

    let mut empty = FastHasher::new();
    empty.write(b"");
    assert_eq!(empty.finish(), 0);

    let mut one = FastHasher::new();
    one.write(&[1]);
    assert_eq!(one.finish(), 269157861);

    let mut eight = FastHasher::new();
    eight.write(&[1, 2, 3, 4, 5, 6, 7, 8]);
    assert_eq!(eight.finish(), 3176208647);
}

#[test]
fn hasher_write_in_two_steps_adds_up() {
    let mut whole = FastHasher::new();
    whole.write(&[1, 2, 3, 4, 5, 6, 7, 8, 9, 10, 11, 12]);
    let mut parts = FastHasher::new();
    parts.write(&[1, 2, 3, 4, 5, 6, 7, 8]);
    parts.write(&[9, 10, 11, 12]);
    assert_eq!(whole.finish(), parts.finish());
}

#[test]
fn hasher_takes_integers() {
    let mut hasher = FastHasher::new();
    hasher.write_u8(200);
    assert_eq!(hasher.finish(), 200);
    hasher.write_u16(1000);
    assert_eq!(hasher.finish(), 1200);
    hasher.write_i8(-1);
    assert_eq!(hasher.finish(), 1200 + 255);
    hasher.write_i16(-1);
    assert_eq!(hasher.finish(), 1200 + 255 + 65535);

    let mut ints = FastHasher::new();
    ints.write_i32(42);
    assert_eq!(ints.finish(), 4147366645);
    ints.write_u32(43);
    assert_eq!(ints.finish(), 4147366645 + 1543550320);

    let mut longs = FastHasher::new();
    longs.write_i64(-1);
    assert_eq!(longs.finish(), 4073438587);
    longs.write_u64(1);
    assert_eq!(longs.finish(), 4073438587 + 269157861);
    longs.write_usize(1);
    assert_eq!(longs.finish(), 4073438587 + 2 * 269157861);
    longs.write_isize(-1);
    assert_eq!(longs.finish(), 2 * 4073438587 + 2 * 269157861);
}
