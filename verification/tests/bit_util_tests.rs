use agrona::bit_util::{
    align, fast_hex_digit, from_hex_digit, is_aligned, is_power_of_two, next_power_of_two,
    number_of_leading_zeros_u32, number_of_leading_zeros_u64, number_of_trailing_zeros_u32,
    number_of_trailing_zeros_u64, CACHE_LINE_LENGTH,
};

#[test]
fn test_is_power_of_two() {
    assert!(is_power_of_two(1));
    assert!(is_power_of_two(2));
    assert!(is_power_of_two(4));
    assert!(is_power_of_two(8));
    assert!(is_power_of_two(1024));
    assert!(!is_power_of_two(0));
    assert!(!is_power_of_two(3));
    assert!(!is_power_of_two(5));
    assert!(!is_power_of_two(1023));
}

#[test]
fn test_next_power_of_two() {
    assert_eq!(next_power_of_two(1), 1);
    assert_eq!(next_power_of_two(2), 2);
    assert_eq!(next_power_of_two(3), 4);
    assert_eq!(next_power_of_two(5), 8);
    assert_eq!(next_power_of_two(1023), 1024);
    assert_eq!(next_power_of_two(1024), 1024);
}

#[test]
fn test_align() {
    assert_eq!(align(1, 4), 4);
    assert_eq!(align(4, 4), 4);
    assert_eq!(align(5, 4), 8);
    assert_eq!(align(7, 8), 8);
    assert_eq!(align(9, 8), 16);
}

#[test]
fn next_power_of_two_at_the_top() {
    assert_eq!(next_power_of_two(0x4000_0001), 0x8000_0000);
    assert_eq!(next_power_of_two(0x8000_0000), 0x8000_0000);
}

#[test]
fn next_power_of_two_is_the_smallest() {
    for value in 1u32..5000 {
        let power = next_power_of_two(value);
        assert!(is_power_of_two(power as u64));
        assert!(power >= value);
        assert!(power / 2 < value);
    }
}

#[test]
fn align_rounds_up_to_a_multiple() {
    assert_eq!(align(0, 64), 0);
    assert_eq!(align(1, 1), 1);
    assert_eq!(align(65, CACHE_LINE_LENGTH), 128);
    for size in 0usize..300 {
        let rounded = align(size, 16);
        assert_eq!(rounded % 16, 0);
        assert!(rounded >= size && rounded < size + 16);
    }
}

#[test]
fn is_aligned_tells_multiples() {
    assert!(is_aligned(0, 8));
    assert!(is_aligned(64, 64));
    assert!(is_aligned(24, 8));
    assert!(!is_aligned(20, 8));
    assert!(!is_aligned(1, 2));
    assert!(is_aligned(7, 1));
}

#[test]
fn hex_digits_in_lower_case() {
    let table = b"0123456789abcdef";
    for value in 0u8..16 {
        assert_eq!(fast_hex_digit(value), table[value as usize]);
    }
    assert_eq!(fast_hex_digit(0x1f), b'f');
    assert_eq!(fast_hex_digit(0xa0), b'0');
}

#[test]
fn hex_digits_are_read_in_both_cases() {
    assert_eq!(from_hex_digit(b'0'), Ok(0));
    assert_eq!(from_hex_digit(b'9'), Ok(9));
    assert_eq!(from_hex_digit(b'a'), Ok(10));
    assert_eq!(from_hex_digit(b'f'), Ok(15));
    assert_eq!(from_hex_digit(b'A'), Ok(10));
    assert_eq!(from_hex_digit(b'F'), Ok(15));
    assert_eq!(from_hex_digit(b'g'), Err(()));
    assert_eq!(from_hex_digit(b'G'), Err(()));
    assert_eq!(from_hex_digit(b' '), Err(()));
    assert_eq!(from_hex_digit(b'/'), Err(()));
    assert_eq!(from_hex_digit(b':'), Err(()));
    for value in 0u8..16 {
        assert_eq!(from_hex_digit(fast_hex_digit(value)), Ok(value));
    }
}

#[test]
fn zero_counts() {
    assert_eq!(number_of_leading_zeros_u32(0), 32);
    assert_eq!(number_of_leading_zeros_u32(1), 31);
    assert_eq!(number_of_leading_zeros_u32(0x8000_0000), 0);
    assert_eq!(number_of_leading_zeros_u64(0), 64);
    assert_eq!(number_of_leading_zeros_u64(1), 63);
    assert_eq!(number_of_leading_zeros_u64(0x0000_0001_0000_0000), 31);
    assert_eq!(number_of_trailing_zeros_u32(0), 32);
    assert_eq!(number_of_trailing_zeros_u32(1), 0);
    assert_eq!(number_of_trailing_zeros_u32(0x8000_0000), 31);
    assert_eq!(number_of_trailing_zeros_u64(0), 64);
    assert_eq!(number_of_trailing_zeros_u64(8), 3);
    assert_eq!(number_of_trailing_zeros_u64(0x8000_0000_0000_0000), 63);
}
