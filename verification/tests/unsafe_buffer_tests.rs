use agrona::buffer::byte_order::ByteOrder;
use agrona::buffer::direct_buffer::DirectBuffer;
use agrona::buffer::mutable_buffer::MutableBuffer;
use agrona::buffer::unsafe_buffer::UnsafeBuffer;
use agrona::buffer::{bounds_check, string_header, STR_HEADER_LEN};
use agrona::error::AgronaError;

fn format_error(message: &str) -> AgronaError {
    AgronaError::AsciiNumberFormat(message.to_string())
}

fn out_of_bounds(index: usize, length: usize, capacity: usize) -> AgronaError {
    AgronaError::IndexOutOfBounds { index, length, capacity }
}

#[test]
fn test_new_buffer() {
    let buffer = UnsafeBuffer::new(1024).unwrap();
    assert_eq!(buffer.capacity(), 1024);
}

#[test]
fn test_wrap_slice() {
    let mut data = vec![0u8; 64];
    let buffer = UnsafeBuffer::wrap_slice(&mut data);
    assert_eq!(buffer.capacity(), 64);
}

#[test]
fn unsafe_buffer_test_basic_operations() {
    let mut buffer = UnsafeBuffer::new(64).unwrap();

    buffer.put_u32(0, 0x12345678).unwrap();
    assert_eq!(buffer.get_u32(0).unwrap(), 0x12345678);

    buffer.put_i64(8, -12345678901234i64).unwrap();
    assert_eq!(buffer.get_i64(8).unwrap(), -12345678901234i64);

    buffer.put_u64(16, 3.141592653589793f64.to_bits()).unwrap();
    assert!(
        (f64::from_bits(buffer.get_u64(16).unwrap()) - 3.141592653589793).abs() < f64::EPSILON
    );
}

#[test]
fn test_ascii_parsing() {
    let mut buffer = UnsafeBuffer::new(64).unwrap();

    buffer.put_bytes(0, b"12345").unwrap();
    assert_eq!(buffer.parse_natural_i32_ascii(0, 5).unwrap(), 12345);

    buffer.put_bytes(10, b"-67890").unwrap();
    assert_eq!(buffer.parse_i32_ascii(10, 6).unwrap(), -67890);
}

#[test]
fn test_string_operations() {
    let mut buffer = UnsafeBuffer::new(64).unwrap();

    let test_string = "Hello, World!";
    let bytes_written = buffer.put_string_ascii(0, test_string).unwrap();
    let retrieved = buffer.get_string_ascii(0).unwrap();

    assert_eq!(retrieved, test_string);
    assert_eq!(bytes_written, test_string.len() + 4);
}

#[test]
fn test_bounds_checking() {
    let buffer = UnsafeBuffer::new(64).unwrap();

    assert!(buffer.get_u32(61).is_err());
    assert!(buffer.get_u64(57).is_err());
}

#[test]
fn test_byte_order() {
    let mut buffer = UnsafeBuffer::new(64).unwrap();

    buffer.put_u32_with_order(0, 0x12345678, ByteOrder::BigEndian).unwrap();
    buffer.put_u32_with_order(4, 0x12345678, ByteOrder::LittleEndian).unwrap();

    let big_endian_result = buffer.get_u32_with_order(0, ByteOrder::BigEndian).unwrap();
    let little_endian_result = buffer.get_u32_with_order(4, ByteOrder::LittleEndian).unwrap();

    assert_eq!(big_endian_result, 0x12345678);
    assert_eq!(little_endian_result, 0x12345678);

    let big_as_little = buffer.get_u32_with_order(0, ByteOrder::LittleEndian).unwrap();
    let little_as_big = buffer.get_u32_with_order(4, ByteOrder::BigEndian).unwrap();

    assert_ne!(big_as_little, 0x12345678);
    assert_ne!(little_as_big, 0x12345678);
}

#[test]
fn new_buffer_is_zeroed() {
    let buffer = UnsafeBuffer::new(16).unwrap();
    assert_eq!(buffer.as_slice(), &[0u8; 16]);
    assert!(!buffer.is_expandable());
}

#[test]
fn new_buffer_of_no_bytes_is_refused() {
    assert_eq!(UnsafeBuffer::new(0).err(), Some(AgronaError::InvalidCapacity { capacity: 0 }));
}

#[test]
fn new_buffer_beyond_all_memory_is_refused() {
    assert_eq!(
        UnsafeBuffer::new(usize::MAX).err(),
        Some(AgronaError::InvalidCapacity { capacity: usize::MAX })
    );
}

#[test]
fn wrapped_slice_is_written_in_place() {
    let mut data = vec![0u8; 8];
    {
        let mut buffer = UnsafeBuffer::wrap_slice(&mut data);
        buffer.put_u16(1, 0xabcd).unwrap();
        buffer.put_u8(7, 9).unwrap();
        assert_eq!(buffer.get_u8(1).unwrap(), 0xcd);
        assert_eq!(buffer.as_slice(), &[0, 0xcd, 0xab, 0, 0, 0, 0, 9]);
        buffer.as_mut_slice()[0] = 1;
    }
    assert_eq!(data, vec![1, 0xcd, 0xab, 0, 0, 0, 0, 9]);
}

#[test]
fn wrapped_slice_shows_its_bytes() {
    let mut data = vec![1u8, 2, 3, 4];
    let buffer = UnsafeBuffer::wrap_slice(&mut data);
    assert_eq!(buffer.get_u32(0).unwrap(), 0x04030201);
    assert_eq!(buffer.get_u32_with_order(0, ByteOrder::BigEndian).unwrap(), 0x01020304);
}

#[test]
fn endianness_swap() {
    let mut buffer = UnsafeBuffer::new(64).unwrap();
    buffer.put_u32_with_order(0, 0x12345678, ByteOrder::BigEndian).unwrap();
    buffer.put_u32_with_order(4, 0x12345678, ByteOrder::LittleEndian).unwrap();
    assert_eq!(buffer.get_u32_with_order(0, ByteOrder::LittleEndian).unwrap(), 0x78563412);
    assert_eq!(buffer.get_u32_with_order(4, ByteOrder::BigEndian).unwrap(), 0x78563412);
    assert_eq!(buffer.get_u32_with_order(0, ByteOrder::BigEndian).unwrap(), 0x12345678);
    assert_eq!(buffer.get_u32_with_order(4, ByteOrder::LittleEndian).unwrap(), 0x12345678);
    assert_eq!(&buffer.as_slice()[0..8], &[0x12, 0x34, 0x56, 0x78, 0x78, 0x56, 0x34, 0x12]);
}

#[test]
fn every_width_in_both_orders() {
    let mut buffer = UnsafeBuffer::new(32).unwrap();

    buffer.put_u16_with_order(0, 0x1234, ByteOrder::BigEndian).unwrap();
    assert_eq!(&buffer.as_slice()[0..2], &[0x12, 0x34]);
    assert_eq!(buffer.get_u16_with_order(0, ByteOrder::BigEndian).unwrap(), 0x1234);
    assert_eq!(buffer.get_u16_with_order(0, ByteOrder::LittleEndian).unwrap(), 0x3412);
    assert_eq!(buffer.get_u16(0).unwrap(), 0x1234u16.swap_bytes());
    buffer.put_u16(0, 0x1234).unwrap();
    assert_eq!(&buffer.as_slice()[0..2], &[0x34, 0x12]);

    buffer.put_i16_with_order(2, -2, ByteOrder::BigEndian).unwrap();
    assert_eq!(&buffer.as_slice()[2..4], &[0xff, 0xfe]);
    assert_eq!(buffer.get_i16_with_order(2, ByteOrder::BigEndian).unwrap(), -2);
    assert_eq!(buffer.get_i16(2).unwrap(), (-2i16).swap_bytes());
    buffer.put_i16(2, -2).unwrap();
    assert_eq!(buffer.get_i16(2).unwrap(), -2);

    buffer.put_i32_with_order(4, -0x01020304, ByteOrder::BigEndian).unwrap();
    assert_eq!(buffer.get_i32_with_order(4, ByteOrder::BigEndian).unwrap(), -0x01020304);
    assert_eq!(buffer.get_i32(4).unwrap(), (-0x01020304i32).swap_bytes());
    buffer.put_i32(4, i32::MIN).unwrap();
    assert_eq!(buffer.get_i32(4).unwrap(), i32::MIN);
    assert_eq!(&buffer.as_slice()[4..8], &[0, 0, 0, 0x80]);

    buffer.put_u64_with_order(8, 0x0102030405060708, ByteOrder::BigEndian).unwrap();
    assert_eq!(&buffer.as_slice()[8..16], &[1, 2, 3, 4, 5, 6, 7, 8]);
    assert_eq!(buffer.get_u64(8).unwrap(), 0x0807060504030201);
    assert_eq!(buffer.get_u64_with_order(8, ByteOrder::BigEndian).unwrap(), 0x0102030405060708);
    buffer.put_u64(8, u64::MAX).unwrap();
    assert_eq!(buffer.get_u64(8).unwrap(), u64::MAX);

    buffer.put_i64_with_order(16, -3, ByteOrder::BigEndian).unwrap();
    assert_eq!(buffer.get_i64_with_order(16, ByteOrder::BigEndian).unwrap(), -3);
    assert_eq!(buffer.get_i64(16).unwrap(), (-3i64).swap_bytes());
    buffer.put_i64(16, i64::MIN).unwrap();
    assert_eq!(buffer.get_i64(16).unwrap(), i64::MIN);

    buffer.put_u8(24, 200).unwrap();
    assert_eq!(buffer.get_u8(24).unwrap(), 200);
    assert_eq!(buffer.get_i8(24).unwrap(), -56);
    buffer.put_i8(25, -1).unwrap();
    assert_eq!(buffer.get_u8(25).unwrap(), 255);
    assert_eq!(buffer.get_i8(25).unwrap(), -1);
}

#[test]
fn last_window_succeeds_and_one_further_fails() {
    let mut buffer = UnsafeBuffer::new(64).unwrap();
    assert_eq!(buffer.put_u8(63, 1), Ok(()));
    assert_eq!(buffer.get_u8(63), Ok(1));
    assert_eq!(buffer.put_u8(64, 1), Err(out_of_bounds(64, 1, 64)));
    assert_eq!(buffer.put_u16(62, 1), Ok(()));
    assert_eq!(buffer.put_u16(63, 1), Err(out_of_bounds(63, 2, 64)));
    assert_eq!(buffer.put_u32(60, 1), Ok(()));
    assert_eq!(buffer.put_u32(61, 1), Err(out_of_bounds(61, 4, 64)));
    assert_eq!(buffer.put_u64(56, 1), Ok(()));
    assert_eq!(buffer.put_u64(57, 1), Err(out_of_bounds(57, 8, 64)));
    assert_eq!(buffer.put_i16(63, 1), Err(out_of_bounds(63, 2, 64)));
    assert_eq!(buffer.put_i32(61, 1), Err(out_of_bounds(61, 4, 64)));
    assert_eq!(buffer.put_i64(57, 1), Err(out_of_bounds(57, 8, 64)));
    assert_eq!(buffer.put_i8(64, 1), Err(out_of_bounds(64, 1, 64)));
    assert_eq!(buffer.get_u8(56), Ok(1));
    assert_eq!(buffer.get_u8(64), Err(out_of_bounds(64, 1, 64)));
    assert_eq!(buffer.get_i8(64), Err(out_of_bounds(64, 1, 64)));
    assert!(buffer.get_u16(62).is_ok());
    assert_eq!(buffer.get_u16(63), Err(out_of_bounds(63, 2, 64)));
    assert_eq!(buffer.get_i16(63), Err(out_of_bounds(63, 2, 64)));
    assert!(buffer.get_u32(60).is_ok());
    assert_eq!(buffer.get_u32(61), Err(out_of_bounds(61, 4, 64)));
    assert_eq!(buffer.get_i32(61), Err(out_of_bounds(61, 4, 64)));
    assert!(buffer.get_u64(56).is_ok());
    assert_eq!(buffer.get_u64(57), Err(out_of_bounds(57, 8, 64)));
    assert_eq!(buffer.get_i64(57), Err(out_of_bounds(57, 8, 64)));
    assert_eq!(buffer.get_u32(usize::MAX), Err(out_of_bounds(usize::MAX, 4, 64)));
    assert_eq!(buffer.put_u32(usize::MAX, 1), Err(out_of_bounds(usize::MAX, 4, 64)));
}

#[test]
fn limit_and_bounds_checks() {
    let buffer = UnsafeBuffer::new(64).unwrap();
    assert_eq!(buffer.check_limit(64), Ok(()));
    assert_eq!(buffer.check_limit(65), Err(out_of_bounds(0, 65, 64)));
    assert_eq!(buffer.bounds_check(60, 4), Ok(()));
    assert_eq!(buffer.bounds_check(61, 4), Err(out_of_bounds(61, 4, 64)));
    assert_eq!(buffer.bounds_check(usize::MAX, 2), Err(out_of_bounds(usize::MAX, 2, 64)));
    assert_eq!(bounds_check(0, 0, 0), Ok(()));
    assert_eq!(bounds_check(1, 0, 0), Err(out_of_bounds(1, 0, 0)));
    assert_eq!(bounds_check(3, 5, 8), Ok(()));
    assert_eq!(bounds_check(4, 5, 8), Err(out_of_bounds(4, 5, 8)));
    assert_eq!(STR_HEADER_LEN, 4);
}

#[test]
fn bulk_copies() {
    let mut buffer = UnsafeBuffer::new(16).unwrap();
    buffer.put_bytes(3, &[1, 2, 3, 4, 5]).unwrap();
    assert_eq!(buffer.as_slice(), &[0, 0, 0, 1, 2, 3, 4, 5, 0, 0, 0, 0, 0, 0, 0, 0]);

    let mut dst = [9u8; 4];
    buffer.get_bytes(4, &mut dst).unwrap();
    assert_eq!(dst, [2, 3, 4, 5]);

    let mut wide = [9u8; 6];
    buffer.get_bytes_into(3, &mut wide, 1, 3).unwrap();
    assert_eq!(wide, [9, 1, 2, 3, 9, 9]);
    assert_eq!(buffer.get_bytes_into(3, &mut wide, 4, 3), Err(out_of_bounds(4, 3, 6)));
    assert_eq!(buffer.get_bytes_into(14, &mut wide, 0, 3), Err(out_of_bounds(14, 3, 16)));
    assert_eq!(wide, [9, 1, 2, 3, 9, 9]);

    buffer.put_bytes_from(10, &[7, 8, 9, 10], 1, 2).unwrap();
    assert_eq!(&buffer.as_slice()[9..13], &[0, 8, 9, 0]);
    assert_eq!(buffer.put_bytes_from(10, &[7, 8, 9, 10], 3, 2), Err(out_of_bounds(3, 2, 4)));
    assert_eq!(buffer.put_bytes_from(15, &[7, 8, 9, 10], 0, 2), Err(out_of_bounds(15, 2, 16)));

    assert_eq!(buffer.put_bytes(12, &[1, 2, 3, 4, 5]), Err(out_of_bounds(12, 5, 16)));
    let mut big = [0u8; 17];
    assert_eq!(buffer.get_bytes(0, &mut big), Err(out_of_bounds(0, 17, 16)));
    buffer.put_bytes(16, &[]).unwrap();
    assert_eq!(buffer.put_bytes(17, &[]), Err(out_of_bounds(17, 0, 16)));
}

#[test]
fn set_memory_fills_a_window() {
    let mut buffer = UnsafeBuffer::new(8).unwrap();
    buffer.set_memory(2, 3, 0xab).unwrap();
    assert_eq!(buffer.as_slice(), &[0, 0, 0xab, 0xab, 0xab, 0, 0, 0]);
    buffer.set_memory(8, 0, 1).unwrap();
    assert_eq!(buffer.set_memory(6, 3, 1), Err(out_of_bounds(6, 3, 8)));
    assert_eq!(buffer.as_slice(), &[0, 0, 0xab, 0xab, 0xab, 0, 0, 0]);
}

#[test]
fn ascii_codec_round_trip() {
    for v in [-2147483648, -1, 0, 1, 2147483647] {
        let mut buffer = UnsafeBuffer::new(16).unwrap();
        let length = buffer.put_i32_ascii(0, v).unwrap();
        assert_eq!(buffer.parse_i32_ascii(0, length).unwrap(), v);
        assert_eq!(&buffer.as_slice()[..length], v.to_string().as_bytes());
    }
}

#[test]
fn ascii_codec_round_trip_of_longs() {
    for v in [i64::MIN, -1, 0, 1, 1234567890123, i64::MAX] {
        let mut buffer = UnsafeBuffer::new(32).unwrap();
        let length = buffer.put_i64_ascii(3, v).unwrap();
        assert_eq!(length, v.to_string().len());
        assert_eq!(&buffer.as_slice()[3..3 + length], v.to_string().as_bytes());
        assert_eq!(buffer.parse_i64_ascii(3, length).unwrap(), v);
    }
    for v in [0, 7, 4000000000, i64::MAX] {
        let mut buffer = UnsafeBuffer::new(32).unwrap();
        let length = buffer.put_natural_i64_ascii(1, v).unwrap();
        assert_eq!(&buffer.as_slice()[1..1 + length], v.to_string().as_bytes());
        assert_eq!(buffer.parse_natural_i64_ascii(1, length).unwrap(), v);
        assert_eq!(buffer.parse_i64_ascii(1, length).unwrap(), v);
    }
    for v in [0, 9, 10, 99, 100, 2147483647] {
        let mut buffer = UnsafeBuffer::new(32).unwrap();
        let length = buffer.put_natural_i32_ascii(1, v).unwrap();
        assert_eq!(&buffer.as_slice()[1..1 + length], v.to_string().as_bytes());
        assert_eq!(buffer.parse_natural_i32_ascii(1, length).unwrap(), v);
    }
}

#[test]
fn zero_is_written_as_one_digit() {
    let mut buffer = UnsafeBuffer::new(4).unwrap();
    assert_eq!(buffer.put_i32_ascii(1, 0), Ok(1));
    assert_eq!(buffer.as_slice(), &[0, b'0', 0, 0]);
    assert_eq!(buffer.put_i64_ascii(2, 0), Ok(1));
    assert_eq!(buffer.put_natural_i32_ascii(3, 0), Ok(1));
    assert_eq!(buffer.as_slice(), &[0, b'0', b'0', b'0']);
}

#[test]
fn smallest_number_is_written_and_read() {
    let mut buffer = UnsafeBuffer::new(32).unwrap();
    assert_eq!(buffer.put_i32_ascii(0, i32::MIN), Ok(11));
    assert_eq!(&buffer.as_slice()[..11], b"-2147483648");
    assert_eq!(buffer.parse_i32_ascii(0, 11), Ok(i32::MIN));
    assert_eq!(buffer.put_i64_ascii(0, i64::MIN), Ok(20));
    assert_eq!(&buffer.as_slice()[..20], b"-9223372036854775808");
    assert_eq!(buffer.parse_i64_ascii(0, 20), Ok(i64::MIN));
}

#[test]
fn numbers_that_do_not_fit_are_refused_with_nothing_written() {
    let mut buffer = UnsafeBuffer::new(4).unwrap();
    assert_eq!(buffer.put_i32_ascii(0, 12345), Err(out_of_bounds(0, 5, 4)));
    assert_eq!(buffer.put_i32_ascii(2, -12), Err(out_of_bounds(2, 3, 4)));
    assert_eq!(buffer.put_i64_ascii(1, -123), Err(out_of_bounds(1, 4, 4)));
    assert_eq!(buffer.put_natural_i32_ascii(3, 10), Err(out_of_bounds(3, 2, 4)));
    assert_eq!(buffer.put_natural_i64_ascii(5, 1), Err(out_of_bounds(5, 1, 4)));
    assert_eq!(buffer.as_slice(), &[0, 0, 0, 0]);
    assert_eq!(buffer.put_i32_ascii(1, -12), Ok(3));
    assert_eq!(buffer.as_slice(), &[0, b'-', b'1', b'2']);
}

#[test]
fn natural_writers_refuse_negative_numbers() {
    let mut buffer = UnsafeBuffer::new(16).unwrap();
    let negative = format_error("Negative value for natural number");
    assert_eq!(buffer.put_natural_i32_ascii(0, -1), Err(negative.clone()));
    assert_eq!(buffer.put_natural_i32_ascii(0, i32::MIN), Err(negative.clone()));
    assert_eq!(buffer.put_natural_i64_ascii(0, -1), Err(negative.clone()));
    assert_eq!(buffer.put_natural_padded_i32_ascii(0, 5, -1), Err(negative.clone()));
    assert_eq!(buffer.put_natural_i32_ascii_from_end(-1, 5), Err(negative.clone()));
    assert_eq!(buffer.put_natural_i32_ascii(100, -1), Err(negative));
    assert_eq!(buffer.as_slice(), &[0u8; 16]);
}

#[test]
fn padded_numbers() {
    let mut buffer = UnsafeBuffer::new(8).unwrap();
    assert_eq!(buffer.put_natural_padded_i32_ascii(1, 5, 42), Ok(()));
    assert_eq!(buffer.as_slice(), &[0, b'0', b'0', b'0', b'4', b'2', 0, 0]);
    assert_eq!(buffer.parse_natural_i32_ascii(1, 5), Ok(42));
    assert_eq!(buffer.put_natural_padded_i32_ascii(0, 3, 123), Ok(()));
    assert_eq!(&buffer.as_slice()[..3], b"123");
    assert_eq!(buffer.put_natural_padded_i32_ascii(0, 2, 0), Ok(()));
    assert_eq!(&buffer.as_slice()[..3], b"003");

    let too_large = format_error("Number too large for specified length");
    assert_eq!(buffer.put_natural_padded_i32_ascii(0, 2, 123), Err(too_large.clone()));
    assert_eq!(buffer.put_natural_padded_i32_ascii(0, 0, 0), Err(too_large.clone()));
    assert_eq!(buffer.put_natural_padded_i32_ascii(100, 2, 123), Err(too_large));
    assert_eq!(buffer.put_natural_padded_i32_ascii(6, 3, 1), Err(out_of_bounds(6, 3, 8)));
    assert_eq!(&buffer.as_slice()[..3], b"003");
}

#[test]
fn numbers_written_from_the_end() {
    let mut buffer = UnsafeBuffer::new(8).unwrap();
    assert_eq!(buffer.put_natural_i32_ascii_from_end(123, 5), Ok(2));
    assert_eq!(buffer.as_slice(), &[0, 0, b'1', b'2', b'3', 0, 0, 0]);
    assert_eq!(buffer.put_natural_i32_ascii_from_end(0, 8), Ok(7));
    assert_eq!(buffer.as_slice()[7], b'0');
    assert_eq!(buffer.put_natural_i32_ascii_from_end(45, 2), Ok(0));
    assert_eq!(&buffer.as_slice()[..2], b"45");
}

#[test]
fn number_written_from_the_end_that_does_not_fit_leaves_its_last_digits() {
    let mut buffer = UnsafeBuffer::new(8).unwrap();
    assert_eq!(buffer.put_natural_i32_ascii_from_end(12345, 3), Err(out_of_bounds(0, 1, 8)));
    assert_eq!(buffer.as_slice(), &[b'3', b'4', b'5', 0, 0, 0, 0, 0]);
    assert_eq!(buffer.put_natural_i32_ascii_from_end(7, 0), Err(out_of_bounds(0, 1, 8)));
    assert_eq!(buffer.as_slice(), &[b'3', b'4', b'5', 0, 0, 0, 0, 0]);
}

#[test]
fn number_written_from_an_end_beyond_the_buffer_is_refused() {
    let mut buffer = UnsafeBuffer::new(8).unwrap();
    assert_eq!(buffer.put_natural_i32_ascii_from_end(7, 9), Err(out_of_bounds(8, 1, 8)));
    assert_eq!(buffer.put_natural_i32_ascii_from_end(7, 20), Err(out_of_bounds(19, 1, 8)));
    assert_eq!(buffer.as_slice(), &[0u8; 8]);
}

#[test]
fn parsing_refuses_what_is_no_number() {
    let mut buffer = UnsafeBuffer::new(32).unwrap();
    buffer.put_bytes(0, b"12a4 -x - 99999999999").unwrap();

    assert_eq!(buffer.parse_natural_i32_ascii(0, 0), Err(format_error("Empty string")));
    assert_eq!(buffer.parse_natural_i64_ascii(0, 0), Err(format_error("Empty string")));
    assert_eq!(buffer.parse_i32_ascii(0, 0), Err(format_error("Empty string")));
    assert_eq!(buffer.parse_i64_ascii(0, 0), Err(format_error("Empty string")));

    assert_eq!(buffer.parse_natural_i32_ascii(0, 4), Err(format_error("Invalid digit: a")));
    assert_eq!(buffer.parse_natural_i64_ascii(0, 4), Err(format_error("Invalid digit: a")));
    assert_eq!(buffer.parse_i32_ascii(0, 4), Err(format_error("Invalid digit: a")));
    assert_eq!(buffer.parse_i64_ascii(0, 5), Err(format_error("Invalid digit: a")));
    assert_eq!(buffer.parse_natural_i32_ascii(5, 1), Err(format_error("Invalid digit: -")));
    assert_eq!(buffer.parse_i32_ascii(5, 2), Err(format_error("Invalid digit: x")));
    assert_eq!(buffer.parse_i64_ascii(8, 2), Err(format_error("Invalid digit:  ")));

    assert_eq!(buffer.parse_i32_ascii(5, 1), Err(format_error("No digits found")));
    assert_eq!(buffer.parse_i64_ascii(8, 1), Err(format_error("No digits found")));

    assert_eq!(buffer.parse_natural_i32_ascii(10, 11), Err(format_error("Number overflow")));
    assert_eq!(buffer.parse_i32_ascii(10, 11), Err(format_error("Number overflow")));
    assert_eq!(buffer.parse_natural_i64_ascii(10, 11), Ok(99999999999));
    assert_eq!(buffer.parse_natural_i32_ascii(0, 2), Ok(12));

    assert_eq!(buffer.parse_i32_ascii(30, 3), Err(out_of_bounds(30, 3, 32)));
    assert_eq!(buffer.parse_i64_ascii(30, 3), Err(out_of_bounds(30, 3, 32)));
    assert_eq!(buffer.parse_natural_i32_ascii(33, 0), Err(out_of_bounds(33, 0, 32)));
    assert_eq!(buffer.parse_natural_i64_ascii(0, 33), Err(out_of_bounds(0, 33, 32)));
}

#[test]
fn parsing_at_the_limits() {
    let mut buffer = UnsafeBuffer::new(64).unwrap();
    buffer.put_bytes(0, b"2147483647 2147483648 -2147483648 -2147483649").unwrap();
    assert_eq!(buffer.parse_natural_i32_ascii(0, 10), Ok(i32::MAX));
    assert_eq!(buffer.parse_i32_ascii(0, 10), Ok(i32::MAX));
    assert_eq!(buffer.parse_natural_i32_ascii(11, 10), Err(format_error("Number overflow")));
    assert_eq!(buffer.parse_i32_ascii(11, 10), Err(format_error("Number overflow")));
    assert_eq!(buffer.parse_i32_ascii(22, 11), Ok(i32::MIN));
    assert_eq!(buffer.parse_i32_ascii(34, 11), Err(format_error("Number overflow")));

    buffer.put_bytes(0, b"9223372036854775807 9223372036854775808X").unwrap();
    assert_eq!(buffer.parse_natural_i64_ascii(0, 19), Ok(i64::MAX));
    assert_eq!(buffer.parse_natural_i64_ascii(20, 19), Err(format_error("Number overflow")));
    assert_eq!(buffer.parse_natural_i64_ascii(20, 20), Err(format_error("Number overflow")));
    buffer.put_bytes(0, b"-9223372036854775808 -9223372036854775809").unwrap();
    assert_eq!(buffer.parse_i64_ascii(0, 20), Ok(i64::MIN));
    assert_eq!(buffer.parse_i64_ascii(21, 20), Err(format_error("Number overflow")));

    buffer.put_bytes(0, b"0000000000000000000000000000012").unwrap();
    assert_eq!(buffer.parse_natural_i32_ascii(0, 31), Ok(12));
    assert_eq!(buffer.parse_i64_ascii(0, 31), Ok(12));
    buffer.put_bytes(0, b"-0").unwrap();
    assert_eq!(buffer.parse_i32_ascii(0, 2), Ok(0));
    buffer.put_bytes(0, b"12x").unwrap();
    assert_eq!(buffer.parse_natural_i32_ascii(0, 3), Err(format_error("Invalid digit: x")));
    buffer.put_bytes(0, &[b'1', 0xe9]).unwrap();
    assert_eq!(
        buffer.parse_natural_i32_ascii(0, 2),
        Err(format_error("Invalid digit: \u{e9}"))
    );
}

#[test]
fn string_with_header() {
    let mut buffer = UnsafeBuffer::new(64).unwrap();
    let s = "Hello, World!";
    assert_eq!(buffer.put_string_ascii(0, s), Ok(17));
    assert_eq!(&buffer.as_slice()[0..4], &[0x0d, 0x00, 0x00, 0x00]);
    assert_eq!(&buffer.as_slice()[4..17], s.as_bytes());
    assert_eq!(buffer.get_string_ascii(0).unwrap(), s);
    assert_eq!(buffer.get_u32(0), Ok(13));
    assert_eq!(buffer.get_string_ascii_with_length(4, 13).unwrap(), s);
    assert_eq!(buffer.get_string_utf8(0).unwrap(), s);
}

#[test]
fn strings_without_header() {
    let mut buffer = UnsafeBuffer::new(16).unwrap();
    assert_eq!(buffer.put_string_ascii_without_length(2, "abc"), Ok(3));
    assert_eq!(&buffer.as_slice()[..6], &[0, 0, b'a', b'b', b'c', 0]);
    assert_eq!(buffer.put_string_ascii_without_length_range(8, "hello", 1, 3), Ok(3));
    assert_eq!(&buffer.as_slice()[8..12], &[b'e', b'l', b'l', 0]);
    assert_eq!(buffer.get_string_ascii_with_length(8, 3).unwrap(), "ell");
    assert_eq!(buffer.get_string_ascii_with_length(8, 0).unwrap(), "");
    assert_eq!(
        buffer.put_string_ascii_without_length_range(8, "hello", 3, 3),
        Err(out_of_bounds(3, 3, 5))
    );
    assert_eq!(
        buffer.put_string_ascii_without_length(14, "abc"),
        Err(out_of_bounds(14, 3, 16))
    );
    assert_eq!(buffer.put_string_utf8_without_length(12, "h\u{e9}"), Ok(3));
    assert_eq!(&buffer.as_slice()[12..15], &[b'h', 0xc3, 0xa9]);
    assert_eq!(
        buffer.put_string_utf8_without_length(15, "h\u{e9}"),
        Err(out_of_bounds(15, 3, 16))
    );
}

#[test]
fn ascii_strings_refuse_other_bytes() {
    let mut buffer = UnsafeBuffer::new(32).unwrap();
    let non_ascii = format_error("Non-ASCII character found");
    assert_eq!(buffer.put_string_ascii(0, "caf\u{e9}"), Err(non_ascii.clone()));
    assert_eq!(buffer.put_string_ascii_without_length(0, "caf\u{e9}"), Err(non_ascii.clone()));
    assert_eq!(
        buffer.put_string_ascii_without_length_range(0, "caf\u{e9}", 3, 2),
        Err(non_ascii.clone())
    );
    assert_eq!(buffer.put_string_ascii_without_length_range(0, "caf\u{e9}", 0, 3), Ok(3));
    assert_eq!(buffer.put_string_ascii(100, "caf\u{e9}"), Err(out_of_bounds(100, 4, 32)));
    assert_eq!(&buffer.as_slice()[..4], &[b'c', b'a', b'f', 0]);

    buffer.put_bytes(8, &[b'a', 0x80, b'b']).unwrap();
    assert_eq!(buffer.get_string_ascii_with_length(8, 3), Err(non_ascii.clone()));
    assert_eq!(buffer.get_string_ascii_with_length(8, 1).unwrap(), "a");
    buffer.put_u32(4, 3).unwrap();
    assert_eq!(buffer.get_string_ascii(4), Err(non_ascii));
    assert_eq!(buffer.get_string_ascii_with_length(30, 3), Err(out_of_bounds(30, 3, 32)));
}

#[test]
fn strings_that_do_not_fit_are_refused_with_nothing_written() {
    let mut buffer = UnsafeBuffer::new(8).unwrap();
    assert_eq!(buffer.put_string_ascii(0, "hello"), Err(out_of_bounds(4, 5, 8)));
    assert_eq!(buffer.put_string_utf8(0, "hello"), Err(out_of_bounds(4, 5, 8)));
    assert_eq!(buffer.put_string_ascii(5, "h"), Err(out_of_bounds(5, 4, 8)));
    assert_eq!(buffer.put_string_utf8(5, "h"), Err(out_of_bounds(5, 4, 8)));
    assert_eq!(buffer.as_slice(), &[0u8; 8]);
    assert_eq!(buffer.put_string_ascii(0, "hell"), Ok(8));
    assert_eq!(buffer.as_slice(), &[4, 0, 0, 0, b'h', b'e', b'l', b'l']);
    assert_eq!(buffer.put_string_ascii(4, ""), Ok(4));
    assert_eq!(buffer.get_string_ascii(4).unwrap(), "");
}

#[test]
fn header_that_points_beyond_the_buffer() {
    let mut buffer = UnsafeBuffer::new(8).unwrap();
    buffer.put_u32(0, 5).unwrap();
    assert_eq!(buffer.get_string_ascii(0), Err(out_of_bounds(4, 5, 8)));
    assert_eq!(buffer.get_string_utf8(0), Err(out_of_bounds(4, 5, 8)));
    assert_eq!(buffer.get_string_ascii(5), Err(out_of_bounds(5, 4, 8)));
    assert_eq!(buffer.get_string_utf8(5), Err(out_of_bounds(5, 4, 8)));
    buffer.put_u32(0, u32::MAX).unwrap();
    assert_eq!(buffer.get_string_ascii(0), Err(out_of_bounds(4, u32::MAX as usize, 8)));
}

#[test]
fn utf8_strings() {
    let mut buffer = UnsafeBuffer::new(64).unwrap();
    let s = "gr\u{fc}\u{df} dich, \u{4e16}\u{754c}";
    assert_eq!(buffer.put_string_utf8(2, s), Ok(4 + s.len()));
    assert_eq!(buffer.get_u32(2), Ok(s.len() as u32));
    assert_eq!(&buffer.as_slice()[6..6 + s.len()], s.as_bytes());
    assert_eq!(buffer.get_string_utf8(2).unwrap(), s);
    assert_eq!(buffer.get_string_utf8_with_length(6, s.len()).unwrap(), s);
    assert_eq!(buffer.get_string_utf8_with_length(60, 5), Err(out_of_bounds(60, 5, 64)));
}

#[test]
fn invalid_utf8_is_refused() {
    let mut buffer = UnsafeBuffer::new(16).unwrap();
    buffer.put_bytes(0, &[b'a', 0xff, b'b']).unwrap();
    assert!(matches!(buffer.get_string_utf8_with_length(0, 3), Err(AgronaError::Utf8Error(_))));
    buffer.put_bytes(4, &[0xc3]).unwrap();
    assert!(matches!(buffer.get_string_utf8_with_length(4, 1), Err(AgronaError::Utf8Error(_))));
    buffer.put_u32(8, 1).unwrap();
    buffer.put_u8(12, 0x80).unwrap();
    assert!(matches!(buffer.get_string_utf8(8), Err(AgronaError::Utf8Error(_))));
    assert_eq!(buffer.get_string_utf8_with_length(0, 1).unwrap(), "a");
}

#[test]
fn buffers_are_equal_by_their_bytes() {
    let mut a = UnsafeBuffer::new(4).unwrap();
    let mut b = UnsafeBuffer::new(4).unwrap();
    let c = UnsafeBuffer::new(5).unwrap();
    assert!(a == b);
    assert!(a != c);
    a.put_u8(3, 1).unwrap();
    assert!(a != b);
    b.put_u8(3, 1).unwrap();
    assert!(a == b);
    let mut data = vec![0, 0, 0, 1];
    let wrapped = UnsafeBuffer::wrap_slice(&mut data);
    assert!(a == wrapped);
}

#[test]
fn buffers_are_ordered_like_a_dictionary() {
    let mut a = UnsafeBuffer::new(4).unwrap();
    let mut b = UnsafeBuffer::new(4).unwrap();
    let longer = UnsafeBuffer::new(5).unwrap();
    assert_eq!(a.partial_cmp(&b), Some(std::cmp::Ordering::Equal));
    a.put_u8(1, 2).unwrap();
    b.put_u8(1, 3).unwrap();
    assert!(a < b);
    assert!(b > a);
    assert!(a <= b);
    b.put_u8(0, 0).unwrap();
    a.put_u8(0, 1).unwrap();
    assert!(a > b);
    let zeros = UnsafeBuffer::new(4).unwrap();
    assert!(zeros < longer);
    assert!(longer > zeros);
    assert!(a > longer);
}

#[test]
fn buffers_hash_by_their_bytes() {
    let text = b"hello world, this is agrona";
    let mut buffer = UnsafeBuffer::new(text.len()).unwrap();
    buffer.put_bytes(0, text).unwrap();
    assert_eq!(buffer.hash_code(), 9744144808);
    let mut data = text.to_vec();
    let wrapped = UnsafeBuffer::wrap_slice(&mut data);
    assert_eq!(wrapped.hash_code(), buffer.hash_code());
    assert_eq!(UnsafeBuffer::new(1).unwrap().hash_code(), 0);
    buffer.put_u8(0, b'j').unwrap();
    assert_ne!(buffer.hash_code(), 9744144808);
}

#[test]
fn string_length_has_to_fit_its_header() {
    assert_eq!(string_header(0), Ok(0));
    assert_eq!(string_header(13), Ok(13));
    if usize::BITS > 32 {
        let limit = u32::MAX as usize;
        assert_eq!(string_header(limit), Ok(u32::MAX));
        let beyond = limit.wrapping_add(1);
        assert_eq!(
            string_header(beyond),
            Err(AgronaError::BufferOverflow { attempted: beyond, available: limit })
        );
        assert_eq!(
            string_header(usize::MAX),
            Err(AgronaError::BufferOverflow { attempted: usize::MAX, available: limit })
        );
    }
}
