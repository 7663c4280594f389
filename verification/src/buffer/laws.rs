//! What holds of the accessors of a buffer together: what was written is read back.

use vstd::prelude::*;
use vstd::string::StringSliceAdditionalSpecFns;
use vstd::utf8::{decode_utf8, valid_utf8};
use crate::buffer::ascii::{
    ascii_chars, decimal_digits, decimal_value, is_ascii_bytes, is_digit, lemma_decimal_digits,
    lemma_digit_run_is, magnitude_outcome, natural_outcome, padded_digits, signed_digits,
    signed_outcome,
};
use crate::buffer::byte_order::{le_bytes, radix, splice, swap_bytes, ByteOrder};
use crate::buffer::byte_order_laws::{
    lemma_bytes_len, lemma_orders_swap, lemma_radix_values, lemma_value_of_bytes,
};
use crate::buffer::model::{
    fits, load, load_headed, load_natural, load_signed, store, store_headed, store_natural,
    store_padded, window,
};

verus! {

/// A window that was just written holds what was written, and the region is as long
/// as before.
pub proof fn lemma_window_of_splice(region: Seq<u8>, index: usize, text: Seq<u8>)
    requires
        index + text.len() <= region.len(),
        text.len() <= usize::MAX,
    ensures
        splice(region, index as int, text).len() == region.len(),
        window(splice(region, index as int, text), index, text.len() as usize) == text,
{
    assert(window(splice(region, index as int, text), index, text.len() as usize) =~= text);
}

/// A write of `width` bytes at `capacity - width` succeeds, and one byte further it fails.
pub proof fn lemma_last_window(region: Seq<u8>, index: usize, width: usize, text: Seq<u8>)
    requires
        width <= region.len() <= usize::MAX,
    ensures
        index == region.len() - width ==> store(region, index, width, text) is Ok,
        index == region.len() - width + 1 ==> store(region, index, width, text) is Err,
        index == region.len() - width ==> load(region, index, width, ByteOrder::LittleEndian) is Ok,
        index == region.len() - width + 1 ==> load(region, index, width, ByteOrder::LittleEndian)
            is Err,
{
}

/// A number that was written in some byte order is read back in that order.
pub proof fn lemma_load_after_store(
    region: Seq<u8>,
    index: usize,
    width: usize,
    order: ByteOrder,
    value: nat,
)
    requires
        fits(region, index, width),
        value < radix(width as nat),
    ensures
        store(region, index, width, order.bytes(value, width as nat)) is Ok,
        load(
            store(region, index, width, order.bytes(value, width as nat))->Ok_0,
            index,
            width,
            order,
        ) == Ok::<nat, crate::error::Failure>(value),
{
    lemma_bytes_len(value, width as nat);
    lemma_value_of_bytes(order, value, width as nat);
    lemma_window_of_splice(region, index, order.bytes(value, width as nat));
}

/// What a window holds in one byte order is the byte swap of what it holds in the other.
pub proof fn lemma_load_swaps(region: Seq<u8>, index: usize, width: usize, order: ByteOrder)
    requires
        fits(region, index, width),
    ensures
        load(region, index, width, order) is Ok,
        load(region, index, width, order.opposite()) is Ok,
        load(region, index, width, order)->Ok_0 == swap_bytes(
            load(region, index, width, order.opposite())->Ok_0,
            width as nat,
        ),
{
    lemma_orders_swap(order, window(region, index, width));
}

/// A number that was written in one byte order reads in the other as its byte swap.
pub proof fn lemma_load_other_order_after_store(
    region: Seq<u8>,
    index: usize,
    width: usize,
    order: ByteOrder,
    value: nat,
)
    requires
        fits(region, index, width),
        value < radix(width as nat),
    ensures
        load(
            store(region, index, width, order.bytes(value, width as nat))->Ok_0,
            index,
            width,
            order.opposite(),
        ) == Ok::<nat, crate::error::Failure>(swap_bytes(value, width as nat)),
{
    lemma_load_after_store(region, index, width, order, value);
    let after = store(region, index, width, order.bytes(value, width as nat))->Ok_0;
    lemma_bytes_len(value, width as nat);
    lemma_window_of_splice(region, index, order.bytes(value, width as nat));
    lemma_load_swaps(after, index, width, order.opposite());
    assert(order.opposite().opposite() == order);
}

/// The decimal text of a number that is at most `limit` reads as that number.
pub proof fn lemma_read_decimal_digits(n: nat, limit: nat)
    requires
        n <= limit,
    ensures
        magnitude_outcome(decimal_digits(n), limit) == Ok::<nat, crate::error::Failure>(n),
        natural_outcome(decimal_digits(n), limit) == Ok::<nat, crate::error::Failure>(n),
{
    let text = decimal_digits(n);
    lemma_decimal_digits(n);
    lemma_digit_run_is(text, text.len() as int);
    assert(text.take(text.len() as int) =~= text);
}

/// Zeros on the left do not change what decimal text denotes.
pub proof fn lemma_decimal_value_padded(zeros: nat, text: Seq<u8>)
    ensures
        decimal_value(Seq::new(zeros, |i: int| 48u8) + text) == decimal_value(text),
    decreases text.len(),
{
    let padded = Seq::new(zeros, |i: int| 48u8) + text;
    if text.len() == 0 {
        lemma_decimal_value_zeros(zeros);
        assert(padded =~= Seq::new(zeros, |i: int| 48u8));
    } else {
        lemma_decimal_value_padded(zeros, text.drop_last());
        assert(padded.drop_last() =~= Seq::new(zeros, |i: int| 48u8) + text.drop_last());
    }
}

proof fn lemma_decimal_value_zeros(zeros: nat)
    ensures
        decimal_value(Seq::new(zeros, |i: int| 48u8)) == 0,
    decreases zeros,
{
    if zeros > 0 {
        lemma_decimal_value_zeros((zeros - 1) as nat);
        assert(Seq::new(zeros, |i: int| 48u8).drop_last() =~= Seq::new(
            (zeros - 1) as nat,
            |i: int| 48u8,
        ));
    }
}

/// The decimal text of a number, filled up with zeros to a width that it fits, reads
/// as that number.
pub proof fn lemma_read_padded_digits(n: nat, width: nat, limit: nat)
    requires
        n <= limit,
        decimal_digits(n).len() <= width,
    ensures
        padded_digits(n, width).len() == width,
        natural_outcome(padded_digits(n, width), limit) == Ok::<nat, crate::error::Failure>(n),
{
    let text = padded_digits(n, width);
    let zeros = (width - decimal_digits(n).len()) as nat;
    lemma_decimal_digits(n);
    lemma_decimal_value_padded(zeros, decimal_digits(n));
    assert forall|i: int| 0 <= i < text.len() implies is_digit(#[trigger] text[i]) by {
        if i >= zeros {
            assert(text[i] == decimal_digits(n)[i - zeros]);
        }
    }
    lemma_digit_run_is(text, text.len() as int);
    assert(text.take(text.len() as int) =~= text);
}

/// The decimal text of a number between `-(max + 1)` and `max` reads as that number.
pub proof fn lemma_read_signed_digits(v: int, max: nat)
    requires
        -(max + 1) <= v <= max,
    ensures
        signed_outcome(signed_digits(v), max) == Ok::<int, crate::error::Failure>(v),
{
    let text = signed_digits(v);
    if v < 0 {
        let digits = decimal_digits((-v) as nat);
        lemma_decimal_digits((-v) as nat);
        lemma_read_decimal_digits((-v) as nat, max + 1);
        assert(text.skip(1) =~= digits);
    } else {
        lemma_decimal_digits(v as nat);
        lemma_read_decimal_digits(v as nat, max);
        assert(is_digit(text[0]));
    }
}

/// A number that was written as decimal text is read back from the bytes that the
/// write returned the length of.
pub proof fn lemma_parse_after_put(region: Seq<u8>, index: usize, v: int, max: nat)
    requires
        -(max + 1) <= v <= max,
        fits(region, index, signed_digits(v).len() as usize),
        signed_digits(v).len() <= usize::MAX,
    ensures
        store(region, index, signed_digits(v).len() as usize, signed_digits(v)) is Ok,
        load_signed(
            store(region, index, signed_digits(v).len() as usize, signed_digits(v))->Ok_0,
            index,
            signed_digits(v).len() as usize,
            max,
        ) == Ok::<int, crate::error::Failure>(v),
{
    lemma_read_signed_digits(v, max);
    lemma_window_of_splice(region, index, signed_digits(v));
}

/// A natural number that was written as decimal text is read back, by the reader of
/// natural numbers and by the one that takes a sign.
pub proof fn lemma_parse_natural_after_put(region: Seq<u8>, index: usize, n: nat, max: nat)
    requires
        n <= max,
        fits(region, index, decimal_digits(n).len() as usize),
        decimal_digits(n).len() <= usize::MAX,
    ensures
        store_natural(region, index, n as int) is Ok,
        load_natural(
            store_natural(region, index, n as int)->Ok_0,
            index,
            decimal_digits(n).len() as usize,
            max,
        ) == Ok::<nat, crate::error::Failure>(n),
        load_signed(
            store_natural(region, index, n as int)->Ok_0,
            index,
            decimal_digits(n).len() as usize,
            max,
        ) == Ok::<int, crate::error::Failure>(n as int),
{
    lemma_read_decimal_digits(n, max);
    lemma_read_signed_digits(n as int, max);
    lemma_decimal_digits(n);
    lemma_window_of_splice(region, index, decimal_digits(n));
}

/// A natural number that was written filled up with zeros is read back from those bytes.
pub proof fn lemma_parse_after_put_padded(
    region: Seq<u8>,
    index: usize,
    length: usize,
    n: nat,
    max: nat,
)
    requires
        n <= max,
        decimal_digits(n).len() <= length,
        fits(region, index, length),
    ensures
        store_padded(region, index, length, n as int) is Ok,
        load_natural(store_padded(region, index, length, n as int)->Ok_0, index, length, max)
            == Ok::<nat, crate::error::Failure>(n),
{
    lemma_read_padded_digits(n, length as nat, max);
    lemma_decimal_digits(n);
    lemma_window_of_splice(region, index, padded_digits(n, length as nat));
}

/// ASCII text that was written behind its length is read back as it was, where its
/// length fits the four bytes.
pub proof fn lemma_ascii_string_round_trip(region: Seq<u8>, index: usize, value: &str)
    requires
        value.is_ascii(),
        value.spec_bytes().len() <= u32::MAX,
        index + 4 + value.spec_bytes().len() <= region.len() <= usize::MAX,
    ensures
        store_headed(region, index, value.spec_bytes(), true) is Ok,
        load_headed(store_headed(region, index, value.spec_bytes(), true)->Ok_0, index, true)
            == Ok::<Seq<char>, crate::error::Failure>(value@),
{
    broadcast use vstd::string::is_ascii_spec_bytes;

    let text = value.spec_bytes();
    vstd::utf8::is_ascii_chars_nat_bound(value@);
    assert(is_ascii_bytes(text));
    assert(ascii_chars(text) =~= value@) by {
        assert forall|i: int| 0 <= i < text.len() implies (text[i] as char) == value@[i] by {
            assert(text[i] == value@[i] as u8);
        }
    }
    lemma_headed_round_trip(region, index, text);
}

/// UTF-8 text that was written behind its length is read back as it was, where its
/// length fits the four bytes.
pub proof fn lemma_utf8_string_round_trip(region: Seq<u8>, index: usize, value: &str)
    requires
        value.spec_bytes().len() <= u32::MAX,
        index + 4 + value.spec_bytes().len() <= region.len() <= usize::MAX,
    ensures
        store_headed(region, index, value.spec_bytes(), false) is Ok,
        load_headed(store_headed(region, index, value.spec_bytes(), false)->Ok_0, index, false)
            == Ok::<Seq<char>, crate::error::Failure>(value@),
{
    broadcast use vstd::utf8::encode_utf8_valid_utf8, vstd::utf8::encode_utf8_decode_utf8;

    let text = value.spec_bytes();
    assert(valid_utf8(text));
    assert(decode_utf8(text) == value@);
    lemma_headed_round_trip(region, index, text);
}

/// Bytes that were written behind their length are found again behind that length.
pub proof fn lemma_headed_round_trip(region: Seq<u8>, index: usize, text: Seq<u8>)
    requires
        index + 4 + text.len() <= region.len() <= usize::MAX,
    ensures
        text.len() <= u32::MAX ==> {
            let after = splice(region, index as int, le_bytes(text.len(), 4) + text);
            &&& after.len() == region.len()
            &&& crate::buffer::byte_order::le_value(window(after, index, 4)) == text.len()
            &&& window(after, (index + 4) as usize, text.len() as usize) == text
        },
{
    if text.len() <= u32::MAX {
        let header = le_bytes(text.len(), 4);
        let after = splice(region, index as int, header + text);
        lemma_bytes_len(text.len(), 4);
        lemma_radix_values();
        lemma_value_of_bytes(ByteOrder::LittleEndian, text.len(), 4);
        assert(window(after, index, 4) =~= header);
        assert(window(after, (index + 4) as usize, text.len() as usize) =~= text);
    }
}

} // verus!
