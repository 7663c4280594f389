//! What holds of integers as bytes: writing and reading are inverse, and the two
//! byte orders are each other's reverse.

use vstd::prelude::*;
use vstd::arithmetic::div_mod::lemma_breakdown;
use crate::buffer::byte_order::{
    be_bytes, be_value, le_bytes, le_value, radix, swap_bytes, ByteOrder,
};

verus! {

/// The radix of the widths that the typed accessors use.
pub proof fn lemma_radix_values()
    ensures
        radix(0) == 1,
        radix(1) == 0x100,
        radix(2) == 0x1_0000,
        radix(4) == 0x1_0000_0000,
        radix(8) == 0x1_0000_0000_0000_0000,
{
    reveal_with_fuel(radix, 9);
}

pub proof fn lemma_radix_positive(width: nat)
    ensures
        radix(width) > 0,
    decreases width,
{
    if width > 0 {
        lemma_radix_positive((width - 1) as nat);
    }
}

/// Up to eight bytes hold less than 2 to the 64.
pub proof fn lemma_radix_bounded(width: nat)
    requires
        width <= 8,
    ensures
        radix(width) <= 0x1_0000_0000_0000_0000,
        width < 8 ==> radix(width) * 256 == radix(width + 1) && radix(width + 1)
            <= 0x1_0000_0000_0000_0000,
{
    reveal_with_fuel(radix, 10);
}

/// Writing a number over `width` bytes gives `width` bytes, in either order.
pub proof fn lemma_bytes_len(value: nat, width: nat)
    ensures
        le_bytes(value, width).len() == width,
        be_bytes(value, width).len() == width,
    decreases width,
{
    if width > 0 {
        lemma_bytes_len(value / 256, (width - 1) as nat);
    }
}

/// What `n` bytes denote is below 256 to the power `n`, in either order.
pub proof fn lemma_value_bound(bytes: Seq<u8>)
    ensures
        le_value(bytes) < radix(bytes.len()),
        be_value(bytes) < radix(bytes.len()),
    decreases bytes.len(),
{
    if bytes.len() > 0 {
        lemma_value_bound(bytes.drop_first());
        lemma_value_bound(bytes.drop_last());
    }
}

/// Big-endian is little-endian on the reversed bytes.
pub proof fn lemma_be_value_reverses(bytes: Seq<u8>)
    ensures
        be_value(bytes) == le_value(bytes.reverse()),
    decreases bytes.len(),
{
    if bytes.len() > 0 {
        let rev = bytes.reverse();
        assert(rev.drop_first() =~= bytes.drop_last().reverse());
        lemma_be_value_reverses(bytes.drop_last());
    } else {
        assert(bytes.reverse() =~= bytes);
    }
}

/// The big-endian bytes of a number are its little-endian bytes reversed.
pub proof fn lemma_be_bytes_reverses(value: nat, width: nat)
    ensures
        be_bytes(value, width) == le_bytes(value, width).reverse(),
    decreases width,
{
    lemma_bytes_len(value, width);
    if width > 0 {
        let rest = (width - 1) as nat;
        lemma_be_bytes_reverses(value / 256, rest);
        lemma_bytes_len(value / 256, rest);
        assert(be_bytes(value, width) =~= le_bytes(value, width).reverse());
    } else {
        assert(be_bytes(value, width) =~= le_bytes(value, width).reverse());
    }
}

proof fn lemma_le_value_of_bytes(value: nat, width: nat)
    ensures
        le_value(le_bytes(value, width)) == value % radix(width),
    decreases width,
{
    lemma_radix_positive(width);
    if width > 0 {
        let rest = (width - 1) as nat;
        let b = le_bytes(value, width);
        lemma_le_value_of_bytes(value / 256, rest);
        lemma_radix_positive(rest);
        assert(b.drop_first() =~= le_bytes(value / 256, rest));
        lemma_breakdown(value as int, 256, radix(rest) as int);
    }
}

proof fn lemma_le_bytes_of_value(bytes: Seq<u8>)
    ensures
        le_bytes(le_value(bytes), bytes.len()) == bytes,
    decreases bytes.len(),
{
    if bytes.len() > 0 {
        let tail = bytes.drop_first();
        lemma_le_bytes_of_value(tail);
        let v = le_value(bytes);
        assert(v == bytes[0] as nat + 256 * le_value(tail));
        assert(v % 256 == bytes[0] as nat);
        assert(v / 256 == le_value(tail));
        assert(le_bytes(v, bytes.len()) =~= bytes);
    } else {
        assert(le_bytes(le_value(bytes), bytes.len()) =~= bytes);
    }
}

/// Reading back the `width` bytes of a number gives the number modulo 256 to the power
/// `width`: the number itself when it fits.
pub proof fn lemma_value_of_bytes(order: ByteOrder, value: nat, width: nat)
    ensures
        order.value(order.bytes(value, width)) == value % radix(width),
        value < radix(width) ==> order.value(order.bytes(value, width)) == value,
{
    lemma_radix_positive(width);
    lemma_le_value_of_bytes(value, width);
    lemma_be_bytes_reverses(value, width);
    lemma_be_value_reverses(be_bytes(value, width));
    assert(le_bytes(value, width).reverse().reverse() =~= le_bytes(value, width));
    if value < radix(width) {
        vstd::arithmetic::div_mod::lemma_small_mod(value, radix(width));
    }
}

/// Writing what bytes denote, over as many bytes, gives the bytes back.
pub proof fn lemma_bytes_of_value(order: ByteOrder, bytes: Seq<u8>)
    ensures
        order.bytes(order.value(bytes), bytes.len()) == bytes,
{
    lemma_le_bytes_of_value(bytes);
    lemma_be_value_reverses(bytes);
    lemma_le_bytes_of_value(bytes.reverse());
    lemma_be_bytes_reverses(be_value(bytes), bytes.len());
    assert(bytes.reverse().reverse() =~= bytes);
}

/// What bytes denote in one order is the byte swap of what they denote in the other.
pub proof fn lemma_orders_swap(order: ByteOrder, bytes: Seq<u8>)
    ensures
        order.value(bytes) == swap_bytes(order.opposite().value(bytes), bytes.len()),
{
    lemma_be_value_reverses(bytes);
    lemma_bytes_of_value(ByteOrder::LittleEndian, bytes);
    lemma_bytes_of_value(ByteOrder::BigEndian, bytes);
    lemma_be_bytes_reverses(be_value(bytes), bytes.len());
    assert(bytes.reverse().reverse() =~= bytes);
    match order {
        ByteOrder::BigEndian => {
            assert(le_bytes(le_value(bytes), bytes.len()) == bytes);
        },
        ByteOrder::LittleEndian => {
            assert(le_bytes(be_value(bytes), bytes.len()).reverse() == bytes);
        },
    }
}

/// Swapping the bytes of a number twice gives the number back.
pub proof fn lemma_swap_bytes_twice(value: nat, width: nat)
    requires
        value < radix(width),
    ensures
        swap_bytes(swap_bytes(value, width), width) == value,
{
    let b = le_bytes(value, width);
    lemma_bytes_len(value, width);
    lemma_bytes_of_value(ByteOrder::LittleEndian, b.reverse());
    assert(b.reverse().reverse() =~= b);
    lemma_value_of_bytes(ByteOrder::LittleEndian, value, width);
}

} // verus!
