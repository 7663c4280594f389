//! The order of a dictionary on runs of bytes.

use vstd::prelude::*;
use crate::buffer::direct_buffer::DirectBuffer;

verus! {

/// How `a` stands to `b` in the order of a dictionary: below zero where `a` comes
/// first, zero where the two are equal, above zero where `b` comes first. The first
/// byte in which they differ decides; where there is none, the shorter comes first.
pub open spec fn lexicographic(a: Seq<u8>, b: Seq<u8>) -> int
    decreases a.len(),
{
    if a.len() == 0 && b.len() == 0 {
        0
    } else if a.len() == 0 {
        -1
    } else if b.len() == 0 {
        1
    } else if a[0] < b[0] {
        -1
    } else if a[0] > b[0] {
        1
    } else {
        lexicographic(a.drop_first(), b.drop_first())
    }
}

/// Two regions stand level exactly where they are the same bytes, which is where they
/// are as long as each other and hold the same byte at every offset.
pub proof fn lemma_level_is_equal(a: Seq<u8>, b: Seq<u8>)
    ensures
        lexicographic(a, b) == 0 <==> a == b,
        a == b <==> (a.len() == b.len() && forall|i: int| 0 <= i < a.len() ==> a[i] == b[i]),
    decreases a.len(),
{
    if a.len() > 0 && b.len() > 0 {
        lemma_level_is_equal(a.drop_first(), b.drop_first());
        if a[0] == b[0] && a.drop_first() == b.drop_first() {
            assert(a =~= seq![a[0]] + a.drop_first());
            assert(b =~= seq![b[0]] + b.drop_first());
        }
    }
    if a.len() == b.len() && (forall|i: int| 0 <= i < a.len() ==> a[i] == b[i]) {
        assert(a =~= b);
    }
}

/// Turning the two regions round turns the answer round.
pub proof fn lemma_lexicographic_turns(a: Seq<u8>, b: Seq<u8>)
    ensures
        lexicographic(a, b) < 0 <==> lexicographic(b, a) > 0,
        lexicographic(a, b) == 0 <==> lexicographic(b, a) == 0,
    decreases a.len(),
{
    if a.len() > 0 && b.len() > 0 {
        lemma_lexicographic_turns(a.drop_first(), b.drop_first());
    }
}

/// What comes before something that comes before a third region comes before that one.
pub proof fn lemma_lexicographic_chains(a: Seq<u8>, b: Seq<u8>, c: Seq<u8>)
    requires
        lexicographic(a, b) <= 0,
        lexicographic(b, c) <= 0,
    ensures
        lexicographic(a, c) <= 0,
        lexicographic(a, b) < 0 || lexicographic(b, c) < 0 ==> lexicographic(a, c) < 0,
    decreases a.len(),
{
    if a.len() > 0 && b.len() > 0 && c.len() > 0 {
        if a[0] == b[0] && b[0] == c[0] {
            lemma_lexicographic_chains(a.drop_first(), b.drop_first(), c.drop_first());
        }
    }
}

/// Compares two runs of bytes in the order of a dictionary: -1, 0 or 1.
pub fn compare_bytes(a: &[u8], b: &[u8]) -> (sign: i8)
    ensures
        -1 <= sign <= 1,
        sign < 0 <==> lexicographic(a@, b@) < 0,
        sign > 0 <==> lexicographic(a@, b@) > 0,
{
    let n = if a.len() < b.len() {
        a.len()
    } else {
        b.len()
    };
    let mut i: usize = 0;
    assert(a@.skip(0) =~= a@ && b@.skip(0) =~= b@);
    while i < n
        invariant
            0 <= i <= n,
            n <= a@.len(),
            n <= b@.len(),
            lexicographic(a@, b@) == lexicographic(a@.skip(i as int), b@.skip(i as int)),
        decreases n - i,
    {
        proof {
            assert(a@.skip(i as int).drop_first() =~= a@.skip(i + 1));
            assert(b@.skip(i as int).drop_first() =~= b@.skip(i + 1));
        }
        if a[i] < b[i] {
            return -1;
        }
        if a[i] > b[i] {
            return 1;
        }
        i += 1;
    }
    if a.len() < b.len() {
        -1
    } else if a.len() > b.len() {
        1
    } else {
        0
    }
}

/// Whether two buffers, of whatever kind, hold the same bytes.
pub fn equal_buffers<A: DirectBuffer, B: DirectBuffer>(a: &A, b: &B) -> (r: bool)
    ensures
        r == (a.bytes() == b.bytes()),
{
    let n = a.capacity();
    if n != b.capacity() {
        return false;
    }
    let mut i: usize = 0;
    while i < n
        invariant
            0 <= i <= n,
            n == a.bytes().len(),
            n == b.bytes().len(),
            forall|j: int| 0 <= j < i ==> a.bytes()[j] == b.bytes()[j],
        decreases n - i,
    {
        match (a.get_u8(i), b.get_u8(i)) {
            (Ok(x), Ok(y)) => {
                if x != y {
                    return false;
                }
            },
            _ => {
                return false;
            },
        }
        i += 1;
    }
    assert(a.bytes() =~= b.bytes());
    true
}

/// Compares two buffers, of whatever kind, in the order of a dictionary over their
/// bytes: -1, 0 or 1.
pub fn compare_buffers<A: DirectBuffer, B: DirectBuffer>(a: &A, b: &B) -> (sign: i8)
    ensures
        -1 <= sign <= 1,
        sign < 0 <==> lexicographic(a.bytes(), b.bytes()) < 0,
        sign > 0 <==> lexicographic(a.bytes(), b.bytes()) > 0,
{
    let m = a.capacity();
    let n = b.capacity();
    let shorter = if m < n {
        m
    } else {
        n
    };
    let mut i: usize = 0;
    assert(a.bytes().skip(0) =~= a.bytes() && b.bytes().skip(0) =~= b.bytes());
    while i < shorter
        invariant
            0 <= i <= shorter,
            m == a.bytes().len(),
            n == b.bytes().len(),
            shorter <= m,
            shorter <= n,
            lexicographic(a.bytes(), b.bytes()) == lexicographic(
                a.bytes().skip(i as int),
                b.bytes().skip(i as int),
            ),
        decreases shorter - i,
    {
        proof {
            assert(a.bytes().skip(i as int).drop_first() =~= a.bytes().skip(i + 1));
            assert(b.bytes().skip(i as int).drop_first() =~= b.bytes().skip(i + 1));
        }
        match (a.get_u8(i), b.get_u8(i)) {
            (Ok(x), Ok(y)) => {
                if x < y {
                    return -1;
                }
                if x > y {
                    return 1;
                }
            },
            _ => {},
        }
        i += 1;
    }
    if m < n {
        -1
    } else if m > n {
        1
    } else {
        0
    }
}

} // verus!
