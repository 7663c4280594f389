//! Decimal numbers and ASCII text as bytes: what they denote, and how they are read
//! and written.

use vstd::prelude::*;
use crate::buffer::byte_order::splice;
use crate::error::{AgronaError, Failure};

verus! {

/// Whether `b` is one of the ASCII digits `0` to `9`.
pub open spec fn is_digit(b: u8) -> bool {
    48 <= b <= 57
}

/// The number that the ASCII digit `b` stands for.
pub open spec fn digit_value(b: u8) -> nat {
    (b - 48) as nat
}

/// Whether every byte of `text` is an ASCII digit.
pub open spec fn all_digits(text: Seq<u8>) -> bool {
    forall|i: int| 0 <= i < text.len() ==> is_digit(#[trigger] text[i])
}

/// The number that the digits of `text` denote in decimal, most significant first.
pub open spec fn decimal_value(text: Seq<u8>) -> nat
    decreases text.len(),
{
    if text.len() == 0 {
        0
    } else {
        10 * decimal_value(text.drop_last()) + digit_value(text.last())
    }
}

/// The shortest decimal text of `n`: no leading zero, and `0` for zero.
pub open spec fn decimal_digits(n: nat) -> Seq<u8>
    decreases n,
{
    if n < 10 {
        seq![(48 + n) as u8]
    } else {
        decimal_digits(n / 10).push((48 + n % 10) as u8)
    }
}

/// The shortest decimal text of `v`, with a leading `-` when it is negative.
pub open spec fn signed_digits(v: int) -> Seq<u8> {
    if v < 0 {
        seq![45u8] + decimal_digits((-v) as nat)
    } else {
        decimal_digits(v as nat)
    }
}

/// The decimal text of `n` filled up with `0` on the left to `width` bytes.
pub open spec fn padded_digits(n: nat, width: nat) -> Seq<u8>
    recommends
        decimal_digits(n).len() <= width,
{
    Seq::new((width - decimal_digits(n).len()) as nat, |i: int| 48u8) + decimal_digits(n)
}

/// Whether every byte of `text` is below 128.
pub open spec fn is_ascii_bytes(text: Seq<u8>) -> bool {
    forall|i: int| 0 <= i < text.len() ==> #[trigger] text[i] <= 127
}

/// The characters that ASCII bytes stand for, one for each.
pub open spec fn ascii_chars(text: Seq<u8>) -> Seq<char> {
    Seq::new(text.len(), |i: int| text[i] as char)
}

/// How many digits stand at the start of `text` before its first other byte.
pub open spec fn digit_run(text: Seq<u8>) -> nat
    decreases text.len(),
{
    if text.len() == 0 || !is_digit(text[0]) {
        0
    } else {
        1 + digit_run(text.drop_first())
    }
}

/// What is reported of text of no bytes.
pub open spec fn empty_message() -> Failure {
    Failure::AsciiNumberFormat("Empty string"@)
}

/// What is reported of a sign that no digit follows.
pub open spec fn no_digits_message() -> Failure {
    Failure::AsciiNumberFormat("No digits found"@)
}

/// What is reported of a number beyond the range of its type.
pub open spec fn overflow_message() -> Failure {
    Failure::AsciiNumberFormat("Number overflow"@)
}

/// What is reported of a negative number where a natural one is due.
pub open spec fn negative_message() -> Failure {
    Failure::AsciiNumberFormat("Negative value for natural number"@)
}

/// What is reported of a number with more digits than the width it is to fill.
pub open spec fn too_large_message() -> Failure {
    Failure::AsciiNumberFormat("Number too large for specified length"@)
}

/// What is reported of a byte above 127 in ASCII text.
pub open spec fn non_ascii_message() -> Failure {
    Failure::AsciiNumberFormat("Non-ASCII character found"@)
}

/// What is reported of the byte `b` that stands where a digit should.
pub open spec fn invalid_digit_message(b: u8) -> Failure {
    Failure::AsciiNumberFormat("Invalid digit: "@.push(b as char))
}

/// What reading `text` as a decimal number of at most `limit` gives: the number, or
/// the message of the first thing that is wrong, going from left to right. A byte
/// that is no digit is reported unless the digits before it already exceed `limit`.
pub open spec fn magnitude_outcome(text: Seq<u8>, limit: nat) -> Result<nat, Failure> {
    let k = digit_run(text) as int;
    if decimal_value(text.take(k)) > limit {
        Err(overflow_message())
    } else if k < text.len() {
        Err(invalid_digit_message(text[k]))
    } else {
        Ok(decimal_value(text))
    }
}

/// What reading `text` as a natural number of at most `max` gives. Empty text is an error.
pub open spec fn natural_outcome(text: Seq<u8>, max: nat) -> Result<nat, Failure> {
    if text.len() == 0 {
        Err(empty_message())
    } else {
        magnitude_outcome(text, max)
    }
}

/// What reading `text` as a number between `-(max + 1)` and `max` gives. A leading `-`
/// is a sign, and at least one digit has to follow it.
pub open spec fn signed_outcome(text: Seq<u8>, max: nat) -> Result<int, Failure> {
    if text.len() == 0 {
        Err(empty_message())
    } else if text[0] == 45 {
        if text.len() == 1 {
            Err(no_digits_message())
        } else {
            match magnitude_outcome(text.skip(1), max + 1) {
                Ok(m) => Ok(-(m as int)),
                Err(e) => Err(e),
            }
        }
    } else {
        match magnitude_outcome(text, max) {
            Ok(m) => Ok(m as int),
            Err(e) => Err(e),
        }
    }
}

/// One more digit on the right makes ten times the number, and the digit more.
pub proof fn lemma_decimal_value_step(text: Seq<u8>, i: int)
    requires
        0 <= i < text.len(),
    ensures
        decimal_value(text.take(i + 1)) == 10 * decimal_value(text.take(i)) + digit_value(text[i]),
{
    assert(text.take(i + 1).drop_last() =~= text.take(i));
}

/// A run of digits that ends at the first other byte, or at the end, is the digit run.
pub proof fn lemma_digit_run_is(text: Seq<u8>, k: int)
    requires
        0 <= k <= text.len(),
        forall|i: int| 0 <= i < k ==> is_digit(#[trigger] text[i]),
        k < text.len() ==> !is_digit(text[k]),
    ensures
        digit_run(text) == k,
    decreases text.len(),
{
    if k > 0 {
        let tail = text.drop_first();
        assert forall|i: int| 0 <= i < k - 1 implies is_digit(#[trigger] tail[i]) by {
            assert(tail[i] == text[i + 1]);
        }
        lemma_digit_run_is(tail, k - 1);
    }
}

/// Over digits, a longer prefix denotes no smaller number.
pub proof fn lemma_decimal_value_grows(text: Seq<u8>, j: int, k: int)
    requires
        0 <= j <= k <= text.len(),
        forall|i: int| 0 <= i < k ==> is_digit(#[trigger] text[i]),
    ensures
        decimal_value(text.take(j)) <= decimal_value(text.take(k)),
    decreases k - j,
{
    if j < k {
        lemma_decimal_value_grows(text, j, k - 1);
        lemma_decimal_value_step(text, k - 1);
    }
}

/// `String::push`: appends `c` to the end of `text`.
#[verifier::external_body]
fn push_char(text: &mut String, c: char)
    ensures
        final(text)@ == old(text)@.push(c),
{
    text.push(c)
}

/// The error for the byte `b` that stands where a digit should.
pub fn invalid_digit(b: u8) -> (e: AgronaError)
    ensures
        e@ == invalid_digit_message(b),
{
    let mut message = "Invalid digit: ".to_string();
    push_char(&mut message, b as char);
    AgronaError::AsciiNumberFormat(message)
}

/// Reads `text` as a decimal number of at most `limit`.
pub fn parse_magnitude(text: &[u8], limit: u64) -> (r: Result<u64, AgronaError>)
    ensures
        match magnitude_outcome(text@, limit as nat) {
            Ok(v) => r == Ok::<u64, AgronaError>(v as u64),
            Err(f) => r is Err && r->Err_0@ == f,
        },
{
    let n = text.len();
    let mut acc: u64 = 0;
    let mut i: usize = 0;
    while i < n
        invariant
            0 <= i <= n,
            n == text@.len(),
            forall|j: int| 0 <= j < i ==> is_digit(#[trigger] text@[j]),
            acc == decimal_value(text@.take(i as int)),
            acc <= limit,
        decreases n - i,
    {
        let b = text[i];
        if b < 48 || b > 57 {
            proof {
                lemma_digit_run_is(text@, i as int);
            }
            return Err(invalid_digit(b));
        }
        let d: u64 = (b - 48) as u64;
        proof {
            lemma_decimal_value_step(text@, i as int);
        }
        if d > limit || acc > (limit - d) / 10 {
            proof {
                let k = digit_run(text@) as int;
                lemma_digit_run_bounds(text@);
                assert(k >= i + 1) by {
                    if k < i + 1 {
                        assert(is_digit(text@[k]));
                    }
                }
                lemma_decimal_value_grows(text@, i + 1, k);
            }
            return Err(AgronaError::format("Number overflow"));
        }
        acc = acc * 10 + d;
        i += 1;
    }
    proof {
        lemma_digit_run_is(text@, n as int);
        assert(text@.take(n as int) =~= text@);
    }
    Ok(acc)
}

/// A number that was read is at most the limit, and its text holds digits only.
pub proof fn lemma_magnitude_bound(text: Seq<u8>, limit: nat)
    ensures
        magnitude_outcome(text, limit) is Ok ==> magnitude_outcome(text, limit)->Ok_0 <= limit
            && all_digits(text) && magnitude_outcome(text, limit)->Ok_0 == decimal_value(text),
{
    lemma_digit_run_bounds(text);
    if magnitude_outcome(text, limit) is Ok {
        assert(text.take(text.len() as int) =~= text);
    }
}

/// The digit run lies within the text, holds digits only, and ends at the end or
/// before a byte that is no digit.
pub proof fn lemma_digit_run_bounds(text: Seq<u8>)
    ensures
        digit_run(text) <= text.len(),
        forall|i: int| 0 <= i < digit_run(text) ==> is_digit(#[trigger] text[i]),
        digit_run(text) < text.len() ==> !is_digit(text[digit_run(text) as int]),
    decreases text.len(),
{
    if text.len() > 0 && is_digit(text[0]) {
        let tail = text.drop_first();
        lemma_digit_run_bounds(tail);
        assert forall|i: int| 0 <= i < digit_run(text) implies is_digit(#[trigger] text[i]) by {
            if i > 0 {
                assert(text[i] == tail[i - 1]);
            }
        }
    }
}

/// The decimal text of a number has at least one digit, holds digits only, and denotes
/// the number.
pub proof fn lemma_decimal_digits(n: nat)
    ensures
        decimal_digits(n).len() >= 1,
        all_digits(decimal_digits(n)),
        decimal_value(decimal_digits(n)) == n,
        n >= 1 ==> decimal_digits(n)[0] != 48,
    decreases n,
{
    let text = decimal_digits(n);
    if n < 10 {
        assert(text.drop_last() =~= Seq::<u8>::empty());
        assert(decimal_value(text.drop_last()) == 0);
        assert(digit_value(text.last()) == n);
    } else {
        lemma_decimal_digits(n / 10);
        assert(text.drop_last() =~= decimal_digits(n / 10));
        assert(digit_value(text.last()) == n % 10);
        assert(text[0] == decimal_digits(n / 10)[0]);
    }
}

/// The number of digits in the decimal text of `n`.
pub fn digit_count(n: u64) -> (count: usize)
    ensures
        count == decimal_digits(n as nat).len(),
        1 <= count <= 20,
{
    let mut count: usize = 1;
    let mut rest: u64 = n;
    let ghost mut bound: nat = 0xffff_ffff_ffff_ffff;
    while rest >= 10
        invariant
            1 <= count <= 20,
            rest <= bound,
            bound * pow10((count - 1) as nat) <= 0xffff_ffff_ffff_ffff,
            decimal_digits(n as nat).len() == decimal_digits(rest as nat).len() + count - 1,
        decreases rest,
    {
        proof {
            lemma_pow10_step(bound, (count - 1) as nat);
            bound = bound / 10;
        }
        rest = rest / 10;
        count += 1;
    }
    count
}

/// Writes the decimal text of `n` into `region` so that it ends just before `end`,
/// and returns where it starts.
pub(crate) fn write_decimal(region: &mut [u8], end: usize, n: u64) -> (start: usize)
    requires
        decimal_digits(n as nat).len() <= end <= old(region)@.len(),
    ensures
        start == end - decimal_digits(n as nat).len(),
        final(region)@ == splice(old(region)@, start as int, decimal_digits(n as nat)),
{
    let ghost digits = decimal_digits(n as nat);
    let mut rest: u64 = n;
    let mut pos: usize = end;
    loop
        invariant_except_break
            decimal_digits(rest as nat).len() <= pos <= end,
            pos - decimal_digits(rest as nat).len() == end - digits.len(),
            digits =~= decimal_digits(rest as nat) + region@.subrange(pos as int, end as int),
        invariant
            region@.len() == old(region)@.len(),
            end <= region@.len(),
            digits == decimal_digits(n as nat),
            forall|j: int|
                0 <= j < region@.len() && (j < pos || j >= end) ==> region@[j] == old(region)@[j],
        ensures
            pos == end - digits.len(),
            region@.subrange(pos as int, end as int) =~= digits,
        decreases rest,
    {
        proof {
            lemma_decimal_digits(rest as nat);
        }
        let ghost before = region@;
        pos -= 1;
        region[pos] = 48 + (rest % 10) as u8;
        assert(region@.subrange(pos as int, end as int) =~= seq![(48 + rest % 10) as u8]
            + before.subrange(pos + 1, end as int));
        if rest < 10 {
            break;
        }
        rest = rest / 10;
    }
    assert(region@ =~= splice(old(region)@, pos as int, digits));
    pos
}

/// Writes the last `end` digits of the decimal text of `n` into the first `end` bytes of
/// `region`, where the text has more digits than that.
pub(crate) fn write_low_digits(region: &mut [u8], end: usize, n: u64)
    requires
        end < decimal_digits(n as nat).len(),
        end <= old(region)@.len(),
    ensures
        final(region)@ == splice(
            old(region)@,
            0,
            decimal_digits(n as nat).subrange(
                decimal_digits(n as nat).len() - end,
                decimal_digits(n as nat).len() as int,
            ),
        ),
{
    let ghost digits = decimal_digits(n as nat);
    let mut rest: u64 = n;
    let mut pos: usize = end;
    while pos > 0
        invariant
            region@.len() == old(region)@.len(),
            pos <= end <= region@.len(),
            digits == decimal_digits(n as nat),
            end < digits.len(),
            decimal_digits(rest as nat).len() + (end - pos) == digits.len(),
            digits =~= decimal_digits(rest as nat) + region@.subrange(pos as int, end as int),
            forall|j: int| end <= j < region@.len() ==> region@[j] == old(region)@[j],
        decreases pos,
    {
        proof {
            lemma_decimal_digits(rest as nat);
            assert(rest >= 10) by {
                if rest < 10 {
                    assert(decimal_digits(rest as nat).len() == 1);
                }
            }
            assert(decimal_digits(rest as nat) == decimal_digits((rest / 10) as nat).push(
                (48 + rest % 10) as u8,
            ));
        }
        let ghost before = region@;
        pos -= 1;
        region[pos] = 48 + (rest % 10) as u8;
        assert(region@.subrange(pos as int, end as int) =~= seq![(48 + rest % 10) as u8]
            + before.subrange(pos + 1, end as int));
        rest = rest / 10;
    }
    assert(region@ =~= splice(
        old(region)@,
        0,
        digits.subrange(digits.len() - end, digits.len() as int),
    ));
}

/// Sets the bytes of `region` from `start` up to `end` to `value`.
pub(crate) fn fill(region: &mut [u8], start: usize, end: usize, value: u8)
    requires
        start <= end <= old(region)@.len(),
    ensures
        final(region)@ == splice(
            old(region)@,
            start as int,
            Seq::new((end - start) as nat, |i: int| value),
        ),
{
    let mut i: usize = start;
    while i < end
        invariant
            start <= i <= end <= region@.len(),
            region@.len() == old(region)@.len(),
            forall|j: int| start <= j < i ==> region@[j] == value,
            forall|j: int|
                0 <= j < region@.len() && (j < start || j >= i) ==> region@[j] == old(region)@[j],
        decreases end - i,
    {
        region[i] = value;
        i += 1;
    }
    assert(region@ =~= splice(
        old(region)@,
        start as int,
        Seq::new((end - start) as nat, |i: int| value),
    ));
}

/// Copies all of `src` into `region` from `index` on.
pub(crate) fn copy_in(region: &mut [u8], index: usize, src: &[u8])
    requires
        index + src@.len() <= old(region)@.len(),
    ensures
        final(region)@ == splice(old(region)@, index as int, src@),
{
    let length = src.len();
    let size = region.len();
    let mut i: usize = 0;
    while i < length
        invariant
            0 <= i <= length,
            length == src@.len(),
            size == region@.len(),
            index + length <= size,
            region@.len() == old(region)@.len(),
            forall|j: int| 0 <= j < i ==> region@[index + j] == src@[j],
            forall|j: int|
                0 <= j < region@.len() && (j < index || j >= index + i) ==> region@[j] == old(
                    region,
                )@[j],
        decreases length - i,
    {
        region[index + i] = src[i];
        i += 1;
    }
    assert(region@ =~= splice(old(region)@, index as int, src@));
}

/// Whether every byte of `text` is below 128.
pub fn all_ascii(text: &[u8]) -> (r: bool)
    ensures
        r == is_ascii_bytes(text@),
{
    let mut i: usize = 0;
    while i < text.len()
        invariant
            0 <= i <= text@.len(),
            forall|j: int| 0 <= j < i ==> #[trigger] text@[j] <= 127,
        decreases text@.len() - i,
    {
        if text[i] > 127 {
            return false;
        }
        i += 1;
    }
    true
}

/// Ten to the power `e`.
pub open spec fn pow10(e: nat) -> nat
    decreases e,
{
    if e == 0 {
        1
    } else {
        10 * pow10((e - 1) as nat)
    }
}

proof fn lemma_pow10_step(bound: nat, e: nat)
    requires
        bound >= 10,
        bound * pow10(e) <= 0xffff_ffff_ffff_ffff,
    ensures
        e + 1 < 20,
        (bound / 10) * pow10(e + 1) <= 0xffff_ffff_ffff_ffff,
{
    assert((bound / 10) * pow10(e + 1) == (bound / 10) * 10 * pow10(e)) by (nonlinear_arith)
        requires
            pow10(e + 1) == 10 * pow10(e),
    ;
    assert((bound / 10) * 10 * pow10(e) <= bound * pow10(e)) by (nonlinear_arith)
        requires
            (bound / 10) * 10 <= bound,
    ;
    if e + 1 >= 20 {
        lemma_pow10_grows(19, e);
        reveal_with_fuel(pow10, 20);
        assert(pow10(19) == 10_000_000_000_000_000_000);
        assert(bound * pow10(e) >= 10 * pow10(19)) by (nonlinear_arith)
            requires
                bound >= 10,
                pow10(e) >= pow10(19),
        ;
    }
}

proof fn lemma_pow10_grows(a: nat, b: nat)
    requires
        a <= b,
    ensures
        pow10(a) <= pow10(b),
    decreases b - a,
{
    if a < b {
        lemma_pow10_grows(a, (b - 1) as nat);
    }
}

} // verus!
