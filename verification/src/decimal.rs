//! ASCII-decimal text for unsigned 64-bit counters.
//!
//! [`write_u64`] produces the minimal decimal text of a number, [`parse_u64`]
//! reads the number that the leading digits of a buffer denote.

use crate::bytes::{copied_len, overwrite_front, span};
use vstd::prelude::*;

verus! {

/// The byte `'0'`.
pub const ASCII_ZERO: u8 = '0' as u8;

/// The byte `'9'`.
pub const ASCII_NINE: u8 = '9' as u8;

/// The number of digits of the largest 64-bit number.
pub const MAX_DIGITS: usize = 20;

/// Whether `b` is one of the bytes `'0'` to `'9'`.
pub open spec fn is_digit(b: u8) -> bool {
    ASCII_ZERO <= b <= ASCII_NINE
}

/// The digits of `n`, most significant first, without a leading zero: no digit
/// at all for zero.
pub open spec fn digits(n: nat) -> Seq<u8>
    decreases n,
{
    if n == 0 {
        Seq::empty()
    } else {
        digits(n / 10).push((ASCII_ZERO + n % 10) as u8)
    }
}

/// The minimal decimal text of `n`: `"0"` for zero, else its digits.
pub open spec fn decimal(n: nat) -> Seq<u8> {
    if n == 0 {
        seq![ASCII_ZERO]
    } else {
        digits(n)
    }
}

/// The number that a sequence of digit bytes denotes, read most significant
/// digit first; zero for the empty sequence.
pub open spec fn digits_value(s: Seq<u8>) -> nat
    decreases s.len(),
{
    if s.len() == 0 {
        0
    } else {
        (digits_value(s.drop_last()) * 10 + (s.last() - ASCII_ZERO)) as nat
    }
}

/// The length of the longest prefix of `s` that holds digits only.
pub open spec fn digit_run(s: Seq<u8>) -> nat
    decreases s.len(),
{
    if s.len() > 0 && is_digit(s[0]) {
        1 + digit_run(s.skip(1))
    } else {
        0
    }
}

/// `v` clamped to the 64-bit range.
pub open spec fn saturate(v: nat) -> nat {
    if v <= u64::MAX {
        v
    } else {
        u64::MAX as nat
    }
}

/// The number that `s` decodes to: the value of its leading digits, clamped to
/// the 64-bit range. What follows the first byte that is no digit is ignored.
pub open spec fn decode(s: Seq<u8>) -> nat {
    saturate(digits_value(s.take(digit_run(s) as int)))
}

/// Ten to the power `k`.
pub open spec fn pow10(k: nat) -> nat
    decreases k,
{
    if k == 0 {
        1
    } else {
        10 * pow10((k - 1) as nat)
    }
}

/// A number below `10^k` has at most `k` digits.
pub proof fn lemma_digits_len(n: nat, k: nat)
    requires
        n < pow10(k),
    ensures
        digits(n).len() <= k,
    decreases k,
{
    if n != 0 {
        lemma_digits_len(n / 10, (k - 1) as nat);
    }
}

/// A 64-bit number has at most twenty digits, and at least one unless it is zero.
pub proof fn lemma_digits_len_u64(n: u64)
    ensures
        digits(n as nat).len() <= MAX_DIGITS,
        n > 0 ==> digits(n as nat).len() >= 1,
        decimal(n as nat).len() >= 1,
        decimal(n as nat).len() <= MAX_DIGITS,
{
    assert(pow10(20) == 100_000_000_000_000_000_000nat) by {
        reveal_with_fuel(pow10, 21);
    }
    lemma_digits_len(n as nat, 20);
}

/// Every byte of `digits(n)` is a digit.
pub proof fn lemma_digits_are_digits(n: nat)
    ensures
        forall|i: int| 0 <= i < digits(n).len() ==> is_digit(#[trigger] digits(n)[i]),
    decreases n,
{
    if n != 0 {
        lemma_digits_are_digits(n / 10);
        assert forall|i: int| 0 <= i < digits(n).len() implies is_digit(
            #[trigger] digits(n)[i],
        ) by {
            if i < digits(n / 10).len() {
                assert(digits(n)[i] == digits(n / 10)[i]);
            }
        }
    }
}

/// Reading the digits of `n` gives `n` back.
pub proof fn lemma_digits_value_of_digits(n: nat)
    ensures
        digits_value(digits(n)) == n,
    decreases n,
{
    if n != 0 {
        lemma_digits_value_of_digits(n / 10);
        assert(digits(n).drop_last() =~= digits(n / 10));
    }
}

/// If the first `k` bytes of `s` are digits and the byte behind them, where
/// there is one, is none, then the leading digits of `s` are those `k` bytes.
pub proof fn lemma_digit_run(s: Seq<u8>, k: nat)
    requires
        k <= s.len(),
        forall|i: int| 0 <= i < k ==> is_digit(#[trigger] s[i]),
        k == s.len() || !is_digit(s[k as int]),
    ensures
        digit_run(s) == k,
    decreases k,
{
    if k > 0 {
        let rest = s.skip(1);
        assert forall|i: int| 0 <= i < k - 1 implies is_digit(#[trigger] rest[i]) by {
            assert(rest[i] == s[i + 1]);
        }
        lemma_digit_run(rest, (k - 1) as nat);
    }
}

/// Decoding the decimal text of a 64-bit number gives the number back.
pub proof fn lemma_decode_decimal(n: u64)
    ensures
        decode(decimal(n as nat)) == n,
{
    let text = decimal(n as nat);
    if n == 0 {
        lemma_digit_run(text, 1);
        assert(text.take(1) =~= text);
        assert(digits_value(text) == 0) by {
            reveal_with_fuel(digits_value, 2);
        }
    } else {
        lemma_digits_are_digits(n as nat);
        lemma_digit_run(text, text.len());
        assert(text.take(text.len() as int) =~= text);
        lemma_digits_value_of_digits(n as nat);
    }
}

/// Decoding stops at the first byte that is no digit: if `head` holds digits
/// only and `tail` is empty or starts with another byte, `head + tail` decodes
/// to what `head` decodes to.
pub proof fn lemma_decode_ignores_tail(head: Seq<u8>, tail: Seq<u8>)
    requires
        forall|i: int| 0 <= i < head.len() ==> is_digit(#[trigger] head[i]),
        tail.len() == 0 || !is_digit(tail[0]),
    ensures
        decode(head + tail) == decode(head),
        decode(head + tail) == saturate(digits_value(head)),
{
    let s = head + tail;
    lemma_digit_run(s, head.len());
    lemma_digit_run(head, head.len());
    assert(s.take(head.len() as int) =~= head);
    assert(head.take(head.len() as int) =~= head);
}

/// Input that is empty or starts with a byte that is no digit decodes to zero.
pub proof fn lemma_decode_without_digits(s: Seq<u8>)
    requires
        s.len() == 0 || !is_digit(s[0]),
    ensures
        decode(s) == 0,
{
}

/// The decimal text of a 64-bit number is minimal: it has one to twenty bytes,
/// all of them digits, and starts with a zero only where the number is zero.
pub proof fn lemma_decimal_is_minimal(n: u64)
    ensures
        1 <= decimal(n as nat).len() <= MAX_DIGITS,
        forall|i: int|
            0 <= i < decimal(n as nat).len() ==> is_digit(#[trigger] decimal(n as nat)[i]),
        n > 0 ==> decimal(n as nat)[0] != ASCII_ZERO,
        n == 0 ==> decimal(n as nat) == seq![ASCII_ZERO],
{
    lemma_digits_len_u64(n);
    lemma_digits_are_digits(n as nat);
    if n > 0 {
        lemma_digits_start(n as nat);
    }
}

/// The digits of a number other than zero do not start with a zero.
proof fn lemma_digits_start(n: nat)
    requires
        n > 0,
    ensures
        digits(n).len() >= 1,
        digits(n)[0] != ASCII_ZERO,
    decreases n,
{
    if n >= 10 {
        lemma_digits_start(n / 10);
    } else {
        assert(digits(n / 10) =~= Seq::<u8>::empty());
    }
}

/// The text that [`write_u64`] leaves at the front of a buffer with room for it
/// is read back by [`parse_u64`] as the number that was written, whatever the
/// buffer held before.
pub proof fn lemma_round_trip_in_buffer(before: Seq<u8>, n: u64)
    requires
        before.len() >= decimal(n as nat).len(),
    ensures
        copied_len(decimal(n as nat).len() as int, before.len() as int) == decimal(
            n as nat,
        ).len(),
        decode(
            span(overwrite_front(before, decimal(n as nat)), decimal(n as nat).len() as int),
        ) == n,
{
    let text = decimal(n as nat);
    lemma_digits_len_u64(n);
    lemma_decode_decimal(n);
    assert(span(overwrite_front(before, text), text.len() as int) =~= text);
}

/// Reads the number that the first `len` bytes of `buf` decode to: the value of
/// their leading digits, clamped to `u64::MAX`. A `len` of zero or less reads
/// nothing and gives zero; a `len` beyond the buffer reads the whole buffer.
pub fn parse_u64(buf: [u8; 64], len: i32) -> (n: u64)
    ensures
        n == decode(span(buf@, len as int)),
{
    if len <= 0 {
        proof {
            lemma_decode_without_digits(span(buf@, len as int));
        }
        return 0;
    }
    let ghost s = span(buf@, len as int);
    let mut n: u64 = 0;
    let mut i: usize = 0;
    while i < len as usize && i < 64
        invariant_except_break
            n == saturate(digits_value(s.take(i as int))),
        invariant
            len > 0,
            s == span(buf@, len as int),
            i <= s.len(),
            s.len() <= 64,
            forall|j: int| 0 <= j < i ==> is_digit(#[trigger] s[j]),
        ensures
            i == s.len() || !is_digit(s[i as int]),
            n == saturate(digits_value(s.take(i as int))),
        decreases 64 - i,
    {
        let b = buf[i];
        if b < ASCII_ZERO || b > ASCII_NINE {
            break ;
        }
        assert(s.take(i + 1).drop_last() =~= s.take(i as int));
        let scaled = match n.checked_mul(10) {
            Some(v) => v,
            None => u64::MAX,
        };
        n = scaled.saturating_add((b - ASCII_ZERO) as u64);
        i += 1;
    }
    proof {
        lemma_digit_run(s, i as nat);
    }
    n
}

/// Writes the minimal decimal text of `value` to the front of `out` and returns
/// the number of bytes written. Where `out` is shorter than the text, the
/// leading digits that fit are written; bytes of `out` behind the text keep
/// their values.
pub fn write_u64(out: &mut [u8], value: u64) -> (written: usize)
    ensures
        written == copied_len(decimal(value as nat).len() as int, old(out)@.len() as int),
        written <= MAX_DIGITS,
        final(out)@ == overwrite_front(old(out)@, decimal(value as nat)),
{
    if out.is_empty() {
        return 0;
    }
    if value == 0 {
        out[0] = ASCII_ZERO;
        return 1;
    }
    let ghost text = digits(value as nat);
    proof {
        lemma_digits_len_u64(value);
    }
    let mut rest: u64 = value;
    let mut tmp = [0u8; 20];
    let mut len: usize = 0;
    while rest > 0 && len < 20
        invariant
            len <= text.len() <= 20,
            digits(rest as nat) =~= text.take(text.len() - len),
            forall|j: int| 0 <= j < len ==> #[trigger] tmp@[j] == text[text.len() - 1 - j],
        decreases rest,
    {
        let digit = (rest % 10) as u8;
        assert(digits(rest as nat).last() == text[text.len() - len - 1]);
        tmp[len] = ASCII_ZERO + digit;
        rest /= 10;
        len += 1;
    }
    let mut i: usize = 0;
    while i < len && i < out.len()
        invariant
            len == text.len() <= 20,
            i <= len,
            i <= out@.len(),
            out@.len() == old(out)@.len(),
            forall|j: int| 0 <= j < len ==> #[trigger] tmp@[j] == text[text.len() - 1 - j],
            out@ == text.take(i as int) + old(out)@.skip(i as int),
        decreases len - i,
    {
        out[i] = tmp[len - 1 - i];
        i += 1;
    }
    i
}

} // verus!
