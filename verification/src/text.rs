//! Byte-level text helpers shared by the router and the two serializers:
//! literal text, decimal numbers, JSON string escaping and byte comparison.

use vstd::prelude::*;
use vstd::string::StringSliceAdditionalSpecFns;

verus! {

/// ASCII code of `"`.
pub const QUOTE: u8 = 34;

/// ASCII code of `\`.
pub const BACKSLASH: u8 = 92;

/// ASCII code of the line feed.
pub const NEWLINE: u8 = 10;

/// ASCII code of the carriage return.
pub const CARRIAGE_RETURN: u8 = 13;

/// ASCII code of the horizontal tab.
pub const TAB: u8 = 9;

/// ASCII code of the digit `0`.
pub const ZERO: u8 = 48;

/// The bytes of a piece of literal text.
pub open spec fn text(s: &str) -> Seq<u8> {
    s.spec_bytes()
}

/// Appends literal text to an output buffer.
pub fn push_text(out: &mut Vec<u8>, s: &str)
    ensures
        final(out)@ == old(out)@ + text(s),
{
    out.extend_from_slice(s.as_bytes());
}

/// Appends raw bytes to an output buffer.
pub fn push_bytes(out: &mut Vec<u8>, bytes: &[u8])
    ensures
        final(out)@ == old(out)@ + bytes@,
{
    out.extend_from_slice(bytes);
}

/// Whether two byte strings are equal, byte for byte.
pub fn bytes_eq(a: &[u8], b: &[u8]) -> (same: bool)
    ensures
        same == (a@ == b@),
{
    if a.len() != b.len() {
        return false;
    }
    let mut i: usize = 0;
    while i < a.len()
        invariant
            i <= a.len(),
            a.len() == b.len(),
            forall|k: int| 0 <= k < i ==> a@[k] == b@[k],
        decreases a.len() - i,
    {
        if a[i] != b[i] {
            return false;
        }
        i = i + 1;
    }
    assert(a@ =~= b@);
    true
}

/// Whether a byte string equals a piece of literal text.
pub fn is_text(bytes: &[u8], s: &str) -> (same: bool)
    ensures
        same == (bytes@ == text(s)),
{
    bytes_eq(bytes, s.as_bytes())
}

/// The ASCII digit for a value below ten.
pub open spec fn digit(d: nat) -> u8
    recommends
        d < 10,
{
    (ZERO + d) as u8
}

/// The decimal numeral of `n`: most significant digit first, no leading
/// zeros, and the single digit `0` for zero.
pub open spec fn decimal(n: nat) -> Seq<u8>
    decreases n,
{
    if n < 10 {
        seq![digit(n)]
    } else {
        decimal(n / 10).push(digit(n % 10))
    }
}

/// Appends the decimal numeral of `n` to an output buffer.
pub fn push_decimal(out: &mut Vec<u8>, n: u64)
    ensures
        final(out)@ == old(out)@ + decimal(n as nat),
    decreases n,
{
    if n >= 10 {
        push_decimal(out, n / 10);
    }
    let d: u8 = (n % 10) as u8;
    out.push(ZERO + d);
}

/// The decimal numeral of `n` as a fresh byte string.
pub fn u32_to_bytes(n: u32) -> (out: Vec<u8>)
    ensures
        out@ == decimal(n as nat),
{
    let mut out: Vec<u8> = Vec::new();
    push_decimal(&mut out, n as u64);
    out
}

/// Whether a byte is an ASCII decimal digit.
pub open spec fn is_digit(b: u8) -> bool {
    ZERO <= b <= ZERO + 9
}

/// Whether every byte of `s` is an ASCII decimal digit.
pub open spec fn all_digits(s: Seq<u8>) -> bool {
    forall|i: int| 0 <= i < s.len() ==> is_digit(#[trigger] s[i])
}

/// The number that a string of decimal digits denotes.
pub open spec fn digits_value(s: Seq<u8>) -> nat
    decreases s.len(),
{
    if s.len() == 0 {
        0
    } else {
        digits_value(s.drop_last()) * 10 + (s.last() - ZERO) as nat
    }
}

/// Reading of a byte string as an unsigned 32-bit decimal number: defined
/// for a non-empty string of digits whose value fits, and for nothing else.
pub open spec fn parse_decimal(s: Seq<u8>) -> Option<u32> {
    if s.len() > 0 && all_digits(s) && digits_value(s) <= u32::MAX {
        Some(digits_value(s) as u32)
    } else {
        None
    }
}

/// The value of a digit string never shrinks when digits are appended.
pub proof fn lemma_digits_value_grows(s: Seq<u8>, k: int)
    requires
        0 <= k <= s.len(),
        all_digits(s),
    ensures
        digits_value(s.take(k)) <= digits_value(s),
    decreases s.len() - k,
{
    if k == s.len() {
        assert(s.take(k) =~= s);
    } else {
        lemma_digits_value_grows(s, k + 1);
        assert(s.take(k + 1).drop_last() =~= s.take(k));
    }
}

/// Reads a byte string as an unsigned 32-bit decimal number.
pub fn parse_u32(s: &[u8]) -> (parsed: Option<u32>)
    ensures
        parsed == parse_decimal(s@),
{
    if s.len() == 0 {
        return None;
    }
    let mut value: u32 = 0;
    let mut i: usize = 0;
    while i < s.len()
        invariant
            i <= s.len(),
            all_digits(s@.take(i as int)),
            value == digits_value(s@.take(i as int)),
        decreases s.len() - i,
    {
        let b: u8 = s[i];
        if b < ZERO || b > ZERO + 9 {
            return None;
        }
        let d: u32 = (b - ZERO) as u32;
        proof {
            assert(s@.take(i + 1).drop_last() =~= s@.take(i as int));
            assert forall|k: int| 0 <= k < i + 1 implies is_digit(#[trigger] s@.take(i + 1)[k]) by {}
        }
        if value > (u32::MAX - d) / 10 {
            proof {
                if all_digits(s@) {
                    lemma_digits_value_grows(s@, i + 1);
                }
            }
            return None;
        }
        value = value * 10 + d;
        i = i + 1;
    }
    assert(s@.take(i as int) =~= s@);
    Some(value)
}

/// The decimal numeral of a number is a non-empty string of digits.
pub proof fn lemma_decimal_is_digits(n: nat)
    ensures
        decimal(n).len() > 0,
        all_digits(decimal(n)),
    decreases n,
{
    if n >= 10 {
        lemma_decimal_is_digits(n / 10);
    }
}

/// The decimal numeral of a number denotes that number.
pub proof fn lemma_decimal_value(n: nat)
    ensures
        digits_value(decimal(n)) == n,
    decreases n,
{
    if n < 10 {
        assert(digits_value(decimal(n).drop_last()) == 0);
    } else {
        lemma_decimal_value(n / 10);
        assert(decimal(n).drop_last() =~= decimal(n / 10));
    }
}

/// Reading back the decimal numeral of a 32-bit number gives the number.
pub proof fn lemma_parse_decimal_round_trip(n: u32)
    ensures
        parse_decimal(decimal(n as nat)) == Some(n),
{
    lemma_decimal_is_digits(n as nat);
    lemma_decimal_value(n as nat);
}

/// What one byte of a string becomes inside a JSON string literal: the five
/// bytes `"`, `\`, line feed, carriage return and tab become two-byte escape
/// sequences, every other byte stands for itself.
pub open spec fn escape_byte(b: u8) -> Seq<u8> {
    if b == QUOTE {
        seq![BACKSLASH, QUOTE]
    } else if b == BACKSLASH {
        seq![BACKSLASH, BACKSLASH]
    } else if b == NEWLINE {
        seq![BACKSLASH, 110u8]
    } else if b == CARRIAGE_RETURN {
        seq![BACKSLASH, 114u8]
    } else if b == TAB {
        seq![BACKSLASH, 116u8]
    } else {
        seq![b]
    }
}

/// A byte string as it stands inside a JSON string literal: the escapes of
/// its bytes, in order.
pub open spec fn escape_json(s: Seq<u8>) -> Seq<u8>
    decreases s.len(),
{
    if s.len() == 0 {
        Seq::empty()
    } else {
        escape_json(s.drop_last()) + escape_byte(s.last())
    }
}

/// Escaping distributes over concatenation.
pub proof fn lemma_escape_json_concat(a: Seq<u8>, b: Seq<u8>)
    ensures
        escape_json(a + b) == escape_json(a) + escape_json(b),
    decreases b.len(),
{
    if b.len() > 0 {
        lemma_escape_json_concat(a, b.drop_last());
        assert((a + b).drop_last() =~= a + b.drop_last());
    }
}

/// Escaping a single byte gives that byte's escape.
pub proof fn lemma_escape_json_single(b: u8)
    ensures
        escape_json(seq![b]) == escape_byte(b),
{
    let s = seq![b];
    assert(escape_json(s.drop_last()) =~= Seq::<u8>::empty());
}

/// Appends the JSON escape of `s` to an output buffer.
pub fn push_escaped(out: &mut Vec<u8>, s: &[u8])
    ensures
        final(out)@ == old(out)@ + escape_json(s@),
{
    let mut i: usize = 0;
    while i < s.len()
        invariant
            i <= s.len(),
            out@ == old(out)@ + escape_json(s@.take(i as int)),
        decreases s.len() - i,
    {
        let b: u8 = s[i];
        proof {
            assert(s@.take(i + 1).drop_last() =~= s@.take(i as int));
        }
        if b == QUOTE {
            out.push(BACKSLASH);
            out.push(QUOTE);
        } else if b == BACKSLASH {
            out.push(BACKSLASH);
            out.push(BACKSLASH);
        } else if b == NEWLINE {
            out.push(BACKSLASH);
            out.push(110u8);
        } else if b == CARRIAGE_RETURN {
            out.push(BACKSLASH);
            out.push(114u8);
        } else if b == TAB {
            out.push(BACKSLASH);
            out.push(116u8);
        } else {
            out.push(b);
        }
        i = i + 1;
    }
    assert(s@.take(i as int) =~= s@);
}

/// The JSON escape of `s` as a fresh byte string.
pub fn escape_json_string(s: &[u8]) -> (out: Vec<u8>)
    ensures
        out@ == escape_json(s@),
{
    let mut out: Vec<u8> = Vec::new();
    push_escaped(&mut out, s);
    out
}

} // verus!
