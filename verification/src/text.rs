//! Whole numbers as decimal text and back, texts cut to a width, and the
//! search for one run of bytes in another.

use vstd::prelude::*;
use vstd::string::*;
use vstd::utf8::{decode_utf8, encode_utf8, is_char_boundary};

verus! {

/// The character of the decimal digit `d`.
pub open spec fn digit(d: nat) -> char {
    if d == 0 {
        '0'
    } else if d == 1 {
        '1'
    } else if d == 2 {
        '2'
    } else if d == 3 {
        '3'
    } else if d == 4 {
        '4'
    } else if d == 5 {
        '5'
    } else if d == 6 {
        '6'
    } else if d == 7 {
        '7'
    } else if d == 8 {
        '8'
    } else {
        '9'
    }
}

/// `n` in decimal, without leading zeros; zero is the one digit `0`.
pub open spec fn decimal(n: nat) -> Seq<char>
    decreases n,
{
    if n < 10 {
        seq![digit(n)]
    } else {
        decimal(n / 10).push(digit(n % 10))
    }
}

/// The two digits of `n` below one hundred, with a leading zero below ten.
pub open spec fn two_digits(n: nat) -> Seq<char> {
    seq![digit(n / 10 % 10), digit(n % 10)]
}

/// A decimal text has at least one digit, and no leading zero but for zero
/// itself.
pub proof fn lemma_decimal_shape(n: nat)
    ensures
        decimal(n).len() >= 1,
        n < 10 <==> decimal(n).len() == 1,
        n > 0 ==> decimal(n)[0] != '0',
    decreases n,
{
    if n >= 10 {
        lemma_decimal_shape(n / 10);
    }
}

/// The text of one decimal digit.
pub fn digit_text(d: u64) -> (text: &'static str)
    requires
        d < 10,
    ensures
        text@ == seq![digit(d as nat)],
{
    proof {
        reveal_strlit("0");
        reveal_strlit("1");
        reveal_strlit("2");
        reveal_strlit("3");
        reveal_strlit("4");
        reveal_strlit("5");
        reveal_strlit("6");
        reveal_strlit("7");
        reveal_strlit("8");
        reveal_strlit("9");
    }
    let text = if d == 0 {
        "0"
    } else if d == 1 {
        "1"
    } else if d == 2 {
        "2"
    } else if d == 3 {
        "3"
    } else if d == 4 {
        "4"
    } else if d == 5 {
        "5"
    } else if d == 6 {
        "6"
    } else if d == 7 {
        "7"
    } else if d == 8 {
        "8"
    } else {
        "9"
    };
    assert(text@ =~= seq![digit(d as nat)]);
    text
}

/// Appends `n` in decimal to `out`.
pub fn push_decimal(out: &mut String, n: u128)
    ensures
        final(out)@ == old(out)@ + decimal(n as nat),
    decreases n,
{
    if n < 10 {
        out.append(digit_text(n as u64));
    } else {
        push_decimal(out, n / 10);
        out.append(digit_text((n % 10) as u64));
        assert(final(out)@ =~= old(out)@ + decimal(n as nat));
    }
}

/// Appends the two digits of `n` to `out`.
pub fn push_two_digits(out: &mut String, n: u64)
    requires
        n < 100,
    ensures
        final(out)@ == old(out)@ + two_digits(n as nat),
{
    out.append(digit_text(n / 10));
    out.append(digit_text(n % 10));
    assert(final(out)@ =~= old(out)@ + two_digits(n as nat));
}

/// `n` as decimal text.
pub fn decimal_string(n: u64) -> (text: String)
    ensures
        text@ == decimal(n as nat),
{
    let mut text = String::new();
    push_decimal(&mut text, n as u128);
    assert(text@ =~= decimal(n as nat));
    text
}

/// The mark that stands for what was cut off.
pub open spec fn ellipsis() -> char {
    '\u{2026}'
}

/// Whether `s` can be cut to `max` bytes: it fits as it is, or `max` leaves
/// room for the mark alone, or the cut does not fall inside a character.
pub open spec fn can_trim(s: Seq<char>, max: nat) -> bool {
    encode_utf8(s).len() > max && max > 1 ==> is_char_boundary(encode_utf8(s), max - 1)
}

/// `s` cut to `max` bytes: `s` itself where its UTF-8 form has at most
/// `max` bytes; else the characters of its first `max - 1` bytes and the
/// mark; the mark alone where `max` is at most one.
pub open spec fn trimmed(s: Seq<char>, max: nat) -> Seq<char> {
    let bytes = encode_utf8(s);
    if bytes.len() <= max {
        s
    } else if max <= 1 {
        seq![ellipsis()]
    } else {
        decode_utf8(bytes.subrange(0, max - 1)).push(ellipsis())
    }
}

/// What is cut off is the end: the characters kept are the first
/// characters of `s`.
pub proof fn lemma_trimmed_keeps_a_prefix(s: Seq<char>, max: nat)
    requires
        can_trim(s, max),
        encode_utf8(s).len() > max,
        max > 1,
    ensures
        trimmed(s, max).drop_last().is_prefix_of(s),
        trimmed(s, max).last() == ellipsis(),
{
    let bytes = encode_utf8(s);
    let cut = (max - 1) as int;
    vstd::utf8::encode_utf8_valid_utf8(s);
    vstd::utf8::encode_utf8_decode_utf8(s);
    vstd::utf8::decode_utf8_split(bytes, cut);
    let head = decode_utf8(bytes.subrange(0, cut));
    let tail = decode_utf8(bytes.subrange(cut, bytes.len() as int));
    assert(s =~= head + tail);
    assert(trimmed(s, max).drop_last() =~= head);
    assert(head =~= s.subrange(0, head.len() as int));
}

/// Decides `can_trim`.
pub fn can_trim_to(s: &str, max: usize) -> (fits: bool)
    ensures
        fits == can_trim(s@, max as nat),
{
    s.as_bytes().len() <= max || max <= 1 || s.is_char_boundary(max - 1)
}

/// Cuts `s` to at most `max` bytes, with a mark in place of what was cut
/// off.
pub fn trim_to(s: &str, max: usize) -> (out: String)
    requires
        can_trim(s@, max as nat),
    ensures
        out@ == trimmed(s@, max as nat),
{
    proof {
        reveal_strlit("\u{2026}");
    }
    if s.as_bytes().len() <= max {
        String::from_str(s)
    } else if max <= 1 {
        let out = String::from_str("\u{2026}");
        assert(out@ =~= seq![ellipsis()]);
        out
    } else {
        let (head, _) = s.split_at(max - 1);
        let mut out = String::from_str(head);
        out.append("\u{2026}");
        proof {
            vstd::utf8::encode_utf8_decode_utf8(head@);
            assert(out@ =~= trimmed(s@, max as nat));
        }
        out
    }
}

/// Whether `text` begins with `prefix`.
pub open spec fn starts_with(text: Seq<u8>, prefix: Seq<u8>) -> bool {
    prefix.len() <= text.len() && text.subrange(0, prefix.len() as int) == prefix
}

/// Whether `pattern` stands in `text` at the position `at`.
pub open spec fn occurs_at(text: Seq<u8>, pattern: Seq<u8>, at: int) -> bool {
    0 <= at && at + pattern.len() <= text.len() && text.subrange(at, at + pattern.len())
        == pattern
}

/// Whether `pattern` stands somewhere in `text`.
pub open spec fn contains(text: Seq<u8>, pattern: Seq<u8>) -> bool {
    exists|at: int| occurs_at(text, pattern, at)
}

/// Decides `occurs_at` for a position at which the pattern has room.
fn matches_at(text: &[u8], pattern: &[u8], at: usize) -> (hit: bool)
    requires
        at + pattern@.len() <= text@.len(),
    ensures
        hit == occurs_at(text@, pattern@, at as int),
{
    let size: usize = text.len();
    let mut i: usize = 0;
    while i < pattern.len()
        invariant
            i <= pattern@.len(),
            at + pattern@.len() <= text@.len(),
            text@.len() == size,
            forall|k: int| 0 <= k < i ==> text@[at + k] == pattern@[k],
        decreases pattern@.len() - i,
    {
        if text[at + i] != pattern[i] {
            proof {
                let window = text@.subrange(at as int, at + pattern@.len());
                assert(window[i as int] != pattern@[i as int]);
            }
            return false;
        }
        i += 1;
    }
    assert(text@.subrange(at as int, at + pattern@.len()) =~= pattern@);
    true
}

/// Decides `starts_with`.
pub fn bytes_start_with(text: &[u8], prefix: &[u8]) -> (hit: bool)
    ensures
        hit == starts_with(text@, prefix@),
{
    if prefix.len() > text.len() {
        return false;
    }
    matches_at(text, prefix, 0)
}

/// Decides `contains`.
pub fn bytes_contain(text: &[u8], pattern: &[u8]) -> (hit: bool)
    ensures
        hit == contains(text@, pattern@),
{
    if pattern.len() > text.len() {
        assert forall|at: int| !occurs_at(text@, pattern@, at) by {}
        return false;
    }
    let last: usize = text.len() - pattern.len();
    let mut at: usize = 0;
    loop
        invariant
            last == text@.len() - pattern@.len(),
            at <= last,
            forall|k: int| 0 <= k < at ==> !occurs_at(text@, pattern@, k),
        decreases last - at,
    {
        if matches_at(text, pattern, at) {
            return true;
        }
        if at == last {
            assert forall|k: int| !occurs_at(text@, pattern@, k) by {}
            return false;
        }
        at += 1;
    }
}

/// The number that a run of decimal digits stands for.
pub open spec fn digits_value(digits: Seq<u8>) -> nat
    decreases digits.len(),
{
    if digits.len() == 0 {
        0
    } else {
        digits_value(digits.drop_last()) * 10 + (digits.last() - 0x30) as nat
    }
}

/// Whether every byte is a decimal digit.
pub open spec fn all_digits(digits: Seq<u8>) -> bool {
    forall|i: int| 0 <= i < digits.len() ==> 0x30 <= #[trigger] digits[i] <= 0x39
}

/// `text` without one leading plus sign.
pub open spec fn unsigned_part(text: Seq<u8>) -> Seq<u8> {
    if text.len() > 0 && text[0] == 0x2b {
        text.drop_first()
    } else {
        text
    }
}

/// The number that `text` stands for: decimal digits, at least one, behind
/// at most one plus sign, with a value that fits 64 bits.
pub open spec fn number_of(text: Seq<u8>) -> Option<u64> {
    let digits = unsigned_part(text);
    if digits.len() > 0 && all_digits(digits) && digits_value(digits) <= u64::MAX {
        Some(digits_value(digits) as u64)
    } else {
        None
    }
}

/// A longer run of digits stands for a number that is at least as large.
proof fn lemma_digits_value_grows(digits: Seq<u8>, n: int)
    requires
        0 <= n <= digits.len(),
        all_digits(digits),
    ensures
        digits_value(digits.take(n)) <= digits_value(digits),
    decreases digits.len() - n,
{
    if n < digits.len() {
        lemma_digits_value_grows(digits, n + 1);
        assert(digits.take(n + 1).drop_last() =~= digits.take(n));
        assert(digits.take(n + 1).last() == digits[n]);
    } else {
        assert(digits.take(n) =~= digits);
    }
}

/// Reads a number as `number_of` says.
pub fn parse_number(text: &[u8]) -> (number: Option<u64>)
    ensures
        number == number_of(text@),
{
    let start: usize = if text.len() > 0 && text[0] == 0x2b {
        1
    } else {
        0
    };
    let ghost digits = unsigned_part(text@);
    assert(digits =~= text@.skip(start as int));
    if start >= text.len() {
        return None;
    }
    let mut value: u64 = 0;
    let mut i: usize = start;
    while i < text.len()
        invariant
            start <= i <= text@.len(),
            digits == unsigned_part(text@),
            digits == text@.skip(start as int),
            forall|k: int| 0 <= k < i - start ==> 0x30 <= #[trigger] digits[k] <= 0x39,
            value == digits_value(digits.take(i - start)),
        decreases text@.len() - i,
    {
        let byte = text[i];
        assert(digits[i - start] == byte);
        if byte < 0x30 || byte > 0x39 {
            assert(!all_digits(digits)) by {
                assert(!(0x30 <= digits[i - start] <= 0x39));
            }
            return None;
        }
        let digit: u64 = (byte - 0x30) as u64;
        proof {
            assert(digits.take(i - start + 1).drop_last() =~= digits.take(i - start));
            assert(digits.take(i - start + 1).last() == byte);
        }
        if value > (u64::MAX - digit) / 10 {
            proof {
                // The digits read so far already stand for too much.
                let read = i - start + 1;
                assert(digits_value(digits.take(read)) == value * 10 + digit);
                assert(value * 10 + digit > u64::MAX) by (nonlinear_arith)
                    requires
                        value > (u64::MAX - digit) / 10,
                        digit <= 9,
                ;
                if all_digits(digits) {
                    lemma_digits_value_grows(digits, read);
                }
            }
            return None;
        }
        value = value * 10 + digit;
        i += 1;
    }
    proof {
        assert(digits.take(i - start) =~= digits);
    }
    Some(value)
}

} // verus!
