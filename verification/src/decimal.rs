//! Decimal numerals: reading digits into a number and writing a number as digits.

use crate::text::chars_of;
use vstd::prelude::*;

verus! {

/// Whether `c` is one of `0` to `9`.
pub open spec fn is_digit(c: char) -> bool {
    '0' <= c && c <= '9'
}

/// The number that a digit stands for; zero for any other character.
pub open spec fn digit_value(c: char) -> nat {
    if is_digit(c) {
        (c as int - '0' as int) as nat
    } else {
        0
    }
}

/// Whether `s` holds digits only.
pub open spec fn all_digits(s: Seq<char>) -> bool {
    forall|i: int| 0 <= i < s.len() ==> is_digit(#[trigger] s[i])
}

/// The number that the digits of `s` spell, most significant first.
pub open spec fn digits_value(s: Seq<char>) -> nat
    decreases s.len(),
{
    if s.len() == 0 {
        0
    } else {
        digits_value(s.drop_last()) * 10 + digit_value(s.last())
    }
}

/// The number written in `s`, where `s` is one digit or more and the number
/// is at most `max`; `None` for every other text.
pub open spec fn decimal_value(s: Seq<char>, max: nat) -> Option<nat> {
    if s.len() > 0 && all_digits(s) && digits_value(s) <= max {
        Some(digits_value(s))
    } else {
        None
    }
}

/// The digit that stands for `d`, where `d` is below ten.
pub open spec fn digit_char(d: nat) -> char {
    (d + '0' as nat) as char
}

/// `n` in decimal, without leading zeros.
pub open spec fn decimal_text(n: nat) -> Seq<char>
    decreases n,
{
    if n < 10 {
        seq![digit_char(n)]
    } else {
        decimal_text(n / 10).push(digit_char(n % 10))
    }
}

/// `v` in decimal, with a minus sign in front where it is negative.
pub open spec fn signed_text(v: int) -> Seq<char> {
    if v < 0 {
        seq!['-'] + decimal_text((-v) as nat)
    } else {
        decimal_text(v as nat)
    }
}

/// A longer run of digits spells no smaller a number than each of its prefixes.
pub proof fn lemma_prefix_value(s: Seq<char>, k: int)
    requires
        0 <= k <= s.len(),
    ensures
        digits_value(s.take(k)) <= digits_value(s),
    decreases s.len(),
{
    if k == s.len() {
        assert(s.take(k) == s);
    } else {
        lemma_prefix_value(s.drop_last(), k);
        assert(s.drop_last().take(k) == s.take(k));
    }
}

/// Reading what was written gives the number back.
pub proof fn lemma_read_written(n: nat, max: nat)
    requires
        n <= max,
    ensures
        decimal_text(n).len() > 0,
        all_digits(decimal_text(n)),
        digits_value(decimal_text(n)) == n,
        decimal_value(decimal_text(n), max) == Some(n),
    decreases n,
{
    if n < 10 {
        let s = seq![digit_char(n)];
        assert(s.drop_last() == Seq::<char>::empty());
        assert(is_digit(s[0]));
        assert(digits_value(s.drop_last()) == 0);
        assert(digits_value(s) == n);
    } else {
        lemma_read_written(n / 10, max);
        let head = decimal_text(n / 10);
        let s = head.push(digit_char(n % 10));
        assert(s.drop_last() == head);
        assert(is_digit(s.last()));
        assert forall|i: int| 0 <= i < s.len() implies is_digit(#[trigger] s[i]) by {
            if i < head.len() {
                assert(s[i] == head[i]);
            }
        }
        assert(digits_value(s) == (n / 10) * 10 + n % 10);
    }
}

/// Reads a run of digits as a number of at most `max`.
pub fn parse_decimal(text: &str, max: u64) -> (r: Option<u64>)
    ensures
        r matches Some(v) ==> decimal_value(text@, max as nat) == Some(v as nat),
        r is None ==> decimal_value(text@, max as nat) is None,
{
    let chars = chars_of(text);
    assert(chars@.skip(0) == chars@);
    parse_digits(&chars, 0, max)
}

/// Reads the characters from `from` on as a run of digits that spells a
/// number of at most `max`.
pub fn parse_digits(chars: &Vec<char>, from: usize, max: u64) -> (r: Option<u64>)
    requires
        from <= chars.len(),
    ensures
        r matches Some(v) ==> decimal_value(chars@.skip(from as int), max as nat) == Some(v as nat),
        r is None ==> decimal_value(chars@.skip(from as int), max as nat) is None,
{
    let ghost digits = chars@.skip(from as int);
    if chars.len() == from {
        return None;
    }
    let mut acc: u64 = 0;
    let mut i: usize = from;
    while i < chars.len()
        invariant
            digits == chars@.skip(from as int),
            from <= i <= chars.len(),
            all_digits(digits.take(i - from)),
            acc == digits_value(digits.take(i - from)),
            acc <= max,
        decreases chars.len() - i,
    {
        let c = chars[i];
        assert(digits[i - from] == c);
        if !(c >= '0' && c <= '9') {
            assert(!is_digit(digits[i - from]));
            return None;
        }
        let d: u64 = (c as u64) - ('0' as u64);
        let ghost prefix = digits.take(i + 1 - from);
        assert(prefix.drop_last() == digits.take(i - from));
        assert(prefix.last() == c);
        assert(digits_value(prefix) == acc * 10 + d);
        if d > max || acc > (max - d) / 10 {
            proof {
                lemma_prefix_value(digits, i + 1 - from);
            }
            return None;
        }
        acc = acc * 10 + d;
        assert forall|k: int| 0 <= k < prefix.len() implies is_digit(#[trigger] prefix[k]) by {
            if k < i - from {
                assert(prefix[k] == digits.take(i - from)[k]);
            }
        }
        i = i + 1;
    }
    assert(digits.take(chars.len() - from) == digits);
    Some(acc)
}

/// The number written in `s` with an optional `+` or `-` in front of one digit
/// or more, where it lies from `min` to `max`; `None` for every other text.
pub open spec fn signed_value(s: Seq<char>, min: int, max: int) -> Option<int> {
    if s.len() > 0 && s[0] == '-' {
        match decimal_value(s.skip(1), (-min) as nat) {
            Some(v) => Some(-(v as int)),
            None => None,
        }
    } else if s.len() > 0 && s[0] == '+' {
        match decimal_value(s.skip(1), max as nat) {
            Some(v) => Some(v as int),
            None => None,
        }
    } else {
        match decimal_value(s, max as nat) {
            Some(v) => Some(v as int),
            None => None,
        }
    }
}

/// Reads a number of `i64`, with an optional sign in front of its digits.
pub fn parse_signed(text: &str) -> (r: Option<i64>)
    ensures
        r matches Some(v) ==> signed_value(text@, i64::MIN as int, i64::MAX as int) == Some(
            v as int,
        ),
        r is None ==> signed_value(text@, i64::MIN as int, i64::MAX as int) is None,
{
    let chars = chars_of(text);
    if chars.len() > 0 && chars[0] == '-' {
        match parse_digits(&chars, 1, 9223372036854775808) {
            Some(v) => if v == 9223372036854775808 {
                Some(i64::MIN)
            } else {
                Some(-(v as i64))
            },
            None => None,
        }
    } else if chars.len() > 0 && chars[0] == '+' {
        match parse_digits(&chars, 1, 9223372036854775807) {
            Some(v) => Some(v as i64),
            None => None,
        }
    } else {
        assert(chars@.skip(0) == chars@);
        match parse_digits(&chars, 0, 9223372036854775807) {
            Some(v) => Some(v as i64),
            None => None,
        }
    }
}

/// Appends `n` in decimal to `out`.
pub fn push_decimal(out: &mut Vec<char>, n: u64)
    ensures
        final(out)@ == old(out)@ + decimal_text(n as nat),
    decreases n,
{
    if n >= 10 {
        push_decimal(out, n / 10);
    }
    let d: u8 = (n % 10) as u8;
    let c: char = (d + 48) as char;
    out.push(c);
    proof {
        let tail = digit_char((n % 10) as nat);
        assert(c == tail);
        if n >= 10 {
            assert(final(out)@ == old(out)@ + decimal_text(n as nat / 10).push(tail));
        } else {
            assert(final(out)@ == old(out)@ + seq![tail]);
        }
    }
}

/// Appends `v` in decimal to `out`, with a minus sign in front where it is negative.
pub fn push_signed(out: &mut Vec<char>, v: i64)
    ensures
        final(out)@ == old(out)@ + signed_text(v as int),
{
    if v < 0 {
        out.push('-');
        let m: u64 = if v == i64::MIN {
            9223372036854775808
        } else {
            (-v) as u64
        };
        push_decimal(out, m);
        assert(final(out)@ == old(out)@ + (seq!['-'] + decimal_text((-v) as nat)));
    } else {
        push_decimal(out, v as u64);
    }
}

} // verus!
