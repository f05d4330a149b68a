//! Unsigned decimal numbers in text.

use crate::text::Span;
use vstd::prelude::*;

verus! {

/// Whether `c` is one of the ASCII digits `0` to `9`.
pub open spec fn is_digit(c: char) -> bool {
    0x30 <= c as u32 <= 0x39
}

/// The value of the ASCII digit `c`.
pub open spec fn digit_value(c: char) -> int {
    c as u32 - 0x30
}

/// Whether `s` holds ASCII digits only.
pub open spec fn all_digits(s: Seq<char>) -> bool {
    forall|i: int| 0 <= i < s.len() ==> is_digit(#[trigger] s[i])
}

/// The number that the digits of `s` write in base ten.
pub open spec fn decimal_value(s: Seq<char>) -> int
    decreases s.len(),
{
    if s.len() == 0 {
        0
    } else {
        10 * decimal_value(s.drop_last()) + digit_value(s.last())
    }
}

/// `s` without one leading plus sign, if it starts with one.
pub open spec fn unsigned_digits(s: Seq<char>) -> Seq<char> {
    if s.len() > 0 && s[0] == '+' {
        s.skip(1)
    } else {
        s
    }
}

/// The number that `s` writes, provided that `s` is an optional plus sign
/// followed by one or more ASCII digits and nothing else, and that the
/// number is at most `max`.
pub open spec fn parse_unsigned(s: Seq<char>, max: int) -> Option<int> {
    let digits = unsigned_digits(s);
    if digits.len() > 0 && all_digits(digits) && decimal_value(digits) <= max {
        Some(decimal_value(digits))
    } else {
        None
    }
}

/// A parsed `u64` as the number it stands for.
pub open spec fn number(parsed: Option<u64>) -> Option<int> {
    match parsed {
        Some(v) => Some(v as int),
        None => None,
    }
}

/// Reading one more digit multiplies the value by ten and adds the digit.
pub proof fn lemma_decimal_step(s: Seq<char>, k: int)
    requires
        0 <= k < s.len(),
    ensures
        decimal_value(s.take(k + 1)) == 10 * decimal_value(s.take(k)) + digit_value(s[k]),
{
    assert(s.take(k + 1).drop_last() == s.take(k));
}

/// A run of digits is worth at least as much as any of its prefixes.
pub proof fn lemma_decimal_prefix(s: Seq<char>, k: int)
    requires
        0 <= k <= s.len(),
        all_digits(s),
    ensures
        0 <= decimal_value(s.take(k)) <= decimal_value(s),
    decreases s.len() - k,
{
    if k == s.len() {
        assert(s.take(k) == s);
        lemma_decimal_nonnegative(s);
    } else {
        lemma_decimal_step(s, k);
        lemma_decimal_prefix(s, k + 1);
        assert(is_digit(s[k]));
        lemma_decimal_nonnegative(s.take(k));
    }
}

/// A run of digits is worth at least zero.
pub proof fn lemma_decimal_nonnegative(s: Seq<char>)
    requires
        all_digits(s),
    ensures
        0 <= decimal_value(s),
    decreases s.len(),
{
    if s.len() > 0 {
        assert(is_digit(s.last()));
        lemma_decimal_nonnegative(s.drop_last());
    }
}

/// A number that parses lies between zero and the bound.
pub proof fn lemma_parse_unsigned_range(s: Seq<char>, max: int)
    ensures
        parse_unsigned(s, max) matches Some(value) ==> 0 <= value <= max,
{
    if parse_unsigned(s, max) is Some {
        lemma_decimal_nonnegative(unsigned_digits(s));
    }
}

/// Parses the unsigned decimal number that `span` writes, up to `max`.
pub fn parse_bounded(chars: &Vec<char>, span: Span, max: u64) -> (parsed: Option<u64>)
    requires
        span.fits(chars@.len()),
    ensures
        number(parsed) == parse_unsigned(span.of(chars@), max as int),
{
    let first = if span.start < span.end && chars[span.start] == '+' {
        span.start + 1
    } else {
        span.start
    };
    let ghost digits = unsigned_digits(span.of(chars@));
    proof {
        assert(digits == chars@.subrange(first as int, span.end as int));
    }
    if first == span.end {
        return None;
    }
    let mut acc: u64 = 0;
    let mut i: usize = first;
    proof {
        assert(digits.take(0).len() == 0);
    }
    while i < span.end
        invariant
            span.fits(chars@.len()),
            span.start <= first <= i <= span.end,
            digits == chars@.subrange(first as int, span.end as int),
            digits == unsigned_digits(span.of(chars@)),
            all_digits(digits.take(i - first)),
            acc == decimal_value(digits.take(i - first)),
            acc <= max,
        decreases span.end - i,
    {
        let code: u32 = chars[i] as u32;
        proof {
            assert(digits[i - first] == chars@[i as int]);
        }
        if code < 0x30 || code > 0x39 {
            proof {
                assert(!is_digit(digits[i - first]));
            }
            return None;
        }
        let digit: u64 = (code - 0x30) as u64;
        proof {
            lemma_decimal_step(digits, i - first);
            assert forall|j: int| 0 <= j < i - first + 1 implies is_digit(
                #[trigger] digits.take(i - first + 1)[j],
            ) by {
                if j < i - first {
                    assert(digits.take(i - first)[j] == digits.take(i - first + 1)[j]);
                }
            }
        }
        if digit > max || acc > (max - digit) / 10 {
            proof {
                if all_digits(digits) {
                    lemma_decimal_prefix(digits, i - first + 1);
                }
            }
            return None;
        }
        acc = acc * 10 + digit;
        i = i + 1;
    }
    proof {
        assert(digits.take(i - first) == digits);
    }
    Some(acc)
}

} // verus!
