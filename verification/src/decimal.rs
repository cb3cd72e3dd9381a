//! Signed 32-bit integers written in decimal.
//!
//! Reading accepts what the standard library's `i32` parser accepts: an
//! optional sign, then one or more ASCII digits, with a value that fits.
//! Writing gives the shortest such form.

use vstd::prelude::*;
use crate::text::Span;

verus! {

/// `c` is one of the ten ASCII digits.
pub open spec fn is_digit(c: char) -> bool {
    '0' <= c && c <= '9'
}

/// The number that the digit `c` stands for.
pub open spec fn digit_value(c: char) -> int {
    c as int - '0' as int
}

/// The digit that stands for `d`, for `d` below ten.
pub open spec fn digit_char(d: int) -> char {
    (d + '0' as int) as char
}

/// Every character of `s` is a digit.
pub open spec fn all_digits(s: Seq<char>) -> bool {
    forall|i: int| 0 <= i < s.len() ==> is_digit(#[trigger] s[i])
}

/// The number that a run of digits stands for, most significant digit first.
pub open spec fn digits_value(s: Seq<char>) -> int
    decreases s.len(),
{
    if s.len() == 0 {
        0
    } else {
        10 * digits_value(s.drop_last()) + digit_value(s.last())
    }
}

/// `s` begins with a sign.
pub open spec fn has_sign(s: Seq<char>) -> bool {
    s.len() > 0 && (s[0] == '-' || s[0] == '+')
}

/// `s` without the sign that may begin it.
pub open spec fn unsigned_part(s: Seq<char>) -> Seq<char> {
    if has_sign(s) {
        s.skip(1)
    } else {
        s
    }
}

/// The number that `s` stands for, before any limit on its size.
pub open spec fn signed_value(s: Seq<char>) -> int {
    if s.len() > 0 && s[0] == '-' {
        -digits_value(unsigned_part(s))
    } else {
        digits_value(unsigned_part(s))
    }
}

/// The `i32` that `s` stands for: an optional `+` or `-`, then at least one
/// digit and nothing else, the value within the range of `i32`.
pub open spec fn parse_decimal(s: Seq<char>) -> Option<i32> {
    let digits = unsigned_part(s);
    if digits.len() > 0 && all_digits(digits) && i32::MIN <= signed_value(s) <= i32::MAX {
        Some(signed_value(s) as i32)
    } else {
        None
    }
}

/// The digits of `n`, without leading zeros.
pub open spec fn decimal_digits(n: nat) -> Seq<char>
    decreases n,
{
    if n < 10 {
        seq![digit_char(n as int)]
    } else {
        decimal_digits(n / 10).push(digit_char((n % 10) as int))
    }
}

/// `v` in decimal: a `-` for a negative number, then its digits.
pub open spec fn decimal(v: int) -> Seq<char> {
    if v < 0 {
        seq!['-'] + decimal_digits((-v) as nat)
    } else {
        decimal_digits(v as nat)
    }
}

/// The digits written for `n` are digits, and they stand for `n`.
pub proof fn lemma_decimal_digits(n: nat)
    ensures
        decimal_digits(n).len() > 0,
        all_digits(decimal_digits(n)),
        digits_value(decimal_digits(n)) == n,
    decreases n,
{
    if n < 10 {
        let s = decimal_digits(n);
        assert(digits_value(s.drop_last()) == 0);
    } else {
        lemma_decimal_digits(n / 10);
        let s = decimal_digits(n);
        assert(s.drop_last() == decimal_digits(n / 10));
    }
}

/// Reading what was written for an `i32` gives that number back.
pub proof fn lemma_parse_decimal(v: i32)
    ensures
        parse_decimal(decimal(v as int)) == Some(v),
{
    let s = decimal(v as int);
    if v < 0 {
        let n = (-(v as int)) as nat;
        lemma_decimal_digits(n);
        assert(s.skip(1) == decimal_digits(n));
    } else {
        let n = v as nat;
        lemma_decimal_digits(n);
    }
}

/// `s` is written as `decimal` writes: a `-` or nothing, then digits without
/// a needless leading zero, and no `-` before a lone zero.
pub open spec fn is_shortest(s: Seq<char>) -> bool {
    let negative = s.len() > 0 && s[0] == '-';
    let digits = if negative {
        s.skip(1)
    } else {
        s
    };
    &&& digits.len() > 0
    &&& all_digits(digits)
    &&& digits[0] == '0' ==> digits.len() == 1 && !negative
}

/// The digits written for a number above zero do not begin with a zero.
pub proof fn lemma_decimal_digits_leading(n: nat)
    ensures
        n > 0 ==> decimal_digits(n)[0] != '0',
        n == 0 ==> decimal_digits(n) == seq!['0'],
        n >= 10 ==> decimal_digits(n).len() > 1,
    decreases n,
{
    if n >= 10 {
        lemma_decimal_digits_leading(n / 10);
        lemma_decimal_digits(n / 10);
    }
}

/// What is written for a number is in the shortest form.
pub proof fn lemma_decimal_is_shortest(v: int)
    ensures
        is_shortest(decimal(v)),
{
    if v < 0 {
        let n = (-v) as nat;
        lemma_decimal_digits(n);
        lemma_decimal_digits_leading(n);
    } else {
        let n = v as nat;
        lemma_decimal_digits(n);
        lemma_decimal_digits_leading(n);
    }
}

/// Digits without a needless leading zero are the digits written for the
/// number they stand for.
pub proof fn lemma_digits_are_decimal(d: Seq<char>)
    requires
        d.len() > 0,
        all_digits(d),
        d[0] == '0' ==> d.len() == 1,
    ensures
        digits_value(d) >= 0,
        decimal_digits(digits_value(d) as nat) == d,
        d[0] != '0' ==> digits_value(d) > 0,
    decreases d.len(),
{
    let init = d.drop_last();
    if d.len() == 1 {
        assert(digits_value(init) == 0);
    } else {
        lemma_digits_are_decimal(init);
    }
}

/// A text in the shortest form is what is written for its value.
pub proof fn lemma_shortest_is_decimal(s: Seq<char>)
    requires
        is_shortest(s),
    ensures
        decimal(signed_value(s)) == s,
{
    if s.len() > 0 && s[0] == '-' {
        lemma_digits_are_decimal(s.skip(1));
    } else {
        lemma_digits_are_decimal(s);
    }
}

/// The `i32` that the characters under `span` stand for.
pub(crate) fn parse_i32(chars: &Vec<char>, span: Span) -> (r: Option<i32>)
    requires
        span.fits(chars@.len()),
    ensures
        r == parse_decimal(span.of(chars@)),
{
    let ghost s = span.of(chars@);
    let mut i: usize = span.start;
    let mut negative = false;
    if i < span.end && (chars[i] == '-' || chars[i] == '+') {
        negative = chars[i] == '-';
        i = i + 1;
    }
    if i == span.end {
        return None;
    }
    let first: usize = i;
    let ghost digits = unsigned_part(s);
    let mut value: i64 = 0;
    let mut too_large = false;
    while i < span.end
        invariant
            span.fits(chars@.len()),
            first <= i <= span.end,
            digits == chars@.subrange(first as int, span.end as int),
            digits == unsigned_part(span.of(chars@)),
            all_digits(digits.take(i - first)),
            too_large ==> digits_value(digits.take(i - first)) > 0x8000_0000,
            !too_large ==> value == digits_value(digits.take(i - first)),
            0 <= value <= 0x8000_0000,
        decreases span.end - i,
    {
        let c = chars[i];
        if !('0' <= c && c <= '9') {
            assert(!is_digit(digits[i - first]));
            return None;
        }
        proof {
            let next = digits.take(i - first + 1);
            assert(next.drop_last() == digits.take(i - first));
            assert(digits_value(digits.take(i - first)) >= 0) by {
                lemma_digits_value_nonnegative(digits.take(i - first));
            }
        }
        if !too_large {
            let d: i64 = (c as u32 - '0' as u32) as i64;
            value = value * 10 + d;
            if value > 0x8000_0000 {
                too_large = true;
                value = 0;
            }
        }
        i = i + 1;
    }
    assert(digits.take(i - first) == digits);
    if too_large {
        return None;
    }
    if negative {
        Some((-value) as i32)
    } else if value <= 0x7fff_ffff {
        Some(value as i32)
    } else {
        None
    }
}

/// A run of digits stands for no negative number.
pub proof fn lemma_digits_value_nonnegative(s: Seq<char>)
    requires
        all_digits(s),
    ensures
        digits_value(s) >= 0,
    decreases s.len(),
{
    if s.len() > 0 {
        lemma_digits_value_nonnegative(s.drop_last());
    }
}

/// Appends the digits of `n` to `out`.
fn push_digits(out: &mut String, n: u32)
    ensures
        final(out)@ == old(out)@ + decimal_digits(n as nat),
    decreases n,
{
    if n >= 10 {
        push_digits(out, n / 10);
    }
    let d: u8 = (n % 10) as u8;
    out.push((48u8 + d) as char);
}

/// Appends `v` in decimal to `out`.
pub(crate) fn push_decimal(out: &mut String, v: i32)
    ensures
        final(out)@ == old(out)@ + decimal(v as int),
{
    if v < 0 {
        out.push('-');
        let n: u32 = (-(v as i64)) as u32;
        push_digits(out, n);
    } else {
        push_digits(out, v as u32);
    }
}

} // verus!
