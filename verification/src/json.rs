//! The JSON texts of which the wire form is made: strings, numbers, the
//! absent value and lists of strings.
//!
//! For each kind there is a spec function that gives the text of a value, an
//! executable function that appends that text, a spec function that reads a
//! value from the front of a text, and an executable function that computes
//! it. The lemmas say that reading and writing are inverse: what was written
//! is read back, and what is read is what would be written.

use vstd::prelude::*;
use vstd::string::StringExecFns;
use crate::decimal::{
    decimal, decimal_digits, is_digit, is_shortest, lemma_decimal_digits,
    lemma_decimal_is_shortest, lemma_parse_decimal, lemma_shortest_is_decimal, parse_decimal,
    parse_i32, signed_value,
};
use crate::text::{optional_view, span_equals, strings_view, to_chars, Span};

verus! {

/// The hexadecimal digit, in lower case, that stands for `d`.
pub open spec fn hex_digit(d: int) -> char {
    if d < 10 {
        (d + '0' as int) as char
    } else {
        (d - 10 + 'a' as int) as char
    }
}

/// The number that a lower-case hexadecimal digit stands for.
pub open spec fn hex_value(c: char) -> Option<int> {
    if '0' <= c && c <= '9' {
        Some(c as int - '0' as int)
    } else if 'a' <= c && c <= 'f' {
        Some(c as int - 'a' as int + 10)
    } else {
        None
    }
}

/// The letter that stands for `c` behind a backslash, for the seven
/// characters that have one.
pub open spec fn short_escape(c: char) -> Option<char> {
    if c == '"' {
        Some('"')
    } else if c == '\\' {
        Some('\\')
    } else if c == '\u{8}' {
        Some('b')
    } else if c == '\u{c}' {
        Some('f')
    } else if c == '\n' {
        Some('n')
    } else if c == '\r' {
        Some('r')
    } else if c == '\t' {
        Some('t')
    } else {
        None
    }
}

/// The character that the letter `d` stands for behind a backslash.
pub open spec fn short_unescape(d: char) -> Option<char> {
    if d == '"' {
        Some('"')
    } else if d == '\\' {
        Some('\\')
    } else if d == 'b' {
        Some('\u{8}')
    } else if d == 'f' {
        Some('\u{c}')
    } else if d == 'n' {
        Some('\n')
    } else if d == 'r' {
        Some('\r')
    } else if d == 't' {
        Some('\t')
    } else {
        None
    }
}

/// One character as it stands inside a JSON string: the quote, the backslash
/// and the control characters are escaped, all others stand for themselves.
pub open spec fn escape_char(c: char) -> Seq<char> {
    match short_escape(c) {
        Some(d) => seq!['\\', d],
        None => if (c as int) < 0x20 {
            seq!['\\', 'u', '0', '0', hex_digit(c as int / 16), hex_digit(c as int % 16)]
        } else {
            seq![c]
        },
    }
}

/// The characters of `s` as they stand inside a JSON string.
pub open spec fn escape(s: Seq<char>) -> Seq<char>
    decreases s.len(),
{
    if s.len() == 0 {
        Seq::empty()
    } else {
        escape(s.drop_last()) + escape_char(s.last())
    }
}

/// `s` as a JSON string: escaped, between quotes.
pub open spec fn quoted(s: Seq<char>) -> Seq<char> {
    seq!['"'] + escape(s) + seq!['"']
}

/// `c` stands for itself inside a JSON string.
pub open spec fn is_plain(c: char) -> bool {
    short_escape(c) is None && (c as int) >= 0x20
}

/// The character, escaped or not, at the front of `s`, and how many
/// characters of `s` it takes. Only the escapes that `escape_char` writes
/// are read.
pub open spec fn take_char(s: Seq<char>) -> Option<(char, int)> {
    if s.len() == 0 {
        None
    } else if s[0] != '\\' {
        if is_plain(s[0]) {
            Some((s[0], 1))
        } else {
            None
        }
    } else if s.len() < 2 {
        None
    } else if short_unescape(s[1]) is Some {
        Some((short_unescape(s[1])->0, 2))
    } else if s[1] == 'u' && s.len() >= 6 && s[2] == '0' && s[3] == '0' && hex_value(s[4]) is Some
        && hex_value(s[5]) is Some {
        let code = 16 * hex_value(s[4])->0 + hex_value(s[5])->0;
        if code < 0x20 && short_escape(code as char) is None {
            Some((code as char, 6))
        } else {
            None
        }
    } else {
        None
    }
}

/// A reading that goes on behind `n` characters that stood for `front`.
pub open spec fn behind(front: Seq<char>, n: int, r: Option<(Seq<char>, int)>) -> Option<
    (Seq<char>, int),
> {
    match r {
        Some((rest, m)) => Some((front + rest, n + m)),
        None => None,
    }
}

/// The string whose inside begins `s`, up to the closing quote, and how many
/// characters of `s` it takes, the quote included.
pub open spec fn take_inside(s: Seq<char>) -> Option<(Seq<char>, int)>
    decreases s.len(),
{
    if s.len() == 0 {
        None
    } else if s[0] == '"' {
        Some((Seq::empty(), 1))
    } else {
        match take_char(s) {
            Some((c, n)) => behind(seq![c], n, take_inside(s.skip(n))),
            None => None,
        }
    }
}

/// The JSON string at the front of `s`, and how many characters it takes.
pub open spec fn take_string(s: Seq<char>) -> Option<(Seq<char>, int)> {
    if s.len() > 0 && s[0] == '"' {
        behind(Seq::empty(), 1, take_inside(s.skip(1)))
    } else {
        None
    }
}

/// A single character escaped is that character's escape.
pub proof fn lemma_escape_one(c: char)
    ensures
        escape(seq![c]) == escape_char(c),
{
    assert(seq![c].drop_last() == Seq::<char>::empty());
    assert(escape(Seq::<char>::empty()) == Seq::<char>::empty());
}

/// Escaping goes character by character.
pub proof fn lemma_escape_concat(a: Seq<char>, b: Seq<char>)
    ensures
        escape(a + b) == escape(a) + escape(b),
    decreases b.len(),
{
    if b.len() > 0 {
        lemma_escape_concat(a, b.drop_last());
        assert((a + b).drop_last() == a + b.drop_last());
    }
}

/// An escaped character is read back as the character, whatever follows.
pub proof fn lemma_take_escaped_char(c: char, rest: Seq<char>)
    ensures
        take_char(escape_char(c) + rest) == Some((c, escape_char(c).len() as int)),
        (escape_char(c) + rest)[0] != '"',
{
    if short_escape(c) is None && (c as int) < 0x20 {
        assert((escape_char(c) + rest)[2] == '0');
    }
}

/// The inside of a string is read back up to its closing quote.
pub proof fn lemma_take_inside(x: Seq<char>, rest: Seq<char>)
    ensures
        take_inside(escape(x) + seq!['"'] + rest) == Some((x, (escape(x).len() + 1) as int)),
    decreases x.len(),
{
    if x.len() > 0 {
        let c = x[0];
        let tail = x.skip(1);
        let after = escape(tail) + seq!['"'] + rest;
        assert(x == seq![c] + tail);
        lemma_escape_concat(seq![c], tail);
        lemma_escape_one(c);
        lemma_take_escaped_char(c, after);
        assert((escape(x) + seq!['"'] + rest).skip(escape_char(c).len() as int) == after);
        lemma_take_inside(tail, rest);
    }
}

/// A written string is read back, whatever follows it.
pub proof fn lemma_take_string(x: Seq<char>, rest: Seq<char>)
    ensures
        take_string(quoted(x) + rest) == Some((x, quoted(x).len() as int)),
{
    assert((quoted(x) + rest).skip(1) == escape(x) + seq!['"'] + rest);
    lemma_take_inside(x, rest);
}

/// What is read as a character is that character as `escape_char` writes
/// it.
pub proof fn lemma_take_char_sound(s: Seq<char>)
    ensures
        take_char(s) matches Some((c, n)) ==> 1 <= n <= s.len() && s.take(n) == escape_char(c),
{
}

/// What is read as the inside of a string is that string, escaped, and its
/// closing quote.
pub proof fn lemma_take_inside_sound(s: Seq<char>)
    ensures
        take_inside(s) matches Some((x, n)) ==> 1 <= n <= s.len() && s.take(n) == escape(x)
            + seq!['"'],
    decreases s.len(),
{
    if take_inside(s) is Some && s[0] != '"' {
        let (c, k) = take_char(s).unwrap();
        let after = s.skip(k);
        let (rest, m) = take_inside(after).unwrap();
        lemma_take_char_sound(s);
        lemma_take_inside_sound(after);
        assert(s.take(k + m) == s.take(k) + after.take(m));
        lemma_escape_concat(seq![c], rest);
        lemma_escape_one(c);
    }
}

/// What is read as a string is that string as `quoted` writes it.
pub proof fn lemma_take_string_sound(s: Seq<char>)
    ensures
        take_string(s) matches Some((x, n)) ==> 2 <= n <= s.len() && s.take(n) == quoted(x),
{
    if take_string(s) is Some {
        let inside = s.skip(1);
        let (_, m) = take_inside(inside).unwrap();
        lemma_take_inside_sound(inside);
        assert(s.take(1 + m) == seq!['"'] + inside.take(m));
    }
}

/// The letter that stands for `c` behind a backslash.
fn short_escape_of(c: char) -> (r: Option<char>)
    ensures
        r == short_escape(c),
{
    if c == '"' {
        Some('"')
    } else if c == '\\' {
        Some('\\')
    } else if c == '\u{8}' {
        Some('b')
    } else if c == '\u{c}' {
        Some('f')
    } else if c == '\n' {
        Some('n')
    } else if c == '\r' {
        Some('r')
    } else if c == '\t' {
        Some('t')
    } else {
        None
    }
}

/// Appends one character as it stands inside a JSON string.
fn push_escaped_char(out: &mut String, c: char)
    ensures
        final(out)@ == old(out)@ + escape_char(c),
{
    match short_escape_of(c) {
        Some(letter) => {
            out.push('\\');
            out.push(letter);
        },
        None => {
            if (c as u32) < 0x20 {
                let code: u8 = c as u8;
                out.push('\\');
                out.push('u');
                out.push('0');
                out.push('0');
                out.push(hex_digit_of(code / 16));
                out.push(hex_digit_of(code % 16));
            } else {
                out.push(c);
            }
        },
    }
}

/// The lower-case hexadecimal digit for `d`.
fn hex_digit_of(d: u8) -> (c: char)
    requires
        d < 16,
    ensures
        c == hex_digit(d as int),
{
    if d < 10 {
        (48u8 + d) as char
    } else {
        (87u8 + d) as char
    }
}

/// Appends `s` as a JSON string.
pub(crate) fn push_quoted(out: &mut String, s: &str)
    ensures
        final(out)@ == old(out)@ + quoted(s@),
{
    let ghost before = out@;
    out.push('"');
    for c in it: s.chars()
        invariant
            it.seq() == s@,
            out@ == before + seq!['"'] + escape(it.seq().take(it.index())),
    {
        assert(s@.take(it.index() + 1).drop_last() == s@.take(it.index()));
        push_escaped_char(out, c);
    }
    out.push('"');
    assert(s@.take(s@.len() as int) == s@);
    assert(out@ == before + quoted(s@));
}

/// The number that a lower-case hexadecimal digit stands for.
fn hex_value_of(c: char) -> (r: Option<u8>)
    ensures
        match hex_value(c) {
            Some(v) => r == Some(v as u8) && v < 16,
            None => r is None,
        },
{
    if '0' <= c && c <= '9' {
        Some((c as u32 - '0' as u32) as u8)
    } else if 'a' <= c && c <= 'f' {
        Some((c as u32 - 'a' as u32 + 10) as u8)
    } else {
        None
    }
}

/// The character that the letter `d` stands for behind a backslash.
fn short_unescape_of(d: char) -> (r: Option<char>)
    ensures
        r == short_unescape(d),
{
    if d == '"' {
        Some('"')
    } else if d == '\\' {
        Some('\\')
    } else if d == 'b' {
        Some('\u{8}')
    } else if d == 'f' {
        Some('\u{c}')
    } else if d == 'n' {
        Some('\n')
    } else if d == 'r' {
        Some('\r')
    } else if d == 't' {
        Some('\t')
    } else {
        None
    }
}

/// The character, escaped or not, at `pos`, and the position behind it.
fn read_char(chars: &Vec<char>, pos: usize) -> (r: Option<(char, usize)>)
    requires
        pos <= chars.len(),
    ensures
        match take_char(chars@.skip(pos as int)) {
            Some((c, n)) => r == Some((c, (pos + n) as usize)) && n >= 1 && pos + n <= chars.len(),
            None => r is None,
        },
{
    let len = chars.len();
    if pos >= len {
        return None;
    }
    let c = chars[pos];
    if c != '\\' {
        let letter = short_escape_of(c);
        return if c >= ' ' && letter.is_none() {
            Some((c, pos + 1))
        } else {
            None
        };
    }
    if len - pos < 2 {
        return None;
    }
    let d = chars[pos + 1];
    match short_unescape_of(d) {
        Some(plain) => Some((plain, pos + 2)),
        None => {
            if d == 'u' && len - pos >= 6 && chars[pos + 2] == '0' && chars[pos + 3] == '0' {
                match (hex_value_of(chars[pos + 4]), hex_value_of(chars[pos + 5])) {
                    (Some(high), Some(low)) => {
                        let code: u8 = 16 * high + low;
                        let escaped = code as char;
                        let letter = short_escape_of(escaped);
                        if code < 0x20 && letter.is_none() {
                            Some((escaped, pos + 6))
                        } else {
                            None
                        }
                    },
                    _ => None,
                }
            } else {
                None
            }
        },
    }
}

/// The JSON string at `pos`, and the position behind it.
pub(crate) fn read_string(chars: &Vec<char>, pos: usize) -> (r: Option<(String, usize)>)
    requires
        pos <= chars.len(),
    ensures
        match take_string(chars@.skip(pos as int)) {
            Some((x, n)) => r matches Some((s, p)) && s@ == x && p == pos + n && pos + 2 <= p
                <= chars.len(),
            None => r is None,
        },
{
    if pos >= chars.len() || chars[pos] != '"' {
        return None;
    }
    let ghost start = pos + 1;
    let mut out = String::new();
    let mut p: usize = pos + 1;
    assert(chars@.skip(pos as int).skip(1) == chars@.skip(start));
    assert(behind(out@, 0, take_inside(chars@.skip(p as int))) == take_inside(chars@.skip(start)));
    loop
        invariant
            start == pos + 1,
            start <= p <= chars.len(),
            take_string(chars@.skip(pos as int)) == behind(
                Seq::empty(),
                1,
                take_inside(chars@.skip(start)),
            ),
            behind(out@, p - start, take_inside(chars@.skip(p as int))) == take_inside(
                chars@.skip(start),
            ),
        decreases chars.len() - p,
    {
        if p >= chars.len() {
            return None;
        }
        if chars[p] == '"' {
            return Some((out, p + 1));
        }
        match read_char(chars, p) {
            None => {
                return None;
            },
            Some((c, next)) => {
                assert(chars@.skip(p as int).skip(next - p) == chars@.skip(next as int));
                out.push(c);
                p = next;
            },
        }
    }
}

/// `literal` stands at `pos`; the position behind it.
pub(crate) fn expect(chars: &Vec<char>, pos: usize, literal: &str) -> (r: Option<usize>)
    requires
        pos <= chars.len(),
    ensures
        match r {
            Some(p) => p == pos + literal@.len() && p <= chars.len() && literal@.is_prefix_of(
                chars@.skip(pos as int),
            ),
            None => !literal@.is_prefix_of(chars@.skip(pos as int)),
        },
{
    let wanted = to_chars(literal);
    if wanted.len() > chars.len() - pos {
        return None;
    }
    let span = Span { start: pos, end: pos + wanted.len() };
    assert(span.of(chars@) == chars@.skip(pos as int).subrange(0, wanted@.len() as int));
    if span_equals(chars, span, &wanted) {
        Some(span.end)
    } else {
        None
    }
}

/// `c` may stand in a number: a digit or the minus sign.
pub open spec fn is_number_char(c: char) -> bool {
    is_digit(c) || c == '-'
}

/// The first `n` characters of `s` may stand in a number, and the next one,
/// if there is one, may not.
pub open spec fn is_number_end(s: Seq<char>, n: int) -> bool {
    &&& 0 <= n <= s.len()
    &&& forall|i: int| 0 <= i < n ==> is_number_char(#[trigger] s[i])
    &&& n < s.len() ==> !is_number_char(s[n])
}

/// How many characters at the front of `s` may stand in a number.
pub open spec fn number_len(s: Seq<char>) -> int {
    choose|n: int| is_number_end(s, n)
}

/// The number at the front of `s`, and how many characters it takes. Only
/// the shortest form of a number is read.
pub open spec fn take_number(s: Seq<char>) -> Option<(i32, int)> {
    let text = s.take(number_len(s));
    if is_shortest(text) {
        match parse_decimal(text) {
            Some(v) => Some((v, number_len(s))),
            None => None,
        }
    } else {
        None
    }
}

/// The run of number characters at the front of a text ends in one place.
pub proof fn lemma_number_len(s: Seq<char>, n: int)
    requires
        is_number_end(s, n),
    ensures
        number_len(s) == n,
{
}

/// A written number is read back, when what follows cannot belong to it.
pub proof fn lemma_take_number(v: i32, rest: Seq<char>)
    requires
        rest.len() == 0 || !is_number_char(rest[0]),
    ensures
        take_number(decimal(v as int) + rest) == Some((v, decimal(v as int).len() as int)),
{
    let d = decimal(v as int);
    let s = d + rest;
    if v < 0 {
        lemma_decimal_digits((-(v as int)) as nat);
    } else {
        lemma_decimal_digits(v as nat);
    }
    assert forall|i: int| 0 <= i < d.len() implies is_number_char(#[trigger] s[i]) by {}
    lemma_number_len(s, d.len() as int);
    assert(s.take(d.len() as int) == d);
    lemma_parse_decimal(v);
    lemma_decimal_is_shortest(v as int);
}

/// The run of number characters at the front of a text has an end.
pub proof fn lemma_number_end(s: Seq<char>)
    ensures
        is_number_end(s, number_len(s)),
{
    lemma_number_end_from(s, 0);
}

/// Behind `k` number characters, the run of number characters ends
/// somewhere.
proof fn lemma_number_end_from(s: Seq<char>, k: int)
    requires
        0 <= k <= s.len(),
        forall|i: int| 0 <= i < k ==> is_number_char(#[trigger] s[i]),
    ensures
        exists|n: int| is_number_end(s, n),
    decreases s.len() - k,
{
    if k < s.len() && is_number_char(s[k]) {
        lemma_number_end_from(s, k + 1);
    } else {
        assert(is_number_end(s, k));
    }
}

/// What is read as a number is that number as `decimal` writes it.
pub proof fn lemma_take_number_sound(s: Seq<char>)
    ensures
        take_number(s) matches Some((v, n)) ==> 1 <= n <= s.len() && s.take(n) == decimal(
            v as int,
        ),
{
    if take_number(s) is Some {
        lemma_number_end(s);
        lemma_shortest_is_decimal(s.take(number_len(s)));
    }
}

/// The number at `pos`, and the position behind it.
pub(crate) fn read_number(chars: &Vec<char>, pos: usize) -> (r: Option<(i32, usize)>)
    requires
        pos <= chars.len(),
    ensures
        match take_number(chars@.skip(pos as int)) {
            Some((v, n)) => r == Some((v, (pos + n) as usize)) && pos <= pos + n <= chars.len(),
            None => r is None,
        },
{
    let ghost s = chars@.skip(pos as int);
    let mut p: usize = pos;
    while p < chars.len() && (chars[p] == '-' || ('0' <= chars[p] && chars[p] <= '9'))
        invariant
            pos <= p <= chars.len(),
            s == chars@.skip(pos as int),
            forall|i: int| 0 <= i < p - pos ==> is_number_char(#[trigger] s[i]),
        decreases chars.len() - p,
    {
        p = p + 1;
    }
    proof {
        lemma_number_len(s, p - pos);
        assert(s.take(p - pos) == chars@.subrange(pos as int, p as int));
    }
    match parse_i32(chars, Span { start: pos, end: p }) {
        Some(v) => {
            let negative = chars[pos] == '-';
            let first: usize = if negative {
                pos + 1
            } else {
                pos
            };
            if chars[first] == '0' && (negative || p - first > 1) {
                None
            } else {
                Some((v, p))
            }
        },
        None => None,
    }
}

/// An optional string as JSON: the string, or `null` where there is none.
pub open spec fn optional_text(v: Option<Seq<char>>) -> Seq<char> {
    match v {
        Some(s) => quoted(s),
        None => "null"@,
    }
}

/// The optional string at the front of `s`, and how many characters it
/// takes.
pub open spec fn take_optional(s: Seq<char>) -> Option<(Option<Seq<char>>, int)> {
    if "null"@.is_prefix_of(s) {
        Some((None, "null"@.len() as int))
    } else {
        match take_string(s) {
            Some((x, n)) => Some((Some(x), n)),
            None => None,
        }
    }
}

/// A written optional string is read back, whatever follows it.
pub proof fn lemma_take_optional(v: Option<Seq<char>>, rest: Seq<char>)
    ensures
        take_optional(optional_text(v) + rest) == Some((v, optional_text(v).len() as int)),
{
    reveal_strlit("null");
    match v {
        Some(x) => {
            assert("null"@[0] == 'n');
            lemma_take_string(x, rest);
        },
        None => {},
    }
}

/// What is read as an optional string is that value as `optional_text`
/// writes it.
pub proof fn lemma_take_optional_sound(s: Seq<char>)
    ensures
        take_optional(s) matches Some((v, n)) ==> 1 <= n <= s.len() && s.take(n) == optional_text(
            v,
        ),
{
    reveal_strlit("null");
    if !"null"@.is_prefix_of(s) {
        lemma_take_string_sound(s);
    }
}

/// Appends an optional string as JSON.
pub(crate) fn push_optional(out: &mut String, v: &Option<String>)
    ensures
        final(out)@ == old(out)@ + optional_text(optional_view(*v)),
{
    match v {
        Some(s) => push_quoted(out, s.as_str()),
        None => out.append("null"),
    }
}

/// The optional string at `pos`, and the position behind it.
pub(crate) fn read_optional(chars: &Vec<char>, pos: usize) -> (r: Option<(Option<String>, usize)>)
    requires
        pos <= chars.len(),
    ensures
        match take_optional(chars@.skip(pos as int)) {
            Some((v, n)) => r matches Some((s, p)) && optional_view(s) == v && p
                == pos + n && pos <= p <= chars.len(),
            None => r is None,
        },
{
    match expect(chars, pos, "null") {
        Some(p) => Some((None, p)),
        None => match read_string(chars, pos) {
            Some((s, p)) => Some((Some(s), p)),
            None => None,
        },
    }
}

/// The strings of a list as they stand between its brackets: each as a JSON
/// string, a comma between any two.
pub open spec fn list_items(xs: Seq<Seq<char>>) -> Seq<char>
    decreases xs.len(),
{
    if xs.len() == 0 {
        Seq::empty()
    } else if xs.len() == 1 {
        quoted(xs[0])
    } else {
        list_items(xs.drop_last()) + seq![','] + quoted(xs.last())
    }
}

/// A list of strings as a JSON array.
pub open spec fn list_text(xs: Seq<Seq<char>>) -> Seq<char> {
    seq!['['] + list_items(xs) + seq![']']
}

/// A reading of a list that goes on behind `n` characters that stood for
/// `front`.
pub open spec fn behind_items(front: Seq<Seq<char>>, n: int, r: Option<(Seq<Seq<char>>, int)>)
    -> Option<(Seq<Seq<char>>, int)> {
    match r {
        Some((rest, m)) => Some((front + rest, n + m)),
        None => None,
    }
}

/// The strings of a list whose first string begins `s`, up to the closing
/// bracket, and how many characters they take, the bracket included.
pub open spec fn take_items(s: Seq<char>) -> Option<(Seq<Seq<char>>, int)>
    decreases s.len(),
{
    match take_string(s) {
        Some((x, n)) => if 0 <= n < s.len() && s[n] == ']' {
            Some((seq![x], n + 1))
        } else if 0 <= n < s.len() && s[n] == ',' {
            behind_items(seq![x], n + 1, take_items(s.skip(n + 1)))
        } else {
            None
        },
        None => None,
    }
}

/// The list of strings at the front of `s`, and how many characters it
/// takes.
pub open spec fn take_list(s: Seq<char>) -> Option<(Seq<Seq<char>>, int)> {
    if s.len() >= 2 && s[0] == '[' && s[1] == ']' {
        Some((Seq::empty(), 2))
    } else if s.len() >= 1 && s[0] == '[' {
        behind_items(Seq::empty(), 1, take_items(s.skip(1)))
    } else {
        None
    }
}

/// The items of a list, seen from its first string.
pub proof fn lemma_list_items_front(x: Seq<char>, tail: Seq<Seq<char>>)
    ensures
        list_items(seq![x] + tail) == if tail.len() == 0 {
            quoted(x)
        } else {
            quoted(x) + seq![','] + list_items(tail)
        },
    decreases tail.len(),
{
    if tail.len() > 0 {
        assert((seq![x] + tail).drop_last() == seq![x] + tail.drop_last());
        lemma_list_items_front(x, tail.drop_last());
    }
}

/// The strings of a list that is not empty are read back up to its bracket.
pub proof fn lemma_take_items(xs: Seq<Seq<char>>, rest: Seq<char>)
    requires
        xs.len() > 0,
    ensures
        take_items(list_items(xs) + seq![']'] + rest) == Some(
            (xs, (list_items(xs).len() + 1) as int),
        ),
    decreases xs.len(),
{
    let s = list_items(xs) + seq![']'] + rest;
    let x = xs[0];
    let tail = xs.skip(1);
    assert(xs == seq![x] + tail);
    lemma_list_items_front(x, tail);
    if tail.len() == 0 {
        let after = seq![']'] + rest;
        assert(s == quoted(x) + after);
        lemma_take_string(x, after);
    } else {
        let after = seq![','] + list_items(tail) + seq![']'] + rest;
        assert(s == quoted(x) + after);
        lemma_take_string(x, after);
        assert(s.skip(quoted(x).len() as int + 1) == list_items(tail) + seq![']'] + rest);
        lemma_take_items(tail, rest);
    }
}

/// A written list is read back, whatever follows it.
pub proof fn lemma_take_list(xs: Seq<Seq<char>>, rest: Seq<char>)
    ensures
        take_list(list_text(xs) + rest) == Some((xs, list_text(xs).len() as int)),
{
    if xs.len() > 0 {
        lemma_list_items_front(xs[0], xs.skip(1));
        assert((list_text(xs) + rest).skip(1) == list_items(xs) + seq![']'] + rest);
        lemma_take_items(xs, rest);
    }
}

/// What is read as the strings of a list are those strings as `list_items`
/// writes them, and the closing bracket.
pub proof fn lemma_take_items_sound(s: Seq<char>)
    ensures
        take_items(s) matches Some((xs, n)) ==> xs.len() >= 1 && 1 <= n <= s.len() && s.take(n)
            == list_items(xs) + seq![']'],
    decreases s.len(),
{
    if take_items(s) is Some {
        let (x, k) = take_string(s).unwrap();
        lemma_take_string_sound(s);
        if s[k] != ']' {
            let after = s.skip(k + 1);
            let (rest, m) = take_items(after).unwrap();
            lemma_take_items_sound(after);
            lemma_list_items_front(x, rest);
            assert(s.take(k + 1 + m) == s.take(k) + seq![','] + after.take(m));
        }
    }
}

/// What is read as a list is that list as `list_text` writes it.
pub proof fn lemma_take_list_sound(s: Seq<char>)
    ensures
        take_list(s) matches Some((xs, n)) ==> 2 <= n <= s.len() && s.take(n) == list_text(xs),
{
    if take_list(s) is Some && !(s.len() >= 2 && s[1] == ']') {
        let inside = s.skip(1);
        let (_, m) = take_items(inside).unwrap();
        lemma_take_items_sound(inside);
        assert(s.take(1 + m) == seq!['['] + inside.take(m));
    }
}

/// Appends a list of strings as a JSON array.
pub(crate) fn push_list(out: &mut String, xs: &Vec<String>)
    ensures
        final(out)@ == old(out)@ + list_text(strings_view(xs@)),
{
    let ghost before = out@;
    let ghost all = strings_view(xs@);
    out.push('[');
    let mut i: usize = 0;
    while i < xs.len()
        invariant
            0 <= i <= xs.len(),
            all == strings_view(xs@),
            out@ == before + seq!['['] + list_items(all.take(i as int)),
        decreases xs.len() - i,
    {
        assert(all.take(i + 1).drop_last() == all.take(i as int));
        if i > 0 {
            out.push(',');
        }
        push_quoted(out, xs[i].as_str());
        i = i + 1;
    }
    out.push(']');
    assert(all.take(i as int) == all);
}

/// The list of strings at `pos`, and the position behind it.
pub(crate) fn read_list(chars: &Vec<char>, pos: usize) -> (r: Option<(Vec<String>, usize)>)
    requires
        pos <= chars.len(),
    ensures
        match take_list(chars@.skip(pos as int)) {
            Some((xs, n)) => r matches Some((v, p)) && strings_view(v@) == xs && p
                == pos + n && pos <= p <= chars.len(),
            None => r is None,
        },
{
    if pos >= chars.len() || chars[pos] != '[' {
        return None;
    }
    let mut items: Vec<String> = Vec::new();
    if chars.len() - pos >= 2 && chars[pos + 1] == ']' {
        return Some((items, pos + 2));
    }
    let ghost start = pos + 1;
    let mut p: usize = pos + 1;
    assert(chars@.skip(pos as int).skip(1) == chars@.skip(start));
    assert(behind_items(strings_view(items@), 0, take_items(chars@.skip(p as int))) == take_items(
        chars@.skip(start),
    ));
    loop
        invariant
            start == pos + 1,
            start <= p <= chars.len(),
            take_list(chars@.skip(pos as int)) == behind_items(
                Seq::empty(),
                1,
                take_items(chars@.skip(start)),
            ),
            behind_items(
                strings_view(items@),
                p - start,
                take_items(chars@.skip(p as int)),
            ) == take_items(chars@.skip(start)),
        decreases chars.len() - p,
    {
        match read_string(chars, p) {
            None => {
                return None;
            },
            Some((item, next)) => {
                if next >= chars.len() {
                    return None;
                }
                let c = chars[next];
                items.push(item);
                if c == ']' {
                    return Some((items, next + 1));
                } else if c == ',' {
                    assert(chars@.skip(p as int).skip(next - p + 1) == chars@.skip(next + 1));
                    p = next + 1;
                } else {
                    return None;
                }
            },
        }
    }
}

} // verus!
