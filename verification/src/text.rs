//! Character sequences: searching, splitting and cutting into lines.
//!
//! The contracts speak of `Seq<char>`, the view of a string. The
//! executable functions work on a vector of characters and positions in it.

use vstd::prelude::*;
use vstd::std_specs::iter::IteratorSpec;

verus! {

/// `String::push` appends the given character to the end of the string; the
/// standard library documents exactly that, and this contract says no more.
pub assume_specification[ String::push ](s: &mut String, ch: char)
    ensures
        final(s)@ == old(s)@.push(ch),
;

/// A half-open range of positions in a text.
#[derive(Clone, Copy, Debug)]
pub(crate) struct Span {
    pub start: usize,
    pub end: usize,
}

impl Span {
    /// The span lies inside a text of `len` characters.
    pub(crate) open spec fn fits(self, len: nat) -> bool {
        self.start <= self.end <= len
    }

    /// The characters of `text` that the span covers.
    pub(crate) open spec fn of(self, text: Seq<char>) -> Seq<char> {
        text.subrange(self.start as int, self.end as int)
    }
}

/// The characters of an optional string.
pub open spec fn optional_view(s: Option<String>) -> Option<Seq<char>> {
    match s {
        Some(s) => Some(s@),
        None => None,
    }
}

/// The characters of each string of a list.
pub open spec fn strings_view(v: Seq<String>) -> Seq<Seq<char>> {
    Seq::new(v.len(), |i: int| v[i]@)
}

/// `i` is the position of the first `c` in `s`.
pub open spec fn is_first_at(s: Seq<char>, c: char, i: int) -> bool {
    &&& 0 <= i < s.len()
    &&& s[i] == c
    &&& forall|j: int| 0 <= j < i ==> s[j] != c
}

/// The position of the first `c` in `s`, if there is one.
pub open spec fn first_index(s: Seq<char>, c: char) -> Option<int> {
    if exists|i: int| is_first_at(s, c, i) {
        Some(choose|i: int| is_first_at(s, c, i))
    } else {
        None
    }
}

/// `s` cut at its first `c`: what stands before it and what stands after it.
pub open spec fn split_once(s: Seq<char>, c: char) -> Option<(Seq<char>, Seq<char>)> {
    match first_index(s, c) {
        Some(i) => Some((s.take(i), s.skip(i + 1))),
        None => None,
    }
}

/// `pat` stands in `s` at position `i`.
pub open spec fn occurs_at(s: Seq<char>, pat: Seq<char>, i: int) -> bool {
    &&& 0 <= i
    &&& i + pat.len() <= s.len()
    &&& s.subrange(i, i + pat.len()) == pat
}

/// `i` is the position of the first occurrence of `pat` in `s`.
pub open spec fn is_first_occurrence(s: Seq<char>, pat: Seq<char>, i: int) -> bool {
    &&& occurs_at(s, pat, i)
    &&& forall|j: int| 0 <= j < i ==> !occurs_at(s, pat, j)
}

/// The position of the first occurrence of `pat` in `s`, if there is one.
pub open spec fn find(s: Seq<char>, pat: Seq<char>) -> Option<int> {
    if exists|i: int| is_first_occurrence(s, pat, i) {
        Some(choose|i: int| is_first_occurrence(s, pat, i))
    } else {
        None
    }
}

/// A line without the carriage return that may end it.
pub open spec fn trim_cr(line: Seq<char>) -> Seq<char> {
    if line.len() > 0 && line.last() == '\r' {
        line.drop_last()
    } else {
        line
    }
}

/// The lines of `s`. A line ends at a line feed; a carriage return directly
/// before that line feed belongs to the line ending. The last line needs no
/// line feed, and nothing after the last line feed is no line.
pub open spec fn lines(s: Seq<char>) -> Seq<Seq<char>>
    decreases s.len(),
{
    if s.len() == 0 {
        Seq::empty()
    } else {
        match first_index(s, '\n') {
            None => seq![s],
            Some(i) => seq![trim_cr(s.take(i))] + lines(s.skip(i + 1)),
        }
    }
}

/// The first position holding `c` is the one that `first_index` names.
pub proof fn lemma_first_index_is(s: Seq<char>, c: char, i: int)
    requires
        is_first_at(s, c, i),
    ensures
        first_index(s, c) == Some(i),
{
}

/// The first occurrence of a pattern is the one that `find` names.
pub proof fn lemma_find_is(s: Seq<char>, pat: Seq<char>, i: int)
    requires
        is_first_occurrence(s, pat, i),
    ensures
        find(s, pat) == Some(i),
{
}

/// The characters of a string, in order.
pub(crate) fn to_chars(text: &str) -> (v: Vec<char>)
    ensures
        v@ == text@,
{
    let mut v: Vec<char> = Vec::new();
    for c in it: text.chars()
        invariant
            v@ == it.seq().take(it.index()),
            it.seq() == text@,
    {
        v.push(c);
    }
    v
}

/// Whether two strings hold the same characters.
pub(crate) fn str_equal(a: &str, b: &str) -> (r: bool)
    ensures
        r == (a@ == b@),
{
    let mut ia = a.chars();
    let mut ib = b.chars();
    let ghost mut n: int = 0;
    loop
        invariant
            0 <= n <= a@.len(),
            n <= b@.len(),
            ia.remaining() == a@.skip(n),
            ib.remaining() == b@.skip(n),
            a@.take(n) == b@.take(n),
            ia.obeys_prophetic_iter_laws(),
            ib.obeys_prophetic_iter_laws(),
        decreases a@.len() - n,
    {
        let x = ia.next();
        let y = ib.next();
        match (x, y) {
            (None, None) => {
                assert(a@.take(n) == a@);
                assert(b@.take(n) == b@);
                return true;
            },
            (Some(p), Some(q)) => {
                if p != q {
                    return false;
                }
                proof {
                    n = n + 1;
                }
            },
            _ => {
                return false;
            },
        }
    }
}

/// The characters of `chars` that `span` covers, as a string.
pub(crate) fn substring(chars: &Vec<char>, span: Span) -> (s: String)
    requires
        span.fits(chars@.len()),
    ensures
        s@ == span.of(chars@),
{
    let mut s = String::new();
    let mut i: usize = span.start;
    while i < span.end
        invariant
            span.start <= i <= span.end <= chars.len(),
            s@ == chars@.subrange(span.start as int, i as int),
        decreases span.end - i,
    {
        s.push(chars[i]);
        i = i + 1;
    }
    s
}

/// Whether the characters that `span` covers are those of `other`.
pub(crate) fn span_equals(chars: &Vec<char>, span: Span, other: &Vec<char>) -> (r: bool)
    requires
        span.fits(chars@.len()),
    ensures
        r == (span.of(chars@) == other@),
{
    if span.end - span.start != other.len() {
        return false;
    }
    let mut i: usize = 0;
    while i < other.len()
        invariant
            span.fits(chars@.len()),
            span.end - span.start == other.len(),
            0 <= i <= other.len(),
            span.of(chars@).take(i as int) == other@.take(i as int),
        decreases other.len() - i,
    {
        if chars[span.start + i] != other[i] {
            return false;
        }
        i = i + 1;
    }
    assert(span.of(chars@).take(i as int) == span.of(chars@));
    assert(other@.take(i as int) == other@);
    true
}

/// The position of the first `c` within `span`.
pub(crate) fn index_of(chars: &Vec<char>, span: Span, c: char) -> (r: Option<usize>)
    requires
        span.fits(chars@.len()),
    ensures
        match r {
            Some(i) => span.start <= i < span.end && first_index(span.of(chars@), c) == Some(
                i - span.start,
            ),
            None => first_index(span.of(chars@), c) is None,
        },
{
    let mut i: usize = span.start;
    while i < span.end
        invariant
            span.fits(chars@.len()),
            span.start <= i <= span.end,
            forall|j: int| 0 <= j < i - span.start ==> span.of(chars@)[j] != c,
        decreases span.end - i,
    {
        if chars[i] == c {
            proof {
                lemma_first_index_is(span.of(chars@), c, i - span.start);
            }
            return Some(i);
        }
        i = i + 1;
    }
    None
}

/// Whether `pat` stands in `chars` at position `at`.
fn matches_at(chars: &Vec<char>, pat: &Vec<char>, at: usize) -> (r: bool)
    requires
        at + pat.len() <= chars.len(),
    ensures
        r == occurs_at(chars@, pat@, at as int),
{
    span_equals(chars, Span { start: at, end: at + pat.len() }, pat)
}

/// The position of the first occurrence of `pat` in `chars`.
pub(crate) fn find_first(chars: &Vec<char>, pat: &Vec<char>) -> (r: Option<usize>)
    ensures
        match r {
            Some(i) => i + pat.len() <= chars.len() && find(chars@, pat@) == Some(i as int),
            None => find(chars@, pat@) is None,
        },
{
    if pat.len() > chars.len() {
        return None;
    }
    let last: usize = chars.len() - pat.len();
    let mut i: usize = 0;
    loop
        invariant
            last + pat.len() == chars.len(),
            0 <= i <= last,
            forall|j: int| 0 <= j < i ==> !occurs_at(chars@, pat@, j),
        decreases last - i,
    {
        if matches_at(chars, pat, i) {
            proof {
                lemma_find_is(chars@, pat@, i as int);
            }
            return Some(i);
        }
        if i == last {
            return None;
        }
        i = i + 1;
    }
}

/// The texts that a list of spans covers, in order.
pub(crate) open spec fn texts_of(text: Seq<char>, spans: Seq<Span>) -> Seq<Seq<char>> {
    Seq::new(spans.len(), |k: int| spans[k].of(text))
}

/// Every span of the list lies inside a text of `len` characters.
pub(crate) open spec fn all_fit(spans: Seq<Span>, len: nat) -> bool {
    forall|k: int| 0 <= k < spans.len() ==> (#[trigger] spans[k]).fits(len)
}

/// The lines of the part of `chars` that `span` covers, each as a span.
pub(crate) fn line_spans(chars: &Vec<char>, span: Span) -> (spans: Vec<Span>)
    requires
        span.fits(chars@.len()),
    ensures
        all_fit(spans@, chars@.len()),
        texts_of(chars@, spans@) == lines(span.of(chars@)),
{
    let mut spans: Vec<Span> = Vec::new();
    let mut p: usize = span.start;
    while p < span.end
        invariant
            span.fits(chars@.len()),
            span.start <= p <= span.end,
            all_fit(spans@, chars@.len()),
            texts_of(chars@, spans@) + lines(chars@.subrange(p as int, span.end as int)) == lines(
                span.of(chars@),
            ),
        decreases span.end - p,
    {
        let rest = Span { start: p, end: span.end };
        let ghost s = rest.of(chars@);
        let line = match index_of(chars, rest, '\n') {
            None => {
                p = span.end;
                rest
            },
            Some(i) => {
                let end: usize = if i > p && chars[i - 1] == '\r' {
                    i - 1
                } else {
                    i
                };
                let line = Span { start: p, end };
                proof {
                    assert(s.skip(i - p + 1) == chars@.subrange(i + 1, span.end as int));
                    assert(line.of(chars@) == trim_cr(s.take(i - p)));
                }
                p = i + 1;
                line
            },
        };
        spans.push(line);
    }
    spans
}

} // verus!
