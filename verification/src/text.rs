//! Character-level text primitives: the building blocks of every parser in
//! this crate, each specified over `Seq<char>`.
//!
//! Executable code works on a decoded text (`Vec<char>`) and on [`Span`]s of
//! it, so that selecting a line, a field or a token never copies characters.

use vstd::prelude::*;
use vstd::std_specs::iter::IteratorSpec;
use vstd::string::StrSliceExecFns;

verus! {

/// A set of characters that a scan stops at or runs over.
#[derive(Clone, Copy, Debug)]
pub enum CharClass {
    /// The characters with the Unicode `White_Space` property.
    Whitespace,
    /// One given character.
    Exactly(char),
}

/// Whether `c` has the Unicode `White_Space` property.
pub open spec fn is_whitespace(c: char) -> bool {
    let n = c as u32;
    ||| 0x09 <= n <= 0x0D
    ||| n == 0x20
    ||| n == 0x85
    ||| n == 0xA0
    ||| n == 0x1680
    ||| 0x2000 <= n <= 0x200A
    ||| n == 0x2028
    ||| n == 0x2029
    ||| n == 0x202F
    ||| n == 0x205F
    ||| n == 0x3000
}

impl CharClass {
    /// Membership of `c` in the class.
    pub open spec fn has(self, c: char) -> bool {
        match self {
            CharClass::Whitespace => is_whitespace(c),
            CharClass::Exactly(d) => c == d,
        }
    }

    /// Tests whether `c` belongs to the class.
    pub fn contains(&self, c: char) -> (b: bool)
        ensures
            b == self.has(c),
    {
        match self {
            CharClass::Whitespace => {
                let n: u32 = c as u32;
                (0x09 <= n && n <= 0x0D) || n == 0x20 || n == 0x85 || n == 0xA0 || n == 0x1680 || (
                0x2000 <= n && n <= 0x200A) || n == 0x2028 || n == 0x2029 || n == 0x202F || n
                    == 0x205F || n == 0x3000
            },
            CharClass::Exactly(d) => c == *d,
        }
    }
}

/// Length of the longest prefix of `s` whose characters all lie inside
/// `class` (`inside == true`) or all lie outside it (`inside == false`).
///
/// With `inside == false` this is the index of the first character of the
/// class, or `s.len()` when there is none.
pub open spec fn run(s: Seq<char>, class: CharClass, inside: bool) -> nat
    decreases s.len(),
{
    if s.len() > 0 && class.has(s[0]) == inside {
        1 + run(s.drop_first(), class, inside)
    } else {
        0
    }
}

/// Length of the longest suffix of `s` whose characters all lie inside
/// `class` (`inside == true`) or all lie outside it (`inside == false`).
pub open spec fn run_back(s: Seq<char>, class: CharClass, inside: bool) -> nat
    decreases s.len(),
{
    if s.len() > 0 && class.has(s.last()) == inside {
        1 + run_back(s.drop_last(), class, inside)
    } else {
        0
    }
}

/// `s` without its leading characters of `class`.
pub open spec fn trim_start(s: Seq<char>, class: CharClass) -> Seq<char> {
    s.skip(run(s, class, true) as int)
}

/// `s` without its trailing characters of `class`.
pub open spec fn trim_end(s: Seq<char>, class: CharClass) -> Seq<char> {
    s.take(s.len() - run_back(s, class, true))
}

/// `s` without its leading and trailing characters of `class`.
pub open spec fn trim(s: Seq<char>, class: CharClass) -> Seq<char> {
    trim_end(trim_start(s, class), class)
}

/// `line` without one trailing carriage return, if it ends in one.
pub open spec fn strip_cr(line: Seq<char>) -> Seq<char> {
    if line.len() > 0 && line.last() == '\r' {
        line.drop_last()
    } else {
        line
    }
}

/// The lines of `s`. A line ends at a line feed, or at a carriage return
/// directly followed by a line feed; the terminator is not part of the line.
/// The last line needs no terminator, and a text that ends in one has no
/// empty line after it.
pub open spec fn lines(s: Seq<char>) -> Seq<Seq<char>>
    decreases s.len(),
{
    if s.len() == 0 {
        Seq::empty()
    } else {
        let n = run(s, CharClass::Exactly('\n'), false) as int;
        if n < s.len() {
            seq![strip_cr(s.take(n))] + lines(s.skip(n + 1))
        } else {
            seq![s]
        }
    }
}

/// What follows the first `sep` in `s`, up to the end of `s`. `None`
/// without a `sep`.
pub open spec fn after_first(s: Seq<char>, sep: char) -> Option<Seq<char>> {
    let n = run(s, CharClass::Exactly(sep), false) as int;
    if n < s.len() {
        Some(s.skip(n + 1))
    } else {
        None
    }
}

/// `s` from the start of its first whitespace-separated token on, with that
/// token removed.
pub open spec fn after_first_token(s: Seq<char>) -> Seq<char> {
    let from_token = trim_start(s, CharClass::Whitespace);
    from_token.skip(run(from_token, CharClass::Whitespace, false) as int)
}

/// The first whitespace-separated token of `s`, if it has one.
pub open spec fn first_token(s: Seq<char>) -> Option<Seq<char>> {
    let from_token = trim_start(s, CharClass::Whitespace);
    if from_token.len() > 0 {
        Some(from_token.take(run(from_token, CharClass::Whitespace, false) as int))
    } else {
        None
    }
}

/// The second whitespace-separated token of `s`, if it has two.
pub open spec fn second_token(s: Seq<char>) -> Option<Seq<char>> {
    first_token(after_first_token(s))
}

/// Whether `needle` occurs in `s` as a contiguous piece.
pub open spec fn occurs_in(needle: Seq<char>, s: Seq<char>) -> bool {
    exists|i: int| occurs_at(needle, s, i)
}

/// Whether `needle` occurs in `s` at index `i`.
pub open spec fn occurs_at(needle: Seq<char>, s: Seq<char>, i: int) -> bool {
    0 <= i && i + needle.len() <= s.len() && s.subrange(i, i + needle.len()) == needle
}

/// A stretch of a text: the characters from index `start` up to, not
/// including, index `end`.
#[derive(Clone, Copy, Debug)]
pub struct Span {
    pub start: usize,
    pub end: usize,
}

impl Span {
    /// The span lies inside a text of `len` characters.
    pub open spec fn fits(self, len: nat) -> bool {
        self.start <= self.end <= len
    }

    /// The span lies inside `outer`.
    pub open spec fn within(self, outer: Span) -> bool {
        outer.start <= self.start <= self.end <= outer.end
    }

    /// The characters of `s` that the span covers.
    pub open spec fn of(self, s: Seq<char>) -> Seq<char> {
        s.subrange(self.start as int, self.end as int)
    }
}

/// Decodes `s` into its characters.
pub fn to_chars(s: &str) -> (chars: Vec<char>)
    ensures
        chars@ == s@,
{
    let mut chars: Vec<char> = Vec::new();
    for c in it: s.chars()
        invariant
            chars@ == it.seq().take(it.index()),
    {
        chars.push(c);
    }
    chars
}

/// `run(s, class, inside)` is the one index `k` up to which every character
/// agrees with `inside` and at which the next one, if any, does not.
pub proof fn lemma_run_is(s: Seq<char>, class: CharClass, inside: bool, k: int)
    requires
        0 <= k <= s.len(),
        forall|j: int| 0 <= j < k ==> class.has(#[trigger] s[j]) == inside,
        k < s.len() ==> class.has(s[k]) != inside,
    ensures
        run(s, class, inside) == k,
    decreases s.len(),
{
    if k > 0 {
        assert(class.has(s[0]) == inside);
        let rest = s.drop_first();
        assert forall|j: int| 0 <= j < k - 1 implies class.has(#[trigger] rest[j]) == inside by {
            assert(rest[j] == s[j + 1]);
        }
        lemma_run_is(rest, class, inside, k - 1);
    }
}

/// `run_back(s, class, inside)` is the one length `k` such that the last `k`
/// characters agree with `inside` and the one before them, if any, does not.
pub proof fn lemma_run_back_is(s: Seq<char>, class: CharClass, inside: bool, k: int)
    requires
        0 <= k <= s.len(),
        forall|j: int| s.len() - k <= j < s.len() ==> class.has(#[trigger] s[j]) == inside,
        k < s.len() ==> class.has(s[s.len() - k - 1]) != inside,
    ensures
        run_back(s, class, inside) == k,
    decreases s.len(),
{
    if k > 0 {
        assert(class.has(s[s.len() - 1]) == inside);
        let rest = s.drop_last();
        assert forall|j: int| rest.len() - (k - 1) <= j < rest.len() implies class.has(
            #[trigger] rest[j],
        ) == inside by {
            assert(rest[j] == s[j]);
        }
        lemma_run_back_is(rest, class, inside, k - 1);
    }
}

/// Scans forward from the start of `span` over the characters that lie
/// inside `class` (or outside it, when `inside` is false) and returns the
/// index at which the scan stops.
pub fn scan(chars: &Vec<char>, span: Span, class: CharClass, inside: bool) -> (stop: usize)
    requires
        span.fits(chars@.len()),
    ensures
        span.start <= stop <= span.end,
        stop - span.start == run(span.of(chars@), class, inside),
{
    let mut i: usize = span.start;
    while i < span.end && class.contains(chars[i]) == inside
        invariant
            span.fits(chars@.len()),
            span.start <= i <= span.end,
            forall|j: int| span.start <= j < i ==> class.has(#[trigger] chars@[j]) == inside,
        decreases span.end - i,
    {
        i = i + 1;
    }
    proof {
        let s = span.of(chars@);
        assert forall|j: int| 0 <= j < i - span.start implies class.has(#[trigger] s[j])
            == inside by {
            assert(s[j] == chars@[span.start + j]);
        }
        lemma_run_is(s, class, inside, i - span.start);
    }
    i
}

/// Scans backward from the end of `span` over the characters that lie inside
/// `class` (or outside it, when `inside` is false) and returns the index at
/// which the scan stops.
pub fn scan_back(chars: &Vec<char>, span: Span, class: CharClass, inside: bool) -> (stop: usize)
    requires
        span.fits(chars@.len()),
    ensures
        span.start <= stop <= span.end,
        span.end - stop == run_back(span.of(chars@), class, inside),
{
    let mut i: usize = span.end;
    while i > span.start && class.contains(chars[i - 1]) == inside
        invariant
            span.fits(chars@.len()),
            span.start <= i <= span.end,
            forall|j: int| i <= j < span.end ==> class.has(#[trigger] chars@[j]) == inside,
        decreases i - span.start,
    {
        i = i - 1;
    }
    proof {
        let s = span.of(chars@);
        assert forall|j: int| s.len() - (span.end - i) <= j < s.len() implies class.has(
            #[trigger] s[j],
        ) == inside by {
            assert(s[j] == chars@[span.start + j]);
        }
        lemma_run_back_is(s, class, inside, span.end - i);
    }
    i
}

/// Removes the leading and trailing characters of `class` from `span`.
pub fn trim_span(chars: &Vec<char>, span: Span, class: CharClass) -> (inner: Span)
    requires
        span.fits(chars@.len()),
    ensures
        inner.within(span),
        inner.of(chars@) == trim(span.of(chars@), class),
{
    let start = scan(chars, span, class, true);
    let tail = Span { start, end: span.end };
    assert(tail.of(chars@) == trim_start(span.of(chars@), class));
    let end = scan_back(chars, tail, class, true);
    let inner = Span { start, end };
    assert(inner.of(chars@) == trim_end(tail.of(chars@), class));
    inner
}

/// The stretches of `s` that `spans` cover, in order.
pub open spec fn covered(spans: Seq<Span>, s: Seq<char>) -> Seq<Seq<char>> {
    Seq::new(spans.len(), |i: int| spans[i].of(s))
}

/// Every span of `spans` lies inside a text of `len` characters.
pub open spec fn all_fit(spans: Seq<Span>, len: nat) -> bool {
    forall|i: int| 0 <= i < spans.len() ==> (#[trigger] spans[i]).fits(len)
}

/// Splits a text into its lines.
pub fn split_lines(chars: &Vec<char>) -> (spans: Vec<Span>)
    ensures
        all_fit(spans@, chars@.len()),
        covered(spans@, chars@) == lines(chars@),
{
    let n = chars.len();
    let mut spans: Vec<Span> = Vec::new();
    let mut start: usize = 0;
    proof {
        assert(chars@.skip(0) == chars@);
    }
    while start < n
        invariant
            n == chars@.len(),
            start <= n,
            all_fit(spans@, chars@.len()),
            covered(spans@, chars@) + lines(chars@.skip(start as int)) == lines(chars@),
        decreases n - start,
    {
        let rest = Span { start, end: n };
        let stop = scan(chars, rest, CharClass::Exactly('\n'), false);
        let line = if stop < n && stop > start && chars[stop - 1] == '\r' {
            Span { start, end: stop - 1 }
        } else {
            Span { start, end: stop }
        };
        let next = if stop < n {
            stop + 1
        } else {
            n
        };
        proof {
            let tail = chars@.skip(start as int);
            assert(tail == rest.of(chars@));
            let k = stop - start;
            if stop < n {
                assert(tail.take(k) == chars@.subrange(start as int, stop as int));
                assert(line.of(chars@) == strip_cr(tail.take(k)));
                assert(tail.skip(k + 1) == chars@.skip(next as int));
            } else {
                assert(line.of(chars@) == tail);
                assert(lines(chars@.skip(next as int)) == Seq::<Seq<char>>::empty());
            }
            assert(lines(tail) == seq![line.of(chars@)] + lines(chars@.skip(next as int)));
            assert(covered(spans@.push(line), chars@) == covered(spans@, chars@) + seq![
                line.of(chars@),
            ]);
        }
        spans.push(line);
        start = next;
    }
    proof {
        assert(lines(chars@.skip(start as int)) == Seq::<Seq<char>>::empty());
    }
    spans
}

/// Selects what follows the first `sep` in `span`.
pub fn after_first_span(chars: &Vec<char>, span: Span, sep: char) -> (rest: Option<Span>)
    requires
        span.fits(chars@.len()),
    ensures
        rest matches Some(r) ==> r.within(span),
        spanned(rest, chars@) == after_first(span.of(chars@), sep),
{
    let stop = scan(chars, span, CharClass::Exactly(sep), false);
    if stop < span.end {
        let rest = Span { start: stop + 1, end: span.end };
        assert(rest.of(chars@) == span.of(chars@).skip(stop - span.start + 1));
        Some(rest)
    } else {
        None
    }
}

/// The stretch of `s` that an optional span covers, if there is one.
pub open spec fn spanned(span: Option<Span>, s: Seq<char>) -> Option<Seq<char>> {
    match span {
        Some(sp) => Some(sp.of(s)),
        None => None,
    }
}

/// Selects the first whitespace-separated token of `span`.
pub fn first_token_span(chars: &Vec<char>, span: Span) -> (token: Option<Span>)
    requires
        span.fits(chars@.len()),
    ensures
        token matches Some(t) ==> t.within(span),
        spanned(token, chars@) == first_token(span.of(chars@)),
        after_first_token(span.of(chars@)) == (Span {
            start: match token {
                Some(t) => t.end,
                None => span.end,
            },
            end: span.end,
        }).of(chars@),
{
    let start = scan(chars, span, CharClass::Whitespace, true);
    let from_token = Span { start, end: span.end };
    let end = scan(chars, from_token, CharClass::Whitespace, false);
    proof {
        let s = span.of(chars@);
        assert(from_token.of(chars@) == trim_start(s, CharClass::Whitespace));
        let t = from_token.of(chars@);
        assert((Span { start, end }).of(chars@) == t.take(end - start));
        assert((Span { start: end, end: span.end }).of(chars@) == t.skip(end - start));
    }
    if start < span.end {
        Some(Span { start, end })
    } else {
        None
    }
}

/// Selects the second whitespace-separated token of `span`.
pub fn second_token_span(chars: &Vec<char>, span: Span) -> (token: Option<Span>)
    requires
        span.fits(chars@.len()),
    ensures
        token matches Some(t) ==> t.within(span),
        spanned(token, chars@) == second_token(span.of(chars@)),
{
    match first_token_span(chars, span) {
        Some(first) => first_token_span(chars, Span { start: first.end, end: span.end }),
        None => {
            proof {
                let rest = Span { start: span.end, end: span.end };
                assert(rest.of(chars@).len() == 0);
                assert(trim_start(rest.of(chars@), CharClass::Whitespace).len() == 0);
            }
            None
        },
    }
}

/// Whether `s` begins with `prefix`.
pub open spec fn has_prefix(s: Seq<char>, prefix: Seq<char>) -> bool {
    occurs_at(prefix, s, 0)
}

/// Tests whether `needle` occurs in `span` at `offset` characters from its
/// start.
pub fn matches_at(chars: &Vec<char>, span: Span, offset: usize, needle: &Vec<char>) -> (b: bool)
    requires
        span.fits(chars@.len()),
    ensures
        b == occurs_at(needle@, span.of(chars@), offset as int),
{
    let len = span.end - span.start;
    if offset > len || needle.len() > len - offset {
        return false;
    }
    let base = span.start + offset;
    let mut j: usize = 0;
    while j < needle.len()
        invariant
            span.fits(chars@.len()),
            base == span.start + offset,
            base + needle@.len() <= span.end,
            j <= needle@.len(),
            forall|k: int| 0 <= k < j ==> chars@[base + k] == needle@[k],
        decreases needle@.len() - j,
    {
        if chars[base + j] != needle[j] {
            proof {
                let piece = span.of(chars@).subrange(offset as int, offset + needle@.len());
                assert(piece[j as int] == chars@[base + j]);
            }
            return false;
        }
        j = j + 1;
    }
    proof {
        let piece = span.of(chars@).subrange(offset as int, offset + needle@.len());
        assert forall|k: int| 0 <= k < needle@.len() implies piece[k] == needle@[k] by {
            assert(piece[k] == chars@[base + k]);
        }
        assert(piece =~= needle@);
    }
    true
}

/// Tests whether `span` begins with `prefix`.
pub fn starts_with(chars: &Vec<char>, span: Span, prefix: &Vec<char>) -> (b: bool)
    requires
        span.fits(chars@.len()),
    ensures
        b == has_prefix(span.of(chars@), prefix@),
{
    matches_at(chars, span, 0, prefix)
}

/// Tests whether `needle` occurs anywhere in `span`.
pub fn contains(chars: &Vec<char>, span: Span, needle: &Vec<char>) -> (b: bool)
    requires
        span.fits(chars@.len()),
    ensures
        b == occurs_in(needle@, span.of(chars@)),
{
    let len = span.end - span.start;
    if needle.len() > len {
        return false;
    }
    let last = len - needle.len();
    let mut offset: usize = 0;
    loop
        invariant
            span.fits(chars@.len()),
            last == span.end - span.start - needle@.len(),
            offset <= last,
            forall|i: int| 0 <= i < offset ==> !occurs_at(needle@, span.of(chars@), i),
        decreases last - offset,
    {
        if matches_at(chars, span, offset, needle) {
            return true;
        }
        if offset == last {
            return false;
        }
        offset = offset + 1;
    }
}

/// An optional string as the characters it holds.
pub open spec fn text_of(text: Option<String>) -> Option<Seq<char>> {
    match text {
        Some(t) => Some(t@),
        None => None,
    }
}

/// Optional strings as the characters they hold.
pub open spec fn texts_of(texts: Seq<Option<String>>) -> Seq<Option<Seq<char>>> {
    Seq::new(texts.len(), |i: int| text_of(texts[i]))
}

/// The part of `source` that `span` covers, borrowed.
pub fn slice<'a>(source: &'a str, span: Span) -> (piece: &'a str)
    requires
        span.fits(source@.len()),
    ensures
        piece@ == span.of(source@),
{
    source.substring_char(span.start, span.end)
}

/// The part of `source` that `span` covers, as a string of its own.
pub fn extract(source: &str, span: Span) -> (piece: String)
    requires
        span.fits(source@.len()),
    ensures
        piece@ == span.of(source@),
{
    slice(source, span).to_owned()
}

/// `source` without its leading and trailing whitespace.
pub fn trimmed(source: &str) -> (piece: String)
    ensures
        piece@ == trim(source@, CharClass::Whitespace),
{
    let chars = to_chars(source);
    let whole = Span { start: 0, end: chars.len() };
    assert(whole.of(chars@) == chars@);
    let inner = trim_span(&chars, whole, CharClass::Whitespace);
    extract(source, inner)
}

/// Whether `line` holds `key`: anywhere in it, or only at its start.
pub open spec fn line_matches(line: Seq<char>, key: Seq<char>, anywhere: bool) -> bool {
    if anywhere {
        occurs_in(key, line)
    } else {
        has_prefix(line, key)
    }
}

/// Index of the first line of `ls` that holds `key`, or `ls.len()` when none
/// does.
pub open spec fn first_matching(ls: Seq<Seq<char>>, key: Seq<char>, anywhere: bool) -> nat
    decreases ls.len(),
{
    if ls.len() > 0 && !line_matches(ls[0], key, anywhere) {
        1 + first_matching(ls.drop_first(), key, anywhere)
    } else {
        0
    }
}

/// Number of the lines of `ls` that begin with `prefix`.
pub open spec fn count_with_prefix(ls: Seq<Seq<char>>, prefix: Seq<char>) -> nat
    decreases ls.len(),
{
    if ls.len() == 0 {
        0
    } else {
        count_with_prefix(ls.drop_last(), prefix) + if has_prefix(ls.last(), prefix) {
            1nat
        } else {
            0nat
        }
    }
}

/// `first_matching(ls, key, anywhere)` is the one index `k` before which no
/// line holds `key` and at which the line, if any, does.
pub proof fn lemma_first_matching_is(ls: Seq<Seq<char>>, key: Seq<char>, anywhere: bool, k: int)
    requires
        0 <= k <= ls.len(),
        forall|j: int| 0 <= j < k ==> !line_matches(#[trigger] ls[j], key, anywhere),
        k < ls.len() ==> line_matches(ls[k], key, anywhere),
    ensures
        first_matching(ls, key, anywhere) == k,
    decreases ls.len(),
{
    if k > 0 {
        assert(!line_matches(ls[0], key, anywhere));
        let rest = ls.drop_first();
        assert forall|j: int| 0 <= j < k - 1 implies !line_matches(
            #[trigger] rest[j],
            key,
            anywhere,
        ) by {
            assert(rest[j] == ls[j + 1]);
        }
        lemma_first_matching_is(rest, key, anywhere, k - 1);
    }
}

/// Finds the first of the lines `spans` that holds `key`; returns
/// `spans.len()` when none does.
pub fn find_line(chars: &Vec<char>, spans: &Vec<Span>, key: &Vec<char>, anywhere: bool) -> (k:
    usize)
    requires
        all_fit(spans@, chars@.len()),
    ensures
        k <= spans@.len(),
        k == first_matching(covered(spans@, chars@), key@, anywhere),
        k < spans@.len() ==> line_matches(covered(spans@, chars@)[k as int], key@, anywhere),
{
    let ghost ls = covered(spans@, chars@);
    let mut i: usize = 0;
    while i < spans.len()
        invariant
            all_fit(spans@, chars@.len()),
            ls == covered(spans@, chars@),
            i <= spans@.len(),
            forall|j: int| 0 <= j < i ==> !line_matches(#[trigger] ls[j], key@, anywhere),
        decreases spans@.len() - i,
    {
        assert(spans@[i as int].fits(chars@.len()));
        let hit = if anywhere {
            contains(chars, spans[i], key)
        } else {
            starts_with(chars, spans[i], key)
        };
        if hit {
            proof {
                lemma_first_matching_is(ls, key@, anywhere, i as int);
            }
            return i;
        }
        i = i + 1;
    }
    proof {
        lemma_first_matching_is(ls, key@, anywhere, i as int);
    }
    i
}

/// Counts the lines `spans` that begin with `prefix`.
pub fn count_lines(chars: &Vec<char>, spans: &Vec<Span>, prefix: &Vec<char>) -> (count: usize)
    requires
        all_fit(spans@, chars@.len()),
    ensures
        count == count_with_prefix(covered(spans@, chars@), prefix@),
{
    let ghost ls = covered(spans@, chars@);
    let mut count: usize = 0;
    let mut i: usize = 0;
    proof {
        assert(ls.take(0).len() == 0);
    }
    while i < spans.len()
        invariant
            all_fit(spans@, chars@.len()),
            ls == covered(spans@, chars@),
            i <= spans@.len(),
            count <= i,
            count == count_with_prefix(ls.take(i as int), prefix@),
        decreases spans@.len() - i,
    {
        assert(spans@[i as int].fits(chars@.len()));
        proof {
            assert(ls.take(i + 1).drop_last() == ls.take(i as int));
        }
        if starts_with(chars, spans[i], prefix) {
            count = count + 1;
        }
        i = i + 1;
    }
    proof {
        assert(ls.take(i as int) == ls);
    }
    count
}

} // verus!
