//! Regular-expression capture, delegated to the `regex` crate.
//!
//! What a pattern matches is not restated here: the two spec functions below
//! stand for what the crate computes, and every contract that involves a
//! pattern is stated over them.

use crate::text::{covered, lines, slice, split_lines, text_of, texts_of, to_chars};
use vstd::prelude::*;

verus! {

/// `regex::Error`, the reason for which a pattern was rejected; carried
/// through and never looked into.
#[verifier::external_type_specification]
#[verifier::external_body]
pub struct ExRegexError(regex::Error);

/// Whether `regex::Regex::new` accepts `pattern`.
pub uninterp spec fn compiles(pattern: Seq<char>) -> bool;

/// The text that capture group `group` holds in the leftmost match of
/// `pattern` in `haystack`, as `regex::Regex::captures` finds it. `None`
/// where there is no match, where the pattern has no such group, or where
/// the group took no part in the match.
pub uninterp spec fn captured(pattern: Seq<char>, haystack: Seq<char>, group: nat) -> Option<
    Seq<char>,
>;

/// Compiles `pattern` with `regex::Regex::new`, searches `haystack` with
/// `regex::Regex::captures` and copies out what `regex::Captures::get`
/// reports for `group`.
///
/// Trusted: the call fails exactly on the patterns that the crate rejects,
/// and its outcome depends on the three arguments alone.
#[verifier::external_body]
fn search(pattern: &str, haystack: &str, group: usize) -> (found: Result<
    Option<String>,
    regex::Error,
>)
    ensures
        found is Ok <==> compiles(pattern@),
        found matches Ok(text) ==> text_of(text) == captured(pattern@, haystack@, group as nat),
{
    let re = regex::Regex::new(pattern)?;
    Ok(re.captures(haystack).and_then(|caps| caps.get(group)).map(|m| m.as_str().to_string()))
}

/// What [`capture`] returns: the captured text, and nothing for a pattern
/// that does not compile.
pub open spec fn capture_of(pattern: Seq<char>, haystack: Seq<char>, group: nat) -> Option<
    Seq<char>,
> {
    if compiles(pattern) {
        captured(pattern, haystack, group)
    } else {
        None
    }
}

/// The text of capture group `group` in the leftmost match of `pattern` in
/// `haystack`.
pub fn capture(pattern: &str, haystack: &str, group: usize) -> (found: Option<String>)
    ensures
        text_of(found) == capture_of(pattern@, haystack@, group as nat),
{
    match search(pattern, haystack, group) {
        Ok(text) => text,
        Err(_) => None,
    }
}

/// The first text that `items` holds, in order; none where every item is
/// empty.
pub open spec fn first_present(items: Seq<Option<Seq<char>>>) -> Option<Seq<char>>
    decreases items.len(),
{
    if items.len() == 0 {
        None
    } else if items[0] is Some {
        items[0]
    } else {
        first_present(items.drop_first())
    }
}

/// For each line of `ls`, what group `group` of `pattern` captures in it.
pub open spec fn line_captures(pattern: Seq<char>, ls: Seq<Seq<char>>, group: nat) -> Seq<
    Option<Seq<char>>,
> {
    Seq::new(ls.len(), |i: int| capture_of(pattern, ls[i], group))
}

/// What group `group` of `pattern` captures in the first line of `text` that
/// the pattern matches with that group taking part.
pub open spec fn first_capture(pattern: Seq<char>, text: Seq<char>, group: nat) -> Option<
    Seq<char>,
> {
    first_present(line_captures(pattern, lines(text), group))
}

/// `first_present(items)` is the item at the one index `k` before which
/// every item is empty and at which the item, if any, is not.
pub proof fn lemma_first_present_is(items: Seq<Option<Seq<char>>>, k: int)
    requires
        0 <= k <= items.len(),
        forall|j: int| 0 <= j < k ==> (#[trigger] items[j]) is None,
        k < items.len() ==> items[k] is Some,
    ensures
        first_present(items) == if k < items.len() {
            items[k]
        } else {
            None
        },
    decreases items.len(),
{
    if k > 0 {
        assert(items[0] is None);
        let rest = items.drop_first();
        assert forall|j: int| 0 <= j < k - 1 implies (#[trigger] rest[j]) is None by {
            assert(rest[j] == items[j + 1]);
        }
        lemma_first_present_is(rest, k - 1);
    }
}

/// Picks the first text that `items` holds.
pub fn pick_first(items: &Vec<Option<String>>) -> (picked: Option<String>)
    ensures
        text_of(picked) == first_present(texts_of(items@)),
{
    let ghost views = texts_of(items@);
    let mut i: usize = 0;
    while i < items.len()
        invariant
            views == texts_of(items@),
            i <= items@.len(),
            forall|j: int| 0 <= j < i ==> (#[trigger] views[j]) is None,
        decreases items@.len() - i,
    {
        match &items[i] {
            Some(text) => {
                proof {
                    assert(views[i as int] == Some(text@));
                    lemma_first_present_is(views, i as int);
                }
                return Some(text.clone());
            },
            None => {
                assert(views[i as int] is None);
            },
        }
        i = i + 1;
    }
    proof {
        lemma_first_present_is(views, i as int);
    }
    None
}

/// Applies `pattern` to each line of `text` and collects what group `group`
/// captures in it.
pub fn capture_lines(pattern: &str, text: &str, group: usize) -> (found: Vec<Option<String>>)
    ensures
        texts_of(found@) == line_captures(pattern@, lines(text@), group as nat),
{
    let chars = to_chars(text);
    let spans = split_lines(&chars);
    let ghost ls = lines(text@);
    let mut found: Vec<Option<String>> = Vec::new();
    let mut i: usize = 0;
    while i < spans.len()
        invariant
            chars@ == text@,
            crate::text::all_fit(spans@, chars@.len()),
            covered(spans@, chars@) == ls,
            i <= spans@.len(),
            found@.len() == i,
            forall|j: int|
                0 <= j < i ==> text_of(#[trigger] found@[j]) == capture_of(
                    pattern@,
                    ls[j],
                    group as nat,
                ),
        decreases spans@.len() - i,
    {
        assert(spans@[i as int].fits(chars@.len()));
        assert(ls[i as int] == spans@[i as int].of(chars@));
        let line = slice(text, spans[i]);
        found.push(capture(pattern, line, group));
        i = i + 1;
    }
    proof {
        assert(texts_of(found@) =~= line_captures(pattern@, ls, group as nat));
    }
    found
}

/// Finds what group `group` of `pattern` captures in the first line of
/// `text` where it captures anything.
pub fn first_capture_in_lines(pattern: &str, text: &str, group: usize) -> (found: Option<String>)
    ensures
        text_of(found) == first_capture(pattern@, text@, group as nat),
{
    let found = capture_lines(pattern, text, group);
    pick_first(&found)
}

/// Of several lines that a pattern captures from, the first one counts:
/// where line `k` is the first of `text` to give a capture, that capture is
/// the result, whatever the lines after it hold.
pub proof fn lemma_first_capture_wins(pattern: Seq<char>, text: Seq<char>, group: nat, k: int)
    requires
        0 <= k < lines(text).len(),
        capture_of(pattern, lines(text)[k], group) is Some,
        forall|j: int| 0 <= j < k ==> capture_of(pattern, #[trigger] lines(text)[j], group) is None,
    ensures
        first_capture(pattern, text, group) == capture_of(pattern, lines(text)[k], group),
{
    let items = line_captures(pattern, lines(text), group);
    assert forall|j: int| 0 <= j < k implies (#[trigger] items[j]) is None by {
        assert(capture_of(pattern, lines(text)[j], group) is None);
    }
    lemma_first_present_is(items, k);
}

/// Where no line of `text` gives a capture, there is no result.
pub proof fn lemma_no_capture(pattern: Seq<char>, text: Seq<char>, group: nat)
    requires
        forall|j: int|
            0 <= j < lines(text).len() ==> capture_of(pattern, #[trigger] lines(text)[j], group)
                is None,
    ensures
        first_capture(pattern, text, group) is None,
{
    let items = line_captures(pattern, lines(text), group);
    assert forall|j: int| 0 <= j < items.len() implies (#[trigger] items[j]) is None by {
        assert(capture_of(pattern, lines(text)[j], group) is None);
    }
    lemma_first_present_is(items, items.len() as int);
}

} // verus!
