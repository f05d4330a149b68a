//! Parsers for what a Linux system reports.

use crate::decimal::{lemma_parse_unsigned_range, number, parse_bounded, parse_unsigned};
use crate::model::{cpu_view, RamInfo};
use crate::model::BYTES_PER_KIB;
use crate::pattern::{capture_of, first_capture, first_capture_in_lines, lemma_first_capture_wins};
use crate::text::{
    count_lines, count_with_prefix, extract, find_line, first_matching, has_prefix,
    after_first, after_first_span, lemma_first_matching_is, lines, second_token,
    second_token_span, spanned, split_lines, text_of, to_chars, trim, trim_span, CharClass, Span,
};
use vstd::prelude::*;

verus! {

/// The value of a `key : value` record: what follows the first colon of
/// `line`, without surrounding whitespace. `None` for a line without a
/// colon.
pub open spec fn record_value(line: Seq<char>) -> Option<Seq<char>> {
    match after_first(line, ':') {
        Some(rest) => Some(trim(rest, CharClass::Whitespace)),
        None => None,
    }
}

/// What a processor descriptor table says of the processor.
///
/// The model name is the value of the first record whose line begins with
/// `model name`; the core count that of the first whose line begins with
/// `cpu cores`, or 1 where there is no such record or its value is no
/// number; the thread count is the number of lines that begin with
/// `processor`. Nothing is reported without a model name record, or where
/// the first line of either key lacks a colon.
pub open spec fn cpu_info(table: Seq<char>) -> Option<(Seq<char>, int, int)> {
    let ls = lines(table);
    let m = first_matching(ls, "model name"@, false) as int;
    let c = first_matching(ls, "cpu cores"@, false) as int;
    let threads = count_with_prefix(ls, "processor"@) as int;
    if m >= ls.len() {
        None
    } else {
        match record_value(ls[m]) {
            None => None,
            Some(model) => if c >= ls.len() {
                Some((model, 1, threads))
            } else {
                match record_value(ls[c]) {
                    None => None,
                    Some(count) => match parse_unsigned(count, usize::MAX as int) {
                        Some(cores) => Some((model, cores, threads)),
                        None => Some((model, 1, threads)),
                    },
                }
            },
        }
    }
}

/// Selects the value of the `key : value` record in `line`.
fn record_value_span(chars: &Vec<char>, line: Span) -> (value: Option<Span>)
    requires
        line.fits(chars@.len()),
    ensures
        value matches Some(v) ==> v.within(line),
        spanned(value, chars@) == record_value(line.of(chars@)),
{
    match after_first_span(chars, line, ':') {
        Some(rest) => Some(trim_span(chars, rest, CharClass::Whitespace)),
        None => None,
    }
}

/// Reads model name, core count and thread count from a processor
/// descriptor table.
pub fn parse_cpu_info(table: &str) -> (info: Option<(String, usize, usize)>)
    ensures
        cpu_view(info) == cpu_info(table@),
{
    let chars = to_chars(table);
    let spans = split_lines(&chars);
    let model_key = to_chars("model name");
    let cores_key = to_chars("cpu cores");
    let processor_key = to_chars("processor");
    let ghost ls = lines(table@);
    let m = find_line(&chars, &spans, &model_key, false);
    if m >= spans.len() {
        return None;
    }
    assert(spans@[m as int].fits(chars@.len()));
    assert(ls[m as int] == spans@[m as int].of(chars@));
    let model = match record_value_span(&chars, spans[m]) {
        Some(value) => value,
        None => {
            return None;
        },
    };
    let c = find_line(&chars, &spans, &cores_key, false);
    let mut cores: usize = 1;
    if c < spans.len() {
        assert(spans@[c as int].fits(chars@.len()));
        assert(ls[c as int] == spans@[c as int].of(chars@));
        match record_value_span(&chars, spans[c]) {
            Some(value) => {
                match parse_bounded(&chars, value, usize::MAX as u64) {
                    Some(n) => {
                        cores = n as usize;
                    },
                    None => {},
                }
            },
            None => {
                return None;
            },
        }
    }
    let threads = count_lines(&chars, &spans, &processor_key);
    Some((extract(table, model), cores, threads))
}

/// The adapter that a PCI device listing names first: what follows
/// `VGA compatible controller: ` in the first line that holds it with
/// something after it.
pub open spec fn gpu_model(listing: Seq<char>) -> Option<Seq<char>> {
    first_capture("VGA compatible controller: (.+)"@, listing, 1)
}

/// Reads the graphics adapter from a PCI device listing.
pub fn parse_gpu_model(listing: &str) -> (model: Option<String>)
    ensures
        text_of(model) == gpu_model(listing@),
{
    first_capture_in_lines("VGA compatible controller: (.+)", listing, 1)
}

/// The amount that `text` gives under `label`: the second
/// whitespace-separated token of the first line that holds `label`, read as
/// a number of at most 64 bits.
pub open spec fn labeled_amount(text: Seq<char>, label: Seq<char>) -> Option<int> {
    let ls = lines(text);
    let k = first_matching(ls, label, true) as int;
    if k < ls.len() {
        match second_token(ls[k]) {
            Some(token) => parse_unsigned(token, u64::MAX as int),
            None => None,
        }
    } else {
        None
    }
}

/// Reads the amount that `text` gives under `label`.
pub fn parse_labeled_amount(text: &str, label: &str) -> (amount: Option<u64>)
    ensures
        number(amount) == labeled_amount(text@, label@),
{
    let chars = to_chars(text);
    let spans = split_lines(&chars);
    let key = to_chars(label);
    let k = find_line(&chars, &spans, &key, true);
    if k >= spans.len() {
        return None;
    }
    assert(spans@[k as int].fits(chars@.len()));
    assert(lines(text@)[k as int] == spans@[k as int].of(chars@));
    match second_token_span(&chars, spans[k]) {
        Some(token) => parse_bounded(&chars, token, u64::MAX),
        None => None,
    }
}

/// Memory use according to the memory-info table: the amounts, in
/// kibibytes, under `MemTotal` in `total_text` and under `MemAvailable` in
/// `available_text`. What is in use is the total less what is available.
/// Nothing is reported where either amount is missing or no number, or
/// where the total is zero.
pub open spec fn ram_info(total_text: Seq<char>, available_text: Seq<char>) -> Option<RamInfo> {
    match (labeled_amount(total_text, "MemTotal"@), labeled_amount(available_text, "MemAvailable"@)) {
        (Some(total), Some(available)) => RamInfo::kib_reading(total, available),
        _ => None,
    }
}

/// Reads memory use from the memory-info table. Both arguments may be the
/// whole table, or each the lines of it that hold the one label.
pub fn parse_ram_info(total_text: &str, available_text: &str) -> (info: Option<RamInfo>)
    ensures
        info == ram_info(total_text@, available_text@),
        info matches Some(i) ==> i.wf(),
{
    let total = match parse_labeled_amount(total_text, "MemTotal") {
        Some(amount) => amount,
        None => {
            return None;
        },
    };
    let available = match parse_labeled_amount(available_text, "MemAvailable") {
        Some(amount) => amount,
        None => {
            return None;
        },
    };
    RamInfo::from_kib(total, available)
}

/// Number of characters of the key `PRETTY_NAME=`.
pub const PRETTY_NAME_KEY_LEN: usize = 12;

/// The distribution name in an OS release file: in the first line that
/// begins with `PRETTY_NAME=`, all that follows this key, without the
/// double quotes around it. A `=` inside the value belongs to it.
pub open spec fn os_version(release: Seq<char>) -> Option<Seq<char>> {
    let ls = lines(release);
    let k = first_matching(ls, "PRETTY_NAME="@, false) as int;
    if k < ls.len() {
        Some(trim(ls[k].skip(PRETTY_NAME_KEY_LEN as int), CharClass::Exactly('"')))
    } else {
        None
    }
}

/// Reads the distribution name from the text of an OS release file.
pub fn parse_os_version(release: &str) -> (version: Option<String>)
    ensures
        text_of(version) == os_version(release@),
{
    let chars = to_chars(release);
    let spans = split_lines(&chars);
    let key = to_chars("PRETTY_NAME=");
    let k = find_line(&chars, &spans, &key, false);
    if k >= spans.len() {
        return None;
    }
    let line = spans[k];
    proof {
        reveal_strlit("PRETTY_NAME=");
        assert(line.fits(chars@.len()));
        assert(lines(release@)[k as int] == line.of(chars@));
        assert(has_prefix(line.of(chars@), key@));
        assert(key@.len() == PRETTY_NAME_KEY_LEN);
    }
    let value = Span { start: line.start + PRETTY_NAME_KEY_LEN, end: line.end };
    assert(value.of(chars@) == line.of(chars@).skip(PRETTY_NAME_KEY_LEN as int));
    let name = trim_span(&chars, value, CharClass::Exactly('"'));
    Some(extract(release, name))
}

/// The thread count is the number of lines that begin with `processor`,
/// whatever the table says of cores.
pub proof fn lemma_threads_count_processor_lines(table: Seq<char>)
    ensures
        cpu_info(table) matches Some(info) ==> info.2 == count_with_prefix(
            lines(table),
            "processor"@,
        ),
{
}

/// A table in which no line begins with `model name` gives no report,
/// whatever it says of cores and threads.
pub proof fn lemma_no_model_name_no_report(table: Seq<char>)
    requires
        forall|i: int|
            0 <= i < lines(table).len() ==> !has_prefix(#[trigger] lines(table)[i], "model name"@),
    ensures
        cpu_info(table) is None,
{
    let ls = lines(table);
    lemma_first_matching_is(ls, "model name"@, false, ls.len() as int);
}

/// Of several adapters that a listing names, the first is reported: where
/// line `k` is the first in which the pattern captures, its capture is the
/// result.
pub proof fn lemma_first_adapter_is_reported(listing: Seq<char>, k: int)
    requires
        0 <= k < lines(listing).len(),
        capture_of("VGA compatible controller: (.+)"@, lines(listing)[k], 1) is Some,
        forall|j: int|
            0 <= j < k ==> capture_of(
                "VGA compatible controller: (.+)"@,
                #[trigger] lines(listing)[j],
                1,
            ) is None,
    ensures
        gpu_model(listing) == capture_of(
            "VGA compatible controller: (.+)"@,
            lines(listing)[k],
            1,
        ),
{
    lemma_first_capture_wins("VGA compatible controller: (.+)"@, listing, 1, k);
}

/// An amount that is read fits in 64 bits.
pub proof fn lemma_labeled_amount_range(text: Seq<char>, label: Seq<char>)
    ensures
        labeled_amount(text, label) matches Some(amount) ==> 0 <= amount <= u64::MAX,
{
    let ls = lines(text);
    let k = first_matching(ls, label, true) as int;
    if k < ls.len() && second_token(ls[k]) is Some {
        lemma_parse_unsigned_range(second_token(ls[k])->0, u64::MAX as int);
    }
}

/// Where the table gives a total above zero and no more available than
/// that, the used and the available memory add up to the total, and the
/// usage lies between 0 and 100 percent.
pub proof fn lemma_ram_info_adds_up(total_text: Seq<char>, available_text: Seq<char>)
    requires
        labeled_amount(total_text, "MemTotal"@) is Some,
        labeled_amount(available_text, "MemAvailable"@) is Some,
        0 < labeled_amount(total_text, "MemTotal"@)->0,
        labeled_amount(available_text, "MemAvailable"@)->0 <= labeled_amount(
            total_text,
            "MemTotal"@,
        )->0,
    ensures
        ram_info(total_text, available_text) matches Some(info) && {
            &&& info.total_bytes == labeled_amount(total_text, "MemTotal"@)->0 * BYTES_PER_KIB
            &&& info.used_bytes + labeled_amount(available_text, "MemAvailable"@)->0
                * BYTES_PER_KIB == info.total_bytes
            &&& info.percent_between(0, 100)
        },
{
    let total = labeled_amount(total_text, "MemTotal"@)->0;
    let available = labeled_amount(available_text, "MemAvailable"@)->0;
    lemma_labeled_amount_range(total_text, "MemTotal"@);
    lemma_labeled_amount_range(available_text, "MemAvailable"@);
    RamInfo::lemma_kib_round_trip(total, available);
    RamInfo::lemma_kib_percent_range(total, available);
}

/// Where line `k` is the first of a release file to begin with
/// `PRETTY_NAME=`, the version is all that follows the key in that line,
/// without the double quotes around it, whatever the lines after it hold.
pub proof fn lemma_first_pretty_name_is_reported(release: Seq<char>, k: int)
    requires
        0 <= k < lines(release).len(),
        has_prefix(lines(release)[k], "PRETTY_NAME="@),
        forall|j: int| 0 <= j < k ==> !has_prefix(#[trigger] lines(release)[j], "PRETTY_NAME="@),
    ensures
        os_version(release) == Some(
            trim(lines(release)[k].skip(PRETTY_NAME_KEY_LEN as int), CharClass::Exactly('"')),
        ),
{
    lemma_first_matching_is(lines(release), "PRETTY_NAME="@, false, k);
}

/// A release file in which no line begins with `PRETTY_NAME=` gives no
/// version.
pub proof fn lemma_no_pretty_name_no_version(release: Seq<char>)
    requires
        forall|i: int|
            0 <= i < lines(release).len() ==> !has_prefix(
                #[trigger] lines(release)[i],
                "PRETTY_NAME="@,
            ),
    ensures
        os_version(release) is None,
{
    let ls = lines(release);
    lemma_first_matching_is(ls, "PRETTY_NAME="@, false, ls.len() as int);
}

} // verus!
