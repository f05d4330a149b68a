//! Parsers for what a macOS system reports.

use crate::decimal::{number, parse_bounded, parse_unsigned};
use crate::model::{cpu_view, RamInfo};
use crate::pattern::{
    capture, capture_of, first_capture, first_capture_in_lines, lemma_first_capture_wins,
};
use crate::text::{
    lines, second_token, second_token_span, text_of, to_chars, trim, trim_span, trimmed,
    CharClass, Span,
};
use vstd::prelude::*;

verus! {

/// The number that `output` holds once the whitespace around it is gone.
pub open spec fn count_of(output: Seq<char>) -> Option<int> {
    parse_unsigned(trim(output, CharClass::Whitespace), usize::MAX as int)
}

/// What three kernel parameters say of the processor: the brand string is
/// the model name, the other two are the core and thread counts. Nothing
/// is reported where a count is no number.
pub open spec fn cpu_info(brand: Seq<char>, cores: Seq<char>, threads: Seq<char>) -> Option<
    (Seq<char>, int, int),
> {
    match (count_of(cores), count_of(threads)) {
        (Some(c), Some(t)) => Some((trim(brand, CharClass::Whitespace), c, t)),
        _ => None,
    }
}

/// Reads the number that `output` holds between whitespace.
fn parse_count(output: &str) -> (count: Option<usize>)
    ensures
        match count {
            Some(c) => Some(c as int),
            None => None,
        } == count_of(output@),
{
    let chars = to_chars(output);
    let whole = Span { start: 0, end: chars.len() };
    assert(whole.of(chars@) == chars@);
    let inner = trim_span(&chars, whole, CharClass::Whitespace);
    match parse_bounded(&chars, inner, usize::MAX as u64) {
        Some(c) => Some(c as usize),
        None => None,
    }
}

/// Reads model name, core count and thread count from the values of the
/// three kernel parameters.
pub fn parse_cpu_info(brand: &str, cores: &str, threads: &str) -> (info: Option<
    (String, usize, usize),
>)
    ensures
        cpu_view(info) == cpu_info(brand@, cores@, threads@),
{
    let c = match parse_count(cores) {
        Some(c) => c,
        None => {
            return None;
        },
    };
    let t = match parse_count(threads) {
        Some(t) => t,
        None => {
            return None;
        },
    };
    Some((trimmed(brand), c, t))
}

/// The adapter that a display profile names first: what follows
/// `Chipset Model: ` in the first line that holds it with something after
/// it.
pub open spec fn gpu_model(profile: Seq<char>) -> Option<Seq<char>> {
    first_capture("Chipset Model: (.+)"@, profile, 1)
}

/// Reads the graphics adapter from a display profile.
pub fn parse_gpu_model(profile: &str) -> (model: Option<String>)
    ensures
        text_of(model) == gpu_model(profile@),
{
    first_capture_in_lines("Chipset Model: (.+)", profile, 1)
}

/// Page size that holds where the statistics name none.
pub const DEFAULT_PAGE_SIZE: u64 = 4096;

/// A captured run of digits as a number of at most 64 bits.
pub open spec fn captured_number(digits: Option<Seq<char>>) -> Option<int> {
    match digits {
        Some(d) => parse_unsigned(d, u64::MAX as int),
        None => None,
    }
}

/// The installed memory, in bytes, that the memory-size kernel parameter
/// prints as its second whitespace-separated token.
pub open spec fn installed_bytes(total_output: Seq<char>) -> Option<int> {
    captured_number(second_token(total_output))
}

/// Memory use from its three sources: `total_output` holds the installed
/// memory in bytes as its second whitespace-separated token,
/// `active_pages` the number of pages in use, `page_size` the size of a
/// page in bytes. What is in use is the product of the last two. A missing
/// page size counts as [`DEFAULT_PAGE_SIZE`].
///
/// Nothing is reported where the total or the page count is missing, where
/// one of the three is present but no number of at most 64 bits, where the
/// total is zero, or where the product exceeds 64 bits.
pub open spec fn ram_reading(
    total_output: Seq<char>,
    active_pages: Option<Seq<char>>,
    page_size: Option<Seq<char>>,
) -> Option<RamInfo> {
    let total = installed_bytes(total_output);
    let pages = captured_number(active_pages);
    let size = if page_size is Some {
        captured_number(page_size)
    } else {
        Some(DEFAULT_PAGE_SIZE as int)
    };
    match (total, pages, size) {
        (Some(total), Some(pages), Some(size)) => if pages * size <= u64::MAX {
            RamInfo::byte_reading(total, pages * size)
        } else {
            None
        },
        _ => None,
    }
}

/// Memory use according to the value of the memory-size kernel parameter
/// and the virtual-memory statistics, from which the digits after
/// `Pages active: ` and those between `page size of ` and ` bytes` are
/// taken.
pub open spec fn ram_info(total_output: Seq<char>, statistics: Seq<char>) -> Option<RamInfo> {
    ram_reading(
        total_output,
        capture_of("Pages active: (\\d+)"@, statistics, 1),
        capture_of("page size of (\\d+) bytes"@, statistics, 1),
    )
}

/// Reads a captured run of digits.
fn parse_captured(digits: &Option<String>) -> (value: Option<u64>)
    ensures
        number(value) == captured_number(text_of(*digits)),
{
    match digits {
        Some(d) => {
            let chars = to_chars(d.as_str());
            let whole = Span { start: 0, end: chars.len() };
            assert(whole.of(chars@) == chars@);
            parse_bounded(&chars, whole, u64::MAX)
        },
        None => None,
    }
}

/// Computes memory use from the output that holds the installed memory and
/// from what was captured of the page count and the page size.
pub fn ram_from_captures(
    total_output: &str,
    active_pages: &Option<String>,
    page_size: &Option<String>,
) -> (info: Option<RamInfo>)
    ensures
        info == ram_reading(total_output@, text_of(*active_pages), text_of(*page_size)),
        info matches Some(i) ==> i.wf(),
{
    let chars = to_chars(total_output);
    let whole = Span { start: 0, end: chars.len() };
    assert(whole.of(chars@) == chars@);
    let total = match second_token_span(&chars, whole) {
        Some(token) => parse_bounded(&chars, token, u64::MAX),
        None => None,
    };
    let pages = parse_captured(active_pages);
    let size = if page_size.is_some() {
        parse_captured(page_size)
    } else {
        Some(DEFAULT_PAGE_SIZE)
    };
    match (total, pages, size) {
        (Some(total), Some(pages), Some(size)) => {
            match pages.checked_mul(size) {
                Some(used) => RamInfo::from_bytes(total, used),
                None => None,
            }
        },
        _ => None,
    }
}

/// Reads memory use from the value of the memory-size kernel parameter and
/// the virtual-memory statistics.
pub fn parse_ram_info(total_output: &str, statistics: &str) -> (info: Option<RamInfo>)
    ensures
        info == ram_info(total_output@, statistics@),
        info matches Some(i) ==> i.wf(),
{
    let active_pages = capture("Pages active: (\\d+)", statistics, 1);
    let page_size = capture("page size of (\\d+) bytes", statistics, 1);
    ram_from_captures(total_output, &active_pages, &page_size)
}

/// Of several adapters that a profile names, the first is reported: where
/// line `k` is the first in which the pattern captures, its capture is the
/// result.
pub proof fn lemma_first_adapter_is_reported(profile: Seq<char>, k: int)
    requires
        0 <= k < lines(profile).len(),
        capture_of("Chipset Model: (.+)"@, lines(profile)[k], 1) is Some,
        forall|j: int|
            0 <= j < k ==> capture_of("Chipset Model: (.+)"@, #[trigger] lines(profile)[j], 1)
                is None,
    ensures
        gpu_model(profile) == capture_of("Chipset Model: (.+)"@, lines(profile)[k], 1),
{
    lemma_first_capture_wins("Chipset Model: (.+)"@, profile, 1, k);
}

} // verus!
