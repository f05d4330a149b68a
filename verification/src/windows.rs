//! Parsers for what a Windows system reports: tables of one header line and
//! one data row per query.

use crate::decimal::{number, parse_bounded, parse_unsigned};
use crate::model::{RamInfo, BYTES_PER_KIB};
use crate::text::{
    extract, lines, spanned, split_lines, text_of, to_chars, trim, trim_span, CharClass, Span,
};
use vstd::prelude::*;
use vstd::string::StringExecFns;

verus! {

/// The data row of a table: its second line, without surrounding
/// whitespace. `None` for a table of fewer than two lines.
pub open spec fn second_row(table: Seq<char>) -> Option<Seq<char>> {
    let ls = lines(table);
    if ls.len() > 1 {
        Some(trim(ls[1], CharClass::Whitespace))
    } else {
        None
    }
}

/// The number in the data row of a table, where the row holds one of at
/// most `max`.
pub open spec fn row_number(table: Seq<char>, max: int) -> Option<int> {
    match second_row(table) {
        Some(row) => parse_unsigned(row, max),
        None => None,
    }
}

/// Selects the data row of the decoded table `chars`.
fn second_row_span(chars: &Vec<char>) -> (row: Option<Span>)
    ensures
        row matches Some(r) ==> r.fits(chars@.len()),
        spanned(row, chars@) == second_row(chars@),
{
    let spans = split_lines(chars);
    if spans.len() > 1 {
        assert(spans@[1].fits(chars@.len()));
        assert(lines(chars@)[1] == spans@[1].of(chars@));
        Some(trim_span(chars, spans[1], CharClass::Whitespace))
    } else {
        None
    }
}

/// Reads the data row of a table.
pub fn parse_second_row(table: &str) -> (row: Option<String>)
    ensures
        text_of(row) == second_row(table@),
{
    let chars = to_chars(table);
    match second_row_span(&chars) {
        Some(row) => Some(extract(table, row)),
        None => None,
    }
}

/// Reads the number in the data row of a table.
pub fn parse_row_number(table: &str, max: u64) -> (value: Option<u64>)
    ensures
        number(value) == row_number(table@, max as int),
{
    let chars = to_chars(table);
    match second_row_span(&chars) {
        Some(row) => parse_bounded(&chars, row, max),
        None => None,
    }
}

/// What three tables say of the processor: model name, core count and
/// thread count. A table without a data row gives the default, `Unknown`
/// for the name and 1 for a count; so does a count that is no number.
pub open spec fn cpu_info(
    model_table: Seq<char>,
    cores_table: Seq<char>,
    threads_table: Seq<char>,
) -> (Seq<char>, int, int) {
    (
        match second_row(model_table) {
            Some(model) => model,
            None => "Unknown"@,
        },
        match row_number(cores_table, usize::MAX as int) {
            Some(cores) => cores,
            None => 1,
        },
        match row_number(threads_table, usize::MAX as int) {
            Some(threads) => threads,
            None => 1,
        },
    )
}

/// Reads model name, core count and thread count, each from its table.
pub fn parse_cpu_info(model_table: &str, cores_table: &str, threads_table: &str) -> (info: (
    String,
    usize,
    usize,
))
    ensures
        (info.0@, info.1 as int, info.2 as int) == cpu_info(
            model_table@,
            cores_table@,
            threads_table@,
        ),
{
    let model = match parse_second_row(model_table) {
        Some(model) => model,
        None => String::from_str("Unknown"),
    };
    let cores: usize = match parse_row_number(cores_table, usize::MAX as u64) {
        Some(cores) => cores as usize,
        None => 1,
    };
    let threads: usize = match parse_row_number(threads_table, usize::MAX as u64) {
        Some(threads) => threads as usize,
        None => 1,
    };
    (model, cores, threads)
}

/// The installed memory in whole kibibytes, as its table states it in
/// bytes.
pub open spec fn installed_kib(total_table: Seq<char>) -> Option<int> {
    match row_number(total_table, u64::MAX as int) {
        Some(total_bytes) => Some(total_bytes / (BYTES_PER_KIB as int)),
        None => None,
    }
}

/// Memory use according to two tables: the installed memory in bytes, of
/// which the whole kibibytes count, and the free memory in kibibytes. What
/// is in use is the total less what is free. Nothing is reported where
/// either table lacks a number of at most 64 bits in its data row, or where
/// the total is less than one kibibyte.
pub open spec fn ram_info(total_table: Seq<char>, free_table: Seq<char>) -> Option<RamInfo> {
    match (installed_kib(total_table), row_number(free_table, u64::MAX as int)) {
        (Some(total_kib), Some(free_kib)) => RamInfo::kib_reading(total_kib, free_kib),
        _ => None,
    }
}

/// Reads memory use from the table of the installed memory and the table of
/// the free memory.
pub fn parse_ram_info(total_table: &str, free_table: &str) -> (info: Option<RamInfo>)
    ensures
        info == ram_info(total_table@, free_table@),
        info matches Some(i) ==> i.wf(),
{
    let total_bytes = match parse_row_number(total_table, u64::MAX) {
        Some(value) => value,
        None => {
            return None;
        },
    };
    let free_kib = match parse_row_number(free_table, u64::MAX) {
        Some(value) => value,
        None => {
            return None;
        },
    };
    RamInfo::from_kib(total_bytes / 1024, free_kib)
}

/// A table that ends after its header line has no data row and no number,
/// and three such tables describe the processor by the defaults.
pub proof fn lemma_header_only_table(table: Seq<char>, max: int)
    requires
        lines(table).len() == 1,
    ensures
        second_row(table) is None,
        row_number(table, max) is None,
        cpu_info(table, table, table) == ("Unknown"@, 1int, 1int),
{
}

} // verus!
