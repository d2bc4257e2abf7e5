//! Rendering of a single source diagnostic as a fixed, plain-text report.
//!
//! [`format_validation_error`] takes the source text, the place the
//! diagnostic points at, and its texts, and returns the report. It accepts
//! every input: a line number that the source does not have gives an empty
//! excerpt, an underline of length zero is drawn as one caret, and column
//! zero is padded like column one.
//!
//! The report is stated character by character in [`report::report_text`].

use vstd::prelude::*;

pub mod decimal;
pub mod layout;
pub mod lines;
pub mod report;
pub mod text;

use crate::lines::source_line;
use crate::report::{
    append_blank_row, append_help_row, append_kind_row, append_location_row, append_marker_row,
    append_rule_row, append_source_row, append_title_row, blank_row, report_text,
};

verus! {

/// Renders one diagnostic as a report.
///
/// * `code`: the source text that the diagnostic is about
/// * `file_path`: the path shown in the location
/// * `error_kind`: the category shown behind the marker in the title
/// * `line_num`, `col_num`: the one-based line and column
/// * `message`: the text shown beside the underline
/// * `help`: the text of the closing help row
/// * `underline_length`: how many characters of the excerpt to underline
pub fn format_validation_error(
    code: &str,
    file_path: &str,
    error_kind: &str,
    line_num: usize,
    col_num: usize,
    message: &str,
    help: &str,
    underline_length: usize,
) -> (report: String)
    ensures
        report@ == report_text(
            code@,
            file_path@,
            error_kind@,
            line_num as nat,
            col_num as nat,
            message@,
            help@,
            underline_length as nat,
        ),
{
    format_error_impl(
        code,
        file_path,
        error_kind,
        line_num,
        col_num,
        message,
        help,
        underline_length,
    )
}

/// Picks the excerpt and writes the rows in order.
fn format_error_impl(
    code: &str,
    file_path: &str,
    error_kind: &str,
    line_num: usize,
    col_num: usize,
    message: &str,
    help: &str,
    underline_length: usize,
) -> (report: String)
    ensures
        report@ == report_text(
            code@,
            file_path@,
            error_kind@,
            line_num as nat,
            col_num as nat,
            message@,
            help@,
            underline_length as nat,
        ),
{
    let error_line = source_line(code, line_num);
    let mut out = String::new();
    append_blank_row(&mut out);
    assert(out@ =~= blank_row());
    append_title_row(&mut out);
    append_kind_row(&mut out, error_kind);
    append_blank_row(&mut out);
    append_location_row(&mut out, file_path, line_num, col_num);
    append_rule_row(&mut out);
    append_source_row(&mut out, line_num, error_line);
    append_marker_row(&mut out, col_num, underline_length, message);
    append_rule_row(&mut out);
    append_help_row(&mut out, help);
    append_rule_row(&mut out);
    out
}

} // verus!
