//! The text of a report, row by row.
//!
//! A report is eleven rows, each closed by a line feed:
//!
//! ```text
//!
//! Validation Error
//! ❌ {error_kind}
//!
//! ┌─ {file_path}:{line_num}:{col_num}
//! │
//! {line_num} │ {excerpt}
//!     │ {padding}{carets} {message}
//! │
//! = help: {help}
//! │
//! ```
//!
//! The line number in front of the excerpt is right-aligned in three columns.
//! The glyphs are U+274C for the marker of the kind, and U+250C, U+2500 and
//! U+2502 for the frame. No colour and no other styling is applied.
//!
//! Columns are counted in characters, as the caller counts them: nothing here
//! measures how wide a character is drawn.

use vstd::prelude::*;
use crate::decimal::{append_decimal, decimal};
use crate::lines::excerpt;
use crate::text::{append_right_aligned, append_run, right_aligned, run};

verus! {

/// How many carets underline the excerpt: one for each underlined character,
/// and one where the diagnostic names none.
pub open spec fn underline_len(underline_length: nat) -> nat {
    if underline_length == 0 {
        1
    } else {
        underline_length
    }
}

/// How many spaces stand between the gutter and the first caret: one for each
/// column before the one-based `col_num`, none for column zero.
pub open spec fn underline_pad(col_num: nat) -> nat {
    if col_num == 0 {
        0
    } else {
        (col_num - 1) as nat
    }
}

/// An empty row.
pub open spec fn blank_row() -> Seq<char> {
    "\n"@
}

/// The row that holds the title.
pub open spec fn title_row() -> Seq<char> {
    "Validation Error\n"@
}

/// The row that names the kind of the diagnostic, behind its marker.
pub open spec fn kind_row(error_kind: Seq<char>) -> Seq<char> {
    "❌ "@ + error_kind + "\n"@
}

/// Where the diagnostic points: path, line and column, joined by colons.
pub open spec fn location(file_path: Seq<char>, line_num: nat, col_num: nat) -> Seq<char> {
    file_path + ":"@ + decimal(line_num) + ":"@ + decimal(col_num)
}

/// The row that opens the frame and names the location.
pub open spec fn location_row(file_path: Seq<char>, line_num: nat, col_num: nat) -> Seq<char> {
    "┌─ "@ + location(file_path, line_num, col_num) + "\n"@
}

/// A row that holds nothing but the frame's vertical rule.
pub open spec fn rule_row() -> Seq<char> {
    "│\n"@
}

/// The row that shows the line number in the gutter and the excerpt beside it.
pub open spec fn source_row(line_num: nat, excerpt: Seq<char>) -> Seq<char> {
    right_aligned(decimal(line_num), 3) + " │ "@ + excerpt + "\n"@
}

/// The row below the excerpt: an empty gutter, the padding up to the column,
/// the carets, one space, and the message.
pub open spec fn marker_row(col_num: nat, underline_length: nat, message: Seq<char>) -> Seq<char> {
    "    │ "@
        + run(' ', underline_pad(col_num))
        + run('^', underline_len(underline_length))
        + " "@
        + message
        + "\n"@
}

/// The row that carries the help text.
pub open spec fn help_row(help: Seq<char>) -> Seq<char> {
    "= help: "@ + help + "\n"@
}

/// The whole report for one diagnostic.
pub open spec fn report_text(
    code: Seq<char>,
    file_path: Seq<char>,
    error_kind: Seq<char>,
    line_num: nat,
    col_num: nat,
    message: Seq<char>,
    help: Seq<char>,
    underline_length: nat,
) -> Seq<char> {
    blank_row()
        + title_row()
        + kind_row(error_kind)
        + blank_row()
        + location_row(file_path, line_num, col_num)
        + rule_row()
        + source_row(line_num, excerpt(code, line_num))
        + marker_row(col_num, underline_length, message)
        + rule_row()
        + help_row(help)
        + rule_row()
}

/// Everything a report is made from: the source text, the place in it that
/// the diagnostic points at, and the diagnostic's texts and underline.
pub ghost struct Diagnostic {
    pub code: Seq<char>,
    pub file_path: Seq<char>,
    pub error_kind: Seq<char>,
    pub line_num: nat,
    pub col_num: nat,
    pub message: Seq<char>,
    pub help: Seq<char>,
    pub underline_length: nat,
}

impl Diagnostic {
    /// The report of this diagnostic.
    pub open spec fn report(self) -> Seq<char> {
        report_text(
            self.code,
            self.file_path,
            self.error_kind,
            self.line_num,
            self.col_num,
            self.message,
            self.help,
            self.underline_length,
        )
    }
}

/// Appends an empty row.
pub(crate) fn append_blank_row(out: &mut String)
    ensures
        final(out)@ == old(out)@ + blank_row(),
{
    out.append("\n");
}

/// Appends the title row.
pub(crate) fn append_title_row(out: &mut String)
    ensures
        final(out)@ == old(out)@ + title_row(),
{
    out.append("Validation Error\n");
}

/// Appends the row that names the kind.
pub(crate) fn append_kind_row(out: &mut String, error_kind: &str)
    ensures
        final(out)@ == old(out)@ + kind_row(error_kind@),
{
    out.append("❌ ");
    out.append(error_kind);
    out.append("\n");
    assert(out@ =~= old(out)@ + kind_row(error_kind@));
}

/// Appends the location row.
pub(crate) fn append_location_row(
    out: &mut String,
    file_path: &str,
    line_num: usize,
    col_num: usize,
)
    ensures
        final(out)@ == old(out)@ + location_row(file_path@, line_num as nat, col_num as nat),
{
    out.append("┌─ ");
    out.append(file_path);
    out.append(":");
    append_decimal(out, line_num);
    out.append(":");
    append_decimal(out, col_num);
    out.append("\n");
    assert(out@ =~= old(out)@ + location_row(file_path@, line_num as nat, col_num as nat));
}

/// Appends a rule row.
pub(crate) fn append_rule_row(out: &mut String)
    ensures
        final(out)@ == old(out)@ + rule_row(),
{
    out.append("│\n");
}

/// Appends the source row.
pub(crate) fn append_source_row(out: &mut String, line_num: usize, error_line: &str)
    ensures
        final(out)@ == old(out)@ + source_row(line_num as nat, error_line@),
{
    let mut number = String::new();
    append_decimal(&mut number, line_num);
    assert(number@ =~= decimal(line_num as nat));
    append_right_aligned(out, number.as_str(), 3);
    out.append(" │ ");
    out.append(error_line);
    out.append("\n");
    assert(out@ =~= old(out)@ + source_row(line_num as nat, error_line@));
}

/// Appends the marker row.
pub(crate) fn append_marker_row(
    out: &mut String,
    col_num: usize,
    underline_length: usize,
    message: &str,
)
    ensures
        final(out)@ == old(out)@ + marker_row(
            col_num as nat,
            underline_length as nat,
            message@,
        ),
{
    let carets: usize = if underline_length == 0 {
        1
    } else {
        underline_length
    };
    let padding: usize = col_num.saturating_sub(1);
    proof {
        reveal_strlit(" ");
        reveal_strlit("^");
    }
    out.append("    │ ");
    append_run(out, " ", padding);
    append_run(out, "^", carets);
    out.append(" ");
    out.append(message);
    out.append("\n");
    assert(out@ =~= old(out)@ + marker_row(
        col_num as nat,
        underline_length as nat,
        message@,
    ));
}

/// Appends the help row.
pub(crate) fn append_help_row(out: &mut String, help: &str)
    ensures
        final(out)@ == old(out)@ + help_row(help@),
{
    out.append("= help: ");
    out.append(help);
    out.append("\n");
    assert(out@ =~= old(out)@ + help_row(help@));
}

} // verus!
