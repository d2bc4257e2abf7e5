//! Where the parts of a diagnostic stand in its report.
//!
//! The report is stated in [`crate::report`]. What is proved here is what a
//! reader of a report relies on: that kind, location, line number and excerpt
//! can be found in it, that the underline has the length and the place that
//! the diagnostic gives it, and that the report depends on nothing but the
//! diagnostic.

use vstd::prelude::*;
use vstd::utf8::encode_utf8;
use crate::decimal::{decimal, digits, lemma_decimal_is_digits};
use crate::lines::{excerpt, source_lines};
use crate::report::{
    blank_row, help_row, kind_row, location, location_row, marker_row, rule_row, source_row,
    title_row, underline_len, underline_pad, Diagnostic,
};
use crate::text::{
    exact_run_at, lemma_occurrences_absent, lemma_occurrences_concat, lemma_occurrences_in_run,
    lemma_occurs_at_extended, lemma_occurs_at_shifted, lemma_occurs_at_start,
    lemma_occurs_at_within, occurrences, occurs_at, occurs_in, right_aligned, run,
};

verus! {

/// The offset at which the row that names the kind starts.
pub open spec fn kind_row_offset() -> int {
    (blank_row() + title_row()).len() as int
}

/// The offset at which the location row starts.
pub open spec fn location_row_offset(d: Diagnostic) -> int {
    kind_row_offset() + (kind_row(d.error_kind) + blank_row()).len()
}

/// The offset at which the source row starts.
pub open spec fn source_row_offset(d: Diagnostic) -> int {
    location_row_offset(d) + (location_row(d.file_path, d.line_num, d.col_num) + rule_row()).len()
}

/// The offset at which the marker row starts.
pub open spec fn marker_row_offset(d: Diagnostic) -> int {
    source_row_offset(d) + source_row(d.line_num, excerpt(d.code, d.line_num)).len()
}

/// The offset of the first caret of the underline.
pub open spec fn underline_offset(d: Diagnostic) -> int {
    marker_row_offset(d) + "    │ "@.len() + underline_pad(d.col_num)
}

/// Each row that carries a part of the diagnostic stands in the report at its
/// offset.
pub proof fn lemma_rows_in_report(d: Diagnostic)
    ensures
        occurs_at(d.report(), kind_row(d.error_kind), kind_row_offset()),
        occurs_at(
            d.report(),
            location_row(d.file_path, d.line_num, d.col_num),
            location_row_offset(d),
        ),
        occurs_at(
            d.report(),
            source_row(d.line_num, excerpt(d.code, d.line_num)),
            source_row_offset(d),
        ),
        occurs_at(
            d.report(),
            marker_row(d.col_num, d.underline_length, d.message),
            marker_row_offset(d),
        ),
{
    let kind = kind_row(d.error_kind);
    let place = location_row(d.file_path, d.line_num, d.col_num);
    let source = source_row(d.line_num, excerpt(d.code, d.line_num));
    let marker = marker_row(d.col_num, d.underline_length, d.message);
    let advice = help_row(d.help);
    let upto2 = blank_row() + title_row();
    let upto3 = upto2 + kind;
    let upto4 = upto3 + blank_row();
    let upto5 = upto4 + place;
    let upto6 = upto5 + rule_row();
    let upto7 = upto6 + source;
    let upto8 = upto7 + marker;
    let upto9 = upto8 + rule_row();
    let upto10 = upto9 + advice;

    let at_kind = kind_row_offset();
    lemma_occurs_at_start(kind);
    lemma_occurs_at_shifted(upto2, kind, kind, 0);
    lemma_occurs_at_extended(upto3, kind, at_kind, blank_row());
    lemma_occurs_at_extended(upto4, kind, at_kind, place);
    lemma_occurs_at_extended(upto5, kind, at_kind, rule_row());
    lemma_occurs_at_extended(upto6, kind, at_kind, source);
    lemma_occurs_at_extended(upto7, kind, at_kind, marker);
    lemma_occurs_at_extended(upto8, kind, at_kind, rule_row());
    lemma_occurs_at_extended(upto9, kind, at_kind, advice);
    lemma_occurs_at_extended(upto10, kind, at_kind, rule_row());

    let at_place = location_row_offset(d);
    lemma_occurs_at_start(place);
    lemma_occurs_at_shifted(upto4, place, place, 0);
    lemma_occurs_at_extended(upto5, place, at_place, rule_row());
    lemma_occurs_at_extended(upto6, place, at_place, source);
    lemma_occurs_at_extended(upto7, place, at_place, marker);
    lemma_occurs_at_extended(upto8, place, at_place, rule_row());
    lemma_occurs_at_extended(upto9, place, at_place, advice);
    lemma_occurs_at_extended(upto10, place, at_place, rule_row());

    let at_source = source_row_offset(d);
    lemma_occurs_at_start(source);
    lemma_occurs_at_shifted(upto6, source, source, 0);
    lemma_occurs_at_extended(upto7, source, at_source, marker);
    lemma_occurs_at_extended(upto8, source, at_source, rule_row());
    lemma_occurs_at_extended(upto9, source, at_source, advice);
    lemma_occurs_at_extended(upto10, source, at_source, rule_row());

    let at_marker = marker_row_offset(d);
    lemma_occurs_at_start(marker);
    lemma_occurs_at_shifted(upto7, marker, marker, 0);
    lemma_occurs_at_extended(upto8, marker, at_marker, rule_row());
    lemma_occurs_at_extended(upto9, marker, at_marker, advice);
    lemma_occurs_at_extended(upto10, marker, at_marker, rule_row());
}

/// The report shows the kind of the diagnostic directly behind the marker.
pub proof fn lemma_kind_is_shown(d: Diagnostic)
    ensures
        occurs_at(d.report(), "❌ "@ + d.error_kind, kind_row_offset()),
        occurs_in(d.report(), "❌ "@ + d.error_kind),
{
    let shown = "❌ "@ + d.error_kind;
    lemma_rows_in_report(d);
    lemma_occurs_at_start(shown);
    lemma_occurs_at_extended(shown, shown, 0, "\n"@);
    lemma_occurs_at_within(d.report(), kind_row(d.error_kind), kind_row_offset(), shown, 0);
}

/// The report shows path, line and column, joined by colons, directly behind
/// the opening of the frame.
pub proof fn lemma_location_is_shown(d: Diagnostic)
    ensures
        occurs_at(
            d.report(),
            d.file_path + ":"@ + decimal(d.line_num) + ":"@ + decimal(d.col_num),
            location_row_offset(d) + "┌─ "@.len(),
        ),
        occurs_in(
            d.report(),
            d.file_path + ":"@ + decimal(d.line_num) + ":"@ + decimal(d.col_num),
        ),
{
    let shown = location(d.file_path, d.line_num, d.col_num);
    let opening = "┌─ "@;
    lemma_rows_in_report(d);
    lemma_occurs_at_start(shown);
    lemma_occurs_at_shifted(opening, shown, shown, 0);
    lemma_occurs_at_extended(opening + shown, shown, opening.len() as int, "\n"@);
    lemma_occurs_at_within(
        d.report(),
        location_row(d.file_path, d.line_num, d.col_num),
        location_row_offset(d),
        shown,
        opening.len() as int,
    );
}

/// The report shows the line number, the gutter's rule and the excerpt, in
/// this order, in a row that ends behind the excerpt.
pub proof fn lemma_line_is_shown(d: Diagnostic)
    ensures
        occurs_in(
            d.report(),
            decimal(d.line_num) + " │ "@ + excerpt(d.code, d.line_num) + "\n"@,
        ),
{
    let shown = decimal(d.line_num) + " │ "@ + excerpt(d.code, d.line_num) + "\n"@;
    let row = source_row(d.line_num, excerpt(d.code, d.line_num));
    let fill = run(' ', (row.len() - shown.len()) as nat);
    lemma_rows_in_report(d);
    assert(row =~= fill + shown);
    lemma_occurs_at_start(shown);
    lemma_occurs_at_shifted(fill, shown, shown, 0);
    lemma_occurs_at_within(d.report(), row, source_row_offset(d), shown, fill.len() as int);
}

/// Where the source has no line of the number given, which includes the
/// number zero, the excerpt is empty, and the report still shows that number
/// in the gutter and the kind behind the marker.
pub proof fn lemma_line_out_of_range(d: Diagnostic)
    requires
        d.line_num == 0 || d.line_num > source_lines(d.code).len(),
    ensures
        excerpt(d.code, d.line_num) == Seq::<char>::empty(),
        occurs_in(d.report(), decimal(d.line_num) + " │ "@ + "\n"@),
        occurs_in(d.report(), "❌ "@ + d.error_kind),
{
    lemma_line_is_shown(d);
    lemma_kind_is_shown(d);
    assert(decimal(d.line_num) + " │ "@ + excerpt(d.code, d.line_num) + "\n"@ =~= decimal(
        d.line_num,
    ) + " │ "@ + "\n"@);
}

/// Between the empty gutter of the marker row and the first caret stand as
/// many spaces as there are columns before the column given, and nothing
/// else: no space for column one, and none for column zero.
pub proof fn lemma_padding_is_exact(d: Diagnostic)
    ensures
        ({
            let padding: nat = if d.col_num >= 1 {
                (d.col_num - 1) as nat
            } else {
                0
            };
            &&& occurs_at(d.report(), "    │ "@ + run(' ', padding), marker_row_offset(d))
            &&& underline_offset(d) == marker_row_offset(d) + ("    │ "@ + run(' ', padding)).len()
            &&& d.report()[underline_offset(d)] == '^'
        }),
{
    let gutter = "    │ "@;
    let padding = run(' ', underline_pad(d.col_num));
    let carets = run('^', underline_len(d.underline_length));
    let row = marker_row(d.col_num, d.underline_length, d.message);
    let report = d.report();
    let at = marker_row_offset(d);
    let first = (gutter + padding).len() as int;
    lemma_rows_in_report(d);
    lemma_occurs_at_start(gutter + padding);
    lemma_occurs_at_extended(gutter + padding, gutter + padding, 0, carets);
    lemma_occurs_at_extended(gutter + padding + carets, gutter + padding, 0, " "@);
    lemma_occurs_at_extended(gutter + padding + carets + " "@, gutter + padding, 0, d.message);
    lemma_occurs_at_extended(
        gutter + padding + carets + " "@ + d.message,
        gutter + padding,
        0,
        "\n"@,
    );
    lemma_occurs_at_within(report, row, at, gutter + padding, 0);
    assert(row[first] == carets[0]);
    assert(report.subrange(at, at + row.len())[first] == report[at + first]);
}

/// The underline is a run of carets that starts at its offset and is exactly
/// as long as the diagnostic asks, or one caret long where it asks for none.
/// The run is set off by a space on either side.
pub proof fn lemma_underline_is_exact(d: Diagnostic)
    ensures
        ({
            let first = underline_offset(d);
            let count: nat = if d.underline_length == 0 {
                1
            } else {
                d.underline_length
            };
            &&& exact_run_at(d.report(), '^', first, count)
            &&& d.report()[first - 1] == ' '
            &&& d.report()[first + count] == ' '
        }),
{
    let gutter = "    │ "@;
    let padding = run(' ', underline_pad(d.col_num));
    let carets = run('^', underline_len(d.underline_length));
    let row = marker_row(d.col_num, d.underline_length, d.message);
    let report = d.report();
    let at = marker_row_offset(d);
    let first = (gutter + padding).len() as int;
    reveal_strlit("    │ ");
    reveal_strlit(" ");
    lemma_rows_in_report(d);
    lemma_occurs_at_start(carets);
    lemma_occurs_at_shifted(gutter + padding, carets, carets, 0);
    lemma_occurs_at_extended(gutter + padding + carets, carets, first, " "@);
    lemma_occurs_at_extended(gutter + padding + carets + " "@, carets, first, d.message);
    lemma_occurs_at_extended(gutter + padding + carets + " "@ + d.message, carets, first, "\n"@);
    lemma_occurs_at_within(report, row, at, carets, first);
    assert(row[first - 1] == ' ') by {
        if padding.len() > 0 {
            assert(row[first - 1] == padding[padding.len() - 1]);
        } else {
            assert(row[first - 1] == gutter[5]);
        }
    }
    assert(row[first + carets.len()] == " "@[0]);
    assert(report.subrange(at, at + row.len())[first - 1] == report[at + first - 1]);
    assert(report.subrange(at, at + row.len())[first + carets.len()] == report[at + first
        + carets.len()]);
}

/// The fixed texts of the rows hold no caret.
proof fn lemma_no_caret_in_fixed_text()
    ensures
        occurrences(blank_row(), '^') == 0,
        occurrences(title_row(), '^') == 0,
        occurrences(rule_row(), '^') == 0,
        occurrences("❌ "@, '^') == 0,
        occurrences("┌─ "@, '^') == 0,
        occurrences(":"@, '^') == 0,
        occurrences(" │ "@, '^') == 0,
        occurrences("    │ "@, '^') == 0,
        occurrences(" "@, '^') == 0,
        occurrences("= help: "@, '^') == 0,
{
    reveal_strlit("\n");
    reveal_strlit("Validation Error\n");
    reveal_strlit("│\n");
    reveal_strlit("❌ ");
    reveal_strlit("┌─ ");
    reveal_strlit(":");
    reveal_strlit(" │ ");
    reveal_strlit("    │ ");
    reveal_strlit(" ");
    reveal_strlit("= help: ");
    lemma_occurrences_absent(blank_row(), '^');
    lemma_occurrences_absent(title_row(), '^');
    lemma_occurrences_absent(rule_row(), '^');
    lemma_occurrences_absent("❌ "@, '^');
    lemma_occurrences_absent("┌─ "@, '^');
    lemma_occurrences_absent(":"@, '^');
    lemma_occurrences_absent(" │ "@, '^');
    lemma_occurrences_absent("    │ "@, '^');
    lemma_occurrences_absent(" "@, '^');
    lemma_occurrences_absent("= help: "@, '^');
}

/// A number in decimal notation holds no caret.
proof fn lemma_no_caret_in_decimal(n: nat)
    ensures
        occurrences(decimal(n), '^') == 0,
{
    reveal_strlit("0123456789");
    lemma_decimal_is_digits(n);
    assert forall|i: int| 0 <= i < decimal(n).len() implies decimal(n)[i] != '^' by {
        assert(digits().contains(decimal(n)[i]));
    }
    lemma_occurrences_absent(decimal(n), '^');
}

/// Where none of the texts that the report shows holds a caret, the carets of
/// the report are those of the underline, and no more: one where the
/// diagnostic asks for none, else as many as it asks for.
pub proof fn lemma_underline_holds_every_caret(d: Diagnostic)
    requires
        !d.file_path.contains('^'),
        !d.error_kind.contains('^'),
        !excerpt(d.code, d.line_num).contains('^'),
        !d.message.contains('^'),
        !d.help.contains('^'),
    ensures
        d.underline_length == 0 ==> occurrences(d.report(), '^') == 1,
        d.underline_length >= 1 ==> occurrences(d.report(), '^') == d.underline_length,
{
    let shown = excerpt(d.code, d.line_num);
    let line = decimal(d.line_num);
    let column = decimal(d.col_num);
    lemma_no_caret_in_fixed_text();
    lemma_no_caret_in_decimal(d.line_num);
    lemma_no_caret_in_decimal(d.col_num);
    lemma_occurrences_absent(d.file_path, '^');
    lemma_occurrences_absent(d.error_kind, '^');
    lemma_occurrences_absent(shown, '^');
    lemma_occurrences_absent(d.message, '^');
    lemma_occurrences_absent(d.help, '^');

    let kind = kind_row(d.error_kind);
    assert(occurrences(kind, '^') == 0) by {
        lemma_occurrences_concat("❌ "@, d.error_kind, '^');
        lemma_occurrences_concat("❌ "@ + d.error_kind, "\n"@, '^');
    }

    let place = location_row(d.file_path, d.line_num, d.col_num);
    assert(occurrences(place, '^') == 0) by {
        let named = location(d.file_path, d.line_num, d.col_num);
        lemma_occurrences_concat(d.file_path, ":"@, '^');
        lemma_occurrences_concat(d.file_path + ":"@, line, '^');
        lemma_occurrences_concat(d.file_path + ":"@ + line, ":"@, '^');
        lemma_occurrences_concat(d.file_path + ":"@ + line + ":"@, column, '^');
        lemma_occurrences_concat("┌─ "@, named, '^');
        lemma_occurrences_concat("┌─ "@ + named, "\n"@, '^');
    }

    let source = source_row(d.line_num, shown);
    assert(occurrences(source, '^') == 0) by {
        let number = right_aligned(line, 3);
        let fill = (number.len() - line.len()) as nat;
        lemma_occurrences_in_run(' ', fill, '^');
        lemma_occurrences_concat(run(' ', fill), line, '^');
        lemma_occurrences_concat(number, " │ "@, '^');
        lemma_occurrences_concat(number + " │ "@, shown, '^');
        lemma_occurrences_concat(number + " │ "@ + shown, "\n"@, '^');
    }

    let marker = marker_row(d.col_num, d.underline_length, d.message);
    assert(occurrences(marker, '^') == underline_len(d.underline_length)) by {
        let gutter = "    │ "@;
        let padding = run(' ', underline_pad(d.col_num));
        let carets = run('^', underline_len(d.underline_length));
        lemma_occurrences_in_run(' ', underline_pad(d.col_num), '^');
        lemma_occurrences_in_run('^', underline_len(d.underline_length), '^');
        lemma_occurrences_concat(gutter, padding, '^');
        lemma_occurrences_concat(gutter + padding, carets, '^');
        lemma_occurrences_concat(gutter + padding + carets, " "@, '^');
        lemma_occurrences_concat(gutter + padding + carets + " "@, d.message, '^');
        lemma_occurrences_concat(gutter + padding + carets + " "@ + d.message, "\n"@, '^');
    }

    let advice = help_row(d.help);
    assert(occurrences(advice, '^') == 0) by {
        lemma_occurrences_concat("= help: "@, d.help, '^');
        lemma_occurrences_concat("= help: "@ + d.help, "\n"@, '^');
    }

    let upto2 = blank_row() + title_row();
    let upto3 = upto2 + kind;
    let upto4 = upto3 + blank_row();
    let upto5 = upto4 + place;
    let upto6 = upto5 + rule_row();
    let upto7 = upto6 + source;
    let upto8 = upto7 + marker;
    let upto9 = upto8 + rule_row();
    let upto10 = upto9 + advice;
    lemma_occurrences_concat(blank_row(), title_row(), '^');
    lemma_occurrences_concat(upto2, kind, '^');
    lemma_occurrences_concat(upto3, blank_row(), '^');
    lemma_occurrences_concat(upto4, place, '^');
    lemma_occurrences_concat(upto5, rule_row(), '^');
    lemma_occurrences_concat(upto6, source, '^');
    lemma_occurrences_concat(upto7, marker, '^');
    lemma_occurrences_concat(upto8, rule_row(), '^');
    lemma_occurrences_concat(upto9, advice, '^');
    lemma_occurrences_concat(upto10, rule_row(), '^');
}

/// A report depends on the diagnostic alone: two reports of one diagnostic
/// are the same text, and so the same bytes.
pub proof fn lemma_report_is_determined(first: Seq<char>, second: Seq<char>, d: Diagnostic)
    requires
        first == d.report(),
        second == d.report(),
    ensures
        first == second,
        encode_utf8(first) == encode_utf8(second),
{
}

} // verus!
