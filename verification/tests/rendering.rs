use tana_validation::format_validation_error;

#[test]
fn test_basic_error_formatting() {
    let code = "import { console } from 'tana/invalid';";
    let error = format_validation_error(
        code,
        "test.ts",
        "Invalid Import",
        1,
        26,
        "Module 'tana/invalid' not found",
        "Available modules: tana/core, tana/kv",
        12,
    );

    assert!(error.contains("❌ Invalid Import"));
    assert!(error.contains("test.ts:1:26"));
    assert!(error.contains("tana/invalid"));
    assert!(error.contains("^^^^^^^^^^^^")); // 12 carets
    assert!(error.contains("= help: Available modules"));
}

#[test]
fn test_multiline_code() {
    let code = "line 1\nline 2 with error\nline 3";
    let error = format_validation_error(
        code,
        "multi.ts",
        "Type Error",
        2,
        7,
        "Something wrong here",
        "Fix it like this",
        4,
    );

    assert!(error.contains("❌ Type Error"));
    assert!(error.contains("multi.ts:2:7"));
    assert!(error.contains("line 2 with error"));
    assert!(error.contains("^^^^")); // 4 carets
}

#[test]
fn test_underline_length_minimum() {
    let error = format_validation_error(
        "test",
        "test.ts",
        "Error",
        1,
        1,
        "msg",
        "help",
        0, // drawn as one caret
    );

    assert!(error.contains("^")); // at least one caret
}

#[test]
fn test_out_of_bounds_line() {
    let error = format_validation_error(
        "only one line",
        "test.ts",
        "Error",
        999,
        1,
        "msg",
        "help",
        5,
    );

    assert!(error.contains("❌ Error"));
    assert!(error.contains("999 │")); // shows the requested line number
}

#[test]
fn whole_report_for_an_invalid_import() {
    let error = format_validation_error(
        "import { console } from 'tana/invalid';",
        "test.ts",
        "Invalid Import",
        1,
        26,
        "Module 'tana/invalid' not found",
        "Available modules: tana/core, tana/kv",
        12,
    );
    let expected = [
        "",
        "Validation Error",
        "❌ Invalid Import",
        "",
        "┌─ test.ts:1:26",
        "│",
        "  1 │ import { console } from 'tana/invalid';",
        "    │                          ^^^^^^^^^^^^ Module 'tana/invalid' not found",
        "│",
        "= help: Available modules: tana/core, tana/kv",
        "│",
        "",
    ]
    .join("\n");
    assert_eq!(error, expected);
    let spaces_then_carets = format!("│ {}{} ", " ".repeat(25), "^".repeat(12));
    assert!(error.contains(&spaces_then_carets));
    assert_eq!(error.matches('^').count(), 12);
}

#[test]
fn whole_report_for_the_second_of_three_lines() {
    let error = format_validation_error(
        "line 1\nline 2 with error\nline 3",
        "multi.ts",
        "Type Error",
        2,
        7,
        "Something wrong here",
        "Fix it like this",
        4,
    );
    assert_eq!(
        error,
        "\nValidation Error\n❌ Type Error\n\n┌─ multi.ts:2:7\n│\n  2 │ line 2 with error\n    │       ^^^^ Something wrong here\n│\n= help: Fix it like this\n│\n"
    );
    assert!(!error.contains("line 1"));
    assert!(!error.contains("line 3"));
}

#[test]
fn every_text_may_be_empty_and_every_number_zero() {
    let error = format_validation_error("", "", "", 0, 0, "", "", 0);
    assert_eq!(
        error,
        "\nValidation Error\n❌ \n\n┌─ :0:0\n│\n  0 │ \n    │ ^ \n│\n= help: \n│\n"
    );
}

#[test]
fn report_starts_and_ends_with_a_line_feed() {
    let error = format_validation_error("let x = 1;", "a.ts", "Error", 1, 5, "m", "h", 1);
    assert!(error.starts_with('\n'));
    assert!(error.ends_with("│\n"));
    assert_eq!(error.lines().count(), 11);
}

#[test]
fn zero_underline_is_drawn_as_exactly_one_caret() {
    let error = format_validation_error("test", "test.ts", "Error", 1, 1, "msg", "help", 0);
    assert_eq!(error.matches('^').count(), 1);
    assert!(error.contains("\n    │ ^ msg\n"));
}

#[test]
fn underline_has_as_many_carets_as_asked() {
    for n in 1..40usize {
        let error = format_validation_error("test", "test.ts", "Error", 1, 1, "msg", "help", n);
        assert_eq!(error.matches('^').count(), n);
        let row = format!("\n    │ {} msg\n", "^".repeat(n));
        assert!(error.contains(&row));
    }
}

#[test]
fn carets_in_the_message_stay_apart_from_the_underline() {
    let error = format_validation_error("a ^ b", "x.ts", "Error", 1, 3, "^", "use ^^", 1);
    assert_eq!(
        error,
        "\nValidation Error\n❌ Error\n\n┌─ x.ts:1:3\n│\n  1 │ a ^ b\n    │   ^ ^\n│\n= help: use ^^\n│\n"
    );
}

#[test]
fn column_one_has_no_padding() {
    let error = format_validation_error("test", "test.ts", "Error", 1, 1, "msg", "help", 2);
    assert!(error.contains("\n    │ ^^ msg\n"));
}

#[test]
fn column_zero_is_padded_like_column_one() {
    let zero = format_validation_error("test", "test.ts", "Error", 1, 0, "msg", "help", 2);
    assert!(zero.contains("\n    │ ^^ msg\n"));
    assert!(zero.contains("test.ts:1:0"));
}

#[test]
fn column_twenty_six_has_twenty_five_spaces_of_padding() {
    let error = format_validation_error("test", "test.ts", "Error", 1, 26, "msg", "help", 1);
    let row = format!("\n    │ {}^ msg\n", " ".repeat(25));
    assert!(error.contains(&row));
}

#[test]
fn padding_grows_with_the_column() {
    for col in 1..60usize {
        let error = format_validation_error("test", "t.ts", "Error", 1, col, "msg", "help", 3);
        let row = format!("\n    │ {}^^^ msg\n", " ".repeat(col - 1));
        assert!(error.contains(&row));
    }
}

#[test]
fn location_names_path_line_and_column() {
    let error = format_validation_error("x", "src/deep/contract.ts", "Error", 120, 4077, "m", "h", 1);
    assert!(error.contains("\n┌─ src/deep/contract.ts:120:4077\n"));
}

#[test]
fn line_number_is_right_aligned_in_three_columns() {
    let code = "x\n".repeat(1200);
    let one = format_validation_error(&code, "t.ts", "Error", 7, 1, "m", "h", 1);
    assert!(one.contains("\n  7 │ x\n"));
    let two = format_validation_error(&code, "t.ts", "Error", 42, 1, "m", "h", 1);
    assert!(two.contains("\n 42 │ x\n"));
    let three = format_validation_error(&code, "t.ts", "Error", 999, 1, "m", "h", 1);
    assert!(three.contains("\n999 │ x\n"));
    let four = format_validation_error(&code, "t.ts", "Error", 1000, 1, "m", "h", 1);
    assert!(four.contains("\n1000 │ x\n"));
}

#[test]
fn numbers_are_written_in_decimal() {
    for (n, text) in [
        (0usize, "0"),
        (9, "9"),
        (10, "10"),
        (99, "99"),
        (100, "100"),
        (101, "101"),
        (1090, "1090"),
        (65535, "65535"),
        (4294967295, "4294967295"),
    ] {
        let error = format_validation_error("", "f", "Error", n, 1, "m", "h", 1);
        let location = format!("\n┌─ f:{}:1\n", text);
        assert!(error.contains(&location));
        let gutter = format!("\n{:>3} │ \n", text);
        assert!(error.contains(&gutter));
    }
    for (n, text) in [(0usize, "0"), (1, "1"), (10, "10"), (305, "305"), (65535, "65535")] {
        let error = format_validation_error("", "f", "Error", 1, n, "m", "h", 1);
        let location = format!("\n┌─ f:1:{}\n", text);
        assert!(error.contains(&location));
    }
    let largest = format_validation_error("", "f", "Error", usize::MAX, 1, "m", "h", 1);
    let location = format!("\n┌─ f:{}:1\n", usize::MAX);
    assert!(largest.contains(&location));
}

#[test]
fn line_past_the_end_gives_an_empty_excerpt() {
    let error = format_validation_error("only one line", "test.ts", "Error", 999, 1, "msg", "help", 5);
    assert_eq!(
        error,
        "\nValidation Error\n❌ Error\n\n┌─ test.ts:999:1\n│\n999 │ \n    │ ^^^^^ msg\n│\n= help: help\n│\n"
    );
    assert!(!error.contains("only one line"));
}

#[test]
fn line_zero_gives_an_empty_excerpt() {
    let error = format_validation_error("only one line", "test.ts", "Error", 0, 1, "msg", "help", 5);
    assert!(error.contains("\n  0 │ \n"));
    assert!(!error.contains("only one line"));
}

#[test]
fn same_diagnostic_renders_the_same_report() {
    let render = || {
        format_validation_error("a\nb\r\nc", "p.ts", "Kind", 2, 3, "message", "help", 2)
    };
    let first = render();
    let second = render();
    assert_eq!(first, second);
    assert_eq!(first.as_bytes(), second.as_bytes());
}

#[test]
fn texts_outside_ascii_pass_through_unchanged() {
    let error = format_validation_error(
        "let s = \"héllo → wörld\";\nlet t = \"日本語\";",
        "src/größe.ts",
        "Ünïcode",
        2,
        10,
        "bad ✗",
        "try ✓",
        3,
    );
    assert_eq!(
        error,
        "\nValidation Error\n❌ Ünïcode\n\n┌─ src/größe.ts:2:10\n│\n  2 │ let t = \"日本語\";\n    │          ^^^ bad ✗\n│\n= help: try ✓\n│\n"
    );
}

#[test]
fn wide_padding_and_long_underline_are_drawn_in_full() {
    let error = format_validation_error("x", "t.ts", "Error", 1, 10_001, "msg", "help", 5_000);
    let row = format!("\n    │ {}{} msg\n", " ".repeat(10_000), "^".repeat(5_000));
    assert!(error.contains(&row));
    assert_eq!(error.matches('^').count(), 5_000);
}

#[test]
fn excerpt_is_shown_without_its_line_ending() {
    let error = format_validation_error("first\r\nsecond\r\n", "t.ts", "Error", 2, 1, "m", "h", 6);
    assert!(error.contains("\n  2 │ second\n    │ ^^^^^^ m\n"));
    assert!(!error.contains('\r'));
}
