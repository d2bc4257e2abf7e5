use tana_validation::lines::source_line;

#[test]
fn each_line_is_found_by_its_number() {
    let code = "line 1\nline 2 with error\nline 3";
    assert_eq!(source_line(code, 1), "line 1");
    assert_eq!(source_line(code, 2), "line 2 with error");
    assert_eq!(source_line(code, 3), "line 3");
}

#[test]
fn line_zero_and_lines_past_the_end_are_empty() {
    let code = "line 1\nline 2 with error\nline 3";
    assert_eq!(source_line(code, 0), "");
    assert_eq!(source_line(code, 4), "");
    assert_eq!(source_line(code, 999), "");
    assert_eq!(source_line(code, usize::MAX), "");
}

#[test]
fn empty_text_has_no_lines() {
    assert_eq!(source_line("", 0), "");
    assert_eq!(source_line("", 1), "");
    assert_eq!(source_line("", 2), "");
}

#[test]
fn final_line_feed_adds_no_line() {
    assert_eq!(source_line("a\n", 1), "a");
    assert_eq!(source_line("a\n", 2), "");
    assert_eq!(source_line("a\nb\n", 2), "b");
    assert_eq!(source_line("a\nb\n", 3), "");
}

#[test]
fn empty_lines_are_counted() {
    assert_eq!(source_line("\n", 1), "");
    assert_eq!(source_line("\n\nthird", 3), "third");
    assert_eq!(source_line("a\n\nb", 2), "");
    assert_eq!(source_line("a\n\nb", 3), "b");
    assert_eq!(source_line("a\n\n", 3), "");
}

#[test]
fn carriage_return_before_a_line_feed_is_dropped() {
    assert_eq!(source_line("a\r\nb\r\n", 1), "a");
    assert_eq!(source_line("a\r\nb\r\n", 2), "b");
    assert_eq!(source_line("a\r\nb\r\n", 3), "");
    assert_eq!(source_line("\r\n", 1), "");
    assert_eq!(source_line("\r\nx", 2), "x");
}

#[test]
fn only_one_carriage_return_is_dropped() {
    assert_eq!(source_line("a\r\r\nb", 1), "a\r");
}

#[test]
fn carriage_return_without_a_line_feed_stays() {
    assert_eq!(source_line("a\rb\nc", 1), "a\rb");
    assert_eq!(source_line("a\r", 1), "a\r");
    assert_eq!(source_line("a\nb\r", 2), "b\r");
    assert_eq!(source_line("\r", 1), "\r");
}

#[test]
fn lines_agree_with_the_standard_splitting() {
    let texts = [
        "",
        "\n",
        "\r",
        "\r\n",
        "\n\r",
        "one",
        "one\n",
        "one\r\n",
        "one\ntwo",
        "one\r\ntwo\r\n",
        "one\n\ntwo\n\n",
        "\n\n\n",
        "a\r\r\nb\r",
        "tab\there\n  indented\n",
        "ünï\ncödé → ✓\r\n日本語",
    ];
    for text in texts {
        let lines: Vec<&str> = text.lines().collect();
        for n in 0..lines.len() + 3 {
            let expected = if n >= 1 && n <= lines.len() { lines[n - 1] } else { "" };
            assert_eq!(source_line(text, n), expected, "line {} of {:?}", n, text);
        }
    }
}

#[test]
fn found_line_counts_characters_not_bytes() {
    let code = "é\nüü\n日本語\nz";
    assert_eq!(source_line(code, 1), "é");
    assert_eq!(source_line(code, 2), "üü");
    assert_eq!(source_line(code, 3), "日本語");
    assert_eq!(source_line(code, 4), "z");
}

#[test]
fn last_line_of_a_long_text_is_found() {
    let code = "let x = 1;\n".repeat(200_000);
    assert_eq!(source_line(&code, 1), "let x = 1;");
    assert_eq!(source_line(&code, 200_000), "let x = 1;");
    assert_eq!(source_line(&code, 200_001), "");
}
