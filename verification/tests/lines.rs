use cargo_policy::lines::LineIndex;

#[test]
fn counts_physical_lines_without_a_phantom_terminal_line() {
    assert_eq!(LineIndex::new("").physical_lines(), 0);
    assert_eq!(LineIndex::new("one").physical_lines(), 1);
    assert_eq!(LineIndex::new("one\n").physical_lines(), 1);
    assert_eq!(LineIndex::new("one\n\n").physical_lines(), 2);
    assert_eq!(LineIndex::new("one\r\ntwo\r\n").physical_lines(), 2);
}

#[test]
fn counts_every_line_touched_by_an_exclusive_span() {
    let text = "fn x() {\n\n    work();\n}\n";
    let index = LineIndex::new(text);
    assert_eq!(index.span_line_count(0, text.len() - 1), 4);
    assert_eq!(index.span_line_count(0, 0), 0);
}

#[test]
fn reports_unicode_columns_and_byte_offsets() {
    let text = "let café = 1;\n";
    let index = LineIndex::new(text);
    let start = text.find('é').expect("accented character");
    let span = index.span(text, start, start + 'é'.len_utf8());
    assert_eq!(span.byte_start, 7);
    assert_eq!(span.byte_end, 9);
    assert_eq!(span.start.line, 1);
    assert_eq!(span.start.column, 8);
    assert_eq!(span.end.column, 9);
}

#[test]
fn returns_lines_without_line_endings() {
    let text = "one\r\ntwo\nthree";
    let index = LineIndex::new(text);
    assert_eq!(index.line_text(text, 1), Some("one"));
    assert_eq!(index.line_text(text, 2), Some("two"));
    assert_eq!(index.line_text(text, 3), Some("three"));
    assert_eq!(index.line_text(text, 4), None);
}

#[test]
fn spans_are_clamped_to_the_text() {
    let text = "abc";
    let index = LineIndex::new(text);
    let span = index.span(text, 2, 10);
    assert_eq!(span.byte_start, 2);
    assert_eq!(span.byte_end, 3);
    assert_eq!(span.end.column, 4);
    assert_eq!(index.line_text(text, 0), None);
}

#[test]
fn physical_lines_are_line_feeds_plus_an_unterminated_last_line() {
    for (text, expected) in [("", 0), ("a", 1), ("a\n", 1), ("a\r\nb", 2), ("\n\n", 2), ("a\nb\n\nc", 4)] {
        let index = LineIndex::new(text);
        assert_eq!(index.physical_lines(), expected, "{text:?}");
        if !text.is_empty() {
            assert_eq!(index.span_line_count(0, text.len()), expected, "{text:?}");
            assert!(index.line_text(text, 0).is_none());
            assert!(index.line_text(text, expected).is_some());
            assert!(index.line_text(text, expected + 1).is_none());
        }
    }
}

#[test]
fn line_texts_hold_one_line_without_its_ending() {
    let text = "first\r\nsecond\n\r\nlast";
    let index = LineIndex::new(text);
    let lines: Vec<_> = (1..=index.physical_lines())
        .map(|line| index.line_text(text, line).expect("line"))
        .collect();
    assert_eq!(lines, vec!["first", "second", "", "last"]);
    assert!(lines.iter().all(|line| !line.contains('\n') && !line.ends_with('\r')));
}
