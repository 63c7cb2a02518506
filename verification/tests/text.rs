use tonalli::text::{is_blank_text, str_chars, text_lines};

#[test]
fn lines_follow_str_lines() {
    for s in ["", "\n", "a", "a\n", "a\r\nb", "a\n\nb\n", "x\r", "\r\n", "\r\r\n", "é\nü\r\n😀"] {
        let want: Vec<String> = s.lines().map(|l| l.to_string()).collect();
        assert_eq!(text_lines(s), want, "lines of {:?}", s);
    }
}

#[test]
fn lines_exact_values() {
    assert_eq!(text_lines("foo\nbar\n\r\nbaz\r"), vec!["foo", "bar", "", "baz\r"]);
    assert!(text_lines("").is_empty());
}

#[test]
fn chars_in_order() {
    assert_eq!(str_chars("aé😀"), vec!['a', 'é', '😀']);
    assert!(str_chars("").is_empty());
}

#[test]
fn blank_text() {
    assert!(is_blank_text(""));
    assert!(is_blank_text(" \t\n\r\u{a0}\u{2003}\u{3000}"));
    assert!(!is_blank_text(" x "));
    assert!(!is_blank_text("\u{200b}"));
}
