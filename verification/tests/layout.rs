use tonalli::app::App;
use tonalli::layout::{
    build_history_lines, compute_max_scroll, cursor_position, history_inner_size, spinner_frame,
    try_compute_max_scroll, try_cursor_position, LineStyle, Position, Rect,
};

fn app_with(msgs: &[(bool, &str)], loading: bool) -> App {
    let mut app = App::new();
    for (user, text) in msgs {
        if *user {
            app.push_user(text.to_string());
        } else {
            app.push_model(text.to_string());
        }
    }
    app.loading = loading;
    app
}

#[test]
fn max_scroll_of_empty_history_is_zero() {
    let app = App::new();
    assert_eq!(compute_max_scroll(&app, 10, 5), 0);
}

#[test]
fn max_scroll_counts_headers_wrapped_lines_and_separators() {
    // "hello world" in 4 columns: 11 chars -> 3 rows; header + 3 + blank = 5
    let app = app_with(&[(true, "hello world")], false);
    assert_eq!(compute_max_scroll(&app, 4, 0), 5);
    assert_eq!(compute_max_scroll(&app, 4, 2), 3);
    assert_eq!(compute_max_scroll(&app, 4, 9), 0);
}

#[test]
fn empty_lines_take_one_row_and_final_newline_adds_none() {
    // lines of "a\n\nb\n" are "a", "", "b": 3 rows; + header + blank = 5
    let app = app_with(&[(false, "a\n\nb\n")], false);
    assert_eq!(compute_max_scroll(&app, 80, 0), 5);
    // an empty message has no lines: header + blank
    let app = app_with(&[(false, "")], false);
    assert_eq!(compute_max_scroll(&app, 80, 0), 2);
}

#[test]
fn crlf_is_one_line_ending() {
    // "ab\r\ncd" -> "ab", "cd"; width 2: 1 + 1 rows
    let app = app_with(&[(true, "ab\r\ncd")], false);
    assert_eq!(compute_max_scroll(&app, 2, 0), 4);
    // a lone trailing '\r' stays in the line: "abc\r" is 4 chars -> 2 rows
    let app = app_with(&[(true, "abc\r")], false);
    assert_eq!(compute_max_scroll(&app, 2, 0), 4);
}

#[test]
fn loading_adds_two_rows_and_zero_width_counts_as_one() {
    let app = app_with(&[(true, "xy")], true);
    // width 0 -> 1: "xy" takes 2 rows; header + 2 + blank + 2
    assert_eq!(compute_max_scroll(&app, 0, 1), 5);
}

#[test]
fn overflowing_history_is_reported() {
    let mut app = App::new();
    for _ in 0..33000 {
        app.push_user(String::new());
    }
    assert_eq!(try_compute_max_scroll(&app, 10, 0), None);
    let mut app = App::new();
    for _ in 0..32767 {
        app.push_user(String::new());
    }
    assert_eq!(try_compute_max_scroll(&app, 10, 4), Some(65530));
    let mut app = App::new();
    app.push_user("x".repeat(65535));
    assert_eq!(try_compute_max_scroll(&app, 1, 0), None);
    let mut app = App::new();
    app.push_user("x".repeat(65534));
    assert_eq!(try_compute_max_scroll(&app, 1, 0), None);
    let mut app = App::new();
    app.push_user("x".repeat(65533));
    assert_eq!(try_compute_max_scroll(&app, 1, 0), Some(65535));
}

#[test]
fn pane_inner_size() {
    assert_eq!(history_inner_size(80, 24), (78, 17));
    assert_eq!(history_inner_size(1, 1), (0, 0));
    assert_eq!(history_inner_size(u16::MAX, u16::MAX), (u16::MAX - 2, 52426));
}

#[test]
fn clamp_keeps_scroll_within_history() {
    let mut app = app_with(&[(true, "hello world")], false);
    app.scroll_to_bottom();
    // terminal 6 x 5: inner 4 x 2 -> max scroll 5 - 2 = 3
    assert!(app.clamp_scroll(6, 5));
    assert_eq!(app.scroll_offset, 3);
    app.scroll_offset = 1;
    assert!(app.clamp_scroll(6, 5));
    assert_eq!(app.scroll_offset, 1);
}

#[test]
fn history_lines_layout() {
    let app = app_with(&[(true, "hi\nthere"), (false, "ok")], true);
    let lines = build_history_lines(&app, 13);
    let got: Vec<(String, LineStyle, bool)> =
        lines.into_iter().map(|l| (l.text, l.style, l.right_aligned)).collect();
    let want = vec![
        ("You".to_string(), LineStyle::UserHeader, true),
        ("hi".to_string(), LineStyle::User, true),
        ("there".to_string(), LineStyle::User, true),
        (String::new(), LineStyle::Plain, false),
        ("Model".to_string(), LineStyle::ModelHeader, false),
        ("ok".to_string(), LineStyle::Model, false),
        (String::new(), LineStyle::Plain, false),
        ("Model".to_string(), LineStyle::ModelHeader, false),
        ("\u{2838} Thinking...".to_string(), LineStyle::Thinking, false),
    ];
    assert_eq!(got, want);
}

#[test]
fn system_messages_show_only_a_separator() {
    let mut app = App::new();
    app.messages.push((tonalli::agents::Role::System, "rules".to_string()));
    let lines = build_history_lines(&app, 0);
    assert_eq!(lines.len(), 1);
    assert_eq!(lines[0].text, "");
}

#[test]
fn spinner_cycles_every_ten_ticks() {
    assert_eq!(spinner_frame(0), '\u{280b}');
    assert_eq!(spinner_frame(9), '\u{280f}');
    assert_eq!(spinner_frame(10), spinner_frame(0));
    assert_eq!(spinner_frame(255), spinner_frame(5));
}

#[test]
fn cursor_position_wraps_at_width_and_newlines() {
    let mut app = App::new();
    for c in "abcde\nfg".chars() {
        app.insert_char(c);
    }
    let inner = Rect { x: 2, y: 3, width: 4, height: 5 };
    // "abcd" fills the row, 'e' on row 1, '\n' -> row 2, "fg" -> col 2
    assert_eq!(cursor_position(&app, inner), Position { x: 4, y: 5 });
    app.move_cursor_left();
    app.move_cursor_left();
    app.move_cursor_left();
    assert_eq!(cursor_position(&app, inner), Position { x: 3, y: 4 });
    let at_start = App::new();
    assert_eq!(cursor_position(&at_start, inner), Position { x: 2, y: 3 });
}

#[test]
fn cursor_position_counts_characters_not_bytes() {
    let mut app = App::new();
    for c in "éé".chars() {
        app.insert_char(c);
    }
    let inner = Rect { x: 0, y: 0, width: 10, height: 1 };
    assert_eq!(cursor_position(&app, inner), Position { x: 2, y: 0 });
}

#[test]
fn cursor_position_overflow_is_reported() {
    let mut app = App::new();
    app.insert_char('\n');
    let inner = Rect { x: 0, y: u16::MAX, width: 10, height: 1 };
    assert_eq!(try_cursor_position(&app, inner), None);
}

#[test]
fn cursor_column_overflow_is_reported() {
    let mut app = App::new();
    app.insert_char('a');
    app.insert_char('b');
    let inner = Rect { x: u16::MAX - 1, y: 0, width: 10, height: 1 };
    assert_eq!(try_cursor_position(&app, inner), None);
    let inner = Rect { x: u16::MAX - 2, y: 0, width: 10, height: 1 };
    assert_eq!(try_cursor_position(&app, inner), Some(Position { x: u16::MAX, y: 0 }));
}

#[test]
fn wider_or_taller_pane_never_scrolls_further() {
    let app = app_with(&[(true, "hello world, this is a longer line"), (false, "ok\nfine")], true);
    for w in 0..40u16 {
        for h in 0..20u16 {
            let m = compute_max_scroll(&app, w, h);
            assert!(compute_max_scroll(&app, w + 1, h) <= m);
            assert!(compute_max_scroll(&app, w, h + 1) <= m);
        }
    }
}

#[test]
fn rows_match_history_lines_when_lines_fit() {
    let app = app_with(&[(true, "ab\ncd"), (false, "xyz"), (true, "")], true);
    for tick in [0u8, 7] {
        let lines = build_history_lines(&app, tick).len() as u16;
        assert_eq!(compute_max_scroll(&app, 3, 0), lines);
        assert_eq!(compute_max_scroll(&app, 3, 4), lines.saturating_sub(4));
    }
}
