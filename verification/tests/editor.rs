use tonalli::app::App;
use tonalli::agents::Role;

fn typed(text: &str) -> App {
    let mut app = App::new();
    for c in text.chars() {
        app.insert_char(c);
    }
    app
}

#[test]
fn new_app_is_empty() {
    let app = App::new();
    assert!(app.messages.is_empty());
    assert_eq!(app.input, "");
    assert_eq!(app.input_cursor, 0);
    assert_eq!(app.scroll_offset, 0);
    assert!(!app.loading);
    assert!(!app.should_quit);
}

#[test]
fn insert_char_advances_cursor_by_utf8_width() {
    let mut app = App::new();
    app.insert_char('a');
    assert_eq!(app.input_cursor, 1);
    app.insert_char('é');
    assert_eq!(app.input_cursor, 3);
    app.insert_char('€');
    assert_eq!(app.input_cursor, 6);
    app.insert_char('😀');
    assert_eq!(app.input_cursor, 10);
    assert_eq!(app.input, "aé€😀");
}

#[test]
fn insert_in_the_middle() {
    let mut app = typed("ac");
    app.move_cursor_left();
    assert_eq!(app.input_cursor, 1);
    app.insert_char('b');
    assert_eq!(app.input, "abc");
    assert_eq!(app.input_cursor, 2);
}

#[test]
fn delete_char_removes_whole_multibyte_character() {
    let mut app = typed("xé");
    app.delete_char();
    assert_eq!(app.input, "x");
    assert_eq!(app.input_cursor, 1);
    app.delete_char();
    assert_eq!(app.input, "");
    assert_eq!(app.input_cursor, 0);
    app.delete_char();
    assert_eq!(app.input, "");
    assert_eq!(app.input_cursor, 0);
}

#[test]
fn delete_char_in_the_middle() {
    let mut app = typed("a😀b");
    app.move_cursor_left();
    assert_eq!(app.input_cursor, 5);
    app.delete_char();
    assert_eq!(app.input, "ab");
    assert_eq!(app.input_cursor, 1);
}

#[test]
fn cursor_moves_over_characters_not_bytes() {
    let mut app = typed("€a");
    app.move_cursor_left();
    assert_eq!(app.input_cursor, 3);
    app.move_cursor_left();
    assert_eq!(app.input_cursor, 0);
    app.move_cursor_left();
    assert_eq!(app.input_cursor, 0);
    app.move_cursor_right();
    assert_eq!(app.input_cursor, 3);
    app.move_cursor_right();
    assert_eq!(app.input_cursor, 4);
    app.move_cursor_right();
    assert_eq!(app.input_cursor, 4);
    assert_eq!(app.input, "€a");
}

#[test]
fn backspace_undoes_typing() {
    let mut app = typed("hé");
    app.move_cursor_left();
    let before = (app.input.clone(), app.input_cursor);
    app.insert_char('ß');
    assert_eq!(app.input, "hßé");
    app.delete_char();
    assert_eq!((app.input.clone(), app.input_cursor), before);
}

#[test]
fn left_then_right_and_right_then_left_return() {
    let mut app = typed("añb");
    app.move_cursor_left();
    app.move_cursor_left();
    let at = app.input_cursor;
    assert_eq!(at, 1);
    app.move_cursor_left();
    app.move_cursor_right();
    assert_eq!(app.input_cursor, at);
    app.move_cursor_right();
    app.move_cursor_left();
    assert_eq!(app.input_cursor, at);
}

#[test]
fn send_message_takes_the_input() {
    let mut app = typed("hello");
    app.move_cursor_left();
    let text = app.send_message();
    assert_eq!(text, "hello");
    assert_eq!(app.input, "");
    assert_eq!(app.input_cursor, 0);
}

#[test]
fn push_messages_in_order() {
    let mut app = App::new();
    app.push_user("hi".to_string());
    app.push_model("hello".to_string());
    assert_eq!(app.messages.len(), 2);
    assert_eq!(app.messages[0].0, Role::User);
    assert_eq!(app.messages[0].1, "hi");
    assert_eq!(app.messages[1].0, Role::Assistant);
    assert_eq!(app.messages[1].1, "hello");
}

#[test]
fn scrolling_saturates() {
    let mut app = App::new();
    app.scroll_up(3);
    assert_eq!(app.scroll_offset, 0);
    app.scroll_down(5);
    assert_eq!(app.scroll_offset, 5);
    app.scroll_up(2);
    assert_eq!(app.scroll_offset, 3);
    app.scroll_down(u16::MAX);
    assert_eq!(app.scroll_offset, u16::MAX);
    app.scroll_offset = 0;
    app.scroll_to_bottom();
    assert_eq!(app.scroll_offset, u16::MAX);
}

#[test]
fn default_is_new() {
    let app = App::default();
    assert!(app.messages.is_empty());
    assert_eq!(app.input, "");
    assert_eq!(app.input_cursor, 0);
    assert_eq!(app.scroll_offset, 0);
    assert!(!app.loading && !app.should_quit);
}
