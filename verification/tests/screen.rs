use tonalli::agents::Role;
use tonalli::app::App;
use tonalli::screen::{InputEvent, KeyCode};

fn key(code: KeyCode) -> InputEvent {
    InputEvent::Key { code, ctrl_only: false }
}

fn ctrl(code: KeyCode) -> InputEvent {
    InputEvent::Key { code, ctrl_only: true }
}

fn type_text(app: &mut App, text: &str) {
    for c in text.chars() {
        assert_eq!(app.handle_input(key(KeyCode::Char(c))), None);
    }
}

#[test]
fn ctrl_c_and_esc_quit() {
    let mut app = App::new();
    assert_eq!(app.handle_input(ctrl(KeyCode::Char('c'))), None);
    assert!(app.should_quit);
    let mut app = App::new();
    app.handle_input(key(KeyCode::Esc));
    assert!(app.should_quit);
}

#[test]
fn plain_c_and_other_control_letters_are_typed() {
    let mut app = App::new();
    app.handle_input(key(KeyCode::Char('c')));
    app.handle_input(ctrl(KeyCode::Char('a')));
    assert!(!app.should_quit);
    assert_eq!(app.input, "ca");
}

#[test]
fn enter_sends_the_input() {
    let mut app = App::new();
    type_text(&mut app, "hi there");
    let sent = app.handle_input(key(KeyCode::Enter));
    assert_eq!(sent, Some("hi there".to_string()));
    assert_eq!(app.input, "");
    assert_eq!(app.input_cursor, 0);
    assert!(app.loading);
    assert_eq!(app.scroll_offset, u16::MAX);
    assert_eq!(app.messages.len(), 1);
    assert_eq!(app.messages[0].0, Role::User);
    assert_eq!(app.messages[0].1, "hi there");
}

#[test]
fn enter_with_blank_input_sends_nothing_but_clears() {
    let mut app = App::new();
    type_text(&mut app, " \t\u{3000}");
    assert_eq!(app.handle_input(key(KeyCode::Enter)), None);
    assert_eq!(app.input, "");
    assert!(app.messages.is_empty());
    assert!(!app.loading);
}

#[test]
fn enter_while_waiting_does_nothing() {
    let mut app = App::new();
    type_text(&mut app, "one");
    app.handle_input(key(KeyCode::Enter));
    type_text(&mut app, "two");
    assert_eq!(app.handle_input(key(KeyCode::Enter)), None);
    assert_eq!(app.input, "two");
    assert_eq!(app.messages.len(), 1);
}

#[test]
fn editing_keys() {
    let mut app = App::new();
    type_text(&mut app, "abc");
    app.handle_input(key(KeyCode::Left));
    app.handle_input(key(KeyCode::Backspace));
    assert_eq!(app.input, "ac");
    app.handle_input(key(KeyCode::Right));
    type_text(&mut app, "d");
    assert_eq!(app.input, "acd");
    app.handle_input(key(KeyCode::Other));
    assert_eq!(app.input, "acd");
}

#[test]
fn scrolling_keys_and_wheel() {
    let mut app = App::new();
    app.handle_input(key(KeyCode::PageDown));
    assert_eq!(app.scroll_offset, 10);
    app.handle_input(key(KeyCode::Up));
    assert_eq!(app.scroll_offset, 9);
    app.handle_input(key(KeyCode::Down));
    assert_eq!(app.scroll_offset, 10);
    app.handle_input(InputEvent::WheelUp);
    assert_eq!(app.scroll_offset, 7);
    app.handle_input(InputEvent::WheelDown);
    assert_eq!(app.scroll_offset, 10);
    app.handle_input(key(KeyCode::PageUp));
    app.handle_input(key(KeyCode::PageUp));
    assert_eq!(app.scroll_offset, 0);
}

#[test]
fn reply_joins_transcript() {
    let mut app = App::new();
    app.loading = true;
    app.handle_reply(Ok("answer".to_string()));
    assert!(!app.loading);
    assert_eq!(app.messages[0].0, Role::Assistant);
    assert_eq!(app.messages[0].1, "answer");
    assert_eq!(app.scroll_offset, u16::MAX);
}

#[test]
fn error_reply_is_shown_as_model_message() {
    let mut app = App::new();
    app.loading = true;
    app.handle_reply(Err("timed out".to_string()));
    assert!(!app.loading);
    assert_eq!(app.messages[0].0, Role::Assistant);
    assert_eq!(app.messages[0].1, "[Error: timed out]");
    assert_eq!(app.scroll_offset, 0);
}

#[test]
fn at_most_one_message_in_flight() {
    let mut app = App::new();
    let count = |app: &App, r: Role| app.messages.iter().filter(|m| m.0 == r).count();
    type_text(&mut app, "first");
    assert!(app.handle_input(key(KeyCode::Enter)).is_some());
    type_text(&mut app, "second");
    assert_eq!(app.handle_input(key(KeyCode::Enter)), None);
    assert_eq!(count(&app, Role::User), count(&app, Role::Assistant) + 1);
    assert!(app.loading);
    app.handle_reply(Ok("reply".to_string()));
    assert_eq!(count(&app, Role::User), count(&app, Role::Assistant));
    assert!(!app.loading);
    assert_eq!(app.handle_input(key(KeyCode::Enter)), Some("second".to_string()));
    assert!(app.loading);
}
