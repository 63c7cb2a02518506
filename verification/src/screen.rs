//! Decisions of the screen loop: what a key press or a wheel turn does to
//! the chat screen, and what an awaited reply does to it. The loop itself
//! (terminal, timers, the channel to the chat task) runs outside.
use vstd::prelude::*;
use vstd::utf8::*;

use crate::agents::Role;
use crate::app::App;
use crate::layout::clamped;
use crate::text::{char_width, is_blank, is_blank_text};

verus! {

/// Lines scrolled by an arrow key.
pub const LINE_SCROLL: u16 = 1;

/// Lines scrolled by Page Up / Page Down.
pub const PAGE_SCROLL: u16 = 10;

/// Lines scrolled by one turn of the mouse wheel.
pub const WHEEL_SCROLL: u16 = 3;

/// A key of the keyboard, as far as the screen tells keys apart.
#[derive(Clone, Copy, Debug, PartialEq, Eq, Structural)]
pub enum KeyCode {
    Char(char),
    Enter,
    Backspace,
    Left,
    Right,
    Up,
    Down,
    PageUp,
    PageDown,
    Esc,
    Other,
}

/// An input event of the terminal. `ctrl_only` holds when Control, and no
/// other modifier, was held with the key.
#[derive(Clone, Copy, Debug, PartialEq, Eq, Structural)]
pub enum InputEvent {
    Key { code: KeyCode, ctrl_only: bool },
    WheelUp,
    WheelDown,
}

/// Ctrl+C and Esc quit.
pub open spec fn is_quit_key(code: KeyCode, ctrl_only: bool) -> bool {
    (code == KeyCode::Char('c') && ctrl_only) || code == KeyCode::Esc
}

/// `new` is `old` scrolled up by `n` lines, stopping at the top.
pub open spec fn scrolled_up(old: App, new: App, n: u16) -> bool {
    &&& new.scroll_offset == (if old.scroll_offset >= n {
        old.scroll_offset - n
    } else {
        0
    })
    &&& new.same_except_scroll(old)
}

/// `new` is `old` scrolled down by `n` lines, stopping at `u16::MAX`.
pub open spec fn scrolled_down(old: App, new: App, n: u16) -> bool {
    &&& new.scroll_offset == (if old.scroll_offset + n > u16::MAX {
        u16::MAX as int
    } else {
        old.scroll_offset + n
    })
    &&& new.same_except_scroll(old)
}

/// Enter, when no reply is awaited: the input is taken out and cleared; a
/// text that is not blank joins the transcript, the screen waits for the
/// reply and jumps to the bottom.
pub open spec fn entered(old: App, new: App, sent: Option<String>) -> bool {
    &&& new.input@.len() == 0
    &&& new.input_cursor == 0
    &&& new.should_quit == old.should_quit
    &&& if is_blank(old.input@) {
        &&& sent is None
        &&& new.messages@ == old.messages@
        &&& new.loading == old.loading
        &&& new.scroll_offset == old.scroll_offset
    } else {
        &&& sent matches Some(t) && t@ == old.input@
        &&& new.messages@.len() == old.messages@.len() + 1
        &&& new.messages@.take(old.messages@.len() as int) == old.messages@
        &&& new.messages@.last().0 == Role::User
        &&& new.messages@.last().1@ == old.input@
        &&& new.loading
        &&& new.scroll_offset == u16::MAX
    }
}

/// Whether `event` sends a message from `app`: Enter, while no reply is
/// awaited, on an input that is not blank.
pub open spec fn sends_text(app: App, event: InputEvent) -> bool {
    &&& event matches InputEvent::Key { code: KeyCode::Enter, .. }
    &&& !app.loading
    &&& !is_blank(app.input@)
}

/// `new` is `old` after `event`, and `sent` is what the event sends to the
/// model: a text exactly when `sends_text(old, event)`.
pub open spec fn input_step(old: App, new: App, event: InputEvent, sent: Option<String>) -> bool {
    &&& new.wf()
    &&& (sent is Some <==> sends_text(old, event))
    &&& match event {
        InputEvent::WheelUp => scrolled_up(old, new, WHEEL_SCROLL),
        InputEvent::WheelDown => scrolled_down(old, new, WHEEL_SCROLL),
        InputEvent::Key { code, ctrl_only } => if is_quit_key(code, ctrl_only) {
            &&& new.should_quit
            &&& new.input@ == old.input@
            &&& new.input_cursor == old.input_cursor
            &&& new.messages@ == old.messages@
            &&& new.scroll_offset == old.scroll_offset
            &&& new.loading == old.loading
        } else {
            match code {
                KeyCode::Enter => if old.loading {
                    new == old
                } else {
                    entered(old, new, sent)
                },
                KeyCode::Backspace => old.backspaced(new),
                KeyCode::Left => old.moved_left(new),
                KeyCode::Right => old.moved_right(new),
                KeyCode::Up => scrolled_up(old, new, LINE_SCROLL),
                KeyCode::Down => scrolled_down(old, new, LINE_SCROLL),
                KeyCode::PageUp => scrolled_up(old, new, PAGE_SCROLL),
                KeyCode::PageDown => scrolled_down(old, new, PAGE_SCROLL),
                KeyCode::Char(c) => old.typed(new, c),
                _ => new == old,
            }
        },
    }
}

/// `new` is `old` after the outcome of an awaited reply: the reply, or the
/// text of the error, joins the transcript as the model's message and the
/// wait ends; after a reply the screen jumps to the bottom.
pub open spec fn reply_step(old: App, new: App, reply: Result<String, String>) -> bool {
    &&& new.messages@.len() == old.messages@.len() + 1
    &&& new.messages@.take(old.messages@.len() as int) == old.messages@
    &&& new.messages@.last().0 == Role::Assistant
    &&& !new.loading
    &&& new.input@ == old.input@
    &&& new.input_cursor == old.input_cursor
    &&& new.should_quit == old.should_quit
    &&& match reply {
        Ok(t) => new.messages@.last().1@ == t@ && new.scroll_offset == u16::MAX,
        Err(e) => new.messages@.last().1@ == "[Error: "@ + e@ + "]"@ && new.scroll_offset
            == old.scroll_offset,
    }
}

/// Number of messages of `role` in a transcript.
pub open spec fn count_role(ms: Seq<(Role, String)>, role: Role) -> nat
    decreases ms.len(),
{
    if ms.len() == 0 {
        0
    } else {
        count_role(ms.drop_last(), role) + if ms.last().0 == role {
            1nat
        } else {
            0nat
        }
    }
}

/// The screen loop's invariant: while a reply is awaited the user is one
/// message ahead of the model, otherwise both have written as many.
pub open spec fn turns_balanced(app: App) -> bool {
    count_role(app.messages@, Role::User) == count_role(app.messages@, Role::Assistant) + if app.loading {
        1nat
    } else {
        0nat
    }
}

proof fn lemma_count_role_extend(a: Seq<(Role, String)>, b: Seq<(Role, String)>, role: Role)
    requires
        b.len() == a.len() + 1,
        b.take(a.len() as int) == a,
    ensures
        count_role(b, role) == count_role(a, role) + if b.last().0 == role {
            1nat
        } else {
            0nat
        },
{
    assert(b.drop_last() =~= b.take(a.len() as int));
}

/// The screen loop keeps its invariant: an input event sends a message only
/// when no reply is awaited, and then the screen awaits the reply to it; a
/// reply that arrives while it is awaited ends the wait. So at most one
/// message is in flight, and the user is one message ahead exactly while a
/// reply is awaited.
pub proof fn law_one_message_in_flight(
    a: App,
    b: App,
    event: InputEvent,
    sent: Option<String>,
    c: App,
    reply: Result<String, String>,
)
    requires
        turns_balanced(a),
        input_step(a, b, event, sent),
    ensures
        turns_balanced(b),
        sent is Some ==> !a.loading && b.loading,
        b.loading && reply_step(b, c, reply) ==> turns_balanced(c),
{
    if sends_text(a, event) {
        assert(b.messages@.take(a.messages@.len() as int) == a.messages@);
        lemma_count_role_extend(a.messages@, b.messages@, Role::User);
        lemma_count_role_extend(a.messages@, b.messages@, Role::Assistant);
    }
    if b.loading && reply_step(b, c, reply) {
        lemma_count_role_extend(b.messages@, c.messages@, Role::User);
        lemma_count_role_extend(b.messages@, c.messages@, Role::Assistant);
    }
}

/// Two screens with the same input and cursor hold the cursor at the same
/// byte offset.
proof fn lemma_same_cursor(x: App, y: App)
    requires
        x.wf(),
        y.wf(),
        x.input@ == y.input@,
        x.cursor_index() == y.cursor_index(),
    ensures
        x.input_cursor == y.input_cursor,
{
    x.lemma_cursor();
    y.lemma_cursor();
}

/// Backspace takes out the character in front of the cursor, whether or
/// not a reply is awaited; at the start of the line it changes nothing.
pub proof fn law_backspace_removes_char_before_cursor(
    a: App,
    b: App,
    ctrl_only: bool,
    sent: Option<String>,
)
    requires
        a.wf(),
        input_step(a, b, InputEvent::Key { code: KeyCode::Backspace, ctrl_only }, sent),
    ensures
        sent is None,
        a.input_cursor > 0 ==> b.input@ == a.input@.take(a.cursor_index() - 1) + a.input@.skip(
            a.cursor_index(),
        ) && b.cursor_index() == a.cursor_index() - 1,
        a.input_cursor == 0 ==> b.input@ == a.input@ && b.input_cursor == 0,
        b.messages@ == a.messages@,
        b.loading == a.loading,
        b.scroll_offset == a.scroll_offset,
{
    if a.input_cursor > 0 {
        a.lemma_cursor();
        assert(b.input@ =~= a.input@.take(a.cursor_index() - 1) + a.input@.skip(a.cursor_index()));
    }
}

/// Every event but Enter acts the same whether or not a reply is awaited:
/// screens that differ only in waiting end with the same input, cursor,
/// scroll and transcript, and neither sends anything.
pub proof fn law_only_enter_depends_on_waiting(
    a1: App,
    a2: App,
    b1: App,
    b2: App,
    event: InputEvent,
    s1: Option<String>,
    s2: Option<String>,
)
    requires
        a1.wf(),
        a2.wf(),
        a1.input@ == a2.input@,
        a1.input_cursor == a2.input_cursor,
        a1.scroll_offset == a2.scroll_offset,
        a1.messages@ == a2.messages@,
        a1.should_quit == a2.should_quit,
        !(event matches InputEvent::Key { code: KeyCode::Enter, .. }),
        input_step(a1, b1, event, s1),
        input_step(a2, b2, event, s2),
    ensures
        b1.input@ == b2.input@,
        b1.input_cursor == b2.input_cursor,
        b1.scroll_offset == b2.scroll_offset,
        b1.messages@ == b2.messages@,
        b1.should_quit == b2.should_quit,
        s1 is None && s2 is None,
{
    if let InputEvent::Key { code, ctrl_only } = event {
        if !is_quit_key(code, ctrl_only) {
            match code {
                KeyCode::Backspace => {
                    if a1.input_cursor > 0 {
                        lemma_same_cursor(b1, b2);
                    }
                },
                KeyCode::Left => {
                    if a1.input_cursor > 0 {
                        lemma_same_cursor(b1, b2);
                    }
                },
                _ => {},
            }
        }
    }
}

/// Keeping the scroll within the history keeps the screen loop's invariant.
pub proof fn law_clamp_keeps_balance(a: App, b: App, width: u16, height: u16, ok: bool)
    requires
        turns_balanced(a),
        clamped(a, b, width, height, ok),
    ensures
        turns_balanced(b),
{
}

/// A fresh screen satisfies the screen loop's invariant.
pub proof fn law_fresh_screen_balanced(a: App)
    requires
        a.is_fresh(),
    ensures
        turns_balanced(a),
{
}

impl App {
    /// Applies one input event. Returns the text to send to the model when
    /// the event sends one.
    pub fn handle_input(&mut self, event: InputEvent) -> (sent: Option<String>)
        requires
            old(self).wf(),
            event matches InputEvent::Key { code: KeyCode::Char(c), ctrl_only } ==> is_quit_key(
                KeyCode::Char(c),
                ctrl_only,
            ) || encode_utf8(old(self).input@).len() + char_width(c) <= isize::MAX,
        ensures
            input_step(*old(self), *final(self), event, sent),
    {
        match event {
            InputEvent::WheelUp => {
                self.scroll_up(WHEEL_SCROLL);
                None
            },
            InputEvent::WheelDown => {
                self.scroll_down(WHEEL_SCROLL);
                None
            },
            InputEvent::Key { code, ctrl_only } => {
                if (code == KeyCode::Char('c') && ctrl_only) || code == KeyCode::Esc {
                    self.should_quit = true;
                    return None;
                }
                match code {
                    KeyCode::Enter => {
                        if self.loading {
                            return None;
                        }
                        let text = self.send_message();
                        if is_blank_text(text.as_str()) {
                            None
                        } else {
                            let ghost before = self.messages@;
                            self.push_user(text.clone());
                            self.loading = true;
                            self.scroll_to_bottom();
                            proof {
                                assert(self.messages@.take(before.len() as int) =~= before);
                            }
                            Some(text)
                        }
                    },
                    KeyCode::Backspace => {
                        self.delete_char();
                        None
                    },
                    KeyCode::Left => {
                        self.move_cursor_left();
                        None
                    },
                    KeyCode::Right => {
                        self.move_cursor_right();
                        None
                    },
                    KeyCode::Up => {
                        self.scroll_up(LINE_SCROLL);
                        None
                    },
                    KeyCode::Down => {
                        self.scroll_down(LINE_SCROLL);
                        None
                    },
                    KeyCode::PageUp => {
                        self.scroll_up(PAGE_SCROLL);
                        None
                    },
                    KeyCode::PageDown => {
                        self.scroll_down(PAGE_SCROLL);
                        None
                    },
                    KeyCode::Char(c) => {
                        self.insert_char(c);
                        None
                    },
                    _ => None,
                }
            },
        }
    }

    /// Takes the outcome of an awaited reply: the reply, or the text of the
    /// error, joins the transcript as the model's message and the wait ends;
    /// after a reply the screen jumps to the bottom.
    pub fn handle_reply(&mut self, reply: Result<String, String>)
        ensures
            reply_step(*old(self), *final(self), reply),
    {
        match reply {
            Ok(text) => {
                self.push_model(text);
                self.loading = false;
                self.scroll_to_bottom();
            },
            Err(e) => {
                let mut shown = "[Error: ".to_owned();
                shown.append(e.as_str());
                shown.append("]");
                self.push_model(shown);
                self.loading = false;
            },
        }
        proof {
            assert(self.messages@.take(old(self).messages@.len() as int) =~= old(self).messages@);
        }
    }
}

} // verus!
