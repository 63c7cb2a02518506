//! State of the chat screen: the transcript, the line being edited with its
//! cursor (a byte offset into the UTF-8 text), the history scroll position
//! and the two flags that drive the screen loop.
use vstd::prelude::*;
use vstd::utf8::*;

use crate::agents::Role;
use crate::text::{
    char_index_at, char_len_utf8, char_width, is_boundary, lemma_boundary_iff, lemma_char_index_unique,
    lemma_encode_concat, lemma_encode_single, lemma_prefix_full, lemma_prefix_step, lemma_prefix_strict,
    lemma_prefix_zero, prefix_bytes, string_drain, string_insert,
};

verus! {

/// The chat screen.
pub struct App {
    pub messages: Vec<(Role, String)>,
    pub input: String,
    pub input_cursor: usize,
    pub scroll_offset: u16,
    pub loading: bool,
    pub should_quit: bool,
}

impl App {
    /// The cursor sits where a character starts (or at the end of the input),
    /// and the input fits the size every `String` keeps to.
    pub open spec fn wf(self) -> bool {
        &&& is_boundary(self.input@, self.input_cursor as int)
        &&& encode_utf8(self.input@).len() <= isize::MAX
    }

    /// Number of characters in front of the cursor.
    pub open spec fn cursor_index(self) -> int {
        char_index_at(self.input@, self.input_cursor as int)
    }

    /// Everything but the input line and its cursor is as in `other`.
    pub open spec fn same_except_input(self, other: App) -> bool {
        &&& self.messages@ == other.messages@
        &&& self.scroll_offset == other.scroll_offset
        &&& self.loading == other.loading
        &&& self.should_quit == other.should_quit
    }

    /// Everything but the transcript is as in `other`.
    pub open spec fn same_except_messages(self, other: App) -> bool {
        &&& self.input@ == other.input@
        &&& self.input_cursor == other.input_cursor
        &&& self.scroll_offset == other.scroll_offset
        &&& self.loading == other.loading
        &&& self.should_quit == other.should_quit
    }

    /// Everything but the scroll position is as in `other`.
    pub open spec fn same_except_scroll(self, other: App) -> bool {
        &&& self.messages@ == other.messages@
        &&& self.input@ == other.input@
        &&& self.input_cursor == other.input_cursor
        &&& self.loading == other.loading
        &&& self.should_quit == other.should_quit
    }

    /// `new` is `self` after typing `c` at the cursor: the character goes
    /// in front of the cursor and the cursor moves past it.
    pub open spec fn typed(self, new: App, c: char) -> bool {
        &&& new.wf()
        &&& new.input@ == self.input@.insert(self.cursor_index(), c)
        &&& new.cursor_index() == self.cursor_index() + 1
        &&& new.input_cursor == self.input_cursor + char_width(c)
        &&& encode_utf8(new.input@).len() == encode_utf8(self.input@).len() + char_width(c)
        &&& new.same_except_input(self)
    }

    /// `new` is `self` after Backspace: the character in front of the cursor
    /// is gone, or nothing changed at the start of the line.
    pub open spec fn backspaced(self, new: App) -> bool {
        &&& new.wf()
        &&& new.same_except_input(self)
        &&& self.input_cursor == 0 ==> new.input@ == self.input@ && new.input_cursor == 0
        &&& self.input_cursor > 0 ==> new.input@ == self.input@.remove(self.cursor_index() - 1)
            && new.cursor_index() == self.cursor_index() - 1
        &&& encode_utf8(new.input@).len() <= encode_utf8(self.input@).len()
    }

    /// `new` is `self` with the cursor one character to the left, or
    /// unchanged at the start of the line.
    pub open spec fn moved_left(self, new: App) -> bool {
        &&& new.wf()
        &&& new.same_except_input(self)
        &&& new.input@ == self.input@
        &&& self.input_cursor == 0 ==> new.input_cursor == 0
        &&& self.input_cursor > 0 ==> new.cursor_index() == self.cursor_index() - 1
    }

    /// `new` is `self` with the cursor one character to the right, or
    /// unchanged at the end of the line.
    pub open spec fn moved_right(self, new: App) -> bool {
        &&& new.wf()
        &&& new.same_except_input(self)
        &&& new.input@ == self.input@
        &&& self.cursor_index() < self.input@.len() ==> new.cursor_index() == self.cursor_index()
            + 1 && new.input_cursor == self.input_cursor + char_width(
            self.input@[self.cursor_index()],
        )
        &&& self.cursor_index() >= self.input@.len() ==> new.input_cursor == self.input_cursor
    }

    /// An empty screen: no messages, an empty input, the top of the
    /// history, no reply awaited.
    pub open spec fn is_fresh(self) -> bool {
        &&& self.wf()
        &&& self.messages@.len() == 0
        &&& self.input@.len() == 0
        &&& self.input_cursor == 0
        &&& self.scroll_offset == 0
        &&& !self.loading
        &&& !self.should_quit
    }

    /// An empty screen.
    pub fn new() -> (app: App)
        ensures
            app.is_fresh(),
    {
        let app = App {
            messages: Vec::new(),
            input: String::new(),
            input_cursor: 0,
            scroll_offset: 0,
            loading: false,
            should_quit: false,
        };
        proof {
            lemma_prefix_zero(app.input@);
            assert(is_boundary(app.input@, 0));
            assert(encode_utf8(app.input@) =~= Seq::<u8>::empty());
        }
        app
    }

    /// Appends a message written by the user.
    pub fn push_user(&mut self, text: String)
        ensures
            final(self).messages@ == old(self).messages@.push((Role::User, text)),
            final(self).same_except_messages(*old(self)),
    {
        self.messages.push((Role::User, text));
    }

    /// Appends a message written by the model.
    pub fn push_model(&mut self, text: String)
        ensures
            final(self).messages@ == old(self).messages@.push((Role::Assistant, text)),
            final(self).same_except_messages(*old(self)),
    {
        self.messages.push((Role::Assistant, text));
    }

    /// Types `c` at the cursor; the cursor moves past it.
    pub fn insert_char(&mut self, c: char)
        requires
            old(self).wf(),
            encode_utf8(old(self).input@).len() + char_width(c) <= isize::MAX,
        ensures
            old(self).typed(*final(self), c),
    {
        let ghost s = self.input@;
        let ghost k = self.cursor_index();
        string_insert(&mut self.input, self.input_cursor, c);
        proof {
            let t = self.input@;
            assert(t == s.insert(k, c));
            assert(t =~= s.take(k) + seq![c] + s.skip(k));
            assert(t.take(k + 1) =~= s.take(k) + seq![c]);
            lemma_encode_concat(s.take(k), seq![c]);
            lemma_encode_single(c);
            lemma_encode_concat(s.take(k) + seq![c], s.skip(k));
            lemma_encode_concat(s.take(k), s.skip(k));
            assert(s.take(k) + s.skip(k) =~= s);
            lemma_char_index_unique(t, k + 1);
        }
        self.input_cursor = self.input_cursor + char_len_utf8(c);
    }

    /// Byte offset of the character in front of the cursor.
    fn prev_char_boundary(&self) -> (p: usize)
        requires
            self.wf(),
            self.input_cursor > 0,
        ensures
            p == prefix_bytes(self.input@, self.cursor_index() - 1),
            0 < self.cursor_index() <= self.input@.len(),
    {
        let ghost s = self.input@;
        let ghost k = self.cursor_index();
        proof {
            lemma_prefix_zero(s);
            assert(k != 0);
            lemma_prefix_strict(s, k - 1, k);
        }
        let mut prev = self.input_cursor - 1;
        while !self.input.as_str().is_char_boundary(prev)
            invariant
                s == self.input@,
                0 < k <= s.len(),
                prefix_bytes(s, k) == self.input_cursor,
                prefix_bytes(s, k - 1) <= prev < self.input_cursor,
            decreases prev,
        {
            proof {
                lemma_boundary_iff(s, prev as int);
                lemma_char_index_unique(s, k - 1);
            }
            prev = prev - 1;
        }
        proof {
            lemma_boundary_iff(s, prev as int);
            let j = char_index_at(s, prev as int);
            if j < k - 1 {
                lemma_prefix_strict(s, j, k - 1);
            } else if j >= k {
                if j > k {
                    lemma_prefix_strict(s, k, j);
                }
            }
        }
        prev
    }

    /// Backspace: removes the character in front of the cursor, if any.
    pub fn delete_char(&mut self)
        requires
            old(self).wf(),
        ensures
            old(self).backspaced(*final(self)),
    {
        if self.input_cursor == 0 {
            return ;
        }
        let ghost s = self.input@;
        let ghost k = self.cursor_index();
        let prev = self.prev_char_boundary();
        proof {
            lemma_char_index_unique(s, k - 1);
            lemma_char_index_unique(s, k);
            assert(prefix_bytes(s, k) == self.input_cursor);
            lemma_prefix_strict(s, k - 1, k);
        }
        string_drain(&mut self.input, prev, self.input_cursor);
        self.input_cursor = prev;
        proof {
            let t = self.input@;
            assert(t =~= s.remove(k - 1));
            assert(t.take(k - 1) =~= s.take(k - 1));
            lemma_char_index_unique(t, k - 1);
            lemma_encode_concat(s.take(k - 1), s.skip(k - 1));
            assert(s.take(k - 1) + s.skip(k - 1) =~= s);
            lemma_encode_concat(s.take(k - 1), s.subrange(k, s.len() as int));
            assert(t =~= s.take(k - 1) + s.subrange(k, s.len() as int));
            lemma_prefix_strict(s, k - 1, k);
            lemma_encode_concat(s.subrange(k - 1, k), s.subrange(k, s.len() as int));
            assert(s.skip(k - 1) =~= s.subrange(k - 1, k) + s.subrange(k, s.len() as int));
        }
    }

    /// Moves the cursor one character to the left, if it can.
    pub fn move_cursor_left(&mut self)
        requires
            old(self).wf(),
        ensures
            old(self).moved_left(*final(self)),
    {
        if self.input_cursor == 0 {
            return ;
        }
        let ghost s = self.input@;
        let ghost k = self.cursor_index();
        let prev = self.prev_char_boundary();
        self.input_cursor = prev;
        proof {
            lemma_char_index_unique(s, k - 1);
        }
    }

    /// Moves the cursor one character to the right, if it can.
    pub fn move_cursor_right(&mut self)
        requires
            old(self).wf(),
        ensures
            old(self).moved_right(*final(self)),
    {
        broadcast use vstd::string::group_string_axioms;
        broadcast use encode_utf8_decode_utf8;

        let ghost s = self.input@;
        let ghost k = self.cursor_index();
        proof {
            lemma_boundary_iff(s, self.input_cursor as int);
            lemma_encode_concat(s.take(k), s.skip(k));
            assert(s.take(k) + s.skip(k) =~= s);
        }
        let (_, rest) = self.input.as_str().split_at(self.input_cursor);
        proof {
            assert(encode_utf8(rest@) =~= encode_utf8(s.skip(k)));
            assert(decode_utf8(encode_utf8(rest@)) == decode_utf8(encode_utf8(s.skip(k))));
            assert(rest@ == s.skip(k));
        }
        let mut it = rest.chars();
        match it.next() {
            Some(c) => {
                proof {
                    assert(k < s.len());
                    assert(c == s[k]);
                    lemma_prefix_step(s, k);
                    lemma_prefix_full(s);
                    if k + 1 < s.len() {
                        lemma_prefix_strict(s, k + 1, s.len() as int);
                    }
                    lemma_char_index_unique(s, k + 1);
                }
                self.input_cursor = self.input_cursor + char_len_utf8(c);
            },
            None => {},
        }
    }

    /// Takes the input line out for sending; the input is left empty.
    pub fn send_message(&mut self) -> (text: String)
        ensures
            final(self).wf(),
            text@ == old(self).input@,
            final(self).input@.len() == 0,
            final(self).input_cursor == 0,
            final(self).same_except_input(*old(self)),
    {
        self.input_cursor = 0;
        let mut taken = String::new();
        std::mem::swap(&mut taken, &mut self.input);
        proof {
            lemma_prefix_zero(self.input@);
            assert(is_boundary(self.input@, 0));
            assert(encode_utf8(self.input@) =~= Seq::<u8>::empty());
        }
        taken
    }

    /// Scrolls the history up by `amount` lines, stopping at the top.
    pub fn scroll_up(&mut self, amount: u16)
        ensures
            final(self).scroll_offset == (if old(self).scroll_offset >= amount {
                old(self).scroll_offset - amount
            } else {
                0
            }),
            final(self).same_except_scroll(*old(self)),
    {
        self.scroll_offset = self.scroll_offset.saturating_sub(amount);
    }

    /// Scrolls the history down by `amount` lines; the screen loop clamps the
    /// result to the real maximum before drawing.
    pub fn scroll_down(&mut self, amount: u16)
        ensures
            final(self).scroll_offset == (if old(self).scroll_offset + amount > u16::MAX {
                u16::MAX as int
            } else {
                old(self).scroll_offset + amount
            }),
            final(self).same_except_scroll(*old(self)),
    {
        self.scroll_offset = self.scroll_offset.saturating_add(amount);
    }

    /// Asks for the bottom of the history: the largest offset, which the
    /// screen loop clamps to the real maximum before drawing.
    pub fn scroll_to_bottom(&mut self)
        ensures
            final(self).scroll_offset == u16::MAX,
            final(self).same_except_scroll(*old(self)),
    {
        self.scroll_offset = u16::MAX;
    }
}


impl Default for App {
    /// An empty screen.
    fn default() -> (app: App)
        ensures
            app.is_fresh(),
    {
        App::new()
    }
}

impl App {
    /// Where the cursor stands, as a byte offset and as a character index.
    pub proof fn lemma_cursor(self)
        requires
            self.wf(),
        ensures
            0 <= self.cursor_index() <= self.input@.len(),
            prefix_bytes(self.input@, self.cursor_index()) == self.input_cursor,
    {
    }
}

/// Backspace right after typing a character takes it out again: the input
/// and the cursor are as before.
pub proof fn law_backspace_undoes_typing(a: App, b: App, d: App, c: char)
    requires
        a.wf(),
        a.typed(b, c),
        b.backspaced(d),
    ensures
        d.input@ == a.input@,
        d.input_cursor == a.input_cursor,
        d.same_except_input(a),
{
    a.lemma_cursor();
    b.lemma_cursor();
    d.lemma_cursor();
    crate::text::lemma_char_width_range(c);
    let k = a.cursor_index();
    assert(b.input_cursor > 0);
    assert(d.input@ =~= a.input@);
}

/// Moving the cursor left and then right brings it back, unless it started
/// at the beginning of the line.
pub proof fn law_left_then_right_returns(a: App, b: App, c: App)
    requires
        a.wf(),
        a.input_cursor > 0,
        a.moved_left(b),
        b.moved_right(c),
    ensures
        c.input_cursor == a.input_cursor,
        c.input@ == a.input@,
{
    a.lemma_cursor();
    b.lemma_cursor();
    c.lemma_cursor();
    if a.cursor_index() == 0 {
        lemma_prefix_zero(a.input@);
    }
}

/// Moving the cursor right and then left brings it back, unless it started
/// at the end of the line.
pub proof fn law_right_then_left_returns(a: App, b: App, c: App)
    requires
        a.wf(),
        a.cursor_index() < a.input@.len(),
        a.moved_right(b),
        b.moved_left(c),
    ensures
        c.input_cursor == a.input_cursor,
        c.input@ == a.input@,
{
    a.lemma_cursor();
    b.lemma_cursor();
    c.lemma_cursor();
    lemma_prefix_step(a.input@, a.cursor_index());
    crate::text::lemma_char_width_range(a.input@[a.cursor_index()]);
}

} // verus!
