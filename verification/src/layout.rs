//! Geometry of the chat screen: how many rows the history takes and how far
//! it can scroll, which lines it shows, and where the cursor of the input
//! box stands.
use vstd::prelude::*;
use vstd::utf8::*;

use crate::agents::Role;
use crate::app::App;
use crate::text::{
    char_index_at, lemma_boundary_iff, lemma_encode_concat, lines_of, str_chars, string_push,
    text_lines,
};

verus! {

/// Share of the terminal height, in percent, given to the history pane.
pub const HISTORY_PANE_PERCENT: u16 = 80;

/// Rows that one line of `n` characters takes in a pane `w` columns wide.
/// The count is cast to a `u16` before the division, so a line of 65,536
/// characters or more is counted modulo 2^16; the screen keeps that cast as
/// it is, and its row counts then fall short for such lines.
pub open spec fn line_rows(n: nat, w: int) -> int {
    let c = (n % 0x10000) as int;
    let r = (c + w - 1) / w;
    if r >= 1 {
        r
    } else {
        1
    }
}

/// The `u16` sum `count + w - 1` of `line_rows` does not overflow.
pub open spec fn line_fits(n: nat, w: int) -> bool {
    (n % 0x10000) as int + w <= u16::MAX
}

/// Rows taken by a sequence of lines.
pub open spec fn lines_rows(lines: Seq<Seq<char>>, w: int) -> int
    decreases lines.len(),
{
    if lines.len() == 0 {
        0
    } else {
        lines_rows(lines.drop_last(), w) + line_rows(lines.last().len(), w)
    }
}

/// Every line of the sequence passes `line_fits`.
pub open spec fn lines_fit(lines: Seq<Seq<char>>, w: int) -> bool {
    forall|i: int| 0 <= i < lines.len() ==> line_fits(#[trigger] lines[i].len(), w)
}

/// Rows taken by one message: a header, its lines, a blank separator.
pub open spec fn message_rows(text: Seq<char>, w: int) -> int {
    1 + lines_rows(lines_of(text), w) + 1
}

/// Rows taken by a transcript.
pub open spec fn messages_rows(ms: Seq<(Role, String)>, w: int) -> int
    decreases ms.len(),
{
    if ms.len() == 0 {
        0
    } else {
        messages_rows(ms.drop_last(), w) + message_rows(ms.last().1@, w)
    }
}

/// Every line of every message passes `line_fits`.
pub open spec fn messages_fit(ms: Seq<(Role, String)>, w: int) -> bool {
    forall|i: int| 0 <= i < ms.len() ==> lines_fit(lines_of(#[trigger] ms[i].1@), w)
}

/// The width that wrapping uses: the pane width, at least one column.
pub open spec fn wrap_width(inner_width: u16) -> int {
    if inner_width >= 1 {
        inner_width as int
    } else {
        1
    }
}

/// Rows the history takes: every message, then two rows for the pending
/// reply while one is awaited.
pub open spec fn history_rows(app: App, inner_width: u16) -> int {
    messages_rows(app.messages@, wrap_width(inner_width)) + (if app.loading {
        2int
    } else {
        0int
    })
}

/// The row count fits the `u16` it is summed in, with no overflow on the way.
pub open spec fn history_fits(app: App, inner_width: u16) -> bool {
    &&& messages_fit(app.messages@, wrap_width(inner_width))
    &&& history_rows(app, inner_width) <= u16::MAX
}

/// The largest scroll offset that still fills the pane.
pub open spec fn max_scroll(app: App, inner_width: u16, inner_height: u16) -> int {
    let t = history_rows(app, inner_width);
    if t >= inner_height {
        t - inner_height
    } else {
        0
    }
}

pub proof fn lemma_line_rows_range(n: nat, w: int)
    requires
        w >= 1,
        line_fits(n, w),
    ensures
        1 <= line_rows(n, w) <= u16::MAX,
{
    let c = (n % 0x10000) as int;
    assert((c + w - 1) / w <= c + w - 1) by (nonlinear_arith)
        requires
            w >= 1,
            c >= 0,
    ;
}

pub proof fn lemma_lines_rows_nonneg(lines: Seq<Seq<char>>, w: int)
    requires
        w >= 1,
    ensures
        lines_rows(lines, w) >= 0,
    decreases lines.len(),
{
    if lines.len() > 0 {
        lemma_lines_rows_nonneg(lines.drop_last(), w);
    }
}

/// A prefix of a sequence of lines takes no more rows than the whole.
pub proof fn lemma_lines_rows_prefix(lines: Seq<Seq<char>>, j: int, w: int)
    requires
        0 <= j <= lines.len(),
        w >= 1,
    ensures
        lines_rows(lines.take(j), w) <= lines_rows(lines, w),
    decreases lines.len(),
{
    if j == lines.len() {
        assert(lines.take(j) =~= lines);
    } else {
        lemma_lines_rows_prefix(lines.drop_last(), j, w);
        assert(lines.drop_last().take(j) =~= lines.take(j));
        assert(line_rows(lines.last().len(), w) >= 1) by (nonlinear_arith)
            requires
                w >= 1,
        ;
    }
}

/// A prefix of a transcript takes no more rows than the whole.
pub proof fn lemma_messages_rows_prefix(ms: Seq<(Role, String)>, i: int, w: int)
    requires
        0 <= i <= ms.len(),
        w >= 1,
    ensures
        messages_rows(ms.take(i), w) <= messages_rows(ms, w),
        messages_rows(ms.take(i), w) >= 0,
    decreases ms.len(),
{
    if i == ms.len() {
        assert(ms.take(i) =~= ms);
        if ms.len() > 0 {
            lemma_messages_rows_prefix(ms.drop_last(), 0, w);
            assert(ms.drop_last().take(0) =~= ms.take(0));
            lemma_lines_rows_nonneg(lines_of(ms.last().1@), w);
        }
    } else {
        lemma_messages_rows_prefix(ms.drop_last(), i, w);
        assert(ms.drop_last().take(i) =~= ms.take(i));
        lemma_lines_rows_nonneg(lines_of(ms.last().1@), w);
    }
}

/// Rows of the history and the largest scroll offset, or `None` when the
/// `u16` sums would overflow (where plain `u16` arithmetic panics).
pub fn try_compute_max_scroll(app: &App, inner_width: u16, inner_height: u16) -> (r: Option<u16>)
    ensures
        r is Some <==> history_fits(*app, inner_width),
        r matches Some(v) ==> v == max_scroll(*app, inner_width, inner_height),
{
    let width: u16 = if inner_width >= 1 {
        inner_width
    } else {
        1
    };
    let ghost w = width as int;
    let ghost ms = app.messages@;
    let mut total: u16 = 0;
    let mut i: usize = 0;
    while i < app.messages.len()
        invariant
            w == wrap_width(inner_width),
            w == width,
            ms == app.messages@,
            i <= ms.len(),
            total == messages_rows(ms.take(i as int), w),
            forall|m: int| 0 <= m < i ==> lines_fit(lines_of(#[trigger] ms[m].1@), w),
        decreases ms.len() - i,
    {
        proof {
            lemma_messages_rows_prefix(ms, i + 1, w);
            assert(ms.take(i + 1).drop_last() =~= ms.take(i as int));
        }
        if total == u16::MAX {
            proof {
                lemma_lines_rows_nonneg(lines_of(ms[i as int].1@), w);
                assert(messages_rows(ms.take(i + 1), w) > u16::MAX);
            }
            return None;
        }
        total = total + 1;
        let lines = text_lines(app.messages[i].1.as_str());
        let ghost ls = lines_of(ms[i as int].1@);
        let mut j: usize = 0;
        while j < lines.len()
            invariant
                w == width,
                w == wrap_width(inner_width),
                w >= 1,
                ms == app.messages@,
                i < ms.len(),
                ls == lines_of(ms[i as int].1@),
                lines@.len() == ls.len(),
                forall|q: int| 0 <= q < lines@.len() ==> #[trigger] lines@[q]@ == ls[q],
                j <= ls.len(),
                total == messages_rows(ms.take(i as int), w) + 1 + lines_rows(ls.take(j as int), w),
                forall|q: int| 0 <= q < j ==> line_fits(#[trigger] ls[q].len(), w),
                messages_rows(ms.take(i + 1), w) == messages_rows(ms.take(i as int), w)
                    + message_rows(ms[i as int].1@, w),
            decreases ls.len() - j,
        {
            let count = lines[j].as_str().unicode_len();
            let chars = (count % 0x10000) as u16;
            proof {
                assert(ls.take(j + 1).drop_last() =~= ls.take(j as int));
                assert(chars == ls[j as int].len() % 0x10000);
            }
            if chars > u16::MAX - width {
                proof {
                    assert(!line_fits(ls[j as int].len(), w));
                    assert(!lines_fit(lines_of(ms[i as int].1@), w));
                }
                return None;
            }
            let rows_raw = (chars + width - 1) / width;
            let rows = if rows_raw >= 1 {
                rows_raw
            } else {
                1
            };
            proof {
                lemma_line_rows_range(ls[j as int].len(), w);
                assert(rows == line_rows(ls[j as int].len(), w));
            }
            if total > u16::MAX - rows {
                proof {
                    lemma_lines_rows_prefix(ls, j + 1, w);
                    lemma_messages_rows_prefix(ms, i + 1, w);
                }
                return None;
            }
            total = total + rows;
            j += 1;
        }
        proof {
            assert(ls.take(ls.len() as int) =~= ls);
        }
        if total == u16::MAX {
            proof {
                lemma_messages_rows_prefix(ms, i + 1, w);
            }
            return None;
        }
        total = total + 1;
        i += 1;
    }
    proof {
        assert(ms.take(ms.len() as int) =~= ms);
    }
    if app.loading {
        if total > u16::MAX - 2 {
            return None;
        }
        total = total + 2;
    }
    Some(total.saturating_sub(inner_height))
}

proof fn lemma_line_rows_antitone(n: nat, w1: int, w2: int)
    requires
        1 <= w1 <= w2,
    ensures
        line_rows(n, w2) <= line_rows(n, w1),
{
    let c = (n % 0x10000) as int;
    let q1 = (c + w1 - 1) / w1;
    let q2 = (c + w2 - 1) / w2;
    assert(q2 <= q1 || q2 <= 1) by (nonlinear_arith)
        requires
            1 <= w1 <= w2,
            c >= 0,
            q1 == (c + w1 - 1) / w1,
            q2 == (c + w2 - 1) / w2,
    {
        assert(q1 * w1 <= c + w1 - 1 < q1 * w1 + w1);
        assert(q2 * w2 <= c + w2 - 1 < q2 * w2 + w2);
        if q2 > q1 && q2 > 1 {
            assert(q2 >= q1 + 1);
            assert((q2 - 1) * w2 <= c - 1);
            assert(q1 * w1 >= c);
            assert((q2 - 1) * w1 <= (q2 - 1) * w2);
            assert(q1 * w1 <= (q2 - 1) * w1);
        }
    }
}

proof fn lemma_lines_rows_antitone(lines: Seq<Seq<char>>, w1: int, w2: int)
    requires
        1 <= w1 <= w2,
    ensures
        lines_rows(lines, w2) <= lines_rows(lines, w1),
    decreases lines.len(),
{
    if lines.len() > 0 {
        lemma_lines_rows_antitone(lines.drop_last(), w1, w2);
        lemma_line_rows_antitone(lines.last().len(), w1, w2);
    }
}

proof fn lemma_messages_rows_antitone(ms: Seq<(Role, String)>, w1: int, w2: int)
    requires
        1 <= w1 <= w2,
    ensures
        messages_rows(ms, w2) <= messages_rows(ms, w1),
    decreases ms.len(),
{
    if ms.len() > 0 {
        lemma_messages_rows_antitone(ms.drop_last(), w1, w2);
        lemma_lines_rows_antitone(lines_of(ms.last().1@), w1, w2);
    }
}

/// A taller or wider history pane never has a larger maximum scroll.
pub proof fn law_max_scroll_shrinks_with_pane(app: App, w1: u16, w2: u16, h1: u16, h2: u16)
    requires
        w1 <= w2,
        h1 <= h2,
    ensures
        max_scroll(app, w2, h2) <= max_scroll(app, w1, h1),
        max_scroll(app, w1, h2) <= max_scroll(app, w1, h1),
        max_scroll(app, w2, h1) <= max_scroll(app, w1, h1),
{
    lemma_messages_rows_antitone(app.messages@, wrap_width(w1), wrap_width(w2));
}

/// Every line of every message of `ms` fits in `w` columns.
pub open spec fn lines_within(ms: Seq<(Role, String)>, w: int) -> bool {
    forall|i: int, j: int|
        0 <= i < ms.len() && 0 <= j < lines_of(ms[i].1@).len() ==> #[trigger] lines_of(
            ms[i].1@,
        )[j].len() <= w
}

proof fn lemma_lines_rows_one_each(lines: Seq<Seq<char>>, w: int)
    requires
        1 <= w <= u16::MAX,
        forall|j: int| 0 <= j < lines.len() ==> #[trigger] lines[j].len() <= w,
    ensures
        lines_rows(lines, w) == lines.len(),
    decreases lines.len(),
{
    if lines.len() > 0 {
        lemma_lines_rows_one_each(lines.drop_last(), w);
        let n = lines.last().len();
        assert(lines[lines.len() - 1].len() <= w);
        assert(n % 0x10000 == n);
        let q = (n + w - 1) / w;
        assert(q <= 1) by (nonlinear_arith)
            requires
                1 <= w,
                n <= w,
                q == (n + w - 1) / w,
        ;
        assert(line_rows(n, w) == 1);
    }
}

proof fn lemma_transcript_rows(ms: Seq<(Role, String)>, w: int)
    requires
        1 <= w <= u16::MAX,
        forall|i: int| 0 <= i < ms.len() ==> #[trigger] ms[i].0 != Role::System,
        lines_within(ms, w),
    ensures
        messages_rows(ms, w) == transcript_lines(ms).len(),
    decreases ms.len(),
{
    if ms.len() > 0 {
        let last = ms.len() - 1;
        let init = ms.drop_last();
        assert forall|i: int| 0 <= i < init.len() implies #[trigger] init[i].0 != Role::System by {
            assert(init[i] == ms[i]);
        }
        assert forall|i: int, j: int|
            0 <= i < init.len() && 0 <= j < lines_of(init[i].1@).len() implies #[trigger] lines_of(
                init[i].1@,
            )[j].len() <= w by {
            assert(init[i] == ms[i]);
        }
        lemma_transcript_rows(init, w);
        let ls = lines_of(ms[last].1@);
        assert forall|j: int| 0 <= j < ls.len() implies #[trigger] ls[j].len() <= w by {
            assert(lines_of(ms[last].1@)[j].len() <= w);
        }
        lemma_lines_rows_one_each(ls, w);
        assert(ms[last].0 != Role::System);
    }
}

/// When every message is the user's or the model's and every line fits in
/// one row of the pane, the history takes exactly one row per history line.
pub proof fn law_rows_match_history_lines(app: App, inner_width: u16, tick: u8)
    requires
        forall|i: int|
            0 <= i < app.messages@.len() ==> #[trigger] app.messages@[i].0 != Role::System,
        lines_within(app.messages@, wrap_width(inner_width)),
    ensures
        history_rows(app, inner_width) == history_lines(app, tick).len(),
{
    lemma_transcript_rows(app.messages@, wrap_width(inner_width));
}

/// Largest scroll offset of the history in a pane of the given inner size.
pub fn compute_max_scroll(app: &App, inner_width: u16, inner_height: u16) -> (r: u16)
    requires
        history_fits(*app, inner_width),
    ensures
        r == max_scroll(*app, inner_width, inner_height),
{
    match try_compute_max_scroll(app, inner_width, inner_height) {
        Some(v) => v,
        None => 0,
    }
}

/// Inner width of the history pane of a terminal `width` columns wide.
pub open spec fn pane_inner_width(width: u16) -> int {
    if width >= 2 {
        width - 2
    } else {
        0
    }
}

/// Inner height of the history pane of a terminal `height` rows high.
pub open spec fn pane_inner_height(height: u16) -> int {
    let h = height * (HISTORY_PANE_PERCENT as int) / 100;
    if h >= 2 {
        h - 2
    } else {
        0
    }
}

/// Inner size (inside the border) of the history pane of a terminal of the
/// given size.
pub fn history_inner_size(width: u16, height: u16) -> (r: (u16, u16))
    ensures
        r.0 == pane_inner_width(width),
        r.1 == pane_inner_height(height),
{
    let inner_w = width.saturating_sub(2);
    let scaled: u32 = (height as u32) * (HISTORY_PANE_PERCENT as u32) / 100;
    assert(scaled <= height) by (nonlinear_arith)
        requires
            scaled == (height as u32) * 80 / 100,
    ;
    let inner_h = (scaled as u16).saturating_sub(2);
    (inner_w, inner_h)
}

/// `new` is `old` with its scroll offset kept within the history, for a
/// terminal of the given size; `ok` fails, and nothing changes, when the
/// rows do not fit a `u16`.
pub open spec fn clamped(old: App, new: App, width: u16, height: u16, ok: bool) -> bool {
    let w = pane_inner_width(width) as u16;
    let h = pane_inner_height(height) as u16;
    &&& ok == history_fits(old, w)
    &&& ok ==> new.scroll_offset == (if old.scroll_offset <= max_scroll(old, w, h) {
        old.scroll_offset as int
    } else {
        max_scroll(old, w, h)
    })
    &&& !ok ==> new.scroll_offset == old.scroll_offset
    &&& new.same_except_scroll(old)
}

/// After clamping, the scroll offset never goes past the bottom of the
/// history, and an offset already within it is kept.
pub proof fn law_clamp_stays_within_history(old: App, new: App, width: u16, height: u16)
    requires
        clamped(old, new, width, height, true),
    ensures
        new.scroll_offset <= max_scroll(
            new,
            pane_inner_width(width) as u16,
            pane_inner_height(height) as u16,
        ),
        old.scroll_offset <= max_scroll(
            old,
            pane_inner_width(width) as u16,
            pane_inner_height(height) as u16,
        ) ==> new.scroll_offset == old.scroll_offset,
{
}

/// A clamp that succeeds takes the smaller of the old offset and the
/// largest offset that still fills the pane: it never moves the view up
/// past that limit, and an offset beyond the end lands at the end.
pub proof fn law_clamp_is_min(old: App, new: App, width: u16, height: u16)
    requires
        clamped(old, new, width, height, true),
    ensures
        new.scroll_offset <= old.scroll_offset,
        new.scroll_offset <= max_scroll(
            old,
            pane_inner_width(width) as u16,
            pane_inner_height(height) as u16,
        ),
        new.scroll_offset == old.scroll_offset || new.scroll_offset == max_scroll(
            old,
            pane_inner_width(width) as u16,
            pane_inner_height(height) as u16,
        ),
        old.scroll_offset >= max_scroll(
            old,
            pane_inner_width(width) as u16,
            pane_inner_height(height) as u16,
        ) ==> new.scroll_offset == max_scroll(
            old,
            pane_inner_width(width) as u16,
            pane_inner_height(height) as u16,
        ),
{
}

/// Clamping keeps the order of offsets: of two screens that differ only in
/// their scroll offset, the one scrolled further never ends up above the
/// other.
pub proof fn law_clamp_monotone(
    a1: App,
    a2: App,
    n1: App,
    n2: App,
    width: u16,
    height: u16,
)
    requires
        a1.same_except_scroll(a2),
        a1.scroll_offset <= a2.scroll_offset,
        clamped(a1, n1, width, height, true),
        clamped(a2, n2, width, height, true),
    ensures
        n1.scroll_offset <= n2.scroll_offset,
{
}

impl App {
    /// Keeps the scroll offset within the history, for a terminal of the
    /// given size. Returns false, changing nothing, when the row count would
    /// overflow a `u16`.
    pub fn clamp_scroll(&mut self, width: u16, height: u16) -> (ok: bool)
        ensures
            clamped(*old(self), *final(self), width, height, ok),
    {
        let (inner_w, inner_h) = history_inner_size(width, height);
        match try_compute_max_scroll(self, inner_w, inner_h) {
            Some(m) => {
                if m < self.scroll_offset {
                    self.scroll_offset = m;
                }
                true
            },
            None => false,
        }
    }
}

/// A rectangle of the terminal, in cells.
#[derive(Clone, Copy, Debug, PartialEq, Eq, Structural)]
pub struct Rect {
    pub x: u16,
    pub y: u16,
    pub width: u16,
    pub height: u16,
}

/// A cell of the terminal.
#[derive(Clone, Copy, Debug, PartialEq, Eq, Structural)]
pub struct Position {
    pub x: u16,
    pub y: u16,
}

/// Row and column, relative to the box, reached after writing `s` into a
/// box `w` columns wide that wraps at its edge and at each `'\n'`.
pub open spec fn cursor_offset(s: Seq<char>, w: int) -> (int, int)
    decreases s.len(),
{
    if s.len() == 0 {
        (0, 0)
    } else {
        let (row, col) = cursor_offset(s.drop_last(), w);
        if s.last() == '\n' {
            (row + 1, 0)
        } else if col + 1 >= w {
            (row + 1, 0)
        } else {
            (row, col + 1)
        }
    }
}

pub proof fn lemma_cursor_offset_bounds(s: Seq<char>, w: int)
    requires
        w >= 1,
    ensures
        0 <= cursor_offset(s, w).0 <= s.len(),
        0 <= cursor_offset(s, w).1 < w,
    decreases s.len(),
{
    if s.len() > 0 {
        lemma_cursor_offset_bounds(s.drop_last(), w);
    }
}

/// The text in front of the input cursor.
pub open spec fn text_before_cursor(app: App) -> Seq<char> {
    app.input@.take(app.cursor_index())
}

/// The cell of the input cursor in the input box `inner`.
pub open spec fn cursor_cell(app: App, inner: Rect) -> (int, int) {
    let (row, col) = cursor_offset(text_before_cursor(app), wrap_width(inner.width));
    (inner.x + col, inner.y + row)
}

/// The cursor cell stays within the `u16` coordinates.
pub open spec fn cursor_fits(app: App, inner: Rect) -> bool {
    &&& cursor_cell(app, inner).0 <= u16::MAX
    &&& cursor_cell(app, inner).1 <= u16::MAX
}

/// Cell of the input cursor in the input box `inner`, or `None` when a
/// coordinate would overflow a `u16`.
pub fn try_cursor_position(app: &App, inner: Rect) -> (p: Option<Position>)
    requires
        app.wf(),
    ensures
        p is Some <==> cursor_fits(*app, inner),
        p matches Some(pos) ==> pos.x == cursor_cell(*app, inner).0 && pos.y == cursor_cell(
            *app,
            inner,
        ).1,
{
    broadcast use encode_utf8_decode_utf8;

    let ghost s = app.input@;
    let ghost k = app.cursor_index();
    proof {
        lemma_boundary_iff(s, app.input_cursor as int);
        lemma_encode_concat(s.take(k), s.skip(k));
        assert(s.take(k) + s.skip(k) =~= s);
    }
    let (before_str, _) = app.input.as_str().split_at(app.input_cursor);
    proof {
        assert(encode_utf8(before_str@) =~= encode_utf8(s.take(k)));
        assert(decode_utf8(encode_utf8(before_str@)) == decode_utf8(encode_utf8(s.take(k))));
    }
    let before = str_chars(before_str);
    let wrap: usize = if inner.width >= 1 {
        inner.width as usize
    } else {
        1
    };
    let ghost w = wrap as int;
    let mut row: usize = 0;
    let mut col: usize = 0;
    let mut i: usize = 0;
    while i < before.len()
        invariant
            w == wrap,
            w == wrap_width(inner.width),
            before@ == text_before_cursor(*app),
            i <= before@.len(),
            (row as int, col as int) == cursor_offset(before@.take(i as int), w),
        decreases before@.len() - i,
    {
        proof {
            assert(before@.take(i + 1).drop_last() =~= before@.take(i as int));
            lemma_cursor_offset_bounds(before@.take(i as int), w);
        }
        if before[i] == '\n' {
            row = row + 1;
            col = 0;
        } else {
            col = col + 1;
            if col >= wrap {
                row = row + 1;
                col = 0;
            }
        }
        i += 1;
    }
    proof {
        assert(before@.take(before@.len() as int) =~= before@);
        lemma_cursor_offset_bounds(before@, w);
    }
    if row > (u16::MAX - inner.y) as usize || col > (u16::MAX - inner.x) as usize {
        return None;
    }
    Some(Position { x: inner.x + col as u16, y: inner.y + row as u16 })
}

/// Cell of the input cursor in the input box `inner`.
pub fn cursor_position(app: &App, inner: Rect) -> (p: Position)
    requires
        app.wf(),
        cursor_fits(*app, inner),
    ensures
        p.x == cursor_cell(*app, inner).0,
        p.y == cursor_cell(*app, inner).1,
{
    match try_cursor_position(app, inner) {
        Some(p) => p,
        None => Position { x: 0, y: 0 },
    }
}


/// How a line of the history is drawn.
#[derive(Clone, Copy, Debug, PartialEq, Eq, Structural)]
pub enum LineStyle {
    UserHeader,
    User,
    ModelHeader,
    Model,
    Thinking,
    Plain,
}

/// One row of text of the history pane, before wrapping.
#[derive(Debug)]
pub struct HistoryLine {
    pub text: String,
    pub style: LineStyle,
    pub right_aligned: bool,
}

/// A history line as the contracts see it.
pub struct HistoryLineView {
    pub text: Seq<char>,
    pub style: LineStyle,
    pub right_aligned: bool,
}

impl View for HistoryLine {
    type V = HistoryLineView;

    open spec fn view(&self) -> HistoryLineView {
        HistoryLineView { text: self.text@, style: self.style, right_aligned: self.right_aligned }
    }
}

pub open spec fn history_lines_view(v: Seq<HistoryLine>) -> Seq<HistoryLineView> {
    v.map_values(|l: HistoryLine| l@)
}

/// The empty separator line.
pub open spec fn blank_line() -> HistoryLineView {
    HistoryLineView { text: Seq::empty(), style: LineStyle::Plain, right_aligned: false }
}

/// The lines of a message body, all drawn alike.
pub open spec fn body_lines(lines: Seq<Seq<char>>, style: LineStyle, right: bool) -> Seq<
    HistoryLineView,
> {
    lines.map_values(|l: Seq<char>| HistoryLineView { text: l, style, right_aligned: right })
}

/// What one message shows: the user's messages under "You" on the right,
/// the model's under "Model" on the left, each followed by a blank line;
/// other messages show the blank line alone.
pub open spec fn message_lines(role: Role, text: Seq<char>) -> Seq<HistoryLineView> {
    match role {
        Role::User => seq![
            HistoryLineView {
                text: "You"@,
                style: LineStyle::UserHeader,
                right_aligned: true,
            },
        ] + body_lines(lines_of(text), LineStyle::User, true) + seq![blank_line()],
        Role::Assistant => seq![
            HistoryLineView {
                text: "Model"@,
                style: LineStyle::ModelHeader,
                right_aligned: false,
            },
        ] + body_lines(lines_of(text), LineStyle::Model, false) + seq![blank_line()],
        Role::System => seq![blank_line()],
    }
}

/// The lines of a transcript, message after message.
pub open spec fn transcript_lines(ms: Seq<(Role, String)>) -> Seq<HistoryLineView>
    decreases ms.len(),
{
    if ms.len() == 0 {
        seq![]
    } else {
        transcript_lines(ms.drop_last()) + message_lines(ms.last().0, ms.last().1@)
    }
}

/// The frame of the waiting animation shown at tick `i`.
pub open spec fn spinner_char(i: int) -> char {
    seq![
        '\u{280b}',
        '\u{2819}',
        '\u{2839}',
        '\u{2838}',
        '\u{283c}',
        '\u{2834}',
        '\u{2826}',
        '\u{2827}',
        '\u{2807}',
        '\u{280f}',
    ][i % 10]
}

/// Everything the history pane shows: the transcript and, while a reply is
/// awaited, a "Model" header over the animated "Thinking..." line.
pub open spec fn history_lines(app: App, tick: u8) -> Seq<HistoryLineView> {
    transcript_lines(app.messages@) + if app.loading {
        seq![
            HistoryLineView {
                text: "Model"@,
                style: LineStyle::ModelHeader,
                right_aligned: false,
            },
            HistoryLineView {
                text: seq![spinner_char(tick as int)] + " Thinking..."@,
                style: LineStyle::Thinking,
                right_aligned: false,
            },
        ]
    } else {
        seq![]
    }
}

/// The frame of the waiting animation for `tick`.
pub fn spinner_frame(tick: u8) -> (c: char)
    ensures
        c == spinner_char(tick as int),
{
    let f = tick % 10;
    if f == 0 {
        '\u{280b}'
    } else if f == 1 {
        '\u{2819}'
    } else if f == 2 {
        '\u{2839}'
    } else if f == 3 {
        '\u{2838}'
    } else if f == 4 {
        '\u{283c}'
    } else if f == 5 {
        '\u{2834}'
    } else if f == 6 {
        '\u{2826}'
    } else if f == 7 {
        '\u{2827}'
    } else if f == 8 {
        '\u{2807}'
    } else {
        '\u{280f}'
    }
}

proof fn lemma_view_push(v: Seq<HistoryLine>, l: HistoryLine)
    ensures
        history_lines_view(v.push(l)) == history_lines_view(v).push(l@),
{
    assert(history_lines_view(v.push(l)) =~= history_lines_view(v).push(l@));
}

/// Appends the body lines of a message to `out`.
fn push_body_lines(out: &mut Vec<HistoryLine>, text: &String, style: LineStyle, right: bool)
    ensures
        history_lines_view(final(out)@) == history_lines_view(old(out)@) + body_lines(
            lines_of(text@),
            style,
            right,
        ),
{
    let lines = text_lines(text.as_str());
    let ghost ls = lines_of(text@);
    let ghost start = history_lines_view(out@);
    let mut j: usize = 0;
    while j < lines.len()
        invariant
            ls == lines_of(text@),
            lines@.len() == ls.len(),
            forall|q: int| 0 <= q < lines@.len() ==> #[trigger] lines@[q]@ == ls[q],
            j <= ls.len(),
            history_lines_view(out@) == start + body_lines(ls.take(j as int), style, right),
        decreases ls.len() - j,
    {
        let line = HistoryLine { text: lines[j].clone(), style, right_aligned: right };
        proof {
            lemma_view_push(out@, line);
            assert(body_lines(ls.take(j + 1), style, right) =~= body_lines(
                ls.take(j as int),
                style,
                right,
            ).push(line@));
        }
        out.push(line);
        j += 1;
    }
    proof {
        assert(ls.take(ls.len() as int) =~= ls);
    }
}

/// The lines of the history pane for animation frame `tick`.
pub fn build_history_lines(app: &App, tick: u8) -> (lines: Vec<HistoryLine>)
    ensures
        history_lines_view(lines@) == history_lines(*app, tick),
{
    broadcast use vstd::string::group_string_axioms;

    let mut out: Vec<HistoryLine> = Vec::new();
    let ghost ms = app.messages@;
    let mut i: usize = 0;
    proof {
        assert(history_lines_view(out@) =~= transcript_lines(ms.take(0)));
    }
    while i < app.messages.len()
        invariant
            ms == app.messages@,
            i <= ms.len(),
            history_lines_view(out@) == transcript_lines(ms.take(i as int)),
        decreases ms.len() - i,
    {
        let ghost before = history_lines_view(out@);
        let role = app.messages[i].0;
        let text = &app.messages[i].1;
        match role {
            Role::User => {
                let hdr = HistoryLine {
                    text: "You".to_owned(),
                    style: LineStyle::UserHeader,
                    right_aligned: true,
                };
                proof {
                    lemma_view_push(out@, hdr);
                }
                out.push(hdr);
                push_body_lines(&mut out, text, LineStyle::User, true);
            },
            Role::Assistant => {
                let hdr = HistoryLine {
                    text: "Model".to_owned(),
                    style: LineStyle::ModelHeader,
                    right_aligned: false,
                };
                proof {
                    lemma_view_push(out@, hdr);
                }
                out.push(hdr);
                push_body_lines(&mut out, text, LineStyle::Model, false);
            },
            Role::System => {},
        }
        let sep = HistoryLine { text: String::new(), style: LineStyle::Plain, right_aligned: false };
        proof {
            lemma_view_push(out@, sep);
            assert(ms.take(i + 1).drop_last() =~= ms.take(i as int));
            assert(history_lines_view(out@.push(sep)) =~= transcript_lines(ms.take(i + 1)));
        }
        out.push(sep);
        i += 1;
    }
    proof {
        assert(ms.take(ms.len() as int) =~= ms);
    }
    if app.loading {
        let hdr = HistoryLine {
            text: "Model".to_owned(),
            style: LineStyle::ModelHeader,
            right_aligned: false,
        };
        proof {
            lemma_view_push(out@, hdr);
        }
        out.push(hdr);
        let mut thinking = String::new();
        let frame = spinner_frame(tick);
        proof {
            assert(encode_utf8(thinking@) =~= Seq::<u8>::empty());
            crate::text::lemma_char_width_range(frame);
        }
        string_push(&mut thinking, frame);
        thinking.append(" Thinking...");
        let line = HistoryLine { text: thinking, style: LineStyle::Thinking, right_aligned: false };
        proof {
            lemma_view_push(out@, line);
        }
        out.push(line);
        proof {
            assert(history_lines_view(out@) =~= history_lines(*app, tick));
        }
    } else {
        proof {
            assert(history_lines_view(out@) =~= history_lines(*app, tick));
        }
    }
    out
}

} // verus!
