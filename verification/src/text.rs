//! Text primitives shared by the editor and the chat layout: the UTF-8 byte
//! geometry of a `String`, line splitting and blank detection.
use vstd::prelude::*;
use vstd::utf8::*;
use vstd::std_specs::iter::IteratorSpec;

verus! {

/// Number of bytes that the first `k` characters of `s` occupy in UTF-8.
pub open spec fn prefix_bytes(s: Seq<char>, k: int) -> int {
    encode_utf8(s.take(k)).len() as int
}

/// Number of bytes of the UTF-8 encoding of `c`.
pub open spec fn char_width(c: char) -> int {
    encode_scalar(c as u32).len() as int
}

/// `byte` is the offset at which some character of `s` starts, or the end of `s`.
pub open spec fn is_boundary(s: Seq<char>, byte: int) -> bool {
    exists|k: int| 0 <= k <= s.len() && #[trigger] prefix_bytes(s, k) == byte
}

/// The character index that lies at byte offset `byte` of `s` (meaningful when
/// `is_boundary(s, byte)`).
pub open spec fn char_index_at(s: Seq<char>, byte: int) -> int {
    choose|k: int| 0 <= k <= s.len() && #[trigger] prefix_bytes(s, k) == byte
}

pub proof fn lemma_char_width_range(c: char)
    ensures
        1 <= char_width(c) <= 4,
{
}

pub proof fn lemma_encode_concat(a: Seq<char>, b: Seq<char>)
    ensures
        encode_utf8(a + b) == encode_utf8(a) + encode_utf8(b),
    decreases a.len(),
{
    if a.len() == 0 {
        assert(a + b =~= b);
        assert(encode_utf8(a) =~= Seq::<u8>::empty());
        assert(encode_utf8(a) + encode_utf8(b) =~= encode_utf8(b));
    } else {
        lemma_encode_concat(a.drop_first(), b);
        assert((a + b).drop_first() =~= a.drop_first() + b);
        assert((a + b)[0] == a[0]);
        assert(encode_utf8(a + b) =~= encode_utf8(a) + encode_utf8(b));
    }
}

pub proof fn lemma_encode_single(c: char)
    ensures
        encode_utf8(seq![c]) == encode_scalar(c as u32),
{
    let s = seq![c];
    assert(s.drop_first() =~= Seq::<char>::empty());
    assert(s[0] == c);
    assert(encode_utf8(s.drop_first()) =~= Seq::<u8>::empty());
    assert(encode_utf8(s) == encode_scalar(s[0] as u32) + encode_utf8(s.drop_first()));
    assert(encode_utf8(s) =~= encode_scalar(c as u32));
}

/// Extending a prefix by one character adds the width of that character.
pub proof fn lemma_prefix_step(s: Seq<char>, k: int)
    requires
        0 <= k < s.len(),
    ensures
        prefix_bytes(s, k + 1) == prefix_bytes(s, k) + char_width(s[k]),
{
    assert(s.take(k + 1) =~= s.take(k) + seq![s[k]]);
    lemma_encode_concat(s.take(k), seq![s[k]]);
    lemma_encode_single(s[k]);
}

/// Byte offsets of prefixes grow strictly with the number of characters.
pub proof fn lemma_prefix_strict(s: Seq<char>, i: int, j: int)
    requires
        0 <= i < j <= s.len(),
    ensures
        prefix_bytes(s, i) + (j - i) <= prefix_bytes(s, j),
    decreases j - i,
{
    lemma_prefix_step(s, j - 1);
    lemma_char_width_range(s[j - 1]);
    if i < j - 1 {
        lemma_prefix_strict(s, i, j - 1);
    }
}

pub proof fn lemma_prefix_zero(s: Seq<char>)
    ensures
        prefix_bytes(s, 0) == 0,
{
    assert(s.take(0) =~= Seq::<char>::empty());
}

pub proof fn lemma_prefix_full(s: Seq<char>)
    ensures
        prefix_bytes(s, s.len() as int) == encode_utf8(s).len(),
{
    assert(s.take(s.len() as int) =~= s);
}

/// The character index at a boundary is the unique one.
pub proof fn lemma_char_index_unique(s: Seq<char>, k: int)
    requires
        0 <= k <= s.len(),
    ensures
        is_boundary(s, prefix_bytes(s, k)),
        char_index_at(s, prefix_bytes(s, k)) == k,
{
    let b = prefix_bytes(s, k);
    assert(is_boundary(s, b));
    let c = char_index_at(s, b);
    if c < k {
        lemma_prefix_strict(s, c, k);
    } else if k < c {
        lemma_prefix_strict(s, k, c);
    }
}

/// vstd's notion of a character boundary on the encoded bytes agrees with
/// the prefix offsets of the character sequence.
pub proof fn lemma_boundary_iff(s: Seq<char>, i: int)
    ensures
        is_char_boundary(encode_utf8(s), i) <==> is_boundary(s, i),
    decreases s.len(),
{
    let bytes = encode_utf8(s);
    broadcast use encode_utf8_valid_utf8;

    assert(valid_utf8(bytes));
    lemma_prefix_full(s);
    if i == 0 {
        lemma_prefix_zero(s);
        assert(prefix_bytes(s, 0) == 0);
    } else if i < 0 || bytes.len() < i {
        if is_boundary(s, i) {
            let k = choose|k: int| 0 <= k <= s.len() && #[trigger] prefix_bytes(s, k) == i;
            lemma_prefix_zero(s);
            if 0 < k {
                lemma_prefix_strict(s, 0, k);
            }
            if k < s.len() {
                lemma_prefix_strict(s, k, s.len() as int);
            }
        }
    } else {
        assert(s.len() > 0);
        let t = s.drop_first();
        encode_utf8_first_scalar(s);
        let w = length_of_first_scalar(bytes);
        assert(w == char_width(s[0]));
        assert(pop_first_scalar(bytes) =~= encode_utf8(t));
        assert(is_char_boundary(bytes, i) == is_char_boundary(encode_utf8(t), i - w));
        lemma_boundary_iff(t, i - w);
        assert forall|k: int| 0 <= k < s.len() implies #[trigger] prefix_bytes(s, k + 1) == w
            + prefix_bytes(t, k) by {
            assert(s.take(k + 1) =~= seq![s[0]] + t.take(k));
            lemma_encode_concat(seq![s[0]], t.take(k));
            lemma_encode_single(s[0]);
        }
        if is_boundary(t, i - w) {
            let k = choose|k: int| 0 <= k <= t.len() && #[trigger] prefix_bytes(t, k) == i - w;
            assert(prefix_bytes(s, k + 1) == i);
        }
        if is_boundary(s, i) {
            let k = choose|k: int| 0 <= k <= s.len() && #[trigger] prefix_bytes(s, k) == i;
            lemma_prefix_zero(s);
            assert(k != 0);
            assert(prefix_bytes(s, (k - 1) + 1) == w + prefix_bytes(t, k - 1));
            assert(prefix_bytes(t, k - 1) == i - w);
        }
    }
}


/// The characters Unicode gives the White_Space property, which is what
/// `char::is_whitespace` tests.
pub open spec fn is_unicode_white_space(c: char) -> bool {
    ||| ('\u{9}' <= c && c <= '\u{d}')
    ||| c == ' '
    ||| c == '\u{85}'
    ||| c == '\u{a0}'
    ||| c == '\u{1680}'
    ||| ('\u{2000}' <= c && c <= '\u{200a}')
    ||| c == '\u{2028}'
    ||| c == '\u{2029}'
    ||| c == '\u{202f}'
    ||| c == '\u{205f}'
    ||| c == '\u{3000}'
}

/// A text is blank when trimming its whitespace leaves nothing.
pub open spec fn is_blank(s: Seq<char>) -> bool {
    forall|i: int| 0 <= i < s.len() ==> is_unicode_white_space(#[trigger] s[i])
}

/// Index of the first `'\n'` in `s`, or `s.len()` when there is none.
pub open spec fn first_newline(s: Seq<char>) -> int
    decreases s.len(),
{
    if s.len() == 0 {
        0
    } else if s[0] == '\n' {
        0
    } else {
        1 + first_newline(s.drop_first())
    }
}

/// A line that was ended by `"\r\n"` loses its `'\r'`.
pub open spec fn strip_cr(line: Seq<char>) -> Seq<char> {
    if line.len() > 0 && line.last() == '\r' {
        line.drop_last()
    } else {
        line
    }
}

/// The lines of a text as `str::lines` yields them: split at `'\n'`, a
/// `'\r'` right before a `'\n'` dropped, no empty line after a final `'\n'`.
pub open spec fn lines_of(s: Seq<char>) -> Seq<Seq<char>>
    decreases s.len(),
{
    if s.len() == 0 {
        seq![]
    } else {
        let i = first_newline(s);
        proof {
            lemma_first_newline(s);
        }
        if i >= s.len() {
            seq![s]
        } else {
            seq![strip_cr(s.take(i))] + lines_of(s.skip(i + 1))
        }
    }
}

pub proof fn lemma_first_newline(s: Seq<char>)
    ensures
        0 <= first_newline(s) <= s.len(),
        first_newline(s) < s.len() ==> s[first_newline(s)] == '\n',
        forall|j: int| 0 <= j < first_newline(s) ==> s[j] != '\n',
    decreases s.len(),
{
    if s.len() > 0 && s[0] != '\n' {
        lemma_first_newline(s.drop_first());
        assert forall|j: int| 0 <= j < first_newline(s) implies s[j] != '\n' by {
            if j > 0 {
                assert(s[j] == s.drop_first()[j - 1]);
            }
        }
    }
}

/// `s` with each `"\r\n"` turned into `'\n'`.
pub open spec fn crlf_to_lf(s: Seq<char>) -> Seq<char>
    decreases s.len(),
{
    if s.len() == 0 {
        seq![]
    } else if s.len() >= 2 && s[0] == '\r' && s[1] == '\n' {
        seq!['\n'] + crlf_to_lf(s.skip(2))
    } else {
        seq![s[0]] + crlf_to_lf(s.drop_first())
    }
}

/// `s` with `"\r\n"` line endings turned into `'\n'`, and a final `'\n'`
/// added to a last line that has none.
pub open spec fn with_lf_endings(s: Seq<char>) -> Seq<char> {
    if s.len() > 0 && s.last() != '\n' {
        crlf_to_lf(s).push('\n')
    } else {
        crlf_to_lf(s)
    }
}

/// Each line followed by `'\n'`, one after the other.
pub open spec fn join_lines(ls: Seq<Seq<char>>) -> Seq<char>
    decreases ls.len(),
{
    if ls.len() == 0 {
        seq![]
    } else {
        ls[0] + seq!['\n'] + join_lines(ls.drop_first())
    }
}

/// No line of `ls` holds a `'\n'`.
pub open spec fn no_line_breaks(ls: Seq<Seq<char>>) -> bool {
    forall|i: int, j: int| 0 <= i < ls.len() && 0 <= j < ls[i].len() ==> #[trigger] ls[i][j] != '\n'
}

proof fn lemma_crlf_no_newline(a: Seq<char>)
    requires
        forall|j: int| 0 <= j < a.len() ==> a[j] != '\n',
    ensures
        crlf_to_lf(a) == a,
    decreases a.len(),
{
    if a.len() > 0 {
        assert(a[0] != '\n');
        if a.len() >= 2 {
            assert(a[1] != '\n');
        }
        let t = a.drop_first();
        assert forall|j: int| 0 <= j < t.len() implies t[j] != '\n' by {
            assert(t[j] == a[j + 1]);
        }
        lemma_crlf_no_newline(t);
        assert(seq![a[0]] + t =~= a);
    }
}

proof fn lemma_crlf_line(a: Seq<char>, r: Seq<char>)
    requires
        forall|j: int| 0 <= j < a.len() ==> a[j] != '\n',
    ensures
        crlf_to_lf(a + seq!['\n'] + r) == strip_cr(a) + seq!['\n'] + crlf_to_lf(r),
    decreases a.len(),
{
    let s = a + seq!['\n'] + r;
    if a.len() == 0 {
        assert(s =~= seq!['\n'] + r);
        assert(s.drop_first() =~= r);
        assert(strip_cr(a) =~= a);
        assert(crlf_to_lf(s) =~= strip_cr(a) + seq!['\n'] + crlf_to_lf(r));
    } else if a.len() == 1 && a[0] == '\r' {
        assert(s[0] == '\r' && s[1] == '\n');
        assert(s.skip(2) =~= r);
        assert(strip_cr(a) =~= Seq::<char>::empty());
        assert(crlf_to_lf(s) =~= strip_cr(a) + seq!['\n'] + crlf_to_lf(r));
    } else {
        let t = a.drop_first();
        assert forall|j: int| 0 <= j < t.len() implies t[j] != '\n' by {
            assert(t[j] == a[j + 1]);
        }
        lemma_crlf_line(t, r);
        assert(s[0] == a[0]);
        if a.len() >= 2 {
            assert(s[1] == a[1]);
            assert(a[1] != '\n');
        } else {
            assert(a[0] != '\r');
        }
        assert(s.drop_first() =~= t + seq!['\n'] + r);
        if a.len() >= 2 {
            assert(strip_cr(a) =~= seq![a[0]] + strip_cr(t));
        } else {
            assert(strip_cr(a) =~= a);
            assert(strip_cr(t) =~= t);
            assert(seq![a[0]] + t =~= a);
        }
        assert(crlf_to_lf(s) =~= strip_cr(a) + seq!['\n'] + crlf_to_lf(r));
    }
}

/// Splitting into lines loses nothing and invents nothing: the lines, each
/// followed by `'\n'`, give back the text (with `"\r\n"` read as `'\n'` and a
/// final line ending added where the text has none), and no line holds a
/// `'\n'`. So every empty line between two line endings is kept.
pub proof fn law_lines_rejoin_text(s: Seq<char>)
    ensures
        join_lines(lines_of(s)) == with_lf_endings(s),
        no_line_breaks(lines_of(s)),
    decreases s.len(),
{
    if s.len() > 0 {
        let i = first_newline(s);
        lemma_first_newline(s);
        if i >= s.len() {
            lemma_crlf_no_newline(s);
            assert(lines_of(s) == seq![s]);
            assert(seq![s].drop_first() =~= Seq::<Seq<char>>::empty());
            assert(join_lines(seq![s].drop_first()) =~= Seq::<char>::empty());
            assert(seq![s][0] == s);
            assert(join_lines(seq![s]) =~= s + seq!['\n']);
            assert(s.last() != '\n');
            assert(with_lf_endings(s) =~= s.push('\n'));
        } else {
            let a = s.take(i);
            let r = s.skip(i + 1);
            law_lines_rejoin_text(r);
            assert(s =~= a + seq!['\n'] + r);
            lemma_crlf_line(a, r);
            let ls = lines_of(s);
            assert(ls == seq![strip_cr(a)] + lines_of(r));
            assert(ls.drop_first() =~= lines_of(r));
            assert(ls[0] == strip_cr(a));
            if r.len() > 0 {
                assert(s.last() == r.last());
            } else {
                assert(s.last() == '\n');
            }
            assert(join_lines(ls) =~= with_lf_endings(s));
            assert forall|p: int, j: int| 0 <= p < ls.len() && 0 <= j < ls[p].len() implies #[trigger] ls[p][j]
                != '\n' by {
                if p == 0 {
                    assert(ls[0][j] == s[j]);
                } else {
                    assert(ls[p] == lines_of(r)[p - 1]);
                }
            }
        }
    } else {
        assert(with_lf_endings(s) =~= Seq::<char>::empty());
    }
}

/// `char::len_utf8`: the number of bytes the UTF-8 encoding of `c` takes.
#[verifier::external_body]
pub(crate) fn char_len_utf8(c: char) -> (n: usize)
    ensures
        n == char_width(c),
{
    c.len_utf8()
}

/// `char::is_whitespace`: whether `c` has the Unicode White_Space property.
#[verifier::external_body]
pub(crate) fn char_is_whitespace(c: char) -> (b: bool)
    ensures
        b == is_unicode_white_space(c),
{
    c.is_whitespace()
}

/// `String::insert`: puts `c` in front of the character that starts at byte
/// offset `idx` (std panics off a boundary, or when the String would pass
/// `isize::MAX` bytes; `requires` leaves both out).
#[verifier::external_body]
pub(crate) fn string_insert(s: &mut String, idx: usize, c: char)
    requires
        is_boundary(old(s)@, idx as int),
        encode_utf8(old(s)@).len() + char_width(c) <= isize::MAX,
    ensures
        final(s)@ == old(s)@.insert(char_index_at(old(s)@, idx as int), c),
{
    s.insert(idx, c);
}

/// `String::drain` of the byte range `start..end`, with the drained part
/// dropped at once: removes the characters between the two boundaries (std
/// panics off a boundary or when `start > end`; `requires` leaves that out).
#[verifier::external_body]
pub(crate) fn string_drain(s: &mut String, start: usize, end: usize)
    requires
        start <= end,
        is_boundary(old(s)@, start as int),
        is_boundary(old(s)@, end as int),
    ensures
        final(s)@ == old(s)@.subrange(0, char_index_at(old(s)@, start as int)) + old(s)@.subrange(
            char_index_at(old(s)@, end as int),
            old(s)@.len() as int,
        ),
{
    s.drain(start..end);
}

/// `String::push`: appends `c` (std panics past `isize::MAX` bytes, which
/// `requires` leaves out).
#[verifier::external_body]
pub(crate) fn string_push(s: &mut String, c: char)
    requires
        encode_utf8(old(s)@).len() + char_width(c) <= isize::MAX,
    ensures
        final(s)@ == old(s)@.push(c),
{
    s.push(c);
}

/// The characters of `s`, in order.
pub fn str_chars(s: &str) -> (v: Vec<char>)
    ensures
        v@ == s@,
{
    broadcast use vstd::string::group_string_axioms;

    let mut v: Vec<char> = Vec::new();
    let mut it = s.chars();
    loop
        invariant
            v@ + it.remaining() == s@,
        ensures
            v@ == s@,
        decreases s@.len() - v@.len(),
    {
        match it.next() {
            Some(c) => {
                v.push(c);
            },
            None => {
                assert(it.remaining().len() == 0);
                assert(v@ + it.remaining() =~= v@);
                break ;
            },
        }
    }
    v
}

/// Whether `s` holds nothing but whitespace, that is whether `s.trim()` is empty.
pub fn is_blank_text(s: &str) -> (b: bool)
    ensures
        b == is_blank(s@),
{
    let chars = str_chars(s);
    let mut i: usize = 0;
    while i < chars.len()
        invariant
            chars@ == s@,
            i <= chars.len(),
            forall|j: int| 0 <= j < i ==> is_unicode_white_space(#[trigger] s@[j]),
        decreases chars.len() - i,
    {
        if !char_is_whitespace(chars[i]) {
            return false;
        }
        i += 1;
    }
    true
}


/// `first_newline` finds the first `'\n'`.
pub proof fn lemma_first_newline_at(t: Seq<char>, m: int)
    requires
        0 <= m <= t.len(),
        forall|j: int| 0 <= j < m ==> t[j] != '\n',
        m == t.len() || t[m] == '\n',
    ensures
        first_newline(t) == m,
    decreases m,
{
    if m > 0 {
        lemma_first_newline_at(t.drop_first(), m - 1);
    }
}

/// Byte offsets inside a suffix are byte offsets of the whole, shifted.
proof fn lemma_prefix_of_skip(s: Seq<char>, i: int, j: int)
    requires
        0 <= i <= j <= s.len(),
    ensures
        prefix_bytes(s.skip(i), j - i) == prefix_bytes(s, j) - prefix_bytes(s, i),
{
    assert(s.take(j) =~= s.take(i) + s.skip(i).take(j - i));
    lemma_encode_concat(s.take(i), s.skip(i).take(j - i));
}

/// The characters of `s` from index `i` up to index `j`, found by their
/// byte offsets `start` and `end`.
fn substring(s: &str, Ghost(i): Ghost<int>, Ghost(j): Ghost<int>, start: usize, end: usize) -> (r:
    String)
    requires
        0 <= i <= j <= s@.len(),
        start == prefix_bytes(s@, i),
        end == prefix_bytes(s@, j),
    ensures
        r@ == s@.subrange(i, j),
{
    broadcast use encode_utf8_decode_utf8;

    let ghost t = s@;
    proof {
        lemma_char_index_unique(t, i);
        lemma_boundary_iff(t, start as int);
        lemma_encode_concat(t.take(i), t.skip(i));
        assert(t.take(i) + t.skip(i) =~= t);
        if i < j {
            lemma_prefix_strict(t, i, j);
        }
    }
    let (_, rest) = s.split_at(start);
    proof {
        assert(encode_utf8(rest@) =~= encode_utf8(t.skip(i)));
        assert(decode_utf8(encode_utf8(rest@)) == decode_utf8(encode_utf8(t.skip(i))));
        let u = rest@;
        lemma_prefix_of_skip(t, i, j);
        lemma_char_index_unique(u, j - i);
        lemma_boundary_iff(u, (end - start) as int);
        lemma_encode_concat(u.take(j - i), u.skip(j - i));
        assert(u.take(j - i) + u.skip(j - i) =~= u);
    }
    let (line, _) = rest.split_at(end - start);
    proof {
        let u = rest@;
        assert(encode_utf8(line@) =~= encode_utf8(u.take(j - i)));
        assert(decode_utf8(encode_utf8(line@)) == decode_utf8(encode_utf8(u.take(j - i))));
        assert(u.take(j - i) =~= t.subrange(i, j));
    }
    line.to_owned()
}

proof fn lemma_string_views_push(v: Seq<String>, x: String)
    ensures
        v.push(x).map_values(|l: String| l@) == v.map_values(|l: String| l@).push(x@),
{
    assert(v.push(x).map_values(|l: String| l@) =~= v.map_values(|l: String| l@).push(x@));
}

/// The lines of `s`, as `str::lines` yields them.
pub fn text_lines(s: &str) -> (v: Vec<String>)
    ensures
        v@.map_values(|l: String| l@) == lines_of(s@),
        join_lines(v@.map_values(|l: String| l@)) == with_lf_endings(s@),
        no_line_breaks(v@.map_values(|l: String| l@)),
{
    proof {
        law_lines_rejoin_text(s@);
    }
    let ghost t = s@;
    let chars = str_chars(s);
    let total = s.as_bytes().len();
    proof {
        lemma_prefix_full(t);
        lemma_prefix_zero(t);
        assert(t.skip(0) =~= t);
    }
    let mut v: Vec<String> = Vec::new();
    let mut i: usize = 0;
    let mut b: usize = 0;
    let mut ls: usize = 0;
    let mut lb: usize = 0;
    while i < chars.len()
        invariant
            chars@ == t,
            t == s@,
            total == encode_utf8(t).len(),
            ls <= i <= t.len(),
            b == prefix_bytes(t, i as int),
            lb == prefix_bytes(t, ls as int),
            forall|j: int| ls <= j < i ==> t[j] != '\n',
            v@.map_values(|l: String| l@) + lines_of(t.skip(ls as int)) == lines_of(t),
        decreases t.len() - i,
    {
        let c = chars[i];
        proof {
            lemma_prefix_step(t, i as int);
            lemma_prefix_full(t);
            if i + 1 < t.len() {
                lemma_prefix_strict(t, i + 1, t.len() as int);
            }
        }
        if c == '\n' {
            let ghost u = t.skip(ls as int);
            proof {
                lemma_first_newline_at(u, i - ls);
                assert(u.skip(i - ls + 1) =~= t.skip(i + 1));
                assert(u.take(i - ls) =~= t.subrange(ls as int, i as int));
            }
            let line = if i > ls && chars[i - 1] == '\r' {
                proof {
                    lemma_prefix_step(t, i - 1);
                    assert(t.subrange(ls as int, i as int).drop_last() =~= t.subrange(
                        ls as int,
                        i - 1,
                    ));
                }
                substring(s, Ghost(ls as int), Ghost(i - 1), lb, b - 1)
            } else {
                substring(s, Ghost(ls as int), Ghost(i as int), lb, b)
            };
            proof {
                assert(line@ == strip_cr(t.subrange(ls as int, i as int)));
                lemma_string_views_push(v@, line);
                assert(lines_of(u) == seq![line@] + lines_of(t.skip(i + 1)));
                assert(v@.push(line).map_values(|l: String| l@) + lines_of(t.skip(i + 1))
                    =~= v@.map_values(|l: String| l@) + lines_of(u));
            }
            v.push(line);
            b = b + char_len_utf8(c);
            i = i + 1;
            ls = i;
            lb = b;
        } else {
            b = b + char_len_utf8(c);
            i = i + 1;
        }
    }
    if ls < chars.len() {
        let ghost u = t.skip(ls as int);
        proof {
            lemma_prefix_full(t);
            lemma_first_newline_at(u, u.len() as int);
            assert(u =~= t.subrange(ls as int, t.len() as int));
        }
        let line = substring(s, Ghost(ls as int), Ghost(t.len() as int), lb, total);
        proof {
            lemma_string_views_push(v@, line);
            assert(lines_of(u) == seq![line@]);
        }
        v.push(line);
        proof {
            assert(v@.map_values(|l: String| l@) =~= lines_of(t));
        }
    } else {
        proof {
            assert(t.skip(ls as int) =~= Seq::<char>::empty());
            assert(v@.map_values(|l: String| l@) =~= lines_of(t));
        }
    }
    v
}

} // verus!
