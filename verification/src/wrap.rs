//! Laying text out in columns: widths, wrapping, truncation, and where the cursor stands in
//! wrapped text.

use crate::escapes::{decode_escapes, decoded, unit_len, unit_value};
use crate::text::{control, from_chars, is_control, split, split_pieces, texts, to_chars};
use unicode_width::{UnicodeWidthChar, UnicodeWidthStr};
use vstd::prelude::*;
use vstd::slice::slice_subrange;

verus! {

// ------------------------------------------------------------ widths

/// What `UnicodeWidthChar::width` gives for a character.
pub uninterp spec fn char_columns(c: char) -> Option<usize>;

/// `UnicodeWidthChar::width` gives the number of columns that a character takes on the screen,
/// from a table: nothing for control characters, at most three for others, and one for printable
/// ASCII characters.
#[verifier::external_body]
fn char_columns_of(c: char) -> (r: Option<usize>)
    ensures
        r == char_columns(c),
        r is None <==> control(c),
        r matches Some(n) ==> n <= 3,
        0x20 <= c as int <= 0x7e ==> r == Some(1usize),
{
    UnicodeWidthChar::width(c)
}

/// What `UnicodeWidthStr::width` gives for a text.
pub uninterp spec fn text_columns(s: Seq<char>) -> usize;

/// `UnicodeWidthStr::width` gives the number of columns that a text takes on the screen. It
/// knows sequences of characters that are shown as one, so it is not the sum over the
/// characters.
#[verifier::external_body]
pub(crate) fn text_columns_of(s: &str) -> (n: usize)
    ensures
        n == text_columns(s@),
{
    UnicodeWidthStr::width(s)
}

/// The columns that the character `c` takes; none for a control character.
pub open spec fn columns(c: char) -> nat {
    match char_columns(c) {
        Some(n) => n as nat,
        None => 0,
    }
}

/// Gives the columns that the character `c` takes.
pub fn columns_of(c: char) -> (n: usize)
    ensures
        n == columns(c),
        n <= 3,
        control(c) ==> n == 0,
        0x20 <= c as int <= 0x7e ==> n == 1,
{
    match char_columns_of(c) {
        Some(n) => n,
        None => 0,
    }
}

/// The columns that the characters of `row` take together.
pub open spec fn row_width(row: Seq<char>) -> nat
    decreases row.len(),
{
    if row.len() == 0 {
        0
    } else {
        row_width(row.drop_last()) + columns(row.last())
    }
}

// ------------------------------------------------------------ wrapping

/// The rows so far, and then `c`: on the last row where it fits into `width` columns, otherwise
/// on a row of its own.
pub open spec fn with_char(before: Seq<Seq<char>>, c: char, width: int) -> Seq<Seq<char>> {
    if row_width(before.last()) + columns(c) > width {
        before.push(seq![c])
    } else {
        before.drop_last().push(before.last().push(c))
    }
}

/// `s` in rows of at most `width` columns, without regard to line breaks in it.
pub open spec fn wrapped(s: Seq<char>, width: int) -> Seq<Seq<char>>
    decreases s.len(),
{
    if s.len() == 0 {
        seq![Seq::empty()]
    } else {
        with_char(wrapped(s.drop_last(), width), s.last(), width)
    }
}

/// `s` in rows of at most `width` columns; a line break starts a new row.
pub open spec fn rows(s: Seq<char>, width: int) -> Seq<Seq<char>>
    decreases s.len(),
{
    if s.len() == 0 {
        seq![Seq::empty()]
    } else if s.last() == '\n' {
        rows(s.drop_last(), width).push(Seq::empty())
    } else {
        with_char(rows(s.drop_last(), width), s.last(), width)
    }
}

/// At least one column.
pub open spec fn at_least_one(width: int) -> int {
    if width < 1 {
        1
    } else {
        width
    }
}

/// There is always at least one row.
pub proof fn rows_nonempty(s: Seq<char>, width: int)
    ensures
        rows(s, width).len() >= 1,
        wrapped(s, width).len() >= 1,
    decreases s.len(),
{
    if s.len() > 0 {
        rows_nonempty(s.drop_last(), width);
    }
}

/// Wraps `text` hard, character by character, into rows of at most `width` columns.
pub fn wrap_by_width(text: &str, width: usize) -> (lines: Vec<String>)
    ensures
        texts(lines@) == wrapped(text@, at_least_one(width as int)),
{
    let width: usize = if width < 1 {
        1
    } else {
        width
    };
    let chars = to_chars(text);
    let n: usize = chars.len();
    let mut lines: Vec<String> = Vec::new();
    let mut cur = String::new();
    let mut cur_w: usize = 0;
    let mut i: usize = 0;
    assert(chars@.take(0).len() == 0);
    assert(texts(lines@).push(cur@) == seq![Seq::<char>::empty()]);
    while i < n
        invariant
            i <= n == chars@.len(),
            texts(lines@).push(cur@) == wrapped(chars@.take(i as int), width as int),
            cur_w == row_width(cur@),
        decreases n - i,
    {
        let c = chars[i];
        let cw: usize = columns_of(c);
        let ghost before = texts(lines@);
        let ghost row = cur@;
        assert(chars@.take(i + 1).drop_last() == chars@.take(i as int));
        assert(before.push(row).drop_last() == before);
        if cw > width || cur_w > width - cw {
            lines.push(cur);
            cur = String::new();
            cur_w = 0;
            assert(texts(lines@) == before.push(row));
        }
        let ghost start = cur@;
        assert(cur_w == row_width(start));
        cur.push(c);
        assert(cur@.drop_last() == start);
        cur_w = cur_w + cw;
        assert(row_width(row) + columns(c) > width ==> cur@ == seq![c]);
        i += 1;
    }
    assert(chars@.take(i as int) == chars@);
    let ghost before = texts(lines@);
    lines.push(cur);
    assert(texts(lines@) == before.push(cur@));
    lines
}

/// The text that an input shows: with its escapes decoded, or as it is.
pub open spec fn source(text: Seq<char>, decode: bool) -> Seq<char> {
    if decode {
        decoded(text)
    } else {
        text
    }
}

fn source_of(text: &str, decode: bool) -> (r: String)
    ensures
        r@ == source(text@, decode),
{
    if decode {
        decode_escapes(text)
    } else {
        text.to_owned()
    }
}

/// The rows of an input: line breaks start new rows, and with `decode` the escapes are decoded
/// first, so that a typed `\n` starts a new row too.
pub fn wrap_input(text: &str, width: usize, decode: bool) -> (lines: Vec<String>)
    ensures
        texts(lines@) == rows(source(text@, decode), at_least_one(width as int)),
        lines@.len() >= 1,
{
    let width: usize = if width < 1 {
        1
    } else {
        width
    };
    let shown = source_of(text, decode);
    let chars = to_chars(shown.as_str());
    let n: usize = chars.len();
    let mut lines: Vec<String> = Vec::new();
    let mut cur = String::new();
    let mut cur_w: usize = 0;
    let mut i: usize = 0;
    assert(chars@.take(0).len() == 0);
    assert(texts(lines@).push(cur@) == seq![Seq::<char>::empty()]);
    while i < n
        invariant
            i <= n == chars@.len(),
            texts(lines@).push(cur@) == rows(chars@.take(i as int), width as int),
            cur_w == row_width(cur@),
        decreases n - i,
    {
        let c = chars[i];
        let ghost before = texts(lines@);
        let ghost row = cur@;
        assert(chars@.take(i + 1).drop_last() == chars@.take(i as int));
        assert(before.push(row).drop_last() == before);
        if c == '\n' {
            lines.push(cur);
            cur = String::new();
            cur_w = 0;
            assert(texts(lines@) == before.push(row));
        } else {
            let cw: usize = columns_of(c);
            if cw > width || cur_w > width - cw {
                lines.push(cur);
                cur = String::new();
                cur_w = 0;
                assert(texts(lines@) == before.push(row));
            }
            let ghost start = cur@;
            assert(cur_w == row_width(start));
            cur.push(c);
            assert(cur@.drop_last() == start);
            cur_w = cur_w + cw;
            assert(row_width(row) + columns(c) > width ==> cur@ == seq![c]);
        }
        i += 1;
    }
    assert(chars@.take(i as int) == chars@);
    let ghost before = texts(lines@);
    lines.push(cur);
    assert(texts(lines@) == before.push(cur@));
    lines
}

// ------------------------------------------------------------ laws of wrapping

/// The texts of `parts` one after another.
pub open spec fn joined(parts: Seq<Seq<char>>) -> Seq<char>
    decreases parts.len(),
{
    if parts.len() == 0 {
        Seq::empty()
    } else {
        joined(parts.drop_last()) + parts.last()
    }
}

/// `s` without its line breaks.
pub open spec fn unbroken(s: Seq<char>) -> Seq<char>
    decreases s.len(),
{
    if s.len() == 0 {
        s
    } else if s.last() == '\n' {
        unbroken(s.drop_last())
    } else {
        unbroken(s.drop_last()).push(s.last())
    }
}

proof fn joined_last(parts: Seq<Seq<char>>, c: char)
    requires
        parts.len() > 0,
    ensures
        joined(parts.drop_last().push(parts.last().push(c))) == joined(parts).push(c),
{
    let now = parts.drop_last().push(parts.last().push(c));
    assert(now.drop_last() == parts.drop_last());
    assert(joined(now) == joined(parts).push(c));
}

proof fn joined_push(parts: Seq<Seq<char>>, p: Seq<char>)
    ensures
        joined(parts.push(p)) == joined(parts) + p,
{
    assert(parts.push(p).drop_last() == parts);
}

/// Wrapping loses nothing: the rows hold the text, in order, without its line breaks.
pub proof fn rows_hold_text(s: Seq<char>, width: int)
    ensures
        joined(rows(s, width)) == unbroken(s),
    decreases s.len(),
{
    if s.len() == 0 {
        let one = seq![Seq::<char>::empty()];
        assert(one.drop_last().len() == 0);
        assert(joined(one.drop_last()) == Seq::<char>::empty());
        assert(joined(one) == Seq::<char>::empty());
        assert(unbroken(s) == Seq::<char>::empty());
    } else {
        let before = rows(s.drop_last(), width);
        rows_hold_text(s.drop_last(), width);
        rows_nonempty(s.drop_last(), width);
        if s.last() == '\n' {
            joined_push(before, Seq::empty());
            assert(joined(rows(s, width)) == unbroken(s));
        } else {
            joined_last(before, s.last());
            joined_push(before, seq![s.last()]);
            assert(joined(rows(s, width)) == unbroken(s));
        }
    }
}

/// Every row fits into the width, unless it is a single character that is wider.
pub proof fn rows_fit(s: Seq<char>, width: int)
    requires
        width >= 0,
    ensures
        forall|i: int|
            0 <= i < rows(s, width).len() ==> row_width(#[trigger] rows(s, width)[i]) <= width
                || rows(s, width)[i].len() == 1,
    decreases s.len(),
{
    if s.len() > 0 {
        let before = rows(s.drop_last(), width);
        let now = rows(s, width);
        rows_fit(s.drop_last(), width);
        rows_nonempty(s.drop_last(), width);
        assert forall|i: int| 0 <= i < now.len() implies row_width(#[trigger] now[i]) <= width
            || now[i].len() == 1 by {
            if i < now.len() - 1 {
                assert(now[i] == before[i]);
            } else if s.last() == '\n' {
                assert(now[i].len() == 0);
            } else if row_width(before.last()) + columns(s.last()) > width {
                assert(now[i].len() == 1);
            } else {
                assert(now[i].drop_last() == before.last());
            }
        }
    }
}

/// The rows of a text are the rows of its lines, one after the other.
pub proof fn rows_by_lines(s: Seq<char>, width: int)
    ensures
        rows(s, width) == split(s, '\n').map_values(|l: Seq<char>| wrapped(l, width)).flatten(),
    decreases s.len(),
{
    let f = |l: Seq<char>| wrapped(l, width);
    let lines = split(s, '\n').map_values(f);
    split_pieces(s, '\n');
    if s.len() == 0 {
        assert(lines == seq![seq![Seq::<char>::empty()]]);
        lines.lemma_flatten_one_element();
    } else {
        let front = s.drop_last();
        rows_by_lines(front, width);
        split_pieces(front, '\n');
        let before = split(front, '\n').map_values(f);
        let all = before.drop_last().flatten();
        assert(before == before.drop_last().push(before.last()));
        flatten_push(before.drop_last(), before.last());
        rows_nonempty(front, width);
        rows_nonempty(split(front, '\n').last(), width);
        assert(rows(front, width) == all + before.last());
        if s.last() == '\n' {
            assert(lines == before.push(seq![Seq::<char>::empty()]));
            flatten_push(before, seq![Seq::<char>::empty()]);
            assert(rows(s, width) == lines.flatten());
        } else {
            let last = split(front, '\n').last();
            let grown = last.push(s.last());
            assert(grown.drop_last() == last);
            assert(split(s, '\n') == split(front, '\n').drop_last().push(grown));
            assert(lines == before.drop_last().push(wrapped(grown, width)));
            flatten_push(before.drop_last(), wrapped(grown, width));
            let r = rows(front, width);
            assert(r.last() == before.last().last());
            if row_width(r.last()) + columns(s.last()) > width {
                assert(all + before.last().push(seq![s.last()]) == r.push(seq![s.last()]));
            } else {
                assert(all + before.last().drop_last().push(before.last().last().push(s.last()))
                    == r.drop_last().push(r.last().push(s.last())));
            }
        }
    }
}

proof fn flatten_push<A>(x: Seq<Seq<A>>, y: Seq<A>)
    ensures
        x.push(y).flatten() == x.flatten() + y,
    decreases x.len(),
{
    if x.len() == 0 {
        assert(x.push(y) == seq![y]);
        x.push(y).lemma_flatten_one_element();
        assert(x.flatten() + y == y);
    } else {
        let rest = x.drop_first();
        assert(x.push(y).drop_first() == rest.push(y));
        flatten_push(rest, y);
        assert(x.push(y).first() == x.first());
        assert(x.first() + (rest.flatten() + y) == (x.first() + rest.flatten()) + y);
    }
}

// ------------------------------------------------------------ the cursor in wrapped text

/// The row and the column behind the last character of `s`.
pub open spec fn place_after(s: Seq<char>, width: int) -> (int, int) {
    let r = rows(s, width);
    (r.len() - 1, row_width(r.last()) as int)
}

/// The row and the column at which the cursor stands that is before the character at `cursor`,
/// or behind the last one: where that character is, or, on a line break, behind the text of its
/// row.
pub open spec fn cursor_place(s: Seq<char>, cursor: int, width: int) -> (int, int) {
    if cursor >= s.len() {
        place_after(s, width)
    } else {
        let at = place_after(s.take(cursor), width);
        if s[cursor] != '\n' && at.1 + columns(s[cursor]) > width {
            (at.0 + 1, 0)
        } else {
            at
        }
    }
}

proof fn place_start(s: Seq<char>, width: int)
    ensures
        place_after(s.take(0), width) == (0int, 0int),
{
    assert(s.take(0).len() == 0);
    assert(rows(s.take(0), width) == seq![Seq::<char>::empty()]);
    assert(row_width(Seq::<char>::empty()) == 0);
}

proof fn place_step(s: Seq<char>, i: int, width: int)
    requires
        0 <= i < s.len(),
    ensures
        ({
            let at = place_after(s.take(i), width);
            place_after(s.take(i + 1), width) == if s[i] == '\n' {
                (at.0 + 1, 0int)
            } else if at.1 + columns(s[i]) > width {
                (at.0 + 1, columns(s[i]) as int)
            } else {
                (at.0, at.1 + columns(s[i]))
            }
        }),
{
    let now = s.take(i + 1);
    let c = s[i];
    assert(now.drop_last() == s.take(i));
    assert(now.last() == c);
    rows_nonempty(s.take(i), width);
    let before = rows(s.take(i), width);
    assert(row_width(Seq::<char>::empty()) == 0);
    assert(seq![c].drop_last() == Seq::<char>::empty());
    assert(row_width(seq![c]) == columns(c));
    let grown = before.last().push(c);
    assert(grown.drop_last() == before.last());
    assert(row_width(grown) == row_width(before.last()) + columns(c));
}

proof fn place_grows(s: Seq<char>, i: int, j: int, width: int)
    requires
        0 <= i <= j <= s.len(),
    ensures
        0 <= place_after(s.take(i), width).0 <= place_after(s.take(j), width).0 <= j,
        place_after(s.take(i), width).1 >= 0,
    decreases j - i, i,
{
    if i == j {
        if i == 0 {
            place_start(s, width);
        } else {
            place_grows(s, i - 1, i - 1, width);
            place_step(s, i - 1, width);
        }
    } else {
        place_grows(s, i, j - 1, width);
        place_step(s, j - 1, width);
    }
}

/// The cursor always stands on one of the rows.
pub proof fn cursor_on_a_row(s: Seq<char>, cursor: int, width: int)
    requires
        0 <= cursor,
    ensures
        0 <= cursor_place(s, cursor, width).0 < rows(s, width).len(),
        cursor_place(s, cursor, width).1 >= 0,
{
    assert(s.take(s.len() as int) == s);
    if cursor < s.len() {
        place_step(s, cursor, width);
        place_grows(s, cursor, cursor, width);
        place_grows(s, cursor + 1, s.len() as int, width);
    } else {
        rows_nonempty(s, width);
    }
}

/// Finds the row and the column of the cursor in wrapped text; a line break starts a new row.
pub fn cursor_line_col(text: &str, cursor: usize, width: usize) -> (r: (usize, usize))
    ensures
        (r.0 as int, r.1 as int) == cursor_place(
            text@,
            cursor as int,
            at_least_one(width as int),
        ),
        r.1 <= 3 || r.1 <= width,
{
    let w: usize = if width < 1 {
        1
    } else {
        width
    };
    let chars = to_chars(text);
    let n: usize = chars.len();
    let mut line: usize = 0;
    let mut col: usize = 0;
    let mut i: usize = 0;
    proof {
        place_start(chars@, w as int);
    }
    while i < n
        invariant
            i <= n == chars@.len(),
            chars@ == text@,
            i <= cursor,
            line <= i,
            (line as int, col as int) == place_after(chars@.take(i as int), w as int),
            col <= 3 || col <= width,
            w == at_least_one(width as int),
        decreases n - i,
    {
        let c = chars[i];
        proof {
            place_step(chars@, i as int, w as int);
        }
        if c == '\n' {
            if i == cursor {
                return (line, col);
            }
            line += 1;
            col = 0;
        } else {
            let cw: usize = columns_of(c);
            if cw > w || col > w - cw {
                line += 1;
                col = 0;
            }
            if i == cursor {
                return (line, col);
            }
            col += cw;
        }
        i += 1;
    }
    assert(chars@.take(i as int) == chars@);
    (line, col)
}

/// How many characters of the shown text stand before the cursor of the input.
pub open spec fn shown_cursor(text: Seq<char>, cursor: int, decode: bool) -> int {
    let before = if cursor <= text.len() {
        text.take(cursor)
    } else {
        text
    };
    source(before, decode).len() as int
}

fn shown_cursor_of(text: &str, cursor: usize, decode: bool) -> (n: usize)
    ensures
        n == shown_cursor(text@, cursor as int, decode),
{
    let chars = to_chars(text);
    let end: usize = if cursor <= chars.len() {
        cursor
    } else {
        chars.len()
    };
    let prefix = from_chars(slice_subrange(chars.as_slice(), 0, end));
    assert(prefix@ == chars@.take(end as int));
    assert(chars@.take(chars@.len() as int) == chars@);
    let shown = source_of(prefix.as_str(), decode);
    to_chars(shown.as_str()).len()
}

/// Finds the row and the column of the cursor of an input; with `decode` the escapes of the
/// input are decoded, as they are in its rows.
pub fn input_cursor_line_col(text: &str, cursor: usize, width: usize, decode: bool) -> (r: (
    usize,
    usize,
))
    ensures
        (r.0 as int, r.1 as int) == cursor_place(
            source(text@, decode),
            shown_cursor(text@, cursor as int, decode),
            at_least_one(width as int),
        ),
        r.1 <= 3 || r.1 <= width,
{
    let shown = source_of(text, decode);
    let at: usize = shown_cursor_of(text, cursor, decode);
    cursor_line_col(shown.as_str(), at, width)
}

// ------------------------------------------------------------ moving the cursor by rows

/// The last cursor position up to `p` that stands on `row`, not behind column `col`.
pub open spec fn last_fitting(s: Seq<char>, width: int, row: int, col: int, p: int) -> Option<int>
    decreases p + 1,
{
    if p < 0 {
        None
    } else if cursor_place(s, p, width).0 == row && cursor_place(s, p, width).1 <= col {
        Some(p)
    } else {
        last_fitting(s, width, row, col, p - 1)
    }
}

/// The first cursor position up to `p` that stands on `row`.
pub open spec fn first_on_row(s: Seq<char>, width: int, row: int, p: int) -> Option<int>
    decreases p + 1,
{
    if p < 0 {
        None
    } else {
        match first_on_row(s, width, row, p - 1) {
            Some(q) => Some(q),
            None => if cursor_place(s, p, width).0 == row {
                Some(p)
            } else {
                None
            },
        }
    }
}

/// The first position up to `p` before which the text ends on `row`.
pub open spec fn first_ending_on(s: Seq<char>, width: int, row: int, p: int) -> Option<int>
    decreases p + 1,
{
    if p < 0 {
        None
    } else {
        match first_ending_on(s, width, row, p - 1) {
            Some(q) => Some(q),
            None => if place_after(s.take(p), width).0 == row {
                Some(p)
            } else {
                None
            },
        }
    }
}

/// The cursor position on `row` that is closest to column `col` and not behind it; the start of
/// the row where every position on it is behind. A row without a cursor position, which only a
/// character wider than the row leaves behind, is taken at its end.
pub open spec fn position_at(s: Seq<char>, width: int, row: int, col: int) -> int {
    let n = s.len() as int;
    match last_fitting(s, width, row, col, n) {
        Some(p) => p,
        None => match first_on_row(s, width, row, n) {
            Some(p) => p,
            None => match first_ending_on(s, width, row, n) {
                Some(p) => p,
                None => 0,
            },
        },
    }
}

/// Where the characters that the unit at the start of `q` stands for come from.
pub open spec fn unit_origins(q: Seq<char>, base: int) -> Seq<int> {
    if unit_value(q).len() == 2 {
        seq![base, base + 1]
    } else {
        seq![base]
    }
}

/// For each character of the decoded text, the position in the query that it comes from; the
/// query starts at `base`.
pub open spec fn origins(q: Seq<char>, base: int) -> Seq<int>
    decreases q.len(),
{
    if q.len() == 0 {
        Seq::empty()
    } else {
        unit_origins(q, base) + origins(q.skip(unit_len(q)), base + unit_len(q))
    }
}

/// The position in the input of the character at `p` of the shown text.
pub open spec fn raw_position(text: Seq<char>, decode: bool, p: int) -> int {
    if p >= source(text, decode).len() {
        text.len() as int
    } else if decode {
        origins(text, 0)[p]
    } else {
        p
    }
}

/// The row that is `delta` rows below `row`, within the rows from the first to `last`.
pub open spec fn row_moved(row: int, delta: int, last: int) -> int {
    if row + delta < 0 {
        0
    } else if row + delta > last {
        last
    } else {
        row + delta
    }
}

/// Where the cursor of an input goes when it moves `delta` rows down: to the row, and as close to
/// its old column as the row allows.
pub open spec fn cursor_moved(
    text: Seq<char>,
    cursor: int,
    width: int,
    decode: bool,
    delta: int,
) -> int {
    let shown = source(text, decode);
    let at = cursor_place(shown, shown_cursor(text, cursor, decode), width);
    let row = row_moved(at.0, delta, rows(shown, width).len() - 1);
    raw_position(text, decode, position_at(shown, width, row, at.1))
}

fn position_at_of(text: &str, width: usize, row: usize, col: usize) -> (r: usize)
    requires
        width >= 1,
    ensures
        r == position_at(text@, width as int, row as int, col as int),
        r <= text@.len(),
        forall|i: int|
            0 <= i < text@.len() && 0x20 <= (#[trigger] text@[i]) as int <= 0x7e ==> columns(text@[i])
                == 1,
{
    let chars = to_chars(text);
    let n: usize = chars.len();
    let ghost w = width as int;
    let mut line: usize = 0;
    let mut at: usize = 0;
    let mut best: Option<usize> = None;
    let mut first: Option<usize> = None;
    let mut ending: Option<usize> = None;
    let mut p: usize = 0;
    proof {
        place_start(chars@, w);
    }
    while p < n
        invariant
            p <= n == chars@.len(),
            chars@ == text@,
            w == width,
            line <= p,
            (line as int, at as int) == place_after(chars@.take(p as int), w),
            as_int(best) == last_fitting(text@, w, row as int, col as int, p - 1),
            as_int(first) == first_on_row(text@, w, row as int, p - 1),
            as_int(ending) == first_ending_on(text@, w, row as int, p - 1),
            forall|i: int|
                0 <= i < p && 0x20 <= (#[trigger] text@[i]) as int <= 0x7e ==> columns(text@[i])
                    == 1,
            best matches Some(b) ==> b < p,
            first matches Some(b) ==> b < p,
            ending matches Some(b) ==> b < p,
        decreases n - p,
    {
        let c = chars[p];
        proof {
            place_step(chars@, p as int, w);
        }
        if ending.is_none() && line == row {
            ending = Some(p);
        }
        if c == '\n' {
            note_position(&mut best, &mut first, p, line, at, row, col);
            line += 1;
            at = 0;
        } else {
            let cw: usize = columns_of(c);
            if cw > width || at > width - cw {
                line += 1;
                at = 0;
            }
            note_position(&mut best, &mut first, p, line, at, row, col);
            at += cw;
        }
        p += 1;
    }
    assert(chars@.take(p as int) == chars@);
    if ending.is_none() && line == row {
        ending = Some(p);
    }
    note_position(&mut best, &mut first, p, line, at, row, col);
    match best {
        Some(b) => b,
        None => match first {
            Some(b) => b,
            None => match ending {
                Some(b) => b,
                None => 0,
            },
        },
    }
}

spec fn as_int(p: Option<usize>) -> Option<int> {
    match p {
        Some(q) => Some(q as int),
        None => None,
    }
}

fn note_position(
    best: &mut Option<usize>,
    first: &mut Option<usize>,
    p: usize,
    line: usize,
    at: usize,
    row: usize,
    col: usize,
)
    ensures
        *final(best) == (if line == row && at <= col {
            Some(p)
        } else {
            *old(best)
        }),
        *final(first) == (if line == row && *old(first) is None {
            Some(p)
        } else {
            *old(first)
        }),
{
    if line == row {
        if first.is_none() {
            *first = Some(p);
        }
        if at <= col {
            *best = Some(p);
        }
    }
}

proof fn origins_len(q: Seq<char>, base: int)
    ensures
        origins(q, base).len() == decoded(q).len(),
        forall|k: int|
            0 <= k < origins(q, base).len() ==> base <= #[trigger] origins(q, base)[k] < base
                + q.len(),
    decreases q.len(),
{
    if q.len() > 0 {
        origins_len(q.skip(unit_len(q)), base + unit_len(q));
        let rest = origins(q.skip(unit_len(q)), base + unit_len(q));
        let all = origins(q, base);
        let unit = unit_origins(q, base);
        assert forall|k: int| 0 <= k < all.len() implies base <= #[trigger] all[k] < base
            + q.len() by {
            if k >= unit.len() {
                assert(all[k] == rest[k - unit.len()]);
            }
        }
    }
}

fn origins_of(q: &[char]) -> (r: Vec<usize>)
    ensures
        r@.map_values(|x: usize| x as int) == origins(q@, 0),
{
    let n: usize = q.len();
    let mut out: Vec<usize> = Vec::new();
    let mut i: usize = 0;
    let ghost f = |x: usize| x as int;
    assert(q@.skip(0) == q@);
    assert(out@.map_values(f) + origins(q@, 0) == origins(q@, 0));
    while i < n
        invariant
            i <= n == q@.len(),
            f == (|x: usize| x as int),
            out@.map_values(f) + origins(q@.skip(i as int), i as int) == origins(q@, 0),
        decreases n - i,
    {
        let c = q[i];
        let ghost rest = q@.skip(i as int);
        let ghost before = out@.map_values(f);
        if c != '\\' || i + 1 >= n {
            out.push(i);
            assert(rest.skip(1) == q@.skip(i + 1));
            assert(out@.map_values(f) == before.push(i as int));
            assert(unit_origins(rest, i as int) == seq![i as int]);
            assert(before + (seq![i as int] + origins(q@.skip(i + 1), i + 1)) == out@.map_values(f)
                + origins(q@.skip(i + 1), i + 1));
            i += 1;
        } else {
            let d = q[i + 1];
            assert(rest[1] == d);
            assert(rest.skip(2) == q@.skip(i + 2));
            out.push(i);
            assert(out@.map_values(f) == before.push(i as int));
            if d != 'n' && d != 't' && d != 'r' && d != '\\' {
                out.push(i + 1);
                assert(out@.map_values(f) == before.push(i as int).push(i + 1));
            }
            let ghost unit = unit_origins(rest, i as int);
            assert(out@.map_values(f) == before + unit);
            assert(before + (unit + origins(q@.skip(i + 2), i + 2)) == out@.map_values(f) + origins(
                q@.skip(i + 2),
                i + 2,
            ));
            i += 2;
        }
    }
    assert(out@.map_values(f) + origins(q@.skip(i as int), i as int) == out@.map_values(f));
    out
}

/// Moves the cursor of an input by `delta` rows, keeping its column as far as the row allows.
/// Positions count the characters of the input; rows are those of its shown text.
pub fn move_cursor_vertical(
    text: &str,
    cursor: usize,
    width: usize,
    decode: bool,
    delta: isize,
) -> (r: usize)
    ensures
        r == cursor_moved(
            text@,
            cursor as int,
            at_least_one(width as int),
            decode,
            delta as int,
        ),
        r <= text@.len(),
        cursor <= text@.len() && plain_lines(
            source(text@, decode),
            at_least_one(width as int),
        ) ==> r == raw_position(
            text@,
            decode,
            column_kept(
                source(text@, decode),
                shown_cursor(text@, cursor as int, decode),
                delta as int,
            ),
        ),
{
    let width: usize = if width < 1 {
        1
    } else {
        width
    };
    let raw = to_chars(text);
    let shown = source_of(text, decode);
    let from: usize = shown_cursor_of(text, cursor, decode);
    let (line, col) = cursor_line_col(shown.as_str(), from, width);
    let count: usize = wrap_input(shown.as_str(), width, false).len();
    proof {
        cursor_on_a_row(shown@, from as int, width as int);
        origins_len(raw@, 0);
    }
    let target: usize = if delta >= 0 {
        let sum: usize = line.saturating_add(delta as usize);
        if sum <= count - 1 {
            sum
        } else {
            count - 1
        }
    } else {
        let up: i128 = 0 - (delta as i128);
        if up > line as i128 {
            0
        } else {
            line - (up as usize)
        }
    };
    let at: usize = position_at_of(shown.as_str(), width, target, col);
    proof {
        if cursor <= text@.len() && plain_lines(shown@, width as int) {
            assert(lines_fit(shown@, width as int));
            cursor_keeps_column(text@, cursor as int, width as int, decode, delta as int);
        }
    }
    if at >= to_chars(shown.as_str()).len() {
        return raw.len();
    }
    if decode {
        let from_raw = origins_of(raw.as_slice());
        assert(from_raw@.map_values(|x: usize| x as int)[at as int] == from_raw@[at as int] as int);
        from_raw[at]
    } else {
        at
    }
}

proof fn origins_invert(q: Seq<char>, base: int, k: int)
    requires
        0 <= k < decoded(q).len(),
    ensures
        decoded(q.take(origins(q, base)[k] - base)).len() == k,
    decreases q.len(),
{
    origins_len(q, base);
    let u = unit_len(q);
    let v = unit_value(q);
    let rest = q.skip(u);
    origins_len(rest, base + u);
    let o = origins(q, base)[k] - base;
    if k < v.len() {
        assert(o == k);
        if k == 0 {
            assert(q.take(0).len() == 0);
        } else {
            let one = q.take(1);
            assert(one.skip(1).len() == 0);
            assert(decoded(one.skip(1)).len() == 0);
            assert(decoded(one).len() == 1);
        }
    } else {
        origins_invert(rest, base + u, k - v.len());
        assert(origins(q, base)[k] == origins(rest, base + u)[k - v.len()]);
        let t = q.take(o);
        assert(t.skip(u) == rest.take(o - u));
        assert(unit_len(t) == u);
        assert(unit_value(t) == v);
    }
}

/// The input position of a character of the shown text has as many shown characters before it.
pub proof fn raw_position_inverts(text: Seq<char>, decode: bool, p: int)
    requires
        0 <= p <= source(text, decode).len(),
    ensures
        0 <= raw_position(text, decode, p) <= text.len(),
        shown_cursor(text, raw_position(text, decode, p), decode) == p,
{
    assert(text.take(text.len() as int) == text);
    if decode && p < decoded(text).len() {
        origins_len(text, 0);
        origins_invert(text, 0, p);
    }
}

proof fn rows_have_positions(s: Seq<char>, width: int, n: int, row: int)
    requires
        0 <= n <= s.len(),
        forall|i: int| 0 <= i < s.len() ==> columns(#[trigger] s[i]) <= width,
        0 <= row <= place_after(s.take(n), width).0,
    ensures
        row == place_after(s.take(n), width).0 || exists|p: int|
            0 <= p < n && (#[trigger] cursor_place(s, p, width)).0 == row,
        place_after(s.take(n), width).1 > 0 ==> n > 0 && cursor_place(s, n - 1, width).0
            == place_after(s.take(n), width).0,
    decreases n,
{
    if n == 0 {
        place_start(s, width);
    } else {
        let i = n - 1;
        place_step(s, i, width);
        place_grows(s, i, n, width);
        let line = place_after(s.take(i), width).0;
        assert(columns(s[i]) <= width);
        assert(cursor_place(s, i, width) == cursor_place(s, i, width));
        if row <= line {
            rows_have_positions(s, width, i, row);
        }
        rows_have_positions(s, width, i, line);
    }
}

proof fn first_on_row_found(s: Seq<char>, width: int, row: int, p: int, n: int)
    requires
        0 <= p <= n,
        cursor_place(s, p, width).0 == row,
    ensures
        first_on_row(s, width, row, n) matches Some(q) && 0 <= q <= p && cursor_place(
            s,
            q,
            width,
        ).0 == row,
    decreases n,
{
    if p < n {
        first_on_row_found(s, width, row, p, n - 1);
    } else if first_on_row(s, width, row, n - 1) is Some {
        first_on_row_sound(s, width, row, n - 1);
    }
}

proof fn first_on_row_sound(s: Seq<char>, width: int, row: int, n: int)
    ensures
        first_on_row(s, width, row, n) matches Some(q) ==> 0 <= q <= n && cursor_place(
            s,
            q,
            width,
        ).0 == row,
    decreases n + 1,
{
    if n >= 0 {
        first_on_row_sound(s, width, row, n - 1);
    }
}

proof fn last_fitting_sound(s: Seq<char>, width: int, row: int, col: int, n: int)
    ensures
        last_fitting(s, width, row, col, n) matches Some(q) ==> 0 <= q <= n && cursor_place(
            s,
            q,
            width,
        ).0 == row && cursor_place(s, q, width).1 <= col,
    decreases n + 1,
{
    if n >= 0 {
        last_fitting_sound(s, width, row, col, n - 1);
    }
}

/// Where every character fits into a row, moving the cursor up or down puts it on the row that
/// many rows away, or on the first or last row where there are not so many.
pub proof fn cursor_lands_on_row(
    text: Seq<char>,
    cursor: int,
    width: int,
    decode: bool,
    delta: int,
)
    requires
        0 <= cursor <= text.len(),
        forall|i: int|
            0 <= i < source(text, decode).len() ==> columns(#[trigger] source(text, decode)[i])
                <= width,
    ensures
        ({
            let shown = source(text, decode);
            let at = cursor_place(shown, shown_cursor(text, cursor, decode), width);
            let now = cursor_moved(text, cursor, width, decode, delta);
            cursor_place(shown, shown_cursor(text, now, decode), width).0 == row_moved(
                at.0,
                delta,
                rows(shown, width).len() - 1,
            )
        }),
{
    let shown = source(text, decode);
    let n = shown.len() as int;
    let from = shown_cursor(text, cursor, decode);
    let at = cursor_place(shown, from, width);
    cursor_on_a_row(shown, from, width);
    let row = row_moved(at.0, delta, rows(shown, width).len() - 1);
    assert(shown.take(n) == shown);
    rows_have_positions(shown, width, n, row);
    assert(cursor_place(shown, n, width) == place_after(shown, width));
    let p = if row == place_after(shown, width).0 {
        n
    } else {
        choose|p: int| 0 <= p < n && (#[trigger] cursor_place(shown, p, width)).0 == row
    };
    first_on_row_found(shown, width, row, p, n);
    last_fitting_sound(shown, width, row, at.1, n);
    let q = position_at(shown, width, row, at.1);
    assert(0 <= q <= n && cursor_place(shown, q, width).0 == row);
    raw_position_inverts(text, decode, q);
}

proof fn cursor_advances(s: Seq<char>, i: int, j: int, width: int)
    requires
        0 <= i <= j <= s.len(),
    ensures
        cursor_place(s, i, width).0 <= cursor_place(s, j, width).0,
        cursor_place(s, i, width).0 == cursor_place(s, j, width).0 ==> cursor_place(s, i, width).1
            <= cursor_place(s, j, width).1,
    decreases j - i,
{
    if i < j {
        cursor_advances(s, i, j - 1, width);
        place_step(s, j - 1, width);
        place_grows(s, j - 1, j, width);
        assert(s.take(s.len() as int) == s);
    }
}

proof fn last_fitting_is_last(s: Seq<char>, width: int, row: int, col: int, p: int, n: int)
    requires
        0 <= p <= n,
        cursor_place(s, p, width).0 == row,
        cursor_place(s, p, width).1 <= col,
    ensures
        last_fitting(s, width, row, col, n) matches Some(q) && p <= q <= n,
    decreases n,
{
    if !(cursor_place(s, n, width).0 == row && cursor_place(s, n, width).1 <= col) {
        last_fitting_is_last(s, width, row, col, p, n - 1);
    }
}

/// Whether the cursor position `p` of `s` stands on `row`.
pub open spec fn on_row(s: Seq<char>, width: int, row: int, p: int) -> bool {
    0 <= p <= s.len() && cursor_place(s, p, width).0 == row
}

/// Of a row that has a cursor position, the position found for a column is on the row. Its column
/// is the largest of those that are not behind the one asked for; where all are behind, it is the
/// first position on the row.
pub proof fn position_is_closest(s: Seq<char>, width: int, row: int, col: int)
    requires
        exists|p: int| on_row(s, width, row, p),
    ensures
        ({
            let q = position_at(s, width, row, col);
            &&& on_row(s, width, row, q)
            &&& forall|p: int| #[trigger]
                on_row(s, width, row, p) && cursor_place(s, p, width).1 <= col ==> cursor_place(
                    s,
                    p,
                    width,
                ).1 <= cursor_place(s, q, width).1 <= col
            &&& (forall|p: int| #[trigger]
                on_row(s, width, row, p) ==> cursor_place(s, p, width).1 > col) ==> forall|p: int|
             #[trigger] on_row(s, width, row, p) ==> q <= p
        }),
{
    let n = s.len() as int;
    let q = position_at(s, width, row, col);
    let some = choose|p: int| on_row(s, width, row, p);
    first_on_row_found(s, width, row, some, n);
    first_on_row_sound(s, width, row, n);
    last_fitting_sound(s, width, row, col, n);
    assert(on_row(s, width, row, q));
    assert forall|p: int| #[trigger]
        on_row(s, width, row, p) && cursor_place(s, p, width).1 <= col implies cursor_place(
        s,
        p,
        width,
    ).1 <= cursor_place(s, q, width).1 <= col by {
        last_fitting_is_last(s, width, row, col, p, n);
        cursor_advances(s, p, q, width);
    }
    if forall|p: int| #[trigger]
        on_row(s, width, row, p) ==> cursor_place(s, p, width).1 > col {
        assert forall|p: int| #[trigger] on_row(s, width, row, p) implies q <= p by {
            first_on_row_found(s, width, row, p, n);
        }
    }
}

// ------------------------------------------------------------ lines that fit

/// Where the line at `t` starts in a text of these lines.
pub open spec fn line_start(lines: Seq<Seq<char>>, t: int) -> int
    decreases t,
{
    if t <= 0 {
        0
    } else {
        line_start(lines, t - 1) + lines[t - 1].len() + 1
    }
}

/// Whether the lines of `s` fit into `width` columns, and its characters take one column each.
pub open spec fn lines_fit(s: Seq<char>, width: int) -> bool {
    &&& forall|i: int| 0 <= i < s.len() && #[trigger] s[i] != '\n' ==> columns(s[i]) == 1
    &&& forall|t: int|
        0 <= t < split(s, '\n').len() ==> (#[trigger] split(s, '\n')[t]).len() <= width
}

/// Whether `s` is printable ASCII text whose lines fit into `width` columns.
pub open spec fn plain_lines(s: Seq<char>, width: int) -> bool {
    &&& forall|i: int|
        0 <= i < s.len() && #[trigger] s[i] != '\n' ==> 0x20 <= s[i] as int <= 0x7e
    &&& forall|t: int|
        0 <= t < split(s, '\n').len() ==> (#[trigger] split(s, '\n')[t]).len() <= width
}

proof fn split_prefix(s: Seq<char>, p: int)
    requires
        0 <= p <= s.len(),
    ensures
        ({
            let a = split(s.take(p), '\n');
            let b = split(s, '\n');
            &&& 1 <= a.len() <= b.len()
            &&& forall|t: int| 0 <= t < a.len() - 1 ==> #[trigger] a[t] == b[t]
            &&& a.last().len() <= b[a.len() - 1].len()
        }),
    decreases s.len(),
{
    split_pieces(s.take(p), '\n');
    if p == s.len() {
        assert(s.take(p) == s);
    } else {
        let front = s.drop_last();
        assert(front.take(p) == s.take(p));
        split_pieces(front, '\n');
        split_prefix(front, p);
    }
}

proof fn prefix_fits(s: Seq<char>, p: int, width: int)
    requires
        0 <= p <= s.len(),
        lines_fit(s, width),
    ensures
        lines_fit(s.take(p), width),
{
    split_prefix(s, p);
    let t = s.take(p);
    assert forall|i: int| 0 <= i < t.len() && #[trigger] t[i] != '\n' implies columns(t[i])
        == 1 by {
        assert(t[i] == s[i]);
    }
    assert forall|k: int| 0 <= k < split(t, '\n').len() implies (#[trigger] split(
        t,
        '\n',
    )[k]).len() <= width by {
        assert(split(s, '\n')[k].len() <= width);
    }
}

proof fn row_of_single_columns(r: Seq<char>)
    requires
        forall|i: int| 0 <= i < r.len() ==> columns(#[trigger] r[i]) == 1,
    ensures
        row_width(r) == r.len(),
    decreases r.len(),
{
    if r.len() > 0 {
        assert forall|i: int| 0 <= i < r.drop_last().len() implies columns(
            #[trigger] r.drop_last()[i],
        ) == 1 by {
            assert(r.drop_last()[i] == r[i]);
        }
        row_of_single_columns(r.drop_last());
        assert(columns(r[r.len() - 1]) == 1);
    }
}

proof fn rows_are_lines(s: Seq<char>, width: int)
    requires
        lines_fit(s, width),
    ensures
        rows(s, width) == split(s, '\n'),
        split(s, '\n').len() > 0,
        row_width(split(s, '\n').last()) == split(s, '\n').last().len(),
        forall|t: int, i: int|
            0 <= t < split(s, '\n').len() && 0 <= i < split(s, '\n')[t].len() ==> columns(
                #[trigger] split(s, '\n')[t][i],
            ) == 1,
    decreases s.len(),
{
    let all = split(s, '\n');
    if s.len() == 0 {
        assert(row_width(Seq::<char>::empty()) == 0);
    } else {
        let front = s.drop_last();
        assert(front == s.take(s.len() - 1));
        prefix_fits(s, s.len() - 1, width);
        rows_are_lines(front, width);
        let before = split(front, '\n');
        if s.last() == '\n' {
            assert(row_width(Seq::<char>::empty()) == 0);
        } else {
            let grown = before.last().push(s.last());
            assert(s[s.len() - 1] == s.last());
            assert(columns(s.last()) == 1);
            assert(all == before.drop_last().push(grown));
            assert(all[all.len() - 1] == grown);
            assert(grown.len() <= width);
            assert forall|i: int| 0 <= i < grown.len() implies columns(#[trigger] grown[i]) == 1 by {
                if i < before.last().len() {
                    assert(grown[i] == before[before.len() - 1][i]);
                }
            }
            row_of_single_columns(grown);
            assert(grown.drop_last() == before.last());
        }
        assert forall|t: int, i: int| 0 <= t < all.len() && 0 <= i < all[t].len() implies columns(
            #[trigger] all[t][i],
        ) == 1 by {
            if t < before.len() - 1 {
                assert(all[t] == before[t]);
                assert(columns(before[t][i]) == 1);
            } else if s.last() == '\n' && t == before.len() - 1 {
                assert(all[t] == before[t]);
                assert(columns(before[t][i]) == 1);
            }
        }
    }
}

proof fn line_start_same(a: Seq<Seq<char>>, b: Seq<Seq<char>>, t: int)
    requires
        t <= a.len(),
        t <= b.len(),
        forall|k: int| 0 <= k < t ==> #[trigger] a[k] == b[k],
    ensures
        line_start(a, t) == line_start(b, t),
    decreases t,
{
    if t > 0 {
        line_start_same(a, b, t - 1);
        assert(a[t - 1] == b[t - 1]);
    }
}

proof fn line_start_of_last(s: Seq<char>)
    ensures
        split(s, '\n').len() > 0,
        s.len() == line_start(split(s, '\n'), split(s, '\n').len() - 1) + split(
            s,
            '\n',
        ).last().len(),
    decreases s.len(),
{
    split_pieces(s, '\n');
    if s.len() > 0 {
        let front = s.drop_last();
        line_start_of_last(front);
        let before = split(front, '\n');
        let all = split(s, '\n');
        line_start_same(before, all, before.len() - 1);
        if s.last() == '\n' {
            assert(all[before.len() - 1] == before.last());
        }
    }
}

proof fn line_start_grows(ls: Seq<Seq<char>>, t: int, u: int)
    requires
        0 <= t < u <= ls.len(),
    ensures
        line_start(ls, t) + ls[t].len() < line_start(ls, u),
    decreases u - t,
{
    if t + 1 < u {
        line_start_grows(ls, t, u - 1);
    }
}

proof fn place_in_lines(s: Seq<char>, p: int, width: int)
    requires
        0 <= p <= s.len(),
        lines_fit(s, width),
    ensures
        ({
            let ls = split(s, '\n');
            let at = cursor_place(s, p, width);
            &&& 0 <= at.0 < ls.len()
            &&& p == line_start(ls, at.0) + at.1
            &&& 0 <= at.1 <= ls[at.0].len()
            &&& at.0 == split(s.take(p), '\n').len() - 1
            &&& at.1 == split(s.take(p), '\n').last().len()
        }),
{
    let t = s.take(p);
    let a = split(t, '\n');
    let b = split(s, '\n');
    split_prefix(s, p);
    prefix_fits(s, p, width);
    rows_are_lines(t, width);
    line_start_of_last(t);
    line_start_same(a, b, a.len() - 1);
    assert(place_after(t, width) == (a.len() - 1, a.last().len() as int));
    if p < s.len() {
        if s[p] != '\n' {
            let next = s.take(p + 1);
            assert(next.drop_last() == t);
            prefix_fits(s, p + 1, width);
            let c = split(next, '\n');
            assert(c == a.drop_last().push(a.last().push(s[p])));
            assert(c[c.len() - 1].len() <= width);
            assert(columns(s[p]) == 1);
        }
    } else {
        assert(t == s);
    }
    assert(cursor_place(s, p, width) == place_after(t, width));
}

/// Where the cursor at `p` of a text goes that moves `delta` lines down: to the same column of the
/// line, or behind the line where it is shorter. It stays on the first line, or the last one, where
/// there are not so many lines.
pub open spec fn column_kept(s: Seq<char>, p: int, delta: int) -> int {
    let all = split(s, '\n');
    let before = split(s.take(p), '\n');
    let t = row_moved(before.len() - 1, delta, all.len() - 1);
    line_start(all, t) + if before.last().len() <= all[t].len() {
        before.last().len() as int
    } else {
        all[t].len() as int
    }
}

/// Where lines fit their width, moving the cursor up or down keeps its column, as far as the line
/// that it comes to is long enough. Moving by no line leaves the cursor where it is shown.
pub proof fn cursor_keeps_column(text: Seq<char>, cursor: int, width: int, decode: bool, delta: int)
    requires
        0 <= cursor <= text.len(),
        lines_fit(source(text, decode), width),
    ensures
        cursor_moved(text, cursor, width, decode, delta) == raw_position(
            text,
            decode,
            column_kept(source(text, decode), shown_cursor(text, cursor, decode), delta),
        ),
        !decode ==> cursor_moved(text, cursor, width, decode, delta) == column_kept(
            text,
            cursor,
            delta,
        ),
        shown_cursor(text, cursor_moved(text, cursor, width, decode, 0), decode) == shown_cursor(
            text,
            cursor,
            decode,
        ),
        !decode ==> cursor_moved(text, cursor, width, decode, 0) == cursor,
{
    let shown = source(text, decode);
    let from = shown_cursor(text, cursor, decode);
    if decode {
        decoded_prefix_len(text, cursor);
    }
    rows_are_lines(shown, width);
    place_in_lines(shown, from, width);
    let at = cursor_place(shown, from, width);
    let all = split(shown, '\n');
    position_in_line(shown, width, row_moved(at.0, delta, all.len() - 1), at.1);
    position_in_line(shown, width, at.0, at.1);
    raw_position_inverts(text, decode, from);
}

proof fn decoded_prefix_len(text: Seq<char>, cursor: int)
    requires
        0 <= cursor <= text.len(),
    ensures
        decoded(text.take(cursor)).len() <= decoded(text).len(),
    decreases text.len(),
{
    let before = text.take(cursor);
    if cursor > 0 {
        let u = unit_len(text);
        if cursor < u {
            assert(before.skip(1) == Seq::<char>::empty());
            assert(decoded(Seq::<char>::empty()).len() == 0);
            assert(unit_value(before) == seq![text[0]]);
            assert(unit_value(text).len() >= 1);
            assert(decoded(before).len() == 1);
        } else {
            assert(unit_len(before) == u);
            assert(unit_value(before) == unit_value(text));
            assert(before.skip(u) == text.skip(u).take(cursor - u));
            decoded_prefix_len(text.skip(u), cursor - u);
        }
    }
}

proof fn position_in_line(s: Seq<char>, width: int, t: int, c: int)
    requires
        lines_fit(s, width),
        0 <= t < split(s, '\n').len(),
        0 <= c,
    ensures
        ({
            let ls = split(s, '\n');
            let col = if c <= ls[t].len() {
                c
            } else {
                ls[t].len() as int
            };
            &&& position_at(s, width, t, c) == line_start(ls, t) + col
            &&& position_at(s, width, t, c) <= s.len()
        }),
{
    let ls = split(s, '\n');
    let col = if c <= ls[t].len() {
        c
    } else {
        ls[t].len() as int
    };
    let last = ls.len() - 1;
    let p = line_start(ls, t) + col;
    line_start_of_last(s);
    line_start_nonnegative(ls, t);
    if t < last {
        line_start_grows(ls, t, last);
    }
    assert(0 <= p <= s.len());
    place_in_lines(s, p, width);
    let at = cursor_place(s, p, width);
    if at.0 < t {
        line_start_grows(ls, at.0, t);
    } else if at.0 > t {
        line_start_grows(ls, t, at.0);
    }
    assert(at.0 == t && at.1 == col);
    assert(on_row(s, width, t, p));
    position_is_closest(s, width, t, c);
    let q = position_at(s, width, t, c);
    assert(on_row(s, width, t, q));
    place_in_lines(s, q, width);
}

proof fn line_start_nonnegative(ls: Seq<Seq<char>>, t: int)
    ensures
        line_start(ls, t) >= 0,
    decreases t,
{
    if t > 0 {
        line_start_nonnegative(ls, t - 1);
    }
}

proof fn first_ending_on_sound(s: Seq<char>, width: int, row: int, n: int)
    ensures
        first_ending_on(s, width, row, n) matches Some(q) ==> 0 <= q <= n,
    decreases n + 1,
{
    if n >= 0 {
        first_ending_on_sound(s, width, row, n - 1);
    }
}

/// Moving the cursor up or down keeps it in the input.
pub proof fn cursor_moved_stays_in_text(
    text: Seq<char>,
    cursor: int,
    width: int,
    decode: bool,
    delta: int,
)
    ensures
        0 <= cursor_moved(text, cursor, width, decode, delta) <= text.len(),
{
    let shown = source(text, decode);
    let n = shown.len() as int;
    let at = cursor_place(shown, shown_cursor(text, cursor, decode), width);
    let row = row_moved(at.0, delta, rows(shown, width).len() - 1);
    last_fitting_sound(shown, width, row, at.1, n);
    first_on_row_sound(shown, width, row, n);
    first_ending_on_sound(shown, width, row, n);
    raw_position_inverts(text, decode, position_at(shown, width, row, at.1));
}

// ------------------------------------------------------------ one line

/// The length of the longest start of `s` that takes at most `budget` columns, not below `k`.
pub open spec fn fitting_len(s: Seq<char>, budget: int, k: int) -> int
    decreases s.len() - k,
{
    if k >= s.len() || row_width(s.take(k + 1)) > budget {
        k
    } else {
        fitting_len(s, budget, k + 1)
    }
}

/// `s`, or, where it takes more than `max` columns, as much of its start as fits with `mark`
/// behind it.
pub open spec fn truncated(s: Seq<char>, max: int, mark: Seq<char>) -> Seq<char> {
    if text_columns(s) <= max {
        s
    } else if max <= text_columns(mark) {
        mark
    } else {
        s.take(fitting_len(s, max - text_columns(mark), 0)) + mark
    }
}

/// Shortens `s` to `max` columns, with `mark` in the place of what is left out.
pub fn truncate_width_with(s: &str, max: usize, mark: &str) -> (r: String)
    ensures
        r@ == truncated(s@, max as int, mark@),
{
    let mark_w: usize = text_columns_of(mark);
    if text_columns_of(s) <= max {
        return s.to_owned();
    }
    if max <= mark_w {
        return mark.to_owned();
    }
    let budget: usize = max - mark_w;
    let chars = to_chars(s);
    let n: usize = chars.len();
    let mut used: usize = 0;
    let mut k: usize = 0;
    let mut more: bool = true;
    assert(chars@.take(0).len() == 0);
    while more && k < n
        invariant
            k <= n == chars@.len(),
            used <= budget,
            used == row_width(chars@.take(k as int)),
            fitting_len(chars@, budget as int, 0) == fitting_len(chars@, budget as int, k as int),
            !more ==> k < n && row_width(chars@.take(k + 1)) > budget,
        decreases
            n - k,
            if more {
                1int
            } else {
                0int
            },
    {
        let cw: usize = columns_of(chars[k]);
        assert(chars@.take(k + 1).drop_last() == chars@.take(k as int));
        if cw > budget - used {
            more = false;
        } else {
            used += cw;
            k += 1;
        }
    }
    assert(fitting_len(chars@, budget as int, 0) == k);
    let mut r = from_chars(slice_subrange(chars.as_slice(), 0, k));
    assert(r@ == chars@.take(k as int));
    r.append(mark);
    r
}

/// Shortens `s` to `max` columns, with an ellipsis in the place of what is left out.
pub fn truncate_width(s: &str, max: usize) -> (r: String)
    ensures
        r@ == truncated(s@, max as int, "…"@),
{
    truncate_width_with(s, max, "…")
}

/// What is left of a shortened text is a start of it that leaves room for the mark.
pub proof fn truncated_start_fits(s: Seq<char>, max: int, mark: Seq<char>)
    requires
        text_columns(s) > max > text_columns(mark),
    ensures
        ({
            let k = fitting_len(s, max - text_columns(mark), 0);
            &&& 0 <= k <= s.len()
            &&& truncated(s, max, mark) == s.take(k) + mark
            &&& row_width(s.take(k)) + text_columns(mark) <= max
        }),
{
    assert(s.take(0).len() == 0);
    fitting_len_fits(s, max - text_columns(mark), 0);
}

proof fn fitting_len_fits(s: Seq<char>, budget: int, k: int)
    requires
        0 <= k <= s.len(),
        row_width(s.take(k)) <= budget,
    ensures
        k <= fitting_len(s, budget, k) <= s.len(),
        row_width(s.take(fitting_len(s, budget, k))) <= budget,
    decreases s.len() - k,
{
    if k < s.len() && row_width(s.take(k + 1)) <= budget {
        fitting_len_fits(s, budget, k + 1);
    }
}

/// The character that stands for `c` in text shown on one line: a return sign for a line break,
/// the replacement character for another control character.
pub open spec fn one_line_char(c: char) -> char {
    if c == '\n' {
        '⏎'
    } else if control(c) {
        '\u{FFFD}'
    } else {
        c
    }
}

/// Decoded query text on one line.
pub open spec fn one_line(s: Seq<char>) -> Seq<char> {
    s.map_values(|c: char| one_line_char(c))
}

/// Text on one line holds no control character.
pub proof fn one_line_has_no_control(s: Seq<char>)
    ensures
        forall|i: int| 0 <= i < s.len() ==> !control(#[trigger] one_line(s)[i]),
{
}

fn one_line_of(s: &str) -> (r: String)
    ensures
        r@ == one_line(s@),
{
    let chars = to_chars(s);
    let mut r = String::new();
    let mut i: usize = 0;
    while i < chars.len()
        invariant
            i <= chars@.len(),
            chars@ == s@,
            r@ == one_line(s@.take(i as int)),
        decreases chars@.len() - i,
    {
        let c = chars[i];
        let ghost before = r@;
        if c == '\n' {
            r.push('⏎');
        } else if is_control(c) {
            r.push('\u{FFFD}');
        } else {
            r.push(c);
        }
        assert(r@ == before.push(one_line_char(c)));
        assert(s@.take(i + 1) == s@.take(i as int).push(c));
        i += 1;
    }
    assert(s@.take(i as int) == s@);
    r
}

/// Puts a query on one line: its escapes decoded, a return sign for each line break.
pub fn decoded_single_line(s: &str) -> (r: String)
    ensures
        r@ == one_line(decoded(s@)),
{
    one_line_of(decode_escapes(s).as_str())
}

/// The columns that `s` takes on one line.
pub open spec fn one_line_width(s: Seq<char>) -> nat
    decreases s.len(),
{
    if s.len() == 0 {
        0
    } else {
        let c = s.last();
        one_line_width(s.drop_last()) + if c == '\n' || control(c) {
            1
        } else {
            columns(c)
        }
    }
}

/// The text of a collapsed input: one line, shortened to `width` columns.
pub open spec fn collapsed_text(text: Seq<char>, width: int) -> Seq<char> {
    truncated(one_line(decoded(text)), width, " ... "@)
}

/// The column of the cursor of a collapsed input, not behind the text shown.
pub open spec fn collapsed_column(text: Seq<char>, cursor: int, width: int) -> int {
    let col = one_line_width(decoded(text).take(collapsed_index(text, cursor)));
    let shown = text_columns(collapsed_text(text, width));
    if col <= shown {
        col as int
    } else {
        shown as int
    }
}

/// How many characters of a collapsed input stand before its cursor.
pub open spec fn collapsed_index(text: Seq<char>, cursor: int) -> int {
    let at = shown_cursor(text, cursor, true);
    if at <= decoded(text).len() {
        at
    } else {
        decoded(text).len() as int
    }
}

/// Shows an input on one line of `width` columns; gives the text and the column of the cursor.
pub fn collapsed_input_display(text: &str, cursor: usize, width: usize) -> (r: (String, usize))
    ensures
        r.0@ == collapsed_text(text@, width as int),
        r.1 == collapsed_column(text@, cursor as int, width as int),
{
    let at: usize = shown_cursor_of(text, cursor, true);
    let plain = decode_escapes(text);
    let chars = to_chars(plain.as_str());
    let mut col: usize = 0;
    let mut i: usize = 0;
    let n: usize = if at <= chars.len() {
        at
    } else {
        chars.len()
    };
    assert(chars@.take(0).len() == 0);
    while i < n
        invariant
            i <= n <= chars@.len(),
            col == one_line_width(chars@.take(i as int)) || (col == usize::MAX && one_line_width(
                chars@.take(i as int),
            ) > usize::MAX),
        decreases n - i,
    {
        let c = chars[i];
        let cw: usize = if c == '\n' || is_control(c) {
            1
        } else {
            columns_of(c)
        };
        assert(chars@.take(i + 1).drop_last() == chars@.take(i as int));
        col = col.saturating_add(cw);
        i += 1;
    }
    let full = one_line_of(plain.as_str());
    let shown = truncate_width_with(full.as_str(), width, " ... ");
    let shown_w: usize = text_columns_of(shown.as_str());
    let column: usize = if col <= shown_w {
        col
    } else {
        shown_w
    };
    (shown, column)
}

/// How many rows `text` is taken to need in a width of `width` columns.
pub open spec fn row_estimate(text: Seq<char>, width: int) -> int {
    if text.len() == 0 {
        1
    } else {
        text_columns(text) as int / width + 1
    }
}

/// Estimates how many rows `text` needs.
pub fn wrap_lines(text: &str, width: usize) -> (n: u128)
    requires
        width > 0,
    ensures
        n == row_estimate(text@, width as int),
{
    if text.is_empty() {
        return 1;
    }
    (text_columns_of(text) / width) as u128 + 1
}

} // verus!
