//! How text is laid out in rows, and where its characters stand.

use crate::escapes::decoded;
use crate::text::control;
use crate::wrap::{
    char_columns, collapsed_column, collapsed_text, columns, cursor_place, fitting_len, joined,
    one_line, one_line_width, row_estimate, row_moved, row_width, rows, rows_nonempty, shown_cursor, source,
    text_columns, truncated, unbroken, wrapped,
};
use vstd::prelude::*;

verus! {

/// A row takes the columns of its characters together.
pub proof fn rows_take_the_columns_of_their_characters(a: Seq<char>, b: Seq<char>, c: char)
    ensures
        char_columns(c) == Some(0usize) ==> row_width(seq![c]) == 0,
        char_columns(c) == Some(1usize) ==> row_width(seq![c]) == 1,
        char_columns(c) == Some(2usize) ==> row_width(seq![c]) == 2,
        char_columns(c) == Some(3usize) ==> row_width(seq![c]) == 3,
        char_columns(c) is None ==> row_width(seq![c]) == 0,
        row_width(a + b) == row_width(a) + row_width(b),
    decreases b.len(),
{
    assert(seq![c].drop_last() == Seq::<char>::empty());
    assert(row_width(Seq::<char>::empty()) == 0);
    if b.len() == 0 {
        assert(a + b == a);
    } else {
        assert((a + b).drop_last() == a + b.drop_last());
        rows_take_the_columns_of_their_characters(a, b.drop_last(), c);
    }
}

// ------------------------------------------------------------ rows

/// A row ends only where the next character does not fit behind it.
pub proof fn rows_end_only_where_needed(s: Seq<char>, width: int, i: int)
    requires
        0 <= i < wrapped(s, width).len() - 1,
    ensures
        wrapped(s, width)[i + 1].len() > 0,
        row_width(wrapped(s, width)[i]) + row_width(seq![wrapped(s, width)[i + 1][0]]) > width,
    decreases s.len(),
{
    rows_take_the_columns_of_their_characters(s, s, wrapped(s, width)[i + 1][0]);
    assert(seq![wrapped(s, width)[i + 1][0]].drop_last() == Seq::<char>::empty());
    assert(row_width(Seq::<char>::empty()) == 0);
    assert(s.len() > 0);
    let before = wrapped(s.drop_last(), width);
    rows_nonempty(s.drop_last(), width);
    if i < before.len() - 1 {
        rows_end_only_where_needed(s.drop_last(), width, i);
        assert(seq![before[i + 1][0]].drop_last() == Seq::<char>::empty());
        assert(wrapped(s, width)[i] == before[i]);
        assert(wrapped(s, width)[i + 1][0] == before[i + 1][0]);
    } else {
        assert(wrapped(s, width)[i] == before.last());
        assert(wrapped(s, width)[i + 1] == seq![s.last()]);
    }
}

/// Text without line breaks is wrapped as it is, and a line break starts a new row.
pub proof fn line_breaks_start_rows(s: Seq<char>, width: int)
    ensures
        rows(s.push('\n'), width) == rows(s, width).push(Seq::empty()),
        !s.contains('\n') ==> rows(s, width) == wrapped(s, width),
    decreases s.len(),
{
    assert(s.push('\n').drop_last() == s);
    if s.len() > 0 && !s.contains('\n') {
        let t = s.drop_last();
        assert(!t.contains('\n')) by {
            if t.contains('\n') {
                let k = choose|k: int| 0 <= k < t.len() && t[k] == '\n';
                assert(s[k] == '\n');
            }
        }
        assert(s.contains(s.last()));
        line_breaks_start_rows(t, width);
    }
}

proof fn rows_grow(s: Seq<char>, p: int, width: int)
    requires
        0 <= p <= s.len(),
    ensures
        ({
            let a = rows(s.take(p), width);
            let b = rows(s, width);
            &&& 1 <= a.len() <= b.len()
            &&& forall|t: int| 0 <= t < a.len() - 1 ==> #[trigger] a[t] == b[t]
            &&& a.last().len() <= b[a.len() - 1].len()
            &&& b[a.len() - 1].take(a.last().len() as int) == a.last()
        }),
    decreases s.len() - p,
{
    rows_nonempty(s.take(p), width);
    if p == s.len() {
        assert(s.take(p) == s);
    } else {
        let a = rows(s.take(p), width);
        let m = rows(s.take(p + 1), width);
        let b = rows(s, width);
        rows_grow(s, p + 1, width);
        assert(s.take(p + 1).drop_last() == s.take(p));
        assert(s.take(p + 1).last() == s[p]);
        if m.len() > a.len() {
            assert(m[a.len() - 1] == a.last());
            assert(b[a.len() - 1] == a.last());
        } else {
            assert(m.last().take(a.last().len() as int) == a.last());
            assert(b[a.len() - 1].take(a.last().len() as int) == b[a.len() - 1].take(
                m.last().len() as int,
            ).take(a.last().len() as int));
        }
        assert forall|t: int| 0 <= t < a.len() - 1 implies #[trigger] a[t] == b[t] by {
            assert(a[t] == m[t]);
        }
    }
}

/// The cursor before a character stands where that character is: in the row that holds it, behind
/// what stands before it in the row. Behind the last character it stands behind the last row.
pub proof fn the_cursor_stands_at_its_character(s: Seq<char>, p: int, width: int)
    requires
        0 <= p <= s.len(),
    ensures
        ({
            let (row, col) = cursor_place(s, p, width);
            let r = rows(s, width);
            &&& 0 <= row < r.len()
            &&& p < s.len() && s[p] != '\n' ==> exists|k: int|
                0 <= k < r[row].len() && #[trigger] r[row][k] == s[p] && row_width(r[row].take(k))
                    == col && joined(r.take(row)) + r[row].take(k) == unbroken(s.take(p))
            &&& p == s.len() ==> row == r.len() - 1 && col == row_width(r.last())
            &&& p < s.len() && s[p] == '\n' ==> col == row_width(r[row]) && joined(r.take(row))
                + r[row] == unbroken(s.take(p))
        }),
{
    let r = rows(s, width);
    rows_nonempty(s, width);
    let (row, col) = cursor_place(s, p, width);
    if p < s.len() {
        let t = s.take(p);
        let a = rows(t, width);
        rows_grow(s, p, width);
        rows_grow(s, p + 1, width);
        rows_nonempty(t, width);
        crate::wrap::rows_hold_text(t, width);
        let u = s.take(p + 1);
        let m = rows(u, width);
        assert(u.drop_last() == t);
        assert(u.last() == s[p]);
        assert(joined(a) == joined(a.drop_last()) + a.last());
        if s[p] == '\n' {
            assert(m == a.push(Seq::empty()));
            assert(m[a.len() - 1] == a.last());
            assert(r[row] == a.last());
            assert(r.take(row) == a.drop_last()) by {
                assert forall|i: int| 0 <= i < a.len() - 1 implies r[i] == a[i] by {
                    assert(a[i] == r[i]);
                }
            }
        } else if row_width(a.last()) + columns(s[p]) > width {
            assert(m == a.push(seq![s[p]]));
            assert(row == a.len());
            assert(m.last() == seq![s[p]]);
            let k: int = 0;
            assert(r[row].take(1) == seq![s[p]]);
            assert(r[row][0] == r[row].take(1)[0]);
            assert(r[row].take(0) == Seq::<char>::empty());
            assert(row_width(Seq::<char>::empty()) == 0);
            assert(r.take(row) == a) by {
                assert forall|i: int| 0 <= i < a.len() implies r[i] == a[i] by {
                    assert(m[i] == a[i]);
                    assert(m[i] == r[i]);
                }
            }
            assert(joined(a) + Seq::<char>::empty() == joined(a));
            assert(r[row][k] == s[p] && row_width(r[row].take(k)) == col && joined(r.take(row))
                + r[row].take(k) == unbroken(t));
        } else {
            assert(m == a.drop_last().push(a.last().push(s[p])));
            let k = a.last().len() as int;
            assert(m.last() == a.last().push(s[p]));
            assert(r[row].take(m.last().len() as int) == m.last());
            assert(r[row][k] == r[row].take(m.last().len() as int)[k]);
            assert(r[row].take(k) == a.last());
            assert(r.take(row) == a.drop_last()) by {
                assert forall|i: int| 0 <= i < a.len() - 1 implies r[i] == a[i] by {
                    assert(a[i] == r[i]);
                }
            }
            assert(r[row][k] == s[p] && row_width(r[row].take(k)) == col && joined(r.take(row))
                + r[row].take(k) == unbroken(t));
        }
    }
}

/// Moving by rows ends at the first and at the last row.
pub proof fn rows_end_at_the_first_and_last(row: int, delta: int, last: int)
    requires
        0 <= row <= last,
    ensures
        0 <= row + delta <= last ==> row_moved(row, delta, last) == row + delta,
        row + delta < 0 ==> row_moved(row, delta, last) == 0,
        row + delta > last ==> row_moved(row, delta, last) == last,
{
}

/// Text is shown as it is, or, as a query, with its escapes decoded; the cursor is shown behind what
/// stands before it.
pub proof fn the_cursor_stands_behind_what_is_before_it(before: Seq<char>, behind: Seq<char>)
    ensures
        source(before, false) == before,
        source(before, true) == decoded(before),
        shown_cursor(before + behind, before.len() as int, false) == before.len(),
        shown_cursor(before + behind, before.len() as int, true) == decoded(before).len(),
{
    assert((before + behind).take(before.len() as int) == before);
}

// ------------------------------------------------------------ one line

proof fn longest_start(s: Seq<char>, budget: int, k: int)
    requires
        0 <= k <= s.len(),
    ensures
        k <= fitting_len(s, budget, k) <= s.len(),
        fitting_len(s, budget, k) < s.len() ==> row_width(s.take(fitting_len(s, budget, k) + 1))
            > budget,
    decreases s.len() - k,
{
    if k < s.len() && row_width(s.take(k + 1)) <= budget {
        longest_start(s, budget, k + 1);
    }
}

/// Text that fits is not shortened. Otherwise as much of its start is left as leaves room for the
/// mark, and no less: with the next character it would not fit.
pub proof fn no_more_is_left_out_than_needed(s: Seq<char>, max: int, mark: Seq<char>)
    ensures
        text_columns(s) <= max ==> truncated(s, max, mark) == s,
        text_columns(s) > max && max <= text_columns(mark) ==> truncated(s, max, mark) == mark,
        text_columns(s) > max && max > text_columns(mark) ==> exists|k: int|
            0 <= k <= s.len() && truncated(s, max, mark) == #[trigger] s.take(k) + mark && row_width(
                s.take(k),
            ) + text_columns(mark) <= max && (k < s.len() ==> row_width(s.take(k + 1))
                + text_columns(mark) > max),
{
    if text_columns(s) > max && max > text_columns(mark) {
        let k = fitting_len(s, max - text_columns(mark), 0);
        crate::wrap::truncated_start_fits(s, max, mark);
        longest_start(s, max - text_columns(mark), 0);
        assert(truncated(s, max, mark) == s.take(k) + mark);
    }
}

/// On one line a line break is a return sign, another control character the replacement character,
/// and any other character itself; each takes its place in the order of the text.
pub proof fn every_character_has_its_sign(s: Seq<char>, i: int)
    requires
        0 <= i < s.len(),
    ensures
        one_line(s).len() == s.len(),
        s[i] == '\n' ==> one_line(s)[i] == '⏎',
        s[i] != '\n' && control(s[i]) ==> one_line(s)[i] == '\u{FFFD}',
        !control(s[i]) && s[i] != '\n' ==> one_line(s)[i] == s[i],
{
}

/// On one line the signs for control characters take one column, and other characters their own.
pub proof fn signs_take_one_column(s: Seq<char>, c: char)
    ensures
        one_line_width(Seq::empty()) == 0,
        c == '\n' || control(c) ==> one_line_width(s.push(c)) == one_line_width(s) + 1,
        c != '\n' && !control(c) ==> one_line_width(s.push(c)) == one_line_width(s) + row_width(
            seq![c],
        ),
{
    assert(s.push(c).drop_last() == s);
    assert(seq![c].drop_last() == Seq::<char>::empty());
    assert(row_width(Seq::<char>::empty()) == 0);
}

/// A collapsed input that fits is shown whole on one line, with the cursor behind what stands before
/// it. One that does not fit is shortened, and the cursor is not behind what is shown.
pub proof fn collapsed_inputs_show_the_query(before: Seq<char>, behind: Seq<char>, width: int)
    requires
        decoded(before).len() <= decoded(before + behind).len(),
    ensures
        ({
            let text = before + behind;
            let all = one_line(decoded(text));
            let shown = collapsed_text(text, width);
            let at = one_line_width(decoded(text).take(decoded(before).len() as int));
            let col = collapsed_column(text, before.len() as int, width);
            &&& text_columns(all) <= width ==> shown == all
            &&& shown == truncated(all, width, " ... "@)
            &&& at <= text_columns(shown) ==> col == at
            &&& at > text_columns(shown) ==> col == text_columns(shown)
        }),
{
    the_cursor_stands_behind_what_is_before_it(before, behind);
}

/// A text needs a row for every full width that it takes, and one more.
pub proof fn rows_are_estimated_by_width(text: Seq<char>, width: int)
    requires
        width > 0,
    ensures
        text.len() == 0 ==> row_estimate(text, width) == 1,
        text.len() > 0 ==> (row_estimate(text, width) - 1) * width <= text_columns(text)
            < row_estimate(text, width) * width,
{
    let n = text_columns(text) as int;
    vstd::arithmetic::div_mod::lemma_fundamental_div_mod(n, width);
    vstd::arithmetic::div_mod::lemma_mod_bound(n, width);
    let q = n / width;
    assert(width * q == q * width) by (nonlinear_arith);
    assert((q + 1) * width == q * width + width) by (nonlinear_arith);
}

} // verus!
