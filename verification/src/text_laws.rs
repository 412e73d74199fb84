//! What trimming, lines, numbers, order and escapes of texts mean.

use crate::escapes::{decoded, encoded, pasted_line, pasted_lines};
use crate::text::{
    decimal, join, lex_le, lines, parse_number, split, trim, trim_end, trim_start, whitespace,
};
use vstd::arithmetic::power::pow;
use vstd::prelude::*;

verus! {

// ------------------------------------------------------------ trimming

proof fn start_is_trimmed(a: Seq<char>, t: Seq<char>)
    requires
        forall|i: int| 0 <= i < a.len() ==> whitespace(#[trigger] a[i]),
        t.len() > 0 ==> !whitespace(t[0]),
    ensures
        trim_start(a + t) == t,
    decreases a.len(),
{
    if a.len() == 0 {
        assert(a + t == t);
    } else {
        assert((a + t)[0] == a[0]);
        let rest = a.drop_first();
        assert((a + t).drop_first() == rest + t);
        assert forall|i: int| 0 <= i < rest.len() implies whitespace(#[trigger] rest[i]) by {
            assert(rest[i] == a[i + 1]);
        }
        start_is_trimmed(rest, t);
    }
}

proof fn end_is_trimmed(t: Seq<char>, b: Seq<char>)
    requires
        forall|i: int| 0 <= i < b.len() ==> whitespace(#[trigger] b[i]),
        t.len() > 0 ==> !whitespace(t.last()),
    ensures
        trim_end(t + b) == t,
    decreases b.len(),
{
    if b.len() == 0 {
        assert(t + b == t);
    } else {
        assert((t + b).last() == b[b.len() - 1]);
        let rest = b.drop_last();
        assert((t + b).drop_last() == t + rest);
        assert forall|i: int| 0 <= i < rest.len() implies whitespace(#[trigger] rest[i]) by {
            assert(rest[i] == b[i]);
        }
        end_is_trimmed(t, rest);
    }
}

/// Trimming takes away the white space at both ends, all of it and nothing else.
pub proof fn trimming_leaves_the_middle(a: Seq<char>, t: Seq<char>, b: Seq<char>)
    requires
        forall|i: int| 0 <= i < a.len() ==> whitespace(#[trigger] a[i]),
        forall|i: int| 0 <= i < b.len() ==> whitespace(#[trigger] b[i]),
        t.len() > 0,
        !whitespace(t[0]),
        !whitespace(t.last()),
    ensures
        trim(a + t + b) == t,
        trim(a).len() == 0,
{
    assert(a + t + b == a + (t + b));
    assert((t + b)[0] == t[0]);
    start_is_trimmed(a, t + b);
    end_is_trimmed(t, b);
    assert(a + Seq::<char>::empty() == a);
    start_is_trimmed(a, Seq::empty());
}

/// Blanks, tabs and line breaks are white space; other printable ASCII characters are not.
pub proof fn blanks_are_white_space(c: char)
    ensures
        c == ' ' || c == '\t' || c == '\n' || c == '\r' ==> whitespace(c),
        0x21 <= c as u32 <= 0x7e ==> !whitespace(c),
        0x4e00 <= c as u32 <= 0x9fff ==> !whitespace(c),
        whitespace(c) <==> {
            let v = c as u32;
            ||| 9 <= v <= 13 || v == 32 || v == 133 || v == 160 || v == 5760
            ||| 8192 <= v <= 8202 || v == 8232 || v == 8233 || v == 8239 || v == 8287 || v == 12288
        },
{
}

/// The control characters are those below the space, and those from the delete character to the last
/// before the no-break space.
pub proof fn control_characters_are_these(c: char)
    ensures
        crate::text::control(c) <==> (c as u32) < 0x20 || 0x7f <= c as u32 <= 0x9f,
{
}

// ------------------------------------------------------------ pieces and lines

proof fn pieces_of_both(a: Seq<char>, b: Seq<char>, sep: char)
    ensures
        split(a + seq![sep] + b, sep) == split(a, sep) + split(b, sep),
    decreases b.len(),
{
    let s = a + seq![sep] + b;
    crate::text::split_pieces(a, sep);
    crate::text::split_pieces(b, sep);
    if b.len() == 0 {
        assert(s.drop_last() == a);
        assert(s.last() == sep);
        assert(split(a, sep) + split(b, sep) == split(a, sep).push(Seq::empty()));
    } else {
        let c = b.drop_last();
        pieces_of_both(a, c, sep);
        crate::text::split_pieces(c, sep);
        assert(s.drop_last() == a + seq![sep] + c);
        assert(s.last() == b.last());
        let before = split(a, sep) + split(c, sep);
        if b.last() == sep {
            assert(split(a, sep) + split(b, sep) == before.push(Seq::empty()));
        } else {
            let x = split(c, sep);
            assert(before.last() == x.last());
            assert(before.drop_last() == split(a, sep) + x.drop_last());
            assert(split(a, sep) + split(b, sep) == before.drop_last().push(
                before.last().push(b.last()),
            ));
        }
    }
}

proof fn one_piece(s: Seq<char>, sep: char)
    requires
        !s.contains(sep),
    ensures
        split(s, sep) == seq![s],
    decreases s.len(),
{
    if s.len() > 0 {
        let front = s.drop_last();
        assert forall|i: int| 0 <= i < front.len() implies front[i] != sep by {
            assert(s.contains(s[i]));
        }
        assert(!front.contains(sep));
        one_piece(front, sep);
        assert(s.contains(s[s.len() - 1]));
        assert(seq![front].drop_last().push(seq![front].last().push(s.last())) == seq![
            front.push(s.last()),
        ]);
        assert(front.push(s.last()) == s);
    } else {
        assert(s == Seq::<char>::empty());
    }
}

/// A text in pieces: what stands before a separator is a piece of its own, and the rest is divided
/// in the same way.
pub proof fn separators_divide(a: Seq<char>, b: Seq<char>, sep: char)
    requires
        !a.contains(sep),
    ensures
        split(a + seq![sep] + b, sep) == seq![a] + split(b, sep),
        split(a, sep) == seq![a],
{
    one_piece(a, sep);
    pieces_of_both(a, b, sep);
}

/// Texts are joined with the separator between them.
pub proof fn joining_puts_separators_between(parts: Seq<Seq<char>>, last: Seq<char>, sep: Seq<char>)
    ensures
        join(Seq::empty(), sep) == Seq::<char>::empty(),
        join(seq![last], sep) == last,
        parts.len() > 0 ==> join(parts.push(last), sep) == join(parts, sep) + sep + last,
{
    assert(parts.push(last).drop_last() == parts);
}

/// The lines of a text: what stands before a line feed, without the carriage return at its end, is a
/// line of its own, and the rest gives the lines behind it. A rest without a line feed is one line,
/// and none where it is empty.
pub proof fn line_feeds_end_lines(line: Seq<char>, rest: Seq<char>)
    requires
        !line.contains('\n'),
    ensures
        line.len() == 0 || line.last() != '\r' ==> lines(line + seq!['\n'] + rest) == seq![line]
            + lines(rest),
        line.len() > 0 && line.last() == '\r' ==> lines(line + seq!['\n'] + rest) == seq![
            line.drop_last(),
        ] + lines(rest),
        line.len() > 0 ==> lines(line) == seq![line],
        lines(Seq::empty()) == Seq::<Seq<char>>::empty(),
{
    separators_divide(line, rest, '\n');
    crate::text::split_pieces(rest, '\n');
    let f = |l: Seq<char>| crate::text::strip_return(l);
    let p = split(rest, '\n');
    let all = seq![line] + p;
    assert(all.last() == p.last());
    assert(all.drop_last() == seq![line] + p.drop_last());
    assert(all.drop_last().map_values(f) == seq![f(line)] + p.drop_last().map_values(f));
    let whole = p.drop_last().map_values(f);
    if p.last().len() > 0 {
        assert((seq![f(line)] + whole).push(p.last()) == seq![f(line)] + whole.push(p.last()));
    }
    assert(seq![line].drop_last().map_values(f) == Seq::<Seq<char>>::empty());
    assert(Seq::<Seq<char>>::empty().push(line) == seq![line]);
    let none = Seq::<char>::empty();
    assert(split(none, '\n') == seq![none]);
    assert(seq![none].drop_last().map_values(f) == Seq::<Seq<char>>::empty());
}

/// The files that `fd` prints, one to a line: every line that is not empty is one.
pub proof fn printed_files_are_listed(file: Seq<char>, rest: Seq<char>)
    requires
        !file.contains('\n'),
        file.len() == 0 || file.last() != '\r',
    ensures
        file.len() > 0 ==> crate::search::listed(file + seq!['\n'] + rest) == seq![file]
            + crate::search::listed(rest),
        file.len() == 0 ==> crate::search::listed(file + seq!['\n'] + rest) == crate::search::listed(
            rest,
        ),
        file.len() > 0 ==> crate::search::listed(file) == seq![file],
        crate::search::listed(Seq::empty()).len() == 0,
{
    line_feeds_end_lines(file, rest);
    let f = |l: Seq<char>| l.len() > 0;
    Seq::filter_distributes_over_add(seq![file], lines(rest), f);
    reveal(Seq::filter);
    assert(seq![file].drop_last().len() == 0);
    assert(seq![file].drop_last().filter(f).len() == 0);
    if file.len() > 0 {
        assert(seq![file].filter(f) == seq![file]);
    } else {
        assert(seq![file].filter(f).len() == 0);
        assert(seq![file].filter(f) + lines(rest).filter(f) == lines(rest).filter(f));
    }
}

// ------------------------------------------------------------ order

/// Texts are ordered by their first difference, and what another text goes on from comes before it.
pub proof fn texts_are_ordered_by_first_difference(
    common: Seq<char>,
    a: Seq<char>,
    b: Seq<char>,
)
    ensures
        a.len() > 0 && b.len() > 0 && (a[0] as u32) < (b[0] as u32) ==> lex_le(common + a, common + b)
            && !lex_le(common + b, common + a),
        b.len() > 0 ==> lex_le(common, common + b) && !lex_le(common + b, common),
        lex_le(common, common),
    decreases common.len(),
{
    if common.len() == 0 {
        assert(common + a == a);
        assert(common + b == b);
    } else {
        let rest = common.drop_first();
        texts_are_ordered_by_first_difference(rest, a, b);
        assert((common + a).drop_first() == rest + a);
        assert((common + b).drop_first() == rest + b);
        assert((common + a)[0] == common[0] && (common + b)[0] == common[0]);
    }
    if a.len() > 0 && b.len() > 0 {
        codes_are_numbers(a[0]);
        codes_are_numbers(b[0]);
    }
}

proof fn codes_are_numbers(c: char)
    ensures
        c as u32 as int == c as int,
{
}

// ------------------------------------------------------------ numbers

/// A number is written with the digits that it has in the decimal system, without zeros before them.
pub proof fn numbers_are_written_in_decimal(n: nat, i: int)
    requires
        0 <= i < decimal(n).len(),
    ensures
        n < pow(10, decimal(n).len()),
        n >= 10 ==> n >= pow(10, (decimal(n).len() - 1) as nat),
        n < 10 ==> decimal(n).len() == 1,
        decimal(n)[i] as u32 == 0x30 + (n as int / pow(10, (decimal(n).len() - 1 - i) as nat)) % 10,
    decreases n,
{
    vstd::arithmetic::power::lemma_pow0(10);
    vstd::arithmetic::power::lemma_pow1(10);
    let s = decimal(n);
    digit_codes((n % 10) as int);
    if n < 10 {
        assert(s.len() == 1);
    } else {
        let m = n / 10;
        let t = decimal(m);
        assert(s == t.push(s.last()));
        assert(t.len() > 0) by {
            crate::text::decimal_digits(m);
        }
        let len = t.len();
        numbers_are_written_in_decimal(m, if i < len {
            i
        } else {
            0
        });
        power_step(len);
        power_step((len - 1) as nat);
        assert(n == 10 * m + n % 10);
        if m >= 10 {
        } else {
            assert(len == 1);
        }
        if i < len {
            let k = (len - 1 - i) as nat;
            power_step(k);
            vstd::arithmetic::power::lemma_pow_positive(10, k);
            vstd::arithmetic::div_mod::lemma_div_denominator(n as int, 10, pow(10, k));
            assert(n as int / 10 == m as int);
            assert((s.len() - 1 - i) as nat == k + 1);
        } else {
            assert((s.len() - 1 - i) as nat == 0);
            assert(n as int / 1 == n as int);
        }
    }
}

/// A number below zero is written with a minus sign before it, and no other number is.
pub proof fn negative_numbers_have_a_sign(n: nat)
    requires
        n > 0,
    ensures
        crate::text::signed_decimal(-(n as int)) == seq!['-'] + decimal(n),
        crate::text::signed_decimal(n as int) == decimal(n),
        crate::text::signed_decimal(0) == decimal(0),
{
}

proof fn power_step(k: nat)
    ensures
        pow(10, (k + 1) as nat) == 10 * pow(10, k),
{
    reveal(pow);
}

proof fn digit_codes(d: int)
    requires
        0 <= d < 10,
    ensures
        crate::text::digit_char(d) as u32 == 0x30 + d,
{
}

/// Reading a number gives what was written, and what is no number gives nothing.
pub proof fn numbers_are_read_as_written(n: u64, s: Seq<char>)
    ensures
        parse_number(decimal(n as nat)) == Some(n),
        parse_number(Seq::empty()) is None,
        (exists|i: int|
            0 <= i < s.len() && !('0' <= #[trigger] s[i] <= '9') && s[i] != '+') ==> parse_number(s)
            is None,
{
    crate::text::parse_of_decimal(n);
    if exists|i: int| 0 <= i < s.len() && !('0' <= #[trigger] s[i] <= '9') && s[i] != '+' {
        let i = choose|i: int| 0 <= i < s.len() && !('0' <= #[trigger] s[i] <= '9') && s[i] != '+';
        if s[0] == '+' {
            assert(s.drop_first()[i - 1] == s[i]);
            assert(!crate::text::ascii_digit(s.drop_first()[i - 1]));
        } else {
            assert(!crate::text::ascii_digit(s[i]));
        }
    }
}

// ------------------------------------------------------------ escapes

/// A query is read from its start: `\n`, `\t`, `\r` and `\\` stand for one character each, another
/// character behind a backslash stands for itself with the backslash, and every other character for
/// itself; so does a backslash at the end.
pub proof fn escapes_stand_for_characters(c: char, rest: Seq<char>)
    ensures
        decoded(seq!['\\', 'n'] + rest) == seq!['\n'] + decoded(rest),
        decoded(seq!['\\', 't'] + rest) == seq!['\t'] + decoded(rest),
        decoded(seq!['\\', 'r'] + rest) == seq!['\r'] + decoded(rest),
        decoded(seq!['\\', '\\'] + rest) == seq!['\\'] + decoded(rest),
        c != 'n' && c != 't' && c != 'r' && c != '\\' ==> decoded(seq!['\\', c] + rest) == seq![
            '\\',
            c,
        ] + decoded(rest),
        c != '\\' ==> decoded(seq![c] + rest) == seq![c] + decoded(rest),
        decoded(seq!['\\']) == seq!['\\'],
        decoded(Seq::empty()) == Seq::<char>::empty(),
{
    assert((seq!['\\', 'n'] + rest).skip(2) == rest);
    assert((seq!['\\', 't'] + rest).skip(2) == rest);
    assert((seq!['\\', 'r'] + rest).skip(2) == rest);
    assert((seq!['\\', '\\'] + rest).skip(2) == rest);
    assert((seq!['\\', c] + rest).skip(2) == rest);
    assert((seq![c] + rest).skip(1) == rest);
    assert(seq!['\\'].skip(1) == Seq::<char>::empty());
    assert(decoded(Seq::<char>::empty()) == Seq::<char>::empty());
    assert(seq!['\\'] + Seq::<char>::empty() == seq!['\\']);
}

/// Pasted text is written as a query from its start: a line break of any kind becomes `\n`, a tab
/// `\t`, a backslash `\\`, other control characters are dropped, and every other character stays.
pub proof fn pasted_text_is_escaped(c: char, rest: Seq<char>)
    ensures
        encoded(seq!['\n'] + rest) == seq!['\\', 'n'] + encoded(rest),
        encoded(seq!['\r', '\n'] + rest) == seq!['\\', 'n'] + encoded(rest),
        rest.len() == 0 || rest[0] != '\n' ==> encoded(seq!['\r'] + rest) == seq!['\\', 'n']
            + encoded(rest),
        encoded(seq!['\t'] + rest) == seq!['\\', 't'] + encoded(rest),
        encoded(seq!['\\'] + rest) == seq!['\\', '\\'] + encoded(rest),
        0x20 <= c as u32 && !(0x7f <= c as u32 <= 0x9f) && c != '\\' ==> encoded(seq![c] + rest)
            == seq![c] + encoded(rest),
        ((c as u32) < 0x20 || 0x7f <= c as u32 <= 0x9f) && c != '\n' && c != '\r' && c != '\t'
            ==> encoded(seq![c] + rest) == encoded(rest),
        encoded(Seq::empty()) == Seq::<char>::empty(),
{
    assert((seq!['\n'] + rest).skip(1) == rest);
    assert((seq!['\r', '\n'] + rest).skip(2) == rest);
    assert((seq!['\r'] + rest).skip(1) == rest);
    assert((seq!['\r'] + rest).len() > 1 ==> (seq!['\r'] + rest)[1] == rest[0]);
    assert((seq!['\t'] + rest).skip(1) == rest);
    assert((seq!['\\'] + rest).skip(1) == rest);
    assert((seq![c] + rest).skip(1) == rest);
    assert(Seq::<char>::empty() + encoded(rest) == encoded(rest));
}

/// What is pasted into a popup keeps every character but control characters; among the ignored
/// directories a line break of any kind is kept as one.
pub proof fn popups_take_plain_text(c: char, rest: Seq<char>)
    ensures
        0x20 <= c as u32 && !(0x7f <= c as u32 <= 0x9f) ==> pasted_line(seq![c] + rest) == seq![c]
            + pasted_line(rest) && pasted_lines(seq![c] + rest) == seq![c] + pasted_lines(rest),
        (c as u32) < 0x20 || 0x7f <= c as u32 <= 0x9f ==> pasted_line(seq![c] + rest) == pasted_line(
            rest,
        ),
        ((c as u32) < 0x20 || 0x7f <= c as u32 <= 0x9f) && c != '\n' && c != '\r' ==> pasted_lines(
            seq![c] + rest,
        ) == pasted_lines(rest),
        pasted_lines(seq!['\n'] + rest) == seq!['\n'] + pasted_lines(rest),
        pasted_lines(seq!['\r', '\n'] + rest) == seq!['\n'] + pasted_lines(rest),
        rest.len() == 0 || rest[0] != '\n' ==> pasted_lines(seq!['\r'] + rest) == seq!['\n']
            + pasted_lines(rest),
        pasted_line(Seq::empty()).len() == 0,
        pasted_lines(Seq::empty()).len() == 0,
{
    let f = |c: char| !crate::text::control(c);
    Seq::filter_distributes_over_add(seq![c], rest, f);
    reveal(Seq::filter);
    assert(seq![c].drop_last().filter(f).len() == 0);
    if crate::text::control(c) {
        assert(seq![c].filter(f).len() == 0);
        assert(seq![c].filter(f) + rest.filter(f) == rest.filter(f));
    } else {
        assert(seq![c].filter(f) == seq![c]);
    }
    assert((seq!['\n'] + rest).skip(1) == rest);
    assert((seq!['\r', '\n'] + rest).skip(2) == rest);
    assert((seq!['\r'] + rest).skip(1) == rest);
    assert((seq!['\r'] + rest).len() > 1 ==> (seq!['\r'] + rest)[1] == rest[0]);
    assert((seq![c] + rest).skip(1) == rest);
    assert(Seq::<char>::empty() + pasted_lines(rest) == pasted_lines(rest));
}

} // verus!
