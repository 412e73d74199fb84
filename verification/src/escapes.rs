//! Query text: showing it safely, and the escapes `\n`, `\t`, `\r` and `\\` in it.

use crate::text::{control, from_chars, holds_char, is_control, to_chars};
use vstd::prelude::*;

verus! {

// ------------------------------------------------------------ text for the screen

/// The character that stands for `c` on the screen: the replacement character for a control
/// character, which the terminal would otherwise execute.
pub open spec fn shown(c: char) -> char {
    if control(c) {
        '\u{FFFD}'
    } else {
        c
    }
}

/// `s` as it is shown on the screen.
pub open spec fn sanitized(s: Seq<char>) -> Seq<char> {
    s.map_values(|c: char| shown(c))
}

/// Makes a file name or a path safe to show: every control character is replaced by U+FFFD.
pub fn sanitize_display(s: &str) -> (r: String)
    ensures
        r@ == sanitized(s@),
{
    let chars = to_chars(s);
    let mut r = String::new();
    let mut i: usize = 0;
    while i < chars.len()
        invariant
            i <= chars@.len(),
            chars@ == s@,
            r@ == sanitized(s@.take(i as int)),
        decreases chars@.len() - i,
    {
        let c = chars[i];
        let ghost before = r@;
        if is_control(c) {
            r.push('\u{FFFD}');
        } else {
            r.push(c);
        }
        assert(r@ == before.push(shown(c)));
        assert(s@.take(i + 1) == s@.take(i as int).push(c));
        i += 1;
    }
    assert(s@.take(i as int) == s@);
    r
}

/// Text made safe to show holds no control character.
pub proof fn sanitized_has_no_control(s: Seq<char>)
    ensures
        forall|i: int| 0 <= i < s.len() ==> !control(#[trigger] sanitized(s)[i]),
{
}

/// Text without control characters is shown as it is.
pub proof fn sanitized_clean_text(s: Seq<char>)
    requires
        forall|i: int| 0 <= i < s.len() ==> !control(s[i]),
    ensures
        sanitized(s) == s,
{
}

// ------------------------------------------------------------ escapes

/// What the escape `\c` stands for; an unknown one stands for itself.
pub open spec fn escape_value(c: char) -> Seq<char> {
    if c == 'n' {
        seq!['\n']
    } else if c == 't' {
        seq!['\t']
    } else if c == 'r' {
        seq!['\r']
    } else if c == '\\' {
        seq!['\\']
    } else {
        seq!['\\', c]
    }
}

/// How many characters at the start of `q`, which is not empty, are read together: two for an
/// escape, otherwise one.
pub open spec fn unit_len(q: Seq<char>) -> int {
    if q[0] == '\\' && q.len() > 1 {
        2
    } else {
        1
    }
}

/// What the unit at the start of `q`, which is not empty, stands for.
pub open spec fn unit_value(q: Seq<char>) -> Seq<char> {
    if q[0] == '\\' && q.len() > 1 {
        escape_value(q[1])
    } else {
        seq![q[0]]
    }
}

/// The text that the query `q` stands for.
pub open spec fn decoded(q: Seq<char>) -> Seq<char>
    decreases q.len(),
{
    if q.len() == 0 {
        Seq::empty()
    } else {
        unit_value(q) + decoded(q.skip(unit_len(q)))
    }
}

/// How the line break, tab, backslash or other character `c` is written in a query.
pub open spec fn escape_of(c: char) -> Seq<char> {
    if c == '\\' {
        seq!['\\', '\\']
    } else if c == '\n' || c == '\r' {
        seq!['\\', 'n']
    } else if c == '\t' {
        seq!['\\', 't']
    } else if control(c) {
        Seq::empty()
    } else {
        seq![c]
    }
}

/// How many characters at the start of `raw`, which is not empty, are pasted as one: a carriage
/// return takes the line feed behind it along.
pub open spec fn paste_len(raw: Seq<char>) -> int {
    if raw[0] == '\r' && raw.len() > 1 && raw[1] == '\n' {
        2
    } else {
        1
    }
}

/// The query text for the pasted text `raw`.
pub open spec fn encoded(raw: Seq<char>) -> Seq<char>
    decreases raw.len(),
{
    if raw.len() == 0 {
        Seq::empty()
    } else {
        escape_of(raw[0]) + encoded(raw.skip(paste_len(raw)))
    }
}

/// What is kept of the pasted character `c`, which may be a line break.
pub open spec fn pasted(c: char) -> Seq<char> {
    if c == '\n' || c == '\r' {
        seq!['\n']
    } else if c != '\t' && control(c) {
        Seq::empty()
    } else {
        seq![c]
    }
}

/// `raw` with every line break written as a line feed, and without other control characters than
/// tabs.
pub open spec fn normalized(raw: Seq<char>) -> Seq<char>
    decreases raw.len(),
{
    if raw.len() == 0 {
        Seq::empty()
    } else {
        pasted(raw[0]) + normalized(raw.skip(paste_len(raw)))
    }
}

/// Decodes the escapes of a query: `\n` is a line break, `\t` a tab, `\r` a carriage return and
/// `\\` a backslash; other sequences stand for themselves.
pub fn decode_escapes(q: &str) -> (r: String)
    ensures
        r@ == decoded(q@),
{
    let chars = to_chars(q);
    let n: usize = chars.len();
    let mut out = String::new();
    let mut i: usize = 0;
    assert(q@.skip(0) == q@);
    while i < n
        invariant
            i <= n == chars@.len(),
            chars@ == q@,
            decoded(q@) == out@ + decoded(q@.skip(i as int)),
        decreases n - i,
    {
        let c = chars[i];
        let ghost rest = q@.skip(i as int);
        let ghost before = out@;
        if c != '\\' || i + 1 >= n {
            out.push(c);
            assert(rest.skip(1) == q@.skip(i + 1));
            assert(before + (seq![c] + decoded(q@.skip(i + 1))) == out@ + decoded(q@.skip(i + 1)));
            i += 1;
        } else {
            let d = chars[i + 1];
            assert(rest[1] == d);
            match d {
                'n' => out.push('\n'),
                't' => out.push('\t'),
                'r' => out.push('\r'),
                '\\' => out.push('\\'),
                _ => {
                    out.push('\\');
                    out.push(d);
                },
            }
            assert(out@ == before + escape_value(d));
            assert(rest.skip(2) == q@.skip(i + 2));
            assert(before + (escape_value(d) + decoded(q@.skip(i + 2))) == out@ + decoded(
                q@.skip(i + 2),
            ));
            i += 2;
        }
    }
    assert(q@.skip(i as int).len() == 0);
    assert(out@ + decoded(q@.skip(i as int)) == out@);
    out
}

/// Encodes pasted text as query text: line breaks and tabs become `\n` and `\t`, a backslash
/// `\\`; other control characters are dropped.
pub fn encode_paste(raw: &str) -> (r: String)
    ensures
        r@ == encoded(raw@),
{
    let chars = to_chars(raw);
    let n: usize = chars.len();
    let mut out = String::new();
    let mut i: usize = 0;
    assert(raw@.skip(0) == raw@);
    while i < n
        invariant
            i <= n == chars@.len(),
            chars@ == raw@,
            encoded(raw@) == out@ + encoded(raw@.skip(i as int)),
        decreases n - i,
    {
        let c = chars[i];
        let ghost rest = raw@.skip(i as int);
        let ghost before = out@;
        let mut step: usize = 1;
        if c == '\\' {
            out.push('\\');
            out.push('\\');
        } else if c == '\n' {
            out.push('\\');
            out.push('n');
        } else if c == '\t' {
            out.push('\\');
            out.push('t');
        } else if c == '\r' {
            if i + 1 < n && chars[i + 1] == '\n' {
                step = 2;
            }
            out.push('\\');
            out.push('n');
        } else if !is_control(c) {
            out.push(c);
        }
        assert(out@ == before + escape_of(c));
        assert(step == paste_len(rest));
        assert(rest.skip(step as int) == raw@.skip(i + step));
        assert(before + (escape_of(c) + encoded(raw@.skip(i + step))) == out@ + encoded(
            raw@.skip(i + step),
        ));
        i += step;
    }
    assert(raw@.skip(i as int).len() == 0);
    assert(out@ + encoded(raw@.skip(i as int)) == out@);
    out
}

/// Tells whether `s` holds a line feed.
pub fn has_line_break(s: &str) -> (r: bool)
    ensures
        r == s@.contains('\n'),
{
    let chars = to_chars(s);
    holds_char(chars.as_slice(), '\n')
}

proof fn decoded_escape(c: char, rest: Seq<char>)
    ensures
        decoded(escape_of(c) + rest) == pasted(c) + decoded(rest),
{
    let e = escape_of(c);
    let q = e + rest;
    if e.len() == 0 {
        assert(q == rest);
        assert(pasted(c) + decoded(rest) == decoded(rest));
    } else if e.len() == 2 {
        assert(q[0] == '\\' && q[1] == e[1]);
        assert(q.skip(2) == rest);
        assert(unit_value(q) == escape_value(e[1]));
        assert(escape_value(e[1]) == pasted(c));
    } else {
        assert(q.skip(1) == rest);
        assert(unit_value(q) == seq![c]);
    }
}

/// Decoding what pasting encoded gives the pasted text back, with its line breaks written as
/// line feeds and without control characters that a query cannot hold.
pub proof fn decode_of_encode(raw: Seq<char>)
    ensures
        decoded(encoded(raw)) == normalized(raw),
    decreases raw.len(),
{
    if raw.len() > 0 {
        let rest = raw.skip(paste_len(raw));
        decode_of_encode(rest);
        decoded_escape(raw[0], encoded(rest));
    }
}

/// Text whose only control characters are line feeds and tabs comes back unchanged when it is
/// pasted and decoded.
pub proof fn decode_inverts_encode(raw: Seq<char>)
    requires
        forall|i: int|
            0 <= i < raw.len() ==> (control(#[trigger] raw[i]) ==> raw[i] == '\n' || raw[i]
                == '\t'),
    ensures
        decoded(encoded(raw)) == raw,
{
    decode_of_encode(raw);
    normalized_clean(raw);
}

proof fn normalized_clean(raw: Seq<char>)
    requires
        forall|i: int|
            0 <= i < raw.len() ==> (control(#[trigger] raw[i]) ==> raw[i] == '\n' || raw[i]
                == '\t'),
    ensures
        normalized(raw) == raw,
    decreases raw.len(),
{
    if raw.len() > 0 {
        let rest = raw.skip(1);
        assert(control('\r'));
        assert(raw[0] != '\r');
        assert forall|i: int| 0 <= i < rest.len() && control(#[trigger] rest[i]) implies rest[i]
            == '\n' || rest[i] == '\t' by {
            assert(rest[i] == raw[i + 1]);
        }
        normalized_clean(rest);
        assert(seq![raw[0]] + rest == raw);
    }
}

/// A query without a backslash stands for itself.
pub proof fn decoded_plain(q: Seq<char>)
    requires
        !q.contains('\\'),
    ensures
        decoded(q) == q,
    decreases q.len(),
{
    if q.len() > 0 {
        assert(q[0] != '\\');
        let rest = q.skip(1);
        assert forall|i: int| 0 <= i < rest.len() implies rest[i] != '\\' by {
            assert(rest[i] == q[i + 1]);
        }
        decoded_plain(rest);
        assert(seq![q[0]] + rest == q);
    }
}

proof fn encoded_clean(raw: Seq<char>, i: int)
    requires
        0 <= i < encoded(raw).len(),
    ensures
        !control(encoded(raw)[i]),
    decreases raw.len(),
{
    let e = escape_of(raw[0]);
    if i >= e.len() {
        encoded_clean(raw.skip(paste_len(raw)), i - e.len());
    }
}

/// Pasted query text holds no control character, so none reaches the screen.
pub proof fn encoded_has_no_control(raw: Seq<char>)
    ensures
        forall|i: int| 0 <= i < encoded(raw).len() ==> !control(#[trigger] encoded(raw)[i]),
{
    assert forall|i: int| 0 <= i < encoded(raw).len() implies !control(
        #[trigger] encoded(raw)[i],
    ) by {
        encoded_clean(raw, i);
    }
}

// ------------------------------------------------------------ text pasted into a popup

/// What a popup of several lines takes of pasted text: line breaks as line feeds, and no other
/// control character.
pub open spec fn pasted_lines(raw: Seq<char>) -> Seq<char>
    decreases raw.len(),
{
    if raw.len() == 0 {
        Seq::empty()
    } else {
        let kept = if raw[0] == '\n' || raw[0] == '\r' {
            seq!['\n']
        } else if control(raw[0]) {
            Seq::empty()
        } else {
            seq![raw[0]]
        };
        kept + pasted_lines(raw.skip(paste_len(raw)))
    }
}

/// What a popup of one line takes of pasted text: everything but control characters.
pub open spec fn pasted_line(raw: Seq<char>) -> Seq<char> {
    raw.filter(|c: char| !control(c))
}

/// Cleans text pasted into a popup of several lines.
pub fn clean_lines(raw: &str) -> (r: String)
    ensures
        r@ == pasted_lines(raw@),
{
    let chars = to_chars(raw);
    let n: usize = chars.len();
    let mut out = String::new();
    let mut i: usize = 0;
    assert(raw@.skip(0) == raw@);
    while i < n
        invariant
            i <= n == chars@.len(),
            chars@ == raw@,
            pasted_lines(raw@) == out@ + pasted_lines(raw@.skip(i as int)),
        decreases n - i,
    {
        let c = chars[i];
        let ghost rest = raw@.skip(i as int);
        let ghost before = out@;
        let mut step: usize = 1;
        if c == '\n' {
            out.push('\n');
        } else if c == '\r' {
            if i + 1 < n && chars[i + 1] == '\n' {
                step = 2;
            }
            out.push('\n');
        } else if !is_control(c) {
            out.push(c);
        }
        assert(step == paste_len(rest));
        let ghost tail = pasted_lines(raw@.skip(i + step));
        assert(rest.skip(step as int) == raw@.skip(i + step));
        assert(pasted_lines(rest) == out@.skip(before.len() as int) + tail);
        assert(before + (out@.skip(before.len() as int) + tail) == out@ + tail);
        i += step;
    }
    assert(raw@.skip(i as int).len() == 0);
    assert(out@ + pasted_lines(raw@.skip(i as int)) == out@);
    out
}

/// Cleans text pasted into a popup of one line.
pub fn clean_line(raw: &str) -> (r: String)
    ensures
        r@ == pasted_line(raw@),
{
    let chars = to_chars(raw);
    let n: usize = chars.len();
    let mut out: Vec<char> = Vec::new();
    let mut i: usize = 0;
    while i < n
        invariant
            i <= n == chars@.len(),
            chars@ == raw@,
            out@ == raw@.take(i as int).filter(|c: char| !control(c)),
        decreases n - i,
    {
        let c = chars[i];
        assert(raw@.take(i + 1).drop_last() == raw@.take(i as int));
        reveal(Seq::filter);
        if !is_control(c) {
            out.push(c);
        }
        i += 1;
    }
    assert(raw@.take(i as int) == raw@);
    from_chars(out.as_slice())
}

} // verus!
