//! Text as sequences of characters: conversions, character classes, trimming,
//! splitting, joining and decimal numbers.

use vstd::prelude::*;
use vstd::slice::slice_subrange;

verus! {

/// `String::push` appends one character.
pub assume_specification[ String::push ](s: &mut String, c: char)
    ensures
        final(s)@ == old(s)@.push(c),
;

/// The characters of `s`.
pub fn to_chars(s: &str) -> (chars: Vec<char>)
    ensures
        chars@ == s@,
{
    let mut chars: Vec<char> = Vec::new();
    for c in it: s.chars()
        invariant
            chars@ == it.seq().take(it.index()),
            it.seq() == s@,
    {
        chars.push(c);
    }
    chars
}

/// The string made of `chars`.
pub fn from_chars(chars: &[char]) -> (s: String)
    ensures
        s@ == chars@,
{
    let mut s = String::new();
    let mut i: usize = 0;
    while i < chars.len()
        invariant
            i <= chars@.len(),
            s@ == chars@.take(i as int),
        decreases chars@.len() - i,
    {
        s.push(chars[i]);
        i += 1;
    }
    s
}

/// Whether `c` is a control character (the Unicode category Cc).
pub open spec fn control(c: char) -> bool {
    c as int <= 0x1f || 0x7f <= c as int <= 0x9f
}

/// Tells whether `c` is a control character.
pub fn is_control(c: char) -> (r: bool)
    ensures
        r == control(c),
{
    let v: u32 = c as u32;
    v <= 0x1f || (0x7f <= v && v <= 0x9f)
}

/// Whether `c` is white space (the Unicode property White_Space).
pub open spec fn whitespace(c: char) -> bool {
    let v = c as int;
    ||| 0x09 <= v <= 0x0d
    ||| v == 0x20
    ||| v == 0x85
    ||| v == 0xa0
    ||| v == 0x1680
    ||| 0x2000 <= v <= 0x200a
    ||| v == 0x2028
    ||| v == 0x2029
    ||| v == 0x202f
    ||| v == 0x205f
    ||| v == 0x3000
}

/// Tells whether `c` is white space.
pub fn is_whitespace(c: char) -> (r: bool)
    ensures
        r == whitespace(c),
{
    let v: u32 = c as u32;
    (0x09 <= v && v <= 0x0d) || v == 0x20 || v == 0x85 || v == 0xa0 || v == 0x1680 || (0x2000 <= v
        && v <= 0x200a) || v == 0x2028 || v == 0x2029 || v == 0x202f || v == 0x205f || v == 0x3000
}

/// Whether `c` is one of `0` to `9`.
pub open spec fn ascii_digit(c: char) -> bool {
    '0' as int <= c as int <= '9' as int
}

/// Tells whether `c` is one of `0` to `9`.
pub fn is_ascii_digit(c: char) -> (r: bool)
    ensures
        r == ascii_digit(c),
{
    let v: u32 = c as u32;
    0x30 <= v && v <= 0x39
}

/// The number of bytes that `c` takes in UTF-8.
pub open spec fn utf8_width(c: char) -> nat {
    if c as int <= 0x7f {
        1
    } else if c as int <= 0x7ff {
        2
    } else if c as int <= 0xffff {
        3
    } else {
        4
    }
}

/// The number of bytes that `s` takes in UTF-8.
pub open spec fn utf8_len(s: Seq<char>) -> nat
    decreases s.len(),
{
    if s.len() == 0 {
        0
    } else {
        utf8_len(s.drop_last()) + utf8_width(s.last())
    }
}

/// Computes the number of bytes that `c` takes in UTF-8.
pub fn utf8_width_of(c: char) -> (n: usize)
    ensures
        n == utf8_width(c),
        1 <= n <= 4,
{
    let v: u32 = c as u32;
    if v <= 0x7f {
        1
    } else if v <= 0x7ff {
        2
    } else if v <= 0xffff {
        3
    } else {
        4
    }
}

/// Computes the length of `chars` in UTF-8 bytes.
pub fn utf8_len_of(chars: &[char]) -> (n: u128)
    ensures
        n == utf8_len(chars@),
        n <= 4 * chars@.len(),
{
    let mut n: u128 = 0;
    let mut i: usize = 0;
    let total: usize = chars.len();
    while i < total
        invariant
            i <= total == chars@.len(),
            n == utf8_len(chars@.take(i as int)),
            n <= 4 * i,
        decreases chars@.len() - i,
    {
        assert(chars@.take(i + 1).drop_last() == chars@.take(i as int));
        n = n + utf8_width_of(chars[i]) as u128;
        i += 1;
    }
    assert(chars@.take(i as int) == chars@);
    n
}

/// The byte length of a concatenation is the sum of the byte lengths.
pub proof fn utf8_len_concat(a: Seq<char>, b: Seq<char>)
    ensures
        utf8_len(a + b) == utf8_len(a) + utf8_len(b),
    decreases b.len(),
{
    if b.len() == 0 {
        assert(a + b == a);
    } else {
        utf8_len_concat(a, b.drop_last());
        assert((a + b).drop_last() == a + b.drop_last());
    }
}

// ------------------------------------------------------------ equality and order

/// Tells whether two character slices are equal.
pub fn same_chars(a: &[char], b: &[char]) -> (r: bool)
    ensures
        r == (a@ == b@),
{
    if a.len() != b.len() {
        return false;
    }
    let mut i: usize = 0;
    while i < a.len()
        invariant
            i <= a@.len() == b@.len(),
            forall|k: int| 0 <= k < i ==> a@[k] == b@[k],
        decreases a@.len() - i,
    {
        if a[i] != b[i] {
            return false;
        }
        i += 1;
    }
    assert(a@ =~= b@);
    true
}

/// Tells whether two strings are equal.
pub fn same_str(a: &str, b: &str) -> (r: bool)
    ensures
        r == (a@ == b@),
{
    let x = to_chars(a);
    let y = to_chars(b);
    same_chars(x.as_slice(), y.as_slice())
}

/// Lexicographic order by code point: `a` comes before `b` or equals it.
pub open spec fn lex_le(a: Seq<char>, b: Seq<char>) -> bool
    decreases a.len(),
{
    if a.len() == 0 {
        true
    } else if b.len() == 0 {
        false
    } else if a[0] == b[0] {
        lex_le(a.drop_first(), b.drop_first())
    } else {
        (a[0] as int) < (b[0] as int)
    }
}

/// Any two texts are ordered one way or the other.
pub proof fn lex_le_total(a: Seq<char>, b: Seq<char>)
    ensures
        lex_le(a, b) || lex_le(b, a),
    decreases a.len(),
{
    if a.len() > 0 && b.len() > 0 && a[0] == b[0] {
        lex_le_total(a.drop_first(), b.drop_first());
    }
}

/// The order is transitive.
pub proof fn lex_le_transitive(a: Seq<char>, b: Seq<char>, c: Seq<char>)
    requires
        lex_le(a, b),
        lex_le(b, c),
    ensures
        lex_le(a, c),
    decreases a.len(),
{
    if a.len() > 0 && b.len() > 0 && c.len() > 0 && a[0] == b[0] && b[0] == c[0] {
        lex_le_transitive(a.drop_first(), b.drop_first(), c.drop_first());
    }
}

/// Two texts that are ordered both ways are equal.
pub proof fn lex_le_antisymmetric(a: Seq<char>, b: Seq<char>)
    requires
        lex_le(a, b),
        lex_le(b, a),
    ensures
        a == b,
    decreases a.len(),
{
    if a.len() > 0 && b.len() > 0 && a[0] == b[0] {
        lex_le_antisymmetric(a.drop_first(), b.drop_first());
        assert(a == seq![a[0]] + a.drop_first());
        assert(b == seq![b[0]] + b.drop_first());
    } else {
        assert(a == b);
    }
}

/// Tells whether `a` has the smaller code point.
pub fn char_less(a: char, b: char) -> (r: bool)
    ensures
        r == ((a as int) < (b as int)),
{
    (a as u32) < (b as u32)
}

/// Tells whether `a` comes before `b` in the order by code point, or equals it.
pub fn lex_at_most(a: &str, b: &str) -> (r: bool)
    ensures
        r == lex_le(a@, b@),
{
    let x = to_chars(a);
    let y = to_chars(b);
    assert(a@.skip(0) == a@);
    assert(b@.skip(0) == b@);
    let mut i: usize = 0;
    while i < x.len() && i < y.len()
        invariant
            x@ == a@,
            y@ == b@,
            i <= x@.len(),
            i <= y@.len(),
            lex_le(a@, b@) == lex_le(a@.skip(i as int), b@.skip(i as int)),
        decreases x@.len() - i,
    {
        if x[i] != y[i] {
            return char_less(x[i], y[i]);
        }
        assert(a@.skip(i as int).drop_first() == a@.skip(i + 1));
        assert(b@.skip(i as int).drop_first() == b@.skip(i + 1));
        i += 1;
    }
    i >= x.len()
}

// ------------------------------------------------------------ trimming

/// `s` without its leading white space.
pub open spec fn trim_start(s: Seq<char>) -> Seq<char>
    decreases s.len(),
{
    if s.len() > 0 && whitespace(s[0]) {
        trim_start(s.drop_first())
    } else {
        s
    }
}

/// `s` without its trailing white space.
pub open spec fn trim_end(s: Seq<char>) -> Seq<char>
    decreases s.len(),
{
    if s.len() > 0 && whitespace(s.last()) {
        trim_end(s.drop_last())
    } else {
        s
    }
}

/// `s` without white space at either end.
pub open spec fn trim(s: Seq<char>) -> Seq<char> {
    trim_end(trim_start(s))
}

/// Trimming the start removes exactly the leading run of white space.
proof fn trim_start_is(s: Seq<char>, i: int)
    requires
        0 <= i <= s.len(),
        forall|k: int| 0 <= k < i ==> whitespace(s[k]),
        i < s.len() ==> !whitespace(s[i]),
    ensures
        trim_start(s) == s.skip(i),
    decreases s.len(),
{
    if i == 0 {
        assert(s.skip(0) == s);
    } else {
        assert(whitespace(s[0]));
        let t = s.drop_first();
        assert forall|k: int| 0 <= k < i - 1 implies whitespace(t[k]) by {
            assert(t[k] == s[k + 1]);
        }
        trim_start_is(t, i - 1);
        assert(t.skip(i - 1) == s.skip(i));
    }
}

/// Trimming the end removes exactly the trailing run of white space.
proof fn trim_end_is(s: Seq<char>, j: int)
    requires
        0 <= j <= s.len(),
        forall|k: int| j <= k < s.len() ==> whitespace(s[k]),
        j > 0 ==> !whitespace(s[j - 1]),
    ensures
        trim_end(s) == s.take(j),
    decreases s.len(),
{
    if j == s.len() {
        assert(s.take(j) == s);
    } else {
        assert(whitespace(s[s.len() - 1]));
        trim_end_is(s.drop_last(), j);
        assert(s.drop_last().take(j) == s.take(j));
    }
}

/// Removes white space at both ends of `chars`.
pub fn trim_chars(chars: &[char]) -> (r: &[char])
    ensures
        r@ == trim(chars@),
{
    let n: usize = chars.len();
    let mut i: usize = 0;
    while i < n && is_whitespace(chars[i])
        invariant
            i <= n == chars@.len(),
            forall|k: int| 0 <= k < i ==> whitespace(chars@[k]),
        decreases n - i,
    {
        i += 1;
    }
    let mut j: usize = n;
    while j > i && is_whitespace(chars[j - 1])
        invariant
            i <= j <= n == chars@.len(),
            forall|k: int| j <= k < n ==> whitespace(chars@[k]),
        decreases j,
    {
        j -= 1;
    }
    proof {
        trim_start_is(chars@, i as int);
        let t = chars@.skip(i as int);
        assert forall|k: int| j - i <= k < t.len() implies whitespace(t[k]) by {
            assert(t[k] == chars@[k + i]);
        }
        trim_end_is(t, j - i);
        assert(t.take(j - i) == chars@.subrange(i as int, j as int));
    }
    slice_subrange(chars, i, j)
}

/// Removes white space at both ends of `s`.
pub fn trim_str(s: &str) -> (r: String)
    ensures
        r@ == trim(s@),
{
    let chars = to_chars(s);
    from_chars(trim_chars(chars.as_slice()))
}

/// A trimmed text has no white space at its ends.
pub proof fn trim_ends(s: Seq<char>)
    ensures
        trim(s).len() > 0 ==> !whitespace(trim(s)[0]) && !whitespace(trim(s).last()),
    decreases s.len(),
{
    if s.len() > 0 && whitespace(s[0]) {
        trim_ends(s.drop_first());
    } else {
        trim_end_keeps_first(s);
    }
}

proof fn trim_end_keeps_first(s: Seq<char>)
    ensures
        trim_end(s).len() > 0 ==> trim_end(s)[0] == s[0] && !whitespace(trim_end(s).last()),
        trim_end(s).len() <= s.len(),
    decreases s.len(),
{
    if s.len() > 0 && whitespace(s.last()) {
        trim_end_keeps_first(s.drop_last());
    }
}

/// Trimming twice is trimming once.
pub proof fn trim_idempotent(s: Seq<char>)
    ensures
        trim(trim(s)) == trim(s),
{
    trim_ends(s);
    let t = trim(s);
    assert(trim_start(t) == t);
    assert(trim_end(t) == t);
}

// ------------------------------------------------------------ splitting and joining

/// The pieces of `s` between the occurrences of `sep`; always at least one.
pub open spec fn split(s: Seq<char>, sep: char) -> Seq<Seq<char>>
    decreases s.len(),
{
    if s.len() == 0 {
        seq![Seq::empty()]
    } else {
        let before = split(s.drop_last(), sep);
        if s.last() == sep {
            before.push(Seq::empty())
        } else {
            before.drop_last().push(before.last().push(s.last()))
        }
    }
}

/// The texts of `parts` one after another, with `sep` between them.
pub open spec fn join(parts: Seq<Seq<char>>, sep: Seq<char>) -> Seq<char>
    decreases parts.len(),
{
    if parts.len() == 0 {
        Seq::empty()
    } else if parts.len() == 1 {
        parts[0]
    } else {
        join(parts.drop_last(), sep) + sep + parts.last()
    }
}

/// The contents of a sequence of strings.
pub open spec fn texts(v: Seq<String>) -> Seq<Seq<char>> {
    v.map_values(|s: String| s@)
}

/// Splitting gives at least one piece, and no piece holds the separator.
pub proof fn split_pieces(s: Seq<char>, sep: char)
    ensures
        split(s, sep).len() > 0,
        forall|i: int, j: int|
            0 <= i < split(s, sep).len() && 0 <= j < split(s, sep)[i].len() ==> split(s, sep)[i][j]
                != sep,
    decreases s.len(),
{
    if s.len() > 0 {
        split_pieces(s.drop_last(), sep);
    }
}

/// Joining the pieces of a text with the separator gives the text back.
pub proof fn join_of_split(s: Seq<char>, sep: char)
    ensures
        join(split(s, sep), seq![sep]) == s,
    decreases s.len(),
{
    if s.len() > 0 {
        let before = split(s.drop_last(), sep);
        split_pieces(s.drop_last(), sep);
        join_of_split(s.drop_last(), sep);
        assert(s == s.drop_last().push(s.last()));
        if s.last() == sep {
            assert(split(s, sep).drop_last() == before);
            assert(join(split(s, sep), seq![sep]) == s.drop_last() + seq![sep] + Seq::<
                char,
            >::empty());
        } else {
            let pieces = split(s, sep);
            if before.len() == 1 {
                assert(pieces[0] == before[0].push(s.last()));
            } else {
                assert(pieces.drop_last() == before.drop_last());
                assert(join(pieces, seq![sep]) == join(before, seq![sep]).push(s.last()));
            }
        }
    }
}

/// Splits `s` at every `sep`.
pub fn split_str(s: &str, sep: char) -> (parts: Vec<String>)
    ensures
        texts(parts@) == split(s@, sep),
{
    let chars = to_chars(s);
    let mut parts: Vec<String> = Vec::new();
    let mut current = String::new();
    let n: usize = chars.len();
    let mut i: usize = 0;
    while i < n
        invariant
            i <= n == chars@.len(),
            chars@ == s@,
            texts(parts@).push(current@) == split(s@.take(i as int), sep),
        decreases n - i,
    {
        let c = chars[i];
        assert(s@.take(i + 1).drop_last() == s@.take(i as int));
        let ghost before = texts(parts@);
        if c == sep {
            parts.push(current);
            current = String::new();
            assert(texts(parts@).push(current@) == split(s@.take(i + 1), sep));
        } else {
            let ghost old_current = current@;
            current.push(c);
            assert(before.push(old_current).drop_last() == before);
            assert(texts(parts@).push(current@) == split(s@.take(i + 1), sep));
        }
        i += 1;
    }
    assert(s@.take(i as int) == s@);
    let ghost before = texts(parts@);
    parts.push(current);
    assert(texts(parts@) == before.push(current@));
    parts
}

/// Joins `parts` with `sep` between them.
pub fn join_strings(parts: &Vec<String>, sep: &str) -> (r: String)
    ensures
        r@ == join(texts(parts@), sep@),
{
    let mut r = String::new();
    let mut i: usize = 0;
    while i < parts.len()
        invariant
            i <= parts@.len(),
            r@ == join(texts(parts@).take(i as int), sep@),
        decreases parts@.len() - i,
    {
        if i > 0 {
            r.append(sep);
        }
        r.append(parts[i].as_str());
        proof {
            let now = texts(parts@).take(i + 1);
            assert(now.drop_last() == texts(parts@).take(i as int));
        }
        i += 1;
    }
    assert(texts(parts@).take(i as int) == texts(parts@));
    r
}

/// `line` without one carriage return at its end.
pub open spec fn strip_return(line: Seq<char>) -> Seq<char> {
    if line.len() > 0 && line.last() == '\r' {
        line.drop_last()
    } else {
        line
    }
}

/// The lines of `s`: ended by a line feed, with or without a carriage return before it; the last
/// one may lack the line feed, and then keeps its carriage return.
pub open spec fn lines(s: Seq<char>) -> Seq<Seq<char>> {
    let pieces = split(s, '\n');
    let whole = pieces.drop_last().map_values(|l: Seq<char>| strip_return(l));
    if pieces.last().len() == 0 {
        whole
    } else {
        whole.push(pieces.last())
    }
}

/// Splits `s` into lines.
pub fn lines_of(s: &str) -> (r: Vec<String>)
    ensures
        texts(r@) == lines(s@),
{
    let mut pieces = split_str(s, '\n');
    let ghost all = texts(pieces@);
    proof {
        split_pieces(s@, '\n');
        assert(all.len() == pieces@.len());
    }
    let last: String = pieces.pop().unwrap();
    assert(last@ == all.last());
    assert(texts(pieces@) == all.drop_last());
    let mut r: Vec<String> = Vec::new();
    let mut i: usize = 0;
    while i < pieces.len()
        invariant
            i <= pieces@.len(),
            texts(pieces@) == all.drop_last(),
            texts(r@) == all.drop_last().take(i as int).map_values(
                |l: Seq<char>| strip_return(l),
            ),
        decreases pieces@.len() - i,
    {
        let chars = to_chars(pieces[i].as_str());
        let n: usize = chars.len();
        assert(chars@ == all.drop_last()[i as int]);
        let ghost before = texts(r@);
        let line = if n > 0 && chars[n - 1] == '\r' {
            assert(chars@.subrange(0, n - 1) == chars@.drop_last());
            from_chars(slice_subrange(chars.as_slice(), 0, n - 1))
        } else {
            from_chars(chars.as_slice())
        };
        r.push(line);
        assert(texts(r@) == before.push(strip_return(chars@)));
        assert(all.drop_last().take(i + 1) == all.drop_last().take(i as int).push(
            all.drop_last()[i as int],
        ));
        i += 1;
    }
    assert(all.drop_last().take(i as int) == all.drop_last());
    if last.as_str().is_empty() {
        r
    } else {
        let ghost before = texts(r@);
        r.push(last);
        assert(texts(r@) == before.push(all.last()));
        r
    }
}

// ------------------------------------------------------------ prefixes and occurrences

/// Whether `needle` stands in `hay` at position `k`.
pub open spec fn occurs_at(hay: Seq<char>, needle: Seq<char>, k: int) -> bool {
    0 <= k && k + needle.len() <= hay.len() && hay.subrange(k, k + needle.len()) == needle
}

/// Whether `needle` occurs somewhere in `hay`.
pub open spec fn occurs(hay: Seq<char>, needle: Seq<char>) -> bool {
    exists|k: int| occurs_at(hay, needle, k)
}

/// Whether `k` is the first position at which `needle` stands in `hay`.
pub open spec fn first_at(hay: Seq<char>, needle: Seq<char>, k: int) -> bool {
    occurs_at(hay, needle, k) && forall|j: int| j < k ==> !occurs_at(hay, needle, j)
}

/// The first position at which `needle` stands in `hay`, where it occurs.
pub open spec fn first_occurrence(hay: Seq<char>, needle: Seq<char>) -> int {
    choose|k: int| first_at(hay, needle, k)
}

/// There is only one first position.
pub proof fn first_occurrence_is(hay: Seq<char>, needle: Seq<char>, k: int)
    requires
        first_at(hay, needle, k),
    ensures
        first_occurrence(hay, needle) == k,
        occurs(hay, needle),
{
    let f = first_occurrence(hay, needle);
    assert(first_at(hay, needle, f));
    if f < k {
        assert(!occurs_at(hay, needle, f));
    } else if k < f {
        assert(!occurs_at(hay, needle, k));
    }
}

/// What occurs has a first position.
pub proof fn first_occurrence_exists(hay: Seq<char>, needle: Seq<char>, k: int)
    requires
        occurs_at(hay, needle, k),
    ensures
        first_at(hay, needle, first_occurrence(hay, needle)),
    decreases k,
{
    if exists|j: int| j < k && occurs_at(hay, needle, j) {
        let j = choose|j: int| j < k && occurs_at(hay, needle, j);
        first_occurrence_exists(hay, needle, j);
    } else {
        assert(first_at(hay, needle, k));
    }
}

/// Tells whether `needle` stands in `hay` at position `k`.
pub fn stands_at(hay: &[char], needle: &[char], k: usize) -> (r: bool)
    ensures
        r == occurs_at(hay@, needle@, k as int),
{
    if needle.len() > hay.len() || k > hay.len() - needle.len() {
        return false;
    }
    same_chars(slice_subrange(hay, k, k + needle.len()), needle)
}

/// Finds the first position at which `needle` stands in `hay`.
pub fn find_chars(hay: &[char], needle: &[char]) -> (r: Option<usize>)
    ensures
        r is Some <==> occurs(hay@, needle@),
        r matches Some(k) ==> first_at(hay@, needle@, k as int),
{
    if needle.len() > hay.len() {
        return None;
    }
    let last: usize = hay.len() - needle.len();
    let mut k: usize = 0;
    while k <= last
        invariant
            last + needle@.len() == hay@.len(),
            k <= last + 1,
            forall|j: int| j < k ==> !occurs_at(hay@, needle@, j),
        decreases last + 1 - k,
    {
        if stands_at(hay, needle, k) {
            return Some(k);
        }
        if k == last {
            assert(forall|j: int| !occurs_at(hay@, needle@, j));
            return None;
        }
        k += 1;
    }
    assert(forall|j: int| !occurs_at(hay@, needle@, j));
    None
}

/// Whether `s` starts with `prefix`.
pub open spec fn starts_with(s: Seq<char>, prefix: Seq<char>) -> bool {
    prefix.len() <= s.len() && s.take(prefix.len() as int) == prefix
}

/// What follows `prefix` in `s`, where `s` starts with it.
pub open spec fn strip_prefix(s: Seq<char>, prefix: Seq<char>) -> Option<Seq<char>> {
    if starts_with(s, prefix) {
        Some(s.skip(prefix.len() as int))
    } else {
        None
    }
}

/// What follows `prefix` in `s`, where `s` starts with it.
pub fn after_prefix(s: &str, prefix: &str) -> (r: Option<String>)
    ensures
        r is Some == strip_prefix(s@, prefix@) is Some,
        r matches Some(t) ==> strip_prefix(s@, prefix@) == Some(t@),
{
    let x = to_chars(s);
    let p = to_chars(prefix);
    if x.len() < p.len() {
        return None;
    }
    assert(x@.take(p@.len() as int) == x@.subrange(0, p@.len() as int));
    if !same_chars(slice_subrange(x.as_slice(), 0, p.len()), p.as_slice()) {
        return None;
    }
    assert(x@.skip(p@.len() as int) == x@.subrange(p@.len() as int, x@.len() as int));
    Some(from_chars(slice_subrange(x.as_slice(), p.len(), x.len())))
}

/// Tells whether `s` starts with `prefix`.
pub fn has_prefix(s: &str, prefix: &str) -> (r: bool)
    ensures
        r == starts_with(s@, prefix@),
{
    after_prefix(s, prefix).is_some()
}

/// The position of the last `c` in `s`, or -1.
pub open spec fn last_position(s: Seq<char>, c: char) -> int
    decreases s.len(),
{
    if s.len() == 0 {
        -1
    } else if s.last() == c {
        s.len() - 1
    } else {
        last_position(s.drop_last(), c)
    }
}

/// The last position of a character holds it, and none after it does.
pub proof fn last_position_is(s: Seq<char>, c: char)
    ensures
        -1 <= last_position(s, c) < s.len(),
        last_position(s, c) >= 0 ==> s[last_position(s, c)] == c,
        forall|k: int| last_position(s, c) < k < s.len() ==> s[k] != c,
    decreases s.len(),
{
    if s.len() > 0 && s.last() != c {
        let t = s.drop_last();
        last_position_is(t, c);
        assert forall|k: int| last_position(s, c) < k < s.len() implies s[k] != c by {
            if k < t.len() {
                assert(t[k] != c);
            }
        }
    }
}

/// Finds the last `c` in `chars`.
pub fn rfind_char(chars: &[char], c: char) -> (r: Option<usize>)
    ensures
        r is None <==> last_position(chars@, c) == -1,
        r matches Some(k) ==> k == last_position(chars@, c) && k < chars@.len(),
{
    let mut i: usize = chars.len();
    assert(chars@.take(i as int) == chars@);
    while i > 0
        invariant
            i <= chars@.len(),
            last_position(chars@, c) == last_position(chars@.take(i as int), c),
        decreases i,
    {
        assert(chars@.take(i as int).drop_last() == chars@.take(i - 1));
        if chars[i - 1] == c {
            return Some(i - 1);
        }
        i -= 1;
    }
    None
}

/// Tells whether `chars` holds `c`.
pub fn holds_char(chars: &[char], c: char) -> (r: bool)
    ensures
        r == chars@.contains(c),
{
    let mut i: usize = 0;
    while i < chars.len()
        invariant
            i <= chars@.len(),
            forall|k: int| 0 <= k < i ==> chars@[k] != c,
        decreases chars@.len() - i,
    {
        if chars[i] == c {
            assert(chars@[i as int] == c);
            return true;
        }
        i += 1;
    }
    false
}

// ------------------------------------------------------------ decimal numbers

/// The digit for a number below ten.
pub open spec fn digit_char(d: int) -> char {
    if d == 0 {
        '0'
    } else if d == 1 {
        '1'
    } else if d == 2 {
        '2'
    } else if d == 3 {
        '3'
    } else if d == 4 {
        '4'
    } else if d == 5 {
        '5'
    } else if d == 6 {
        '6'
    } else if d == 7 {
        '7'
    } else if d == 8 {
        '8'
    } else {
        '9'
    }
}

/// `n` written in decimal.
pub open spec fn decimal(n: nat) -> Seq<char>
    decreases n,
{
    if n < 10 {
        seq![digit_char(n as int)]
    } else {
        decimal(n / 10).push(digit_char((n % 10) as int))
    }
}

/// An integer written in decimal, with a minus sign where it is negative.
pub open spec fn signed_decimal(n: int) -> Seq<char> {
    if n < 0 {
        seq!['-'] + decimal((-n) as nat)
    } else {
        decimal(n as nat)
    }
}

/// The number that the digits of `s` stand for.
pub open spec fn decimal_value(s: Seq<char>) -> nat
    decreases s.len(),
{
    if s.len() == 0 {
        0
    } else {
        (10 * decimal_value(s.drop_last()) + (s.last() as int - '0' as int)) as nat
    }
}

/// Whether every character of `s` is a digit.
pub open spec fn all_digits(s: Seq<char>) -> bool {
    forall|i: int| 0 <= i < s.len() ==> ascii_digit(s[i])
}

/// The number that `s` writes: digits, with a plus sign before them or not, up to `u64::MAX`.
pub open spec fn parse_number(s: Seq<char>) -> Option<u64> {
    let digits = if s.len() > 0 && s[0] == '+' {
        s.drop_first()
    } else {
        s
    };
    if digits.len() > 0 && all_digits(digits) && decimal_value(digits) <= u64::MAX {
        Some(decimal_value(digits) as u64)
    } else {
        None
    }
}

fn digit_value(c: char) -> (d: u64)
    requires
        ascii_digit(c),
    ensures
        d == c as int - '0' as int,
{
    (c as u32 - 0x30) as u64
}

fn digit(d: u64) -> (c: char)
    requires
        d < 10,
    ensures
        c == digit_char(d as int),
{
    match d {
        0 => '0',
        1 => '1',
        2 => '2',
        3 => '3',
        4 => '4',
        5 => '5',
        6 => '6',
        7 => '7',
        8 => '8',
        _ => '9',
    }
}

/// Writes `n` in decimal.
pub fn decimal_of(n: u64) -> (s: String)
    ensures
        s@ == decimal(n as nat),
    decreases n,
{
    if n < 10 {
        let mut s = String::new();
        s.push(digit(n));
        assert(s@ == decimal(n as nat));
        s
    } else {
        let mut s = decimal_of(n / 10);
        s.push(digit(n % 10));
        s
    }
}

/// Writes `n` in decimal, with its sign where it is negative.
pub fn signed_decimal_of(n: i64) -> (s: String)
    ensures
        s@ == signed_decimal(n as int),
{
    if n < 0 {
        let mut s = String::new();
        s.push('-');
        let m: i128 = 0 - (n as i128);
        s.append(decimal_of(m as u64).as_str());
        assert(s@ == signed_decimal(n as int));
        s
    } else {
        decimal_of(n as u64)
    }
}

/// A longer run of digits stands for no smaller a number.
proof fn decimal_value_grows(s: Seq<char>, i: int)
    requires
        0 <= i <= s.len(),
        all_digits(s),
    ensures
        decimal_value(s.take(i)) <= decimal_value(s),
    decreases s.len() - i,
{
    if i == s.len() {
        assert(s.take(i) == s);
    } else {
        assert(s.take(i + 1).drop_last() == s.take(i));
        assert(ascii_digit(s[i]));
        decimal_value_grows(s, i + 1);
    }
}

/// Reads a decimal number.
pub fn parse_number_of(s: &[char]) -> (r: Option<u64>)
    ensures
        r == parse_number(s@),
{
    let start: usize = if s.len() > 0 && s[0] == '+' {
        1
    } else {
        0
    };
    let digits = slice_subrange(s, start, s.len());
    assert(start == 1 ==> digits@ == s@.drop_first());
    assert(start == 0 ==> digits@ == s@);
    if digits.len() == 0 {
        return None;
    }
    let mut value: u64 = 0;
    let mut i: usize = 0;
    while i < digits.len()
        invariant
            i <= digits@.len(),
            digits@.len() > 0,
            digits@ == (if s@.len() > 0 && s@[0] == '+' {
                s@.drop_first()
            } else {
                s@
            }),
            all_digits(digits@.take(i as int)),
            value == decimal_value(digits@.take(i as int)),
        decreases digits@.len() - i,
    {
        let c = digits[i];
        assert(digits@.take(i + 1).drop_last() == digits@.take(i as int));
        if !is_ascii_digit(c) {
            assert(!ascii_digit(digits@[i as int]));
            return None;
        }
        let d: u64 = digit_value(c);
        let wide: u128 = 10 * (value as u128) + d as u128;
        assert(wide == decimal_value(digits@.take(i + 1)));
        if wide > 0xffff_ffff_ffff_ffff {
            proof {
                if all_digits(digits@) {
                    decimal_value_grows(digits@, i + 1);
                }
            }
            return None;
        }
        value = wide as u64;
        let ghost now = digits@.take(i + 1);
        assert forall|k: int| 0 <= k < now.len() implies ascii_digit(now[k]) by {
            if k < i {
                assert(ascii_digit(digits@.take(i as int)[k]));
            }
        }
        i += 1;
    }
    assert(digits@.take(i as int) == digits@);
    Some(value)
}

/// Reading back a written number gives the number.
pub proof fn parse_of_decimal(n: u64)
    ensures
        parse_number(decimal(n as nat)) == Some(n),
{
    decimal_digits(n as nat);
    let s = decimal(n as nat);
    assert(ascii_digit(s[0]));
}

/// A written number is made of digits that stand for it.
pub proof fn decimal_digits(n: nat)
    ensures
        decimal(n).len() > 0,
        all_digits(decimal(n)),
        decimal_value(decimal(n)) == n,
    decreases n,
{
    let s = decimal(n);
    if n < 10 {
        assert(s.drop_last().len() == 0);
        assert(decimal_value(s.drop_last()) == 0);
        assert(s.last() == digit_char(n as int));
    } else {
        decimal_digits(n / 10);
        assert(s.drop_last() == decimal(n / 10));
        assert forall|i: int| 0 <= i < s.len() implies ascii_digit(s[i]) by {
            if i < s.len() - 1 {
                assert(ascii_digit(decimal(n / 10)[i]));
            }
        }
    }
}

} // verus!
