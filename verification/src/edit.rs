//! Editing a line of text at a cursor that counts characters.

use crate::text::{from_chars, to_chars};
use vstd::prelude::*;
use vstd::slice::slice_subrange;

verus! {

/// A text and the cursor in it.
#[verifier::ext_equal]
pub struct Field {
    pub text: Seq<char>,
    pub cursor: int,
}

/// The sum of a cursor and a length, kept within the range of cursors.
pub open spec fn advanced(cursor: int, by: int) -> int {
    if cursor + by > usize::MAX {
        usize::MAX as int
    } else {
        cursor + by
    }
}

/// Where text is put in: at the cursor, or at the end where the cursor is behind it.
pub open spec fn place_in(text: Seq<char>, cursor: int) -> int {
    if cursor <= text.len() {
        cursor
    } else {
        text.len() as int
    }
}

/// `new` put in at the cursor.
pub open spec fn inserted(f: Field, new: Seq<char>) -> Field {
    let at = place_in(f.text, f.cursor);
    Field {
        text: f.text.take(at) + new + f.text.skip(at),
        cursor: advanced(f.cursor, new.len() as int),
    }
}

/// The text without the character at `at`, where there is one.
pub open spec fn without(text: Seq<char>, at: int) -> Seq<char> {
    if 0 <= at < text.len() {
        text.remove(at)
    } else {
        text
    }
}

/// The character before the cursor taken out.
pub open spec fn backspaced(f: Field) -> Field {
    if f.cursor > 0 {
        Field { text: without(f.text, f.cursor - 1), cursor: f.cursor - 1 }
    } else {
        f
    }
}

/// The character at the cursor taken out.
pub open spec fn deleted(f: Field) -> Field {
    Field { text: without(f.text, f.cursor), cursor: f.cursor }
}

/// The cursor one character to the left.
pub open spec fn moved_left(f: Field) -> Field {
    Field {
        cursor: if f.cursor > 0 {
            f.cursor - 1
        } else {
            0
        },
        ..f
    }
}

/// The cursor one character to the right, not behind the end.
pub open spec fn moved_right(f: Field) -> Field {
    Field {
        cursor: if f.cursor + 1 <= f.text.len() {
            f.cursor + 1
        } else {
            f.text.len() as int
        },
        ..f
    }
}

/// The cursor at the start.
pub open spec fn at_start(f: Field) -> Field {
    Field { cursor: 0, ..f }
}

/// The cursor at the end.
pub open spec fn at_end(f: Field) -> Field {
    Field { cursor: f.text.len() as int, ..f }
}

/// An empty text.
pub open spec fn emptied() -> Field {
    Field { text: Seq::empty(), cursor: 0 }
}

/// Where the part of the text before `cursor` starts that follows the last `sep`.
pub open spec fn part_start(text: Seq<char>, cursor: int, sep: char) -> int
    decreases cursor,
{
    if cursor <= 0 {
        0
    } else if cursor <= text.len() && text[cursor - 1] == sep {
        cursor
    } else {
        part_start(text, cursor - 1, sep)
    }
}

/// The text before the cursor taken out, back to the last `sep`, which stays.
pub open spec fn part_removed(f: Field, sep: char) -> Field {
    let start = part_start(f.text, f.cursor, sep);
    Field {
        text: f.text.take(place_in(f.text, start)) + f.text.skip(place_in(f.text, f.cursor)),
        cursor: start,
    }
}

/// The cursor stands in the text or at its end.
pub open spec fn in_text(f: Field) -> bool {
    0 <= f.cursor <= f.text.len()
}

/// Every edit keeps the cursor in the text.
pub proof fn edits_stay_in_text(f: Field, sep: char)
    requires
        in_text(f),
    ensures
        in_text(backspaced(f)),
        in_text(deleted(f)),
        in_text(moved_left(f)),
        in_text(moved_right(f)),
        in_text(at_start(f)),
        in_text(at_end(f)),
        in_text(emptied()),
        in_text(part_removed(f, sep)),
{
    part_start_bounds(f.text, f.cursor, sep);
}

/// Putting text in leaves the cursor behind it, in the text.
pub proof fn insertion_stays_in_text(f: Field, new: Seq<char>)
    requires
        in_text(f),
        inserted(f, new).text.len() <= usize::MAX,
    ensures
        in_text(inserted(f, new)),
        inserted(f, new).cursor == f.cursor + new.len(),
{
}

proof fn part_start_bounds(text: Seq<char>, cursor: int, sep: char)
    requires
        0 <= cursor,
    ensures
        0 <= part_start(text, cursor, sep) <= cursor,
    decreases cursor,
{
    if cursor > 0 {
        part_start_bounds(text, cursor - 1, sep);
    }
}

/// Typing a character and taking it back leaves the text and the cursor as they were.
pub proof fn backspace_undoes_typing(f: Field, c: char)
    requires
        in_text(f),
        f.text.len() < usize::MAX,
    ensures
        backspaced(inserted(f, seq![c])) == f,
{
    let g = inserted(f, seq![c]);
    assert(g.text.remove(f.cursor) == f.text);
}

/// Puts `new` into `text` at the cursor.
pub fn insert_at(text: &str, cursor: usize, new: &str) -> (r: String)
    ensures
        r@ == inserted(Field { text: text@, cursor: cursor as int }, new@).text,
{
    let chars = to_chars(text);
    let n: usize = chars.len();
    let at: usize = if cursor <= n {
        cursor
    } else {
        n
    };
    let mut r = from_chars(slice_subrange(chars.as_slice(), 0, at));
    assert(r@ == text@.take(at as int));
    r.append(new);
    let tail = from_chars(slice_subrange(chars.as_slice(), at, n));
    assert(tail@ == text@.skip(at as int));
    r.append(tail.as_str());
    r
}

/// Takes the character at `at` out of `text`, where there is one.
pub fn remove_at(text: &str, at: usize) -> (r: String)
    ensures
        r@ == without(text@, at as int),
{
    let mut chars = to_chars(text);
    if at < chars.len() {
        chars.remove(at);
    }
    from_chars(chars.as_slice())
}

/// Counts the characters of `text`.
pub fn char_count(text: &str) -> (n: usize)
    ensures
        n == text@.len(),
{
    to_chars(text).len()
}

/// Takes out what stands before the cursor, back to the last `sep`; gives the text and the
/// cursor.
pub fn remove_part(text: &str, cursor: usize, sep: char) -> (r: (String, usize))
    ensures
        (Field { text: r.0@, cursor: r.1 as int }) == part_removed(
            Field { text: text@, cursor: cursor as int },
            sep,
        ),
{
    let chars = to_chars(text);
    let n: usize = chars.len();
    let mut start: usize = cursor;
    while start > 0 && !(start <= n && chars[start - 1] == sep)
        invariant
            start <= cursor,
            n == chars@.len(),
            chars@ == text@,
            part_start(text@, cursor as int, sep) == part_start(text@, start as int, sep),
        decreases start,
    {
        start -= 1;
    }
    let from: usize = if start <= n {
        start
    } else {
        n
    };
    let to: usize = if cursor <= n {
        cursor
    } else {
        n
    };
    let mut r = from_chars(slice_subrange(chars.as_slice(), 0, from));
    assert(r@ == text@.take(from as int));
    let tail = from_chars(slice_subrange(chars.as_slice(), to, n));
    assert(tail@ == text@.skip(to as int));
    r.append(tail.as_str());
    (r, start)
}

} // verus!
