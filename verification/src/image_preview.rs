//! Pictures in the terminal by the kitty graphics protocol: a picture is scaled down, encoded as
//! PNG and sent in chunks of base64 text; encoded pictures are cached on disk.

use crate::layout::Rect;
use crate::paths::{absolute, extension, extension_of, join_path, join_path_of};
use crate::sort::{insert, keys, sort, sorted, Ranked};
use crate::text::{decimal, decimal_of, same_str, to_chars};
use base64::engine::general_purpose;
use base64::Engine;
use image::metadata::Orientation;
use image::{DynamicImage, ImageDecoder, ImageFormat, ImageReader};
use std::io::Cursor;
use vstd::bytes::{spec_u32_to_le_bytes, spec_u64_to_le_bytes, u32_to_le_bytes, u64_to_le_bytes};
use vstd::prelude::*;
use vstd::utf8::{encode_utf8, is_ascii_chars, is_ascii_chars_encode_utf8};

verus! {

/// How many characters of base64 text a chunk holds at most.
pub const CHUNK: usize = 4096;

/// How much memory a decoded picture may take.
pub const MAX_ALLOC: u64 = 536870912;

/// How many bytes the cache on disk may hold.
pub const MAX_CACHE_BYTES: u64 = 268435456;

// ------------------------------------------------------------ the terminal

/// What the environment tells of the terminal: whether variables are set that only some
/// terminals set, and two names.
#[derive(Debug)]
pub struct TerminalEnv {
    pub kitty_window_id: bool,
    pub alacritty_window_id: bool,
    pub ghostty_resources_dir: bool,
    pub wezterm_executable: bool,
    pub konsole_version: bool,
    pub term: Option<String>,
    pub term_program: Option<String>,
}

fn is_text(s: &Option<String>, t: &str) -> (r: bool)
    ensures
        r == (*s matches Some(u) && u@ == t@),
{
    match s {
        Some(u) => same_str(u.as_str(), t),
        None => false,
    }
}

/// Whether `s` is the text `t`.
pub open spec fn holds(s: Option<String>, t: Seq<char>) -> bool {
    s matches Some(u) && u@ == t
}

/// Whether the terminal is one that shows pictures.
pub open spec fn shows_images(env: TerminalEnv) -> bool {
    ||| env.kitty_window_id
    ||| env.alacritty_window_id
    ||| env.ghostty_resources_dir
    ||| env.wezterm_executable
    ||| env.konsole_version
    ||| holds(env.term, "xterm-kitty"@)
    ||| holds(env.term, "xterm-ghostty"@)
    ||| holds(env.term, "rio"@)
    ||| holds(env.term_program, "kitty"@)
    ||| holds(env.term_program, "WezTerm"@)
    ||| holds(env.term_program, "ghostty"@)
    ||| holds(env.term_program, "rio"@)
}

/// Tells whether the terminal shows pictures.
pub fn kitty_supported(env: &TerminalEnv) -> (r: bool)
    ensures
        r == shows_images(*env),
{
    if env.kitty_window_id || env.alacritty_window_id || env.ghostty_resources_dir
        || env.wezterm_executable || env.konsole_version {
        return true;
    }
    if is_text(&env.term, "xterm-kitty") || is_text(&env.term, "xterm-ghostty") || is_text(
        &env.term,
        "rio",
    ) {
        return true;
    }
    is_text(&env.term_program, "kitty") || is_text(&env.term_program, "WezTerm") || is_text(
        &env.term_program,
        "ghostty",
    ) || is_text(&env.term_program, "rio")
}

// ------------------------------------------------------------ sequences for the terminal

fn push_text(buf: &mut Vec<u8>, s: &str)
    ensures
        final(buf)@ == old(buf)@ + encode_utf8(s@),
{
    buf.extend_from_slice(s.as_bytes());
}

/// The sequence that deletes all pictures.
pub open spec fn delete_sequence() -> Seq<u8> {
    encode_utf8("\x1b_Gq=2,a=d,d=A\x1b\\"@)
}

/// Gives the sequence that deletes all pictures.
pub fn delete_all_payload() -> (r: Vec<u8>)
    ensures
        r@ == delete_sequence(),
{
    let mut buf: Vec<u8> = Vec::new();
    push_text(&mut buf, "\x1b_Gq=2,a=d,d=A\x1b\\");
    assert(Seq::<u8>::empty() + delete_sequence() == delete_sequence());
    buf
}

/// The sequence that moves the cursor to the cell at `x`, `y`, counted from zero.
pub open spec fn move_to(x: u16, y: u16) -> Seq<char> {
    "\x1b["@ + decimal((y + 1) as nat) + ";"@ + decimal((x + 1) as nat) + "H"@
}

/// The sequence that shows a picture at the top left of `area`, in the place of the last one,
/// and leaves the cursor where it was.
pub open spec fn shown_at(area: Rect, transmit: Seq<u8>) -> Seq<u8> {
    encode_utf8("\x1b7"@) + encode_utf8(move_to(area.x, area.y)) + delete_sequence() + transmit
        + encode_utf8("\x1b8"@)
}

/// Gives the sequence that shows a picture at the top left of `area`.
pub fn show_sequence(area: Rect, transmit: &[u8]) -> (r: Vec<u8>)
    ensures
        r@ == shown_at(area, transmit@),
{
    let mut buf: Vec<u8> = Vec::new();
    push_text(&mut buf, "\x1b7");
    let mut place = "\x1b[".to_owned();
    place.append(decimal_of(area.y as u64 + 1).as_str());
    place.append(";");
    place.append(decimal_of(area.x as u64 + 1).as_str());
    place.append("H");
    push_text(&mut buf, place.as_str());
    let delete = delete_all_payload();
    buf.extend_from_slice(delete.as_slice());
    buf.extend_from_slice(transmit);
    push_text(&mut buf, "\x1b8");
    assert(buf@ == shown_at(area, transmit@));
    buf
}

/// What the standard base64 engine makes of bytes.
pub uninterp spec fn base64_text(bytes: Seq<u8>) -> Seq<char>;

/// Whether `c` is a character of base64 text.
pub open spec fn base64_char(c: char) -> bool {
    ||| 'A' <= c <= 'Z'
    ||| 'a' <= c <= 'z'
    ||| '0' <= c <= '9'
    ||| c == '+'
    ||| c == '/'
    ||| c == '='
}

/// `Engine::encode` of the standard base64 engine writes every three bytes as four characters of
/// its alphabet, and pads the last of them.
#[verifier::external_body]
fn base64_text_of(bytes: &[u8]) -> (s: String)
    ensures
        s@ == base64_text(bytes@),
        s@.len() == 4 * ((bytes@.len() + 2) / 3),
        forall|i: int| 0 <= i < s@.len() ==> base64_char(#[trigger] s@[i]),
{
    general_purpose::STANDARD.encode(bytes)
}

/// `b` in chunks of `CHUNK` bytes; the last one may be shorter.
pub open spec fn chunks(b: Seq<u8>) -> Seq<Seq<u8>>
    decreases b.len(),
{
    if b.len() == 0 {
        Seq::empty()
    } else if b.len() <= CHUNK {
        seq![b]
    } else {
        seq![b.take(CHUNK as int)] + chunks(b.skip(CHUNK as int))
    }
}

/// What is written before a chunk: for the first one what is to be done with the picture, and
/// for each whether more follow.
pub open spec fn frame_start(first: bool, more: bool) -> Seq<char> {
    if first {
        if more {
            "\x1b_Gq=2,a=T,z=-1,C=1,f=100,m=1;"@
        } else {
            "\x1b_Gq=2,a=T,z=-1,C=1,f=100,m=0;"@
        }
    } else if more {
        "\x1b_Gm=1;"@
    } else {
        "\x1b_Gm=0;"@
    }
}

/// The frames for `parts`, of which the first is the first of all where `first` holds.
pub open spec fn frames(parts: Seq<Seq<u8>>, first: bool) -> Seq<u8>
    decreases parts.len(),
{
    if parts.len() == 0 {
        Seq::empty()
    } else {
        encode_utf8(frame_start(first, parts.len() > 1)) + parts[0] + encode_utf8("\x1b\\"@)
            + frames(parts.drop_first(), false)
    }
}

/// The sequence that sends the base64 text `b` of a picture and shows it at the cursor, behind
/// the text, without moving the cursor.
pub open spec fn transmission(b: Seq<u8>) -> Seq<u8> {
    frames(chunks(b), true)
}

proof fn chunks_count(b: Seq<u8>)
    ensures
        chunks(b).len() > 1 <==> b.len() > CHUNK,
        chunks(b).len() == 0 <==> b.len() == 0,
{
    if b.len() > CHUNK {
        let rest = b.skip(CHUNK as int);
        assert(rest.len() > 0);
        if rest.len() <= CHUNK {
            assert(chunks(rest).len() == 1);
        } else {
            assert(chunks(rest).len() >= 1);
        }
    }
}

/// Frames base64 text, given as its bytes, for the terminal.
pub fn frame_payload(b: &[u8]) -> (r: Vec<u8>)
    ensures
        r@ == transmission(b@),
{
    let n: usize = b.len();
    let mut buf: Vec<u8> = Vec::new();
    let mut i: usize = 0;
    let mut first: bool = true;
    assert(b@.skip(0) == b@);
    assert(buf@ + frames(chunks(b@), true) == frames(chunks(b@), true));
    while i < n
        invariant
            i <= n == b@.len(),
            buf@ + frames(chunks(b@.skip(i as int)), first) == transmission(b@),
        decreases n - i,
    {
        let more: bool = n - i > CHUNK;
        let end: usize = if more {
            i + CHUNK
        } else {
            n
        };
        let ghost rest = b@.skip(i as int);
        let ghost before = buf@;
        proof {
            chunks_count(rest);
        }
        let ghost part = b@.subrange(i as int, end as int);
        let ghost tail = frames(chunks(b@.skip(end as int)), false);
        assert(chunks(rest)[0] == part) by {
            if more {
                assert(rest.take(CHUNK as int) == part);
            } else {
                assert(rest == part);
            }
        }
        assert(chunks(rest).drop_first() == chunks(b@.skip(end as int))) by {
            if more {
                assert(rest.skip(CHUNK as int) == b@.skip(end as int));
                assert(chunks(rest).drop_first() == chunks(rest.skip(CHUNK as int)));
            } else {
                assert(b@.skip(end as int).len() == 0);
                assert(chunks(rest).drop_first() == Seq::<Seq<u8>>::empty());
            }
        }
        if first {
            if more {
                push_text(&mut buf, "\x1b_Gq=2,a=T,z=-1,C=1,f=100,m=1;");
            } else {
                push_text(&mut buf, "\x1b_Gq=2,a=T,z=-1,C=1,f=100,m=0;");
            }
        } else if more {
            push_text(&mut buf, "\x1b_Gm=1;");
        } else {
            push_text(&mut buf, "\x1b_Gm=0;");
        }
        buf.extend_from_slice(vstd::slice::slice_subrange(b, i, end));
        push_text(&mut buf, "\x1b\\");
        let ghost start = encode_utf8(frame_start(first, more));
        let ghost stop = encode_utf8("\x1b\\"@);
        assert(buf@ == before + start + part + stop);
        assert(before + (start + part + stop + tail) == buf@ + tail);
        first = false;
        i = end;
    }
    assert(b@.skip(i as int).len() == 0);
    assert(buf@ + frames(chunks(b@.skip(i as int)), first) == buf@);
    buf
}

/// The sequence that sends a PNG picture.
pub open spec fn png_transmission(png: Seq<u8>) -> Seq<u8> {
    transmission(encode_utf8(base64_text(png)))
}

/// Gives the sequence that sends a PNG picture. A terminal collects the base64 text of the picture
/// from it, and nothing is left over.
pub fn transmit_png(png: &[u8]) -> (r: Vec<u8>)
    ensures
        r@ == png_transmission(png@),
        png@.len() > 0 ==> collected(r@) == Some(
            (encode_utf8(base64_text(png@)), Seq::<u8>::empty()),
        ),
{
    let text = base64_text_of(png);
    proof {
        let b = encode_utf8(text@);
        assert(is_ascii_chars(text@)) by {
            assert forall|i: int| 0 <= i < text@.len() implies (#[trigger] text@[i] as u32) < 128 by {
                assert(base64_char(text@[i]));
            }
        }
        is_ascii_chars_encode_utf8(text@);
        assert forall|i: int| 0 <= i < b.len() implies #[trigger] b[i] != 0x1b by {
            assert(base64_char(text@[i]));
            assert(b[i] == text@[i] as u8);
        }
        if png@.len() > 0 {
            terminal_collects_payload(b);
        }
    }
    frame_payload(text.as_str().as_bytes())
}

/// Where the byte `b` stands first in `s`, at or behind `i`; the end where it does not.
pub open spec fn seek(s: Seq<u8>, b: u8, i: int) -> int
    decreases s.len() - i,
{
    if i >= s.len() || s[i] == b {
        i
    } else {
        seek(s, b, i + 1)
    }
}

/// What a terminal collects from the start of `t`, and what is left behind it. Each frame is
/// `ESC _ G`, keys, `;`, a payload and `ESC \`. The last key is `m`: with `1` the payload goes on in
/// the next frame, with `0` it is complete. A payload has at most 4096 bytes, and a multiple of
/// four where it goes on. What is not written so gives nothing.
pub open spec fn collected(t: Seq<u8>) -> Option<(Seq<u8>, Seq<u8>)>
    decreases t.len(),
{
    let keys_end = seek(t, 0x3b, 0);
    let end = seek(t, 0x1b, keys_end);
    if keys_end < 6 || end + 1 >= t.len() || t[0] != 0x1b || t[1] != 0x5f || t[2] != 0x47
        || t[keys_end - 3] != 0x6d || t[keys_end - 2] != 0x3d || t[end + 1] != 0x5c {
        None
    } else {
        let payload = t.subrange(keys_end + 1, end);
        let rest = t.skip(end + 2);
        if payload.len() > 4096 {
            None
        } else if t[keys_end - 1] == 0x30 {
            Some((payload, rest))
        } else if t[keys_end - 1] == 0x31 && payload.len() % 4 == 0 && rest.len() < t.len() {
            match collected(rest) {
                Some((more, left)) => Some((payload + more, left)),
                None => None,
            }
        } else {
            None
        }
    }
}

proof fn seek_is(s: Seq<u8>, b: u8, i: int, k: int)
    requires
        0 <= i <= k < s.len(),
        s[k] == b,
        forall|j: int| i <= j < k ==> s[j] != b,
    ensures
        seek(s, b, i) == k,
    decreases k - i,
{
    if i < k {
        seek_is(s, b, i + 1, k);
    }
}

proof fn frame_starts_are()
    ensures
        encode_utf8(frame_start(false, true)) == seq![0x1bu8, 0x5f, 0x47, 0x6d, 0x3d, 0x31, 0x3b],
        encode_utf8(frame_start(false, false)) == seq![0x1bu8, 0x5f, 0x47, 0x6d, 0x3d, 0x30, 0x3b],
        encode_utf8(frame_start(true, true)) == first_keys() + seq![0x31u8, 0x3b],
        encode_utf8(frame_start(true, false)) == first_keys() + seq![0x30u8, 0x3b],
        encode_utf8("\x1b\\"@) == seq![0x1bu8, 0x5c],
{
    reveal_strlit("\x1b_Gm=1;");
    reveal_strlit("\x1b_Gm=0;");
    reveal_strlit("\x1b_Gq=2,a=T,z=-1,C=1,f=100,m=1;");
    reveal_strlit("\x1b_Gq=2,a=T,z=-1,C=1,f=100,m=0;");
    reveal_strlit("\x1b\\");
    is_ascii_chars_encode_utf8(frame_start(false, true));
    is_ascii_chars_encode_utf8(frame_start(false, false));
    is_ascii_chars_encode_utf8(frame_start(true, true));
    is_ascii_chars_encode_utf8(frame_start(true, false));
    is_ascii_chars_encode_utf8("\x1b\\"@);
}

/// The start of the first frame, up to the value of its key `m`, as bytes: no answer is wanted, the
/// picture is sent and shown, behind the text and without moving the cursor, and it is a PNG.
pub open spec fn first_keys() -> Seq<u8> {
    seq![
        0x1bu8, 0x5f, 0x47, 0x71, 0x3d, 0x32, 0x2c, 0x61, 0x3d, 0x54, 0x2c, 0x7a, 0x3d, 0x2d, 0x31,
        0x2c, 0x43, 0x3d, 0x31, 0x2c, 0x66, 0x3d, 0x31, 0x30, 0x30, 0x2c, 0x6d, 0x3d,
    ]
}

proof fn frame_is_read(start: Seq<u8>, part: Seq<u8>, rest: Seq<u8>)
    requires
        start.len() >= 7,
        start[0] == 0x1b,
        start[1] == 0x5f,
        start[2] == 0x47,
        start[start.len() - 4] == 0x6d,
        start[start.len() - 3] == 0x3d,
        start.last() == 0x3b,
        forall|j: int| 0 <= j < start.len() - 1 ==> #[trigger] start[j] != 0x3b,
        forall|j: int| 0 <= j < part.len() ==> #[trigger] part[j] != 0x1b,
    ensures
        ({
            let t = start + part + seq![0x1bu8, 0x5c] + rest;
            let keys_end = seek(t, 0x3b, 0);
            let end = seek(t, 0x1b, keys_end);
            &&& keys_end == start.len() - 1
            &&& end == start.len() + part.len()
            &&& t[0] == 0x1b && t[1] == 0x5f && t[2] == 0x47
            &&& t[keys_end - 3] == 0x6d && t[keys_end - 2] == 0x3d
            &&& t[keys_end - 1] == start[start.len() - 2]
            &&& end + 1 < t.len()
            &&& t[end + 1] == 0x5c
            &&& t.subrange(keys_end + 1, end) == part
            &&& t.skip(end + 2) == rest
        }),
{
    let t = start + part + seq![0x1bu8, 0x5c] + rest;
    let k = start.len() - 1;
    let e: int = start.len() + part.len() as int;
    assert forall|j: int| 0 <= j < k implies t[j] != 0x3b by {
        assert(t[j] == start[j]);
    }
    assert(t[k] == start.last());
    seek_is(t, 0x3b, 0, k);
    assert forall|j: int| k <= j < e implies t[j] != 0x1b by {
        if j > k {
            assert(t[j] == part[j - start.len()]);
        }
    }
    assert(t[e] == 0x1b);
    seek_is(t, 0x1b, k, e);
    assert(t[e + 1] == 0x5c);
    assert(t.subrange(k + 1, e) == part);
    assert(t.skip(e + 2) == rest);
    assert(t[0] == start[0] && t[1] == start[1] && t[2] == start[2]);
    assert(t[k - 3] == start[k - 3] && t[k - 2] == start[k - 2] && t[k - 1] == start[k - 1]);
}

proof fn frames_are_collected(parts: Seq<Seq<u8>>, first: bool)
    requires
        parts.len() > 0,
        forall|i: int| 0 <= i < parts.len() ==> (#[trigger] parts[i]).len() <= 4096,
        forall|i: int| 0 <= i < parts.len() - 1 ==> (#[trigger] parts[i]).len() == 4096,
        forall|i: int, j: int| 0 <= i < parts.len() && 0 <= j < parts[i].len() ==> #[trigger]
            parts[i][j] != 0x1b,
    ensures
        collected(frames(parts, first)) == Some((joined_bytes(parts), Seq::<u8>::empty())),
    decreases parts.len(),
{
    frame_starts_are();
    let more = parts.len() > 1;
    let start = encode_utf8(frame_start(first, more));
    let tail = parts.drop_first();
    let rest = frames(tail, false);
    let t = frames(parts, first);
    assert(t == start + parts[0] + seq![0x1bu8, 0x5c] + rest);
    frame_is_read(start, parts[0], rest);
    if more {
        assert forall|i: int| 0 <= i < tail.len() implies (#[trigger] tail[i]).len() <= 4096 by {
            assert(tail[i] == parts[i + 1]);
        }
        assert forall|i: int| 0 <= i < tail.len() - 1 implies (#[trigger] tail[i]).len() == 4096 by {
            assert(tail[i] == parts[i + 1]);
        }
        assert forall|i: int, j: int| 0 <= i < tail.len() && 0 <= j < tail[i].len() implies
            #[trigger] tail[i][j] != 0x1b by {
            assert(tail[i][j] == parts[i + 1][j]);
        }
        assert(parts[0].len() == 4096);
        frames_are_collected(tail, false);
    } else {
        assert(tail.len() == 0);
        assert(rest == Seq::<u8>::empty());
        assert(joined_bytes(tail) == Seq::<u8>::empty());
        assert(joined_bytes(parts) == parts[0]);
    }
}

/// A terminal collects exactly the payload that was framed: only the last frame says that nothing
/// follows, and nothing is left behind it. The first frame says what is to be done with the picture;
/// an empty payload is not sent at all.
pub proof fn terminal_collects_payload(b: Seq<u8>)
    requires
        forall|i: int| 0 <= i < b.len() ==> #[trigger] b[i] != 0x1b,
    ensures
        b.len() > 0 ==> collected(transmission(b)) == Some((b, Seq::<u8>::empty())),
        b.len() > 0 ==> transmission(b).len() > 28 && transmission(b).take(28) == seq![
            0x1bu8, 0x5f, 0x47, 0x71, 0x3d, 0x32, 0x2c, 0x61, 0x3d, 0x54, 0x2c, 0x7a, 0x3d, 0x2d, 0x31,
            0x2c, 0x43, 0x3d, 0x31, 0x2c, 0x66, 0x3d, 0x31, 0x30, 0x30, 0x2c, 0x6d, 0x3d,
        ],
        b.len() == 0 ==> transmission(b).len() == 0,
{
    chunks_count(b);
    chunks_hold_payload(b);
    if b.len() > 0 {
        let parts = chunks(b);
        chunks_without(b, 0x1b);
        frames_are_collected(parts, true);
        frame_starts_are();
        let start = encode_utf8(frame_start(true, parts.len() > 1));
        assert(transmission(b).take(28) == start.take(28));
        assert(start.take(28) == first_keys());
    }
}

proof fn chunks_without(b: Seq<u8>, x: u8)
    requires
        forall|i: int| 0 <= i < b.len() ==> #[trigger] b[i] != x,
    ensures
        forall|i: int, j: int|
            0 <= i < chunks(b).len() && 0 <= j < chunks(b)[i].len() ==> #[trigger] chunks(b)[i][j]
                != x,
    decreases b.len(),
{
    if b.len() > CHUNK {
        let rest = b.skip(CHUNK as int);
        assert forall|i: int| 0 <= i < rest.len() implies #[trigger] rest[i] != x by {
            assert(rest[i] == b[i + CHUNK]);
        }
        chunks_without(rest, x);
        let all = chunks(b);
        assert forall|i: int, j: int| 0 <= i < all.len() && 0 <= j < all[i].len() implies
            #[trigger] all[i][j] != x by {
            if i == 0 {
                assert(all[0][j] == b[j]);
            } else {
                assert(all[i] == chunks(rest)[i - 1]);
                assert(chunks(rest)[i - 1][j] != x);
            }
        }
    } else if b.len() > 0 {
        assert(chunks(b)[0] == b);
    }
}

/// A picture is shown at the top left of its area: the cursor is kept, moved to the cell, counted
/// from one, the pictures before it are deleted, it is sent, and the cursor goes back.
pub proof fn picture_is_shown_in_its_area(area: Rect, transmit: Seq<u8>)
    ensures
        shown_at(area, transmit) == seq![0x1bu8, 0x37, 0x1b, 0x5b] + encode_utf8(
            decimal((area.y + 1) as nat),
        ) + seq![0x3bu8] + encode_utf8(decimal((area.x + 1) as nat)) + seq![0x48u8] + seq![
            0x1bu8, 0x5f, 0x47, 0x71, 0x3d, 0x32, 0x2c, 0x61, 0x3d, 0x64, 0x2c, 0x64, 0x3d, 0x41,
            0x1b, 0x5c,
        ] + transmit + seq![0x1bu8, 0x38],
        delete_sequence() == seq![
            0x1bu8, 0x5f, 0x47, 0x71, 0x3d, 0x32, 0x2c, 0x61, 0x3d, 0x64, 0x2c, 0x64, 0x3d, 0x41,
            0x1b, 0x5c,
        ],
{
    reveal_strlit("\x1b7");
    reveal_strlit("\x1b8");
    reveal_strlit("\x1b[");
    reveal_strlit(";");
    reveal_strlit("H");
    reveal_strlit("\x1b_Gq=2,a=d,d=A\x1b\\");
    let row = decimal((area.y + 1) as nat);
    let column = decimal((area.x + 1) as nat);
    is_ascii_chars_encode_utf8("\x1b7"@);
    is_ascii_chars_encode_utf8("\x1b8"@);
    is_ascii_chars_encode_utf8("\x1b["@);
    is_ascii_chars_encode_utf8(";"@);
    is_ascii_chars_encode_utf8("H"@);
    is_ascii_chars_encode_utf8("\x1b_Gq=2,a=d,d=A\x1b\\"@);
    encode_concat("\x1b["@ + row + ";"@ + column, "H"@);
    encode_concat("\x1b["@ + row + ";"@, column);
    encode_concat("\x1b["@ + row, ";"@);
    encode_concat("\x1b["@, row);
    assert(encode_utf8("\x1b7"@) == seq![0x1bu8, 0x37]);
    assert(encode_utf8("\x1b8"@) == seq![0x1bu8, 0x38]);
    assert(encode_utf8("\x1b["@) == seq![0x1bu8, 0x5b]);
    assert(encode_utf8(";"@) == seq![0x3bu8]);
    assert(encode_utf8("H"@) == seq![0x48u8]);
    assert(seq![0x1bu8, 0x37, 0x1b, 0x5b] == seq![0x1bu8, 0x37] + seq![0x1bu8, 0x5b]);
}

/// Encoding texts one after another gives their bytes one after another.
pub proof fn encode_concat(a: Seq<char>, b: Seq<char>)
    ensures
        encode_utf8(a + b) == encode_utf8(a) + encode_utf8(b),
    decreases a.len(),
{
    if a.len() == 0 {
        assert(a + b == b);
    } else {
        encode_concat(a.drop_first(), b);
        assert((a + b).drop_first() == a.drop_first() + b);
    }
}

/// The bytes of `parts` one after another.
pub open spec fn joined_bytes(parts: Seq<Seq<u8>>) -> Seq<u8>
    decreases parts.len(),
{
    if parts.len() == 0 {
        Seq::empty()
    } else {
        parts[0] + joined_bytes(parts.drop_first())
    }
}

/// The chunks of a payload hold it, in order; none is longer than `CHUNK` and only the last one
/// is shorter.
pub proof fn chunks_hold_payload(b: Seq<u8>)
    ensures
        joined_bytes(chunks(b)) == b,
        forall|i: int| 0 <= i < chunks(b).len() ==> 0 < (#[trigger] chunks(b)[i]).len() <= CHUNK,
        forall|i: int| 0 <= i < chunks(b).len() - 1 ==> (#[trigger] chunks(b)[i]).len() == CHUNK,
    decreases b.len(),
{
    chunks_count(b);
    if b.len() == 0 {
    } else if b.len() <= CHUNK {
        assert(chunks(b).drop_first().len() == 0);
        assert(joined_bytes(chunks(b).drop_first()) == Seq::<u8>::empty());
        assert(joined_bytes(chunks(b)) == b);
    } else {
        let rest = b.skip(CHUNK as int);
        chunks_hold_payload(rest);
        chunks_count(rest);
        assert(chunks(b).drop_first() == chunks(rest));
        assert(b.take(CHUNK as int) + rest == b);
        let all = chunks(b);
        assert forall|i: int| 0 <= i < all.len() implies 0 < (#[trigger] all[i]).len() <= CHUNK by {
            if i > 0 {
                assert(all[i] == chunks(rest)[i - 1]);
            }
        }
        assert forall|i: int| 0 <= i < all.len() - 1 implies (#[trigger] all[i]).len() == CHUNK by {
            if i > 0 {
                assert(all[i] == chunks(rest)[i - 1]);
            }
        }
    }
}

// ------------------------------------------------------------ the cache on disk

/// The digit for a number below sixteen.
pub open spec fn hex_char(d: int) -> char {
    if d < 10 {
        crate::text::digit_char(d)
    } else if d == 10 {
        'a'
    } else if d == 11 {
        'b'
    } else if d == 12 {
        'c'
    } else if d == 13 {
        'd'
    } else if d == 14 {
        'e'
    } else {
        'f'
    }
}

/// The last `digits` hexadecimal digits of `n`.
pub open spec fn hex(n: nat, digits: nat) -> Seq<char>
    decreases digits,
{
    if digits == 0 {
        Seq::empty()
    } else {
        hex(n / 16, (digits - 1) as nat).push(hex_char((n % 16) as int))
    }
}

fn hex_digit(d: u64) -> (c: char)
    requires
        d < 16,
    ensures
        c == hex_char(d as int),
{
    match d {
        0 => '0',
        1 => '1',
        2 => '2',
        3 => '3',
        4 => '4',
        5 => '5',
        6 => '6',
        7 => '7',
        8 => '8',
        9 => '9',
        10 => 'a',
        11 => 'b',
        12 => 'c',
        13 => 'd',
        14 => 'e',
        _ => 'f',
    }
}

fn hex_of(n: u64, digits: u64) -> (s: String)
    ensures
        s@ == hex(n as nat, digits as nat),
    decreases digits,
{
    if digits == 0 {
        return String::new();
    }
    let mut s = hex_of(n / 16, digits - 1);
    s.push(hex_digit(n % 16));
    s
}

/// The FNV-1a hash of `data`, of 64 bits.
pub open spec fn fnv(data: Seq<u8>) -> u64
    decreases data.len(),
{
    if data.len() == 0 {
        0xcbf2_9ce4_8422_2325
    } else {
        (fnv(data.drop_last()) ^ (data.last() as u64)).wrapping_mul(0x0100_0000_01b3)
    }
}

/// Computes the FNV-1a hash of `data`.
pub fn fnv1a(data: &[u8]) -> (h: u64)
    ensures
        h == fnv(data@),
{
    let mut h: u64 = 0xcbf2_9ce4_8422_2325;
    let mut i: usize = 0;
    assert(data@.take(0).len() == 0);
    while i < data.len()
        invariant
            i <= data@.len(),
            h == fnv(data@.take(i as int)),
        decreases data@.len() - i,
    {
        assert(data@.take(i + 1).drop_last() == data@.take(i as int));
        h = (h ^ (data[i] as u64)).wrapping_mul(0x0100_0000_01b3);
        i += 1;
    }
    assert(data@.take(i as int) == data@);
    h
}

/// What is hashed for the picture `path`, changed last at `secs` and `nanos`, of `len` bytes, in
/// a box of `max_w` by `max_h` pixels.
pub open spec fn key_input(
    path: Seq<char>,
    secs: u64,
    nanos: u32,
    len: u64,
    max_w: u32,
    max_h: u32,
) -> Seq<u8> {
    encode_utf8("sift-preview-v1"@) + encode_utf8(path) + spec_u64_to_le_bytes(secs)
        + spec_u32_to_le_bytes(nanos) + spec_u64_to_le_bytes(len) + spec_u32_to_le_bytes(max_w)
        + spec_u32_to_le_bytes(max_h)
}

/// Gives the name under which an encoded picture is cached: it changes with the file and with
/// the box that the picture is scaled to.
pub fn cache_key(
    path: &str,
    secs: u64,
    nanos: u32,
    len: u64,
    max_w: u32,
    max_h: u32,
) -> (key: String)
    ensures
        key@ == hex(fnv(key_input(path@, secs, nanos, len, max_w, max_h)) as nat, 16),
        key@.len() == 16,
{
    let mut buf: Vec<u8> = Vec::new();
    push_text(&mut buf, "sift-preview-v1");
    push_text(&mut buf, path);
    buf.extend_from_slice(u64_to_le_bytes(secs).as_slice());
    buf.extend_from_slice(u32_to_le_bytes(nanos).as_slice());
    buf.extend_from_slice(u64_to_le_bytes(len).as_slice());
    buf.extend_from_slice(u32_to_le_bytes(max_w).as_slice());
    buf.extend_from_slice(u32_to_le_bytes(max_h).as_slice());
    assert(buf@ == key_input(path@, secs, nanos, len, max_w, max_h));
    let h: u64 = fnv1a(buf.as_slice());
    proof {
        hex_len(h as nat, 16);
    }
    hex_of(h, 16)
}

/// A hexadecimal number has the digits that were asked for.
pub proof fn hex_len(n: nat, digits: nat)
    ensures
        hex(n, digits).len() == digits,
    decreases digits,
{
    if digits > 0 {
        hex_len(n / 16, (digits - 1) as nat);
    }
}

/// The directory of the cache: below `xdg`, where it is an absolute path, or below `.cache` of
/// the home directory.
pub open spec fn cache_dir_in(xdg: Option<Seq<char>>, home: Option<Seq<char>>) -> Option<
    Seq<char>,
> {
    match xdg {
        Some(x) => if absolute(x) {
            Some(join_path(join_path(x, "sift"@), "preview"@))
        } else {
            cache_dir_at_home(home)
        },
        None => cache_dir_at_home(home),
    }
}

/// The directory of the cache below the home directory.
pub open spec fn cache_dir_at_home(home: Option<Seq<char>>) -> Option<Seq<char>> {
    match home {
        Some(h) => Some(join_path(join_path(join_path(h, ".cache"@), "sift"@), "preview"@)),
        None => None,
    }
}

/// Gives the directory of the cache, from the variables `XDG_CACHE_HOME` and `HOME`.
pub fn cache_dir(xdg: &Option<String>, home: &Option<String>) -> (r: Option<String>)
    ensures
        crate::preview::opt_text(r) == cache_dir_in(
            crate::preview::opt_text(*xdg),
            crate::preview::opt_text(*home),
        ),
{
    match xdg {
        Some(x) => {
            let chars = to_chars(x.as_str());
            if chars.len() > 0 && chars[0] == '/' {
                let below = join_path_of(x.as_str(), "sift");
                return Some(join_path_of(below.as_str(), "preview"));
            }
        },
        None => {},
    }
    match home {
        Some(h) => {
            let cache = join_path_of(h.as_str(), ".cache");
            let below = join_path_of(cache.as_str(), "sift");
            Some(join_path_of(below.as_str(), "preview"))
        },
        None => None,
    }
}

/// Gives the path of the cached picture `key` in `dir`.
pub fn cached_path(dir: &str, key: &str) -> (r: String)
    ensures
        r@ == join_path(dir@, key@ + ".png"@),
{
    let mut name = key.to_owned();
    name.append(".png");
    join_path_of(dir, name.as_str())
}

/// Gives the path under which the picture `key` is written before it is renamed, which no other
/// process of this program uses.
pub fn temporary_path(dir: &str, key: &str, pid: u32) -> (r: String)
    ensures
        r@ == join_path(dir@, key@ + "."@ + decimal(pid as nat) + ".tmp"@),
{
    let mut name = key.to_owned();
    name.append(".");
    name.append(decimal_of(pid as u64).as_str());
    name.append(".tmp");
    join_path_of(dir, name.as_str())
}

/// A file in the directory of the cache; `changed` is the time of its last change in nanoseconds.
#[derive(Debug)]
pub struct CacheEntry {
    pub path: String,
    pub size: u64,
    pub changed: i128,
}

/// What is seen of a file in the cache.
#[verifier::ext_equal]
pub struct EntryView {
    pub path: Seq<char>,
    pub size: u64,
    pub changed: i128,
}

impl View for CacheEntry {
    type V = EntryView;

    open spec fn view(&self) -> EntryView {
        EntryView { path: self.path@, size: self.size, changed: self.changed }
    }
}

impl Ranked for CacheEntry {
    type Key = EntryView;

    open spec fn key(self) -> EntryView {
        self@
    }

    open spec fn le(a: EntryView, b: EntryView) -> bool {
        a.changed <= b.changed
    }

    proof fn le_total(a: EntryView, b: EntryView) {
    }

    proof fn le_transitive(a: EntryView, b: EntryView, c: EntryView) {
    }

    fn at_most(&self, other: &Self) -> (r: bool) {
        self.changed <= other.changed
    }
}

/// Whether `path` is that of a cached picture, by its extension.
pub open spec fn cached_image(path: Seq<char>) -> bool {
    extension(path) == Some("png"@)
}

fn is_cached_image(path: &str) -> (r: bool)
    ensures
        r == cached_image(path@),
{
    match extension_of(path) {
        Some(ext) => same_str(ext.as_str(), "png"),
        None => false,
    }
}

/// The cached pictures among the files of a directory.
pub open spec fn cached_images(files: Seq<EntryView>) -> Seq<EntryView> {
    files.filter(|e: EntryView| cached_image(e.path))
}

/// The sum of the sizes, kept within the range of sizes.
pub open spec fn total_size(files: Seq<EntryView>) -> u64
    decreases files.len(),
{
    if files.len() == 0 {
        0
    } else if total_size(files.drop_last()) + files.last().size > u64::MAX {
        u64::MAX
    } else {
        (total_size(files.drop_last()) + files.last().size) as u64
    }
}

/// The removal of the oldest cached pictures, one by one: `queue` are those that may go, the
/// oldest last, `total` is what the cache still holds and `target` what it may hold.
#[derive(Debug)]
pub struct Eviction {
    pub queue: Vec<CacheEntry>,
    pub total: u64,
    pub target: u64,
}

/// What is left of `total` without `size`.
pub open spec fn size_left(total: u64, size: u64) -> u64 {
    if total < size {
        0
    } else {
        (total - size) as u64
    }
}

impl Eviction {
    /// The pictures that may go, the oldest first.
    pub open spec fn candidates(self) -> Seq<EntryView> {
        keys(self.queue@).reverse()
    }

    /// Begins the removal for a directory with the files `files`; nothing is removed where they
    /// take no more than `max` bytes, otherwise the oldest go until four fifths of that are left.
    pub fn begin(files: Vec<CacheEntry>, max: u64) -> (r: Eviction)
        requires
            max <= u64::MAX / 4,
        ensures
            ({
                let images = cached_images(keys(files@));
                let total = total_size(images);
                &&& r.total == total
                &&& r.target == max * 4 / 5
                &&& r.candidates() == if total <= max {
                    Seq::empty()
                } else {
                    sorted::<CacheEntry>(images)
                }
            }),
    {
        let ghost all = keys(files@);
        let ghost wanted = |e: EntryView| cached_image(e.path);
        let mut rest = files;
        let mut back: Vec<CacheEntry> = Vec::new();
        assert(rest@ == files@.take(rest@.len() as int));
        while rest.len() > 0
            invariant
                rest@.len() <= files@.len(),
                rest@ == files@.take(rest@.len() as int),
                back@ == files@.skip(rest@.len() as int).reverse(),
            decreases rest@.len(),
        {
            let e = rest.pop().unwrap();
            back.push(e);
        }
        assert(back@ == files@.reverse());
        let mut images: Vec<CacheEntry> = Vec::new();
        let mut total: u64 = 0;
        let ghost mut done: int = 0;
        assert(all.take(0).len() == 0);
        while back.len() > 0
            invariant
                all == keys(files@),
                wanted == (|e: EntryView| cached_image(e.path)),
                0 <= done <= all.len(),
                back@.len() == all.len() - done,
                back@ == files@.skip(done).reverse(),
                keys(images@) == all.take(done).filter(wanted),
                total == total_size(keys(images@)),
            decreases back@.len(),
        {
            reveal(Seq::filter);
            let ghost entry = all[done];
            let e = back.pop().unwrap();
            assert(e@ == entry);
            assert(all.take(done + 1).drop_last() == all.take(done));
            let ghost before = keys(images@);
            if is_cached_image(e.path.as_str()) {
                total = total.saturating_add(e.size);
                images.push(e);
                assert(keys(images@) == before.push(entry));
                assert(keys(images@).drop_last() == before);
            }
            proof {
                done = done + 1;
            }
            assert(back@ == files@.skip(done).reverse());
        }
        assert(all.take(done) == all);
        let target: u64 = max * 4 / 5;
        if total <= max {
            let queue: Vec<CacheEntry> = Vec::new();
            assert(keys(queue@).reverse() == Seq::<EntryView>::empty());
            return Eviction { queue, total, target };
        }
        let mut ordered = sort(images);
        let ghost oldest_first = keys(ordered@);
        let mut queue: Vec<CacheEntry> = Vec::new();
        while ordered.len() > 0
            invariant
                ordered@.len() <= oldest_first.len(),
                keys(ordered@) == oldest_first.take(ordered@.len() as int),
                keys(queue@) == oldest_first.skip(ordered@.len() as int).reverse(),
            decreases ordered@.len(),
        {
            let ghost n = ordered@.len() as int;
            let ghost before = keys(queue@);
            assert(keys(ordered@)[n - 1] == ordered@[n - 1]@);
            let e = ordered.pop().unwrap();
            queue.push(e);
            assert(keys(queue@) == before.push(oldest_first[n - 1]));
            assert(oldest_first.skip(n - 1).reverse() == before.push(oldest_first[n - 1]));
            assert(keys(ordered@) == oldest_first.take(n - 1));
        }
        assert(oldest_first.skip(0) == oldest_first);
        assert(keys(queue@).reverse() == oldest_first);
        Eviction { queue, total, target }
    }

    /// The picture to remove next: the oldest, while the cache holds more than it may.
    pub open spec fn next_path(self) -> Option<Seq<char>> {
        if self.total <= self.target || self.candidates().len() == 0 {
            None
        } else {
            Some(self.candidates()[0].path)
        }
    }

    /// Gives the path of the picture to remove next.
    pub fn next(&self) -> (r: Option<String>)
        ensures
            crate::preview::opt_text(r) == self.next_path(),
    {
        let n: usize = self.queue.len();
        if self.total <= self.target || n == 0 {
            return None;
        }
        assert(self.candidates()[0] == self.queue@[n - 1]@);
        Some(self.queue[n - 1].path.clone())
    }

    /// Takes note of whether the picture that `next` gave could be removed.
    pub fn removed(&mut self, ok: bool)
        requires
            old(self).next_path() is Some,
        ensures
            final(self).candidates() == old(self).candidates().drop_first(),
            final(self).target == old(self).target,
            final(self).total == (if ok {
                size_left(old(self).total, old(self).candidates()[0].size)
            } else {
                old(self).total
            }),
    {
        let ghost before = self.queue@;
        assert(before.len() > 0);
        assert(self.candidates()[0] == before[before.len() - 1]@);
        let e = self.queue.pop().unwrap();
        assert(keys(self.queue@).reverse() == keys(before).reverse().drop_first());
        if ok {
            self.total = self.total.saturating_sub(e.size);
        }
    }
}

/// What the cache holds when the pictures `files`, the oldest first, are removed one by one until
/// no more than `target` is left of `total`, where every removal succeeds.
pub open spec fn left_over(files: Seq<EntryView>, total: u64, target: u64) -> u64
    decreases files.len(),
{
    if total <= target || files.len() == 0 {
        total
    } else {
        left_over(files.drop_first(), size_left(total, files[0].size), target)
    }
}

/// The sum of the sizes.
pub open spec fn size_sum(files: Seq<EntryView>) -> nat
    decreases files.len(),
{
    if files.len() == 0 {
        0
    } else {
        size_sum(files.drop_last()) + files.last().size as nat
    }
}

proof fn size_sum_first(files: Seq<EntryView>)
    requires
        files.len() > 0,
    ensures
        size_sum(files) == files[0].size as nat + size_sum(files.drop_first()),
    decreases files.len(),
{
    if files.len() == 1 {
        assert(files.drop_last().len() == 0);
        assert(files.drop_first().len() == 0);
        assert(size_sum(files.drop_last()) == 0);
    } else {
        size_sum_first(files.drop_last());
        assert(files.drop_last().drop_first() == files.drop_first().drop_last());
    }
}

proof fn size_sum_insert(files: Seq<EntryView>, e: EntryView)
    ensures
        size_sum(insert::<CacheEntry>(files, e)) == size_sum(files) + e.size,
    decreases files.len(),
{
    let r = insert::<CacheEntry>(files, e);
    if files.len() == 0 || CacheEntry::le(files.last(), e) {
        assert(r.drop_last() == files);
    } else {
        size_sum_insert(files.drop_last(), e);
        assert(r.drop_last() == insert::<CacheEntry>(files.drop_last(), e));
    }
}

proof fn size_sum_sorted(files: Seq<EntryView>)
    ensures
        size_sum(sorted::<CacheEntry>(files)) == size_sum(files),
        total_size(files) <= size_sum(files),
    decreases files.len(),
{
    if files.len() > 0 {
        size_sum_sorted(files.drop_last());
        size_sum_insert(sorted::<CacheEntry>(files.drop_last()), files.last());
    }
}

proof fn left_over_bound(files: Seq<EntryView>, total: u64, target: u64)
    requires
        size_sum(files) >= total,
    ensures
        left_over(files, total, target) <= target,
    decreases files.len(),
{
    if total > target && files.len() > 0 {
        size_sum_first(files);
        left_over_bound(files.drop_first(), size_left(total, files[0].size), target);
    }
}

/// Where every removal succeeds, a cache that held too much ends with no more than four fifths
/// of what it may hold.
pub proof fn eviction_reaches_target(files: Seq<EntryView>, max: u64)
    requires
        max <= u64::MAX / 4,
    ensures
        ({
            let images = cached_images(files);
            left_over(
                sorted::<CacheEntry>(images),
                total_size(images),
                (max * 4 / 5) as u64,
            ) <= max * 4 / 5
        }),
{
    let images = cached_images(files);
    size_sum_sorted(images);
    left_over_bound(sorted::<CacheEntry>(images), total_size(images), (max * 4 / 5) as u64);
}

// ------------------------------------------------------------ decoding, scaling, encoding

/// A decoded picture of the crate image.
#[verifier::external_type_specification]
#[verifier::external_body]
pub struct ExDynamicImage(image::DynamicImage);

/// A decoded picture.
#[derive(Debug)]
pub struct Picture {
    image: DynamicImage,
}

impl View for Picture {
    type V = DynamicImage;

    closed spec fn view(&self) -> DynamicImage {
        self.image
    }
}

/// What is seen of an optional picture.
pub open spec fn opt_picture(p: Option<Picture>) -> Option<DynamicImage> {
    match p {
        Some(q) => Some(q@),
        None => None,
    }
}

impl Picture {
    /// Gives the width and the height of the picture.
    pub fn size(&self) -> (r: (u32, u32))
        ensures
            r == image_size(self@),
    {
        image_size_of(&self.image)
    }
}

/// Whether `image::guess_format` takes bytes for a JPEG picture, where it knows the format.
pub uninterp spec fn guessed_jpeg(bytes: Seq<u8>) -> Option<bool>;

/// `image::guess_format` tells the format of a picture from its first bytes, or fails.
#[verifier::external_body]
fn guessed_jpeg_of(bytes: &[u8]) -> (r: Option<bool>)
    ensures
        r == guessed_jpeg(bytes@),
{
    match image::guess_format(bytes) {
        Ok(ImageFormat::Jpeg) => Some(true),
        Ok(_) => Some(false),
        Err(_) => None,
    }
}

/// Whether the decoders of the crate image may give, for bytes and a limit of memory, a picture
/// and its orientation as Exif numbers it. Which pixels come out may depend on the machine.
pub uninterp spec fn may_decode(
    bytes: Seq<u8>,
    max_alloc: u64,
    decoded: Option<(DynamicImage, u8)>,
) -> bool;

/// `ImageReader::into_decoder` and `DynamicImage::from_decoder` decode a picture of the format
/// that `image::guess_format` tells, within a limit of memory, or fail;
/// `ImageDecoder::orientation` tells how it is to be turned, and a picture that does not say is
/// upright. Nothing is said here of the pixels.
#[verifier::external_body]
fn decoded_image_of(bytes: &[u8], max_alloc: u64) -> (r: Option<(DynamicImage, u8)>)
    ensures
        may_decode(bytes@, max_alloc, r),
{
    let mut limits = image::Limits::no_limits();
    limits.max_alloc = Some(max_alloc);
    let mut reader = ImageReader::with_format(Cursor::new(bytes), image::guess_format(bytes).ok()?);
    reader.limits(limits);
    let mut decoder = reader.into_decoder().ok()?;
    let turn = decoder.orientation().unwrap_or(Orientation::NoTransforms);
    Some((DynamicImage::from_decoder(decoder).ok()?, turn.to_exif()))
}

/// How the pixels of a decoded JPEG picture are laid out.
#[derive(Clone, Copy, PartialEq, Eq, Debug, Structural)]
pub enum JpegPixels {
    Rgb,
    Luma,
    Other,
}

/// Whether `jpeg_decoder` may give these pixels, with their width, height and layout, for bytes
/// and a box of so many pixels. Which colours come out may depend on the machine.
pub uninterp spec fn jpeg_may_give(
    bytes: Seq<u8>,
    width: u16,
    height: u16,
    decoded: Option<(Seq<u8>, u16, u16, JpegPixels)>,
) -> bool;

/// What is seen of decoded pixels.
pub open spec fn pixels_view(r: Option<(Vec<u8>, u16, u16, JpegPixels)>) -> Option<
    (Seq<u8>, u16, u16, JpegPixels),
> {
    match r {
        Some(p) => Some((p.0@, p.1, p.2, p.3)),
        None => None,
    }
}

/// `jpeg_decoder::Decoder` decodes a JPEG picture, or fails. With `scale` it is scaled down by the
/// smallest of its factors that leaves it as large as the box along one side at least. Nothing is
/// said here of the pixels, nor that there are as many as the size asks for.
#[verifier::external_body]
fn jpeg_pixels_of(bytes: &[u8], width: u16, height: u16) -> (r: Option<
    (Vec<u8>, u16, u16, JpegPixels),
>)
    ensures
        jpeg_may_give(bytes@, width, height, pixels_view(r)),
{
    let mut decoder = jpeg_decoder::Decoder::new(Cursor::new(bytes));
    decoder.scale(width, height).ok()?;
    let pixels = decoder.decode().ok()?;
    let info = decoder.info()?;
    let layout = match info.pixel_format {
        jpeg_decoder::PixelFormat::RGB24 => JpegPixels::Rgb,
        jpeg_decoder::PixelFormat::L8 => JpegPixels::Luma,
        _ => JpegPixels::Other,
    };
    Some((pixels, info.width, info.height, layout))
}

/// Whether the JPEG decoder of the crate image may read an orientation, as Exif numbers it, in
/// bytes.
pub uninterp spec fn may_turn(bytes: Seq<u8>, turn: u8) -> bool;

/// `ImageDecoder::orientation` reads from the metadata of a JPEG picture how it is to be turned;
/// a picture without that is upright.
#[verifier::external_body]
fn jpeg_turn_of(bytes: &[u8]) -> (turn: u8)
    ensures
        may_turn(bytes@, turn),
        1 <= turn <= 8,
{
    let mut reader = ImageReader::new(Cursor::new(bytes));
    reader.set_format(ImageFormat::Jpeg);
    let turn = reader.into_decoder().ok().and_then(|mut d| d.orientation().ok());
    turn.unwrap_or(Orientation::NoTransforms).to_exif()
}

/// The picture that `RgbImage::from_raw` makes of pixels.
pub uninterp spec fn rgb_image(width: u32, height: u32, pixels: Seq<u8>) -> Option<DynamicImage>;

/// `RgbImage::from_raw` makes a picture of pixels of three bytes, unless there are too few.
#[verifier::external_body]
fn rgb_image_of(width: u32, height: u32, pixels: Vec<u8>) -> (r: Option<DynamicImage>)
    requires
        width <= 0xffff,
        height <= 0xffff,
    ensures
        r == rgb_image(width, height, pixels@),
        r is Some <==> pixels@.len() >= width * height * 3,
        r matches Some(img) ==> image_size(img) == (width, height),
{
    image::RgbImage::from_raw(width, height, pixels).map(DynamicImage::ImageRgb8)
}

/// The picture that `GrayImage::from_raw` makes of pixels.
pub uninterp spec fn gray_image(width: u32, height: u32, pixels: Seq<u8>) -> Option<DynamicImage>;

/// `GrayImage::from_raw` makes a picture of pixels of one byte, unless there are too few.
#[verifier::external_body]
fn gray_image_of(width: u32, height: u32, pixels: Vec<u8>) -> (r: Option<DynamicImage>)
    requires
        width <= 0xffff,
        height <= 0xffff,
    ensures
        r == gray_image(width, height, pixels@),
        r is Some <==> pixels@.len() >= width * height,
        r matches Some(img) ==> image_size(img) == (width, height),
{
    image::GrayImage::from_raw(width, height, pixels).map(DynamicImage::ImageLuma8)
}

/// What `DynamicImage::apply_orientation` makes of a picture, for an orientation as Exif numbers
/// it.
pub uninterp spec fn turned_image(img: DynamicImage, turn: u8) -> DynamicImage;

/// `DynamicImage::apply_orientation` turns and flips a picture; an unknown orientation leaves it
/// as it is.
#[verifier::external_body]
fn turned_image_of(img: DynamicImage, turn: u8) -> (r: DynamicImage)
    ensures
        r == turned_image(img, turn),
{
    let mut r = img;
    r.apply_orientation(Orientation::from_exif(turn).unwrap_or(Orientation::NoTransforms));
    r
}

/// The width and the height of a picture.
pub uninterp spec fn image_size(img: DynamicImage) -> (u32, u32);

/// `DynamicImage::width` and `DynamicImage::height` give the size of a picture.
#[verifier::external_body]
fn image_size_of(img: &DynamicImage) -> (r: (u32, u32))
    ensures
        r == image_size(*img),
{
    (img.width(), img.height())
}

/// How many bytes the buffer of a picture holds.
pub uninterp spec fn buffer_len(img: DynamicImage) -> usize;

/// `DynamicImage::as_bytes` gives the whole buffer of a picture.
#[verifier::external_body]
fn buffer_len_of(img: &DynamicImage) -> (n: usize)
    ensures
        n == buffer_len(*img),
{
    img.as_bytes().len()
}

/// How many bytes a pixel of a picture takes.
pub uninterp spec fn pixel_len(img: DynamicImage) -> u8;

/// `ColorType::bytes_per_pixel` tells how many bytes a pixel of a picture takes.
#[verifier::external_body]
fn pixel_len_of(img: &DynamicImage) -> (n: u8)
    ensures
        n == pixel_len(*img),
{
    img.color().bytes_per_pixel()
}

/// Whether the buffer of a picture holds its pixels and nothing more.
pub open spec fn exact(img: DynamicImage) -> bool {
    buffer_len(img) == image_size(img).0 * image_size(img).1 * pixel_len(img)
}

/// What `DynamicImage::resize` makes of a picture with its triangle filter.
pub uninterp spec fn resized_image(img: DynamicImage, width: u32, height: u32) -> DynamicImage;

/// `DynamicImage::resize` scales a picture to the largest size that fits into a box, keeping the
/// ratio of its sides.
#[verifier::external_body]
fn resized_image_of(img: &DynamicImage, width: u32, height: u32) -> (r: DynamicImage)
    requires
        width >= 1,
        height >= 1,
    ensures
        r == resized_image(*img, width, height),
        image_size(r).0 <= width,
        image_size(r).1 <= height,
{
    img.resize(width, height, image::imageops::FilterType::Triangle)
}

/// What `DynamicImage::write_to` writes of a picture in the PNG format.
pub uninterp spec fn png_bytes(img: DynamicImage) -> Option<Seq<u8>>;

/// What is seen of optional bytes.
pub open spec fn opt_bytes(b: Option<Vec<u8>>) -> Option<Seq<u8>> {
    match b {
        Some(v) => Some(v@),
        None => None,
    }
}

/// `DynamicImage::write_to` encodes a picture in the PNG format, or fails. The encoder insists on
/// a buffer that holds the pixels and nothing more.
#[verifier::external_body]
fn png_bytes_of(img: &DynamicImage) -> (r: Option<Vec<u8>>)
    requires
        exact(*img),
    ensures
        opt_bytes(r) == png_bytes(*img),
{
    let mut buf = Cursor::new(Vec::new());
    img.write_to(&mut buf, ImageFormat::Png).ok()?;
    Some(buf.into_inner())
}

/// `n` as far as it can be asked of the JPEG decoder.
pub open spec fn asked(n: u32) -> u16 {
    if n > u16::MAX {
        u16::MAX
    } else {
        n as u16
    }
}

/// The picture of decoded JPEG pixels, turned; none where they take too much memory, where there
/// are fewer than the size asks for, or where they are laid out in a way that is left to the other
/// decoder.
pub open spec fn jpeg_image(
    decoded: Option<(Seq<u8>, u16, u16, JpegPixels)>,
    turn: u8,
) -> Option<DynamicImage> {
    match decoded {
        None => None,
        Some((pixels, w, h, layout)) => if w * h * 4 > MAX_ALLOC {
            None
        } else {
            let img = match layout {
                JpegPixels::Rgb => rgb_image(w as u32, h as u32, pixels),
                JpegPixels::Luma => gray_image(w as u32, h as u32, pixels),
                JpegPixels::Other => None,
            };
            match img {
                Some(i) => Some(turned_image(i, turn)),
                None => None,
            }
        },
    }
}

/// Makes a picture of decoded JPEG pixels.
pub fn jpeg_image_of(decoded: Option<(Vec<u8>, u16, u16, JpegPixels)>, turn: u8) -> (r: Option<
    Picture,
>)
    ensures
        opt_picture(r) == jpeg_image(pixels_view(decoded), turn),
        r is Some <==> (decoded matches Some(d) && d.1 * d.2 * 4 <= MAX_ALLOC && match d.3 {
            JpegPixels::Rgb => d.0@.len() >= d.1 * d.2 * 3,
            JpegPixels::Luma => d.0@.len() >= d.1 * d.2,
            JpegPixels::Other => false,
        }),
{
    match decoded {
        None => None,
        Some((pixels, w, h, layout)) => {
            assert(w * h * 4 <= 65535 * 65535 * 4) by (nonlinear_arith)
                requires
                    w <= 65535,
                    h <= 65535,
            ;
            if (w as u64) * (h as u64) * 4 > MAX_ALLOC {
                return None;
            }
            let img = match layout {
                JpegPixels::Rgb => rgb_image_of(w as u32, h as u32, pixels),
                JpegPixels::Luma => gray_image_of(w as u32, h as u32, pixels),
                JpegPixels::Other => None,
            };
            match img {
                Some(i) => Some(Picture { image: turned_image_of(i, turn) }),
                None => None,
            }
        },
    }
}

/// Whether JPEG bytes may give a picture, scaled down while it is decoded for a box of `max_w` by
/// `max_h` pixels.
pub open spec fn jpeg_scaled(
    bytes: Seq<u8>,
    max_w: u32,
    max_h: u32,
    img: Option<DynamicImage>,
) -> bool {
    exists|decoded: Option<(Seq<u8>, u16, u16, JpegPixels)>, turn: u8|
        {
            &&& #[trigger] jpeg_may_give(bytes, asked(max_w), asked(max_h), decoded)
            &&& #[trigger] may_turn(bytes, turn)
            &&& img == jpeg_image(decoded, turn)
        }
}

/// Decodes a JPEG picture, scaled down for a box while it is decoded.
pub fn decode_jpeg_scaled(bytes: &[u8], max_w: u32, max_h: u32) -> (r: Option<Picture>)
    ensures
        jpeg_scaled(bytes@, max_w, max_h, opt_picture(r)),
{
    let turn: u8 = jpeg_turn_of(bytes);
    let req_w: u16 = if max_w > 0xffff {
        0xffff
    } else {
        max_w as u16
    };
    let req_h: u16 = if max_h > 0xffff {
        0xffff
    } else {
        max_h as u16
    };
    let decoded = jpeg_pixels_of(bytes, req_w, req_h);
    let ghost seen = pixels_view(decoded);
    assert(jpeg_may_give(bytes@, asked(max_w), asked(max_h), seen));
    assert(may_turn(bytes@, turn));
    jpeg_image_of(decoded, turn)
}

/// A decoded picture, turned upright.
pub open spec fn upright(decoded: Option<(DynamicImage, u8)>) -> Option<DynamicImage> {
    match decoded {
        Some((img, turn)) => Some(turned_image(img, turn)),
        None => None,
    }
}

/// Whether bytes may give a picture, decoded whole.
pub open spec fn decoded_whole(bytes: Seq<u8>, img: Option<DynamicImage>) -> bool {
    exists|decoded: Option<(DynamicImage, u8)>|
        #[trigger] may_decode(bytes, MAX_ALLOC, decoded) && img == upright(decoded)
}

/// Decodes a picture of any format that is known.
pub fn decode_generic(bytes: &[u8]) -> (r: Option<Picture>)
    ensures
        decoded_whole(bytes@, opt_picture(r)),
{
    let decoded = decoded_image_of(bytes, MAX_ALLOC);
    assert(may_decode(bytes@, MAX_ALLOC, decoded));
    match decoded {
        Some((img, turn)) => Some(Picture { image: turned_image_of(img, turn) }),
        None => None,
    }
}

/// Whether bytes may give a picture: JPEG bytes are scaled down while they are decoded, where that
/// works; others, and JPEG bytes where it does not, are decoded whole.
pub open spec fn decoded_for(
    bytes: Seq<u8>,
    max_w: u32,
    max_h: u32,
    img: Option<DynamicImage>,
) -> bool {
    match guessed_jpeg(bytes) {
        None => img is None,
        Some(jpeg) => {
            ||| jpeg && img is Some && jpeg_scaled(bytes, max_w, max_h, img)
            ||| (jpeg ==> jpeg_scaled(bytes, max_w, max_h, None)) && decoded_whole(bytes, img)
        },
    }
}

/// Decodes a picture for a box of `max_w` by `max_h` pixels.
pub fn decode(bytes: &[u8], max_w: u32, max_h: u32) -> (r: Option<Picture>)
    ensures
        decoded_for(bytes@, max_w, max_h, opt_picture(r)),
{
    match guessed_jpeg_of(bytes) {
        None => None,
        Some(jpeg) => {
            if jpeg {
                match decode_jpeg_scaled(bytes, max_w, max_h) {
                    Some(img) => return Some(img),
                    None => {},
                }
            }
            decode_generic(bytes)
        },
    }
}

/// `img`, scaled down where it does not fit into a box of `max_w` by `max_h` pixels.
pub open spec fn downscaled(img: DynamicImage, max_w: u32, max_h: u32) -> DynamicImage {
    if image_size(img).0 <= max_w && image_size(img).1 <= max_h {
        img
    } else {
        resized_image(img, max_w, max_h)
    }
}

/// Scales a picture down where it does not fit into a box; the result fits.
pub fn downscale(img: Picture, max_w: u32, max_h: u32) -> (r: Picture)
    requires
        max_w >= 1,
        max_h >= 1,
    ensures
        r@ == downscaled(img@, max_w, max_h),
        image_size(r@).0 <= max_w,
        image_size(r@).1 <= max_h,
{
    let (w, h) = img.size();
    if w <= max_w && h <= max_h {
        return img;
    }
    Picture { image: resized_image_of(&img.image, max_w, max_h) }
}

/// The PNG bytes of a picture; none where its buffer holds more than its pixels.
pub open spec fn encoded_png(img: DynamicImage) -> Option<Seq<u8>> {
    if exact(img) {
        png_bytes(img)
    } else {
        None
    }
}

/// Encodes a picture as PNG.
pub fn encode_png(img: Picture) -> (r: Option<Vec<u8>>)
    ensures
        opt_bytes(r) == encoded_png(img@),
{
    let (w, h) = img.size();
    let each: u8 = pixel_len_of(&img.image);
    assert(w * h <= 0xffff_ffff * 0xffff_ffff) by (nonlinear_arith)
        requires
            w <= 0xffff_ffff,
            h <= 0xffff_ffff,
    ;
    let count: u128 = (w as u128) * (h as u128);
    assert(count * each <= 0xffff_ffff * 0xffff_ffff * 255) by (nonlinear_arith)
        requires
            0 <= count <= 0xffff_ffff * 0xffff_ffff,
            each <= 255,
    ;
    if buffer_len_of(&img.image) as u128 != count * (each as u128) {
        return None;
    }
    png_bytes_of(&img.image)
}

// ------------------------------------------------------------ the steps of a picture

/// A picture that is ready for the terminal.
#[derive(Debug)]
pub struct PreparedImage {
    /// The sequence that sends the picture and shows it at the cursor.
    pub transmit: Vec<u8>,
}

/// What is to be done for a picture.
#[derive(Debug)]
pub enum PrepareStep {
    /// There is no room for a picture.
    Reject,
    /// Read the file and go on with `prepare`.
    ReadSource,
    /// The cache holds the picture.
    Ready(PreparedImage),
}

/// Decides from what was read from the cache, if anything was, for an area of `cols` by `rows`
/// cells.
pub fn prepare_cached(cols: u16, rows: u16, cached: Option<Vec<u8>>) -> (step: PrepareStep)
    ensures
        step is Reject <==> cols == 0 || rows == 0,
        step is Ready <==> cols != 0 && rows != 0 && (cached matches Some(png) && png@.len() > 0),
        step matches PrepareStep::Ready(p) ==> p.transmit@ == png_transmission(cached->0@),
{
    if cols == 0 || rows == 0 {
        return PrepareStep::Reject;
    }
    match cached {
        Some(png) => {
            if png.len() > 0 {
                return PrepareStep::Ready(PreparedImage { transmit: transmit_png(png.as_slice()) });
            }
            PrepareStep::ReadSource
        },
        None => PrepareStep::ReadSource,
    }
}

/// The PNG bytes for a decoded picture, in a box of `max_w` by `max_h` pixels; none for a picture
/// without pixels.
pub open spec fn prepared_png(img: Option<DynamicImage>, max_w: u32, max_h: u32) -> Option<
    Seq<u8>,
> {
    match img {
        Some(i) => {
            let small = downscaled(i, max_w, max_h);
            if image_size(small).0 == 0 || image_size(small).1 == 0 {
                None
            } else {
                encoded_png(small)
            }
        },
        None => None,
    }
}

/// Whether `r` is what is sent to the terminal and cached for these PNG bytes.
pub open spec fn prepared_as(
    r: Option<(PreparedImage, Vec<u8>)>,
    png: Option<Seq<u8>>,
) -> bool {
    &&& r is Some == png is Some
    &&& r matches Some(p) ==> png == Some(p.1@) && p.0.transmit@ == png_transmission(p.1@)
}

/// Prepares a decoded picture for a box of `max_w` by `max_h` pixels; gives what is sent to the
/// terminal, and the PNG bytes to be cached.
pub fn prepare_picture(img: Option<Picture>, max_w: u32, max_h: u32) -> (r: Option<
    (PreparedImage, Vec<u8>),
>)
    requires
        max_w >= 1,
        max_h >= 1,
    ensures
        prepared_as(r, prepared_png(opt_picture(img), max_w, max_h)),
{
    match img {
        None => None,
        Some(i) => {
            let small = downscale(i, max_w, max_h);
            let (w, h) = small.size();
            if w == 0 || h == 0 {
                return None;
            }
            match encode_png(small) {
                None => None,
                Some(png) => {
                    let transmit = transmit_png(png.as_slice());
                    Some((PreparedImage { transmit }, png))
                },
            }
        },
    }
}

/// Prepares a picture from the bytes of its file, for a box of `max_w` by `max_h` pixels; gives
/// what is sent to the terminal, and the PNG bytes to be cached.
pub fn prepare(source: &[u8], max_w: u32, max_h: u32) -> (r: Option<(PreparedImage, Vec<u8>)>)
    requires
        max_w >= 1,
        max_h >= 1,
    ensures
        exists|img: Option<DynamicImage>|
            {
                &&& #[trigger] decoded_for(source@, max_w, max_h, img)
                &&& prepared_as(r, prepared_png(img, max_w, max_h))
            },
        guessed_jpeg(source@) is None ==> r is None,
{
    let img = decode(source, max_w, max_h);
    let ghost seen = opt_picture(img);
    assert(decoded_for(source@, max_w, max_h, seen));
    prepare_picture(img, max_w, max_h)
}

} // verus!
