//! What a preview shows of a file.

use crate::preview::{
    bad_bytes, bat_command, bat_step, binary, cleaned, file_lines, first_step, head_step,
    named_as_image, start_of, unreadable, utf8_text_is_not_binary, valid_up_to, PreviewView, SpanView,
    StepView, BINARY_SCAN_BYTES, FALLBACK_MAX_BYTES, MAX_LINES, PREVIEW_MAX_BYTES,
};
use crate::text::{decimal, lines};
use vstd::prelude::*;
use vstd::utf8::valid_utf8;

verus! {

// ------------------------------------------------------------ characters

/// Whether `c` is a control character.
pub open spec fn not_printed(c: char) -> bool {
    (c as u32) < 0x20 || 0x7f <= (c as u32) <= 0x9f
}

/// Text is shown character by character, in order: a tab as four blanks, other control characters
/// not at all, and every other character as it is, and line breaks too.
pub proof fn text_is_shown_by_characters(a: Seq<char>, b: Seq<char>, c: char)
    ensures
        cleaned(a + b) == cleaned(a) + cleaned(b),
        cleaned(Seq::empty()) == Seq::<char>::empty(),
        cleaned(seq!['\t']) == seq![' ', ' ', ' ', ' '],
        c != '\t' && c != '\n' && not_printed(c) ==> cleaned(seq![c]) == Seq::<char>::empty(),
        c == '\n' || !not_printed(c) ==> cleaned(seq![c]) == seq![c],
        (forall|i: int| 0 <= i < a.len() ==> !not_printed(#[trigger] a[i])) ==> cleaned(a) == a,
    decreases b.len(),
{
    if b.len() == 0 {
        assert(a + b == a);
        assert(cleaned(a) + cleaned(b) == cleaned(a));
    } else {
        text_is_shown_by_characters(a, b.drop_last(), c);
        assert((a + b).drop_last() == a + b.drop_last());
        assert((a + b).last() == b.last());
    }
    one_character('\t');
    one_character(c);
    if forall|i: int| 0 <= i < a.len() ==> !not_printed(#[trigger] a[i]) {
        printed_text_stays(a);
    }
}

proof fn one_character(c: char)
    ensures
        cleaned(seq![c]) == crate::preview::cleaned_char(c),
        crate::text::control(c) == not_printed(c),
{
    assert(seq![c].drop_last().len() == 0);
    assert(cleaned(seq![c].drop_last()) == Seq::<char>::empty());
}

proof fn printed_text_stays(a: Seq<char>)
    requires
        forall|i: int| 0 <= i < a.len() ==> !not_printed(#[trigger] a[i]),
    ensures
        cleaned(a) == a,
    decreases a.len(),
{
    if a.len() > 0 {
        let front = a.drop_last();
        assert forall|i: int| 0 <= i < front.len() implies !not_printed(#[trigger] front[i]) by {
            assert(front[i] == a[i]);
        }
        printed_text_stays(front);
        assert(!not_printed(a[a.len() - 1]));
        one_character(a.last());
        assert(front + seq![a.last()] == a);
    }
}

/// Whether `r` shows the lines `v`: as many lines, each with as many parts, each with the same
/// colours and modifiers and the text without control characters. Where `mark` holds, one more line,
/// in italics, says that the preview was cut.
pub open spec fn shows_lines(
    r: Seq<Seq<SpanView>>,
    v: Seq<Seq<SpanView>>,
    mark: bool,
) -> bool {
    &&& r.len() == v.len() + if mark {
        1int
    } else {
        0
    }
    &&& forall|i: int| 0 <= i < v.len() ==> (#[trigger] r[i]).len() == v[i].len()
    &&& forall|i: int, j: int|
        0 <= i < v.len() && 0 <= j < v[i].len() ==> (#[trigger] r[i][j]) == (SpanView {
            text: cleaned(v[i][j].text),
            fg: v[i][j].fg,
            bg: v[i][j].bg,
            underline: v[i][j].underline,
            added: v[i][j].added,
            removed: v[i][j].removed,
        })
    &&& mark ==> r[v.len() as int] == seq![
        SpanView {
            text: "…… 文件过大，预览已截断 ……"@,
            fg: None,
            bg: None,
            underline: None,
            added: 4,
            removed: 0,
        },
    ]
}

proof fn mark_stays()
    ensures
        cleaned("…… 文件过大，预览已截断 ……"@) == "…… 文件过大，预览已截断 ……"@,
{
    reveal_strlit("…… 文件过大，预览已截断 ……");
    printed_text_stays("…… 文件过大，预览已截断 ……"@);
}

proof fn marked_lines_are_shown(v: Seq<Seq<SpanView>>, mark: bool)
    ensures
        shows_lines(crate::preview::cleaned_lines(crate::preview::marked(v, mark)), v, mark),
{
    mark_stays();
    let m = crate::preview::marked(v, mark);
    let r = crate::preview::cleaned_lines(m);
    assert forall|i: int| 0 <= i < v.len() implies (#[trigger] r[i]).len() == v[i].len() by {
        assert(m[i] == v[i]);
    }
    assert forall|i: int, j: int| 0 <= i < v.len() && 0 <= j < v[i].len() implies (
    #[trigger] r[i][j]) == (SpanView { text: cleaned(v[i][j].text), ..v[i][j] }) by {
        assert(m[i] == v[i]);
    }
    if mark {
        let last = r[v.len() as int];
        assert(m[v.len() as int] == crate::preview::cut_line());
        assert(last =~= seq![
            SpanView {
                text: "…… 文件过大，预览已截断 ……"@,
                fg: None,
                bg: None,
                underline: None,
                added: 4,
                removed: 0,
            },
        ]);
    }
}

// ------------------------------------------------------------ text

/// Where `bat` printed something that can be read, all lines of it are shown, and the line behind
/// them where the file was cut. Where it printed nothing, or could not be run, the file is read
/// instead, and where what it printed cannot be read too, with the mark.
pub proof fn all_lines_of_bat_are_shown(
    bytes: Seq<u8>,
    text: Option<Seq<Seq<SpanView>>>,
    cut: bool,
)
    ensures
        bytes.len() > 0 && text is Some ==> (bat_step(Some(bytes), text, cut) matches StepView::Done(
            PreviewView::Text(r),
        ) && shows_lines(r, text->0, cut)),
        bytes.len() > 0 && text is None ==> bat_step(Some(bytes), text, cut) == (
        StepView::ReadFile { mark: cut }),
        bat_step(Some(Seq::empty()), text, cut) == (StepView::ReadFile { mark: false }),
        bat_step(None, text, cut) == (StepView::ReadFile { mark: false }),
{
    if let Some(v) = text {
        marked_lines_are_shown(v, cut);
    }
}

/// A file that is read without `bat` is shown line by line, each line as one part without colours,
/// and an empty line as an empty one.
pub proof fn all_lines_of_a_file_are_shown(text: Seq<char>, mark: bool)
    ensures
        ({
            let ls = lines(text);
            let v = Seq::new(
                ls.len(),
                |i: int|
                    if ls[i].len() == 0 {
                        Seq::<SpanView>::empty()
                    } else {
                        seq![
                            SpanView {
                                text: ls[i],
                                fg: None,
                                bg: None,
                                underline: None,
                                added: 0,
                                removed: 0,
                            },
                        ]
                    },
            );
            &&& text.len() > 0 ==> shows_lines(file_lines(text, mark), v, mark)
            &&& text.len() == 0 ==> shows_lines(file_lines(text, mark), seq![Seq::empty()], mark)
        }),
{
    let ls = lines(text);
    let v = Seq::new(
        ls.len(),
        |i: int|
            if ls[i].len() == 0 {
                Seq::<SpanView>::empty()
            } else {
                seq![
                    SpanView {
                        text: ls[i],
                        fg: None,
                        bg: None,
                        underline: None,
                        added: 0,
                        removed: 0,
                    },
                ]
            },
    );
    let p = crate::preview::plain_lines(text);
    if text.len() > 0 {
        assert(p =~= v);
    } else {
        assert(p =~= seq![Seq::<SpanView>::empty()]);
    }
    marked_lines_are_shown(p, mark);
}

/// A file that cannot be read is shown as one line that gives the reason.
pub proof fn reasons_are_shown(reason: Seq<char>, mark: bool)
    ensures
        unreadable(reason, mark).len() == if mark {
            2nat
        } else {
            1
        },
        unreadable(reason, mark)[0].len() == 1,
        unreadable(reason, mark)[0][0].text == "无法读取文件: "@ + cleaned(reason),
{
    let text = "无法读取文件: "@ + reason;
    reveal_strlit("无法读取文件: ");
    printed_text_stays("无法读取文件: "@);
    text_is_shown_by_characters("无法读取文件: "@, reason, ' ');
    let v = crate::preview::notice(text);
    marked_lines_are_shown(v, mark);
    assert(v[0].len() == 1);
    let r = unreadable(reason, mark);
    assert(r[0][0].text == cleaned(v[0][0].text));
}

/// Without `bat` the first 262144 bytes are shown, and the whole file where it is not longer.
pub proof fn the_start_of_a_file_is_shown(bytes: Seq<u8>)
    ensures
        bytes.len() <= 262144 ==> start_of(bytes, FALLBACK_MAX_BYTES as int) == bytes,
        bytes.len() > 262144 ==> start_of(bytes, FALLBACK_MAX_BYTES as int) == bytes.take(262144),
{
}

// ------------------------------------------------------------ the start of a file

proof fn longest_valid_start(s: Seq<u8>, j: int)
    requires
        0 <= j <= s.len(),
    ensures
        0 <= valid_up_to(s, j) <= j,
        valid_utf8(s.take(valid_up_to(s, j))),
        forall|k: int| valid_up_to(s, j) < k <= j ==> !valid_utf8(#[trigger] s.take(k)),
    decreases j,
{
    if j > 0 && !valid_utf8(s.take(j)) {
        longest_valid_start(s, j - 1);
    } else if j == 0 {
        assert(s.take(0).len() == 0);
    }
}

/// The first half megabyte of a text file goes to `bat`, whole where the file is not longer, and
/// otherwise up to the last whole character, with the mark that it was cut.
pub proof fn text_goes_to_bat(read: Seq<u8>)
    requires
        read.len() > 0,
        !binary(start_of(start_of(read, 524288), 16384)),
    ensures
        ({
            let most = if read.len() <= 524288 {
                read.len() as int
            } else {
                524288
            };
            head_step(read) matches StepView::RunBat { input, cut } && {
                &&& cut == (read.len() > 524288)
                &&& input.len() <= most
                &&& input == read.take(input.len() as int)
                &&& valid_utf8(input)
                &&& forall|k: int| input.len() < k <= most ==> !valid_utf8(#[trigger] read.take(k))
                &&& read.len() <= 524288 && valid_utf8(read) ==> input == read
            }
        }),
{
    let most = if read.len() <= 524288 {
        read.len() as int
    } else {
        524288
    };
    let head = start_of(read, 524288);
    assert(head == read.take(most));
    longest_valid_start(head, most);
    let n = valid_up_to(head, most);
    assert(head.take(n) == read.take(n));
    assert forall|k: int| n < k <= most implies !valid_utf8(#[trigger] read.take(k)) by {
        assert(head.take(k) == read.take(k));
    }
    if read.len() <= 524288 && valid_utf8(read) {
        assert(read.take(most) == read);
    }
}

/// UTF-8 text of up to 16384 bytes whose only ASCII control characters are tabs and line breaks goes
/// to `bat` as it is.
pub proof fn short_text_goes_to_bat_whole(read: Seq<u8>)
    requires
        0 < read.len() <= 16384,
        valid_utf8(read),
        forall|k: int|
            0 <= k < read.len() && #[trigger] read[k] < 0x80 ==> (0x20 <= read[k] <= 0x7e || read[k]
                == 9 || read[k] == 10 || read[k] == 13),
    ensures
        head_step(read) == (StepView::RunBat { input: read, cut: false }),
{
    utf8_text_is_not_binary(read);
    text_goes_to_bat(read);
}

/// A file with a zero byte among its first 16384 bytes is not shown; it gives one line that says so.
/// A file without content is read again, to tell an empty one from one that cannot be read.
pub proof fn binary_files_are_not_shown(read: Seq<u8>, i: int)
    requires
        0 <= i < read.len(),
        i < 16384,
        read[i] == 0,
    ensures
        head_step(read) matches StepView::Done(PreviewView::Text(r)) && r.len() == 1 && r[0].len()
            == 1 && r[0][0].text == "（二进制文件，不提供预览）"@,
        head_step(Seq::empty()) == (StepView::ReadFile { mark: false }),
{
    let scan = start_of(start_of(read, 524288), 16384);
    assert(scan[i] == 0);
    assert(scan.contains(0u8));
    reveal_strlit("（二进制文件，不提供预览）");
    printed_text_stays("（二进制文件，不提供预览）"@);
    let v = crate::preview::notice("（二进制文件，不提供预览）"@);
    let r = crate::preview::cleaned_lines(v);
    assert(r[0][0].text == cleaned(v[0][0].text));
}

/// Content of printable ASCII characters, tabs and line breaks with other control characters among
/// them is binary where these are more than a fifth.
pub proof fn more_than_a_fifth_is_binary(s: Seq<u8>)
    requires
        forall|i: int|
            0 <= i < s.len() ==> 0x20 <= #[trigger] s[i] <= 0x7e || s[i] == 9 || s[i] == 10 || s[i]
                == 13 || 1 <= s[i] <= 8,
    ensures
        binary(s) <==> 5 * s.filter(|b: u8| b <= 8).len() > s.len(),
{
    bad_bytes_are_counted(s, 0);
    assert(s.skip(0) == s);
    assert(!s.contains(0u8));
    if s.len() == 0 {
        reveal(Seq::filter);
    }
}

proof fn bad_bytes_are_counted(s: Seq<u8>, i: int)
    requires
        0 <= i <= s.len(),
        forall|i: int|
            0 <= i < s.len() ==> 0x20 <= #[trigger] s[i] <= 0x7e || s[i] == 9 || s[i] == 10 || s[i]
                == 13 || 1 <= s[i] <= 8,
    ensures
        bad_bytes(s, i) == s.skip(i).filter(|b: u8| b <= 8).len(),
    decreases s.len() - i,
{
    let f = |b: u8| b <= 8;
    reveal(Seq::filter);
    if i < s.len() {
        bad_bytes_are_counted(s, i + 1);
        let one = seq![s[i]];
        assert(s.skip(i) == one + s.skip(i + 1));
        Seq::filter_distributes_over_add(one, s.skip(i + 1), f);
        assert(one.drop_last().filter(f).len() == 0);
        assert(one.filter(f).len() == if f(s[i]) {
            1nat
        } else {
            0
        });
    } else {
        assert(s.skip(i).len() == 0);
    }
}

// ------------------------------------------------------------ commands and pictures

/// `bat` is told to colour what it gets on its input as a file of this name, with line numbers, for a
/// width of at least ten columns, up to 5000 lines, and in the theme where it has it.
pub proof fn bat_is_told_what_to_colour(path: Seq<char>, width: u16, macchiato: bool)
    ensures
        ({
            let cmd = bat_command(path, width, macchiato);
            let m: int = if macchiato {
                1
            } else {
                0
            };
            let columns: nat = if width < 10 {
                10
            } else {
                width as nat
            };
            &&& cmd.program == "bat"@
            &&& cmd.dir is None
            &&& cmd.args.len() == 10 + m
            &&& cmd.args[0] == "--paging=never"@
            &&& cmd.args[1] == "--color=always"@
            &&& cmd.args[2] == "--style=numbers"@
            &&& macchiato ==> cmd.args[3] == "--theme=Catppuccin Macchiato"@
            &&& cmd.args[3 + m] == "--wrap=character"@
            &&& cmd.args[4 + m] == "--terminal-width"@
            &&& cmd.args[5 + m] == decimal(columns)
            &&& cmd.args[6 + m] == "--line-range"@
            &&& cmd.args[7 + m] == seq![':'] + decimal(5000)
            &&& cmd.args[8 + m] == "--file-name"@
            &&& cmd.args[9 + m] == path
        }),
{
}

/// A file is taken for a picture by the end of its name, in any case.
pub proof fn pictures_are_told_by_their_names(dir: Seq<char>, stem: Seq<char>, ext: Seq<char>)
    requires
        !stem.contains('/'),
        !ext.contains('/'),
        !ext.contains('.'),
        stem.len() > 0,
        ext.len() > 0,
    ensures
        ({
            let lower = ext.map_values(
                |c: char|
                    if 'A' <= c <= 'Z' {
                        (c as u32 + 32) as char
                    } else {
                        c
                    },
            );
            let known = seq![
                "png"@, "jpg"@, "jpeg"@, "gif"@, "bmp"@, "webp"@, "ico"@, "icns"@, "svg"@, "tif"@,
                "tiff"@, "avif"@, "heic"@, "heif"@, "jxl"@, "psd"@, "raw"@, "cr2"@, "nef"@, "arw"@,
                "dng"@, "ppm"@, "pgm"@, "pbm"@, "xpm"@, "exr"@, "hdr"@,
            ];
            named_as_image(dir + seq!['/'] + (stem + seq!['.'] + ext)) <==> known.contains(lower)
        }),
        !stem.contains('.') ==> !named_as_image(dir + seq!['/'] + stem),
{
    assert(stem + seq!['.'] + ext != seq!['.', '.']) by {
        if stem + seq!['.'] + ext == seq!['.', '.'] {
            assert((stem + seq!['.'] + ext).len() > 2);
        }
    }
    crate::paths::extension_follows_last_point(dir, stem, ext);
    let f = |c: char|
        if 'A' <= c <= 'Z' {
            (c as u32 + 32) as char
        } else {
            c
        };
    let lower = ext.map_values(f);
    assert(lower =~= crate::preview::ascii_lowercase(ext));
    let known = seq![
        "png"@, "jpg"@, "jpeg"@, "gif"@, "bmp"@, "webp"@, "ico"@, "icns"@, "svg"@, "tif"@,
        "tiff"@, "avif"@, "heic"@, "heif"@, "jxl"@, "psd"@, "raw"@, "cr2"@, "nef"@, "arw"@,
        "dng"@, "ppm"@, "pgm"@, "pbm"@, "xpm"@, "exr"@, "hdr"@,
    ];
    assert(known.len() == 27);
    assert forall|i: int| 0 <= i < 27 implies (#[trigger] crate::preview::IMAGE_EXTS[i])@ == known[i] by {}
    if known.contains(lower) {
        let i = choose|i: int| 0 <= i < known.len() && known[i] == lower;
        assert(crate::preview::IMAGE_EXTS[i]@ == lower);
    }
    if exists|i: int| 0 <= i < 27 && (#[trigger] crate::preview::IMAGE_EXTS[i])@ == lower {
        let i = choose|i: int| 0 <= i < 27 && (#[trigger] crate::preview::IMAGE_EXTS[i])@ == lower;
        assert(known[i] == lower);
    }
}

/// A picture is prepared for the whole area of the preview where the terminal shows pictures, and is
/// not shown where it does not; any other file is read.
pub proof fn pictures_are_prepared_for_their_area(
    path: Seq<char>,
    width: u16,
    height: u16,
    kitty: bool,
)
    ensures
        !named_as_image(path) ==> first_step(path, width, height, kitty) is ReadHead,
        named_as_image(path) && kitty && width > 0 && height > 0 ==> first_step(
            path,
            width,
            height,
            kitty,
        ) == (StepView::PrepareImage { cols: width, rows: height }),
        named_as_image(path) && !kitty ==> (first_step(path, width, height, kitty) matches StepView::Done(
            PreviewView::Text(r),
        ) && r.len() == 1 && r[0].len() == 1 && r[0][0].text
            == "（图片文件，当前终端不支持图片预览）"@),
{
}

/// How much is shown at most.
pub proof fn previews_have_their_limits()
    ensures
        MAX_LINES == 5000,
        PREVIEW_MAX_BYTES == 524288,
        FALLBACK_MAX_BYTES == 262144,
        BINARY_SCAN_BYTES == 16384,
{
}

} // verus!
