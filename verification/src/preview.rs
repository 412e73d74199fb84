//! Previews of files: text coloured by `bat`, pictures, or a notice.
//!
//! The work alternates between reading or running something and deciding what comes next. The
//! decisions are here: each function takes what the last step gave and returns the next step.

use crate::paths::{extension, extension_of};
use crate::search::{lossy, lossy_of, CommandLine, CommandView};
use crate::text::{
    control, decimal, decimal_of, is_control, lines, lines_of, occurs, same_str, texts, to_chars,
};
use ansi_to_tui::IntoText;
use vstd::prelude::*;
use vstd::utf8::{length_of_first_scalar, pop_first_scalar, valid_first_scalar, valid_utf8};

verus! {

/// How many lines are shown at most.
pub const MAX_LINES: u64 = 5000;

/// How many bytes of a file are handed to `bat` at most.
pub const PREVIEW_MAX_BYTES: usize = 524288;

/// How many bytes of a file are shown at most where `bat` cannot be used.
pub const FALLBACK_MAX_BYTES: usize = 262144;

/// How many bytes at the start of a file tell whether it is binary.
pub const BINARY_SCAN_BYTES: usize = 16384;

/// The extensions of picture files, in lower case.
pub const IMAGE_EXTS: [&'static str; 27] = [
    "png",
    "jpg",
    "jpeg",
    "gif",
    "bmp",
    "webp",
    "ico",
    "icns",
    "svg",
    "tif",
    "tiff",
    "avif",
    "heic",
    "heif",
    "jxl",
    "psd",
    "raw",
    "cr2",
    "nef",
    "arw",
    "dng",
    "ppm",
    "pgm",
    "pbm",
    "xpm",
    "exr",
    "hdr",
];

// ------------------------------------------------------------ what a preview is

/// Text in one style. Colours are written as ratatui writes them; modifiers are its bits.
#[derive(Debug)]
pub struct PreviewSpan {
    pub text: String,
    pub fg: Option<String>,
    pub bg: Option<String>,
    pub underline: Option<String>,
    pub added: u16,
    pub removed: u16,
}

/// A line of a preview.
#[derive(Debug)]
pub struct PreviewLine {
    pub spans: Vec<PreviewSpan>,
}

/// A preview: text, or the bytes by which a terminal shows a picture.
#[derive(Debug)]
pub enum Preview {
    Text(Vec<PreviewLine>),
    Image { transmit: Vec<u8> },
}

/// What is seen of a span.
#[verifier::ext_equal]
pub struct SpanView {
    pub text: Seq<char>,
    pub fg: Option<Seq<char>>,
    pub bg: Option<Seq<char>>,
    pub underline: Option<Seq<char>>,
    pub added: u16,
    pub removed: u16,
}

/// What is seen of a preview.
#[verifier::ext_equal]
pub enum PreviewView {
    Text(Seq<Seq<SpanView>>),
    Image(Seq<u8>),
}

/// What is seen of an optional text.
pub open spec fn opt_text(s: Option<String>) -> Option<Seq<char>> {
    match s {
        Some(t) => Some(t@),
        None => None,
    }
}

impl View for PreviewSpan {
    type V = SpanView;

    open spec fn view(&self) -> SpanView {
        SpanView {
            text: self.text@,
            fg: opt_text(self.fg),
            bg: opt_text(self.bg),
            underline: opt_text(self.underline),
            added: self.added,
            removed: self.removed,
        }
    }
}

impl View for PreviewLine {
    type V = Seq<SpanView>;

    open spec fn view(&self) -> Seq<SpanView> {
        self.spans@.map_values(|s: PreviewSpan| s@)
    }
}

/// What is seen of the lines of a preview.
pub open spec fn line_views(v: Seq<PreviewLine>) -> Seq<Seq<SpanView>> {
    v.map_values(|l: PreviewLine| l@)
}

impl View for Preview {
    type V = PreviewView;

    open spec fn view(&self) -> PreviewView {
        match *self {
            Preview::Text(v) => PreviewView::Text(line_views(v@)),
            Preview::Image { transmit } => PreviewView::Image(transmit@),
        }
    }
}

/// Text without a style of its own.
pub open spec fn plain_span(text: Seq<char>) -> SpanView {
    SpanView { text, fg: None, bg: None, underline: None, added: 0, removed: 0 }
}

/// A preview that is a single line of text.
pub open spec fn notice(text: Seq<char>) -> Seq<Seq<SpanView>> {
    seq![seq![plain_span(text)]]
}

fn plain_span_of(text: &str) -> (r: PreviewSpan)
    ensures
        r@ == plain_span(text@),
{
    PreviewSpan {
        text: text.to_owned(),
        fg: None,
        bg: None,
        underline: None,
        added: 0,
        removed: 0,
    }
}

fn notice_of(text: &str) -> (r: Vec<PreviewLine>)
    ensures
        line_views(r@) == notice(text@),
{
    let mut spans: Vec<PreviewSpan> = Vec::new();
    spans.push(plain_span_of(text));
    let line = PreviewLine { spans };
    assert(line@ == seq![plain_span(text@)]);
    let mut r: Vec<PreviewLine> = Vec::new();
    r.push(line);
    assert(line_views(r@) == notice(text@));
    r
}

/// Unstyled text in lines; an empty line has no span, and an empty text is one empty line.
pub open spec fn plain_lines(text: Seq<char>) -> Seq<Seq<SpanView>> {
    if text.len() == 0 {
        seq![Seq::empty()]
    } else {
        lines(text).map_values(
            |l: Seq<char>|
                if l.len() == 0 {
                    Seq::empty()
                } else {
                    seq![plain_span(l)]
                },
        )
    }
}

fn plain_lines_of(text: &str) -> (r: Vec<PreviewLine>)
    ensures
        line_views(r@) == plain_lines(text@),
{
    let mut r: Vec<PreviewLine> = Vec::new();
    if text.is_empty() {
        let line = PreviewLine { spans: Vec::new() };
        assert(line@ == Seq::<SpanView>::empty());
        r.push(line);
        assert(line_views(r@) == plain_lines(text@));
        return r;
    }
    let all = lines_of(text);
    let ghost f = |l: Seq<char>|
        if l.len() == 0 {
            Seq::<SpanView>::empty()
        } else {
            seq![plain_span(l)]
        };
    let mut i: usize = 0;
    while i < all.len()
        invariant
            i <= all@.len(),
            f == (|l: Seq<char>|
                if l.len() == 0 {
                    Seq::<SpanView>::empty()
                } else {
                    seq![plain_span(l)]
                }),
            line_views(r@) == texts(all@).take(i as int).map_values(f),
        decreases all@.len() - i,
    {
        let mut spans: Vec<PreviewSpan> = Vec::new();
        if !all[i].as_str().is_empty() {
            spans.push(plain_span_of(all[i].as_str()));
        }
        let line = PreviewLine { spans };
        assert(line@ == f(all@[i as int]@));
        let ghost before = line_views(r@);
        r.push(line);
        assert(line_views(r@) == before.push(line@));
        assert(texts(all@).take(i + 1) == texts(all@).take(i as int).push(all@[i as int]@));
        i += 1;
    }
    assert(texts(all@).take(i as int) == texts(all@));
    r
}

// ------------------------------------------------------------ no control characters

/// What is shown for `c`: four spaces for a tab, nothing for another control character that is
/// no line break.
pub open spec fn cleaned_char(c: char) -> Seq<char> {
    if c == '\t' {
        seq![' ', ' ', ' ', ' ']
    } else if c != '\n' && control(c) {
        Seq::empty()
    } else {
        seq![c]
    }
}

/// `s` without control characters other than line breaks.
pub open spec fn cleaned(s: Seq<char>) -> Seq<char>
    decreases s.len(),
{
    if s.len() == 0 {
        s
    } else {
        cleaned(s.drop_last()) + cleaned_char(s.last())
    }
}

/// The lines with the text of every span cleaned.
pub open spec fn cleaned_lines(v: Seq<Seq<SpanView>>) -> Seq<Seq<SpanView>> {
    v.map_values(|l: Seq<SpanView>| cleaned_line(l))
}

/// The line with the text of every span cleaned.
pub open spec fn cleaned_line(l: Seq<SpanView>) -> Seq<SpanView> {
    l.map_values(|s: SpanView| SpanView { text: cleaned(s.text), ..s })
}

fn clean_text(s: &str) -> (r: String)
    ensures
        r@ == cleaned(s@),
{
    let chars = to_chars(s);
    let mut r = String::new();
    let mut i: usize = 0;
    assert(s@.take(0).len() == 0);
    while i < chars.len()
        invariant
            i <= chars@.len(),
            chars@ == s@,
            r@ == cleaned(s@.take(i as int)),
        decreases chars@.len() - i,
    {
        let c = chars[i];
        let ghost before = r@;
        if c == '\t' {
            r.push(' ');
            r.push(' ');
            r.push(' ');
            r.push(' ');
        } else if c == '\n' || !is_control(c) {
            r.push(c);
        }
        assert(r@ == before + cleaned_char(c));
        assert(s@.take(i + 1).drop_last() == s@.take(i as int));
        i += 1;
    }
    assert(s@.take(i as int) == s@);
    r
}

fn sanitize_line(line: &PreviewLine) -> (r: PreviewLine)
    ensures
        r@ == cleaned_line(line@),
{
    let ghost all = line@;
    let ghost f = |s: SpanView| SpanView { text: cleaned(s.text), ..s };
    let mut spans: Vec<PreviewSpan> = Vec::new();
    let mut i: usize = 0;
    while i < line.spans.len()
        invariant
            i <= line.spans@.len(),
            line@ == all,
            f == (|s: SpanView| SpanView { text: cleaned(s.text), ..s }),
            spans@.map_values(|s: PreviewSpan| s@) == all.take(i as int).map_values(f),
        decreases line.spans@.len() - i,
    {
        let s = &line.spans[i];
        let span = PreviewSpan {
            text: clean_text(s.text.as_str()),
            fg: s.fg.clone(),
            bg: s.bg.clone(),
            underline: s.underline.clone(),
            added: s.added,
            removed: s.removed,
        };
        assert(span@ == f(all[i as int]));
        let ghost before = spans@.map_values(|s: PreviewSpan| s@);
        spans.push(span);
        assert(spans@.map_values(|s: PreviewSpan| s@) == before.push(span@));
        assert(all.take(i + 1) == all.take(i as int).push(all[i as int]));
        i += 1;
    }
    assert(all.take(i as int) == all);
    PreviewLine { spans }
}

/// Removes the control characters that a terminal would execute: tabs become four spaces, others
/// are dropped.
pub fn sanitize_control_chars(v: &Vec<PreviewLine>) -> (r: Vec<PreviewLine>)
    ensures
        line_views(r@) == cleaned_lines(line_views(v@)),
{
    let ghost all = line_views(v@);
    let ghost f = |l: Seq<SpanView>| cleaned_line(l);
    let mut r: Vec<PreviewLine> = Vec::new();
    let mut i: usize = 0;
    while i < v.len()
        invariant
            i <= v@.len(),
            all == line_views(v@),
            f == (|l: Seq<SpanView>| cleaned_line(l)),
            line_views(r@) == all.take(i as int).map_values(f),
        decreases v@.len() - i,
    {
        let ghost before = line_views(r@);
        let line = sanitize_line(&v[i]);
        assert(line@ == f(all[i as int]));
        r.push(line);
        assert(line_views(r@) == before.push(line@));
        assert(all.take(i + 1) == all.take(i as int).push(all[i as int]));
        i += 1;
    }
    assert(all.take(i as int) == all);
    r
}

/// Cleaned text holds no control character but line breaks.
pub proof fn cleaned_has_no_control(s: Seq<char>)
    ensures
        forall|i: int|
            0 <= i < cleaned(s).len() ==> (control(#[trigger] cleaned(s)[i]) ==> cleaned(s)[i]
                == '\n'),
    decreases s.len(),
{
    if s.len() > 0 {
        let t = s.drop_last();
        cleaned_has_no_control(t);
        let r = cleaned(s);
        assert forall|i: int| 0 <= i < r.len() && control(#[trigger] r[i]) implies r[i] == '\n' by {
            if i < cleaned(t).len() {
                assert(r[i] == cleaned(t)[i]);
            } else {
                assert(r[i] == cleaned_char(s.last())[i - cleaned(t).len()]);
            }
        }
    }
}

// ------------------------------------------------------------ pictures by name

/// `c` in lower case, where it is an ASCII letter.
pub open spec fn ascii_lower(c: char) -> char {
    if 'A' <= c <= 'Z' {
        (c as u32 + 32) as char
    } else {
        c
    }
}

/// `s` with its ASCII letters in lower case.
pub open spec fn ascii_lowercase(s: Seq<char>) -> Seq<char> {
    s.map_values(|c: char| ascii_lower(c))
}

/// Whether the extension of `path`, in any case, is that of a picture.
pub open spec fn named_as_image(path: Seq<char>) -> bool {
    match extension(path) {
        Some(ext) => exists|i: int|
            0 <= i < 27 && (#[trigger] IMAGE_EXTS[i])@ == ascii_lowercase(ext),
        None => false,
    }
}

fn ascii_lower_of(c: char) -> (r: char)
    ensures
        r == ascii_lower(c),
{
    if 'A' <= c && c <= 'Z' {
        ((c as u8) + 32) as char
    } else {
        c
    }
}

fn ascii_lowercase_of(s: &str) -> (r: String)
    ensures
        r@ == ascii_lowercase(s@),
{
    let chars = to_chars(s);
    let mut r = String::new();
    let mut i: usize = 0;
    while i < chars.len()
        invariant
            i <= chars@.len(),
            chars@ == s@,
            r@ == ascii_lowercase(s@.take(i as int)),
        decreases chars@.len() - i,
    {
        r.push(ascii_lower_of(chars[i]));
        assert(s@.take(i + 1) == s@.take(i as int).push(chars@[i as int]));
        i += 1;
    }
    assert(s@.take(i as int) == s@);
    r
}

/// Tells whether the extension of `path`, in any case, is that of a picture.
pub fn is_image(path: &str) -> (r: bool)
    ensures
        r == named_as_image(path@),
{
    match extension_of(path) {
        None => false,
        Some(ext) => {
            let lower = ascii_lowercase_of(ext.as_str());
            let mut i: usize = 0;
            while i < 27
                invariant
                    i <= 27,
                    extension(path@) == Some(ext@),
                    lower@ == ascii_lowercase(ext@),
                    forall|k: int| 0 <= k < i ==> (#[trigger] IMAGE_EXTS[k])@ != lower@,
                decreases 27 - i,
            {
                if same_str(IMAGE_EXTS[i], lower.as_str()) {
                    assert(IMAGE_EXTS[i as int]@ == lower@);
                    return true;
                }
                i += 1;
            }
            false
        },
    }
}

// ------------------------------------------------------------ binary content

/// How many bytes at the start of `s` are valid UTF-8, up to `j`.
pub open spec fn valid_up_to(s: Seq<u8>, j: int) -> int
    decreases j,
{
    if j <= 0 || valid_utf8(s.take(j)) {
        j
    } else {
        valid_up_to(s, j - 1)
    }
}

/// `std::str::from_utf8` tells whether bytes are UTF-8; where they are not, `valid_up_to` of its
/// error is the largest number of bytes at the start that are.
#[verifier::external_body]
fn valid_up_to_of(bytes: &[u8]) -> (n: usize)
    ensures
        n <= bytes@.len(),
        n == valid_up_to(bytes@, bytes@.len() as int),
{
    match std::str::from_utf8(bytes) {
        Ok(_) => bytes.len(),
        Err(e) => e.valid_up_to(),
    }
}

/// How long the UTF-8 sequence is that starts with `first`; zero where none does.
pub open spec fn sequence_len(first: u8) -> int {
    if 0xc2 <= first <= 0xdf {
        2
    } else if 0xe0 <= first <= 0xef {
        3
    } else if 0xf0 <= first <= 0xf4 {
        4
    } else {
        0
    }
}

/// Gives the length of the UTF-8 sequence that starts with `first`; zero where none does.
pub fn utf8_seq_len(first: u8) -> (n: usize)
    ensures
        n == sequence_len(first),
{
    if 0xc2 <= first && first <= 0xdf {
        2
    } else if 0xe0 <= first && first <= 0xef {
        3
    } else if 0xf0 <= first && first <= 0xf4 {
        4
    } else {
        0
    }
}

/// How many bytes at `i` are text: one for a printable ASCII character, a tab or a line break,
/// the length of a valid UTF-8 sequence, and zero for anything else.
pub open spec fn text_len(s: Seq<u8>, i: int) -> int {
    let b = s[i];
    let n = sequence_len(b);
    if 0x20 <= b <= 0x7e || b == 9 || b == 10 || b == 13 {
        1
    } else if n > 1 && i + n <= s.len() && valid_utf8(s.subrange(i, i + n)) {
        n
    } else {
        0
    }
}

/// How many bytes at or behind `i` are not text.
pub open spec fn bad_bytes(s: Seq<u8>, i: int) -> int
    decreases s.len() - i,
{
    if i >= s.len() {
        0
    } else if text_len(s, i) > 0 {
        bad_bytes(s, i + text_len(s, i))
    } else {
        1 + bad_bytes(s, i + 1)
    }
}

/// Whether content is binary: it holds a zero byte, or more than a fifth of its bytes are not
/// text.
pub open spec fn binary(s: Seq<u8>) -> bool {
    s.len() > 0 && (s.contains(0u8) || 5 * bad_bytes(s, 0) > s.len())
}

proof fn valid_up_to_whole(s: Seq<u8>)
    ensures
        valid_up_to(s, s.len() as int) == s.len() <==> valid_utf8(s),
{
    assert(s.take(s.len() as int) == s);
    if s.len() > 0 {
        valid_up_to_bounds(s, s.len() - 1);
    } else {
        assert(valid_utf8(s));
    }
}

proof fn valid_up_to_bounds(s: Seq<u8>, j: int)
    requires
        0 <= j <= s.len(),
    ensures
        0 <= valid_up_to(s, j) <= j,
    decreases j,
{
    if j > 0 {
        valid_up_to_bounds(s, j - 1);
    }
}

/// Tells whether content is binary.
pub fn is_binary_content(head: &[u8]) -> (r: bool)
    ensures
        r == binary(head@),
{
    let n: usize = head.len();
    if n == 0 {
        return false;
    }
    let mut k: usize = 0;
    while k < n
        invariant
            k <= n == head@.len(),
            n > 0,
            forall|j: int| 0 <= j < k ==> head@[j] != 0,
        decreases n - k,
    {
        if head[k] == 0 {
            assert(head@[k as int] == 0u8);
            return true;
        }
        k += 1;
    }
    let mut bad: usize = 0;
    let mut i: usize = 0;
    while i < n
        invariant
            i <= n == head@.len(),
            bad <= i,
            bad + bad_bytes(head@, i as int) == bad_bytes(head@, 0),
        decreases n - i,
    {
        let b: u8 = head[i];
        if (0x20 <= b && b <= 0x7e) || b == 9 || b == 10 || b == 13 {
            i += 1;
        } else {
            let len: usize = utf8_seq_len(b);
            let mut step: usize = 0;
            if len > 1 && len <= n - i {
                let part = vstd::slice::slice_subrange(head, i, i + len);
                proof {
                    valid_up_to_whole(part@);
                }
                if valid_up_to_of(part) == len {
                    step = len;
                }
            }
            assert(step == text_len(head@, i as int));
            if step > 0 {
                i += step;
            } else {
                bad += 1;
                i += 1;
            }
        }
    }
    assert(!head@.contains(0u8));
    5 * (bad as u128) > n as u128
}

// ------------------------------------------------------------ the steps of a preview

/// What is to be done next for a preview.
#[derive(Debug)]
pub enum PreviewStep {
    /// Make a picture for an area of so many cells, and go on with `on_image`.
    PrepareImage { cols: u16, rows: u16 },
    /// Read the start of the file, one byte more than `PREVIEW_MAX_BYTES` at most, and go on with
    /// `on_head`.
    ReadHead,
    /// Run `bat` on `input`, and go on with `on_bat`; `cut` tells that the file is longer.
    RunBat { input: Vec<u8>, cut: bool },
    /// Read the file, and go on with `on_file`; `mark` tells to say that the preview was cut.
    ReadFile { mark: bool },
    Done(Preview),
}

/// What is seen of a step.
#[verifier::ext_equal]
pub enum StepView {
    PrepareImage { cols: u16, rows: u16 },
    ReadHead,
    RunBat { input: Seq<u8>, cut: bool },
    ReadFile { mark: bool },
    Done(PreviewView),
}

impl View for PreviewStep {
    type V = StepView;

    open spec fn view(&self) -> StepView {
        match *self {
            PreviewStep::PrepareImage { cols, rows } => StepView::PrepareImage { cols, rows },
            PreviewStep::ReadHead => StepView::ReadHead,
            PreviewStep::RunBat { input, cut } => StepView::RunBat { input: input@, cut },
            PreviewStep::ReadFile { mark } => StepView::ReadFile { mark },
            PreviewStep::Done(p) => StepView::Done(p@),
        }
    }
}

/// `n`, and at least one.
pub open spec fn positive(n: u16) -> u16 {
    if n == 0 {
        1
    } else {
        n
    }
}

/// The first step of a preview: a picture is prepared where the terminal shows pictures, other
/// files are read.
pub open spec fn first_step(path: Seq<char>, width: u16, height: u16, kitty: bool) -> StepView {
    if !named_as_image(path) {
        StepView::ReadHead
    } else if kitty {
        StepView::PrepareImage { cols: positive(width), rows: positive(height) }
    } else {
        StepView::Done(PreviewView::Text(notice("（图片文件，当前终端不支持图片预览）"@)))
    }
}

/// Starts the preview of a file in an area of `width` by `height` cells; `kitty` tells whether
/// the terminal shows pictures.
pub fn render(path: &str, width: u16, height: u16, kitty: bool) -> (step: PreviewStep)
    ensures
        step@ == first_step(path@, width, height, kitty),
{
    if !is_image(path) {
        return PreviewStep::ReadHead;
    }
    if kitty {
        let cols: u16 = if width == 0 {
            1
        } else {
            width
        };
        let rows: u16 = if height == 0 {
            1
        } else {
            height
        };
        return PreviewStep::PrepareImage { cols, rows };
    }
    PreviewStep::Done(Preview::Text(notice_of("（图片文件，当前终端不支持图片预览）")))
}

/// The preview of a picture that was prepared, or could not be.
pub fn on_image(transmit: Option<Vec<u8>>) -> (preview: Preview)
    ensures
        preview@ == match transmit {
            Some(bytes) => PreviewView::Image(bytes@),
            None => PreviewView::Text(notice("（图片文件，无法解码预览）"@)),
        },
{
    match transmit {
        Some(bytes) => Preview::Image { transmit: bytes },
        None => Preview::Text(notice_of("（图片文件，无法解码预览）")),
    }
}

/// The start of `s`, of at most `max` bytes.
pub open spec fn start_of(s: Seq<u8>, max: int) -> Seq<u8> {
    if s.len() <= max {
        s
    } else {
        s.take(max)
    }
}

/// The step behind reading the start of a file.
pub open spec fn head_step(read: Seq<u8>) -> StepView {
    let head = start_of(read, PREVIEW_MAX_BYTES as int);
    if binary(start_of(head, BINARY_SCAN_BYTES as int)) {
        StepView::Done(PreviewView::Text(cleaned_lines(notice("（二进制文件，不提供预览）"@))))
    } else if head.len() == 0 {
        StepView::ReadFile { mark: false }
    } else {
        StepView::RunBat {
            input: head.take(valid_up_to(head, head.len() as int)),
            cut: read.len() > PREVIEW_MAX_BYTES,
        }
    }
}

/// Decides on the start of a file, which is empty where it could not be read: binary content is
/// not shown, text goes to `bat`, cut where a character would be divided.
pub fn on_head(read: Vec<u8>) -> (step: PreviewStep)
    ensures
        step@ == head_step(read@),
{
    let cut: bool = read.len() > PREVIEW_MAX_BYTES;
    let mut head = read;
    head.truncate(PREVIEW_MAX_BYTES);
    assert(head@ == start_of(read@, PREVIEW_MAX_BYTES as int));
    let scanned: usize = if head.len() <= BINARY_SCAN_BYTES {
        head.len()
    } else {
        BINARY_SCAN_BYTES
    };
    let scan = vstd::slice::slice_subrange(head.as_slice(), 0, scanned);
    assert(scan@ == start_of(head@, BINARY_SCAN_BYTES as int));
    if is_binary_content(scan) {
        let hint = notice_of("（二进制文件，不提供预览）");
        return PreviewStep::Done(Preview::Text(sanitize_control_chars(&hint)));
    }
    if head.len() == 0 {
        return PreviewStep::ReadFile { mark: false };
    }
    let valid: usize = valid_up_to_of(head.as_slice());
    let ghost whole = head@;
    head.truncate(valid);
    assert(head@ == whole.take(valid as int));
    PreviewStep::RunBat { input: head, cut }
}

/// The command by which `bat` colours text that it gets on its input.
pub open spec fn bat_command(path: Seq<char>, width: u16, macchiato: bool) -> CommandView {
    let theme = if macchiato {
        seq!["--theme=Catppuccin Macchiato"@]
    } else {
        Seq::empty()
    };
    let columns = if width < 10 {
        10
    } else {
        width
    };
    CommandView {
        program: "bat"@,
        args: seq!["--paging=never"@, "--color=always"@, "--style=numbers"@] + theme + seq![
            "--wrap=character"@,
            "--terminal-width"@,
            decimal(columns as nat),
            "--line-range"@,
            seq![':'] + decimal(MAX_LINES as nat),
            "--file-name"@,
            path,
        ],
        dir: None,
    }
}

fn push_arg(args: &mut Vec<String>, arg: &str)
    ensures
        texts(final(args)@) == texts(old(args)@).push(arg@),
{
    args.push(arg.to_owned());
    assert(texts(args@) == texts(old(args)@).push(arg@));
}

/// Gives the command by which `bat` colours the text of `path`; `macchiato` tells whether it has
/// that theme.
pub fn bat_cmd(path: &str, width: u16, macchiato: bool) -> (cmd: CommandLine)
    ensures
        cmd@ == bat_command(path@, width, macchiato),
{
    let mut args: Vec<String> = Vec::new();
    assert(texts(args@) == Seq::<Seq<char>>::empty());
    push_arg(&mut args, "--paging=never");
    push_arg(&mut args, "--color=always");
    push_arg(&mut args, "--style=numbers");
    if macchiato {
        push_arg(&mut args, "--theme=Catppuccin Macchiato");
    }
    let columns: u64 = if width < 10 {
        10
    } else {
        width as u64
    };
    push_arg(&mut args, "--wrap=character");
    push_arg(&mut args, "--terminal-width");
    push_arg(&mut args, decimal_of(columns).as_str());
    push_arg(&mut args, "--line-range");
    let mut range = String::new();
    range.push(':');
    range.append(decimal_of(MAX_LINES).as_str());
    assert(range@ == seq![':'] + decimal(MAX_LINES as nat));
    push_arg(&mut args, range.as_str());
    push_arg(&mut args, "--file-name");
    push_arg(&mut args, path);
    let cmd = CommandLine { program: "bat".to_owned(), args, dir: None };
    assert(cmd@.args == bat_command(path@, width, macchiato).args);
    cmd
}

/// Tells from the list of themes that `bat` printed whether it has Catppuccin Macchiato; nothing
/// was printed where it could not be run.
pub fn has_macchiato(themes: &[u8]) -> (r: bool)
    ensures
        r == occurs(lossy(themes@), "Catppuccin Macchiato"@),
{
    let all = to_chars(lossy_of(themes).as_str());
    let wanted = to_chars("Catppuccin Macchiato");
    crate::text::find_chars(all.as_slice(), wanted.as_slice()).is_some()
}

/// What `into_text` of ansi-to-tui makes of bytes: lines of spans with their styles.
pub uninterp spec fn ansi_text(bytes: Seq<u8>) -> Option<Seq<Seq<SpanView>>>;

/// What is seen of optional lines.
pub open spec fn opt_lines(v: Option<Vec<PreviewLine>>) -> Option<Seq<Seq<SpanView>>> {
    match v {
        Some(ls) => Some(line_views(ls@)),
        None => None,
    }
}

/// `IntoText::into_text` of ansi-to-tui reads text with the escape sequences for colours and
/// modifiers as lines of styled spans, or fails; the result is a function of the bytes alone.
#[verifier::external_body]
fn ansi_text_of(bytes: &Vec<u8>) -> (r: Option<Vec<PreviewLine>>)
    ensures
        opt_lines(r) == ansi_text(bytes@),
{
    let text = bytes.into_text().ok()?;
    let span = |s: ratatui::text::Span<'static>| PreviewSpan {
        text: s.content.into_owned(),
        fg: s.style.fg.map(|c| c.to_string()),
        bg: s.style.bg.map(|c| c.to_string()),
        underline: s.style.underline_color.map(|c| c.to_string()),
        added: s.style.add_modifier.bits(),
        removed: s.style.sub_modifier.bits(),
    };
    let line = |l: ratatui::text::Line<'static>| PreviewLine { spans: l.spans.into_iter().map(span).collect() };
    Some(text.lines.into_iter().map(line).collect())
}

/// The bit of ratatui for italic text.
pub const ITALIC: u16 = 4;

/// The line that tells that a preview was cut.
pub open spec fn cut_line() -> Seq<SpanView> {
    seq![SpanView { added: ITALIC, ..plain_span("…… 文件过大，预览已截断 ……"@) }]
}

/// `v`, with the line behind it that tells that the preview was cut.
pub open spec fn marked(v: Seq<Seq<SpanView>>, mark: bool) -> Seq<Seq<SpanView>> {
    if mark {
        v.push(cut_line())
    } else {
        v
    }
}

fn add_mark(v: &mut Vec<PreviewLine>, mark: bool)
    ensures
        line_views(final(v)@) == marked(line_views(old(v)@), mark),
{
    if mark {
        let mut span = plain_span_of("…… 文件过大，预览已截断 ……");
        span.added = ITALIC;
        let mut spans: Vec<PreviewSpan> = Vec::new();
        spans.push(span);
        let line = PreviewLine { spans };
        assert(line@ == cut_line());
        v.push(line);
        assert(line_views(v@) == line_views(old(v)@).push(cut_line()));
    }
}

/// The step behind running `bat`, whose output was read as `text`.
pub open spec fn bat_step(
    output: Option<Seq<u8>>,
    text: Option<Seq<Seq<SpanView>>>,
    cut: bool,
) -> StepView {
    match output {
        Some(bytes) => if bytes.len() == 0 {
            StepView::ReadFile { mark: false }
        } else {
            match text {
                Some(v) => StepView::Done(PreviewView::Text(cleaned_lines(marked(v, cut)))),
                None => StepView::ReadFile { mark: cut },
            }
        },
        None => StepView::ReadFile { mark: false },
    }
}

/// The preview that the text of `bat` gives.
pub fn show_text(text: Vec<PreviewLine>, cut: bool) -> (preview: Preview)
    ensures
        preview@ == PreviewView::Text(cleaned_lines(marked(line_views(text@), cut))),
{
    let mut v = text;
    add_mark(&mut v, cut);
    Preview::Text(sanitize_control_chars(&v))
}

/// Decides on the output of `bat`, which is missing where it could not be run: it is shown, or
/// the file is read instead.
pub fn on_bat(output: Option<Vec<u8>>, cut: bool) -> (step: PreviewStep)
    ensures
        step@ == match output {
            Some(bytes) => bat_step(Some(bytes@), ansi_text(bytes@), cut),
            None => bat_step(None, None, cut),
        },
{
    match output {
        None => PreviewStep::ReadFile { mark: false },
        Some(bytes) => {
            if bytes.len() == 0 {
                return PreviewStep::ReadFile { mark: false };
            }
            match ansi_text_of(&bytes) {
                Some(text) => PreviewStep::Done(show_text(text, cut)),
                None => PreviewStep::ReadFile { mark: cut },
            }
        },
    }
}

/// The lines for the content `text` of a file.
pub open spec fn file_lines(text: Seq<char>, mark: bool) -> Seq<Seq<SpanView>> {
    cleaned_lines(marked(plain_lines(text), mark))
}

/// The lines for a file that could not be read.
pub open spec fn unreadable(reason: Seq<char>, mark: bool) -> Seq<Seq<SpanView>> {
    cleaned_lines(marked(notice("无法读取文件: "@ + reason), mark))
}

/// Shows the content of a file without colours.
pub fn show_plain(text: &str, mark: bool) -> (preview: Preview)
    ensures
        preview@ == PreviewView::Text(file_lines(text@, mark)),
{
    show_text(plain_lines_of(text), mark)
}

/// The preview of a file that was read without `bat`, or could not be read.
pub fn on_file(read: Result<Vec<u8>, String>, mark: bool) -> (preview: Preview)
    ensures
        preview@ == match read {
            Ok(bytes) => PreviewView::Text(
                file_lines(lossy(start_of(bytes@, FALLBACK_MAX_BYTES as int)), mark),
            ),
            Err(reason) => PreviewView::Text(unreadable(reason@, mark)),
        },
{
    match read {
        Ok(bytes) => {
            let shown: usize = if bytes.len() <= FALLBACK_MAX_BYTES {
                bytes.len()
            } else {
                FALLBACK_MAX_BYTES
            };
            let part = vstd::slice::slice_subrange(bytes.as_slice(), 0, shown);
            assert(part@ == start_of(bytes@, FALLBACK_MAX_BYTES as int));
            show_plain(lossy_of(part).as_str(), mark)
        },
        Err(reason) => {
            let mut text = "无法读取文件: ".to_owned();
            text.append(reason.as_str());
            show_text(notice_of(text.as_str()), mark)
        },
    }
}

/// Whether no span holds a control character other than a line break.
pub open spec fn free_of_control(v: Seq<Seq<SpanView>>) -> bool {
    forall|i: int, j: int, k: int|
        0 <= i < v.len() && 0 <= j < v[i].len() && 0 <= k < v[i][j].text.len() ==> (control(
            #[trigger] v[i][j].text[k],
        ) ==> v[i][j].text[k] == '\n')
}

/// No control character other than a line break reaches the screen from a preview that was read
/// or coloured.
pub proof fn cleaned_lines_free_of_control(v: Seq<Seq<SpanView>>)
    ensures
        free_of_control(cleaned_lines(v)),
{
    let r = cleaned_lines(v);
    assert forall|i: int, j: int, k: int|
        0 <= i < r.len() && 0 <= j < r[i].len() && 0 <= k < r[i][j].text.len() && control(
            #[trigger] r[i][j].text[k],
        ) implies r[i][j].text[k] == '\n' by {
        assert(r[i] == cleaned_line(v[i]));
        assert(r[i][j].text == cleaned(v[i][j].text));
        cleaned_has_no_control(v[i][j].text);
    }
}

/// Content with a zero byte is binary.
pub proof fn zero_byte_is_binary(s: Seq<u8>)
    requires
        s.contains(0u8),
    ensures
        binary(s),
{
}

/// Printable ASCII text with tabs and line breaks is not binary.
pub proof fn ascii_text_is_not_binary(s: Seq<u8>)
    requires
        forall|i: int|
            0 <= i < s.len() ==> (0x20 <= #[trigger] s[i] <= 0x7e || s[i] == 9 || s[i] == 10
                || s[i] == 13),
    ensures
        !binary(s),
{
    no_bad_bytes(s, 0);
}

proof fn no_bad_bytes(s: Seq<u8>, i: int)
    requires
        0 <= i <= s.len(),
        forall|i: int|
            0 <= i < s.len() ==> (0x20 <= #[trigger] s[i] <= 0x7e || s[i] == 9 || s[i] == 10
                || s[i] == 13),
    ensures
        bad_bytes(s, i) == 0,
    decreases s.len() - i,
{
    if i < s.len() {
        assert(text_len(s, i) == 1);
        no_bad_bytes(s, i + 1);
    }
}

proof fn first_scalar_is_text(s: Seq<u8>, i: int)
    requires
        0 <= i < s.len(),
        valid_utf8(s.skip(i)),
        s[i] < 0x80 ==> (0x20 <= s[i] <= 0x7e || s[i] == 9 || s[i] == 10 || s[i] == 13),
    ensures
        text_len(s, i) > 0,
        i + text_len(s, i) <= s.len(),
        valid_utf8(s.skip(i + text_len(s, i))),
{
    let rest = s.skip(i);
    let b = rest[0];
    let n = length_of_first_scalar(rest);
    assert(b == s[i]);
    assert(valid_first_scalar(rest));
    let first = s.subrange(i, i + n);
    assert(pop_first_scalar(rest) == s.skip(i + n));
    assert(valid_utf8(first)) by {
        reveal_with_fuel(valid_utf8, 2);
        assert(first[0] == rest[0]);
        assert(n >= 2 ==> first[1] == rest[1]);
        assert(n >= 3 ==> first[2] == rest[2]);
        assert(n >= 4 ==> first[3] == rest[3]);
        assert(pop_first_scalar(first).len() == 0);
    }
    if 0xc0 <= b <= 0xdf {
        let c = rest[1];
        assert(b >= 0xc2u8) by (bit_vector)
            requires
                0xc0u8 <= b <= 0xdfu8,
                0x80u32 <= (((b & 0x1f) as u32) << 6) | ((c & 0x3f) as u32),
        ;
    } else if b >= 0xf0 {
        let c = rest[1];
        let d = rest[2];
        let e = rest[3];
        assert(b <= 0xf4u8) by (bit_vector)
            requires
                0xf0u8 <= b <= 0xf7u8,
                (((b & 0x07) as u32) << 18) | (((c & 0x3f) as u32) << 12) | (((d & 0x3f) as u32)
                    << 6) | ((e & 0x3f) as u32) <= 0x10ffffu32,
        ;
    }
}

proof fn valid_text_has_no_bad_bytes(s: Seq<u8>, i: int)
    requires
        0 <= i <= s.len(),
        valid_utf8(s.skip(i)),
        forall|k: int|
            0 <= k < s.len() && #[trigger] s[k] < 0x80 ==> (0x20 <= s[k] <= 0x7e || s[k] == 9
                || s[k] == 10 || s[k] == 13),
    ensures
        bad_bytes(s, i) == 0,
    decreases s.len() - i,
{
    if i < s.len() {
        assert(s[i] < 0x80 ==> (0x20 <= s[i] <= 0x7e || s[i] == 9 || s[i] == 10 || s[i] == 13));
        first_scalar_is_text(s, i);
        valid_text_has_no_bad_bytes(s, i + text_len(s, i));
    }
}

/// UTF-8 text whose only ASCII control characters are tabs and line breaks is not binary, in
/// whatever script it is written.
pub proof fn utf8_text_is_not_binary(s: Seq<u8>)
    requires
        valid_utf8(s),
        forall|k: int|
            0 <= k < s.len() && #[trigger] s[k] < 0x80 ==> (0x20 <= s[k] <= 0x7e || s[k] == 9
                || s[k] == 10 || s[k] == 13),
    ensures
        !binary(s),
{
    assert(s.skip(0) == s);
    valid_text_has_no_bad_bytes(s, 0);
    if s.contains(0u8) {
        let k = choose|k: int| 0 <= k < s.len() && s[k] == 0u8;
        assert(s[k] < 0x80);
    }
}

/// What is handed to `bat` is valid UTF-8: no character is divided.
pub proof fn bat_gets_whole_characters(head: Seq<u8>)
    ensures
        valid_utf8(head.take(valid_up_to(head, head.len() as int))),
{
    valid_up_to_valid(head, head.len() as int);
}

proof fn valid_up_to_valid(s: Seq<u8>, j: int)
    requires
        0 <= j <= s.len(),
    ensures
        valid_utf8(s.take(valid_up_to(s, j))),
    decreases j,
{
    if j == 0 {
        assert(s.take(0).len() == 0);
    } else if !valid_utf8(s.take(j)) {
        valid_up_to_valid(s, j - 1);
    }
}

} // verus!
