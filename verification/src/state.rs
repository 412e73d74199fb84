//! The state of the program, what is seen of it, and how it changes.
//!
//! Nothing here waits or touches the outside: what is to be done there is put into a list of
//! effects, and what came of it is handed back as a message or by a call. Searches and previews
//! carry a generation; what comes back from an older one is not taken.

use crate::edit::{
    at_end, at_start, backspaced, deleted, emptied, inserted, moved_left, moved_right,
    part_removed, Field,
};
use crate::escapes::{decoded, encoded, pasted_line, pasted_lines};
use crate::keys::{KeyCode, KeyEvent, KeyEventKind};
use crate::layout::Rect;
use crate::paths::same_path;
use crate::preview::{opt_text, Preview, PreviewView};
use crate::search::{
    best, exclude_globs, ignored_rels, prefixed, views, ItemView, SearchMode, SearchResultItem,
    MAX_RESULTS,
};
use crate::text::{ascii_digit, join, split, strip_prefix, texts, trim};
use crate::wrap::{at_least_one, cursor_moved};
use std::sync::Arc;
use vstd::prelude::*;

verus! {

/// How long a list of files stays valid, in milliseconds.
pub const FILE_LIST_TTL: u64 = 60000;

/// How many previews are kept.
pub const PREVIEW_CACHE_MAX: usize = 100;

/// How long a message is shown, in milliseconds.
pub const STATUS_TTL: u64 = 5000;

// ------------------------------------------------------------ types

/// What the main loop has to do for a key.
#[derive(Debug)]
pub enum Action {
    /// Open the file in an editor.
    Open(String),
}

/// The kind of popup that is open.
#[derive(Clone, Copy, PartialEq, Eq, Debug, Structural)]
pub enum PopupKind {
    /// The search path.
    Path,
    /// The directories that are ignored besides those that always are.
    IgnoreDirs,
    /// The size limit of files.
    MaxSize,
}

/// Which result is selected.
#[derive(Clone, Copy, PartialEq, Eq, Debug, Structural)]
pub struct ListState {
    pub selected: Option<usize>,
}

impl ListState {
    /// Selects a result, or none.
    pub fn select(&mut self, index: Option<usize>)
        ensures
            final(self).selected == index,
    {
        self.selected = index;
    }

    /// Gives the selected result.
    pub fn selected(&self) -> (r: Option<usize>)
        ensures
            r == self.selected,
    {
        self.selected
    }
}

/// The size limit of files: how it is written in megabytes, and how many bytes that is.
#[derive(Debug)]
pub struct SizeLimit {
    pub text: String,
    pub bytes: u64,
}

/// A list of the files below a directory, and when it was made.
#[derive(Debug)]
pub struct FileList {
    pub root: String,
    pub made: u64,
    pub files: Arc<Vec<String>>,
}

/// A preview that was made for a width.
#[derive(Debug)]
pub struct CachedPreview {
    pub path: String,
    pub width: u16,
    pub preview: Arc<Preview>,
}

/// A directory that was asked to be ignored: as it was written, and with `~` expanded.
#[derive(Debug)]
pub struct DirRequest {
    pub part: String,
    pub expanded: String,
}

/// What is to be done outside.
#[derive(Debug)]
pub enum Effect {
    /// Stop the running search.
    CancelJob,
    /// Search file names.
    SearchFiles {
        gen: u64,
        root: String,
        query: String,
        cached: Option<Arc<Vec<String>>>,
        excludes: Vec<String>,
        max_bytes: u64,
    },
    /// Search file contents.
    SearchContent { gen: u64, root: String, query: String, globs: Vec<String>, max_bytes: u64 },
    /// Make a preview.
    RenderPreview { gen: u64, path: String, width: u16, height: u16 },
    /// Copy a path to the clipboard, and report with `on_copied`.
    CopyPath { path: String },
    /// See what `expanded` is, and report with `on_path_checked`.
    CheckPath { raw: String, expanded: String },
    /// See what the directories are, and report with `on_dirs_checked`.
    CheckDirs { dirs: Vec<DirRequest> },
    /// Read a number of megabytes, and report with `on_size_read`.
    ReadSize { raw: String },
    /// Write the settings, and report a failure with `on_save_failed`.
    SaveConfig { path: String },
}

/// What came of work in the background.
#[derive(Debug)]
pub enum Msg {
    /// Some results of a search of contents.
    SearchBatch { gen: u64, items: Vec<SearchResultItem> },
    /// A search ended; the results of a search of contents came before.
    SearchDone {
        gen: u64,
        content: bool,
        items: Vec<SearchResultItem>,
        new_file_list: Option<(String, Arc<Vec<String>>)>,
    },
    /// A preview is ready.
    PreviewDone { gen: u64, path: String, width: u16, preview: Preview },
}

/// What a path that was asked for turned out to be.
#[derive(Debug)]
pub enum PathCheck {
    /// A directory that can be read, by its canonical path.
    Dir(String),
    NotDir,
    Unreadable(String),
    NotFound,
    Failed(String),
}

/// What a directory that was asked for turned out to be.
#[derive(Debug)]
pub enum DirCheck {
    /// A directory, by its canonical path.
    Dir(String),
    NotDir,
    Missing,
}

/// The state of the program.
#[derive(Debug)]
pub struct App {
    pub mode: SearchMode,
    pub search_path: String,
    /// The open popup; all kinds share one field.
    pub popup: Option<PopupKind>,
    pub popup_input: String,
    /// The cursor of the popup, in characters.
    pub popup_cursor: usize,
    /// Whether the whole text of the popup is selected, so that typing replaces it.
    pub popup_select_all: bool,
    pub popup_error: Option<String>,
    pub input: String,
    /// The cursor of the input, in characters.
    pub cursor: usize,
    /// Whether the input shows several rows.
    pub input_expanded: bool,
    /// The first row of the input that is shown.
    pub input_scroll: usize,
    /// The width of the input inside its border.
    pub input_inner_width: usize,
    pub results: Vec<SearchResultItem>,
    pub list_state: ListState,
    /// The first result that is shown.
    pub list_offset: usize,
    pub preview: Option<Arc<Preview>>,
    pub preview_path: Option<String>,
    pub preview_scroll: u16,
    pub preview_max_scroll: u16,
    pub preview_loading: bool,
    /// The size of the preview inside its border.
    pub preview_width: u16,
    pub preview_height: u16,
    /// Where a picture is to be shown.
    pub image_area: Option<Rect>,
    pub size_changed: bool,
    /// A message, and when it came.
    pub status: Option<(String, u64)>,
    pub should_quit: bool,
    /// Whether a search is running.
    pub searching: bool,
    /// The input as it was when the results were asked for.
    pub last_query: String,
    pub ignore_dirs: Vec<String>,
    pub max_size: SizeLimit,
    pub home: Option<String>,
    pub config_path: Option<String>,
    pub search_gen: u64,
    pub preview_gen: u64,
    /// Whether there is a search that can be stopped.
    pub job: bool,
    pub file_lists: Vec<FileList>,
    pub preview_cache: Vec<CachedPreview>,
    /// The time in milliseconds.
    pub now: u64,
    pub inbox: Vec<Msg>,
    pub effects: Vec<Effect>,
}

// ------------------------------------------------------------ what is seen of them

/// What is seen of a list of files.
#[verifier::ext_equal]
pub struct FileListView {
    pub root: Seq<char>,
    pub made: u64,
    pub files: Seq<Seq<char>>,
}

impl View for FileList {
    type V = FileListView;

    open spec fn view(&self) -> FileListView {
        FileListView { root: self.root@, made: self.made, files: texts(self.files@) }
    }
}

/// What is seen of a kept preview.
#[verifier::ext_equal]
pub struct CachedView {
    pub path: Seq<char>,
    pub width: u16,
    pub preview: PreviewView,
}

impl View for CachedPreview {
    type V = CachedView;

    open spec fn view(&self) -> CachedView {
        CachedView { path: self.path@, width: self.width, preview: self.preview@ }
    }
}

/// What is seen of an effect.
#[verifier::ext_equal]
pub enum EffectView {
    CancelJob,
    SearchFiles {
        gen: u64,
        root: Seq<char>,
        query: Seq<char>,
        cached: Option<Seq<Seq<char>>>,
        excludes: Seq<Seq<char>>,
        max_bytes: u64,
    },
    SearchContent {
        gen: u64,
        root: Seq<char>,
        query: Seq<char>,
        globs: Seq<Seq<char>>,
        max_bytes: u64,
    },
    RenderPreview { gen: u64, path: Seq<char>, width: u16, height: u16 },
    CopyPath { path: Seq<char> },
    CheckPath { raw: Seq<char>, expanded: Seq<char> },
    CheckDirs { dirs: Seq<(Seq<char>, Seq<char>)> },
    ReadSize { raw: Seq<char> },
    SaveConfig { path: Seq<char> },
}

/// What is seen of requested directories.
pub open spec fn request_views(dirs: Seq<DirRequest>) -> Seq<(Seq<char>, Seq<char>)> {
    dirs.map_values(|d: DirRequest| (d.part@, d.expanded@))
}

/// What is seen of an optional list of files.
pub open spec fn opt_files(files: Option<Arc<Vec<String>>>) -> Option<Seq<Seq<char>>> {
    match files {
        Some(f) => Some(texts(f@)),
        None => None,
    }
}

impl View for Effect {
    type V = EffectView;

    open spec fn view(&self) -> EffectView {
        match *self {
            Effect::CancelJob => EffectView::CancelJob,
            Effect::SearchFiles {
                gen,
                root,
                query,
                cached,
                excludes,
                max_bytes,
            } => EffectView::SearchFiles {
                gen,
                root: root@,
                query: query@,
                cached: opt_files(cached),
                excludes: texts(excludes@),
                max_bytes,
            },
            Effect::SearchContent {
                gen,
                root,
                query,
                globs,
                max_bytes,
            } => EffectView::SearchContent {
                gen,
                root: root@,
                query: query@,
                globs: texts(globs@),
                max_bytes,
            },
            Effect::RenderPreview { gen, path, width, height } => EffectView::RenderPreview {
                gen,
                path: path@,
                width,
                height,
            },
            Effect::CopyPath { path } => EffectView::CopyPath { path: path@ },
            Effect::CheckPath { raw, expanded } => EffectView::CheckPath {
                raw: raw@,
                expanded: expanded@,
            },
            Effect::CheckDirs { dirs } => EffectView::CheckDirs { dirs: request_views(dirs@) },
            Effect::ReadSize { raw } => EffectView::ReadSize { raw: raw@ },
            Effect::SaveConfig { path } => EffectView::SaveConfig { path: path@ },
        }
    }
}

/// What is seen of a message.
#[verifier::ext_equal]
pub enum MsgView {
    SearchBatch { gen: u64, items: Seq<ItemView> },
    SearchDone {
        gen: u64,
        content: bool,
        items: Seq<ItemView>,
        new_file_list: Option<(Seq<char>, Seq<Seq<char>>)>,
    },
    PreviewDone { gen: u64, path: Seq<char>, width: u16, preview: PreviewView },
}

/// What is seen of a new list of files.
pub open spec fn opt_list(l: Option<(String, Arc<Vec<String>>)>) -> Option<
    (Seq<char>, Seq<Seq<char>>),
> {
    match l {
        Some(p) => Some((p.0@, texts(p.1@))),
        None => None,
    }
}

impl View for Msg {
    type V = MsgView;

    open spec fn view(&self) -> MsgView {
        match *self {
            Msg::SearchBatch { gen, items } => MsgView::SearchBatch { gen, items: views(items@) },
            Msg::SearchDone { gen, content, items, new_file_list } => MsgView::SearchDone {
                gen,
                content,
                items: views(items@),
                new_file_list: opt_list(new_file_list),
            },
            Msg::PreviewDone { gen, path, width, preview } => MsgView::PreviewDone {
                gen,
                path: path@,
                width,
                preview: preview@,
            },
        }
    }
}

/// What is seen of effects.
pub open spec fn effect_views(v: Seq<Effect>) -> Seq<EffectView> {
    v.map_values(|e: Effect| e@)
}

/// What is seen of messages.
pub open spec fn msg_views(v: Seq<Msg>) -> Seq<MsgView> {
    v.map_values(|m: Msg| m@)
}

/// What is seen of lists of files.
pub open spec fn file_list_views(v: Seq<FileList>) -> Seq<FileListView> {
    v.map_values(|l: FileList| l@)
}

/// What is seen of kept previews.
pub open spec fn cached_views(v: Seq<CachedPreview>) -> Seq<CachedView> {
    v.map_values(|c: CachedPreview| c@)
}

/// What is seen of the state of the program.
#[verifier::ext_equal]
pub struct AppView {
    pub mode: SearchMode,
    pub search_path: Seq<char>,
    pub popup: Option<PopupKind>,
    pub popup_input: Seq<char>,
    pub popup_cursor: int,
    pub popup_select_all: bool,
    pub popup_error: Option<Seq<char>>,
    pub input: Seq<char>,
    pub cursor: int,
    pub input_expanded: bool,
    pub input_scroll: int,
    pub input_inner_width: int,
    pub results: Seq<ItemView>,
    pub selected: Option<usize>,
    pub list_offset: int,
    pub preview: Option<PreviewView>,
    pub preview_path: Option<Seq<char>>,
    pub preview_scroll: u16,
    pub preview_max_scroll: u16,
    pub preview_loading: bool,
    pub preview_width: u16,
    pub preview_height: u16,
    pub image_area: Option<Rect>,
    pub size_changed: bool,
    pub status: Option<(Seq<char>, u64)>,
    pub should_quit: bool,
    pub searching: bool,
    pub last_query: Seq<char>,
    pub ignore_dirs: Seq<Seq<char>>,
    pub size_text: Seq<char>,
    pub size_bytes: u64,
    pub home: Option<Seq<char>>,
    pub config_path: Option<Seq<char>>,
    pub search_gen: u64,
    pub preview_gen: u64,
    pub job: bool,
    pub file_lists: Seq<FileListView>,
    pub preview_cache: Seq<CachedView>,
    pub now: u64,
    pub inbox: Seq<MsgView>,
    pub effects: Seq<EffectView>,
}

/// What is seen of an optional preview.
pub open spec fn opt_preview(p: Option<Arc<Preview>>) -> Option<PreviewView> {
    match p {
        Some(q) => Some(q@),
        None => None,
    }
}

/// What is seen of a message on the screen.
pub open spec fn opt_status(s: Option<(String, u64)>) -> Option<(Seq<char>, u64)> {
    match s {
        Some(p) => Some((p.0@, p.1)),
        None => None,
    }
}

impl View for App {
    type V = AppView;

    open spec fn view(&self) -> AppView {
        AppView {
            mode: self.mode,
            search_path: self.search_path@,
            popup: self.popup,
            popup_input: self.popup_input@,
            popup_cursor: self.popup_cursor as int,
            popup_select_all: self.popup_select_all,
            popup_error: opt_text(self.popup_error),
            input: self.input@,
            cursor: self.cursor as int,
            input_expanded: self.input_expanded,
            input_scroll: self.input_scroll as int,
            input_inner_width: self.input_inner_width as int,
            results: views(self.results@),
            selected: self.list_state.selected,
            list_offset: self.list_offset as int,
            preview: opt_preview(self.preview),
            preview_path: opt_text(self.preview_path),
            preview_scroll: self.preview_scroll,
            preview_max_scroll: self.preview_max_scroll,
            preview_loading: self.preview_loading,
            preview_width: self.preview_width,
            preview_height: self.preview_height,
            image_area: self.image_area,
            size_changed: self.size_changed,
            status: opt_status(self.status),
            should_quit: self.should_quit,
            searching: self.searching,
            last_query: self.last_query@,
            ignore_dirs: texts(self.ignore_dirs@),
            size_text: self.max_size.text@,
            size_bytes: self.max_size.bytes,
            home: opt_text(self.home),
            config_path: opt_text(self.config_path),
            search_gen: self.search_gen,
            preview_gen: self.preview_gen,
            job: self.job,
            file_lists: file_list_views(self.file_lists@),
            preview_cache: cached_views(self.preview_cache@),
            now: self.now,
            inbox: msg_views(self.inbox@),
            effects: effect_views(self.effects@),
        }
    }
}

// ------------------------------------------------------------ how it changes

/// The generation behind `gen`.
pub open spec fn next_gen(gen: u64) -> u64 {
    if gen == u64::MAX {
        0
    } else {
        (gen + 1) as u64
    }
}

/// Milliseconds from `then` to `now`; none where the clock went back.
pub open spec fn elapsed(then: u64, now: u64) -> u64 {
    if now < then {
        0
    } else {
        (now - then) as u64
    }
}

/// `path` as it is shown: the home directory is written `~`.
pub open spec fn path_shown(path: Seq<char>, home: Option<Seq<char>>) -> Seq<char> {
    match home {
        Some(h) => if path == h {
            "~"@
        } else {
            match strip_prefix(path, h + "/"@) {
                Some(rest) => "~/"@ + rest,
                None => path,
            }
        },
        None => path,
    }
}

/// `s` with a leading `~` replaced by the home directory, where that is known.
pub open spec fn tilde_expanded(s: Seq<char>, home: Option<Seq<char>>) -> Seq<char> {
    match home {
        Some(h) => if s == "~"@ {
            h
        } else {
            match strip_prefix(s, "~/"@) {
                Some(rest) => h + "/"@ + rest,
                None => s,
            }
        },
        None => s,
    }
}

/// Whether `s` is more than one slash and nothing else.
pub open spec fn only_slashes(s: Seq<char>) -> bool {
    s.len() > 1 && forall|i: int| 0 <= i < s.len() ==> s[i] == '/'
}

/// How many points `s` holds.
pub open spec fn points(s: Seq<char>) -> nat
    decreases s.len(),
{
    if s.len() == 0 {
        0
    } else {
        points(s.drop_last()) + if s.last() == '.' {
            1nat
        } else {
            0
        }
    }
}

/// Whether `c` may stand in a size.
pub open spec fn size_char(c: char) -> bool {
    ascii_digit(c) || c == '.'
}

/// Whether `s` is written as a size: digits, with a point among them or not.
pub open spec fn written_as_size(s: Seq<char>) -> bool {
    &&& s.len() > 0
    &&& s != "."@
    &&& points(s) <= 1
    &&& forall|i: int| 0 <= i < s.len() ==> size_char(#[trigger] s[i])
}

/// The message for a size that is none.
pub open spec fn bad_size(raw: Seq<char>) -> Seq<char> {
    "无效大小: "@ + raw + "（示例：10 或 0.2）"@
}

/// The directories written in `text`, one to a line, without empty lines and with `~` expanded.
pub open spec fn requested_dirs(lines: Seq<Seq<char>>, home: Option<Seq<char>>) -> Seq<
    (Seq<char>, Seq<char>),
>
    decreases lines.len(),
{
    if lines.len() == 0 {
        Seq::empty()
    } else {
        let before = requested_dirs(lines.drop_last(), home);
        let part = trim(lines.last());
        if part.len() == 0 {
            before
        } else {
            before.push((part, tilde_expanded(part, home)))
        }
    }
}

/// What is seen of a directory that was looked at.
#[verifier::ext_equal]
pub enum DirCheckView {
    Dir(Seq<char>),
    NotDir,
    Missing,
}

impl View for DirCheck {
    type V = DirCheckView;

    open spec fn view(&self) -> DirCheckView {
        match *self {
            DirCheck::Dir(d) => DirCheckView::Dir(d@),
            DirCheck::NotDir => DirCheckView::NotDir,
            DirCheck::Missing => DirCheckView::Missing,
        }
    }
}

/// What is seen of directories that were looked at.
pub open spec fn check_views(v: Seq<(String, DirCheck)>) -> Seq<(Seq<char>, DirCheckView)> {
    v.map_values(|p: (String, DirCheck)| (p.0@, p.1@))
}

/// The message for the first of `checks` that is no directory.
pub open spec fn dirs_error(checks: Seq<(Seq<char>, DirCheckView)>) -> Option<Seq<char>>
    decreases checks.len(),
{
    if checks.len() == 0 {
        None
    } else {
        match checks[0].1 {
            DirCheckView::Dir(_) => dirs_error(checks.drop_first()),
            DirCheckView::NotDir => Some("不是目录: "@ + checks[0].0),
            DirCheckView::Missing => Some("路径不存在: "@ + checks[0].0),
        }
    }
}

/// The directories among `checks`, each once, in the order in which they come first.
pub open spec fn dirs_found(checks: Seq<(Seq<char>, DirCheckView)>) -> Seq<Seq<char>>
    decreases checks.len(),
{
    if checks.len() == 0 {
        Seq::empty()
    } else {
        let before = dirs_found(checks.drop_last());
        match checks.last().1 {
            DirCheckView::Dir(d) => if before.contains(d) {
                before
            } else {
                before.push(d)
            },
            _ => before,
        }
    }
}

/// The list of files for `root`, where there is one that is still valid.
pub open spec fn valid_list(lists: Seq<FileListView>, root: Seq<char>, now: u64) -> Option<
    Seq<Seq<char>>,
>
    decreases lists.len(),
{
    if lists.len() == 0 {
        None
    } else if same_path(lists[0].root, root) {
        if elapsed(lists[0].made, now) < FILE_LIST_TTL {
            Some(lists[0].files)
        } else {
            None
        }
    } else {
        valid_list(lists.drop_first(), root, now)
    }
}

/// The lists with a new one, in the place of an older one for the same directory.
pub open spec fn with_list(lists: Seq<FileListView>, new: FileListView) -> Seq<FileListView> {
    lists.filter(|l: FileListView| !same_path(l.root, new.root)).push(new)
}

/// The kept preview of `path` for a width.
pub open spec fn kept_preview(cache: Seq<CachedView>, path: Seq<char>, width: u16) -> Option<
    PreviewView,
>
    decreases cache.len(),
{
    if cache.len() == 0 {
        None
    } else if cache[0].width == width && same_path(cache[0].path, path) {
        Some(cache[0].preview)
    } else {
        kept_preview(cache.drop_first(), path, width)
    }
}

/// The kept previews with a new one, in the place of an older one for the same path and width; a
/// full cache is emptied first.
pub open spec fn with_preview(cache: Seq<CachedView>, new: CachedView) -> Seq<CachedView> {
    let room = if cache.len() >= PREVIEW_CACHE_MAX {
        Seq::empty()
    } else {
        cache
    };
    room.filter(|c: CachedView| !(c.width == new.width && same_path(c.path, new.path))).push(new)
}

/// Whether two optional paths are the same.
pub open spec fn same_opt_path(a: Option<Seq<char>>, b: Option<Seq<char>>) -> bool {
    match a {
        Some(p) => b matches Some(q) && same_path(p, q),
        None => b is None,
    }
}

/// `n` kept between `low` and `high`.
pub open spec fn clamped(n: int, low: int, high: int) -> int {
    if n < low {
        low
    } else if n > high {
        high
    } else {
        n
    }
}

impl AppView {
    /// The selected result.
    pub open spec fn selected_item(self) -> Option<ItemView> {
        match self.selected {
            Some(i) => if i < self.results.len() {
                Some(self.results[i as int])
            } else {
                None
            },
            None => None,
        }
    }

    /// The path of the selected result.
    pub open spec fn selected_path(self) -> Option<Seq<char>> {
        match self.selected_item() {
            Some(item) => Some(item.path),
            None => None,
        }
    }

    /// Whether the input was changed since the last search.
    pub open spec fn dirty(self) -> bool {
        trim(self.input) != trim(self.last_query)
    }

    /// A message on the screen from now on.
    pub open spec fn with_status(self, msg: Seq<char>) -> AppView {
        AppView { status: Some((msg, self.now)), ..self }
    }

    /// One more thing to be done outside.
    pub open spec fn with_effect(self, e: EffectView) -> AppView {
        AppView { effects: self.effects.push(e), ..self }
    }

    /// The running search stopped, and what is still on its way from it made invalid.
    pub open spec fn cancelled(self) -> AppView {
        let stopped = AppView {
            searching: false,
            search_gen: next_gen(self.search_gen),
            job: false,
            ..self
        };
        if self.job {
            stopped.with_effect(EffectView::CancelJob)
        } else {
            stopped
        }
    }

    /// The preview of the selected result asked for, or taken from the kept ones.
    #[verifier::opaque]
    pub open spec fn preview_requested(self) -> AppView {
        let v = AppView { preview_gen: next_gen(self.preview_gen), ..self };
        match self.selected_path() {
            None => AppView { preview: None, preview_path: None, preview_loading: false, ..v },
            Some(path) => {
                let width = if self.preview_width < 10 {
                    10
                } else {
                    self.preview_width
                };
                match kept_preview(self.preview_cache, path, width) {
                    Some(p) => AppView {
                        preview: Some(p),
                        preview_path: Some(path),
                        preview_loading: false,
                        ..v
                    },
                    None => AppView {
                        preview: None,
                        preview_path: Some(path),
                        preview_loading: true,
                        ..v
                    }.with_effect(
                        EffectView::RenderPreview {
                            gen: v.preview_gen,
                            path,
                            width,
                            height: self.preview_height,
                        },
                    ),
                }
            },
        }
    }

    /// The first result selected, if there is one.
    #[verifier::opaque]
    pub open spec fn first_selected(self) -> AppView {
        AppView {
            selected: if self.results.len() == 0 {
                None
            } else {
                Some(0usize)
            },
            list_offset: 0,
            preview_scroll: 0,
            ..self
        }.preview_requested()
    }

    /// A search for the input started, in the place of the running one; an empty input gives no
    /// results.
    #[verifier::opaque]
    pub open spec fn search_started(self) -> AppView {
        let c = self.cancelled();
        let query = trim(self.input);
        let v = AppView {
            search_gen: next_gen(c.search_gen),
            last_query: self.input,
            ..c
        };
        if query.len() == 0 {
            AppView { searching: false, results: Seq::empty(), ..v }.first_selected()
        } else {
            match self.mode {
                SearchMode::FileName => AppView { searching: true, job: true, ..v }.with_effect(
                    EffectView::SearchFiles {
                        gen: v.search_gen,
                        root: self.search_path,
                        query,
                        cached: valid_list(self.file_lists, self.search_path, self.now),
                        excludes: prefixed(
                            "/"@,
                            ignored_rels(self.search_path, self.ignore_dirs),
                        ),
                        max_bytes: self.size_bytes,
                    },
                ),
                SearchMode::Content => AppView {
                    results: Seq::empty(),
                    selected: None,
                    preview: None,
                    preview_path: None,
                    searching: true,
                    job: true,
                    ..v
                }.with_effect(
                    EffectView::SearchContent {
                        gen: v.search_gen,
                        root: self.search_path,
                        query,
                        globs: exclude_globs(self.search_path, self.ignore_dirs),
                        max_bytes: self.size_bytes,
                    },
                ),
            }
        }
    }

    // -------------------------------------------------------- editing

    /// The input and its cursor.
    pub open spec fn field(self) -> Field {
        Field { text: self.input, cursor: self.cursor }
    }

    /// The input and its cursor replaced.
    pub open spec fn with_field(self, f: Field) -> AppView {
        AppView { input: f.text, cursor: f.cursor, ..self }
    }

    /// The text of the popup and its cursor.
    pub open spec fn popup_field(self) -> Field {
        Field { text: self.popup_input, cursor: self.popup_cursor }
    }

    /// The text of the popup and its cursor replaced.
    pub open spec fn with_popup_field(self, f: Field) -> AppView {
        AppView { popup_input: f.text, popup_cursor: f.cursor, ..self }
    }

    // -------------------------------------------------------- keys

    /// The running search stopped, or the end of the program.
    pub open spec fn cancelled_or_quit(self) -> AppView {
        if self.searching {
            self.cancelled().with_status("已取消当前搜索"@)
        } else {
            AppView { should_quit: true, ..self }
        }
    }

    /// The path of the selected result on its way to the clipboard.
    pub open spec fn path_copied(self) -> AppView {
        match self.selected_path() {
            Some(path) => self.with_effect(EffectView::CopyPath { path }),
            None => self.with_status("无选中文件，无法复制路径"@),
        }
    }

    /// The selection moved by `delta` results, within the list.
    #[verifier::opaque]
    pub open spec fn selection_moved(self, delta: int) -> AppView {
        if self.results.len() == 0 {
            self
        } else {
            let from = match self.selected {
                Some(i) => i as int,
                None => 0,
            };
            let to = clamped(from + delta, 0, self.results.len() - 1) as usize;
            if self.selected == Some(to) {
                self
            } else {
                AppView { selected: Some(to), preview_scroll: 0, ..self }.preview_requested()
            }
        }
    }

    /// The preview scrolled by `delta` lines, within the preview.
    pub open spec fn preview_scrolled(self, delta: int) -> AppView {
        AppView {
            preview_scroll: clamped(
                self.preview_scroll + delta,
                0,
                self.preview_max_scroll as int,
            ) as u16,
            ..self
        }
    }

    /// The cursor of the input moved by `delta` rows, where the input shows its rows.
    #[verifier::opaque]
    pub open spec fn cursor_moved_by_rows(self, delta: int) -> AppView {
        if self.input_expanded {
            AppView {
                cursor: cursor_moved(
                    self.input,
                    self.cursor,
                    at_least_one(self.input_inner_width),
                    true,
                    delta,
                ),
                ..self
            }
        } else {
            self
        }
    }

    /// A popup opened, with the present value selected.
    #[verifier::opaque]
    pub open spec fn popup_opened(self, kind: PopupKind) -> AppView {
        let text = match kind {
            PopupKind::Path => path_shown(self.search_path, self.home),
            PopupKind::IgnoreDirs => join(self.ignore_dirs, "\n"@),
            PopupKind::MaxSize => self.size_text,
        };
        AppView {
            popup: Some(kind),
            popup_input: text,
            popup_cursor: text.len() as int,
            popup_select_all: true,
            popup_error: None,
            ..self
        }
    }

    /// A character pressed with the control key.
    #[verifier::opaque]
    pub open spec fn control_key(self, c: char, alt: bool) -> AppView {
        if c == 'c' {
            self.path_copied()
        } else if c == 'p' {
            self.popup_opened(PopupKind::Path)
        } else if c == 'h' {
            AppView { input_expanded: !self.input_expanded, input_scroll: 0, ..self }
        } else if c == 'i' {
            self.popup_opened(PopupKind::IgnoreDirs)
        } else if c == 's' {
            self.popup_opened(PopupKind::MaxSize)
        } else if c == 'j' {
            self.preview_scrolled(3)
        } else if c == 'k' {
            self.preview_scrolled(-3)
        } else if c == 'u' {
            self.with_field(emptied())
        } else if alt {
            self.alt_key(c)
        } else {
            self
        }
    }

    /// A character pressed with the alt key.
    pub open spec fn alt_key(self, c: char) -> AppView {
        if c == 'j' || c == 'J' {
            self.selection_moved(1)
        } else if c == 'k' || c == 'K' {
            self.selection_moved(-1)
        } else {
            self
        }
    }

    /// A key pressed while no popup is open.
    pub open spec fn main_key(self, key: KeyEvent) -> AppView {
        let m = key.modifiers;
        match key.code {
            KeyCode::Esc => self.cancelled_or_quit(),
            KeyCode::Tab => AppView { mode: self.mode.other(), ..self }.search_started(),
            KeyCode::PageDown => self.preview_scrolled(10),
            KeyCode::PageUp => self.preview_scrolled(-10),
            KeyCode::Down => self.cursor_moved_by_rows(1),
            KeyCode::Up => self.cursor_moved_by_rows(-1),
            KeyCode::Enter => if m.shift {
                self.with_field(inserted(self.field(), seq!['\n']))
            } else {
                self.search_started()
            },
            KeyCode::Backspace => self.with_field(backspaced(self.field())),
            KeyCode::Delete => self.with_field(deleted(self.field())),
            KeyCode::Left => self.with_field(moved_left(self.field())),
            KeyCode::Right => self.with_field(moved_right(self.field())),
            KeyCode::Home => self.with_field(at_start(self.field())),
            KeyCode::End => self.with_field(at_end(self.field())),
            KeyCode::Char(c) => if m.control {
                self.control_key(c, m.alt)
            } else if m.alt {
                self.alt_key(c)
            } else {
                self.with_field(inserted(self.field(), seq![c]))
            },
            KeyCode::Other => self,
        }
    }

    /// A key event.
    pub open spec fn on_key(self, key: KeyEvent) -> AppView {
        if key.kind == KeyEventKind::Release {
            self
        } else if self.popup is Some {
            self.popup_key(key)
        } else {
            self.main_key(key)
        }
    }

    /// The file that a key opens in an editor.
    pub open spec fn opened_by(self, key: KeyEvent) -> Option<Seq<char>> {
        if key.kind != KeyEventKind::Release && self.popup is None && key.code == KeyCode::Char(
            'g',
        ) && key.modifiers.control {
            self.selected_path()
        } else {
            None
        }
    }

    // -------------------------------------------------------- popups

    /// The selected text of a popup replaced by a typed character; a size takes digits and points
    /// only.
    pub open spec fn popup_replaced(self, c: char) -> AppView {
        let v = AppView { popup_select_all: false, ..self };
        if self.popup == Some(PopupKind::MaxSize) && !size_char(c) {
            v
        } else {
            v.with_popup_field(Field { text: seq![c], cursor: 1 })
        }
    }

    /// A key pressed in a popup whose text is not selected.
    #[verifier::opaque]
    pub open spec fn popup_edit(self, key: KeyEvent) -> AppView {
        let m = key.modifiers;
        let f = self.popup_field();
        match key.code {
            KeyCode::Esc => AppView { popup: None, ..self },
            KeyCode::Enter => if m.shift && self.popup == Some(PopupKind::IgnoreDirs) {
                self.with_popup_field(inserted(f, seq!['\n']))
            } else {
                self.popup_confirmed()
            },
            KeyCode::Backspace => self.with_popup_field(backspaced(f)),
            KeyCode::Delete => self.with_popup_field(deleted(f)),
            KeyCode::Left => self.with_popup_field(moved_left(f)),
            KeyCode::Right => self.with_popup_field(moved_right(f)),
            KeyCode::Home => self.with_popup_field(at_start(f)),
            KeyCode::End => self.with_popup_field(at_end(f)),
            KeyCode::Char(c) => if m.control {
                if c == 'u' {
                    self.with_popup_field(emptied())
                } else if c == 'w' {
                    self.with_popup_field(
                        part_removed(
                            f,
                            if self.popup == Some(PopupKind::IgnoreDirs) {
                                '\n'
                            } else {
                                '/'
                            },
                        ),
                    )
                } else {
                    self
                }
            } else if m.alt || (self.popup == Some(PopupKind::MaxSize) && !size_char(c)) {
                self
            } else {
                self.with_popup_field(inserted(f, seq![c]))
            },
            _ => self,
        }
    }

    /// A key pressed in a popup: every key but Enter removes an error; where the text is
    /// selected, typing replaces it, deleting empties it and moving the cursor drops the
    /// selection.
    #[verifier::opaque]
    pub open spec fn popup_key(self, key: KeyEvent) -> AppView {
        let v = if key.code == KeyCode::Enter {
            self
        } else {
            AppView { popup_error: None, ..self }
        };
        let plain = AppView { popup_select_all: false, ..v };
        if !v.popup_select_all {
            v.popup_edit(key)
        } else {
            match key.code {
                KeyCode::Char(c) => if key.modifiers.control || key.modifiers.alt {
                    plain.popup_edit(key)
                } else {
                    v.popup_replaced(c)
                },
                KeyCode::Backspace => plain.with_popup_field(emptied()),
                KeyCode::Delete => plain.with_popup_field(emptied()),
                KeyCode::Left => plain.with_popup_field(at_start(v.popup_field())),
                KeyCode::Home => plain.with_popup_field(at_start(v.popup_field())),
                KeyCode::Right => plain.with_popup_field(at_end(v.popup_field())),
                KeyCode::End => plain.with_popup_field(at_end(v.popup_field())),
                _ => plain.popup_edit(key),
            }
        }
    }

    /// The popup closed, and its error removed.
    pub open spec fn popup_closed(self) -> AppView {
        AppView { popup: None, popup_error: None, ..self }
    }

    /// An error in the popup, which stays open.
    pub open spec fn popup_failed(self, msg: Seq<char>) -> AppView {
        AppView { popup_error: Some(msg), ..self }
    }

    /// The text of the popup taken as the new value: checked here as far as that goes, and then
    /// outside.
    #[verifier::opaque]
    pub open spec fn popup_confirmed(self) -> AppView {
        match self.popup {
            Some(PopupKind::Path) => self.path_confirmed(),
            Some(PopupKind::IgnoreDirs) => self.dirs_confirmed(),
            Some(PopupKind::MaxSize) => self.size_confirmed(),
            None => self,
        }
    }

    /// A search path confirmed: nothing but slashes is refused, the rest is looked at outside.
    pub open spec fn path_confirmed(self) -> AppView {
        let raw = trim(self.popup_input);
        let expanded = tilde_expanded(raw, self.home);
        if raw.len() == 0 {
            self.popup_closed()
        } else if only_slashes(expanded) {
            self.popup_failed("路径无效: "@ + raw)
        } else {
            self.with_effect(EffectView::CheckPath { raw, expanded })
        }
    }

    /// Directories to ignore confirmed: they are looked at outside; none at all needs no look.
    pub open spec fn dirs_confirmed(self) -> AppView {
        let dirs = requested_dirs(split(decoded(self.popup_input), '\n'), self.home);
        if dirs.len() == 0 {
            self.dirs_set(Seq::empty())
        } else {
            self.with_effect(EffectView::CheckDirs { dirs })
        }
    }

    /// A size limit confirmed: what is not written as a size is refused, the rest is read outside.
    pub open spec fn size_confirmed(self) -> AppView {
        let raw = trim(self.popup_input);
        if written_as_size(raw) {
            self.with_effect(EffectView::ReadSize { raw })
        } else {
            self.popup_failed(bad_size(raw))
        }
    }

    /// The settings on their way to their file.
    pub open spec fn config_saved(self) -> AppView {
        match self.config_path {
            Some(path) => self.with_effect(EffectView::SaveConfig { path }),
            None => self,
        }
    }

    /// The lists of files dropped, which depend on the settings, and the last search repeated.
    pub open spec fn settings_changed(self) -> AppView {
        let v = AppView { file_lists: Seq::empty(), ..self };
        if trim(self.last_query).len() == 0 {
            v
        } else {
            v.search_started()
        }
    }

    /// New directories to ignore, saved and searched with.
    pub open spec fn dirs_set(self, dirs: Seq<Seq<char>>) -> AppView {
        AppView { ignore_dirs: dirs, ..self }.popup_closed().config_saved().settings_changed()
    }

    /// A new size limit, saved and searched with.
    pub open spec fn size_set(self, text: Seq<char>, bytes: u64) -> AppView {
        AppView {
            size_text: text,
            size_bytes: bytes,
            ..self
        }.popup_closed().config_saved().settings_changed()
    }

    /// A new search path, searched from at once.
    pub open spec fn path_set(self, path: Seq<char>) -> AppView {
        AppView { search_path: path, ..self }.popup_closed().search_started()
    }

    /// What was found of the directories to ignore.
    pub open spec fn dirs_checked(self, checks: Seq<(Seq<char>, DirCheckView)>) -> AppView {
        match dirs_error(checks) {
            Some(msg) => self.popup_failed(msg),
            None => self.dirs_set(dirs_found(checks)),
        }
    }

    // -------------------------------------------------------- pasting

    /// Text pasted: into the open popup as plain text, otherwise into the input as query text.
    #[verifier::opaque]
    pub open spec fn pasted(self, text: Seq<char>) -> AppView {
        match self.popup {
            Some(kind) => {
                let clean = if kind == PopupKind::IgnoreDirs {
                    pasted_lines(text)
                } else {
                    pasted_line(text)
                };
                let f = if self.popup_select_all {
                    Field { text: clean, cursor: clean.len() as int }
                } else {
                    inserted(self.popup_field(), clean)
                };
                AppView {
                    popup_select_all: false,
                    popup_error: None,
                    ..self
                }.with_popup_field(f)
            },
            None => self.with_field(inserted(self.field(), encoded(text))),
        }
    }

    // -------------------------------------------------------- messages

    /// The results of a running search with some more, in order; the selection stays on its
    /// place, and where another file came to that place its preview is asked for.
    #[verifier::opaque]
    pub open spec fn batch_added(self, items: Seq<ItemView>) -> AppView {
        let before = self.selected_path();
        let results = best(self.results + items);
        let selected = match self.selected {
            Some(i) => if results.len() > 0 && i >= results.len() {
                Some((results.len() - 1) as usize)
            } else {
                Some(i)
            },
            None => None,
        };
        let v = AppView { results, selected, ..self };
        let w = if selected is None && results.len() > 0 {
            v.first_selected()
        } else if !same_opt_path(v.selected_path(), before) {
            AppView { preview_scroll: 0, ..v }.preview_requested()
        } else {
            v
        };
        if results.len() >= MAX_RESULTS && self.job {
            w.with_effect(EffectView::CancelJob)
        } else {
            w
        }
    }

    /// A message from the background.
    pub open spec fn received(self, msg: MsgView) -> AppView {
        match msg {
            MsgView::SearchBatch { gen, items } => if gen == self.search_gen {
                self.batch_added(items)
            } else {
                self
            },
            MsgView::SearchDone { gen, content, items, new_file_list } => {
                let v = match new_file_list {
                    Some((root, files)) => AppView {
                        file_lists: with_list(
                            self.file_lists,
                            FileListView { root, made: self.now, files },
                        ),
                        ..self
                    },
                    None => self,
                };
                if gen != self.search_gen {
                    v
                } else if content {
                    AppView { searching: false, ..v }
                } else {
                    AppView { searching: false, results: items, ..v }.first_selected()
                }
            },
            MsgView::PreviewDone { gen, path, width, preview } => {
                let v = AppView {
                    preview_cache: with_preview(
                        self.preview_cache,
                        CachedView { path, width, preview },
                    ),
                    ..self
                };
                if gen == self.preview_gen && width == self.preview_width {
                    AppView {
                        preview: Some(preview),
                        preview_path: Some(path),
                        preview_loading: false,
                        ..v
                    }
                } else {
                    v
                }
            },
        }
    }

    /// Messages from the background, one after another.
    pub open spec fn received_all(self, msgs: Seq<MsgView>) -> AppView
        decreases msgs.len(),
    {
        if msgs.len() == 0 {
            self
        } else {
            self.received_all(msgs.drop_last()).received(msgs.last())
        }
    }

    /// A message on the screen taken away when its time is over.
    pub open spec fn status_aged(self) -> AppView {
        match self.status {
            Some((_, since)) => if elapsed(since, self.now) > STATUS_TTL {
                AppView { status: None, ..self }
            } else {
                self
            },
            None => self,
        }
    }

    /// The messages that came taken in, and an old message taken away.
    pub open spec fn ticked(self) -> AppView {
        AppView { inbox: Seq::empty(), ..self }.received_all(self.inbox).status_aged()
    }

    /// The first shown result, so that `height` results show the selected one and no more empty
    /// lines than needed.
    pub open spec fn list_shown(self, height: int) -> AppView {
        if height == 0 {
            self
        } else {
            let offset = match self.selected {
                Some(i) => if i < self.list_offset {
                    i as int
                } else if i >= self.list_offset + height {
                    i + 1 - height
                } else {
                    self.list_offset
                },
                None => 0,
            };
            let most = if self.results.len() < height {
                0
            } else {
                self.results.len() - height
            };
            AppView {
                list_offset: if offset <= most {
                    offset
                } else {
                    most
                },
                ..self
            }
        }
    }
}

} // verus!
