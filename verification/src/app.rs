//! What keys, pasted text and finished work do to the state of the program.

use crate::config::{config_file, config_path};
use crate::edit::{char_count, inserted, insert_at, remove_at, remove_part, Field};
use crate::escapes::{clean_line, clean_lines, decode_escapes, encode_paste};
use crate::keys::{KeyCode, KeyEvent, KeyEventKind};
use crate::paths::{names_same_path, same_path};
use crate::preview::{opt_text, Preview};
use crate::search::{
    fd_excludes, holds_text, rank, rg_exclude_globs, views, ItemView, SearchMode, SearchResultItem,
    MAX_RESULTS,
};
use crate::state::{
    bad_size, cached_views, check_views, dirs_error, dirs_found, effect_views, file_list_views,
    kept_preview, msg_views, next_gen, only_slashes, opt_files, opt_preview, path_shown, points,
    request_views, requested_dirs, same_opt_path, size_char, tilde_expanded, valid_list,
    with_list, with_preview, written_as_size, CachedView, EffectView, FileListView, MsgView,
};
use crate::text::{
    after_prefix, is_ascii_digit, join_strings, same_str, split_str, texts, to_chars, trim_str,
};
use crate::wrap::move_cursor_vertical;
use std::sync::Arc;
use vstd::prelude::*;

pub use crate::state::{
    Action, App, AppView, CachedPreview, DirCheck, DirRequest, Effect, FileList, ListState, Msg,
    PathCheck, PopupKind, SizeLimit, FILE_LIST_TTL, PREVIEW_CACHE_MAX, STATUS_TTL,
};

verus! {

/// `Arc::clone` gives another handle to the same value.
#[verifier::external_body]
fn share<T>(a: &Arc<T>) -> (r: Arc<T>)
    ensures
        r == *a,
{
    Arc::clone(a)
}

fn text_of(s: &Option<String>) -> (r: Option<String>)
    ensures
        opt_text(r) == opt_text(*s),
{
    match s {
        Some(t) => Some(t.clone()),
        None => None,
    }
}

fn next_gen_of(gen: u64) -> (r: u64)
    ensures
        r == next_gen(gen),
{
    if gen == u64::MAX {
        0
    } else {
        gen + 1
    }
}

// ------------------------------------------------------------ paths as they are typed and shown

/// Writes `path` with `~` for the home directory.
pub fn show_path(path: &str, home: &Option<String>) -> (r: String)
    ensures
        r@ == path_shown(path@, opt_text(*home)),
{
    match home {
        Some(h) => {
            if same_str(path, h.as_str()) {
                return "~".to_owned();
            }
            let mut prefix = h.clone();
            prefix.append("/");
            match after_prefix(path, prefix.as_str()) {
                Some(rest) => {
                    let mut r = "~/".to_owned();
                    r.append(rest.as_str());
                    r
                },
                None => path.to_owned(),
            }
        },
        None => path.to_owned(),
    }
}

/// Replaces a leading `~` by the home directory, where that is known.
pub fn expand_tilde(s: &str, home: &Option<String>) -> (r: String)
    ensures
        r@ == tilde_expanded(s@, opt_text(*home)),
{
    match home {
        Some(h) => {
            if same_str(s, "~") {
                return h.clone();
            }
            match after_prefix(s, "~/") {
                Some(rest) => {
                    let mut r = h.clone();
                    r.append("/");
                    r.append(rest.as_str());
                    r
                },
                None => s.to_owned(),
            }
        },
        None => s.to_owned(),
    }
}

fn is_only_slashes(s: &str) -> (r: bool)
    ensures
        r == only_slashes(s@),
{
    let chars = to_chars(s);
    if chars.len() <= 1 {
        return false;
    }
    let mut i: usize = 0;
    while i < chars.len()
        invariant
            i <= chars@.len(),
            chars@ == s@,
            forall|k: int| 0 <= k < i ==> s@[k] == '/',
        decreases chars@.len() - i,
    {
        if chars[i] != '/' {
            assert(s@[i as int] != '/');
            return false;
        }
        i += 1;
    }
    true
}

fn is_size_char(c: char) -> (r: bool)
    ensures
        r == size_char(c),
{
    is_ascii_digit(c) || c == '.'
}

/// Tells whether `s` is written as a size.
pub fn is_written_as_size(s: &str) -> (r: bool)
    ensures
        r == written_as_size(s@),
{
    let chars = to_chars(s);
    if chars.len() == 0 || same_str(s, ".") {
        return false;
    }
    let mut dots: usize = 0;
    let mut i: usize = 0;
    assert(chars@.take(0).len() == 0);
    while i < chars.len()
        invariant
            i <= chars@.len(),
            chars@ == s@,
            dots <= i,
            dots == points(s@.take(i as int)),
            forall|k: int| 0 <= k < i ==> size_char(#[trigger] s@[k]),
        decreases chars@.len() - i,
    {
        let c = chars[i];
        assert(s@.take(i + 1).drop_last() == s@.take(i as int));
        if !is_size_char(c) {
            assert(!size_char(s@[i as int]));
            return false;
        }
        if c == '.' {
            dots += 1;
        }
        i += 1;
    }
    assert(s@.take(i as int) == s@);
    dots <= 1
}

// ------------------------------------------------------------ lists of files and kept previews

fn find_list(lists: &Vec<FileList>, root: &str, now: u64) -> (r: Option<Arc<Vec<String>>>)
    ensures
        opt_files(r) == valid_list(file_list_views(lists@), root@, now),
{
    let ghost all = file_list_views(lists@);
    let mut i: usize = 0;
    assert(all.skip(0) == all);
    while i < lists.len()
        invariant
            i <= lists@.len(),
            all == file_list_views(lists@),
            valid_list(all, root@, now) == valid_list(all.skip(i as int), root@, now),
        decreases lists@.len() - i,
    {
        let l = &lists[i];
        assert(all.skip(i as int)[0] == l@);
        assert(all.skip(i as int).drop_first() == all.skip(i + 1));
        if names_same_path(l.root.as_str(), root) {
            let age: u64 = now.saturating_sub(l.made);
            if age < FILE_LIST_TTL {
                return Some(share(&l.files));
            }
            return None;
        }
        i += 1;
    }
    assert(all.skip(i as int).len() == 0);
    None
}

fn put_list(lists: &mut Vec<FileList>, new: FileList)
    ensures
        file_list_views(final(lists)@) == with_list(file_list_views(old(lists)@), new@),
{
    let ghost all = file_list_views(lists@);
    let ghost other = |l: FileListView| !same_path(l.root, new@.root);
    let ghost mut done: int = 0;
    let mut i: usize = 0;
    assert(all.take(0).filter(other) == Seq::<FileListView>::empty());
    while i < lists.len()
        invariant
            other == (|l: FileListView| !same_path(l.root, new@.root)),
            0 <= done <= all.len(),
            i <= lists@.len(),
            lists@.len() - i == all.len() - done,
            file_list_views(lists@).take(i as int) == all.take(done).filter(other),
            file_list_views(lists@).skip(i as int) == all.skip(done),
        decreases lists@.len() - i,
    {
        let ghost now = file_list_views(lists@);
        reveal(Seq::filter);
        assert(all.take(done + 1).drop_last() == all.take(done));
        assert(now[i as int] == now.skip(i as int)[0]);
        assert(now[i as int] == all[done]);
        assert(all.skip(done + 1) == all.skip(done).drop_first());
        if names_same_path(lists[i].root.as_str(), new.root.as_str()) {
            lists.remove(i);
            assert(file_list_views(lists@) == now.remove(i as int));
            assert(file_list_views(lists@).take(i as int) == now.take(i as int));
            assert(file_list_views(lists@).skip(i as int) == now.skip(i as int).drop_first());
        } else {
            assert(now.take(i + 1) == now.take(i as int).push(now[i as int]));
            assert(now.skip(i + 1) == now.skip(i as int).drop_first());
            i += 1;
        }
        proof {
            done = done + 1;
        }
    }
    assert(all.take(done) == all);
    assert(file_list_views(lists@).take(i as int) == file_list_views(lists@));
    let ghost kept = file_list_views(lists@);
    lists.push(new);
    assert(file_list_views(lists@) == kept.push(new@));
}

fn find_preview(cache: &Vec<CachedPreview>, path: &str, width: u16) -> (r: Option<Arc<Preview>>)
    ensures
        opt_preview(r) == kept_preview(cached_views(cache@), path@, width),
{
    let ghost all = cached_views(cache@);
    let mut i: usize = 0;
    assert(all.skip(0) == all);
    while i < cache.len()
        invariant
            i <= cache@.len(),
            all == cached_views(cache@),
            kept_preview(all, path@, width) == kept_preview(all.skip(i as int), path@, width),
        decreases cache@.len() - i,
    {
        let c = &cache[i];
        assert(all.skip(i as int)[0] == c@);
        assert(all.skip(i as int).drop_first() == all.skip(i + 1));
        if c.width == width && names_same_path(c.path.as_str(), path) {
            return Some(share(&c.preview));
        }
        i += 1;
    }
    assert(all.skip(i as int).len() == 0);
    None
}

fn put_preview(cache: &mut Vec<CachedPreview>, new: CachedPreview)
    ensures
        cached_views(final(cache)@) == with_preview(cached_views(old(cache)@), new@),
{
    if cache.len() >= PREVIEW_CACHE_MAX {
        cache.clear();
    }
    let ghost all = cached_views(cache@);
    let ghost other = |c: CachedView| !(c.width == new@.width && same_path(c.path, new@.path));
    let ghost mut done: int = 0;
    let mut i: usize = 0;
    assert(all.take(0).filter(other) == Seq::<CachedView>::empty());
    while i < cache.len()
        invariant
            other == (|c: CachedView| !(c.width == new@.width && same_path(c.path, new@.path))),
            0 <= done <= all.len(),
            i <= cache@.len(),
            cache@.len() - i == all.len() - done,
            cached_views(cache@).take(i as int) == all.take(done).filter(other),
            cached_views(cache@).skip(i as int) == all.skip(done),
        decreases cache@.len() - i,
    {
        let ghost now = cached_views(cache@);
        reveal(Seq::filter);
        assert(all.take(done + 1).drop_last() == all.take(done));
        assert(now[i as int] == now.skip(i as int)[0]);
        assert(now[i as int] == all[done]);
        assert(all.skip(done + 1) == all.skip(done).drop_first());
        if cache[i].width == new.width && names_same_path(
            cache[i].path.as_str(),
            new.path.as_str(),
        ) {
            cache.remove(i);
            assert(cached_views(cache@) == now.remove(i as int));
            assert(cached_views(cache@).take(i as int) == now.take(i as int));
            assert(cached_views(cache@).skip(i as int) == now.skip(i as int).drop_first());
        } else {
            assert(now.take(i + 1) == now.take(i as int).push(now[i as int]));
            assert(now.skip(i + 1) == now.skip(i as int).drop_first());
            i += 1;
        }
        proof {
            done = done + 1;
        }
    }
    assert(all.take(done) == all);
    assert(cached_views(cache@).take(i as int) == cached_views(cache@));
    let ghost kept = cached_views(cache@);
    cache.push(new);
    assert(cached_views(cache@) == kept.push(new@));
}

// ------------------------------------------------------------ the program

impl App {
    /// The state at the start: the search path is the current directory, or the root where that is
    /// not known.
    pub fn new(
        current_dir: Option<String>,
        home: Option<String>,
        ignore_dirs: Vec<String>,
        max_size: SizeLimit,
    ) -> (app: App)
        ensures
            app@ == (AppView {
                mode: SearchMode::FileName,
                search_path: match current_dir {
                    Some(d) => d@,
                    None => "/"@,
                },
                popup: None,
                popup_input: Seq::empty(),
                popup_cursor: 0,
                popup_select_all: false,
                popup_error: None,
                input: Seq::empty(),
                cursor: 0,
                input_expanded: true,
                input_scroll: 0,
                input_inner_width: 1,
                results: Seq::empty(),
                selected: None,
                list_offset: 0,
                preview: None,
                preview_path: None,
                preview_scroll: 0,
                preview_max_scroll: 0,
                preview_loading: false,
                preview_width: 80,
                preview_height: 24,
                image_area: None,
                size_changed: false,
                status: None,
                should_quit: false,
                searching: false,
                last_query: Seq::empty(),
                ignore_dirs: texts(ignore_dirs@),
                size_text: max_size.text@,
                size_bytes: max_size.bytes,
                home: opt_text(home),
                config_path: config_file(opt_text(home)),
                search_gen: 0,
                preview_gen: 0,
                job: false,
                file_lists: Seq::empty(),
                preview_cache: Seq::empty(),
                now: 0,
                inbox: Seq::empty(),
                effects: Seq::empty(),
            }),
            crate::laws::well_formed(app@),
    {
        let search_path = match current_dir {
            Some(d) => d,
            None => "/".to_owned(),
        };
        let config = config_path(&home);
        App {
            mode: SearchMode::FileName,
            search_path,
            popup: None,
            popup_input: String::new(),
            popup_cursor: 0,
            popup_select_all: false,
            popup_error: None,
            input: String::new(),
            cursor: 0,
            input_expanded: true,
            input_scroll: 0,
            input_inner_width: 1,
            results: Vec::new(),
            list_state: ListState { selected: None },
            list_offset: 0,
            preview: None,
            preview_path: None,
            preview_scroll: 0,
            preview_max_scroll: 0,
            preview_loading: false,
            preview_width: 80,
            preview_height: 24,
            image_area: None,
            size_changed: false,
            status: None,
            should_quit: false,
            searching: false,
            last_query: String::new(),
            ignore_dirs,
            max_size,
            home,
            config_path: config,
            search_gen: 0,
            preview_gen: 0,
            job: false,
            file_lists: Vec::new(),
            preview_cache: Vec::new(),
            now: 0,
            inbox: Vec::new(),
            effects: Vec::new(),
        }
    }

    /// Gives the search path.
    pub fn current_path(&self) -> (r: &String)
        ensures
            r@ == self@.search_path,
    {
        &self.search_path
    }

    /// Tells whether the input was changed since the last search.
    pub fn input_dirty(&self) -> (r: bool)
        ensures
            r == self@.dirty(),
    {
        let now = trim_str(self.input.as_str());
        let then = trim_str(self.last_query.as_str());
        !same_str(now.as_str(), then.as_str())
    }

    /// Gives the search path as it is shown.
    pub fn current_path_display(&self) -> (r: String)
        ensures
            r@ == path_shown(self@.search_path, self@.home),
    {
        show_path(self.search_path.as_str(), &self.home)
    }

    /// Gives the selected result.
    pub fn selected_item(&self) -> (r: Option<&SearchResultItem>)
        ensures
            r is Some == self@.selected_item() is Some,
            r matches Some(item) ==> self@.selected_item() == Some(item@),
    {
        match self.list_state.selected {
            Some(i) => {
                if i < self.results.len() {
                    assert(views(self.results@)[i as int] == self.results@[i as int]@);
                    Some(&self.results[i])
                } else {
                    None
                }
            },
            None => None,
        }
    }

    fn selected_path(&self) -> (r: Option<String>)
        ensures
            opt_text(r) == self@.selected_path(),
    {
        match self.selected_item() {
            Some(item) => Some(item.path.clone()),
            None => None,
        }
    }

    /// Shows a message.
    pub fn set_status(&mut self, msg: &str)
        ensures
            final(self)@ == old(self)@.with_status(msg@),
    {
        self.status = Some((msg.to_owned(), self.now));
    }

    /// Sets the clock, in milliseconds.
    pub fn set_clock(&mut self, now: u64)
        ensures
            final(self)@ == (AppView { now, ..old(self)@ }),
    {
        self.now = now;
    }

    fn add_effect(&mut self, e: Effect)
        ensures
            final(self)@ == old(self)@.with_effect(e@),
    {
        self.effects.push(e);
        assert(effect_views(self.effects@) == effect_views(old(self).effects@).push(e@));
    }

    /// Gives what is to be done outside, and forgets it.
    pub fn take_effects(&mut self) -> (r: Vec<Effect>)
        ensures
            effect_views(r@) == old(self)@.effects,
            final(self)@ == (AppView { effects: Seq::empty(), ..old(self)@ }),
    {
        let mut r: Vec<Effect> = Vec::new();
        core::mem::swap(&mut r, &mut self.effects);
        assert(effect_views(self.effects@) == Seq::<EffectView>::empty());
        r
    }

    /// Hands over a message from the background, which the next tick takes in.
    pub fn send(&mut self, msg: Msg)
        ensures
            final(self)@ == (AppView { inbox: old(self)@.inbox.push(msg@), ..old(self)@ }),
    {
        self.inbox.push(msg);
        assert(msg_views(self.inbox@) == msg_views(old(self).inbox@).push(msg@));
    }

    // -------------------------------------------------------- searching

    fn cancel_current_job(&mut self)
        ensures
            final(self)@ == old(self)@.cancelled(),
    {
        let running = self.job;
        self.searching = false;
        self.search_gen = next_gen_of(self.search_gen);
        self.job = false;
        if running {
            self.add_effect(Effect::CancelJob);
        }
    }

    /// Stops a running search before the program ends.
    pub fn shutdown(&mut self)
        ensures
            final(self)@ == old(self)@.cancelled(),
    {
        self.cancel_current_job();
    }

    /// Asks for the preview of the selected result, or takes it from the kept ones.
    pub fn request_preview(&mut self)
        ensures
            final(self)@ == old(self)@.preview_requested(),
    {
        proof {
            reveal(AppView::preview_requested);
        }
        self.preview_gen = next_gen_of(self.preview_gen);
        match self.selected_path() {
            None => {
                self.preview = None;
                self.preview_path = None;
                self.preview_loading = false;
            },
            Some(path) => {
                let width: u16 = if self.preview_width < 10 {
                    10
                } else {
                    self.preview_width
                };
                match find_preview(&self.preview_cache, path.as_str(), width) {
                    Some(p) => {
                        self.preview = Some(p);
                        self.preview_path = Some(path);
                        self.preview_loading = false;
                    },
                    None => {
                        self.preview = None;
                        self.preview_loading = true;
                        self.preview_path = Some(path.clone());
                        self.add_effect(
                            Effect::RenderPreview {
                                gen: self.preview_gen,
                                path,
                                width,
                                height: self.preview_height,
                            },
                        );
                    },
                }
            },
        }
    }

    fn select_first(&mut self)
        ensures
            final(self)@ == old(self)@.first_selected(),
    {
        proof {
            reveal(AppView::first_selected);
        }
        if self.results.len() == 0 {
            self.list_state.selected = None;
        } else {
            self.list_state.selected = Some(0);
        }
        self.list_offset = 0;
        self.preview_scroll = 0;
        self.request_preview();
    }

    fn dispatch_search(&mut self)
        ensures
            final(self)@ == old(self)@.search_started(),
    {
        proof {
            reveal(AppView::search_started);
        }
        self.cancel_current_job();
        self.search_gen = next_gen_of(self.search_gen);
        let query = trim_str(self.input.as_str());
        self.last_query = self.input.clone();
        if query.as_str().is_empty() {
            self.searching = false;
            self.results = Vec::new();
            assert(views(self.results@) == Seq::<ItemView>::empty());
            self.select_first();
            return;
        }
        let gen: u64 = self.search_gen;
        let root = self.search_path.clone();
        let max_bytes: u64 = self.max_size.bytes;
        self.job = true;
        self.searching = true;
        match self.mode {
            SearchMode::FileName => {
                let cached = find_list(&self.file_lists, root.as_str(), self.now);
                let excludes = fd_excludes(root.as_str(), &self.ignore_dirs);
                self.add_effect(
                    Effect::SearchFiles { gen, root, query, cached, excludes, max_bytes },
                );
            },
            SearchMode::Content => {
                self.results = Vec::new();
                assert(views(self.results@) == Seq::<ItemView>::empty());
                self.list_state.selected = None;
                self.preview = None;
                self.preview_path = None;
                let globs = rg_exclude_globs(root.as_str(), &self.ignore_dirs);
                self.add_effect(Effect::SearchContent { gen, root, query, globs, max_bytes });
            },
        }
    }
}

// ------------------------------------------------------------ keys

impl App {
    fn set_input(&mut self, text: String, cursor: usize)
        ensures
            final(self)@ == old(self)@.with_field(Field { text: text@, cursor: cursor as int }),
    {
        self.input = text;
        self.cursor = cursor;
    }

    fn type_text(&mut self, new: &str)
        ensures
            final(self)@ == old(self)@.with_field(inserted(old(self)@.field(), new@)),
    {
        let text = insert_at(self.input.as_str(), self.cursor, new);
        let cursor: usize = self.cursor.saturating_add(char_count(new));
        self.set_input(text, cursor);
    }

    fn type_char(&mut self, c: char)
        ensures
            final(self)@ == old(self)@.with_field(inserted(old(self)@.field(), seq![c])),
    {
        let mut new = String::new();
        new.push(c);
        assert(new@ == seq![c]);
        self.type_text(new.as_str());
    }

    fn cancel_or_quit(&mut self)
        ensures
            final(self)@ == old(self)@.cancelled_or_quit(),
    {
        if self.searching {
            self.cancel_current_job();
            self.set_status("已取消当前搜索");
        } else {
            self.should_quit = true;
        }
    }

    fn copy_selected_path(&mut self)
        ensures
            final(self)@ == old(self)@.path_copied(),
    {
        match self.selected_path() {
            Some(path) => self.add_effect(Effect::CopyPath { path }),
            None => self.set_status("无选中文件，无法复制路径"),
        }
    }

    /// Reports what came of copying a path.
    pub fn on_copied(&mut self, outcome: Result<(), String>)
        ensures
            final(self)@ == (match outcome {
                Ok(_) => old(self)@.with_status("已复制文件路径到剪贴板"@),
                Err(reason) => old(self)@.with_status("复制失败："@ + reason@),
            }),
    {
        match outcome {
            Ok(_) => self.set_status("已复制文件路径到剪贴板"),
            Err(reason) => {
                let mut msg = "复制失败：".to_owned();
                msg.append(reason.as_str());
                self.set_status(msg.as_str());
            },
        }
    }

    fn move_selection(&mut self, delta: i64)
        ensures
            final(self)@ == old(self)@.selection_moved(delta as int),
    {
        proof {
            reveal(AppView::selection_moved);
        }
        let n: usize = self.results.len();
        if n == 0 {
            return;
        }
        let from: i128 = match self.list_state.selected {
            Some(i) => i as i128,
            None => 0,
        };
        let wanted: i128 = from + delta as i128;
        let to: usize = if wanted < 0 {
            0
        } else if wanted > (n - 1) as i128 {
            n - 1
        } else {
            wanted as usize
        };
        let same: bool = match self.list_state.selected {
            Some(i) => i == to,
            None => false,
        };
        if !same {
            self.list_state.selected = Some(to);
            self.preview_scroll = 0;
            self.request_preview();
        }
    }

    fn scroll_preview(&mut self, delta: i32)
        ensures
            final(self)@ == old(self)@.preview_scrolled(delta as int),
    {
        let wanted: i64 = self.preview_scroll as i64 + delta as i64;
        self.preview_scroll =
        if wanted < 0 {
            0
        } else if wanted > self.preview_max_scroll as i64 {
            self.preview_max_scroll
        } else {
            wanted as u16
        };
    }

    fn move_input_cursor_vertical(&mut self, delta: isize)
        ensures
            final(self)@ == old(self)@.cursor_moved_by_rows(delta as int),
    {
        proof {
            reveal(AppView::cursor_moved_by_rows);
        }
        if !self.input_expanded {
            return;
        }
        self.cursor =
        move_cursor_vertical(
            self.input.as_str(),
            self.cursor,
            self.input_inner_width,
            true,
            delta,
        );
    }

    /// Opens a popup with the present value, which is selected.
    pub fn open_popup(&mut self, kind: PopupKind)
        ensures
            final(self)@ == old(self)@.popup_opened(kind),
    {
        proof {
            reveal(AppView::popup_opened);
        }
        self.popup_input =
        match kind {
            PopupKind::Path => self.current_path_display(),
            PopupKind::IgnoreDirs => join_strings(&self.ignore_dirs, "\n"),
            PopupKind::MaxSize => self.max_size.text.clone(),
        };
        self.popup_cursor = char_count(self.popup_input.as_str());
        self.popup_select_all = true;
        self.popup_error = None;
        self.popup = Some(kind);
    }

    fn on_alt_key(&mut self, c: char)
        ensures
            final(self)@ == old(self)@.alt_key(c),
    {
        if c == 'j' || c == 'J' {
            self.move_selection(1);
        } else if c == 'k' || c == 'K' {
            self.move_selection(-1);
        }
    }

    fn on_control_key(&mut self, c: char, alt: bool)
        ensures
            final(self)@ == old(self)@.control_key(c, alt),
    {
        proof {
            reveal(AppView::control_key);
        }
        match c {
            'c' => self.copy_selected_path(),
            'p' => self.open_popup(PopupKind::Path),
            'h' => {
                self.input_expanded = !self.input_expanded;
                self.input_scroll = 0;
            },
            'i' => self.open_popup(PopupKind::IgnoreDirs),
            's' => self.open_popup(PopupKind::MaxSize),
            'j' => self.scroll_preview(3),
            'k' => self.scroll_preview(-3),
            'u' => {
                let empty = String::new();
                self.set_input(empty, 0);
            },
            _ => {
                if alt {
                    self.on_alt_key(c);
                }
            },
        }
    }

    /// Takes a key event; gives what the main loop has to do for it.
    #[verifier::rlimit(60)]
    #[verifier::spinoff_prover]
    pub fn on_key(&mut self, key: KeyEvent) -> (action: Option<Action>)
        ensures
            final(self)@ == old(self)@.on_key(key),
            action is Some == old(self)@.opened_by(key) is Some,
            action matches Some(Action::Open(path)) ==> old(self)@.opened_by(key) == Some(path@),
    {
        if key.kind == KeyEventKind::Release {
            return None;
        }
        if self.popup.is_some() {
            self.on_popup_key(key);
            return None;
        }
        let ctrl = key.modifiers.control;
        let alt = key.modifiers.alt;
        match key.code {
            KeyCode::Esc => self.cancel_or_quit(),
            KeyCode::Tab => {
                self.mode.toggle();
                self.dispatch_search();
            },
            KeyCode::PageDown => self.scroll_preview(10),
            KeyCode::PageUp => self.scroll_preview(-10),
            KeyCode::Down => self.move_input_cursor_vertical(1),
            KeyCode::Up => self.move_input_cursor_vertical(-1),
            KeyCode::Enter => {
                if key.modifiers.shift {
                    self.type_char('\n');
                } else {
                    self.dispatch_search();
                }
            },
            KeyCode::Backspace => {
                if self.cursor > 0 {
                    let cursor: usize = self.cursor - 1;
                    let text = remove_at(self.input.as_str(), cursor);
                    self.set_input(text, cursor);
                }
            },
            KeyCode::Delete => {
                self.input = remove_at(self.input.as_str(), self.cursor);
            },
            KeyCode::Left => {
                self.cursor = self.cursor.saturating_sub(1);
            },
            KeyCode::Right => {
                let n: usize = char_count(self.input.as_str());
                self.cursor =
                if self.cursor < n {
                    self.cursor + 1
                } else {
                    n
                };
            },
            KeyCode::Home => {
                self.cursor = 0;
            },
            KeyCode::End => {
                self.cursor = char_count(self.input.as_str());
            },
            KeyCode::Char(c) => {
                if ctrl {
                    if c == 'g' {
                        assert(self@.control_key(c, alt) == self@) by {
                            reveal(AppView::control_key);
                        }
                        match self.selected_path() {
                            Some(path) => {
                                return Some(Action::Open(path));
                            },
                            None => {},
                        }
                    } else {
                        self.on_control_key(c, alt);
                    }
                } else if alt {
                    self.on_alt_key(c);
                } else {
                    self.type_char(c);
                }
            },
            KeyCode::Other => {},
        }
        None
    }

    // -------------------------------------------------------- popups

    fn set_popup_input(&mut self, text: String, cursor: usize)
        ensures
            final(self)@ == old(self)@.with_popup_field(
                Field { text: text@, cursor: cursor as int },
            ),
    {
        self.popup_input = text;
        self.popup_cursor = cursor;
    }

    fn popup_type(&mut self, new: &str)
        ensures
            final(self)@ == old(self)@.with_popup_field(inserted(old(self)@.popup_field(), new@)),
    {
        let text = insert_at(self.popup_input.as_str(), self.popup_cursor, new);
        let cursor: usize = self.popup_cursor.saturating_add(char_count(new));
        self.set_popup_input(text, cursor);
    }

    fn popup_type_char(&mut self, c: char)
        ensures
            final(self)@ == old(self)@.with_popup_field(
                inserted(old(self)@.popup_field(), seq![c]),
            ),
    {
        let mut new = String::new();
        new.push(c);
        assert(new@ == seq![c]);
        self.popup_type(new.as_str());
    }

    fn is_popup(&self, kind: PopupKind) -> (r: bool)
        ensures
            r == (self@.popup == Some(kind)),
    {
        match self.popup {
            Some(k) => k == kind,
            None => false,
        }
    }

    fn on_popup_edit(&mut self, key: KeyEvent)
        ensures
            final(self)@ == old(self)@.popup_edit(key),
    {
        proof {
            reveal(AppView::popup_edit);
        }
        let ctrl = key.modifiers.control;
        let alt = key.modifiers.alt;
        match key.code {
            KeyCode::Esc => {
                self.popup = None;
            },
            KeyCode::Enter => {
                if key.modifiers.shift && self.is_popup(PopupKind::IgnoreDirs) {
                    self.popup_type_char('\n');
                } else {
                    self.confirm_popup();
                }
            },
            KeyCode::Backspace => {
                if self.popup_cursor > 0 {
                    let cursor: usize = self.popup_cursor - 1;
                    let text = remove_at(self.popup_input.as_str(), cursor);
                    self.set_popup_input(text, cursor);
                }
            },
            KeyCode::Delete => {
                self.popup_input = remove_at(self.popup_input.as_str(), self.popup_cursor);
            },
            KeyCode::Left => {
                self.popup_cursor = self.popup_cursor.saturating_sub(1);
            },
            KeyCode::Right => {
                let n: usize = char_count(self.popup_input.as_str());
                self.popup_cursor =
                if self.popup_cursor < n {
                    self.popup_cursor + 1
                } else {
                    n
                };
            },
            KeyCode::Home => {
                self.popup_cursor = 0;
            },
            KeyCode::End => {
                self.popup_cursor = char_count(self.popup_input.as_str());
            },
            KeyCode::Char(c) => {
                if ctrl {
                    if c == 'u' {
                        let empty = String::new();
                        self.set_popup_input(empty, 0);
                    } else if c == 'w' {
                        let sep = if self.is_popup(PopupKind::IgnoreDirs) {
                            '\n'
                        } else {
                            '/'
                        };
                        let (text, cursor) = remove_part(
                            self.popup_input.as_str(),
                            self.popup_cursor,
                            sep,
                        );
                        self.set_popup_input(text, cursor);
                    }
                } else if !alt && !(self.is_popup(PopupKind::MaxSize) && !is_size_char(c)) {
                    self.popup_type_char(c);
                }
            },
            _ => {},
        }
    }

    fn popup_replace(&mut self, c: char)
        ensures
            final(self)@ == old(self)@.popup_replaced(c),
    {
        self.popup_select_all = false;
        if self.is_popup(PopupKind::MaxSize) && !is_size_char(c) {
            return;
        }
        let mut text = String::new();
        text.push(c);
        assert(text@ == seq![c]);
        self.set_popup_input(text, 1);
    }

    fn on_popup_key(&mut self, key: KeyEvent)
        ensures
            final(self)@ == old(self)@.popup_key(key),
    {
        proof {
            reveal(AppView::popup_key);
        }
        if key.code != KeyCode::Enter {
            self.popup_error = None;
        }
        if self.popup_select_all {
            match key.code {
                KeyCode::Char(c) => {
                    if !key.modifiers.control && !key.modifiers.alt {
                        self.popup_replace(c);
                        return;
                    }
                    self.popup_select_all = false;
                },
                KeyCode::Backspace | KeyCode::Delete => {
                    self.popup_select_all = false;
                    let empty = String::new();
                    self.set_popup_input(empty, 0);
                    return;
                },
                KeyCode::Left | KeyCode::Home => {
                    self.popup_cursor = 0;
                    self.popup_select_all = false;
                    return;
                },
                KeyCode::Right | KeyCode::End => {
                    self.popup_cursor = char_count(self.popup_input.as_str());
                    self.popup_select_all = false;
                    return;
                },
                _ => {
                    self.popup_select_all = false;
                },
            }
        }
        self.on_popup_edit(key);
    }

    fn confirm_popup(&mut self)
        ensures
            final(self)@ == old(self)@.popup_confirmed(),
    {
        proof {
            reveal(AppView::popup_confirmed);
        }
        match self.popup {
            Some(PopupKind::Path) => self.confirm_path(),
            Some(PopupKind::IgnoreDirs) => self.confirm_ignore_dirs(),
            Some(PopupKind::MaxSize) => self.confirm_max_size(),
            None => {},
        }
    }

    fn close_popup(&mut self)
        ensures
            final(self)@ == old(self)@.popup_closed(),
    {
        self.popup = None;
        self.popup_error = None;
    }

    fn fail_popup(&mut self, before: &str, raw: &str, after: &str)
        ensures
            final(self)@ == old(self)@.popup_failed(before@ + raw@ + after@),
    {
        let mut msg = before.to_owned();
        msg.append(raw);
        msg.append(after);
        self.popup_error = Some(msg);
    }

    fn confirm_path(&mut self)
        ensures
            final(self)@ == old(self)@.path_confirmed(),
    {
        let raw = trim_str(self.popup_input.as_str());
        if raw.as_str().is_empty() {
            self.close_popup();
            return;
        }
        let expanded = expand_tilde(raw.as_str(), &self.home);
        if is_only_slashes(expanded.as_str()) {
            self.fail_popup("路径无效: ", raw.as_str(), "");
            proof {
                reveal_strlit("");
            }
            assert("路径无效: "@ + raw@ + ""@ == "路径无效: "@ + raw@);
            return;
        }
        self.add_effect(Effect::CheckPath { raw, expanded });
    }

    fn confirm_ignore_dirs(&mut self)
        ensures
            final(self)@ == old(self)@.dirs_confirmed(),
    {
        let plain = decode_escapes(self.popup_input.as_str());
        let lines = split_str(plain.as_str(), '\n');
        let ghost home = self@.home;
        let mut dirs: Vec<DirRequest> = Vec::new();
        let mut i: usize = 0;
        assert(texts(lines@).take(0).len() == 0);
        assert(request_views(dirs@) == Seq::<(Seq<char>, Seq<char>)>::empty());
        while i < lines.len()
            invariant
                i <= lines@.len(),
                home == opt_text(self.home),
                request_views(dirs@) == requested_dirs(texts(lines@).take(i as int), home),
            decreases lines@.len() - i,
        {
            let part = trim_str(lines[i].as_str());
            let ghost now = texts(lines@).take(i + 1);
            assert(now.drop_last() == texts(lines@).take(i as int));
            assert(now.last() == lines@[i as int]@);
            let ghost before = request_views(dirs@);
            if !part.as_str().is_empty() {
                let expanded = expand_tilde(part.as_str(), &self.home);
                let ghost pair = (part@, expanded@);
                dirs.push(DirRequest { part, expanded });
                assert(request_views(dirs@) == before.push(pair));
            }
            i += 1;
        }
        assert(texts(lines@).take(i as int) == texts(lines@));
        if dirs.len() == 0 {
            assert(request_views(dirs@).len() == 0);
            let none: Vec<String> = Vec::new();
            assert(texts(none@) == Seq::<Seq<char>>::empty());
            self.set_ignore_dirs(none);
        } else {
            self.add_effect(Effect::CheckDirs { dirs });
        }
    }

    fn confirm_max_size(&mut self)
        ensures
            final(self)@ == old(self)@.size_confirmed(),
    {
        let raw = trim_str(self.popup_input.as_str());
        if !is_written_as_size(raw.as_str()) {
            self.fail_popup("无效大小: ", raw.as_str(), "（示例：10 或 0.2）");
            return;
        }
        self.add_effect(Effect::ReadSize { raw });
    }

    fn save_config(&mut self)
        ensures
            final(self)@ == old(self)@.config_saved(),
    {
        match text_of(&self.config_path) {
            Some(path) => self.add_effect(Effect::SaveConfig { path }),
            None => {},
        }
    }

    /// Reports that the settings could not be written.
    pub fn on_save_failed(&mut self, reason: &str)
        ensures
            final(self)@ == old(self)@.with_status("配置保存失败: "@ + reason@),
    {
        let mut msg = "配置保存失败: ".to_owned();
        msg.append(reason);
        self.set_status(msg.as_str());
    }

    fn research_after_settings_change(&mut self)
        ensures
            final(self)@ == old(self)@.settings_changed(),
    {
        self.file_lists = Vec::new();
        assert(file_list_views(self.file_lists@) == Seq::<FileListView>::empty());
        if !trim_str(self.last_query.as_str()).as_str().is_empty() {
            self.dispatch_search();
        }
    }

    fn set_ignore_dirs(&mut self, dirs: Vec<String>)
        ensures
            final(self)@ == old(self)@.dirs_set(texts(dirs@)),
    {
        self.ignore_dirs = dirs;
        self.close_popup();
        self.save_config();
        self.research_after_settings_change();
    }

    /// Reports what the search path that was asked for is: a directory that can be read becomes
    /// the search path, anything else is refused with a reason.
    pub fn on_path_checked(&mut self, raw: &str, check: PathCheck)
        ensures
            final(self)@ == (match check {
                PathCheck::Dir(path) => old(self)@.path_set(path@),
                PathCheck::NotDir => old(self)@.popup_failed("不是目录: "@ + raw@ + ""@),
                PathCheck::Unreadable(reason) => old(self)@.popup_failed(
                    "无法读取目录: "@ + raw@ + (" ("@ + reason@ + ")"@),
                ),
                PathCheck::NotFound => old(self)@.popup_failed("路径不存在: "@ + raw@ + ""@),
                PathCheck::Failed(reason) => old(self)@.popup_failed(
                    "路径无效: "@ + raw@ + (" ("@ + reason@ + ")"@),
                ),
            }),
    {
        match check {
            PathCheck::Dir(path) => {
                self.search_path = path;
                self.close_popup();
                self.dispatch_search();
            },
            PathCheck::NotDir => self.fail_popup("不是目录: ", raw, ""),
            PathCheck::Unreadable(reason) => {
                let why = bracketed(reason.as_str());
                self.fail_popup("无法读取目录: ", raw, why.as_str());
            },
            PathCheck::NotFound => self.fail_popup("路径不存在: ", raw, ""),
            PathCheck::Failed(reason) => {
                let why = bracketed(reason.as_str());
                self.fail_popup("路径无效: ", raw, why.as_str());
            },
        }
    }

    /// Reports what the directories are that were asked to be ignored: where all are directories
    /// they are taken, otherwise the first that is none is named.
    pub fn on_dirs_checked(&mut self, checks: Vec<(String, DirCheck)>)
        ensures
            final(self)@ == old(self)@.dirs_checked(check_views(checks@)),
    {
        let ghost all = check_views(checks@);
        let mut dirs: Vec<String> = Vec::new();
        let mut i: usize = 0;
        assert(all.skip(0) == all);
        assert(all.take(0).len() == 0);
        assert(texts(dirs@) == Seq::<Seq<char>>::empty());
        while i < checks.len()
            invariant
                i <= checks@.len(),
                all == check_views(checks@),
                self@ == old(self)@,
                dirs_error(all) == dirs_error(all.skip(i as int)),
                texts(dirs@) == dirs_found(all.take(i as int)),
            decreases checks@.len() - i,
        {
            let part = &checks[i].0;
            assert(all.skip(i as int)[0] == all[i as int]);
            assert(all.skip(i as int).drop_first() == all.skip(i + 1));
            assert(all.take(i + 1).drop_last() == all.take(i as int));
            assert(all[i as int] == (checks@[i as int].0@, checks@[i as int].1@));
            match &checks[i].1 {
                DirCheck::Dir(d) => {
                    let ghost before = texts(dirs@);
                    if !holds_text(&dirs, d.as_str()) {
                        dirs.push(d.clone());
                        assert(texts(dirs@) == before.push(d@));
                    }
                },
                DirCheck::NotDir => {
                    let mut msg = "不是目录: ".to_owned();
                    msg.append(part.as_str());
                    self.popup_error = Some(msg);
                    return;
                },
                DirCheck::Missing => {
                    let mut msg = "路径不存在: ".to_owned();
                    msg.append(part.as_str());
                    self.popup_error = Some(msg);
                    return;
                },
            }
            i += 1;
        }
        assert(all.skip(i as int).len() == 0);
        assert(all.take(i as int) == all);
        self.set_ignore_dirs(dirs);
    }

    /// Reports the size that a text stands for, or that it is no positive number.
    pub fn on_size_read(&mut self, raw: &str, limit: Option<SizeLimit>)
        ensures
            final(self)@ == (match limit {
                Some(l) => old(self)@.size_set(l.text@, l.bytes),
                None => old(self)@.popup_failed(bad_size(raw@)),
            }),
    {
        match limit {
            Some(l) => {
                self.max_size = l;
                self.close_popup();
                self.save_config();
                self.research_after_settings_change();
            },
            None => self.fail_popup("无效大小: ", raw, "（示例：10 或 0.2）"),
        }
    }

    // -------------------------------------------------------- pasting

    /// Takes pasted text.
    pub fn on_paste(&mut self, text: &str)
        ensures
            final(self)@ == old(self)@.pasted(text@),
    {
        proof {
            reveal(AppView::pasted);
        }
        match self.popup {
            Some(kind) => {
                let clean = if kind == PopupKind::IgnoreDirs {
                    clean_lines(text)
                } else {
                    clean_line(text)
                };
                self.popup_error = None;
                if self.popup_select_all {
                    let n: usize = char_count(clean.as_str());
                    self.popup_select_all = false;
                    self.set_popup_input(clean, n);
                } else {
                    self.popup_type(clean.as_str());
                }
            },
            None => {
                let new = encode_paste(text);
                self.type_text(new.as_str());
            },
        }
    }

    // -------------------------------------------------------- messages

    #[verifier::rlimit(60)]
    #[verifier::spinoff_prover]
    fn add_batch(&mut self, items: Vec<SearchResultItem>)
        ensures
            final(self)@ == old(self)@.batch_added(views(items@)),
    {
        proof {
            reveal(AppView::batch_added);
        }
        let running: bool = self.job;
        let before = self.selected_path();
        let mut all: Vec<SearchResultItem> = Vec::new();
        core::mem::swap(&mut all, &mut self.results);
        let mut more = items;
        all.append(&mut more);
        assert(views(all@) == old(self)@.results + views(items@));
        self.results = rank(all);
        let n: usize = self.results.len();
        match self.list_state.selected {
            Some(i) => {
                if n > 0 && i >= n {
                    self.list_state.selected = Some(n - 1);
                }
            },
            None => {},
        }
        if self.list_state.selected.is_none() && n > 0 {
            self.select_first();
        } else {
            let now = self.selected_path();
            if !same_paths(&now, &before) {
                self.preview_scroll = 0;
                self.request_preview();
            }
        }
        if n >= MAX_RESULTS && running {
            self.add_effect(Effect::CancelJob);
        }
    }

    #[verifier::rlimit(60)]
    #[verifier::spinoff_prover]
    fn receive(&mut self, msg: Msg)
        ensures
            final(self)@ == old(self)@.received(msg@),
    {
        match msg {
            Msg::SearchBatch { gen, items } => {
                if gen == self.search_gen {
                    self.add_batch(items);
                }
            },
            Msg::SearchDone { gen, content, items, new_file_list } => {
                match new_file_list {
                    Some((root, files)) => {
                        let made: u64 = self.now;
                        put_list(&mut self.file_lists, FileList { root, made, files });
                    },
                    None => {},
                }
                if gen == self.search_gen {
                    self.searching = false;
                    if !content {
                        self.results = items;
                        self.select_first();
                    }
                }
            },
            Msg::PreviewDone { gen, path, width, preview } => {
                let shared = Arc::new(preview);
                put_preview(
                    &mut self.preview_cache,
                    CachedPreview { path: path.clone(), width, preview: share(&shared) },
                );
                if gen == self.preview_gen && width == self.preview_width {
                    self.preview = Some(shared);
                    self.preview_path = Some(path);
                    self.preview_loading = false;
                }
            },
        }
    }

    /// Takes in the messages that came, and takes away a message whose time is over.
    #[verifier::rlimit(60)]
    #[verifier::spinoff_prover]
    pub fn tick(&mut self)
        ensures
            final(self)@ == old(self)@.ticked(),
    {
        let mut front: Vec<Msg> = Vec::new();
        core::mem::swap(&mut front, &mut self.inbox);
        let ghost all = msg_views(front@);
        let ghost start = self@;
        assert(msg_views(self.inbox@) == Seq::<MsgView>::empty());
        assert(start == (AppView { inbox: Seq::empty(), ..old(self)@ }));
        let mut back: Vec<Msg> = Vec::new();
        while front.len() > 0
            invariant
                self@ == start,
                front@.len() <= all.len(),
                msg_views(front@) == all.take(front@.len() as int),
                msg_views(back@) == all.skip(front@.len() as int).reverse(),
            decreases front@.len(),
        {
            let ghost n = front@.len() as int;
            let ghost before = msg_views(back@);
            assert(msg_views(front@)[n - 1] == front@[n - 1]@);
            let m = front.pop().unwrap();
            back.push(m);
            assert(msg_views(back@) == before.push(all[n - 1]));
            assert(all.skip(n - 1).reverse() == before.push(all[n - 1]));
            assert(msg_views(front@) == all.take(n - 1));
        }
        assert(all.skip(0) == all);
        let ghost reversed = msg_views(back@);
        let ghost mut done: int = 0;
        assert(all.take(0).len() == 0);
        while back.len() > 0
            invariant
                reversed == all.reverse(),
                0 <= done <= all.len(),
                back@.len() == all.len() - done,
                msg_views(back@) == reversed.take(back@.len() as int),
                self@ == start.received_all(all.take(done)),
            decreases back@.len(),
        {
            let ghost n = back@.len() as int;
            assert(msg_views(back@)[n - 1] == back@[n - 1]@);
            let m = back.pop().unwrap();
            assert(m@ == all[done]);
            assert(msg_views(back@) == reversed.take(n - 1));
            assert(all.take(done + 1).drop_last() == all.take(done));
            self.receive(m);
            proof {
                done = done + 1;
            }
        }
        assert(all.take(done) == all);
        let old_status: bool = match &self.status {
            Some((_, since)) => self.now.saturating_sub(*since) > STATUS_TTL,
            None => false,
        };
        if old_status {
            self.status = None;
        }
    }

    /// Makes the preview anew after the size of the screen changed.
    pub fn after_resize(&mut self)
        ensures
            final(self)@ == (if old(self)@.preview_path is Some {
                old(self)@.preview_requested()
            } else {
                old(self)@
            }),
    {
        if self.preview_path.is_some() {
            self.request_preview();
        }
    }

    /// Moves the list so that `height` lines show the selected result.
    pub fn ensure_list_visible(&mut self, height: usize)
        ensures
            final(self)@ == old(self)@.list_shown(height as int),
    {
        if height == 0 {
            return;
        }
        let offset: usize = match self.list_state.selected {
            Some(i) => {
                if i < self.list_offset {
                    i
                } else if i - self.list_offset >= height {
                    i - height + 1
                } else {
                    self.list_offset
                }
            },
            None => 0,
        };
        let most: usize = self.results.len().saturating_sub(height);
        self.list_offset =
        if offset <= most {
            offset
        } else {
            most
        };
    }
}

fn bracketed(reason: &str) -> (r: String)
    ensures
        r@ == " ("@ + reason@ + ")"@,
{
    let mut r = " (".to_owned();
    r.append(reason);
    r.append(")");
    r
}

fn same_paths(a: &Option<String>, b: &Option<String>) -> (r: bool)
    ensures
        r == same_opt_path(opt_text(*a), opt_text(*b)),
{
    match a {
        Some(p) => match b {
            Some(q) => names_same_path(p.as_str(), q.as_str()),
            None => false,
        },
        None => b.is_none(),
    }
}

} // verus!
