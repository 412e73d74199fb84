//! What holds of the program whatever keys are pressed and whatever comes back from the
//! background.

use crate::edit::{
    at_end, at_start, backspaced, deleted, edits_stay_in_text, emptied, in_text, inserted,
    moved_left, moved_right, part_removed, Field,
};
use crate::keys::{KeyCode, KeyEvent, KeyEventKind};
use crate::paths::{absolute, same_path};
use crate::preview::PreviewView;
use crate::search::{
    best, best_is_ordered, exclude_globs, ItemView, SearchMode, SearchResultItem, MAX_RESULTS,
};
use crate::sort::in_order;
use crate::state::{
    dirs_found, elapsed, kept_preview, next_gen, path_shown, tilde_expanded, valid_list, with_list,
    with_preview, AppView, CachedView, DirCheckView, EffectView, FileListView, MsgView, PopupKind,
    FILE_LIST_TTL, PREVIEW_CACHE_MAX,
};
use crate::text::{strip_prefix, trim};
use vstd::prelude::*;

verus! {

// ------------------------------------------------------------ generations

/// A stopped search is over: what is still on its way from it changes nothing.
pub proof fn cancelled_search_sends_nothing(v: AppView, items: Seq<ItemView>)
    ensures
        v.cancelled().search_gen != v.search_gen,
        v.cancelled().received(MsgView::SearchBatch { gen: v.search_gen, items })
            == v.cancelled(),
{
}

/// A batch of another search than the present one changes nothing.
pub proof fn stale_batch_is_ignored(v: AppView, gen: u64, items: Seq<ItemView>)
    requires
        gen != v.search_gen,
    ensures
        v.received(MsgView::SearchBatch { gen, items }) == v,
{
}

/// The end of another search than the present one changes neither the results nor the selection,
/// and the present one goes on.
pub proof fn stale_end_is_ignored(
    v: AppView,
    gen: u64,
    content: bool,
    items: Seq<ItemView>,
    list: Option<(Seq<char>, Seq<Seq<char>>)>,
)
    requires
        gen != v.search_gen,
    ensures
        ({
            let w = v.received(
                MsgView::SearchDone { gen, content, items, new_file_list: list },
            );
            w.results == v.results && w.selected == v.selected && w.searching == v.searching
                && w.preview == v.preview
        }),
{
}

/// A preview that was asked for before another one is kept, but not shown.
pub proof fn stale_preview_is_not_shown(
    v: AppView,
    gen: u64,
    path: Seq<char>,
    width: u16,
    preview: PreviewView,
)
    requires
        gen != v.preview_gen,
    ensures
        ({
            let w = v.received(MsgView::PreviewDone { gen, path, width, preview });
            w.preview == v.preview && w.preview_path == v.preview_path && w.preview_loading
                == v.preview_loading
        }),
{
}

/// A new search has a generation of its own, remembers its query, and leaves the input clean.
pub proof fn search_takes_the_input(v: AppView)
    ensures
        v.search_started().search_gen == next_gen(next_gen(v.search_gen)),
        v.search_started().search_gen != v.search_gen,
        v.search_started().last_query == v.input,
        !v.search_started().dirty(),
        v.search_started().searching == (trim(v.input).len() > 0),
{
    reveal(AppView::search_started);
    reveal(AppView::first_selected);
    reveal(AppView::preview_requested);
}

/// A running search is stopped before the next one starts, and the next one asks for the trimmed
/// input under the new generation.
pub proof fn restart_stops_the_old_search(v: AppView)
    ensures
        v.job && trim(v.input).len() > 0 ==> {
            let effects = v.search_started().effects;
            &&& effects.len() == v.effects.len() + 2
            &&& effects[v.effects.len() as int] == EffectView::CancelJob
        },
        trim(v.input).len() > 0 ==> match v.search_started().effects.last() {
            EffectView::SearchFiles { gen, root, query, .. } => v.mode == SearchMode::FileName
                && gen == v.search_started().search_gen && root == v.search_path && query == trim(
                v.input,
            ),
            EffectView::SearchContent { gen, root, query, .. } => v.mode == SearchMode::Content
                && gen == v.search_started().search_gen && root == v.search_path && query == trim(
                v.input,
            ),
            _ => false,
        },
{
    reveal(AppView::search_started);
}

// ------------------------------------------------------------ results and selection

/// The selected result is one of the results.
pub open spec fn selection_valid(v: AppView) -> bool {
    v.selected matches Some(i) ==> i < v.results.len()
}

proof fn preview_keeps_selection(v: AppView)
    ensures
        v.preview_requested().selected == v.selected,
        v.preview_requested().results == v.results,
        v.preview_requested().search_gen == v.search_gen,
        v.preview_requested().input == v.input,
        v.preview_requested().cursor == v.cursor,
        v.preview_requested().popup_input == v.popup_input,
        v.preview_requested().popup_cursor == v.popup_cursor,
        v.preview_requested().should_quit == v.should_quit,
        v.preview_requested().searching == v.searching,
        v.preview_requested().popup == v.popup,
{
    reveal(AppView::preview_requested);
}

proof fn first_selected_is_valid(v: AppView)
    ensures
        selection_valid(v.first_selected()),
        v.first_selected().results == v.results,
        v.first_selected().input == v.input,
        v.first_selected().cursor == v.cursor,
        v.first_selected().popup_input == v.popup_input,
        v.first_selected().popup_cursor == v.popup_cursor,
        v.first_selected().should_quit == v.should_quit,
        v.first_selected().searching == v.searching,
        v.first_selected().popup == v.popup,
{
    reveal(AppView::first_selected);
    reveal(AppView::preview_requested);
}

proof fn search_started_keeps(v: AppView)
    ensures
        selection_valid(v) ==> selection_valid(v.search_started()),
        v.search_started().input == v.input,
        v.search_started().cursor == v.cursor,
        v.search_started().popup_input == v.popup_input,
        v.search_started().popup_cursor == v.popup_cursor,
        v.search_started().should_quit == v.should_quit,
        v.search_started().popup == v.popup,
{
    reveal(AppView::search_started);
    let c = v.cancelled();
    let w = AppView {
        search_gen: next_gen(c.search_gen),
        last_query: v.input,
        searching: false,
        results: Seq::empty(),
        ..c
    };
    first_selected_is_valid(w);
}

/// A batch leaves no more results than a search gives, in their order, and a valid selection.
pub proof fn batch_keeps_results_ordered(v: AppView, items: Seq<ItemView>)
    requires
        selection_valid(v),
        v.results.len() <= MAX_RESULTS,
    ensures
        v.batch_added(items).results == best(v.results + items),
        v.batch_added(items).results.len() <= MAX_RESULTS,
        in_order::<SearchResultItem>(v.batch_added(items).results),
        selection_valid(v.batch_added(items)),
{
    reveal(AppView::batch_added);
    let results = best(v.results + items);
    best_is_ordered(v.results + items);
    best_keeps_some(v.results + items);
    let selected = match v.selected {
        Some(i) => if results.len() > 0 && i >= results.len() {
            Some((results.len() - 1) as usize)
        } else {
            Some(i)
        },
        None => None,
    };
    let w = AppView { results, selected, ..v };
    first_selected_is_valid(w);
    preview_keeps_selection(AppView { preview_scroll: 0, ..w });
}

proof fn best_keeps_some(items: Seq<ItemView>)
    ensures
        items.len() > 0 ==> best(items).len() > 0,
{
    crate::sort::sorted_len::<SearchResultItem>(items);
}

/// Whatever message comes, the selection stays valid.
pub proof fn messages_keep_selection_valid(v: AppView, msg: MsgView)
    requires
        selection_valid(v),
        v.results.len() <= MAX_RESULTS,
    ensures
        selection_valid(v.received(msg)),
{
    match msg {
        MsgView::SearchBatch { gen, items } => {
            if gen == v.search_gen {
                batch_keeps_results_ordered(v, items);
            }
        },
        MsgView::SearchDone { gen, content, items, new_file_list } => {
            let w = match new_file_list {
                Some((root, files)) => AppView {
                    file_lists: with_list(
                        v.file_lists,
                        FileListView { root, made: v.now, files },
                    ),
                    ..v
                },
                None => v,
            };
            first_selected_is_valid(AppView { searching: false, results: items, ..w });
        },
        MsgView::PreviewDone { gen, path, width, preview } => {},
    }
}

/// Of a valid selection in a list of `height` lines, the selected result is among those shown.
pub proof fn selected_result_is_shown(v: AppView, height: int)
    requires
        height > 0,
        v.list_offset >= 0,
        selection_valid(v),
        v.selected is Some,
    ensures
        v.list_shown(height).list_offset <= v.selected->0 < v.list_shown(height).list_offset
            + height,
{
}

// ------------------------------------------------------------ keys

/// Esc stops a running search, and does not end the program then.
pub proof fn esc_stops_a_search(v: AppView, key: KeyEvent)
    requires
        key.code == KeyCode::Esc,
        key.kind != KeyEventKind::Release,
        v.popup is None,
        v.searching,
    ensures
        !v.on_key(key).searching,
        v.on_key(key).should_quit == v.should_quit,
        v.on_key(key).search_gen != v.search_gen,
{
}

/// Esc ends the program where no popup is open and no search is running.
pub proof fn esc_quits(v: AppView, key: KeyEvent)
    requires
        key.code == KeyCode::Esc,
        key.kind != KeyEventKind::Release,
        v.popup is None,
        !v.searching,
    ensures
        v.on_key(key).should_quit,
{
}

/// Typing starts no search: a character, a line break or pasted text changes the input only.
pub proof fn typing_starts_no_search(v: AppView, key: KeyEvent, text: Seq<char>)
    requires
        v.popup is None,
        key.kind != KeyEventKind::Release,
        (key.code is Char && !key.modifiers.control && !key.modifiers.alt) || (key.code
            == KeyCode::Enter && key.modifiers.shift),
    ensures
        v.on_key(key) == (AppView {
            input: v.on_key(key).input,
            cursor: v.on_key(key).cursor,
            ..v
        }),
        v.pasted(text) == (AppView { input: v.pasted(text).input, cursor: v.pasted(text).cursor, ..v }),
{
    reveal(AppView::pasted);
}

/// Copying a path neither ends the program nor stops a search.
pub proof fn copying_changes_little(v: AppView, key: KeyEvent)
    requires
        key.code == KeyCode::Char('c'),
        key.modifiers.control,
    ensures
        v.on_key(key).should_quit == v.should_quit,
        v.on_key(key).searching == v.searching,
        v.on_key(key).search_gen == v.search_gen,
{
    reveal(AppView::control_key);
    reveal(AppView::popup_key);
    reveal(AppView::popup_edit);
}

/// A released key changes nothing.
pub proof fn release_is_ignored(v: AppView, key: KeyEvent)
    requires
        key.kind == KeyEventKind::Release,
    ensures
        v.on_key(key) == v,
        v.opened_by(key) is None,
{
}

/// Tab changes the mode and searches again; twice gives the first mode back.
pub proof fn tab_changes_the_mode(v: AppView, key: KeyEvent)
    requires
        key.code == KeyCode::Tab,
        key.kind != KeyEventKind::Release,
        v.popup is None,
    ensures
        v.on_key(key).mode == v.mode.other(),
        v.on_key(key).search_gen != v.search_gen,
        v.on_key(key).on_key(key).mode == v.mode,
{
    let w = AppView { mode: v.mode.other(), ..v };
    search_takes_the_input(w);
    search_started_mode(w);
    search_started_keeps(w);
    let x = w.search_started();
    search_started_mode(AppView { mode: x.mode.other(), ..x });
}

proof fn search_started_mode(v: AppView)
    ensures
        v.search_started().mode == v.mode,
{
    reveal(AppView::search_started);
    reveal(AppView::first_selected);
    reveal(AppView::preview_requested);
}

/// The cursors stand in their texts, and the selection is valid.
pub open spec fn well_formed(v: AppView) -> bool {
    &&& in_text(v.field())
    &&& in_text(v.popup_field())
    &&& selection_valid(v)
}

/// The texts are not longer than a text can be.
pub open spec fn texts_fit(v: AppView) -> bool {
    v.input.len() <= usize::MAX && v.popup_input.len() <= usize::MAX
}

/// Whether `w` ends the program only where `v` does, and is well-formed where `v` is.
spec fn kept(v: AppView, w: AppView) -> bool {
    &&& w.should_quit == v.should_quit
    &&& well_formed(v) && texts_fit(w) ==> well_formed(w)
}

proof fn search_kept(v: AppView)
    ensures
        kept(v, v.search_started()),
{
    search_started_keeps(v);
}

proof fn preview_kept(v: AppView)
    ensures
        kept(v, v.preview_requested()),
{
    preview_keeps_selection(v);
}

proof fn settings_kept(v: AppView)
    ensures
        kept(v, v.settings_changed()),
        kept(v, v.config_saved()),
{
    search_kept(AppView { file_lists: Seq::empty(), ..v });
}

proof fn dirs_set_kept(v: AppView, dirs: Seq<Seq<char>>)
    ensures
        kept(v, v.dirs_set(dirs)),
{
    let w = AppView { ignore_dirs: dirs, ..v }.popup_closed();
    settings_kept(w);
    settings_kept(w.config_saved());
}

proof fn confirm_kept(v: AppView)
    ensures
        kept(v, v.popup_confirmed()),
{
    reveal(AppView::popup_confirmed);
    dirs_set_kept(v, Seq::empty());
}

proof fn field_kept(v: AppView, f: Field)
    requires
        in_text(v.popup_field()) && f.text.len() <= usize::MAX ==> in_text(f),
    ensures
        kept(v, v.with_popup_field(f)),
{
    assert(v.with_popup_field(f).popup_field() == f);
    assert(v.with_popup_field(f).field() == v.field());
}

#[verifier::spinoff_prover]
proof fn edit_kept(v: AppView, key: KeyEvent)
    ensures
        kept(v, v.popup_edit(key)),
{
    reveal(AppView::popup_edit);
    let f = v.popup_field();
    let sep = if v.popup == Some(PopupKind::IgnoreDirs) {
        '\n'
    } else {
        '/'
    };
    if in_text(f) {
        edits_stay_in_text(f, sep);
    }
    match key.code {
        KeyCode::Enter => {
            confirm_kept(v);
            field_kept(v, inserted(f, seq!['\n']));
        },
        KeyCode::Backspace => field_kept(v, backspaced(f)),
        KeyCode::Delete => field_kept(v, deleted(f)),
        KeyCode::Left => field_kept(v, moved_left(f)),
        KeyCode::Right => field_kept(v, moved_right(f)),
        KeyCode::Home => field_kept(v, at_start(f)),
        KeyCode::End => field_kept(v, at_end(f)),
        KeyCode::Char(c) => {
            field_kept(v, emptied());
            field_kept(v, part_removed(f, sep));
            field_kept(v, inserted(f, seq![c]));
        },
        _ => {},
    }
}

proof fn popup_kept(v: AppView, key: KeyEvent)
    ensures
        kept(v, v.popup_key(key)),
{
    reveal(AppView::popup_key);
    let e = AppView { popup_error: None, ..v };
    edit_kept(v, key);
    edit_kept(e, key);
    edit_kept(AppView { popup_select_all: false, ..v }, key);
    edit_kept(AppView { popup_select_all: false, ..e }, key);
}

proof fn moves_kept(v: AppView, delta: int)
    ensures
        kept(v, v.selection_moved(delta)),
        kept(v, v.preview_scrolled(delta)),
        kept(v, v.cursor_moved_by_rows(delta)),
{
    reveal(AppView::selection_moved);
    reveal(AppView::cursor_moved_by_rows);
    crate::wrap::cursor_moved_stays_in_text(
        v.input,
        v.cursor,
        crate::wrap::at_least_one(v.input_inner_width),
        true,
        delta,
    );
    let from = match v.selected {
        Some(i) => i as int,
        None => 0,
    };
    let to = crate::state::clamped(from + delta, 0, v.results.len() - 1) as usize;
    preview_kept(AppView { selected: Some(to), preview_scroll: 0, ..v });
}

proof fn opened_kept(v: AppView, kind: PopupKind)
    ensures
        kept(v, v.popup_opened(kind)),
{
    reveal(AppView::popup_opened);
}

proof fn control_kept(v: AppView, c: char, alt: bool)
    ensures
        kept(v, v.control_key(c, alt)),
{
    reveal(AppView::control_key);
    opened_kept(v, PopupKind::Path);
    opened_kept(v, PopupKind::IgnoreDirs);
    opened_kept(v, PopupKind::MaxSize);
    moves_kept(v, 3);
    moves_kept(v, -3);
    moves_kept(v, 1);
    moves_kept(v, -1);
}

proof fn main_kept(v: AppView, key: KeyEvent)
    requires
        key.code != KeyCode::Esc,
    ensures
        kept(v, v.main_key(key)),
{
    let c = match key.code {
        KeyCode::Char(c) => c,
        _ => '\n',
    };
    control_kept(v, c, key.modifiers.alt);
    moves_kept(v, 1);
    moves_kept(v, -1);
    moves_kept(v, 10);
    moves_kept(v, -10);
    search_kept(v);
    search_kept(AppView { mode: v.mode.other(), ..v });
    if well_formed(v) {
        edits_stay_in_text(v.field(), '/');
    }
}

/// Only Esc ends the program, and only while no popup is open and no search is running.
pub proof fn only_esc_quits(v: AppView, key: KeyEvent)
    ensures
        v.on_key(key).should_quit != v.should_quit ==> key.code == KeyCode::Esc && v.popup is None
            && !v.searching,
{
    popup_kept(v, key);
    if key.code != KeyCode::Esc {
        main_kept(v, key);
    }
}

/// Whatever key is pressed, the cursors stay in their texts and the selection stays valid.
pub proof fn keys_keep_well_formed(v: AppView, key: KeyEvent)
    requires
        well_formed(v),
        texts_fit(v.on_key(key)),
    ensures
        well_formed(v.on_key(key)),
{
    popup_kept(v, key);
    if key.code != KeyCode::Esc {
        main_kept(v, key);
    }
}

/// Pasting keeps the cursors in their texts.
pub proof fn pasting_keeps_well_formed(v: AppView, text: Seq<char>)
    requires
        well_formed(v),
        texts_fit(v.pasted(text)),
    ensures
        well_formed(v.pasted(text)),
{
    reveal(AppView::pasted);
}

/// Whatever was found outside of what a popup asked for, the state stays well-formed and the
/// program goes on.
pub proof fn answers_keep_well_formed(
    v: AppView,
    path: Seq<char>,
    checks: Seq<(Seq<char>, DirCheckView)>,
    text: Seq<char>,
    bytes: u64,
)
    requires
        well_formed(v),
        texts_fit(v),
    ensures
        well_formed(v.path_set(path)),
        well_formed(v.dirs_checked(checks)),
        well_formed(v.size_set(text, bytes)),
        v.path_set(path).should_quit == v.should_quit,
        v.dirs_checked(checks).should_quit == v.should_quit,
        v.size_set(text, bytes).should_quit == v.should_quit,
{
    search_kept(AppView { search_path: path, ..v }.popup_closed());
    search_keeps_texts(AppView { search_path: path, ..v }.popup_closed());
    let d = AppView { ignore_dirs: dirs_found(checks), ..v }.popup_closed();
    settings_kept(d.config_saved());
    settings_keep_texts(d.config_saved());
    let z = AppView { size_text: text, size_bytes: bytes, ..v }.popup_closed();
    settings_kept(z.config_saved());
    settings_keep_texts(z.config_saved());
}

proof fn search_keeps_texts(v: AppView)
    ensures
        v.search_started().input == v.input,
        v.search_started().popup_input == v.popup_input,
{
    reveal(AppView::search_started);
    reveal(AppView::first_selected);
    reveal(AppView::preview_requested);
}

proof fn settings_keep_texts(v: AppView)
    ensures
        v.settings_changed().input == v.input,
        v.settings_changed().popup_input == v.popup_input,
{
    search_keeps_texts(AppView { file_lists: Seq::empty(), ..v });
}

// ------------------------------------------------------------ popups

/// Opening a popup selects its text, so that the next character typed replaces it.
pub proof fn typing_replaces_selected_text(v: AppView, kind: PopupKind, key: KeyEvent, c: char)
    requires
        key.kind != KeyEventKind::Release,
        key.code == KeyCode::Char(c),
        !key.modifiers.control,
        !key.modifiers.alt,
        kind != PopupKind::MaxSize || crate::state::size_char(c),
    ensures
        v.popup_opened(kind).popup == Some(kind),
        v.popup_opened(kind).popup_select_all,
        v.popup_opened(kind).on_key(key).popup_input == seq![c],
        v.popup_opened(kind).on_key(key).popup_cursor == 1,
        !v.popup_opened(kind).on_key(key).popup_select_all,
{
    reveal(AppView::popup_opened);
    reveal(AppView::popup_key);
}

/// Any key but Enter removes the error of a popup.
pub proof fn editing_removes_the_error(v: AppView, key: KeyEvent)
    requires
        v.popup is Some,
        key.kind != KeyEventKind::Release,
        key.code != KeyCode::Enter,
    ensures
        v.on_key(key).popup_error is None,
{
    reveal(AppView::popup_key);
    reveal(AppView::popup_edit);
}

/// A refused directory leaves everything as it was but for the error.
pub proof fn refused_dirs_change_nothing(v: AppView, checks: Seq<(Seq<char>, DirCheckView)>)
    requires
        crate::state::dirs_error(checks) is Some,
    ensures
        v.dirs_checked(checks) == (AppView {
            popup_error: crate::state::dirs_error(checks),
            ..v
        }),
{
}

/// No directory is ignored twice, and those that are ignored are those that were found.
pub proof fn ignored_dirs_are_found_once(checks: Seq<(Seq<char>, DirCheckView)>)
    ensures
        forall|i: int, j: int|
            0 <= i < j < dirs_found(checks).len() ==> dirs_found(checks)[i] != dirs_found(
                checks,
            )[j],
        forall|d: Seq<char>| #[trigger]
            dirs_found(checks).contains(d) <==> exists|k: int|
                0 <= k < checks.len() && #[trigger] checks[k].1 == DirCheckView::Dir(d),
    decreases checks.len(),
{
    if checks.len() > 0 {
        let front = checks.drop_last();
        let last = checks.last().1;
        ignored_dirs_are_found_once(front);
        let before = dirs_found(front);
        assert forall|d: Seq<char>| #[trigger] dirs_found(checks).contains(d) <==> exists|k: int|
            0 <= k < checks.len() && #[trigger] checks[k].1 == DirCheckView::Dir(d) by {
            if dirs_found(checks).contains(d) {
                if before.contains(d) {
                    let k = choose|k: int|
                        0 <= k < front.len() && #[trigger] front[k].1 == DirCheckView::Dir(d);
                    assert(checks[k].1 == DirCheckView::Dir(d));
                } else {
                    assert(checks[checks.len() - 1].1 == DirCheckView::Dir(d));
                }
            }
            if exists|k: int| 0 <= k < checks.len() && #[trigger] checks[k].1 == DirCheckView::Dir(d) {
                let k = choose|k: int|
                    0 <= k < checks.len() && #[trigger] checks[k].1 == DirCheckView::Dir(d);
                if k < front.len() {
                    assert(front[k].1 == DirCheckView::Dir(d));
                    assert(dirs_found(front).contains(d));
                    let i = choose|i: int| 0 <= i < before.len() && before[i] == d;
                    assert(dirs_found(checks)[i] == d);
                } else {
                    assert(last == DirCheckView::Dir(d));
                    if before.contains(d) {
                        assert(dirs_found(checks) == before);
                    } else {
                        assert(dirs_found(checks)[before.len() as int] == d);
                    }
                }
            }
        }
    }
}

/// New settings take effect at once: no list of files made with the old ones is used again.
pub proof fn new_settings_drop_lists(
    v: AppView,
    dirs: Seq<Seq<char>>,
    text: Seq<char>,
    bytes: u64,
)
    ensures
        v.size_set(text, bytes).file_lists.len() == 0,
        v.size_set(text, bytes).size_bytes == bytes,
        v.size_set(text, bytes).popup is None,
        v.dirs_set(dirs).file_lists.len() == 0,
        v.dirs_set(dirs).ignore_dirs == dirs,
        v.dirs_set(dirs).popup is None,
{
    reveal(AppView::search_started);
    reveal(AppView::first_selected);
    reveal(AppView::preview_requested);
}

// ------------------------------------------------------------ what is kept

proof fn no_list_kept(lists: Seq<FileListView>, new: FileListView, now: u64)
    requires
        forall|i: int| 0 <= i < lists.len() ==> !same_path((#[trigger] lists[i]).root, new.root),
    ensures
        valid_list(lists.push(new), new.root, now) == if elapsed(new.made, now) < FILE_LIST_TTL {
            Some(new.files)
        } else {
            None
        },
    decreases lists.len(),
{
    let all = lists.push(new);
    if lists.len() == 0 {
        assert(all[0] == new);
    } else {
        assert(all[0] == lists[0]);
        let rest = lists.drop_first();
        assert forall|i: int| 0 <= i < rest.len() implies !same_path(
            (#[trigger] rest[i]).root,
            new.root,
        ) by {
            assert(rest[i] == lists[i + 1]);
        }
        no_list_kept(rest, new, now);
        assert(all.drop_first() == rest.push(new));
    }
}

/// A list of files that was put away is found again for its directory until its time is over.
pub proof fn kept_list_is_found(lists: Seq<FileListView>, new: FileListView, now: u64)
    ensures
        valid_list(with_list(lists, new), new.root, now) == if elapsed(new.made, now)
            < FILE_LIST_TTL {
            Some(new.files)
        } else {
            None
        },
{
    let other = |l: FileListView| !same_path(l.root, new.root);
    let left = lists.filter(other);
    filtered_satisfies(lists, other);
    no_list_kept(left, new, now);
}

/// A preview that was put away is found again for its path and width, and there are never more
/// than the cache holds.
pub proof fn kept_preview_is_found(cache: Seq<CachedView>, new: CachedView)
    ensures
        kept_preview(with_preview(cache, new), new.path, new.width) == Some(new.preview),
        with_preview(cache, new).len() <= PREVIEW_CACHE_MAX,
{
    let room = if cache.len() >= PREVIEW_CACHE_MAX {
        Seq::empty()
    } else {
        cache
    };
    let other = |c: CachedView| !(c.width == new.width && same_path(c.path, new.path));
    let left = room.filter(other);
    filtered_satisfies(room, other);
    no_preview_kept(left, new);
}

proof fn no_preview_kept(cache: Seq<CachedView>, new: CachedView)
    requires
        forall|i: int|
            0 <= i < cache.len() ==> !((#[trigger] cache[i]).width == new.width && same_path(
                cache[i].path,
                new.path,
            )),
    ensures
        kept_preview(cache.push(new), new.path, new.width) == Some(new.preview),
    decreases cache.len(),
{
    let all = cache.push(new);
    if cache.len() == 0 {
        assert(all[0] == new);
    } else {
        assert(all[0] == cache[0]);
        let rest = cache.drop_first();
        assert forall|i: int| 0 <= i < rest.len() implies !((#[trigger] rest[i]).width == new.width
            && same_path(rest[i].path, new.path)) by {
            assert(rest[i] == cache[i + 1]);
        }
        no_preview_kept(rest, new);
        assert(all.drop_first() == rest.push(new));
    }
}

proof fn filtered_satisfies<A>(s: Seq<A>, f: spec_fn(A) -> bool)
    ensures
        forall|i: int| 0 <= i < s.filter(f).len() ==> f(#[trigger] s.filter(f)[i]),
        s.filter(f).len() <= s.len(),
    decreases s.len(),
{
    reveal(Seq::filter);
    if s.len() > 0 {
        filtered_satisfies(s.drop_last(), f);
    }
}

// ------------------------------------------------------------ paths

/// The path that a popup shows stands for the path itself, so that confirming it unchanged
/// changes nothing.
pub proof fn shown_path_expands_back(path: Seq<char>, home: Option<Seq<char>>)
    requires
        absolute(path),
    ensures
        tilde_expanded(path_shown(path, home), home) == path,
{
    reveal_strlit("~");
    reveal_strlit("~/");
    reveal_strlit("/");
    if let Some(h) = home {
        if path != h {
            match strip_prefix(path, h + "/"@) {
                Some(rest) => {
                    let shown = "~/"@ + rest;
                    assert(shown.len() >= 2);
                    assert(shown != "~"@) by {
                        assert(shown.len() > "~"@.len());
                    }
                    assert(shown.take(2) == "~/"@);
                    assert(shown.skip(2) == rest);
                    assert(path == path.take((h + "/"@).len() as int) + rest);
                },
                None => {
                    assert(path[0] != '~');
                    assert(path != "~"@);
                    assert(path.take(2)[0] == '/' || path.len() < 2);
                },
            }
        }
    }
}

/// `rg` is always told to leave out `.git`.
pub proof fn git_is_always_left_out(root: Seq<char>, extra: Seq<Seq<char>>)
    ensures
        exclude_globs(root, extra).contains("!.git"@),
{
    assert(exclude_globs(root, extra)[0] == "!.git"@);
}

} // verus!
