//! What each key does, seen from outside: which part of the state changes, and how.

use crate::escapes::decoded;
use crate::keys::{KeyCode, KeyEvent, KeyEventKind};
use crate::paths::same_path;
use crate::search::{exclude_globs, ignored_rels, prefixed, SearchMode};
use crate::state::{
    kept_preview, path_shown, requested_dirs, valid_list, AppView, EffectView, PopupKind,
};
use crate::text::{join, split, trim};
use vstd::prelude::*;

verus! {

/// Whether `key` is pressed with `code`, with the control and alt keys or without.
pub open spec fn pressed(key: KeyEvent, code: KeyCode, control: bool, alt: bool) -> bool {
    &&& key.kind != KeyEventKind::Release
    &&& key.code == code
    &&& key.modifiers.control == control
    &&& key.modifiers.alt == alt
}

// ------------------------------------------------------------ walking the results

/// Asking for the preview of a selected result `item` names its path, and nothing else than the
/// preview changes. A preview that is kept for the path and the width is shown at once. Otherwise
/// one is asked for, for at least ten columns, under a generation of its own.
pub proof fn preview_is_of_the_selected(v: AppView, i: usize)
    requires
        v.selected == Some(i),
        i < v.results.len(),
    ensures
        ({
            let w = v.preview_requested();
            let width: u16 = if v.preview_width < 10 {
                10
            } else {
                v.preview_width
            };
            let path = v.results[i as int].path;
            &&& w == (AppView {
                preview_gen: w.preview_gen,
                preview: w.preview,
                preview_path: Some(path),
                preview_loading: w.preview_loading,
                effects: w.effects,
                ..v
            })
            &&& w.preview_gen != v.preview_gen
            &&& w.preview is Some <==> !w.preview_loading
            &&& (forall|k: int|
                0 <= k < v.preview_cache.len() ==> !((#[trigger] v.preview_cache[k]).width == width
                    && same_path(v.preview_cache[k].path, path))) ==> w.preview is None && w.effects
                == v.effects.push(
                EffectView::RenderPreview {
                    gen: w.preview_gen,
                    path,
                    width,
                    height: v.preview_height,
                },
            )
            &&& forall|k: int|
                0 <= k < v.preview_cache.len() && (#[trigger] v.preview_cache[k]).width == width
                    && same_path(v.preview_cache[k].path, path) && (forall|j: int|
                    0 <= j < k ==> !((#[trigger] v.preview_cache[j]).width == width && same_path(
                        v.preview_cache[j].path,
                        path,
                    ))) ==> w.preview == Some(v.preview_cache[k].preview) && w.effects == v.effects
        }),
{
    reveal(AppView::preview_requested);
    let width: u16 = if v.preview_width < 10 {
        10
    } else {
        v.preview_width
    };
    let path = v.results[i as int].path;
    if forall|k: int|
        0 <= k < v.preview_cache.len() ==> !((#[trigger] v.preview_cache[k]).width == width
            && same_path(v.preview_cache[k].path, path)) {
        none_is_kept(v.preview_cache, path, width);
    }
    assert forall|k: int|
        0 <= k < v.preview_cache.len() && (#[trigger] v.preview_cache[k]).width == width
            && same_path(v.preview_cache[k].path, path) && (forall|j: int|
            0 <= j < k ==> !((#[trigger] v.preview_cache[j]).width == width && same_path(
                v.preview_cache[j].path,
                path,
            ))) implies kept_preview(v.preview_cache, path, width) == Some(
        v.preview_cache[k].preview,
    ) by {
        first_is_kept(v.preview_cache, path, width, k);
    }
}

proof fn none_is_kept(cache: Seq<crate::state::CachedView>, path: Seq<char>, width: u16)
    requires
        forall|k: int|
            0 <= k < cache.len() ==> !((#[trigger] cache[k]).width == width && same_path(
                cache[k].path,
                path,
            )),
    ensures
        kept_preview(cache, path, width) is None,
    decreases cache.len(),
{
    if cache.len() > 0 {
        let rest = cache.drop_first();
        assert(!(cache[0].width == width && same_path(cache[0].path, path)));
        assert forall|k: int| 0 <= k < rest.len() implies !((#[trigger] rest[k]).width == width
            && same_path(rest[k].path, path)) by {
            assert(rest[k] == cache[k + 1]);
        }
        none_is_kept(rest, path, width);
    }
}

proof fn first_is_kept(cache: Seq<crate::state::CachedView>, path: Seq<char>, width: u16, k: int)
    requires
        0 <= k < cache.len(),
        cache[k].width == width,
        same_path(cache[k].path, path),
        forall|j: int|
            0 <= j < k ==> !((#[trigger] cache[j]).width == width && same_path(
                cache[j].path,
                path,
            )),
    ensures
        kept_preview(cache, path, width) == Some(cache[k].preview),
    decreases cache.len(),
{
    if k > 0 {
        let rest = cache.drop_first();
        assert(!(cache[0].width == width && same_path(cache[0].path, path)));
        assert forall|j: int| 0 <= j < k - 1 implies !((#[trigger] rest[j]).width == width
            && same_path(rest[j].path, path)) by {
            assert(rest[j] == cache[j + 1]);
        }
        assert(rest[k - 1] == cache[k]);
        first_is_kept(rest, path, width, k - 1);
    }
}

/// Alt+J selects the next result and Alt+K the one before, as far as there is one; the preview is
/// then that of the newly selected result, from its start, and the rest of the state stays. At the
/// ends of the list, and without results, nothing happens.
pub proof fn alt_j_and_k_walk_the_results(v: AppView, key: KeyEvent, i: usize)
    requires
        v.popup is None,
        v.selected == Some(i),
        i < v.results.len() <= usize::MAX,
    ensures
        (pressed(key, KeyCode::Char('j'), false, true) || pressed(
            key,
            KeyCode::Char('J'),
            false,
            true,
        )) && i + 1 < v.results.len() ==> v.on_key(key) == (AppView {
            selected: Some((i + 1) as usize),
            preview_scroll: 0,
            ..v
        }).preview_requested() && v.on_key(key).selected == Some((i + 1) as usize) && v.on_key(
            key,
        ).preview_path == Some(v.results[i + 1].path),
        (pressed(key, KeyCode::Char('k'), false, true) || pressed(
            key,
            KeyCode::Char('K'),
            false,
            true,
        )) && i > 0 ==> v.on_key(key) == (AppView {
            selected: Some((i - 1) as usize),
            preview_scroll: 0,
            ..v
        }).preview_requested() && v.on_key(key).selected == Some((i - 1) as usize) && v.on_key(
            key,
        ).preview_path == Some(v.results[i - 1].path),
        pressed(key, KeyCode::Char('j'), false, true) && i + 1 == v.results.len() ==> v.on_key(key)
            == v,
        pressed(key, KeyCode::Char('k'), false, true) && i == 0 ==> v.on_key(key) == v,
{
    reveal(AppView::selection_moved);
    if i + 1 < v.results.len() {
        let w = AppView { selected: Some((i + 1) as usize), preview_scroll: 0, ..v };
        requested_path(w, (i + 1) as usize);
    }
    if i > 0 {
        let w = AppView { selected: Some((i - 1) as usize), preview_scroll: 0, ..v };
        requested_path(w, (i - 1) as usize);
    }
}

proof fn requested_path(v: AppView, i: usize)
    requires
        v.selected == Some(i),
        i < v.results.len(),
    ensures
        v.preview_requested().preview_path == Some(v.results[i as int].path),
        v.preview_requested().selected == Some(i),
        v.preview_requested().results == v.results,
        v.preview_requested().popup == v.popup,
{
    reveal(AppView::preview_requested);
}

/// Without results there is nothing to walk; where none of several is selected, walking starts at
/// the first.
pub proof fn walking_starts_at_the_first(v: AppView, key: KeyEvent)
    requires
        v.popup is None,
        pressed(key, KeyCode::Char('j'), false, true) || pressed(
            key,
            KeyCode::Char('k'),
            false,
            true,
        ),
    ensures
        v.results.len() == 0 ==> v.on_key(key) == v,
        v.selected is None && 1 < v.results.len() <= usize::MAX && key.code == KeyCode::Char('j')
            ==> v.on_key(key).selected == Some(1usize),
        v.selected is None && v.results.len() > 0 && key.code == KeyCode::Char('k') ==> v.on_key(
            key,
        ).selected == Some(0usize),
{
    reveal(AppView::selection_moved);
    reveal(AppView::preview_requested);
}

/// Results are walked forth and back: Alt+K undoes the selection of Alt+J where there is a next
/// result.
pub proof fn walking_back_undoes_walking(v: AppView, forth: KeyEvent, back: KeyEvent, i: usize)
    requires
        v.popup is None,
        v.selected == Some(i),
        i + 1 < v.results.len() <= usize::MAX,
        pressed(forth, KeyCode::Char('j'), false, true),
        pressed(back, KeyCode::Char('k'), false, true),
    ensures
        v.on_key(forth).on_key(back).selected == Some(i),
        v.on_key(forth).on_key(back).results == v.results,
        v.on_key(forth).on_key(back).preview_path == Some(v.results[i as int].path),
{
    alt_j_and_k_walk_the_results(v, forth, i);
    let w = v.on_key(forth);
    let a = AppView { selected: Some((i + 1) as usize), preview_scroll: 0, ..v };
    requested_path(a, (i + 1) as usize);
    assert(w.results == v.results && w.popup is None);
    alt_j_and_k_walk_the_results(w, back, (i + 1) as usize);
    let b = AppView { selected: Some(i), preview_scroll: 0, ..w };
    requested_path(b, i);
}

// ------------------------------------------------------------ what is done with a result

/// Ctrl+C copies the path of the selected result, and Ctrl+G opens it; without a selected result
/// the first says so and the second does nothing.
pub proof fn the_selected_result_is_copied_and_opened(v: AppView, key: KeyEvent, i: usize)
    requires
        v.popup is None,
        key.kind != KeyEventKind::Release,
        key.modifiers.control,
    ensures
        key.code == KeyCode::Char('c') && v.selected == Some(i) && i < v.results.len() ==> v.on_key(
            key,
        ) == (AppView {
            effects: v.effects.push(EffectView::CopyPath { path: v.results[i as int].path }),
            ..v
        }) && v.opened_by(key) is None,
        key.code == KeyCode::Char('g') && v.selected == Some(i) && i < v.results.len()
            ==> v.opened_by(key) == Some(v.results[i as int].path),
        key.code == KeyCode::Char('g') && !key.modifiers.alt ==> v.on_key(key) == v,
        key.code == KeyCode::Char('c') && v.selected is None ==> v.on_key(key) == (AppView {
            status: Some(("无选中文件，无法复制路径"@, v.now)),
            ..v
        }),
        key.code == KeyCode::Char('g') && v.selected is None ==> v.opened_by(key) is None,
{
    reveal(AppView::control_key);
}

/// Nothing is opened by another key than Ctrl+G, nor while a popup is open.
pub proof fn only_ctrl_g_opens(v: AppView, key: KeyEvent)
    requires
        v.opened_by(key) is Some,
    ensures
        key.code == KeyCode::Char('g'),
        key.modifiers.control,
        v.popup is None,
{
}

// ------------------------------------------------------------ editing the input

/// A typed character stands at the cursor, which goes behind it; Shift+Enter types a line break.
pub proof fn typing_inserts_at_the_cursor(v: AppView, key: KeyEvent, c: char)
    requires
        v.popup is None,
        0 <= v.cursor <= v.input.len() < usize::MAX,
        pressed(key, KeyCode::Char(c), false, false) || (key.kind != KeyEventKind::Release
            && key.code == KeyCode::Enter && key.modifiers.shift && c == '\n'),
    ensures
        v.on_key(key) == (AppView {
            input: v.input.insert(v.cursor, c),
            cursor: v.cursor + 1,
            ..v
        }),
{
    assert(v.input.take(v.cursor) + seq![c] + v.input.skip(v.cursor) == v.input.insert(
        v.cursor,
        c,
    ));
}

/// Backspace takes out the character before the cursor and Delete the one behind it, where there
/// is one.
pub proof fn deleting_takes_out_one_character(v: AppView, key: KeyEvent)
    requires
        v.popup is None,
        key.kind != KeyEventKind::Release,
        0 <= v.cursor <= v.input.len(),
    ensures
        key.code == KeyCode::Backspace && v.cursor > 0 ==> v.on_key(key) == (AppView {
            input: v.input.remove(v.cursor - 1),
            cursor: v.cursor - 1,
            ..v
        }),
        key.code == KeyCode::Backspace && v.cursor == 0 ==> v.on_key(key) == v,
        key.code == KeyCode::Delete && v.cursor < v.input.len() ==> v.on_key(key) == (AppView {
            input: v.input.remove(v.cursor),
            ..v
        }),
        key.code == KeyCode::Delete && v.cursor == v.input.len() ==> v.on_key(key) == v,
{
}

/// The arrow keys move the cursor by one character, Home and End to the ends of the input, as far
/// as it goes; Ctrl+U empties the input.
pub proof fn moving_changes_the_cursor_only(v: AppView, key: KeyEvent)
    requires
        v.popup is None,
        key.kind != KeyEventKind::Release,
        0 <= v.cursor <= v.input.len(),
    ensures
        key.code == KeyCode::Left ==> v.on_key(key) == (AppView {
            cursor: if v.cursor == 0 {
                0
            } else {
                v.cursor - 1
            },
            ..v
        }),
        key.code == KeyCode::Right ==> v.on_key(key) == (AppView {
            cursor: if v.cursor == v.input.len() {
                v.cursor
            } else {
                v.cursor + 1
            },
            ..v
        }),
        key.code == KeyCode::Home ==> v.on_key(key) == (AppView { cursor: 0, ..v }),
        key.code == KeyCode::End ==> v.on_key(key) == (AppView {
            cursor: v.input.len() as int,
            ..v
        }),
        pressed(key, KeyCode::Char('u'), true, false) ==> v.on_key(key) == (AppView {
            input: Seq::empty(),
            cursor: 0,
            ..v
        }),
{
    reveal(AppView::control_key);
}

/// The keys up and down move the cursor of an input that shows its rows, by one row; a collapsed
/// input stays as it is.
pub proof fn rows_are_moved_by_one(v: AppView, key: KeyEvent)
    requires
        v.popup is None,
        key.kind != KeyEventKind::Release,
        key.code == KeyCode::Up || key.code == KeyCode::Down,
        v.input_inner_width >= 1,
    ensures
        !v.input_expanded ==> v.on_key(key) == v,
        v.input_expanded ==> v.on_key(key) == (AppView {
            cursor: crate::wrap::cursor_moved(
                v.input,
                v.cursor,
                v.input_inner_width,
                true,
                if key.code == KeyCode::Up {
                    -1
                } else {
                    1
                },
            ),
            ..v
        }),
{
    reveal(AppView::cursor_moved_by_rows);
}

/// Ctrl+H expands a collapsed input and collapses an expanded one, and shows it from its start;
/// twice gives the first form back.
pub proof fn ctrl_h_changes_the_form_of_the_input(v: AppView, key: KeyEvent)
    requires
        v.popup is None,
        pressed(key, KeyCode::Char('h'), true, false),
    ensures
        v.on_key(key) == (AppView { input_expanded: !v.input_expanded, input_scroll: 0, ..v }),
        v.on_key(key).on_key(key).input_expanded == v.input_expanded,
{
    reveal(AppView::control_key);
}

// ------------------------------------------------------------ scrolling

/// The preview scrolls by ten lines with the page keys and by three with Ctrl+J and Ctrl+K, not
/// before its start and not behind its end.
pub proof fn scrolling_moves_the_preview(v: AppView, key: KeyEvent)
    requires
        v.popup is None,
        v.preview_scroll <= v.preview_max_scroll,
        key.kind != KeyEventKind::Release,
    ensures
        ({
            let step: int = if key.code == KeyCode::PageDown {
                10
            } else if key.code == KeyCode::PageUp {
                -10
            } else if key.code == KeyCode::Char('j') {
                3
            } else {
                -3
            };
            let to = v.preview_scroll + step;
            key.code == KeyCode::PageDown || key.code == KeyCode::PageUp || ((key.code
                == KeyCode::Char('j') || key.code == KeyCode::Char('k')) && key.modifiers.control)
                ==> v.on_key(key) == (AppView {
                preview_scroll: if to < 0 {
                    0
                } else if to > v.preview_max_scroll {
                    v.preview_max_scroll
                } else {
                    to as u16
                },
                ..v
            })
        }),
{
    reveal(AppView::control_key);
}

// ------------------------------------------------------------ searching

/// Enter searches for the input without the white space at its ends: a running search is stopped,
/// and the search starts from the search path, for file names with the list of files that is still
/// valid, or for contents with an empty list of results.
pub proof fn enter_searches(v: AppView, key: KeyEvent)
    requires
        v.popup is None,
        key.kind != KeyEventKind::Release,
        key.code == KeyCode::Enter,
        !key.modifiers.shift,
        trim(v.input).len() > 0,
    ensures
        ({
            let w = v.on_key(key);
            let stopped = if v.job {
                v.effects.push(EffectView::CancelJob)
            } else {
                v.effects
            };
            &&& w.search_gen != v.search_gen
            &&& v.mode == SearchMode::FileName ==> w == (AppView {
                search_gen: w.search_gen,
                last_query: v.input,
                searching: true,
                job: true,
                effects: stopped.push(
                    EffectView::SearchFiles {
                        gen: w.search_gen,
                        root: v.search_path,
                        query: trim(v.input),
                        cached: valid_list(v.file_lists, v.search_path, v.now),
                        excludes: prefixed("/"@, ignored_rels(v.search_path, v.ignore_dirs)),
                        max_bytes: v.size_bytes,
                    },
                ),
                ..v
            })
            &&& v.mode == SearchMode::Content ==> w == (AppView {
                search_gen: w.search_gen,
                last_query: v.input,
                searching: true,
                job: true,
                results: Seq::empty(),
                selected: None,
                preview: None,
                preview_path: None,
                effects: stopped.push(
                    EffectView::SearchContent {
                        gen: w.search_gen,
                        root: v.search_path,
                        query: trim(v.input),
                        globs: exclude_globs(v.search_path, v.ignore_dirs),
                        max_bytes: v.size_bytes,
                    },
                ),
                ..v
            })
        }),
{
    reveal(AppView::search_started);
}

/// Enter on an empty input stops a running search and leaves no results, no selection and no
/// preview; nothing is searched.
pub proof fn enter_on_nothing_clears(v: AppView, key: KeyEvent)
    requires
        v.popup is None,
        key.kind != KeyEventKind::Release,
        key.code == KeyCode::Enter,
        !key.modifiers.shift,
        trim(v.input).len() == 0,
    ensures
        ({
            let w = v.on_key(key);
            &&& w == (AppView {
                search_gen: w.search_gen,
                preview_gen: w.preview_gen,
                last_query: v.input,
                searching: false,
                job: false,
                results: Seq::empty(),
                selected: None,
                list_offset: 0,
                preview_scroll: 0,
                preview: None,
                preview_path: None,
                preview_loading: false,
                effects: if v.job {
                    v.effects.push(EffectView::CancelJob)
                } else {
                    v.effects
                },
                ..v
            })
            &&& w.search_gen != v.search_gen
            &&& w.preview_gen != v.preview_gen
        }),
{
    reveal(AppView::search_started);
    reveal(AppView::first_selected);
    reveal(AppView::preview_requested);
}

/// Tab searches as Enter does, in the other mode.
pub proof fn tab_searches_in_the_other_mode(v: AppView, tab: KeyEvent, enter: KeyEvent)
    requires
        v.popup is None,
        tab.kind != KeyEventKind::Release,
        tab.code == KeyCode::Tab,
        enter.kind != KeyEventKind::Release,
        enter.code == KeyCode::Enter,
        !enter.modifiers.shift,
    ensures
        v.on_key(tab) == (AppView {
            mode: match v.mode {
                SearchMode::FileName => SearchMode::Content,
                SearchMode::Content => SearchMode::FileName,
            },
            ..v
        }).on_key(enter),
{
}

/// Esc stops a running search and says so, without touching the results; where none is running it
/// ends the program.
pub proof fn esc_stops_or_quits(v: AppView, key: KeyEvent)
    requires
        v.popup is None,
        key.kind != KeyEventKind::Release,
        key.code == KeyCode::Esc,
    ensures
        !v.searching ==> v.on_key(key) == (AppView { should_quit: true, ..v }),
        v.searching ==> v.on_key(key) == (AppView {
            searching: false,
            job: false,
            search_gen: v.on_key(key).search_gen,
            status: Some(("已取消当前搜索"@, v.now)),
            effects: if v.job {
                v.effects.push(EffectView::CancelJob)
            } else {
                v.effects
            },
            ..v
        }) && v.on_key(key).search_gen != v.search_gen,
{
}

/// Other keys do nothing: those that are unknown, and characters with the control or alt key that
/// have no meaning.
pub proof fn other_keys_do_nothing(v: AppView, key: KeyEvent, c: char)
    requires
        v.popup is None,
        key.kind != KeyEventKind::Release,
        key.code == KeyCode::Other || (key.code == KeyCode::Char(c) && ((key.modifiers.alt
            && !key.modifiers.control && c != 'j' && c != 'J' && c != 'k' && c != 'K') || (
        key.modifiers.control && !key.modifiers.alt && c != 'c' && c != 'p' && c != 'h' && c != 'i'
            && c != 's' && c != 'j' && c != 'k' && c != 'u'))),
    ensures
        v.on_key(key) == v,
{
    reveal(AppView::control_key);
}

// ------------------------------------------------------------ popups

/// Ctrl+P, Ctrl+I and Ctrl+S open the popups for the search path, the ignored directories and the
/// size limit, with the present value in them, selected, and the cursor behind it.
pub proof fn popups_open_with_the_present_value(v: AppView, key: KeyEvent)
    requires
        v.popup is None,
        key.kind != KeyEventKind::Release,
        key.modifiers.control,
    ensures
        key.code == KeyCode::Char('p') ==> v.on_key(key) == (AppView {
            popup: Some(PopupKind::Path),
            popup_input: path_shown(v.search_path, v.home),
            popup_cursor: path_shown(v.search_path, v.home).len() as int,
            popup_select_all: true,
            popup_error: None,
            ..v
        }),
        key.code == KeyCode::Char('i') ==> v.on_key(key) == (AppView {
            popup: Some(PopupKind::IgnoreDirs),
            popup_input: join(v.ignore_dirs, seq!['\n']),
            popup_cursor: join(v.ignore_dirs, seq!['\n']).len() as int,
            popup_select_all: true,
            popup_error: None,
            ..v
        }),
        key.code == KeyCode::Char('s') ==> v.on_key(key) == (AppView {
            popup: Some(PopupKind::MaxSize),
            popup_input: v.size_text,
            popup_cursor: v.size_text.len() as int,
            popup_select_all: true,
            popup_error: None,
            ..v
        }),
{
    reveal(AppView::control_key);
    reveal(AppView::popup_opened);
    reveal_strlit("\n");
    assert("\n"@ == seq!['\n']);
}

/// Esc closes a popup and changes no setting.
pub proof fn esc_closes_a_popup(v: AppView, key: KeyEvent)
    requires
        v.popup is Some,
        key.kind != KeyEventKind::Release,
        key.code == KeyCode::Esc,
    ensures
        v.on_key(key) == (AppView {
            popup: None,
            popup_error: None,
            popup_select_all: false,
            ..v
        }),
{
    reveal(AppView::popup_key);
    reveal(AppView::popup_edit);
}

/// In a popup whose text is not selected, a character is typed at the cursor; a size takes digits
/// and points only.
pub proof fn popups_take_characters(v: AppView, key: KeyEvent, c: char)
    requires
        v.popup is Some,
        !v.popup_select_all,
        pressed(key, KeyCode::Char(c), false, false),
        0 <= v.popup_cursor <= v.popup_input.len() < usize::MAX,
    ensures
        v.popup != Some(PopupKind::MaxSize) || '0' <= c <= '9' || c == '.' ==> v.on_key(key) == (
        AppView {
            popup_input: v.popup_input.insert(v.popup_cursor, c),
            popup_cursor: v.popup_cursor + 1,
            popup_error: None,
            ..v
        }),
        v.popup == Some(PopupKind::MaxSize) && !('0' <= c <= '9' || c == '.') ==> v.on_key(key) == (
        AppView { popup_error: None, ..v }),
{
    reveal(AppView::popup_key);
    reveal(AppView::popup_edit);
    assert(v.popup_input.take(v.popup_cursor) + seq![c] + v.popup_input.skip(v.popup_cursor)
        == v.popup_input.insert(v.popup_cursor, c));
}

/// In a popup whose text is not selected, the editing keys work as in the input.
pub proof fn popups_are_edited(v: AppView, key: KeyEvent)
    requires
        v.popup is Some,
        !v.popup_select_all,
        key.kind != KeyEventKind::Release,
        0 <= v.popup_cursor <= v.popup_input.len(),
    ensures
        ({
            let n = AppView { popup_error: None, ..v };
            let at = v.popup_cursor;
            &&& key.code == KeyCode::Backspace && at > 0 ==> v.on_key(key) == (AppView {
                popup_input: v.popup_input.remove(at - 1),
                popup_cursor: at - 1,
                ..n
            })
            &&& key.code == KeyCode::Backspace && at == 0 ==> v.on_key(key) == n
            &&& key.code == KeyCode::Delete && at < v.popup_input.len() ==> v.on_key(key) == (
            AppView { popup_input: v.popup_input.remove(at), ..n })
            &&& key.code == KeyCode::Delete && at == v.popup_input.len() ==> v.on_key(key) == n
            &&& key.code == KeyCode::Left ==> v.on_key(key) == (AppView {
                popup_cursor: if at == 0 {
                    0
                } else {
                    at - 1
                },
                ..n
            })
            &&& key.code == KeyCode::Right ==> v.on_key(key) == (AppView {
                popup_cursor: if at == v.popup_input.len() {
                    at
                } else {
                    at + 1
                },
                ..n
            })
            &&& key.code == KeyCode::Home ==> v.on_key(key) == (AppView { popup_cursor: 0, ..n })
            &&& key.code == KeyCode::End ==> v.on_key(key) == (AppView {
                popup_cursor: v.popup_input.len() as int,
                ..n
            })
            &&& pressed(key, KeyCode::Char('u'), true, false) ==> v.on_key(key) == (AppView {
                popup_input: Seq::empty(),
                popup_cursor: 0,
                ..n
            })
        }),
{
    reveal(AppView::popup_key);
    reveal(AppView::popup_edit);
}

/// Shift+Enter starts a new line among the ignored directories.
pub proof fn ignored_directories_take_line_breaks(v: AppView, key: KeyEvent)
    requires
        v.popup == Some(PopupKind::IgnoreDirs),
        !v.popup_select_all,
        key.kind != KeyEventKind::Release,
        key.code == KeyCode::Enter,
        key.modifiers.shift,
        0 <= v.popup_cursor <= v.popup_input.len() < usize::MAX,
    ensures
        v.on_key(key) == (AppView {
            popup_input: v.popup_input.insert(v.popup_cursor, '\n'),
            popup_cursor: v.popup_cursor + 1,
            ..v
        }),
{
    reveal(AppView::popup_key);
    reveal(AppView::popup_edit);
    assert(v.popup_input.take(v.popup_cursor) + seq!['\n'] + v.popup_input.skip(v.popup_cursor)
        == v.popup_input.insert(v.popup_cursor, '\n'));
}

/// Ctrl+W takes out what stands before the cursor, back to the last separator, which stays: a slash
/// in a path, a line break among directories. Without one it takes out all of it.
pub proof fn ctrl_w_takes_out_the_last_part(
    v: AppView,
    key: KeyEvent,
    before: Seq<char>,
    part: Seq<char>,
    behind: Seq<char>,
)
    requires
        v.popup is Some,
        !v.popup_select_all,
        pressed(key, KeyCode::Char('w'), true, false),
        v.popup_input == before + part + behind,
        v.popup_cursor == before.len() + part.len(),
        !part.contains(
            if v.popup == Some(PopupKind::IgnoreDirs) {
                '\n'
            } else {
                '/'
            },
        ),
        before.len() == 0 || before.last() == if v.popup == Some(PopupKind::IgnoreDirs) {
            '\n'
        } else {
            '/'
        },
    ensures
        v.on_key(key) == (AppView {
            popup_input: before + behind,
            popup_cursor: before.len() as int,
            popup_error: None,
            ..v
        }),
{
    reveal(AppView::popup_key);
    reveal(AppView::popup_edit);
    let sep = if v.popup == Some(PopupKind::IgnoreDirs) {
        '\n'
    } else {
        '/'
    };
    part_start_is(v.popup_input, before.len() as int, v.popup_cursor, sep, before, part, behind);
    assert(v.popup_input.take(before.len() as int) == before);
    assert(v.popup_input.skip(v.popup_cursor) == behind);
}

proof fn part_start_is(
    text: Seq<char>,
    start: int,
    cursor: int,
    sep: char,
    before: Seq<char>,
    part: Seq<char>,
    behind: Seq<char>,
)
    requires
        text == before + part + behind,
        start == before.len(),
        start <= cursor <= start + part.len(),
        !part.contains(sep),
        before.len() == 0 || before.last() == sep,
    ensures
        crate::edit::part_start(text, cursor, sep) == start,
    decreases cursor,
{
    if cursor > start {
        assert(text[cursor - 1] == part[cursor - 1 - start]);
        assert(text[cursor - 1] != sep);
        part_start_is(text, start, cursor - 1, sep, before, part, behind);
    } else if start > 0 {
        assert(text[start - 1] == before[start - 1]);
    }
}

/// In a popup whose text is selected, deleting empties it, and moving keeps it and drops the
/// selection.
pub proof fn selected_text_is_deleted_or_kept(v: AppView, key: KeyEvent)
    requires
        v.popup is Some,
        v.popup_select_all,
        key.kind != KeyEventKind::Release,
    ensures
        ({
            let n = AppView { popup_error: None, popup_select_all: false, ..v };
            &&& key.code == KeyCode::Backspace || key.code == KeyCode::Delete ==> v.on_key(key) == (
            AppView { popup_input: Seq::empty(), popup_cursor: 0, ..n })
            &&& key.code == KeyCode::Left || key.code == KeyCode::Home ==> v.on_key(key) == (
            AppView { popup_cursor: 0, ..n })
            &&& key.code == KeyCode::Right || key.code == KeyCode::End ==> v.on_key(key) == (
            AppView { popup_cursor: v.popup_input.len() as int, ..n })
        }),
{
    reveal(AppView::popup_key);
}

/// In a popup whose text is selected, a character that is typed takes its place. Where a size is
/// written, a character that is no digit and no point only drops the selection.
pub proof fn selected_text_is_replaced(v: AppView, key: KeyEvent, c: char)
    requires
        v.popup is Some,
        v.popup_select_all,
        pressed(key, KeyCode::Char(c), false, false),
    ensures
        ({
            let n = AppView { popup_error: None, popup_select_all: false, ..v };
            &&& v.popup != Some(PopupKind::MaxSize) || '0' <= c <= '9' || c == '.' ==> v.on_key(key)
                == (AppView { popup_input: seq![c], popup_cursor: 1, ..n })
            &&& v.popup == Some(PopupKind::MaxSize) && !('0' <= c <= '9' || c == '.') ==> v.on_key(key)
                == n
        }),
{
    reveal(AppView::popup_key);
}

/// Other keys do nothing in a popup but take away an error and drop the selection.
pub proof fn popups_ignore_other_keys(v: AppView, key: KeyEvent, c: char)
    requires
        v.popup is Some,
        key.kind != KeyEventKind::Release,
        ({
            ||| key.code == KeyCode::Tab || key.code == KeyCode::Up || key.code == KeyCode::Down
            ||| key.code == KeyCode::PageUp || key.code == KeyCode::PageDown || key.code
                == KeyCode::Other
            ||| key.code == KeyCode::Char(c) && key.modifiers.control && c != 'u' && c != 'w'
            ||| key.code == KeyCode::Char(c) && key.modifiers.alt && !key.modifiers.control
        }),
    ensures
        v.on_key(key) == (AppView { popup_error: None, popup_select_all: false, ..v }),
{
    reveal(AppView::popup_key);
    reveal(AppView::popup_edit);
}

/// Enter in the popup of the directories to ignore asks to look at every directory that is written in
/// it, one to a line; without any, none is ignored from then on.
pub proof fn enter_asks_for_the_directories(v: AppView, key: KeyEvent)
    requires
        v.popup == Some(PopupKind::IgnoreDirs),
        key.kind != KeyEventKind::Release,
        key.code == KeyCode::Enter,
        !key.modifiers.shift,
    ensures
        ({
            let n = AppView { popup_select_all: false, ..v };
            let dirs = requested_dirs(split(decoded(v.popup_input), '\n'), v.home);
            &&& dirs.len() > 0 ==> v.on_key(key) == (AppView {
                effects: v.effects.push(EffectView::CheckDirs { dirs }),
                ..n
            })
            &&& dirs.len() == 0 ==> v.on_key(key) == n.dirs_set(Seq::empty())
        }),
{
    reveal(AppView::popup_key);
    reveal(AppView::popup_edit);
    reveal(AppView::popup_confirmed);
    let n = AppView { popup_select_all: false, ..v };
    if !v.popup_select_all {
        assert(n == v);
    }
}

/// A point alone is no size, nor is what holds two points.
pub proof fn sizes_have_one_point(v: AppView, key: KeyEvent, i: int, j: int)
    requires
        v.popup == Some(PopupKind::MaxSize),
        key.kind != KeyEventKind::Release,
        key.code == KeyCode::Enter,
        trim(v.popup_input) == seq!['.'] || (0 <= i < j < trim(v.popup_input).len() && trim(
            v.popup_input,
        )[i] == '.' && trim(v.popup_input)[j] == '.'),
    ensures
        v.on_key(key) == (AppView {
            popup_error: Some("无效大小: "@ + trim(v.popup_input) + "（示例：10 或 0.2）"@),
            popup_select_all: false,
            ..v
        }),
{
    reveal(AppView::popup_key);
    reveal(AppView::popup_edit);
    reveal(AppView::popup_confirmed);
    reveal_strlit(".");
    let raw = trim(v.popup_input);
    if raw != seq!['.'] {
        two_points(raw, i, j);
    } else {
        assert(raw == "."@);
    }
}

proof fn some_point(s: Seq<char>, i: int)
    requires
        0 <= i < s.len(),
        s[i] == '.',
    ensures
        crate::state::points(s) >= 1,
    decreases s.len(),
{
    if i < s.len() - 1 {
        assert(s.drop_last()[i] == s[i]);
        some_point(s.drop_last(), i);
    }
}

proof fn two_points(s: Seq<char>, i: int, j: int)
    requires
        0 <= i < j < s.len(),
        s[i] == '.',
        s[j] == '.',
    ensures
        crate::state::points(s) >= 2,
    decreases s.len(),
{
    let t = s.drop_last();
    assert(t[i] == s[i]);
    if j < s.len() - 1 {
        assert(t[j] == s[j]);
        two_points(t, i, j);
    } else {
        some_point(t, i);
    }
}

/// Enter in the popup of the search path asks to look at the path, with `~` for the home directory
/// and without the white space at its ends; an empty path closes the popup.
pub proof fn enter_asks_for_the_path(v: AppView, key: KeyEvent)
    requires
        v.popup == Some(PopupKind::Path),
        key.kind != KeyEventKind::Release,
        key.code == KeyCode::Enter,
    ensures
        ({
            let n = AppView { popup_select_all: false, ..v };
            let raw = trim(v.popup_input);
            &&& raw.len() == 0 ==> v.on_key(key) == (AppView { popup: None, popup_error: None, ..n })
            &&& raw.len() > 0 && raw[0] != '~' && (raw.len() == 1 || exists|i: int|
                0 <= i < raw.len() && raw[i] != '/') ==> v.on_key(key) == (AppView {
                effects: v.effects.push(EffectView::CheckPath { raw, expanded: raw }),
                ..n
            })
            &&& raw.len() > 1 && (forall|i: int| 0 <= i < raw.len() ==> raw[i] == '/') ==> v.on_key(
                key,
            ) == (AppView { popup_error: Some("路径无效: "@ + raw), ..n })
            &&& v.home is Some && raw == seq!['~'] && v.home->0.len() > 0 && v.home->0.last() != '/'
                ==> v.on_key(key) == (AppView {
                effects: v.effects.push(EffectView::CheckPath { raw, expanded: v.home->0 }),
                ..n
            })
            &&& v.home is Some && raw.len() >= 2 && raw[0] == '~' && raw[1] == '/'
                && v.home->0.len() > 0 && v.home->0.last() != '/' ==> v.on_key(key) == (AppView {
                effects: v.effects.push(
                    EffectView::CheckPath { raw, expanded: v.home->0 + raw.skip(1) },
                ),
                ..n
            })
        }),
{
    reveal(AppView::popup_key);
    reveal(AppView::popup_edit);
    reveal(AppView::popup_confirmed);
    reveal_strlit("~");
    reveal_strlit("~/");
    reveal_strlit("/");
    let raw = trim(v.popup_input);
    if raw.len() > 0 && raw[0] != '~' {
        assert(raw != "~"@);
        assert(raw.len() >= 2 ==> raw.take(2)[0] == raw[0]);
        assert(raw.len() >= 2 ==> raw.take(2) != "~/"@);
        assert(crate::state::tilde_expanded(raw, v.home) == raw);
    }
    if let Some(h) = v.home {
        assert(raw == seq!['~'] ==> raw == "~"@);
        if raw.len() >= 2 && raw[0] == '~' && raw[1] == '/' {
            assert(raw.take(2) == "~/"@);
            assert(raw != "~"@);
            assert(h + "/"@ + raw.skip(2) == h + raw.skip(1));
            let e = h + raw.skip(1);
            if h.len() > 0 && h.last() != '/' {
                assert(e[h.len() - 1] == h.last());
            }
        }
    }
}

/// Enter in the popup of the size limit asks to read it where it is written in digits with at most
/// one point among them, and says that it is no size otherwise.
pub proof fn enter_asks_for_the_size(v: AppView, key: KeyEvent)
    requires
        v.popup == Some(PopupKind::MaxSize),
        key.kind != KeyEventKind::Release,
        key.code == KeyCode::Enter,
    ensures
        ({
            let n = AppView { popup_select_all: false, ..v };
            let raw = trim(v.popup_input);
            &&& raw.len() > 0 && (forall|i: int| 0 <= i < raw.len() ==> '0' <= #[trigger] raw[i]
                <= '9') ==> v.on_key(key) == (AppView {
                effects: v.effects.push(EffectView::ReadSize { raw }),
                ..n
            })
            &&& (raw.len() == 0 || exists|i: int|
                #![trigger raw[i]]
                0 <= i < raw.len() && !('0' <= raw[i] <= '9') && raw[i] != '.') ==> v.on_key(key) == (AppView {
                popup_error: Some("无效大小: "@ + raw + "（示例：10 或 0.2）"@),
                ..n
            })
            &&& forall|i: int|
                #![trigger raw[i]]
                0 <= i < raw.len() && raw.len() > 1 && raw[i] == '.' && (forall|j: int|
                    0 <= j < raw.len() && j != i ==> '0' <= #[trigger] raw[j] <= '9') ==> v.on_key(
                    key,
                ) == (AppView { effects: v.effects.push(EffectView::ReadSize { raw }), ..n })
        }),
{
    reveal(AppView::popup_key);
    reveal(AppView::popup_edit);
    reveal(AppView::popup_confirmed);
    reveal_strlit(".");
    let raw = trim(v.popup_input);
    if forall|i: int| 0 <= i < raw.len() ==> '0' <= #[trigger] raw[i] <= '9' {
        no_points(raw);
        if raw == "."@ {
            assert(raw[0] == '.');
        }
    }
    assert forall|i: int|
        #![trigger raw[i]]
        0 <= i < raw.len() && raw.len() > 1 && raw[i] == '.' && (forall|j: int|
            0 <= j < raw.len() && j != i ==> '0' <= #[trigger] raw[j] <= '9') implies
        crate::state::points(raw) == 1 by {
        one_point(raw, i);
    }
}

proof fn no_points(s: Seq<char>)
    requires
        forall|i: int| 0 <= i < s.len() ==> '0' <= #[trigger] s[i] <= '9',
    ensures
        crate::state::points(s) == 0,
    decreases s.len(),
{
    if s.len() > 0 {
        assert(s[s.len() - 1] != '.');
        assert forall|i: int| 0 <= i < s.drop_last().len() implies '0' <= #[trigger] s.drop_last()[i]
            <= '9' by {
            assert(s.drop_last()[i] == s[i]);
        }
        no_points(s.drop_last());
    }
}

proof fn one_point(s: Seq<char>, i: int)
    requires
        0 <= i < s.len(),
        s[i] == '.',
        forall|j: int| 0 <= j < s.len() && j != i ==> '0' <= #[trigger] s[j] <= '9',
    ensures
        crate::state::points(s) == 1,
    decreases s.len(),
{
    let t = s.drop_last();
    if i == s.len() - 1 {
        assert forall|j: int| 0 <= j < t.len() implies '0' <= #[trigger] t[j] <= '9' by {
            assert(t[j] == s[j]);
        }
        no_points(t);
    } else {
        assert(s[s.len() - 1] != '.');
        assert(t[i] == s[i]);
        assert forall|j: int| 0 <= j < t.len() && j != i implies '0' <= #[trigger] t[j] <= '9' by {
            assert(t[j] == s[j]);
        }
        one_point(t, i);
    }
}

} // verus!
