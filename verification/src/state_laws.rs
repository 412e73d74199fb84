//! What becomes of the state when something comes back from outside, and what is kept of it.

use crate::escapes::{encoded, pasted_line, pasted_lines};
use crate::key_laws::preview_is_of_the_selected;
use crate::paths::same_path;
use crate::search::{best, ItemView};
use crate::search_laws::the_best_are_kept;
use crate::state::{
    dirs_error, dirs_found, kept_preview, path_shown, requested_dirs, tilde_expanded, valid_list, with_list,
    with_preview, AppView, CachedView, DirCheckView, EffectView, FileListView, MsgView,
    PopupKind,
};
use crate::preview::PreviewView;
use crate::text::{strip_prefix, trim};
use vstd::prelude::*;

verus! {

// ------------------------------------------------------------ results

proof fn first_of(v: AppView)
    requires
        v.results.len() > 0,
    ensures
        ({
            let w = v.first_selected();
            &&& w.selected == Some(0usize)
            &&& w.list_offset == 0
            &&& w.preview_scroll == 0
            &&& w.preview_path == Some(v.results[0].path)
            &&& w == (AppView {
                selected: Some(0usize),
                list_offset: 0,
                preview_scroll: 0,
                preview_gen: w.preview_gen,
                preview: w.preview,
                preview_path: w.preview_path,
                preview_loading: w.preview_loading,
                effects: w.effects,
                ..v
            })
        }),
{
    reveal(AppView::first_selected);
    reveal(AppView::preview_requested);
}

proof fn nothing_of(v: AppView)
    requires
        v.results.len() == 0,
    ensures
        ({
            let w = v.first_selected();
            w == (AppView {
                selected: None,
                list_offset: 0,
                preview_scroll: 0,
                preview_gen: w.preview_gen,
                preview: None,
                preview_path: None,
                preview_loading: false,
                ..v
            })
        }),
{
    reveal(AppView::first_selected);
    reveal(AppView::preview_requested);
}

/// The results of a search of file names take the place of the old ones. The first of them is
/// selected and its preview is the one that is shown or asked for; the search is over, and what the
/// user typed stays. Without results nothing is selected.
pub proof fn found_files_are_taken(
    v: AppView,
    items: Seq<ItemView>,
    list: Option<(Seq<char>, Seq<Seq<char>>)>,
)
    ensures
        ({
            let w = v.received(
                MsgView::SearchDone {
                    gen: v.search_gen,
                    content: false,
                    items,
                    new_file_list: list,
                },
            );
            &&& w.results == items
            &&& !w.searching
            &&& items.len() > 0 ==> w.selected == Some(0usize) && w.preview_path == Some(
                items[0].path,
            )
            &&& items.len() == 0 ==> w.selected is None && w.preview is None && w.preview_path is None
            &&& w.list_offset == 0 && w.preview_scroll == 0
            &&& w.input == v.input && w.cursor == v.cursor && w.mode == v.mode && w.last_query
                == v.last_query && w.search_gen == v.search_gen && w.popup == v.popup
                && w.popup_input == v.popup_input && w.search_path == v.search_path && w.status
                == v.status && w.should_quit == v.should_quit
            &&& list is None ==> w.file_lists == v.file_lists
        }),
{
    let a = match list {
        Some((root, files)) => AppView {
            file_lists: with_list(v.file_lists, FileListView { root, made: v.now, files }),
            ..v
        },
        None => v,
    };
    let b = AppView { searching: false, results: items, ..a };
    if items.len() > 0 {
        first_of(b);
    } else {
        nothing_of(b);
    }
}

/// The end of a search of contents only says that no more results come.
pub proof fn the_end_of_contents_is_noted(v: AppView, items: Seq<ItemView>)
    ensures
        v.received(
            MsgView::SearchDone {
                gen: v.search_gen,
                content: true,
                items,
                new_file_list: None,
            },
        ) == (AppView { searching: false, ..v }),
{
}

/// Results that come while a search of contents is running join those that are there: the best 400 of
/// all of them are kept. Where none was selected the first one is; a selected place stays selected as
/// long as there is a result. With 400 results the search is stopped.
pub proof fn batches_join_the_results(v: AppView, items: Seq<ItemView>)
    requires
        items.len() > 0,
        v.selected matches Some(i) ==> i < v.results.len(),
        v.results.len() <= 400,
    ensures
        ({
            let w = v.received(MsgView::SearchBatch { gen: v.search_gen, items });
            let all = v.results + items;
            &&& w.results.len() == if all.len() < 400 {
                all.len()
            } else {
                400
            }
            &&& w.results == best(all)
            &&& v.selected is None ==> w.selected == Some(0usize) && w.preview_path == Some(
                w.results[0].path,
            )
            &&& v.selected is Some ==> w.selected == v.selected
            &&& w.searching == v.searching && w.input == v.input && w.cursor == v.cursor && w.mode
                == v.mode && w.search_gen == v.search_gen && w.popup == v.popup
            &&& w.results.len() == 400 && v.job ==> w.effects.len() > 0 && w.effects.last()
                == EffectView::CancelJob
            &&& w.results.len() < 400 && v.selected is Some && w.results[v.selected->0 as int].path
                == v.results[v.selected->0 as int].path ==> w.effects == v.effects
            &&& v.selected is Some && w.results[v.selected->0 as int].path
                == v.results[v.selected->0 as int].path ==> w.preview_path == v.preview_path
                && w.preview == v.preview && w.preview_scroll == v.preview_scroll
            &&& v.selected is Some && !same_path(
                w.results[v.selected->0 as int].path,
                v.results[v.selected->0 as int].path,
            ) ==> w.preview_path == Some(w.results[v.selected->0 as int].path) && w.preview_scroll
                == 0
        }),
{
    reveal(AppView::batch_added);
    let all = v.results + items;
    the_best_are_kept(all);
    let results = best(all);
    let a = AppView { results, ..v };
    if v.selected is None {
        first_of(a);
    } else {
        let i = v.selected->0;
        assert(i < results.len());
        let b = AppView { preview_scroll: 0, ..a };
        preview_is_of_the_selected(b, i);
    }
}

// ------------------------------------------------------------ previews

/// A preview that was asked for last, for the present width, is shown; any preview is kept, and found
/// again for its path and width.
pub proof fn previews_are_shown_and_kept(
    v: AppView,
    gen: u64,
    path: Seq<char>,
    width: u16,
    preview: PreviewView,
)
    ensures
        ({
            let w = v.received(MsgView::PreviewDone { gen, path, width, preview });
            &&& gen == v.preview_gen && width == v.preview_width ==> w == (AppView {
                preview: Some(preview),
                preview_path: Some(path),
                preview_loading: false,
                preview_cache: w.preview_cache,
                ..v
            })
            &&& gen != v.preview_gen || width != v.preview_width ==> w == (AppView {
                preview_cache: w.preview_cache,
                ..v
            })
            &&& kept_preview(w.preview_cache, path, width) == Some(preview)
            &&& w.preview_cache.len() <= 100
        }),
{
    crate::laws::kept_preview_is_found(v.preview_cache, CachedView { path, width, preview });
}

/// A preview that is kept does not push another one out, as long as there are fewer than a hundred.
pub proof fn kept_previews_do_not_disturb(
    cache: Seq<CachedView>,
    new: CachedView,
    path: Seq<char>,
    width: u16,
)
    requires
        cache.len() < 100,
        width != new.width || !same_path(new.path, path),
    ensures
        kept_preview(with_preview(cache, new), path, width) == kept_preview(cache, path, width),
{
    let other = |c: CachedView| !(c.width == new.width && same_path(c.path, new.path));
    preview_left(cache, new, path, width);
    let left = cache.filter(other);
    preview_behind(left, new, path, width);
}

proof fn preview_behind(cache: Seq<CachedView>, new: CachedView, path: Seq<char>, width: u16)
    requires
        width != new.width || !same_path(new.path, path),
    ensures
        kept_preview(cache.push(new), path, width) == kept_preview(cache, path, width),
    decreases cache.len(),
{
    let all = cache.push(new);
    if cache.len() == 0 {
        assert(all[0] == new);
        assert(kept_preview(all.drop_first(), path, width) is None);
    } else {
        assert(all[0] == cache[0]);
        assert(all.drop_first() == cache.drop_first().push(new));
        preview_behind(cache.drop_first(), new, path, width);
    }
}

proof fn preview_left(cache: Seq<CachedView>, new: CachedView, path: Seq<char>, width: u16)
    requires
        width != new.width || !same_path(new.path, path),
    ensures
        kept_preview(
            cache.filter(|c: CachedView| !(c.width == new.width && same_path(c.path, new.path))),
            path,
            width,
        ) == kept_preview(cache, path, width),
    decreases cache.len(),
{
    let other = |c: CachedView| !(c.width == new.width && same_path(c.path, new.path));
    reveal(Seq::filter);
    if cache.len() > 0 {
        let one = seq![cache[0]];
        let rest = cache.drop_first();
        assert(cache == one + rest);
        Seq::filter_distributes_over_add(one, rest, other);
        assert(one.drop_last().filter(other).len() == 0);
        preview_left(rest, new, path, width);
        if other(cache[0]) {
            assert(one.filter(other) == one);
            let f = cache.filter(other);
            assert(f[0] == cache[0]);
            assert(f.drop_first() == rest.filter(other));
        } else {
            assert(one.filter(other).len() == 0);
            assert(cache.filter(other) == rest.filter(other));
            assert(!(cache[0].width == width && same_path(cache[0].path, path)));
        }
    }
}

// ------------------------------------------------------------ lists of files

/// A list of files is used again for its directory for a minute from when it was made, and not any
/// longer; the lists of other directories stay.
pub proof fn lists_are_used_for_a_minute(
    lists: Seq<FileListView>,
    new: FileListView,
    now: u64,
    other: Seq<char>,
)
    requires
        new.made <= now,
    ensures
        now - new.made < 60000 ==> valid_list(with_list(lists, new), new.root, now) == Some(new.files),
        now - new.made >= 60000 ==> valid_list(with_list(lists, new), new.root, now) is None,
        !same_path(new.root, other) ==> valid_list(with_list(lists, new), other, now) == valid_list(
            lists,
            other,
            now,
        ),
        valid_list(Seq::empty(), other, now) is None,
{
    crate::laws::kept_list_is_found(lists, new, now);
    if !same_path(new.root, other) {
        let f = |l: FileListView| !same_path(l.root, new.root);
        list_left(lists, new, other, now);
        list_behind(lists.filter(f), new, other, now);
    }
}

proof fn list_behind(lists: Seq<FileListView>, new: FileListView, root: Seq<char>, now: u64)
    requires
        !same_path(new.root, root),
    ensures
        valid_list(lists.push(new), root, now) == valid_list(lists, root, now),
    decreases lists.len(),
{
    let all = lists.push(new);
    if lists.len() == 0 {
        assert(all[0] == new);
        assert(valid_list(all.drop_first(), root, now) is None);
    } else {
        assert(all[0] == lists[0]);
        assert(all.drop_first() == lists.drop_first().push(new));
        list_behind(lists.drop_first(), new, root, now);
    }
}

proof fn list_left(lists: Seq<FileListView>, new: FileListView, root: Seq<char>, now: u64)
    requires
        !same_path(new.root, root),
    ensures
        valid_list(lists.filter(|l: FileListView| !same_path(l.root, new.root)), root, now)
            == valid_list(lists, root, now),
    decreases lists.len(),
{
    let f = |l: FileListView| !same_path(l.root, new.root);
    reveal(Seq::filter);
    if lists.len() > 0 {
        let one = seq![lists[0]];
        let rest = lists.drop_first();
        assert(lists == one + rest);
        Seq::filter_distributes_over_add(one, rest, f);
        assert(one.drop_last().filter(f).len() == 0);
        list_left(rest, new, root, now);
        if f(lists[0]) {
            assert(one.filter(f) == one);
            let k = lists.filter(f);
            assert(k[0] == lists[0]);
            assert(k.drop_first() == rest.filter(f));
        } else {
            assert(one.filter(f).len() == 0);
            assert(lists.filter(f) == rest.filter(f));
            assert(!same_path(lists[0].root, root));
        }
    }
}

/// The list of files of a search that came to its end is kept from then on, whichever search is the
/// present one.
pub proof fn new_lists_are_kept(
    v: AppView,
    gen: u64,
    items: Seq<ItemView>,
    root: Seq<char>,
    files: Seq<Seq<char>>,
)
    ensures
        ({
            let w = v.received(
                MsgView::SearchDone {
                    gen,
                    content: false,
                    items,
                    new_file_list: Some((root, files)),
                },
            );
            valid_list(w.file_lists, root, v.now) == Some(files)
        }),
{
    let new = FileListView { root, made: v.now, files };
    crate::laws::kept_list_is_found(v.file_lists, new, v.now);
    let a = AppView { file_lists: with_list(v.file_lists, new), ..v };
    let b = AppView { searching: false, results: items, ..a };
    if items.len() > 0 {
        first_of(b);
    } else {
        nothing_of(b);
    }
}

// ------------------------------------------------------------ time

/// A message is shown for five seconds, and not any longer.
pub proof fn messages_are_shown_for_five_seconds(v: AppView, msg: Seq<char>, since: u64)
    requires
        v.inbox.len() == 0,
        v.status == Some((msg, since)),
        since <= v.now,
    ensures
        v.now - since <= 5000 ==> v.ticked() == v,
        v.now - since > 5000 ==> v.ticked() == (AppView { status: None, ..v }),
        v.with_status(msg) == (AppView { status: Some((msg, v.now)), ..v }),
{
    assert(v.inbox =~= Seq::<MsgView>::empty());
    assert((AppView { inbox: Seq::empty(), ..v }) =~= v);
}

/// Time is counted from an earlier time to a later one; where the clock went back none has passed, so
/// that a message and a list of files stay.
pub proof fn no_time_passes_backwards(v: AppView, msg: Seq<char>, then: u64, lists: Seq<FileListView>)
    requires
        lists.len() == 1,
    ensures
        v.now >= then ==> crate::state::elapsed(then, v.now) == v.now - then,
        v.now < then ==> crate::state::elapsed(then, v.now) == 0,
        v.now < then && v.inbox.len() == 0 && v.status == Some((msg, then)) ==> v.ticked() == v,
        v.now < lists[0].made ==> valid_list(lists, lists[0].root, v.now) == Some(lists[0].files),
{
    if v.inbox.len() == 0 {
        assert(v.inbox =~= Seq::<MsgView>::empty());
        assert((AppView { inbox: Seq::empty(), ..v }) =~= v);
    }
}

/// The messages that came are taken in one after another, in the order in which they came, and each
/// once.
pub proof fn messages_are_taken_in_order(v: AppView, before: Seq<MsgView>, msg: MsgView)
    ensures
        v.received_all(Seq::empty()) == v,
        v.received_all(before.push(msg)) == v.received_all(before).received(msg),
        v.received_all(seq![msg]) == v.received(msg),
        v.status is None && v.inbox == seq![msg] ==> v.ticked() == (AppView {
            inbox: Seq::empty(),
            ..v
        }).received(msg).status_aged(),
{
    assert(before.push(msg).drop_last() == before);
    assert(seq![msg].drop_last() == Seq::<MsgView>::empty());
    let w = AppView { inbox: Seq::empty(), ..v };
    assert(w.received_all(Seq::<MsgView>::empty()) == w);
    assert(v.received_all(Seq::<MsgView>::empty()) == v);
}

// ------------------------------------------------------------ settings

/// A new search path closes its popup and is searched from at once, as by Enter.
pub proof fn a_new_path_is_searched(v: AppView, path: Seq<char>)
    ensures
        v.path_set(path) == (AppView {
            search_path: path,
            popup: None,
            popup_error: None,
            ..v
        }).search_started(),
        v.path_set(path).search_path == path,
        v.path_set(path).popup is None,
{
    reveal(AppView::search_started);
    reveal(AppView::first_selected);
    reveal(AppView::preview_requested);
}

/// New settings close their popup, are saved where there is a file for them, and the last search is
/// repeated with them, without the lists of files that were made before; nothing is searched where
/// nothing was.
pub proof fn new_settings_are_saved_and_used(
    v: AppView,
    dirs: Seq<Seq<char>>,
    text: Seq<char>,
    bytes: u64,
)
    ensures
        ({
            let saved = match v.config_path {
                Some(path) => v.effects.push(EffectView::SaveConfig { path }),
                None => v.effects,
            };
            let d = AppView {
                ignore_dirs: dirs,
                popup: None,
                popup_error: None,
                file_lists: Seq::empty(),
                effects: saved,
                ..v
            };
            let s = AppView {
                size_text: text,
                size_bytes: bytes,
                popup: None,
                popup_error: None,
                file_lists: Seq::empty(),
                effects: saved,
                ..v
            };
            &&& trim(v.last_query).len() == 0 ==> v.dirs_set(dirs) == d && v.size_set(text, bytes) == s
            &&& trim(v.last_query).len() > 0 ==> v.dirs_set(dirs) == d.search_started()
                && v.size_set(text, bytes) == s.search_started()
        }),
{
}

proof fn first_wrong(
    good: Seq<(Seq<char>, DirCheckView)>,
    bad: (Seq<char>, DirCheckView),
    rest: Seq<(Seq<char>, DirCheckView)>,
)
    requires
        forall|i: int| 0 <= i < good.len() ==> (#[trigger] good[i]).1 is Dir,
        !(bad.1 is Dir),
    ensures
        dirs_error(good) is None,
        bad.1 is NotDir ==> dirs_error(good + seq![bad] + rest) == Some("不是目录: "@ + bad.0),
        bad.1 is Missing ==> dirs_error(good + seq![bad] + rest) == Some("路径不存在: "@ + bad.0),
    decreases good.len(),
{
    let all = good + seq![bad] + rest;
    if good.len() == 0 {
        assert(all[0] == bad);
    } else {
        assert(all[0] == good[0]);
        let left = good.drop_first();
        assert(all.drop_first() == left + seq![bad] + rest);
        assert forall|i: int| 0 <= i < left.len() implies (#[trigger] left[i]).1 is Dir by {
            assert(left[i] == good[i + 1]);
        }
        first_wrong(left, bad, rest);
        assert(dirs_error(all) == dirs_error(all.drop_first()));
    }
}

/// Directories are ignored where all of them are directories; otherwise the first that is none is
/// named, with the reason, and nothing else changes.
pub proof fn wrong_directories_are_named(
    v: AppView,
    good: Seq<(Seq<char>, DirCheckView)>,
    bad: (Seq<char>, DirCheckView),
    rest: Seq<(Seq<char>, DirCheckView)>,
)
    requires
        forall|i: int| 0 <= i < good.len() ==> (#[trigger] good[i]).1 is Dir,
        !(bad.1 is Dir),
    ensures
        ({
            let w = v.dirs_checked(good + seq![bad] + rest);
            &&& bad.1 is NotDir ==> w == (AppView {
                popup_error: Some("不是目录: "@ + bad.0),
                ..v
            })
            &&& bad.1 is Missing ==> w == (AppView {
                popup_error: Some("路径不存在: "@ + bad.0),
                ..v
            })
        }),
        v.dirs_checked(good) == v.dirs_set(dirs_found(good)),
{
    first_wrong(good, bad, rest);
}

/// Of directories that were found each is ignored once, in the order in which they were given.
pub proof fn every_directory_is_ignored(
    before: Seq<(Seq<char>, DirCheckView)>,
    given: Seq<char>,
    dir: Seq<char>,
)
    ensures
        dirs_found(Seq::empty()).len() == 0,
        ({
            let found = dirs_found(before.push((given, DirCheckView::Dir(dir))));
            if dirs_found(before).contains(dir) {
                found == dirs_found(before)
            } else {
                found == dirs_found(before).push(dir)
            }
        }),
{
    assert(before.push((given, DirCheckView::Dir(dir))).drop_last() == before);
}

/// Every line with a directory is asked for, without the white space at its ends, in order; lines
/// that are blank are not.
pub proof fn every_line_is_a_directory(
    before: Seq<Seq<char>>,
    line: Seq<char>,
    home: Option<Seq<char>>,
)
    ensures
        requested_dirs(Seq::empty(), home).len() == 0,
        trim(line).len() == 0 ==> requested_dirs(before.push(line), home) == requested_dirs(
            before,
            home,
        ),
        trim(line).len() > 0 ==> requested_dirs(before.push(line), home) == requested_dirs(
            before,
            home,
        ).push((trim(line), tilde_expanded(trim(line), home))),
{
    assert(before.push(line).drop_last() == before);
}

/// The home directory is written `~`, and read so: at the start of a path, alone or before a slash,
/// and nowhere else.
pub proof fn the_home_directory_is_a_tilde(home: Seq<char>, rest: Seq<char>, other: Seq<char>)
    requires
        home.len() > 0,
    ensures
        path_shown(home, Some(home)) == seq!['~'],
        path_shown(home + seq!['/'] + rest, Some(home)) == seq!['~', '/'] + rest,
        path_shown(other, None) == other,
        other != home && (forall|r: Seq<char>| other != #[trigger] (home + seq!['/'] + r))
            ==> path_shown(other, Some(home)) == other,
        tilde_expanded(seq!['~'], Some(home)) == home,
        tilde_expanded(seq!['~', '/'] + rest, Some(home)) == home + seq!['/'] + rest,
        tilde_expanded(other, None) == other,
        other.len() == 0 || other[0] != '~' || (other.len() > 1 && other[1] != '/')
            ==> tilde_expanded(other, Some(home)) == other,
{
    reveal_strlit("~");
    reveal_strlit("~/");
    reveal_strlit("/");
    assert("~"@ == seq!['~']);
    assert("~/"@ == seq!['~', '/']);
    assert("/"@ == seq!['/']);
    let below = home + seq!['/'] + rest;
    let prefix = home + "/"@;
    assert(below.take(prefix.len() as int) == prefix);
    assert(below.skip(prefix.len() as int) == rest);
    assert(below.len() > home.len());
    let t = seq!['~', '/'] + rest;
    assert(t.take(2) == "~/"@);
    assert(t.skip(2) == rest);
    assert(t != "~"@) by {
        assert(t.len() > 1);
    }
    if other != home && (forall|r: Seq<char>| other != #[trigger] (home + seq!['/'] + r)) {
        if strip_prefix(other, prefix) is Some {
            let r = other.skip(prefix.len() as int);
            assert(other == other.take(prefix.len() as int) + r);
            assert(other == home + seq!['/'] + r);
        }
    }
    if other.len() == 0 || other[0] != '~' || (other.len() > 1 && other[1] != '/') {
        assert(other != "~"@);
        if other.len() >= 2 {
            assert(other.take(2)[0] == other[0] && other.take(2)[1] == other[1]);
        }
        assert(strip_prefix(other, "~/"@) is None);
    }
}

// ------------------------------------------------------------ pasting

/// Text that is pasted into the input is put in at the cursor, written as a query, and the cursor
/// stands behind it; nothing else changes.
pub proof fn pasted_text_is_put_in(v: AppView, before: Seq<char>, behind: Seq<char>, text: Seq<char>)
    requires
        v.popup is None,
        v.input == before + behind,
        v.cursor == before.len(),
        before.len() + encoded(text).len() <= usize::MAX,
    ensures
        v.pasted(text) == (AppView {
            input: before + encoded(text) + behind,
            cursor: (before.len() + encoded(text).len()) as int,
            ..v
        }),
{
    reveal(AppView::pasted);
    assert(v.input.take(before.len() as int) == before);
    assert(v.input.skip(before.len() as int) == behind);
}

/// Text that is pasted into a popup is put in at the cursor as plain text, with its line breaks only
/// among the directories to ignore. It takes the place of selected text; an error is taken away, and
/// nothing else changes.
pub proof fn pasted_text_is_put_into_popups(
    v: AppView,
    kind: PopupKind,
    before: Seq<char>,
    behind: Seq<char>,
    text: Seq<char>,
)
    requires
        v.popup == Some(kind),
        v.popup_input == before + behind,
        v.popup_cursor == before.len(),
        before.len() + pasted_lines(text).len() <= usize::MAX,
        before.len() + pasted_line(text).len() <= usize::MAX,
    ensures
        ({
            let new = if kind == PopupKind::IgnoreDirs {
                pasted_lines(text)
            } else {
                pasted_line(text)
            };
            &&& v.popup_select_all ==> v.pasted(text) == (AppView {
                popup_input: new,
                popup_cursor: new.len() as int,
                popup_select_all: false,
                popup_error: None,
                ..v
            })
            &&& !v.popup_select_all ==> v.pasted(text) == (AppView {
                popup_input: before + new + behind,
                popup_cursor: (before.len() + new.len()) as int,
                popup_select_all: false,
                popup_error: None,
                ..v
            })
        }),
{
    reveal(AppView::pasted);
    assert(v.popup_input.take(before.len() as int) == before);
    assert(v.popup_input.skip(before.len() as int) == behind);
}

/// What is kept, and for how long.
pub proof fn what_is_kept_has_its_limits(gen: u64)
    ensures
        crate::search::MAX_RESULTS == 400,
        crate::search::SEARCH_MAX_BYTES == 10 * 1024 * 1024,
        crate::state::FILE_LIST_TTL == 60000,
        crate::state::PREVIEW_CACHE_MAX == 100,
        crate::state::STATUS_TTL == 5000,
        crate::state::next_gen(gen) != gen,
        gen < u64::MAX ==> crate::state::next_gen(gen) == gen + 1,
        crate::state::next_gen(u64::MAX) == 0,
{
}

// ------------------------------------------------------------ the list on the screen

/// The list is scrolled no more than needed: where the selected result is among those shown it stays,
/// and a list that fills its lines leaves none empty.
pub proof fn the_list_moves_no_more_than_needed(v: AppView, height: int, i: usize)
    requires
        height > 0,
        v.selected == Some(i),
        i < v.results.len(),
        v.list_offset >= 0,
    ensures
        ({
            let w = v.list_shown(height);
            &&& w == (AppView { list_offset: w.list_offset, ..v })
            &&& w.list_offset <= i < w.list_offset + height
            &&& v.list_offset <= i < v.list_offset + height && v.list_offset + height
                <= v.results.len() ==> w.list_offset == v.list_offset
            &&& w.list_offset == 0 || w.list_offset + height <= v.results.len()
            &&& w.list_offset >= 0
        }),
{
}

/// Where nothing is selected the list is shown from its first result on; in no room it stays.
pub proof fn unselected_lists_start_at_the_first(v: AppView, height: int)
    requires
        height >= 0,
    ensures
        height > 0 && v.selected is None ==> v.list_shown(height) == (AppView { list_offset: 0, ..v }),
        v.list_shown(0) == v,
{
}

} // verus!
