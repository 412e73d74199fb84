//! Which programs are run outside, and what is made of what they print.

use crate::clipboard::{attempt_view, failure, some_worked, tool_command, CopyErr};
use crate::config::config_file;
use crate::editor::{chosen_editor, open_command, program_paths, words};
use crate::jobs::{files_done, files_of, nothing_more, ContentView};
use crate::paths::join_path;
use crate::search::{counted, filtered, CommandView, ItemView};
use crate::state::MsgView;
use crate::text::{split, trim, whitespace};
use vstd::prelude::*;

verus! {

// ------------------------------------------------------------ the clipboard

/// The programs for the clipboard, in the order in which they are tried, and what they are told.
pub proof fn clipboard_programs_are_tried_in_order()
    ensures
        tool_command(0) == (CommandView {
            program: "wl-copy"@,
            args: Seq::<Seq<char>>::empty(),
            dir: None,
        }),
        tool_command(1) == (CommandView {
            program: "xclip"@,
            args: seq!["-selection"@, "clipboard"@],
            dir: None,
        }),
        tool_command(2) == (CommandView {
            program: "xsel"@,
            args: seq!["--clipboard"@, "--input"@],
            dir: None,
        }),
{
}

/// Copying worked where one of the programs did it.
pub proof fn one_program_is_enough(
    tried: Seq<Result<(), Option<Seq<char>>>>,
    last: Result<(), Option<Seq<char>>>,
)
    ensures
        !some_worked(Seq::empty()),
        some_worked(tried.push(last)) <==> some_worked(tried) || last is Ok,
{
    let all = tried.push(last);
    if some_worked(tried) {
        let i = choose|i: int| 0 <= i < tried.len() && (#[trigger] tried[i]) is Ok;
        assert(all[i] is Ok);
    }
    if last is Ok {
        assert(all[tried.len() as int] is Ok);
    }
    if some_worked(all) && !(last is Ok) {
        let i = choose|i: int| 0 <= i < all.len() && (#[trigger] all[i]) is Ok;
        assert(tried[i] is Ok);
    }
}

/// An attempt that worked is seen as such; a program that is not there gives no reason, and one that
/// failed gives its own.
pub proof fn attempts_are_seen_as_they_ended(reason: String)
    ensures
        attempt_view(Ok(())) is Ok,
        attempt_view(Err(CopyErr::NotFound)) == Err::<(), Option<Seq<char>>>(None),
        attempt_view(Err(CopyErr::Failed(reason))) == Err::<(), Option<Seq<char>>>(Some(reason@)),
{
}

proof fn no_reason(tried: Seq<Result<(), Option<Seq<char>>>>)
    requires
        forall|i: int| 0 <= i < tried.len() ==> #[trigger] tried[i] == Err::<(), Option<Seq<char>>>(None),
    ensures
        failure(tried) == "未找到剪贴板工具（需 wl-copy / xclip / xsel）"@,
    decreases tried.len(),
{
    if tried.len() > 0 {
        assert(tried.last() == tried[tried.len() - 1]);
        let t = tried.drop_last();
        assert forall|i: int| 0 <= i < t.len() implies #[trigger] t[i] == Err::<(), Option<Seq<char>>>(
            None,
        ) by {
            assert(t[i] == tried[i]);
        }
        no_reason(t);
    }
}

proof fn last_reason(tried: Seq<Result<(), Option<Seq<char>>>>, k: int, reason: Seq<char>)
    requires
        0 <= k < tried.len(),
        tried[k] == Err::<(), Option<Seq<char>>>(Some(reason)),
        forall|i: int|
            k < i < tried.len() ==> #[trigger] tried[i] == Err::<(), Option<Seq<char>>>(None),
    ensures
        failure(tried) == tool_command(k).program + ": "@ + reason,
    decreases tried.len(),
{
    if k < tried.len() - 1 {
        assert(tried.last() == tried[tried.len() - 1]);
        let t = tried.drop_last();
        assert(t[k] == tried[k]);
        assert forall|i: int| k < i < t.len() implies #[trigger] t[i] == Err::<
            (),
            Option<Seq<char>>,
        >(None) by {
            assert(t[i] == tried[i]);
        }
        last_reason(t, k, reason);
    }
}

/// Where none of the programs is there, all of them are named. Otherwise the last one that was there
/// is named, with its reason.
pub proof fn failed_copies_are_explained(
    tried: Seq<Result<(), Option<Seq<char>>>>,
    k: int,
    reason: Seq<char>,
)
    requires
        tried.len() == 3,
        -1 <= k < 3,
        k >= 0 ==> tried[k] == Err::<(), Option<Seq<char>>>(Some(reason)),
        forall|i: int| k < i < 3 ==> #[trigger] tried[i] == Err::<(), Option<Seq<char>>>(None),
    ensures
        k == -1 ==> failure(tried) == "未找到剪贴板工具（需 wl-copy / xclip / xsel）"@,
        k == 0 ==> failure(tried) == "wl-copy"@ + ": "@ + reason,
        k == 1 ==> failure(tried) == "xclip"@ + ": "@ + reason,
        k == 2 ==> failure(tried) == "xsel"@ + ": "@ + reason,
{
    if k == -1 {
        no_reason(tried);
    } else {
        last_reason(tried, k, reason);
    }
}

// ------------------------------------------------------------ the editor

/// What `VISUAL` names is the editor; where it names none, what `EDITOR` names. A variable names an
/// editor where it holds more than white space.
pub proof fn the_variables_name_the_editor(
    visual: Seq<char>,
    editor: Option<Seq<char>>,
    installed: Seq<bool>,
)
    ensures
        trim(visual).len() > 0 ==> chosen_editor(Some(visual), editor, installed) == Some(
            trim(visual),
        ),
        trim(visual).len() == 0 ==> chosen_editor(Some(visual), editor, installed) == chosen_editor(
            None,
            editor,
            installed,
        ),
        editor is Some && trim(editor->0).len() > 0 ==> chosen_editor(None, editor, installed) == Some(
            trim(editor->0),
        ),
        editor is Some && trim(editor->0).len() == 0 ==> chosen_editor(None, editor, installed)
            == chosen_editor(None, None, installed),
{
}

/// Where no variable names an editor, the first that is installed is taken of `nvim`, `vim`, `code`,
/// `nano` and `vi`.
pub proof fn the_first_editor_is_taken(i: int, installed: Seq<bool>)
    requires
        installed.len() == 5,
        0 <= i <= 5,
        forall|k: int| 0 <= k < i ==> !(#[trigger] installed[k]),
        i < 5 ==> installed[i],
    ensures
        i == 0 ==> chosen_editor(None, None, installed) == Some("nvim"@),
        i == 1 ==> chosen_editor(None, None, installed) == Some("vim"@),
        i == 2 ==> chosen_editor(None, None, installed) == Some("code"@),
        i == 3 ==> chosen_editor(None, None, installed) == Some("nano"@),
        i == 4 ==> chosen_editor(None, None, installed) == Some("vi"@),
        i == 5 ==> chosen_editor(None, None, installed) is None,
{
    reveal_with_fuel(crate::editor::first_installed, 6);
    assert(i > 0 ==> !installed[0]);
    assert(i > 1 ==> !installed[1]);
    assert(i > 2 ==> !installed[2]);
    assert(i > 3 ==> !installed[3]);
    assert(i > 4 ==> !installed[4]);
}

proof fn some_word(s: Seq<char>)
    requires
        s.len() > 0,
        !whitespace(s.last()),
    ensures
        words(s).len() > 0,
{
}

proof fn one_word(w: Seq<char>)
    requires
        w.len() > 0,
        forall|i: int| 0 <= i < w.len() ==> !whitespace(#[trigger] w[i]),
    ensures
        words(w) == seq![w],
    decreases w.len(),
{
    assert(!whitespace(w[w.len() - 1]));
    let t = w.drop_last();
    if w.len() == 1 {
        assert(words(t) == Seq::<Seq<char>>::empty());
        assert(seq![w.last()] == w);
    } else {
        assert forall|i: int| 0 <= i < t.len() implies !whitespace(#[trigger] t[i]) by {
            assert(t[i] == w[i]);
        }
        one_word(t);
        assert(!whitespace(w[w.len() - 2]));
        assert(seq![t].drop_last() == Seq::<Seq<char>>::empty());
        assert(seq![t].last().push(w.last()) == w);
    }
}

proof fn words_of_both(a: Seq<char>, c: char, b: Seq<char>)
    requires
        whitespace(c),
    ensures
        words(a + seq![c] + b) == words(a) + words(b),
    decreases b.len(),
{
    let s = a + seq![c] + b;
    if b.len() == 0 {
        assert(s.drop_last() == a);
        assert(s.last() == c);
        assert(words(a) + words(b) == words(a));
    } else {
        let t = b.drop_last();
        assert(s.drop_last() == a + seq![c] + t);
        assert(s.last() == b.last());
        words_of_both(a, c, t);
        if !whitespace(b.last()) {
            if b.len() == 1 {
                assert(s[s.len() - 2] == c);
            } else {
                assert(s[s.len() - 2] == b[b.len() - 2]);
                if !whitespace(b[b.len() - 2]) {
                    some_word(t);
                    assert((words(a) + words(t)).last() == words(t).last());
                    assert((words(a) + words(t)).drop_last() == words(a) + words(t).drop_last());
                }
            }
        }
        assert(words(s) == words(a) + words(b));
    }
}

/// White space divides a text into words, and nothing else does.
pub proof fn white_space_divides_words(a: Seq<char>, c: char, b: Seq<char>)
    requires
        whitespace(c),
    ensures
        words(a + seq![c] + b) == words(a) + words(b),
        words(Seq::empty()) == Seq::<Seq<char>>::empty(),
        a.len() > 0 && (forall|i: int| 0 <= i < a.len() ==> !whitespace(#[trigger] a[i])) ==> words(a)
            == seq![a],
{
    words_of_both(a, c, b);
    if a.len() > 0 && (forall|i: int| 0 <= i < a.len() ==> !whitespace(#[trigger] a[i])) {
        one_word(a);
    }
}

/// A file is opened by the first word of the editor; the other words and then the path are its
/// arguments. As another user the whole command is run by `sudo`.
pub proof fn editors_get_their_arguments(
    program: Seq<char>,
    c: char,
    more: Seq<char>,
    path: Seq<char>,
)
    requires
        program.len() > 0,
        forall|i: int| 0 <= i < program.len() ==> !whitespace(#[trigger] program[i]),
        whitespace(c),
    ensures
        open_command(program, path, false) == (CommandView { program, args: seq![path], dir: None }),
        open_command(program, path, true) == (CommandView {
            program: "sudo"@,
            args: seq![program, path],
            dir: None,
        }),
        open_command(program + seq![c] + more, path, false) == (CommandView {
            program,
            args: words(more).push(path),
            dir: None,
        }),
        open_command(program + seq![c] + more, path, true) == (CommandView {
            program: "sudo"@,
            args: seq![program] + words(more).push(path),
            dir: None,
        }),
{
    one_word(program);
    words_of_both(program, c, more);
    assert((seq![program] + words(more)).drop_first() == words(more));
    assert(seq![program].drop_first() == Seq::<Seq<char>>::empty());
    assert(open_command(program, path, false).args == seq![path]);
    assert(open_command(program, path, true).args == seq![program, path]);
}

/// A program is looked for in every directory that `PATH` lists, in order.
pub proof fn every_directory_is_looked_in(dir: Seq<char>, rest: Seq<char>, name: Seq<char>)
    requires
        !dir.contains(':'),
    ensures
        program_paths(dir + seq![':'] + rest, name) == seq![join_path(dir, name)] + program_paths(
            rest,
            name,
        ),
        program_paths(dir, name) == seq![join_path(dir, name)],
{
    crate::text_laws::separators_divide(dir, rest, ':');
    let f = |d: Seq<char>| join_path(d, name);
    assert((seq![dir] + split(rest, ':')).map_values(f) == seq![f(dir)] + split(rest, ':').map_values(
        f,
    ));
    assert(seq![dir].map_values(f) == seq![f(dir)]);
}

/// The settings are kept in one file below the home directory.
pub proof fn settings_are_kept_at_home(home: Seq<char>)
    ensures
        home.len() > 0 && home.last() != '/' ==> config_file(Some(home)) == Some(
            home + "/.config/sift/config.toml"@,
        ),
        home.len() > 0 && home.last() == '/' ==> config_file(Some(home)) == Some(
            home + ".config/sift/config.toml"@,
        ),
        home.len() == 0 ==> config_file(Some(home)) is None,
        config_file(None) is None,
{
    reveal_strlit("/.config/sift/config.toml");
    reveal_strlit(".config/sift/config.toml");
    assert(home.push('/') + ".config/sift/config.toml"@ == home + "/.config/sift/config.toml"@);
}

// ------------------------------------------------------------ searches

/// A search of file names ends with the files that match. The list of files goes back to be kept
/// where it was made for this search, and not where it was at hand.
pub proof fn searches_of_names_end_with_their_results(
    gen: u64,
    root: Seq<char>,
    query: Seq<char>,
    files: Seq<Seq<char>>,
)
    ensures
        files_done(gen, root, query, files, true) == (MsgView::SearchDone {
            gen,
            content: false,
            items: filtered(root, query, files),
            new_file_list: Some((root, files)),
        }),
        files_done(gen, root, query, files, false) == (MsgView::SearchDone {
            gen,
            content: false,
            items: filtered(root, query, files),
            new_file_list: None,
        }),
        nothing_more(gen, true) == (MsgView::SearchDone {
            gen,
            content: true,
            items: Seq::<ItemView>::empty(),
            new_file_list: None,
        }),
        nothing_more(gen, false) == (MsgView::SearchDone {
            gen,
            content: false,
            items: Seq::<ItemView>::empty(),
            new_file_list: None,
        }),
{
}

/// Each line of `fd` that is not empty is a file, in order.
pub proof fn each_line_is_a_file(lines: Seq<Seq<char>>, line: Seq<char>)
    ensures
        files_of(Seq::empty()).len() == 0,
        line.len() > 0 ==> files_of(lines.push(line)) == files_of(lines).push(line),
        line.len() == 0 ==> files_of(lines.push(line)) == files_of(lines),
{
    reveal(Seq::filter);
    assert(lines.push(line).drop_last() == lines);
}

/// The results of a search of contents are sent when a hundred have come together, or when sixteen
/// milliseconds have passed since some were sent; until then they wait, and each waits only once.
pub proof fn results_wait_for_others(s: ContentView, line: Seq<char>, item: ItemView, now: u64)
    requires
        counted(s.root, line) == Some(item),
    ensures
        ({
            let send = s.batch.len() >= 99 || now - s.flushed >= 16;
            &&& s.full(line, now) == send
            &&& send ==> s.sent(line, now) == s.batch.push(item) && s.behind(line, now) == (
            ContentView { batch: Seq::empty(), flushed: now, ..s })
            &&& !send ==> s.sent(line, now) == Seq::<ItemView>::empty() && s.behind(line, now) == (
            ContentView { batch: s.batch.push(item), ..s })
        }),
{
}

/// A line without a result adds none; results that waited long enough are sent all the same.
pub proof fn lines_without_results_add_none(s: ContentView, line: Seq<char>, now: u64)
    requires
        counted(s.root, line) is None,
        s.batch.len() < 100,
    ensures
        ({
            let send = s.batch.len() > 0 && now - s.flushed >= 16;
            &&& s.full(line, now) == send
            &&& send ==> s.sent(line, now) == s.batch && s.behind(line, now) == (ContentView {
                batch: Seq::empty(),
                flushed: now,
                ..s
            })
            &&& !send ==> s.sent(line, now) == Seq::<ItemView>::empty() && s.behind(line, now) == s
        }),
{
}

} // verus!
