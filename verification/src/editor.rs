//! Opening a file in an editor.

use crate::paths::{join_path, join_path_of};
use crate::preview::opt_text;
use crate::search::{CommandLine, CommandView};
use crate::text::{
    is_whitespace, signed_decimal, signed_decimal_of, split, split_str, texts, to_chars, trim,
    trim_str, whitespace,
};
use vstd::prelude::*;

verus! {

/// The editors that are looked for, in this order.
pub const EDITORS: [&'static str; 5] = ["nvim", "vim", "code", "nano", "vi"];

/// The editor that a variable names, where it names one.
pub open spec fn named(var: Option<Seq<char>>) -> Option<Seq<char>> {
    match var {
        Some(v) => if trim(v).len() > 0 {
            Some(trim(v))
        } else {
            None
        },
        None => None,
    }
}

/// The first editor at or behind `i` that is installed.
pub open spec fn first_installed(installed: Seq<bool>, i: int) -> Option<Seq<char>>
    decreases 5 - i,
{
    if i >= 5 {
        None
    } else if installed[i] {
        Some(EDITORS[i]@)
    } else {
        first_installed(installed, i + 1)
    }
}

/// The editor to use: what `VISUAL` or `EDITOR` names, or the first known one that is installed.
pub open spec fn chosen_editor(
    visual: Option<Seq<char>>,
    editor: Option<Seq<char>>,
    installed: Seq<bool>,
) -> Option<Seq<char>> {
    match named(visual) {
        Some(e) => Some(e),
        None => match named(editor) {
            Some(e) => Some(e),
            None => first_installed(installed, 0),
        },
    }
}

fn named_of(var: &Option<String>) -> (r: Option<String>)
    ensures
        opt_text(r) == named(opt_text(*var)),
{
    match var {
        Some(v) => {
            let t = trim_str(v.as_str());
            if t.as_str().is_empty() {
                None
            } else {
                Some(t)
            }
        },
        None => None,
    }
}

/// Chooses the editor: from the variables, or the first of `EDITORS` that `installed` marks.
pub fn detect_editor(
    visual: &Option<String>,
    editor: &Option<String>,
    installed: &Vec<bool>,
) -> (r: Option<String>)
    requires
        installed@.len() == 5,
    ensures
        opt_text(r) == chosen_editor(opt_text(*visual), opt_text(*editor), installed@),
{
    match named_of(visual) {
        Some(e) => return Some(e),
        None => {},
    }
    match named_of(editor) {
        Some(e) => return Some(e),
        None => {},
    }
    let mut i: usize = 0;
    while i < 5
        invariant
            i <= 5,
            installed@.len() == 5,
            named(opt_text(*visual)) is None,
            named(opt_text(*editor)) is None,
            first_installed(installed@, 0) == first_installed(installed@, i as int),
        decreases 5 - i,
    {
        if installed[i] {
            return Some(EDITORS[i].to_owned());
        }
        i += 1;
    }
    None
}

/// The paths at which a program may lie, for the directories that `path_var` lists.
pub open spec fn program_paths(path_var: Seq<char>, name: Seq<char>) -> Seq<Seq<char>> {
    split(path_var, ':').map_values(|d: Seq<char>| join_path(d, name))
}

/// Gives the paths at which the program `name` may lie, for the value of `PATH`.
pub fn which(path_var: &str, name: &str) -> (r: Vec<String>)
    ensures
        texts(r@) == program_paths(path_var@, name@),
{
    let dirs = split_str(path_var, ':');
    let ghost f = |d: Seq<char>| join_path(d, name@);
    let mut r: Vec<String> = Vec::new();
    let mut i: usize = 0;
    while i < dirs.len()
        invariant
            i <= dirs@.len(),
            f == (|d: Seq<char>| join_path(d, name@)),
            texts(r@) == texts(dirs@).take(i as int).map_values(f),
        decreases dirs@.len() - i,
    {
        let full = join_path_of(dirs[i].as_str(), name);
        let ghost before = texts(r@);
        r.push(full);
        assert(texts(r@) == before.push(f(dirs@[i as int]@)));
        assert(texts(dirs@).take(i + 1) == texts(dirs@).take(i as int).push(dirs@[i as int]@));
        i += 1;
    }
    assert(texts(dirs@).take(i as int) == texts(dirs@));
    r
}

/// Tells from the mode of a file whether somebody may execute it.
pub fn is_executable(mode: u32) -> (r: bool)
    ensures
        r == (mode & 0o111 != 0),
{
    mode & 0o111 != 0
}

/// Tells whether a file is opened as another user: it cannot be read, or not be written.
pub fn needs_sudo(readable: bool, writable: bool) -> (r: bool)
    ensures
        r == (!readable || !writable),
{
    !readable || !writable
}

/// The words of `s`, between white space.
pub open spec fn words(s: Seq<char>) -> Seq<Seq<char>>
    decreases s.len(),
{
    if s.len() == 0 {
        Seq::empty()
    } else {
        let before = words(s.drop_last());
        if whitespace(s.last()) {
            before
        } else if s.len() == 1 || whitespace(s[s.len() - 2]) {
            before.push(seq![s.last()])
        } else {
            before.drop_last().push(before.last().push(s.last()))
        }
    }
}

fn words_of(s: &str) -> (r: Vec<String>)
    ensures
        texts(r@) == words(s@),
{
    let chars = to_chars(s);
    let n: usize = chars.len();
    let mut done: Vec<String> = Vec::new();
    let mut word = String::new();
    let mut inside: bool = false;
    let mut i: usize = 0;
    assert(s@.take(0).len() == 0);
    assert(texts(done@) == Seq::<Seq<char>>::empty());
    while i < n
        invariant
            i <= n == chars@.len(),
            chars@ == s@,
            inside == (i > 0 && !whitespace(s@[i - 1])),
            inside ==> words(s@.take(i as int)) == texts(done@).push(word@),
            !inside ==> words(s@.take(i as int)) == texts(done@),
        decreases n - i,
    {
        let c = chars[i];
        let ghost now = s@.take(i + 1);
        let ghost before = texts(done@);
        assert(now.drop_last() == s@.take(i as int));
        assert(now.last() == c);
        assert(i > 0 ==> now[now.len() - 2] == s@[i - 1]);
        if is_whitespace(c) {
            if inside {
                done.push(word);
                word = String::new();
                assert(texts(done@) == words(s@.take(i as int)));
            }
            inside = false;
        } else if inside {
            let ghost old_word = word@;
            word.push(c);
            assert(before.push(old_word).drop_last() == before);
            assert(words(now) == before.push(word@));
        } else {
            word = String::new();
            word.push(c);
            assert(word@ == seq![c]);
            inside = true;
        }
        i += 1;
    }
    assert(s@.take(i as int) == s@);
    if inside {
        let ghost before = texts(done@);
        done.push(word);
        assert(texts(done@) == before.push(word@));
    }
    done
}

/// The command that opens `path` in `editor`, which may have arguments of its own.
pub open spec fn open_command(editor: Seq<char>, path: Seq<char>, sudo: bool) -> CommandView {
    let parts = words(editor);
    let program = if parts.len() > 0 {
        parts[0]
    } else {
        editor
    };
    let args = if parts.len() > 0 {
        parts.drop_first().push(path)
    } else {
        seq![path]
    };
    if sudo {
        CommandView { program: "sudo"@, args: seq![program] + args, dir: None }
    } else {
        CommandView { program, args, dir: None }
    }
}

/// Gives the command that opens `path` in `editor`.
pub fn open(editor: &str, path: &str, sudo: bool) -> (cmd: CommandLine)
    ensures
        cmd@ == open_command(editor@, path@, sudo),
{
    let parts = words_of(editor);
    let ghost all = texts(parts@);
    let program: String = if parts.len() > 0 {
        parts[0].clone()
    } else {
        editor.to_owned()
    };
    assert(parts@.len() > 0 ==> program@ == all[0]);
    let mut args: Vec<String> = Vec::new();
    if sudo {
        args.push(program.clone());
    }
    let ghost start = texts(args@);
    let mut i: usize = 1;
    assert(all.len() > 0 ==> start + all.subrange(1, 1) == start);
    while i < parts.len()
        invariant
            1 <= i,
            i <= parts@.len() || i == 1,
            all == texts(parts@),
            parts@.len() > 0 ==> texts(args@) == start + all.subrange(1, i as int),
            parts@.len() == 0 ==> texts(args@) == start,
        decreases parts@.len() - i,
    {
        let ghost before = texts(args@);
        args.push(parts[i].clone());
        assert(texts(args@) == before.push(all[i as int]));
        assert(all.subrange(1, i + 1) == all.subrange(1, i as int).push(all[i as int]));
        i += 1;
    }
    let ghost before = texts(args@);
    args.push(path.to_owned());
    assert(texts(args@) == before.push(path@));
    let cmd = if sudo {
        CommandLine { program: "sudo".to_owned(), args, dir: None }
    } else {
        CommandLine { program, args, dir: None }
    };
    assert(all.len() > 0 ==> all.drop_first() == all.subrange(1, all.len() as int));
    assert(cmd@.args == open_command(editor@, path@, sudo).args);
    cmd
}

/// How an editor ended.
#[derive(Debug)]
pub enum EditorOutcome {
    Success,
    Code(i32),
    Failed(String),
}

/// Gives the message for how the editor `editor` ended.
pub fn editor_message(editor: &str, outcome: &EditorOutcome) -> (r: String)
    ensures
        r@ == match *outcome {
            EditorOutcome::Success => "已关闭编辑器（"@ + editor@ + "）"@,
            EditorOutcome::Code(code) => "编辑器退出码: "@ + signed_decimal(code as int),
            EditorOutcome::Failed(reason) => "打开失败: "@ + reason@,
        },
{
    match outcome {
        EditorOutcome::Success => {
            let mut r = "已关闭编辑器（".to_owned();
            r.append(editor);
            r.append("）");
            r
        },
        EditorOutcome::Code(code) => {
            let mut r = "编辑器退出码: ".to_owned();
            r.append(signed_decimal_of(*code as i64).as_str());
            r
        },
        EditorOutcome::Failed(reason) => {
            let mut r = "打开失败: ".to_owned();
            r.append(reason.as_str());
            r
        },
    }
}

} // verus!
