//! Searching: file names by `fd`, file contents by `rg`.
//!
//! Only the file name is matched, never the directories that lead to it. The directories that
//! hold virtual or very large trees are always left out.

use crate::escapes::{decoded, has_line_break, sanitized};
use crate::fuzzy::score_of;
use crate::paths::{
    absolute, file_name, file_name_of, join_path, join_path_of, relative_to, relative_to_of,
};
use crate::sort::{
    in_order, keys, sort, sorted, sorted_element, sorted_in_order, sorted_len, Ranked,
};
use crate::text::{
    control, decimal, decimal_of, from_chars, has_prefix, last_position, lex_at_most, lex_le,
    lex_le_total, lex_le_transitive, lines, lines_of, parse_number, parse_number_of, rfind_char,
    same_str, starts_with, strip_prefix, texts, to_chars, trim, trim_chars,
};
use vstd::prelude::*;
use vstd::slice::slice_subrange;

pub use crate::escapes::{decode_escapes, encode_paste, sanitize_display};
pub use crate::fuzzy::{fuzzy_score, levenshtein_within};

verus! {

/// How many results a search gives at most.
pub const MAX_RESULTS: usize = 400;

/// What is searched.
#[derive(Clone, Copy, PartialEq, Eq, Debug, Structural)]
pub enum SearchMode {
    FileName,
    Content,
}

impl SearchMode {
    /// The other mode.
    pub open spec fn other(self) -> SearchMode {
        match self {
            SearchMode::FileName => SearchMode::Content,
            SearchMode::Content => SearchMode::FileName,
        }
    }

    /// Changes to the other mode.
    pub fn toggle(&mut self)
        ensures
            *final(self) == old(self).other(),
    {
        *self = match *self {
            SearchMode::FileName => SearchMode::Content,
            SearchMode::Content => SearchMode::FileName,
        };
    }

    /// The name of the mode on the screen.
    pub fn label(&self) -> (r: &'static str)
        ensures
            r@ == self.label_text(),
    {
        match self {
            SearchMode::FileName => "文件名",
            SearchMode::Content => "文件内容",
        }
    }

    /// The name of the mode on the screen.
    pub open spec fn label_text(self) -> Seq<char> {
        match self {
            SearchMode::FileName => "文件名"@,
            SearchMode::Content => "文件内容"@,
        }
    }
}

/// Changing the mode twice gives the first mode back.
pub proof fn toggle_twice(mode: SearchMode)
    ensures
        mode.other().other() == mode,
        mode.other() != mode,
{
}

/// One result of a search.
#[derive(Clone, Debug)]
pub struct SearchResultItem {
    pub path: String,
    /// The path from the search root, as it is shown.
    pub display: String,
    /// How often the query occurs in the file, where contents are searched.
    pub matches: u64,
    pub score: i64,
    /// The rank of the directory: 0 for `/home`, `/etc` and `/usr/local`, 2 for the rest of
    /// `/usr` and for `/var`, 1 for others. It orders results of the same score.
    pub priority: u8,
}

/// What is seen of a result.
#[verifier::ext_equal]
pub struct ItemView {
    pub path: Seq<char>,
    pub display: Seq<char>,
    pub matches: u64,
    pub score: i64,
    pub priority: u8,
}

impl View for SearchResultItem {
    type V = ItemView;

    open spec fn view(&self) -> ItemView {
        ItemView {
            path: self.path@,
            display: self.display@,
            matches: self.matches,
            score: self.score,
            priority: self.priority,
        }
    }
}

/// The order of results: by score, the highest first, then by priority, then by the text shown.
pub open spec fn ranks_before(a: ItemView, b: ItemView) -> bool {
    if a.score != b.score {
        a.score > b.score
    } else if a.priority != b.priority {
        a.priority < b.priority
    } else {
        lex_le(a.display, b.display)
    }
}

impl Ranked for SearchResultItem {
    type Key = ItemView;

    open spec fn key(self) -> ItemView {
        self@
    }

    open spec fn le(a: ItemView, b: ItemView) -> bool {
        ranks_before(a, b)
    }

    proof fn le_total(a: ItemView, b: ItemView) {
        lex_le_total(a.display, b.display);
    }

    proof fn le_transitive(a: ItemView, b: ItemView, c: ItemView) {
        if a.score == b.score && b.score == c.score && a.priority == b.priority && b.priority
            == c.priority {
            lex_le_transitive(a.display, b.display, c.display);
        }
    }

    fn at_most(&self, other: &Self) -> (r: bool) {
        if self.score != other.score {
            self.score > other.score
        } else if self.priority != other.priority {
            self.priority < other.priority
        } else {
            lex_at_most(self.display.as_str(), other.display.as_str())
        }
    }
}

/// What is seen of a list of results.
pub open spec fn views(items: Seq<SearchResultItem>) -> Seq<ItemView> {
    keys(items)
}

/// The first results of `items` in order, as many as a search gives.
pub open spec fn best(items: Seq<ItemView>) -> Seq<ItemView> {
    let ordered = sorted::<SearchResultItem>(items);
    if ordered.len() <= MAX_RESULTS {
        ordered
    } else {
        ordered.take(MAX_RESULTS as int)
    }
}

/// Orders results and drops those behind the last place.
pub fn rank(items: Vec<SearchResultItem>) -> (r: Vec<SearchResultItem>)
    ensures
        views(r@) == best(views(items@)),
{
    let mut r = sort(items);
    let ghost ordered = keys(r@);
    r.truncate(MAX_RESULTS);
    proof {
        if ordered.len() > MAX_RESULTS {
            assert(keys(r@) == ordered.take(MAX_RESULTS as int));
        }
    }
    r
}

/// There are never more results than a search gives, and they are in order.
pub proof fn best_is_ordered(items: Seq<ItemView>)
    ensures
        best(items).len() <= MAX_RESULTS,
        best(items).len() <= items.len(),
        items.len() <= MAX_RESULTS ==> best(items).len() == items.len(),
        in_order::<SearchResultItem>(best(items)),
{
    sorted_len::<SearchResultItem>(items);
    sorted_in_order::<SearchResultItem>(items);
    let ordered = sorted::<SearchResultItem>(items);
    let r = best(items);
    assert forall|i: int, j: int| 0 <= i <= j < r.len() implies SearchResultItem::le(r[i], r[j]) by {
        assert(SearchResultItem::le(ordered[i], ordered[j]));
    }
}

// ------------------------------------------------------------ directories

/// Directories that are never searched: virtual or very large trees.
pub const MANDATORY_IGNORES: [&'static str; 11] = [
    "/proc",
    "/sys",
    "/dev",
    "/run",
    "/tmp",
    "/var/tmp",
    "/var/cache",
    "/mnt",
    "/media",
    "/var/lib",
    "/snap",
];

/// The texts of `MANDATORY_IGNORES`.
pub open spec fn mandatory_ignores() -> Seq<Seq<char>> {
    seq![
        "/proc"@,
        "/sys"@,
        "/dev"@,
        "/run"@,
        "/tmp"@,
        "/var/tmp"@,
        "/var/cache"@,
        "/mnt"@,
        "/media"@,
        "/var/lib"@,
        "/snap"@,
    ]
}

/// Whether the text `s` names the directory `dir` or something in it.
pub open spec fn in_dir(s: Seq<char>, dir: Seq<char>) -> bool {
    s == dir || starts_with(s, dir.push('/'))
}

/// The rank of the directory that `path` lies in.
pub open spec fn priority_of(path: Seq<char>) -> u8 {
    if in_dir(path, "/home"@) || in_dir(path, "/etc"@) || in_dir(path, "/usr/local"@) {
        0
    } else if in_dir(path, "/usr"@) || in_dir(path, "/var"@) {
        2
    } else {
        1
    }
}

fn lies_in(s: &str, dir: &str) -> (r: bool)
    ensures
        r == in_dir(s@, dir@),
{
    let mut slashed = dir.to_owned();
    slashed.push('/');
    same_str(s, dir) || has_prefix(s, slashed.as_str())
}

/// Ranks the directory that `path` lies in.
pub fn path_priority(path: &str) -> (r: u8)
    ensures
        r == priority_of(path@),
{
    if lies_in(path, "/home") || lies_in(path, "/etc") || lies_in(path, "/usr/local") {
        0
    } else if lies_in(path, "/usr") || lies_in(path, "/var") {
        2
    } else {
        1
    }
}

/// The parts of `dirs` below `root`, each once and in order; `root` itself is not among them.
pub open spec fn rels_below(root: Seq<char>, dirs: Seq<Seq<char>>) -> Seq<Seq<char>>
    decreases dirs.len(),
{
    if dirs.len() == 0 {
        Seq::empty()
    } else {
        let before = rels_below(root, dirs.drop_last());
        match relative_to(dirs.last(), root) {
            Some(rel) => if rel.len() > 0 && !before.contains(rel) {
                before.push(rel)
            } else {
                before
            },
            None => before,
        }
    }
}

/// The directories that a search from `root` leaves out, as paths from `root`.
pub open spec fn ignored_rels(root: Seq<char>, extra: Seq<Seq<char>>) -> Seq<Seq<char>> {
    rels_below(root, mandatory_ignores() + extra)
}

/// Tells whether `list` holds the text `s`.
pub(crate) fn holds_text(list: &Vec<String>, s: &str) -> (r: bool)
    ensures
        r == texts(list@).contains(s@),
{
    let mut i: usize = 0;
    while i < list.len()
        invariant
            i <= list@.len(),
            forall|k: int| 0 <= k < i ==> texts(list@)[k] != s@,
        decreases list@.len() - i,
    {
        if same_str(list[i].as_str(), s) {
            assert(texts(list@)[i as int] == s@);
            return true;
        }
        assert(texts(list@)[i as int] != s@);
        i += 1;
    }
    false
}

fn push_text(list: &mut Vec<String>, s: &str)
    ensures
        texts(final(list)@) == texts(old(list)@).push(s@),
{
    list.push(s.to_owned());
    assert(texts(list@) == texts(old(list)@).push(s@));
}

fn add_rel(rels: &mut Vec<String>, root: &str, dir: &str, Ghost(dirs): Ghost<Seq<Seq<char>>>)
    requires
        texts(old(rels)@) == rels_below(root@, dirs),
    ensures
        texts(final(rels)@) == rels_below(root@, dirs.push(dir@)),
{
    assert(dirs.push(dir@).drop_last() == dirs);
    match relative_to_of(dir, root) {
        Some(rel) => {
            if !rel.as_str().is_empty() && !holds_text(rels, rel.as_str()) {
                push_text(rels, rel.as_str());
            }
        },
        None => {},
    }
}

/// The directories that a search from `root` leaves out, as paths from `root`: the ones that are
/// always left out and those of `extra`, as far as they lie below `root`.
pub fn ignore_rels(root: &str, extra: &Vec<String>) -> (rels: Vec<String>)
    ensures
        texts(rels@) == ignored_rels(root@, texts(extra@)),
{
    let mut rels: Vec<String> = Vec::new();
    let mut i: usize = 0;
    assert(mandatory_ignores().take(0).len() == 0);
    while i < 11
        invariant
            i <= 11,
            mandatory_ignores().len() == 11,
            texts(rels@) == rels_below(root@, mandatory_ignores().take(i as int)),
        decreases 11 - i,
    {
        assert(MANDATORY_IGNORES[i as int]@ == mandatory_ignores()[i as int]);
        assert(mandatory_ignores().take(i + 1) == mandatory_ignores().take(i as int).push(
            mandatory_ignores()[i as int],
        ));
        add_rel(&mut rels, root, MANDATORY_IGNORES[i], Ghost(mandatory_ignores().take(i as int)));
        i += 1;
    }
    let ghost all = mandatory_ignores() + texts(extra@);
    assert(mandatory_ignores().take(11) == all.take(11));
    let mut k: usize = 0;
    while k < extra.len()
        invariant
            k <= extra@.len(),
            all == mandatory_ignores() + texts(extra@),
            mandatory_ignores().len() == 11,
            texts(rels@) == rels_below(root@, all.take(11 + k)),
        decreases extra@.len() - k,
    {
        assert(all[11 + k] == extra@[k as int]@);
        assert(all.take(11 + k + 1) == all.take(11 + k).push(all[11 + k]));
        add_rel(&mut rels, root, extra[k].as_str(), Ghost(all.take(11 + k)));
        k += 1;
    }
    assert(all.take(11 + k) == all);
    rels
}

/// `prefix` before each of `list`.
pub open spec fn prefixed(prefix: Seq<char>, list: Seq<Seq<char>>) -> Seq<Seq<char>> {
    list.map_values(|s: Seq<char>| prefix + s)
}

fn add_prefixed(out: &mut Vec<String>, prefix: &str, list: &Vec<String>)
    ensures
        texts(final(out)@) == texts(old(out)@) + prefixed(prefix@, texts(list@)),
{
    let ghost start = texts(out@);
    let mut i: usize = 0;
    assert(start + prefixed(prefix@, texts(list@).take(0)) == start);
    while i < list.len()
        invariant
            i <= list@.len(),
            texts(out@) == start + prefixed(prefix@, texts(list@).take(i as int)),
        decreases list@.len() - i,
    {
        let mut s = prefix.to_owned();
        s.append(list[i].as_str());
        push_text(out, s.as_str());
        assert(texts(list@).take(i + 1) == texts(list@).take(i as int).push(list@[i as int]@));
        assert(start + prefixed(prefix@, texts(list@).take(i + 1)) == (start + prefixed(
            prefix@,
            texts(list@).take(i as int),
        )).push(prefix@ + list@[i as int]@));
        i += 1;
    }
    assert(texts(list@).take(i as int) == texts(list@));
}

/// The globs by which `rg` leaves out `.git` and the ignored directories, which are anchored at
/// the search root.
pub open spec fn exclude_globs(root: Seq<char>, extra: Seq<Seq<char>>) -> Seq<Seq<char>> {
    seq!["!.git"@] + prefixed("!/"@, ignored_rels(root, extra))
}

/// Gives the globs by which `rg` leaves out `.git` and the ignored directories.
pub fn rg_exclude_globs(root: &str, extra: &Vec<String>) -> (globs: Vec<String>)
    ensures
        texts(globs@) == exclude_globs(root@, texts(extra@)),
{
    let mut globs: Vec<String> = Vec::new();
    push_text(&mut globs, "!.git");
    let rels = ignore_rels(root, extra);
    add_prefixed(&mut globs, "!/", &rels);
    assert(Seq::<Seq<char>>::empty().push("!.git"@) == seq!["!.git"@]);
    assert(texts(Seq::<String>::empty()) == Seq::<Seq<char>>::empty());
    globs
}

/// Gives the patterns by which `fd` leaves out the ignored directories; it skips `.git` by
/// itself.
pub fn fd_excludes(root: &str, extra: &Vec<String>) -> (excludes: Vec<String>)
    ensures
        texts(excludes@) == prefixed("/"@, ignored_rels(root@, texts(extra@))),
{
    let mut excludes: Vec<String> = Vec::new();
    assert(texts(excludes@) == Seq::<Seq<char>>::empty());
    let rels = ignore_rels(root, extra);
    add_prefixed(&mut excludes, "/", &rels);
    assert(Seq::<Seq<char>>::empty() + prefixed("/"@, texts(rels@)) == prefixed(
        "/"@,
        texts(rels@),
    ));
    excludes
}

/// The ignored paths are not empty, no two are the same, and each is the part below `root` of a
/// directory that is to be ignored.
pub proof fn rels_below_are(root: Seq<char>, dirs: Seq<Seq<char>>)
    ensures
        forall|i: int|
            0 <= i < rels_below(root, dirs).len() ==> (#[trigger] rels_below(root, dirs)[i]).len()
                > 0,
        forall|i: int, j: int|
            0 <= i < j < rels_below(root, dirs).len() ==> rels_below(root, dirs)[i] != rels_below(
                root,
                dirs,
            )[j],
        forall|i: int|
            0 <= i < rels_below(root, dirs).len() ==> exists|k: int|
                0 <= k < dirs.len() && relative_to(dirs[k], root) == Some(
                    #[trigger] rels_below(root, dirs)[i],
                ),
        forall|k: int|
            0 <= k < dirs.len() ==> (relative_to(#[trigger] dirs[k], root) matches Some(rel)
                ==> rel.len() > 0 ==> rels_below(root, dirs).contains(rel)),
    decreases dirs.len(),
{
    if dirs.len() > 0 {
        let front = dirs.drop_last();
        rels_below_are(root, front);
        let before = rels_below(root, front);
        let now = rels_below(root, dirs);
        assert forall|i: int| 0 <= i < now.len() implies exists|k: int|
            0 <= k < dirs.len() && relative_to(dirs[k], root) == Some(#[trigger] now[i]) by {
            if i < before.len() {
                assert(now[i] == before[i]);
                let k = choose|k: int|
                    0 <= k < front.len() && relative_to(front[k], root) == Some(before[i]);
                assert(dirs[k] == front[k]);
            } else {
                assert(relative_to(dirs[dirs.len() - 1], root) == Some(now[i]));
            }
        }
        assert forall|k: int| 0 <= k < dirs.len() implies (relative_to(
            #[trigger] dirs[k],
            root,
        ) matches Some(rel) ==> rel.len() > 0 ==> now.contains(rel)) by {
            if let Some(rel) = relative_to(dirs[k], root) {
                if rel.len() > 0 {
                    if k < front.len() {
                        assert(front[k] == dirs[k]);
                        assert(before.contains(rel));
                    }
                    if before.contains(rel) {
                        let i = choose|i: int| 0 <= i < before.len() && before[i] == rel;
                        assert(now[i] == rel);
                    } else {
                        assert(now[now.len() - 1] == rel);
                    }
                }
            }
        }
        assert forall|i: int, j: int| 0 <= i < j < now.len() implies now[i] != now[j] by {
            if j == before.len() {
                assert(before.contains(before[i]));
            }
        }
    }
}

// ------------------------------------------------------------ commands

/// A program to run, with its arguments and, where it matters, the directory to run it in.
#[derive(Debug)]
pub struct CommandLine {
    pub program: String,
    pub args: Vec<String>,
    pub dir: Option<String>,
}

/// What is seen of a command.
#[verifier::ext_equal]
pub struct CommandView {
    pub program: Seq<char>,
    pub args: Seq<Seq<char>>,
    pub dir: Option<Seq<char>>,
}

impl View for CommandLine {
    type V = CommandView;

    open spec fn view(&self) -> CommandView {
        CommandView {
            program: self.program@,
            args: texts(self.args@),
            dir: match self.dir {
                Some(d) => Some(d@),
                None => None,
            },
        }
    }
}

/// `flag` before each of `list`, as arguments of their own.
pub open spec fn flagged(flag: Seq<char>, list: Seq<Seq<char>>) -> Seq<Seq<char>>
    decreases list.len(),
{
    if list.len() == 0 {
        Seq::empty()
    } else {
        flagged(flag, list.drop_last()).push(flag).push(list.last())
    }
}

fn add_flagged(args: &mut Vec<String>, flag: &str, list: &Vec<String>)
    ensures
        texts(final(args)@) == texts(old(args)@) + flagged(flag@, texts(list@)),
{
    let ghost start = texts(args@);
    let mut i: usize = 0;
    assert(start + flagged(flag@, texts(list@).take(0)) == start);
    while i < list.len()
        invariant
            i <= list@.len(),
            texts(args@) == start + flagged(flag@, texts(list@).take(i as int)),
        decreases list@.len() - i,
    {
        push_text(args, flag);
        push_text(args, list[i].as_str());
        let ghost now = texts(list@).take(i + 1);
        assert(now.drop_last() == texts(list@).take(i as int));
        assert(now.last() == list@[i as int]@);
        assert(start + flagged(flag@, now) == texts(args@));
        i += 1;
    }
    assert(texts(list@).take(i as int) == texts(list@));
}

/// The command by which `fd` lists the files below `root` by their absolute paths, without the
/// excluded directories and without files larger than the limit.
pub open spec fn fd_command(
    root: Seq<char>,
    excludes: Seq<Seq<char>>,
    max_filesize_bytes: u64,
) -> CommandView {
    CommandView {
        program: "fd"@,
        args: seq![
            "--type"@,
            "f"@,
            "--absolute-path"@,
            "--color=never"@,
            "--size"@,
            seq!['-'] + decimal(max_filesize_bytes as nat) + seq!['b'],
        ] + flagged("--exclude"@, excludes) + seq!["."@, root],
        dir: None,
    }
}

/// Gives the command by which `fd` lists the files below `root`.
pub fn fd_cmd(root: &str, excludes: &Vec<String>, max_filesize_bytes: u64) -> (cmd: CommandLine)
    ensures
        cmd@ == fd_command(root@, texts(excludes@), max_filesize_bytes),
{
    let mut args: Vec<String> = Vec::new();
    assert(texts(args@) == Seq::<Seq<char>>::empty());
    push_text(&mut args, "--type");
    push_text(&mut args, "f");
    push_text(&mut args, "--absolute-path");
    push_text(&mut args, "--color=never");
    push_text(&mut args, "--size");
    let mut size = String::new();
    size.push('-');
    size.append(decimal_of(max_filesize_bytes).as_str());
    size.push('b');
    assert(size@ == seq!['-'] + decimal(max_filesize_bytes as nat) + seq!['b']);
    push_text(&mut args, size.as_str());
    add_flagged(&mut args, "--exclude", excludes);
    push_text(&mut args, ".");
    push_text(&mut args, root);
    let cmd = CommandLine { program: "fd".to_owned(), args, dir: None };
    assert(cmd@.args == fd_command(root@, texts(excludes@), max_filesize_bytes).args);
    cmd
}

/// The command by which `rg` counts the occurrences of the query in the files below `root`: the
/// text as it is, in its own case, in hidden files too, over several lines where the query holds
/// a line break.
pub open spec fn rg_command(
    root: Seq<char>,
    query: Seq<char>,
    globs: Seq<Seq<char>>,
    max_filesize_bytes: u64,
) -> CommandView {
    let wanted = decoded(query);
    let multiline = if wanted.contains('\n') {
        seq!["--multiline"@]
    } else {
        Seq::empty()
    };
    CommandView {
        program: "rg"@,
        args: seq![
            "--count-matches"@,
            "--fixed-strings"@,
            "--case-sensitive"@,
            "--color=never"@,
            "--line-buffered"@,
            "--hidden"@,
            "--no-messages"@,
            "-j"@,
            "0"@,
            "--max-filesize"@,
            decimal(max_filesize_bytes as nat),
        ] + multiline + flagged("--glob"@, globs) + seq!["--"@, wanted, "."@],
        dir: Some(root),
    }
}

/// Gives the command by which `rg` counts the occurrences of `query` in the files below `root`.
pub fn rg_cmd(
    root: &str,
    query: &str,
    exclude_globs: &Vec<String>,
    max_filesize_bytes: u64,
) -> (cmd: CommandLine)
    ensures
        cmd@ == rg_command(root@, query@, texts(exclude_globs@), max_filesize_bytes),
{
    let wanted = decode_escapes(query);
    let mut args: Vec<String> = Vec::new();
    assert(texts(args@) == Seq::<Seq<char>>::empty());
    push_text(&mut args, "--count-matches");
    push_text(&mut args, "--fixed-strings");
    push_text(&mut args, "--case-sensitive");
    push_text(&mut args, "--color=never");
    push_text(&mut args, "--line-buffered");
    push_text(&mut args, "--hidden");
    push_text(&mut args, "--no-messages");
    push_text(&mut args, "-j");
    push_text(&mut args, "0");
    push_text(&mut args, "--max-filesize");
    push_text(&mut args, decimal_of(max_filesize_bytes).as_str());
    if has_line_break(wanted.as_str()) {
        push_text(&mut args, "--multiline");
    }
    add_flagged(&mut args, "--glob", exclude_globs);
    push_text(&mut args, "--");
    push_text(&mut args, wanted.as_str());
    push_text(&mut args, ".");
    let cmd = CommandLine { program: "rg".to_owned(), args, dir: Some(root.to_owned()) };
    assert(cmd@.args == rg_command(root@, query@, texts(exclude_globs@), max_filesize_bytes).args);
    cmd
}

// ------------------------------------------------------------ file names

/// What `str::to_lowercase` makes of a text.
pub uninterp spec fn lowercase(s: Seq<char>) -> Seq<char>;

/// `str::to_lowercase` maps every character by the Unicode case tables; the result is a function
/// of the text alone.
#[verifier::external_body]
fn lowercase_of(s: &str) -> (r: String)
    ensures
        r@ == lowercase(s@),
{
    s.to_lowercase()
}

/// `s` without the slashes at its start.
pub open spec fn without_slashes(s: Seq<char>) -> Seq<char>
    decreases s.len(),
{
    if s.len() > 0 && s[0] == '/' {
        without_slashes(s.drop_first())
    } else {
        s
    }
}

fn trim_slashes(s: &str) -> (r: String)
    ensures
        r@ == without_slashes(s@),
{
    let chars = to_chars(s);
    let n: usize = chars.len();
    let mut i: usize = 0;
    assert(s@.skip(0) == s@);
    while i < n && chars[i] == '/'
        invariant
            i <= n == chars@.len(),
            chars@ == s@,
            without_slashes(s@) == without_slashes(s@.skip(i as int)),
        decreases n - i,
    {
        assert(s@.skip(i as int).drop_first() == s@.skip(i + 1));
        i += 1;
    }
    assert(chars@.subrange(i as int, n as int) == s@.skip(i as int));
    from_chars(slice_subrange(chars.as_slice(), i, n))
}

/// The text shown for `path`: what follows the search root, or the whole path outside it.
pub open spec fn shown_path(root: Seq<char>, path: Seq<char>) -> Seq<char> {
    match strip_prefix(path, root) {
        Some(rest) => sanitized(without_slashes(rest)),
        None => sanitized(path),
    }
}

/// The result for the file `path` whose name in lower case is `name`, where it matches.
pub open spec fn scored_name(
    root: Seq<char>,
    path: Seq<char>,
    query_lower: Seq<char>,
    name: Seq<char>,
) -> Option<ItemView> {
    match score_of(query_lower, name) {
        Some(score) => Some(
            ItemView {
                path,
                display: shown_path(root, path),
                matches: 0,
                score: score as i64,
                priority: priority_of(path),
            },
        ),
        None => None,
    }
}

/// The result for the file `path`, where its name matches.
pub open spec fn scored(root: Seq<char>, path: Seq<char>, query_lower: Seq<char>) -> Option<
    ItemView,
> {
    match file_name(path) {
        Some(name) => scored_name(root, path, query_lower, lowercase(name)),
        None => None,
    }
}

/// What is seen of an optional result.
pub open spec fn view_of(item: Option<SearchResultItem>) -> Option<ItemView> {
    match item {
        Some(i) => Some(i@),
        None => None,
    }
}

/// Gives the result for the file `path` whose name in lower case is `name`, where it matches.
pub fn score_name(root: &str, path: &str, query_lower: &str, name: &str) -> (r: Option<
    SearchResultItem,
>)
    ensures
        view_of(r) == scored_name(root@, path@, query_lower@, name@),
{
    match fuzzy_score(query_lower, name) {
        Some(score) => {
            let display = match crate::text::after_prefix(path, root) {
                Some(rest) => sanitize_display(trim_slashes(rest.as_str()).as_str()),
                None => sanitize_display(path),
            };
            Some(
                SearchResultItem {
                    path: path.to_owned(),
                    display,
                    matches: 0,
                    score,
                    priority: path_priority(path),
                },
            )
        },
        None => None,
    }
}

fn score_file(root: &str, path: &str, query_lower: &str) -> (r: Option<SearchResultItem>)
    ensures
        view_of(r) == scored(root@, path@, query_lower@),
{
    match file_name_of(path) {
        Some(name) => score_name(root, path, query_lower, lowercase_of(name.as_str()).as_str()),
        None => None,
    }
}

/// The results for the files of `list`, in the order of the list.
pub open spec fn scored_all(
    root: Seq<char>,
    query_lower: Seq<char>,
    list: Seq<Seq<char>>,
) -> Seq<ItemView>
    decreases list.len(),
{
    if list.len() == 0 {
        Seq::empty()
    } else {
        let before = scored_all(root, query_lower, list.drop_last());
        match scored(root, list.last(), query_lower) {
            Some(item) => before.push(item),
            None => before,
        }
    }
}

/// The results that a list of files gives for a query, in any case.
pub open spec fn filtered(root: Seq<char>, query: Seq<char>, list: Seq<Seq<char>>) -> Seq<
    ItemView,
> {
    best(scored_all(root, lowercase(query), list))
}

/// Filters a list of files by a query, and orders what matches.
pub fn filter_fd_list(root: &str, query: &str, list: &Vec<String>) -> (items: Vec<
    SearchResultItem,
>)
    ensures
        views(items@) == filtered(root@, query@, texts(list@)),
{
    let query_lower = lowercase_of(query);
    let mut items: Vec<SearchResultItem> = Vec::new();
    let mut i: usize = 0;
    assert(texts(list@).take(0).len() == 0);
    while i < list.len()
        invariant
            i <= list@.len(),
            views(items@) == scored_all(root@, query_lower@, texts(list@).take(i as int)),
        decreases list@.len() - i,
    {
        let ghost now = texts(list@).take(i + 1);
        assert(now.drop_last() == texts(list@).take(i as int));
        assert(now.last() == list@[i as int]@);
        let ghost before = views(items@);
        match score_file(root, list[i].as_str(), query_lower.as_str()) {
            Some(item) => {
                items.push(item);
                assert(views(items@) == before.push(item@));
            },
            None => {},
        }
        i += 1;
    }
    assert(texts(list@).take(i as int) == texts(list@));
    rank(items)
}

/// What `String::from_utf8_lossy` makes of bytes.
pub uninterp spec fn lossy(bytes: Seq<u8>) -> Seq<char>;

/// `String::from_utf8_lossy` reads bytes as UTF-8 and puts the replacement character in the
/// place of what is not valid; valid bytes give the text that they encode.
#[verifier::external_body]
pub(crate) fn lossy_of(bytes: &[u8]) -> (r: String)
    ensures
        r@ == lossy(bytes@),
        vstd::utf8::valid_utf8(bytes@) ==> r@ == vstd::utf8::decode_utf8(bytes@),
{
    String::from_utf8_lossy(bytes).into_owned()
}

/// The lines of `s` that are not empty.
pub open spec fn listed(s: Seq<char>) -> Seq<Seq<char>> {
    lines(s).filter(|l: Seq<char>| l.len() > 0)
}

/// Reads the files that `fd` printed, one to a line.
pub fn listed_files(text: &str) -> (files: Vec<String>)
    ensures
        texts(files@) == listed(text@),
{
    let all = lines_of(text);
    let mut files: Vec<String> = Vec::new();
    let mut i: usize = 0;
    while i < all.len()
        invariant
            i <= all@.len(),
            texts(files@) == texts(all@).take(i as int).filter(|l: Seq<char>| l.len() > 0),
        decreases all@.len() - i,
    {
        reveal(Seq::filter);
        assert(texts(all@).take(i + 1).drop_last() == texts(all@).take(i as int));
        if !all[i].as_str().is_empty() {
            push_text(&mut files, all[i].as_str());
        }
        i += 1;
    }
    assert(texts(all@).take(i as int) == texts(all@));
    files
}

/// Searches file names: filters the cached list of files, or, where there is none, the list that
/// `fd` printed, which is then given back to be cached. `fd` that could not be run printed
/// nothing.
pub fn fd_search(
    root: &str,
    query: &str,
    cached: Option<Vec<String>>,
    fd_output: &[u8],
) -> (r: (Vec<SearchResultItem>, Option<Vec<String>>))
    ensures
        match cached {
            Some(list) => views(r.0@) == filtered(root@, query@, texts(list@)) && r.1 is None,
            None => {
                &&& r.1 matches Some(list) && texts(list@) == listed(lossy(fd_output@))
                &&& views(r.0@) == filtered(root@, query@, listed(lossy(fd_output@)))
            },
        },
{
    match cached {
        Some(list) => (filter_fd_list(root, query, &list), None),
        None => {
            let list = listed_files(lossy_of(fd_output).as_str());
            let items = filter_fd_list(root, query, &list);
            (items, Some(list))
        },
    }
}

/// The size limit of a search of contents that is made at once, in bytes.
pub const SEARCH_MAX_BYTES: u64 = 10485760;

/// Gives the command whose output `fd_search` reads: every file below `root`, of any size, but for
/// what `fd` skips by itself.
pub fn fd_search_cmd(root: &str) -> (cmd: CommandLine)
    ensures
        cmd@ == fd_command(root@, Seq::empty(), u64::MAX),
{
    let none: Vec<String> = Vec::new();
    assert(texts(none@) == Seq::<Seq<char>>::empty());
    fd_cmd(root, &none, u64::MAX)
}

/// Gives the command whose output `rg_search` reads: the directories that are always ignored are
/// left out, and files above ten megabytes.
pub fn rg_search_cmd(root: &str, query: &str) -> (cmd: CommandLine)
    ensures
        cmd@ == rg_command(root@, query@, exclude_globs(root@, Seq::empty()), SEARCH_MAX_BYTES),
{
    let none: Vec<String> = Vec::new();
    assert(texts(none@) == Seq::<Seq<char>>::empty());
    let globs = rg_exclude_globs(root, &none);
    rg_cmd(root, query, &globs, SEARCH_MAX_BYTES)
}

// ------------------------------------------------------------ file contents

/// The result that the line `./path:count` of `rg` gives; none for a line of another form, for a
/// count of zero and for an empty path.
pub open spec fn counted(root: Seq<char>, line: Seq<char>) -> Option<ItemView> {
    let colon = last_position(line, ':');
    if colon < 0 {
        None
    } else {
        let path = line.take(colon);
        let rel = match strip_prefix(path, "./"@) {
            Some(rest) => rest,
            None => path,
        };
        match parse_number(trim(line.skip(colon + 1))) {
            Some(count) => if count == 0 || rel.len() == 0 {
                None
            } else {
                Some(
                    ItemView {
                        path: join_path(root, rel),
                        display: sanitized(rel),
                        matches: count,
                        score: count as i64,
                        priority: priority_of(join_path(root, rel)),
                    },
                )
            },
            None => None,
        }
    }
}

/// Reads the line `./path:count` of `rg`.
pub fn parse_count_line(root: &str, line: &str) -> (r: Option<SearchResultItem>)
    ensures
        view_of(r) == counted(root@, line@),
{
    let chars = to_chars(line);
    let n: usize = chars.len();
    match rfind_char(chars.as_slice(), ':') {
        None => None,
        Some(colon) => {
            let path = from_chars(slice_subrange(chars.as_slice(), 0, colon));
            assert(path@ == line@.take(colon as int));
            let count_text = slice_subrange(chars.as_slice(), colon + 1, n);
            assert(count_text@ == line@.skip(colon + 1));
            match parse_number_of(trim_chars(count_text)) {
                None => None,
                Some(count) => {
                    let rel = match crate::text::after_prefix(path.as_str(), "./") {
                        Some(rest) => rest,
                        None => path,
                    };
                    if count == 0 || rel.as_str().is_empty() {
                        return None;
                    }
                    let abs = join_path_of(root, rel.as_str());
                    let priority: u8 = path_priority(abs.as_str());
                    Some(
                        SearchResultItem {
                            path: abs,
                            display: sanitize_display(rel.as_str()),
                            matches: count,
                            score: count as i64,
                            priority,
                        },
                    )
                },
            }
        },
    }
}

/// The results that the lines of `rg` give, in the order of the lines.
pub open spec fn counted_all(root: Seq<char>, ls: Seq<Seq<char>>) -> Seq<ItemView>
    decreases ls.len(),
{
    if ls.len() == 0 {
        Seq::empty()
    } else {
        let before = counted_all(root, ls.drop_last());
        match counted(root, ls.last()) {
            Some(item) => before.push(item),
            None => before,
        }
    }
}

/// Searches file contents: reads what `rg` printed for a query, and orders the results. `rg`
/// that could not be run printed nothing.
pub fn rg_search(root: &str, rg_output: &[u8]) -> (items: Vec<SearchResultItem>)
    ensures
        views(items@) == best(counted_all(root@, lines(lossy(rg_output@)))),
{
    let text = lossy_of(rg_output);
    let all = lines_of(text.as_str());
    let mut items: Vec<SearchResultItem> = Vec::new();
    let mut i: usize = 0;
    assert(texts(all@).take(0).len() == 0);
    while i < all.len()
        invariant
            i <= all@.len(),
            views(items@) == counted_all(root@, texts(all@).take(i as int)),
        decreases all@.len() - i,
    {
        let ghost now = texts(all@).take(i + 1);
        assert(now.drop_last() == texts(all@).take(i as int));
        assert(now.last() == all@[i as int]@);
        let ghost before = views(items@);
        match parse_count_line(root, all[i].as_str()) {
            Some(item) => {
                items.push(item);
                assert(views(items@) == before.push(item@));
            },
            None => {},
        }
        i += 1;
    }
    assert(texts(all@).take(i as int) == texts(all@));
    rank(items)
}

// ------------------------------------------------------------ laws of results

/// Whether the text shown for a result holds no control character.
pub open spec fn shown_clean(item: ItemView) -> bool {
    forall|i: int| 0 <= i < item.display.len() ==> !control(#[trigger] item.display[i])
}

proof fn best_element(items: Seq<ItemView>, i: int)
    requires
        0 <= i < best(items).len(),
    ensures
        items.contains(best(items)[i]),
{
    sorted_element::<SearchResultItem>(items, i);
}

proof fn scored_all_clean(root: Seq<char>, query_lower: Seq<char>, list: Seq<Seq<char>>)
    ensures
        forall|i: int|
            0 <= i < scored_all(root, query_lower, list).len() ==> shown_clean(
                #[trigger] scored_all(root, query_lower, list)[i],
            ),
    decreases list.len(),
{
    if list.len() > 0 {
        let front = list.drop_last();
        let before = scored_all(root, query_lower, front);
        let all = scored_all(root, query_lower, list);
        scored_all_clean(root, query_lower, front);
        assert forall|i: int| 0 <= i < all.len() implies shown_clean(#[trigger] all[i]) by {
            if i < before.len() {
                assert(all[i] == before[i]);
            } else {
                assert(scored(root, list.last(), query_lower) == Some(all[i]));
            }
        }
    }
}

proof fn counted_all_clean(root: Seq<char>, ls: Seq<Seq<char>>)
    ensures
        forall|i: int|
            0 <= i < counted_all(root, ls).len() ==> shown_clean(
                #[trigger] counted_all(root, ls)[i],
            ),
    decreases ls.len(),
{
    if ls.len() > 0 {
        let front = ls.drop_last();
        let before = counted_all(root, front);
        let all = counted_all(root, ls);
        counted_all_clean(root, front);
        assert forall|i: int| 0 <= i < all.len() implies shown_clean(#[trigger] all[i]) by {
            if i < before.len() {
                assert(all[i] == before[i]);
            } else {
                assert(counted(root, ls.last()) == Some(all[i]));
            }
        }
    }
}

/// No control character of a file name is shown in the results of a search of file names.
pub proof fn found_files_are_shown_clean(root: Seq<char>, query: Seq<char>, list: Seq<Seq<char>>)
    ensures
        forall|i: int|
            0 <= i < filtered(root, query, list).len() ==> shown_clean(
                #[trigger] filtered(root, query, list)[i],
            ),
{
    let all = scored_all(root, lowercase(query), list);
    scored_all_clean(root, lowercase(query), list);
    assert forall|i: int| 0 <= i < best(all).len() implies shown_clean(
        #[trigger] best(all)[i],
    ) by {
        best_element(all, i);
        let k = choose|k: int| 0 <= k < all.len() && all[k] == best(all)[i];
        assert(shown_clean(all[k]));
    }
}

/// No control character of a file name is shown in the results of a search of contents.
pub proof fn found_contents_are_shown_clean(root: Seq<char>, ls: Seq<Seq<char>>)
    ensures
        forall|i: int|
            0 <= i < best(counted_all(root, ls)).len() ==> shown_clean(
                #[trigger] best(counted_all(root, ls))[i],
            ),
{
    let all = counted_all(root, ls);
    counted_all_clean(root, ls);
    assert forall|i: int| 0 <= i < best(all).len() implies shown_clean(
        #[trigger] best(all)[i],
    ) by {
        best_element(all, i);
        let k = choose|k: int| 0 <= k < all.len() && all[k] == best(all)[i];
        assert(shown_clean(all[k]));
    }
}

/// Results come by score, the highest first, and among the same scores those of the preferred
/// directories come first.
pub proof fn preferred_directories_come_first(items: Seq<ItemView>, i: int, j: int)
    requires
        0 <= i <= j < best(items).len(),
    ensures
        best(items)[i].score >= best(items)[j].score,
        best(items)[i].score == best(items)[j].score ==> best(items)[i].priority
            <= best(items)[j].priority,
{
    best_is_ordered(items);
    assert(SearchResultItem::le(best(items)[i], best(items)[j]));
}

/// Only the file name is matched: files of the same name match alike, wherever they lie.
pub proof fn only_the_name_is_matched(
    root: Seq<char>,
    path: Seq<char>,
    other: Seq<char>,
    query_lower: Seq<char>,
)
    requires
        file_name(path) == file_name(other),
    ensures
        scored(root, path, query_lower) is Some == scored(root, other, query_lower) is Some,
        scored(root, path, query_lower) matches Some(item) ==> item.score == scored(
            root,
            other,
            query_lower,
        )->0.score,
{
}

proof fn prefixed_contains(prefix: Seq<char>, list: Seq<Seq<char>>, s: Seq<char>)
    requires
        list.contains(s),
    ensures
        prefixed(prefix, list).contains(prefix + s),
{
    let k = choose|k: int| 0 <= k < list.len() && list[k] == s;
    assert(prefixed(prefix, list)[k] == prefix + s);
}

/// Every directory that is ignored, always or by the settings, is left out of both searches where
/// it lies below the search root.
pub proof fn ignored_dirs_are_left_out(root: Seq<char>, extra: Seq<Seq<char>>, dir: Seq<char>)
    requires
        mandatory_ignores().contains(dir) || extra.contains(dir),
        relative_to(dir, root) is Some,
        relative_to(dir, root)->0.len() > 0,
    ensures
        exclude_globs(root, extra).contains("!/"@ + relative_to(dir, root)->0),
        prefixed("/"@, ignored_rels(root, extra)).contains("/"@ + relative_to(dir, root)->0),
{
    let rel = relative_to(dir, root)->0;
    let dirs = mandatory_ignores() + extra;
    if mandatory_ignores().contains(dir) {
        let k = choose|k: int| 0 <= k < mandatory_ignores().len() && mandatory_ignores()[k] == dir;
        assert(dirs[k] == dir);
    } else {
        let k = choose|k: int| 0 <= k < extra.len() && extra[k] == dir;
        assert(dirs[mandatory_ignores().len() + k] == dir);
    }
    let k = choose|k: int| 0 <= k < dirs.len() && dirs[k] == dir;
    rels_below_are(root, dirs);
    assert(relative_to(dirs[k], root) == Some(rel));
    prefixed_contains("!/"@, ignored_rels(root, extra), rel);
    prefixed_contains("/"@, ignored_rels(root, extra), rel);
    let globs = prefixed("!/"@, ignored_rels(root, extra));
    let j = choose|j: int| 0 <= j < globs.len() && globs[j] == "!/"@ + rel;
    assert(exclude_globs(root, extra)[1 + j] == globs[j]);
}

/// Every result of a search of file names is a file of the list whose name matches.
pub proof fn found_files_are_listed(
    root: Seq<char>,
    query: Seq<char>,
    list: Seq<Seq<char>>,
    i: int,
)
    requires
        0 <= i < filtered(root, query, list).len(),
    ensures
        exists|k: int|
            0 <= k < list.len() && scored(root, #[trigger] list[k], lowercase(query)) == Some(
                filtered(root, query, list)[i],
            ),
{
    let all = scored_all(root, lowercase(query), list);
    best_element(all, i);
    let j = choose|j: int| 0 <= j < all.len() && all[j] == best(all)[i];
    scored_all_from(root, lowercase(query), list, j);
}

proof fn scored_all_from(
    root: Seq<char>,
    query_lower: Seq<char>,
    list: Seq<Seq<char>>,
    j: int,
)
    requires
        0 <= j < scored_all(root, query_lower, list).len(),
    ensures
        exists|k: int|
            0 <= k < list.len() && scored(root, #[trigger] list[k], query_lower) == Some(
                scored_all(root, query_lower, list)[j],
            ),
    decreases list.len(),
{
    let front = list.drop_last();
    let before = scored_all(root, query_lower, front);
    if j < before.len() {
        scored_all_from(root, query_lower, front, j);
        let k = choose|k: int|
            0 <= k < front.len() && scored(root, #[trigger] front[k], query_lower) == Some(
                before[j],
            );
        assert(list[k] == front[k]);
    } else {
        assert(scored(root, list[list.len() - 1], query_lower) == Some(
            scored_all(root, query_lower, list)[j],
        ));
    }
}

} // verus!
