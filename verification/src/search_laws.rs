//! What a search gives: which files are found, in which order, and with which numbers.

use crate::paths::join_path;
use crate::escapes::sanitized;
use crate::search::{
    best, counted, counted_all, filtered, lowercase, priority_of, scored, scored_all, ItemView,
    SearchResultItem,
};
use crate::sort::{sorted, sorted_in_order, sorted_len, sorted_same_elements, Ranked};
use crate::text::{last_position, last_position_is, lex_le, parse_number, strip_prefix, trim};
use vstd::prelude::*;

verus! {

// ------------------------------------------------------------ the best results

/// Whether a result may stand before another: by score, the highest first, then by the rank of the
/// directory, then by the text shown.
pub open spec fn stands_before(a: ItemView, b: ItemView) -> bool {
    ||| a.score > b.score
    ||| a.score == b.score && a.priority < b.priority
    ||| a.score == b.score && a.priority == b.priority && lex_le(a.display, b.display)
}

/// Of any results the best 400 are kept, in order, each as often as it was there; what is left out
/// stands behind all that are kept.
pub proof fn the_best_are_kept(items: Seq<ItemView>)
    ensures
        best(items).len() == if items.len() < 400 {
            items.len()
        } else {
            400
        },
        best(items).to_multiset().subset_of(items.to_multiset()),
        forall|i: int, j: int|
            0 <= i < j < best(items).len() ==> stands_before(
                #[trigger] best(items)[i],
                #[trigger] best(items)[j],
            ),
        forall|x: ItemView|
            #![trigger items.to_multiset().count(x)]
            items.to_multiset().count(x) > best(items).to_multiset().count(x) ==> best(items).len()
                == 400 && forall|i: int|
                0 <= i < best(items).len() ==> stands_before(#[trigger] best(items)[i], x),
{
    broadcast use vstd::seq_lib::group_to_multiset_ensures;

    let ordered = sorted::<SearchResultItem>(items);
    sorted_len::<SearchResultItem>(items);
    sorted_in_order::<SearchResultItem>(items);
    sorted_same_elements::<SearchResultItem>(items);
    let kept = best(items);
    let left = ordered.skip(kept.len() as int);
    assert(kept == ordered.take(kept.len() as int));
    assert(ordered == kept + left);
    vstd::seq_lib::lemma_multiset_commutative(kept, left);
    assert forall|i: int, j: int| 0 <= i < j < kept.len() implies stands_before(
        #[trigger] kept[i],
        #[trigger] kept[j],
    ) by {
        assert(SearchResultItem::le(ordered[i], ordered[j]));
    }
    assert forall|x: ItemView|
        #![trigger items.to_multiset().count(x)]
        items.to_multiset().count(x) > kept.to_multiset().count(x) implies kept.len() == 400
        && forall|i: int| 0 <= i < kept.len() ==> stands_before(#[trigger] kept[i], x) by {
        assert(left.to_multiset().count(x) > 0);
        assert(left.contains(x));
        let k = choose|k: int| 0 <= k < left.len() && left[k] == x;
        assert forall|i: int| 0 <= i < kept.len() implies stands_before(#[trigger] kept[i], x) by {
            assert(kept[i] == ordered[i]);
            assert(x == ordered[kept.len() + k]);
            assert(SearchResultItem::le(ordered[i], ordered[kept.len() + k]));
        }
    }
}

/// Whether `found` are the results for `hits`: the best of them up to 400, in order, each as often
/// as there is a hit, and every hit among them unless 400 others stand before it.
pub open spec fn results_of(found: Seq<ItemView>, hits: Seq<ItemView>) -> bool {
    &&& found.len() == if hits.len() < 400 {
        hits.len()
    } else {
        400
    }
    &&& found.to_multiset().subset_of(hits.to_multiset())
    &&& forall|i: int, j: int|
        0 <= i < j < found.len() ==> stands_before(#[trigger] found[i], #[trigger] found[j])
    &&& forall|k: int|
        0 <= k < hits.len() ==> found.contains(#[trigger] hits[k]) || (found.len() == 400
            && forall|i: int|
            0 <= i < found.len() ==> stands_before(#[trigger] found[i], hits[k]))
}

proof fn best_are_results(hits: Seq<ItemView>)
    ensures
        results_of(best(hits), hits),
{
    broadcast use vstd::seq_lib::group_to_multiset_ensures;

    the_best_are_kept(hits);
    let found = best(hits);
    assert forall|k: int| 0 <= k < hits.len() implies found.contains(#[trigger] hits[k]) || (
    found.len() == 400 && forall|i: int|
        0 <= i < found.len() ==> stands_before(#[trigger] found[i], hits[k])) by {
        assert(hits.contains(hits[k]));
        assert(hits.to_multiset().count(hits[k]) > 0);
        if !found.contains(hits[k]) {
            assert(found.to_multiset().count(hits[k]) == 0);
        }
    }
}

/// Every file of the list whose name matches is found, once for each time that it is listed, unless
/// 400 others stand before it; nothing else is found.
pub proof fn every_matching_file_is_found(root: Seq<char>, query: Seq<char>, list: Seq<Seq<char>>)
    ensures
        ({
            let q = lowercase(query);
            let hits = list.filter(|p: Seq<char>| scored(root, p, q) is Some).map_values(
                |p: Seq<char>| scored(root, p, q)->0,
            );
            results_of(filtered(root, query, list), hits)
        }),
        forall|k: int|
            0 <= k < list.len() ==> (scored(root, #[trigger] list[k], lowercase(query)) matches Some(
                item,
            ) ==> filtered(root, query, list).contains(item) || (filtered(
                root,
                query,
                list,
            ).len() == 400 && forall|i: int|
                0 <= i < 400 ==> stands_before(
                    #[trigger] filtered(root, query, list)[i],
                    item,
                ))),
{
    let q = lowercase(query);
    let f = |p: Seq<char>| scored(root, p, q) is Some;
    let g = |p: Seq<char>| scored(root, p, q)->0;
    let hits = list.filter(f).map_values(g);
    all_matches(root, q, list);
    best_are_results(hits);
    let found = filtered(root, query, list);
    assert forall|k: int| 0 <= k < list.len() implies (scored(root, #[trigger] list[k], q) matches Some(
        item,
    ) ==> found.contains(item) || (found.len() == 400 && forall|i: int|
        0 <= i < 400 ==> stands_before(#[trigger] found[i], item))) by {
        if let Some(item) = scored(root, list[k], q) {
            list.lemma_filter_contains(f, k);
            assert(f(list[k]));
            assert(list.filter(f).contains(list[k]));
            let j = choose|j: int| 0 <= j < list.filter(f).len() && list.filter(f)[j] == list[k];
            assert(hits[j] == item);
        }
    }
}

proof fn all_matches(root: Seq<char>, q: Seq<char>, list: Seq<Seq<char>>)
    ensures
        scored_all(root, q, list) == list.filter(
            |p: Seq<char>| scored(root, p, q) is Some,
        ).map_values(|p: Seq<char>| scored(root, p, q)->0),
    decreases list.len(),
{
    reveal(Seq::filter);
    let f = |p: Seq<char>| scored(root, p, q) is Some;
    let g = |p: Seq<char>| scored(root, p, q)->0;
    if list.len() > 0 {
        let front = list.drop_last();
        all_matches(root, q, front);
        if f(list.last()) {
            assert(list.filter(f) == front.filter(f).push(list.last()));
            assert(front.filter(f).push(list.last()).map_values(g) == front.filter(f).map_values(
                g,
            ).push(g(list.last())));
        } else {
            assert(list.filter(f) == front.filter(f));
        }
    } else {
        assert(list.filter(f).map_values(g) == Seq::<ItemView>::empty());
    }
}

/// Every line of `rg` that counts matches gives a result, unless 400 others stand before it; no
/// other line gives one.
pub proof fn every_counted_file_is_found(root: Seq<char>, ls: Seq<Seq<char>>)
    ensures
        ({
            let hits = ls.filter(|l: Seq<char>| counted(root, l) is Some).map_values(
                |l: Seq<char>| counted(root, l)->0,
            );
            counted_all(root, ls) == hits && results_of(best(counted_all(root, ls)), hits)
        }),
{
    all_counted(root, ls);
    best_are_results(counted_all(root, ls));
}

proof fn all_counted(root: Seq<char>, ls: Seq<Seq<char>>)
    ensures
        counted_all(root, ls) == ls.filter(|l: Seq<char>| counted(root, l) is Some).map_values(
            |l: Seq<char>| counted(root, l)->0,
        ),
    decreases ls.len(),
{
    reveal(Seq::filter);
    let f = |l: Seq<char>| counted(root, l) is Some;
    let g = |l: Seq<char>| counted(root, l)->0;
    if ls.len() > 0 {
        let front = ls.drop_last();
        all_counted(root, front);
        if f(ls.last()) {
            assert(ls.filter(f) == front.filter(f).push(ls.last()));
            assert(front.filter(f).push(ls.last()).map_values(g) == front.filter(f).map_values(
                g,
            ).push(g(ls.last())));
        } else {
            assert(ls.filter(f) == front.filter(f));
        }
    } else {
        assert(ls.filter(f).map_values(g) == Seq::<ItemView>::empty());
    }
}

// ------------------------------------------------------------ counts

/// The number that digits stand for, the last of them counting ones.
pub open spec fn worth(digits: Seq<char>) -> nat
    decreases digits.len(),
{
    if digits.len() == 0 {
        0
    } else {
        10 * worth(digits.drop_last()) + (digits.last() as u32 - '0' as u32) as nat
    }
}

proof fn worth_is_value(digits: Seq<char>)
    requires
        forall|i: int| 0 <= i < digits.len() ==> '0' <= #[trigger] digits[i] <= '9',
    ensures
        worth(digits) == crate::text::decimal_value(digits),
        crate::text::all_digits(digits),
    decreases digits.len(),
{
    if digits.len() > 0 {
        let front = digits.drop_last();
        assert forall|i: int| 0 <= i < front.len() implies '0' <= #[trigger] front[i] <= '9' by {
            assert(front[i] == digits[i]);
        }
        worth_is_value(front);
        assert('0' <= digits[digits.len() - 1] <= '9');
    }
}

/// A line `./path:count` gives a result with that path below the search root and that number of
/// matches, for every path that is not empty and every count from one up to the largest number of
/// 64 bits. A count of zero, an empty path, and a line without a colon or without a number behind
/// its last colon give none.
pub proof fn counted_lines_give_results(root: Seq<char>, path: Seq<char>, digits: Seq<char>)
    requires
        digits.len() > 0,
        forall|i: int| 0 <= i < digits.len() ==> '0' <= #[trigger] digits[i] <= '9',
    ensures
        ({
            let line = seq!['.', '/'] + path + seq![':'] + digits;
            &&& path.len() > 0 && 0 < worth(digits) <= u64::MAX ==> (counted(root, line) matches Some(
                item,
            ) && item.matches == worth(digits) && item.path == join_path(root, path)
                && item.display == sanitized(path) && item.priority == priority_of(
                join_path(root, path),
            ) && (worth(digits) <= i64::MAX ==> item.score == worth(digits)))
            &&& path.len() == 0 || worth(digits) == 0 || worth(digits) > u64::MAX ==> counted(
                root,
                line,
            ) is None
        }),
{
    let line = seq!['.', '/'] + path + seq![':'] + digits;
    let colon = 2 + path.len() as int;
    worth_is_value(digits);
    last_position_is(line, ':');
    assert(line[colon] == ':');
    assert forall|k: int| colon < k < line.len() implies line[k] != ':' by {
        assert(line[k] == digits[k - colon - 1]);
    }
    assert(last_position(line, ':') == colon);
    assert(line.skip(colon + 1) == digits);
    assert(line.take(colon) == seq!['.', '/'] + path);
    reveal_strlit("./");
    assert((seq!['.', '/'] + path).take(2) == "./"@);
    assert((seq!['.', '/'] + path).skip(2) == path);
    assert(strip_prefix(line.take(colon), "./"@) == Some(path));
    assert('0' <= digits[0] <= '9');
    assert('0' <= digits[digits.len() - 1] <= '9');
    assert(crate::text::trim_start(digits) == digits);
    assert(trim(digits) == digits);
    assert(digits[0] != '+');
}

/// A line without a colon gives no result, nor does one with something else than digits, and a sign
/// before them, behind its last colon.
pub proof fn other_lines_give_nothing(root: Seq<char>, before: Seq<char>, behind: Seq<char>)
    requires
        !behind.contains(':'),
    ensures
        counted(root, behind) is None,
        (exists|i: int|
            0 <= i < trim(behind).len() && !('0' <= #[trigger] trim(behind)[i] <= '9') && (i > 0
                || trim(behind)[i] != '+')) || trim(behind).len() == 0 ==> counted(
            root,
            before + seq![':'] + behind,
        ) is None,
{
    last_position_is(behind, ':');
    if last_position(behind, ':') >= 0 {
        assert(behind.contains(behind[last_position(behind, ':')]));
    }
    let line = before + seq![':'] + behind;
    last_position_is(line, ':');
    assert(line[before.len() as int] == ':');
    assert forall|k: int| before.len() < k < line.len() implies line[k] != ':' by {
        assert(line[k] == behind[k - before.len() - 1]);
        assert(behind.contains(behind[k - before.len() - 1]));
    }
    assert(last_position(line, ':') == before.len());
    assert(line.skip(before.len() as int + 1) == behind);
    let t = trim(behind);
    if exists|i: int|
        0 <= i < t.len() && !('0' <= #[trigger] t[i] <= '9') && (i > 0 || t[i] != '+') {
        let i = choose|i: int|
            0 <= i < t.len() && !('0' <= #[trigger] t[i] <= '9') && (i > 0 || t[i] != '+');
        let digits = if t[0] == '+' {
            t.drop_first()
        } else {
            t
        };
        let k = if t[0] == '+' {
            i - 1
        } else {
            i
        };
        assert(digits[k] == t[i]);
        assert(!crate::text::ascii_digit(digits[k]));
        assert(parse_number(t) is None);
    }
}

/// A path is put behind its directory with one slash between them.
pub proof fn paths_are_joined_by_one_slash(root: Seq<char>, rel: Seq<char>)
    requires
        rel.len() > 0,
        rel[0] != '/',
    ensures
        root.len() > 0 && root.last() != '/' ==> join_path(root, rel) == root + seq!['/'] + rel,
        root.len() > 0 && root.last() == '/' ==> join_path(root, rel) == root + rel,
        root.len() == 0 ==> join_path(root, rel) == rel,
        join_path(root, seq!['/'] + rel) == seq!['/'] + rel,
{
    assert(root.push('/') == root + seq!['/']);
    assert(root.len() == 0 ==> root + rel == rel);
    assert((seq!['/'] + rel)[0] == '/');
}

// ------------------------------------------------------------ files and their directories

/// Whether `s` is `dir`, or goes on behind it with a slash.
pub open spec fn lies_below(s: Seq<char>, dir: Seq<char>) -> bool {
    ||| s == dir
    ||| s.len() > dir.len() && s.take(dir.len() as int) == dir && s[dir.len() as int] == '/'
}

proof fn below_is_in(s: Seq<char>, dir: Seq<char>)
    ensures
        crate::search::in_dir(s, dir) == lies_below(s, dir),
{
    let d = dir.push('/');
    if d.len() <= s.len() {
        let t = s.take(d.len() as int);
        assert(t[dir.len() as int] == s[dir.len() as int]);
        if t == d {
            assert(s.take(dir.len() as int) == t.take(dir.len() as int));
            assert(d.take(dir.len() as int) == dir);
        }
        if s.take(dir.len() as int) == dir && s[dir.len() as int] == '/' {
            assert(t == s.take(dir.len() as int).push('/'));
        }
    }
}

/// Files below `/home`, `/etc` and `/usr/local` have the rank zero, the rest of `/usr` and `/var` the
/// rank two, and all others the rank one.
pub proof fn directories_have_their_ranks(path: Seq<char>)
    ensures
        ({
            let first = lies_below(path, seq!['/', 'h', 'o', 'm', 'e']) || lies_below(
                path,
                seq!['/', 'e', 't', 'c'],
            ) || lies_below(path, seq!['/', 'u', 's', 'r', '/', 'l', 'o', 'c', 'a', 'l']);
            let last = lies_below(path, seq!['/', 'u', 's', 'r']) || lies_below(
                path,
                seq!['/', 'v', 'a', 'r'],
            );
            priority_of(path) == if first {
                0u8
            } else if last {
                2
            } else {
                1
            }
        }),
{
    reveal_strlit("/home");
    reveal_strlit("/etc");
    reveal_strlit("/usr/local");
    reveal_strlit("/usr");
    reveal_strlit("/var");
    assert("/home"@ == seq!['/', 'h', 'o', 'm', 'e']);
    assert("/etc"@ == seq!['/', 'e', 't', 'c']);
    assert("/usr/local"@ == seq!['/', 'u', 's', 'r', '/', 'l', 'o', 'c', 'a', 'l']);
    assert("/usr"@ == seq!['/', 'u', 's', 'r']);
    assert("/var"@ == seq!['/', 'v', 'a', 'r']);
    below_is_in(path, "/home"@);
    below_is_in(path, "/etc"@);
    below_is_in(path, "/usr/local"@);
    below_is_in(path, "/usr"@);
    below_is_in(path, "/var"@);
}

/// A file matches by its name in lower case, whatever its directory is. Its result has the path, the
/// score of the name and the rank of the directory, and shows the path from the search root.
pub proof fn files_match_by_their_names(
    root: Seq<char>,
    dir: Seq<char>,
    name: Seq<char>,
    query: Seq<char>,
)
    requires
        name.len() > 0,
        !name.contains('/'),
        name != seq!['.'],
        name != seq!['.', '.'],
    ensures
        ({
            let path = dir + seq!['/'] + name;
            let score = crate::fuzzy::score_of(query, lowercase(name));
            &&& scored(root, path, query) is Some <==> score is Some
            &&& scored(root, path, query) matches Some(item) ==> item.path == path && item.matches
                == 0 && item.priority == priority_of(path) && item.score == score->0 as i64
            &&& dir == root && scored(root, path, query) is Some ==> scored(
                root,
                path,
                query,
            )->0.display == sanitized(name)
            &&& forall|sub: Seq<char>| #[trigger] (root + seq!['/'] + sub) == dir && sub.len() > 0
                && sub[0] != '/' && scored(root, path, query) is Some ==> scored(
                root,
                path,
                query,
            )->0.display == sanitized(sub + seq!['/'] + name)
        }),
{
    let path = dir + seq!['/'] + name;
    crate::paths::file_name_follows_last_slash(dir, name);
    if dir == root {
        assert(path.take(root.len() as int) == root);
        assert(path.skip(root.len() as int) == seq!['/'] + name);
        below_root(name);
    }
    assert forall|sub: Seq<char>| #[trigger] (root + seq!['/'] + sub) == dir && sub.len() > 0 && sub[0]
        != '/' && scored(root, path, query) is Some implies scored(root, path, query)->0.display
        == sanitized(sub + seq!['/'] + name) by {
        let shown = sub + seq!['/'] + name;
        assert(path.take(root.len() as int) == root);
        assert(path.skip(root.len() as int) == seq!['/'] + shown);
        assert(shown[0] == sub[0]);
        below_root(shown);
    }
}

proof fn below_root(s: Seq<char>)
    requires
        s.len() > 0,
        s[0] != '/' || !s.contains('/'),
    ensures
        crate::search::without_slashes(seq!['/'] + s) == s,
{
    let t = seq!['/'] + s;
    assert(t.drop_first() == s);
    if s[0] == '/' {
        assert(s.contains(s[0]));
    }
    assert(crate::search::without_slashes(s) == s);
}

/// Text is shown as it is, but for control characters, each of which is replaced by one character
/// that stands for it.
pub proof fn shown_text_keeps_its_characters(s: Seq<char>)
    ensures
        sanitized(s).len() == s.len(),
        forall|i: int|
            0 <= i < s.len() ==> #[trigger] sanitized(s)[i] == if (s[i] as u32) < 0x20 || 0x7f <= (
            s[i] as u32) <= 0x9f {
                '\u{FFFD}'
            } else {
                s[i]
            },
{
    assert forall|i: int| 0 <= i < s.len() implies #[trigger] sanitized(s)[i] == if (s[i] as u32)
        < 0x20 || 0x7f <= (s[i] as u32) <= 0x9f {
        '\u{FFFD}'
    } else {
        s[i]
    } by {
        shown_character(s[i]);
    }
}

proof fn shown_character(c: char)
    ensures
        crate::escapes::shown(c) == if (c as u32) < 0x20 || 0x7f <= (c as u32) <= 0x9f {
            '\u{FFFD}'
        } else {
            c
        },
{
}

// ------------------------------------------------------------ what is left out

/// The directories that are never searched.
pub proof fn large_trees_are_never_searched()
    ensures
        ({
            let all = crate::search::mandatory_ignores();
            &&& all.len() == 11
            &&& all.contains("/proc"@) && all.contains("/sys"@) && all.contains("/dev"@)
            &&& all.contains("/run"@) && all.contains("/tmp"@) && all.contains("/var/tmp"@)
            &&& all.contains("/var/cache"@) && all.contains("/mnt"@) && all.contains("/media"@)
            &&& all.contains("/var/lib"@) && all.contains("/snap"@)
        }),
{
    let all = crate::search::mandatory_ignores();
    assert(all[0] == "/proc"@ && all[1] == "/sys"@ && all[2] == "/dev"@ && all[3] == "/run"@);
    assert(all[4] == "/tmp"@ && all[5] == "/var/tmp"@ && all[6] == "/var/cache"@);
    assert(all[7] == "/mnt"@ && all[8] == "/media"@ && all[9] == "/var/lib"@ && all[10] == "/snap"@);
}

/// A directory that is ignored, always or by the settings, is left out of both searches by its path
/// below the search root.
pub proof fn ignored_directories_are_left_out_by_path(
    root: Seq<char>,
    extra: Seq<Seq<char>>,
    rel: Seq<char>,
)
    requires
        rel.len() > 0,
        rel[0] != '/',
        rel.last() != '/',
        crate::paths::without_points(rel),
        root == seq!['/'] || (root.len() > 0 && root.last() != '/'),
        ({
            let dir = if root == seq!['/'] {
                seq!['/'] + rel
            } else {
                root + seq!['/'] + rel
            };
            crate::search::mandatory_ignores().contains(dir) || extra.contains(dir)
        }),
    ensures
        crate::search::exclude_globs(root, extra).contains(seq!['!', '/'] + rel),
        crate::search::prefixed("/"@, crate::search::ignored_rels(root, extra)).contains(
            seq!['/'] + rel,
        ),
{
    let dir = if root == seq!['/'] {
        seq!['/'] + rel
    } else {
        root + seq!['/'] + rel
    };
    crate::paths::the_rest_is_relative(root, rel);
    crate::search::ignored_dirs_are_left_out(root, extra, dir);
    reveal_strlit("!/");
    reveal_strlit("/");
    assert("!/"@ == seq!['!', '/']);
    assert("/"@ == seq!['/']);
}

// ------------------------------------------------------------ commands

proof fn flagged_are(flag: Seq<char>, list: Seq<Seq<char>>)
    ensures
        crate::search::flagged(flag, list).len() == 2 * list.len(),
        forall|i: int|
            0 <= i < list.len() ==> #[trigger] crate::search::flagged(flag, list)[2 * i] == flag
                && crate::search::flagged(flag, list)[2 * i + 1] == list[i],
    decreases list.len(),
{
    if list.len() > 0 {
        flagged_are(flag, list.drop_last());
        let before = crate::search::flagged(flag, list.drop_last());
        let all = crate::search::flagged(flag, list);
        assert forall|i: int| 0 <= i < list.len() implies #[trigger] all[2 * i] == flag && all[2 * i
            + 1] == list[i] by {
            if i < list.len() - 1 {
                assert(before[2 * i] == flag);
                assert(all[2 * i] == before[2 * i]);
                assert(all[2 * i + 1] == before[2 * i + 1]);
            }
        }
    }
}

/// `fd` lists the files below the search root, by their absolute paths and without colours, up to
/// the size limit, and is told of each directory that it leaves out.
pub proof fn fd_is_told_what_to_list(root: Seq<char>, excludes: Seq<Seq<char>>, max: u64)
    ensures
        ({
            let cmd = crate::search::fd_command(root, excludes, max);
            let n = 2 * excludes.len() as int;
            &&& cmd.program == "fd"@
            &&& cmd.dir is None
            &&& cmd.args.len() == 8 + n
            &&& cmd.args[0] == "--type"@ && cmd.args[1] == "f"@
            &&& cmd.args[2] == "--absolute-path"@
            &&& cmd.args[3] == "--color=never"@
            &&& cmd.args[4] == "--size"@
            &&& cmd.args[5] == seq!['-'] + crate::text::decimal(max as nat) + seq!['b']
            &&& forall|i: int|
                0 <= i < excludes.len() ==> #[trigger] cmd.args[6 + 2 * i] == "--exclude"@
                    && cmd.args[7 + 2 * i] == excludes[i]
            &&& cmd.args[6 + n] == "."@
            &&& cmd.args[7 + n] == root
        }),
{
    flagged_are("--exclude"@, excludes);
    let cmd = crate::search::fd_command(root, excludes, max);
    let f = crate::search::flagged("--exclude"@, excludes);
    assert forall|i: int| 0 <= i < excludes.len() implies #[trigger] cmd.args[6 + 2 * i]
        == "--exclude"@ && cmd.args[7 + 2 * i] == excludes[i] by {
        assert(cmd.args[6 + 2 * i] == f[2 * i]);
        assert(cmd.args[7 + 2 * i] == f[2 * i + 1]);
    }
}

/// `rg` counts the occurrences of the text that the query stands for, as it is and in its own case,
/// in every file below the search root up to the size limit, hidden ones too, and over several lines
/// where the text has a line break. It is told of each pattern that it leaves out.
pub proof fn rg_is_told_what_to_count(
    root: Seq<char>,
    query: Seq<char>,
    globs: Seq<Seq<char>>,
    max: u64,
)
    ensures
        ({
            let cmd = crate::search::rg_command(root, query, globs, max);
            let text = crate::escapes::decoded(query);
            let m: int = if text.contains('\n') {
                1
            } else {
                0
            };
            let n = 2 * globs.len() as int;
            &&& cmd.program == "rg"@
            &&& cmd.dir == Some(root)
            &&& cmd.args.len() == 14 + m + n
            &&& cmd.args[0] == "--count-matches"@ && cmd.args[1] == "--fixed-strings"@
            &&& cmd.args[2] == "--case-sensitive"@ && cmd.args[3] == "--color=never"@
            &&& cmd.args[4] == "--line-buffered"@ && cmd.args[5] == "--hidden"@
            &&& cmd.args[6] == "--no-messages"@ && cmd.args[7] == "-j"@ && cmd.args[8] == "0"@
            &&& cmd.args[9] == "--max-filesize"@
            &&& cmd.args[10] == crate::text::decimal(max as nat)
            &&& m == 1 ==> cmd.args[11] == "--multiline"@
            &&& forall|i: int|
                0 <= i < globs.len() ==> #[trigger] cmd.args[11 + m + 2 * i] == "--glob"@
                    && cmd.args[12 + m + 2 * i] == globs[i]
            &&& cmd.args[11 + m + n] == "--"@
            &&& cmd.args[12 + m + n] == text
            &&& cmd.args[13 + m + n] == "."@
        }),
{
    flagged_are("--glob"@, globs);
    let cmd = crate::search::rg_command(root, query, globs, max);
    let f = crate::search::flagged("--glob"@, globs);
    let m: int = if crate::escapes::decoded(query).contains('\n') {
        1
    } else {
        0
    };
    assert forall|i: int| 0 <= i < globs.len() implies #[trigger] cmd.args[11 + m + 2 * i]
        == "--glob"@ && cmd.args[12 + m + 2 * i] == globs[i] by {
        assert(cmd.args[11 + m + 2 * i] == f[2 * i]);
        assert(cmd.args[12 + m + 2 * i] == f[2 * i + 1]);
    }
}

} // verus!
