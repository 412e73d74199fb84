//! Unix paths as text: components, prefixes, file names, extensions and joining, with the meaning
//! that `std::path` gives them.

use crate::text::{from_chars, last_position, last_position_is, rfind_char, same_chars, to_chars};
use vstd::prelude::*;
use vstd::slice::slice_subrange;

verus! {

/// Where the piece that starts at `i` ends: at the next slash, or at the end of `p`.
pub open spec fn piece_end(p: Seq<char>, i: int) -> int
    decreases p.len() - i,
{
    if i >= p.len() || p[i] == '/' {
        i
    } else {
        piece_end(p, i + 1)
    }
}

/// Whether the piece of `p` from `i` to `e` is a component: it is not empty, and it is no `.`
/// unless it starts a relative path.
pub open spec fn is_component(p: Seq<char>, i: int, e: int) -> bool {
    e > i && !(e == i + 1 && p[i] == '.' && i > 0)
}

/// Where the components at or behind `i` start and end; `i` is the start of a piece.
pub open spec fn body_spans(p: Seq<char>, i: int) -> Seq<(int, int)>
    decreases p.len() + 1 - i,
    when i >= 0
    via body_spans_shrink
{
    if i >= p.len() {
        Seq::empty()
    } else {
        let e = piece_end(p, i);
        let rest = body_spans(p, e + 1);
        if is_component(p, i, e) {
            seq![(i, e)] + rest
        } else {
            rest
        }
    }
}

#[via_fn]
proof fn body_spans_shrink(p: Seq<char>, i: int) {
    if i < p.len() {
        piece_end_bounds(p, i);
    }
}

proof fn piece_end_bounds(p: Seq<char>, i: int)
    requires
        0 <= i <= p.len(),
    ensures
        i <= piece_end(p, i) <= p.len(),
        forall|k: int| i <= k < piece_end(p, i) ==> p[k] != '/',
        piece_end(p, i) < p.len() ==> p[piece_end(p, i)] == '/',
    decreases p.len() - i,
{
    if i < p.len() && p[i] != '/' {
        piece_end_bounds(p, i + 1);
    }
}

/// Whether `p` starts at the root.
pub open spec fn absolute(p: Seq<char>) -> bool {
    p.len() > 0 && p[0] == '/'
}

/// Where the components of `p` start and end; the root is one of them.
pub open spec fn spans(p: Seq<char>) -> Seq<(int, int)> {
    if absolute(p) {
        seq![(0int, 1int)] + body_spans(p, 1)
    } else {
        body_spans(p, 0)
    }
}

/// The components of `p`; the root is the component `/`.
pub open spec fn components(p: Seq<char>) -> Seq<Seq<char>> {
    spans(p).map_values(|s: (int, int)| p.subrange(s.0, s.1))
}

/// Whether two texts name the same path.
pub open spec fn same_path(a: Seq<char>, b: Seq<char>) -> bool {
    components(a) == components(b)
}

/// Whether the components of `p` start with those of `base`.
pub open spec fn under(p: Seq<char>, base: Seq<char>) -> bool {
    components(base).len() <= components(p).len() && components(p).take(
        components(base).len() as int,
    ) == components(base)
}

/// The text of the components of `p` that follow those of `base`.
pub open spec fn relative_to(p: Seq<char>, base: Seq<char>) -> Option<Seq<char>> {
    if !under(p, base) {
        None
    } else if components(base).len() == components(p).len() {
        Some(Seq::empty())
    } else {
        Some(p.subrange(spans(p)[components(base).len() as int].0, spans(p).last().1))
    }
}

/// The last component of `p`, where it is an ordinary name.
pub open spec fn file_name(p: Seq<char>) -> Option<Seq<char>> {
    let parts = components(p);
    if parts.len() == 0 || parts.last() == seq!['/'] || parts.last() == seq!['.'] || parts.last()
        == seq!['.', '.'] {
        None
    } else {
        Some(parts.last())
    }
}

/// What follows the last dot of the file name, where something stands before that dot.
pub open spec fn extension(p: Seq<char>) -> Option<Seq<char>> {
    match file_name(p) {
        Some(name) => {
            let dot = last_position(name, '.');
            if dot <= 0 {
                None
            } else {
                Some(name.skip(dot + 1))
            }
        },
        None => None,
    }
}

/// `rel` taken from the directory `root`; an absolute `rel` stands for itself.
pub open spec fn join_path(root: Seq<char>, rel: Seq<char>) -> Seq<char> {
    if absolute(rel) {
        rel
    } else if root.len() == 0 || root.last() == '/' {
        root + rel
    } else {
        root.push('/') + rel
    }
}

/// What is seen of a sequence of positions.
pub open spec fn positions(v: Seq<(usize, usize)>) -> Seq<(int, int)> {
    v.map_values(|s: (usize, usize)| (s.0 as int, s.1 as int))
}

proof fn body_spans_bounds(p: Seq<char>, i: int)
    requires
        0 <= i,
    ensures
        forall|k: int|
            0 <= k < body_spans(p, i).len() ==> i <= (#[trigger] body_spans(p, i)[k]).0
                < body_spans(p, i)[k].1 <= p.len(),
        forall|j: int, k: int|
            0 <= j < k < body_spans(p, i).len() ==> (#[trigger] body_spans(p, i)[j]).1 < (
            #[trigger] body_spans(p, i)[k]).0,
    decreases p.len() + 1 - i,
{
    if i < p.len() {
        piece_end_bounds(p, i);
        let e = piece_end(p, i);
        body_spans_bounds(p, e + 1);
        let rest = body_spans(p, e + 1);
        let all = body_spans(p, i);
        if is_component(p, i, e) {
            assert forall|k: int| 0 <= k < all.len() implies i <= (#[trigger] all[k]).0 < all[k].1
                <= p.len() by {
                if k > 0 {
                    assert(all[k] == rest[k - 1]);
                }
            }
            assert forall|j: int, k: int| 0 <= j < k < all.len() implies (#[trigger] all[j]).1 < (
            #[trigger] all[k]).0 by {
                assert(all[k] == rest[k - 1]);
                if j > 0 {
                    assert(all[j] == rest[j - 1]);
                }
            }
        } else {
            assert(all == rest);
            assert forall|k: int| 0 <= k < all.len() implies i <= (#[trigger] all[k]).0 < all[k].1
                <= p.len() by {
                assert(all[k] == rest[k]);
            }
        }
    }
}

/// Components lie inside the path, one behind the other.
pub proof fn spans_bounds(p: Seq<char>)
    ensures
        forall|k: int|
            0 <= k < spans(p).len() ==> 0 <= (#[trigger] spans(p)[k]).0 < spans(p)[k].1 <= p.len(),
        forall|j: int, k: int|
            0 <= j < k < spans(p).len() ==> (#[trigger] spans(p)[j]).1 <= (#[trigger] spans(
                p,
            )[k]).0,
{
    body_spans_bounds(p, 0);
    body_spans_bounds(p, 1);
}

/// Finds where the components of a path start and end.
pub fn spans_of(p: &[char]) -> (r: Vec<(usize, usize)>)
    ensures
        positions(r@) == spans(p@),
{
    let n: usize = p.len();
    let mut r: Vec<(usize, usize)> = Vec::new();
    let mut i: usize = 0;
    if n > 0 && p[0] == '/' {
        r.push((0, 1));
        i = 1;
    }
    assert(positions(r@) + body_spans(p@, i as int) == spans(p@));
    while i < n
        invariant
            i <= n == p@.len(),
            positions(r@) + body_spans(p@, i as int) == spans(p@),
        decreases n - i,
    {
        let mut e: usize = i;
        while e < n && p[e] != '/'
            invariant
                i <= e <= n == p@.len(),
                piece_end(p@, i as int) == piece_end(p@, e as int),
            decreases n - e,
        {
            e += 1;
        }
        assert(e == piece_end(p@, i as int));
        let ghost before = positions(r@);
        let ghost rest = body_spans(p@, e + 1);
        if e > i && !(e == i + 1 && p[i] == '.' && i > 0) {
            r.push((i, e));
            assert(positions(r@) == before.push((i as int, e as int)));
            assert(before + (seq![(i as int, e as int)] + rest) == positions(r@) + rest);
        } else {
            assert(positions(r@) + rest == spans(p@));
        }
        if e == n {
            assert(rest.len() == 0);
            assert(positions(r@) + rest == positions(r@));
            return r;
        }
        i = e + 1;
    }
    assert(positions(r@) + body_spans(p@, i as int) == positions(r@));
    r
}

/// Tells whether two texts name the same path.
pub fn names_same_path(a: &str, b: &str) -> (r: bool)
    ensures
        r == same_path(a@, b@),
{
    let x = to_chars(a);
    let y = to_chars(b);
    let xs = spans_of(x.as_slice());
    let ys = spans_of(y.as_slice());
    proof {
        spans_bounds(x@);
        spans_bounds(y@);
        assert(components(x@).len() == xs@.len());
        assert(components(y@).len() == ys@.len());
    }
    if xs.len() != ys.len() {
        return false;
    }
    let same = common_components(x.as_slice(), &xs, y.as_slice(), &ys, xs.len());
    assert(same ==> components(x@).take(xs@.len() as int) == components(x@));
    assert(same ==> components(y@).take(ys@.len() as int) == components(y@));
    assert(!same ==> components(x@).take(xs@.len() as int) == components(x@) && components(y@).take(
        ys@.len() as int,
    ) == components(y@));
    same
}

/// Tells whether the first `n` components of two paths agree.
fn common_components(
    x: &[char],
    xs: &Vec<(usize, usize)>,
    y: &[char],
    ys: &Vec<(usize, usize)>,
    n: usize,
) -> (r: bool)
    requires
        positions(xs@) == spans(x@),
        positions(ys@) == spans(y@),
        n <= xs@.len(),
        n <= ys@.len(),
    ensures
        r == (components(x@).take(n as int) == components(y@).take(n as int)),
{
    proof {
        spans_bounds(x@);
        spans_bounds(y@);
    }
    let mut k: usize = 0;
    while k < n
        invariant
            k <= n,
            n <= xs@.len(),
            n <= ys@.len(),
            positions(xs@) == spans(x@),
            positions(ys@) == spans(y@),
            forall|k: int|
                0 <= k < spans(x@).len() ==> 0 <= (#[trigger] spans(x@)[k]).0 < spans(x@)[k].1
                    <= x@.len(),
            forall|k: int|
                0 <= k < spans(y@).len() ==> 0 <= (#[trigger] spans(y@)[k]).0 < spans(y@)[k].1
                    <= y@.len(),
            forall|j: int| 0 <= j < k ==> components(x@)[j] == components(y@)[j],
        decreases n - k,
    {
        assert(spans(x@)[k as int] == positions(xs@)[k as int]);
        assert(spans(y@)[k as int] == positions(ys@)[k as int]);
        let a = slice_subrange(x, xs[k].0, xs[k].1);
        let b = slice_subrange(y, ys[k].0, ys[k].1);
        assert(a@ == components(x@)[k as int]);
        assert(b@ == components(y@)[k as int]);
        if !same_chars(a, b) {
            assert(components(x@).take(n as int)[k as int] != components(y@).take(
                n as int,
            )[k as int]);
            return false;
        }
        k += 1;
    }
    assert(components(x@).take(n as int) =~= components(y@).take(n as int));
    true
}

/// The part of `path` behind the components of `base`, where `path` is `base` or lies under it.
pub fn relative_to_of(path: &str, base: &str) -> (r: Option<String>)
    ensures
        r is Some == relative_to(path@, base@) is Some,
        r matches Some(t) ==> relative_to(path@, base@) == Some(t@),
{
    let x = to_chars(path);
    let y = to_chars(base);
    let xs = spans_of(x.as_slice());
    let ys = spans_of(y.as_slice());
    proof {
        spans_bounds(x@);
        assert(components(x@).len() == xs@.len());
        assert(components(y@).len() == ys@.len());
        assert(components(y@).take(ys@.len() as int) == components(y@));
    }
    if ys.len() > xs.len() {
        return None;
    }
    if !common_components(x.as_slice(), &xs, y.as_slice(), &ys, ys.len()) {
        return None;
    }
    if ys.len() == xs.len() {
        return Some(String::new());
    }
    let first: usize = xs[ys.len()].0;
    let end: usize = xs[xs.len() - 1].1;
    proof {
        let k = ys@.len() as int;
        let last = xs@.len() - 1;
        assert(spans(x@)[k] == positions(xs@)[k]);
        assert(spans(x@)[last] == positions(xs@)[last]);
        if k < last {
            assert(spans(x@)[k].1 <= spans(x@)[last].0);
        }
    }
    Some(from_chars(slice_subrange(x.as_slice(), first, end)))
}

/// The last component of `path`, where it is an ordinary name.
pub fn file_name_of(path: &str) -> (r: Option<String>)
    ensures
        r is Some == file_name(path@) is Some,
        r matches Some(t) ==> file_name(path@) == Some(t@),
{
    let x = to_chars(path);
    let xs = spans_of(x.as_slice());
    proof {
        spans_bounds(x@);
        assert(components(x@).len() == xs@.len());
    }
    if xs.len() == 0 {
        return None;
    }
    let last: usize = xs.len() - 1;
    assert(spans(x@)[last as int] == positions(xs@)[last as int]);
    let name = slice_subrange(x.as_slice(), xs[last].0, xs[last].1);
    assert(name@ == components(x@).last());
    if name.len() == 1 && (name[0] == '/' || name[0] == '.') {
        assert(name@ == seq!['/'] || name@ == seq!['.']);
        return None;
    }
    if name.len() == 2 && name[0] == '.' && name[1] == '.' {
        assert(name@ == seq!['.', '.']);
        return None;
    }
    Some(from_chars(name))
}

/// What follows the last dot of the file name, where something stands before that dot.
pub fn extension_of(path: &str) -> (r: Option<String>)
    ensures
        r is Some == extension(path@) is Some,
        r matches Some(t) ==> extension(path@) == Some(t@),
{
    match file_name_of(path) {
        None => None,
        Some(name) => {
            let chars = to_chars(name.as_str());
            let n: usize = chars.len();
            proof {
                last_position_is(chars@, '.');
            }
            match rfind_char(chars.as_slice(), '.') {
                None => None,
                Some(dot) => {
                    if dot == 0 {
                        None
                    } else {
                        let tail = slice_subrange(chars.as_slice(), dot + 1, n);
                        assert(tail@ == chars@.skip(dot + 1));
                        Some(from_chars(tail))
                    }
                },
            }
        },
    }
}

/// Joins a directory and a path that is taken from it.
pub fn join_path_of(root: &str, rel: &str) -> (r: String)
    ensures
        r@ == join_path(root@, rel@),
{
    let a = to_chars(root);
    let b = to_chars(rel);
    if b.len() > 0 && b[0] == '/' {
        return rel.to_owned();
    }
    let mut r = root.to_owned();
    if a.len() > 0 && a[a.len() - 1] != '/' {
        r.push('/');
    }
    r.append(rel);
    r
}

/// A path lies under itself, and nothing is left of it there.
pub proof fn relative_to_self(p: Seq<char>)
    ensures
        relative_to(p, p) == Some(Seq::<char>::empty()),
{
    assert(components(p).take(components(p).len() as int) == components(p));
}

// ------------------------------------------------------------ what paths mean

proof fn piece_end_is(p: Seq<char>, i: int, e: int)
    requires
        0 <= i <= e <= p.len(),
        forall|k: int| i <= k < e ==> p[k] != '/',
        e == p.len() || p[e] == '/',
    ensures
        piece_end(p, i) == e,
    decreases e - i,
{
    if i < e {
        piece_end_is(p, i + 1, e);
    }
}

proof fn last_span_is_name(p: Seq<char>, i: int, start: int)
    requires
        0 <= i <= start < p.len(),
        start > 0 ==> p[start - 1] == '/',
        forall|k: int| start <= k < p.len() ==> p[k] != '/',
        !(p.len() == start + 1 && p[start] == '.' && start > 0),
    ensures
        body_spans(p, i).len() > 0,
        body_spans(p, i).last() == (start, p.len() as int),
    decreases start - i,
{
    if i == start {
        piece_end_is(p, start, p.len() as int);
        assert(body_spans(p, p.len() as int + 1).len() == 0);
    } else {
        piece_end_bounds(p, i);
        let e = piece_end(p, i);
        assert(e < start);
        last_span_is_name(p, e + 1, start);
    }
}

/// The file name of a path is what follows its last slash, for every name but `.` and `..`.
pub proof fn file_name_follows_last_slash(dir: Seq<char>, name: Seq<char>)
    requires
        name.len() > 0,
        !name.contains('/'),
        name != seq!['.'],
        name != seq!['.', '.'],
    ensures
        file_name(dir + seq!['/'] + name) == Some(name),
        file_name(name) == Some(name),
{
    let p = dir + seq!['/'] + name;
    let start = dir.len() as int + 1;
    assert forall|k: int| start <= k < p.len() implies p[k] != '/' by {
        assert(p[k] == name[k - start]);
        assert(name.contains(name[k - start]));
    }
    assert(p[start - 1] == '/');
    assert(p[start] == name[0]);
    if p.len() == start + 1 && p[start] == '.' {
        assert(name == seq!['.']);
    }
    if absolute(p) {
        last_span_is_name(p, 1, start);
    } else {
        last_span_is_name(p, 0, start);
    }
    assert(p.subrange(start, p.len() as int) == name);
    assert(components(p).last() == name);
    assert(name != seq!['/']) by {
        if name == seq!['/'] {
            assert(name.contains(name[0]));
        }
    }
    assert forall|k: int| 0 <= k < name.len() implies name[k] != '/' by {
        assert(name.contains(name[k]));
    }
    last_span_is_name(name, 0, 0);
    assert(name.subrange(0, name.len() as int) == name);
    assert(components(name).last() == name);
}

/// The extension of a file is what follows the last point of its name; a name whose only point
/// stands at its start has none.
pub proof fn extension_follows_last_point(dir: Seq<char>, stem: Seq<char>, ext: Seq<char>)
    requires
        !stem.contains('/'),
        !ext.contains('/'),
        !ext.contains('.'),
        stem.len() > 0,
        stem + seq!['.'] + ext != seq!['.', '.'],
    ensures
        extension(dir + seq!['/'] + (stem + seq!['.'] + ext)) == Some(ext),
        !stem.contains('.') ==> extension(dir + seq!['/'] + stem) is None,
        ext.len() > 0 ==> extension(dir + seq!['/'] + (seq!['.'] + ext)) is None,
{
    let name = stem + seq!['.'] + ext;
    let dot = stem.len() as int;
    assert forall|k: int| 0 <= k < name.len() implies name[k] != '/' by {
        if k < dot {
            assert(stem.contains(stem[k]));
        } else if k > dot {
            assert(name[k] == ext[k - dot - 1]);
            assert(ext.contains(ext[k - dot - 1]));
        }
    }
    assert(!name.contains('/'));
    assert(name.len() >= 2);
    file_name_follows_last_slash(dir, name);
    last_position_is(name, '.');
    assert(name[dot] == '.');
    assert forall|k: int| dot < k < name.len() implies name[k] != '.' by {
        assert(name[k] == ext[k - dot - 1]);
        assert(ext.contains(ext[k - dot - 1]));
    }
    assert(last_position(name, '.') == dot);
    assert(name.skip(dot + 1) == ext);
    if !stem.contains('.') {
        if stem == seq!['.'] || stem == seq!['.', '.'] {
            assert(stem.contains(stem[0]));
        }
        file_name_follows_last_slash(dir, stem);
        last_position_is(stem, '.');
        if last_position(stem, '.') >= 0 {
            assert(stem.contains(stem[last_position(stem, '.')]));
        }
    }
    if ext.len() > 0 {
        let hidden = seq!['.'] + ext;
        assert forall|k: int| 0 <= k < hidden.len() implies hidden[k] != '/' by {
            if k > 0 {
                assert(hidden[k] == ext[k - 1]);
                assert(ext.contains(ext[k - 1]));
            }
        }
        assert(!hidden.contains('/'));
        assert(hidden[1] == ext[0]);
        assert(ext.contains(ext[0]));
        file_name_follows_last_slash(dir, hidden);
        last_position_is(hidden, '.');
        if last_position(hidden, '.') > 0 {
            let k = last_position(hidden, '.');
            assert(hidden[k] == ext[k - 1]);
            assert(ext.contains(ext[k - 1]));
        }
    }
}

proof fn spans_of_both(base: Seq<char>, rel: Seq<char>, i: int)
    requires
        0 <= i <= base.len(),
    ensures
        ({
            let p = base + seq!['/'] + rel;
            body_spans(p, i) == body_spans(base, i) + body_spans(p, base.len() as int + 1)
        }),
    decreases base.len() - i,
{
    let p = base + seq!['/'] + rel;
    let n = base.len() as int;
    assert(p[n] == '/');
    if i == n {
        piece_end_is(p, n, n);
        assert(body_spans(base, i).len() == 0);
        assert(body_spans(base, i) + body_spans(p, n + 1) == body_spans(p, n + 1));
    } else {
        piece_end_bounds(base, i);
        let e = piece_end(base, i);
        assert forall|k: int| i <= k < e implies p[k] != '/' by {
            assert(p[k] == base[k]);
        }
        assert(e < n ==> p[e] == base[e]);
        piece_end_is(p, i, e);
        assert(p[i] == base[i]);
        if e < n {
            spans_of_both(base, rel, e + 1);
        } else {
            assert(body_spans(base, e + 1).len() == 0);
            assert(body_spans(base, e + 1) + body_spans(p, n + 1) == body_spans(p, n + 1));
        }
        let more = body_spans(p, n + 1);
        assert(body_spans(p, e + 1) == body_spans(base, e + 1) + more);
        assert(seq![(i, e)] + (body_spans(base, e + 1) + more) == (seq![(i, e)] + body_spans(
            base,
            e + 1,
        )) + more);
    }
}

/// Whether no piece of `p` between slashes is a single point.
pub open spec fn without_points(p: Seq<char>) -> bool {
    forall|i: int|
        0 <= i < p.len() && #[trigger] p[i] == '.' && (i == 0 || p[i - 1] == '/') ==> i + 1 < p.len()
            && p[i + 1] != '/'
}

proof fn spans_reach_the_ends(p: Seq<char>, from: int, i: int)
    requires
        0 <= from <= i < p.len(),
        i == 0 || p[i - 1] == '/' || i == from,
        from == 0 || p[from - 1] == '/',
        p.last() != '/',
        without_points(p.skip(from)),
    ensures
        body_spans(p, i).len() > 0,
        body_spans(p, i).last().1 == p.len(),
        p[i] != '/' ==> body_spans(p, i)[0].0 == i,
    decreases p.len() - i,
{
    piece_end_bounds(p, i);
    let e = piece_end(p, i);
    let q = p.skip(from);
    assert(p[i] == q[i - from]);
    if e > i && e == i + 1 && p[i] == '.' {
        assert(i - from == 0 || q[i - from - 1] == p[i - 1]);
        assert(q[i - from] == '.');
        assert(q[i - from + 1] != '/' && i - from + 1 < q.len());
        assert(p[i + 1] == q[i - from + 1]);
        assert(p[e] != '/');
        assert(false);
    }
    if e < p.len() {
        assert(e + 1 < p.len()) by {
            if e + 1 == p.len() {
                assert(p.last() == p[e]);
            }
        }
        spans_reach_the_ends(p, from, e + 1);
    } else {
        assert(body_spans(p, e + 1).len() == 0);
    }
}

/// What lies below a directory is found there by the rest of its path: the directory is the root, or
/// does not end with a slash, and the rest neither starts nor ends with one and has no `.` among its
/// parts.
pub proof fn the_rest_is_relative(base: Seq<char>, rel: Seq<char>)
    requires
        rel.len() > 0,
        rel[0] != '/',
        rel.last() != '/',
        without_points(rel),
    ensures
        base.len() > 0 && base.last() != '/' ==> relative_to(base + seq!['/'] + rel, base) == Some(rel),
        relative_to(seq!['/'] + rel, seq!['/']) == Some(rel),
{
    if base.len() > 0 && base.last() != '/' {
        let p = base + seq!['/'] + rel;
        let n = base.len() as int;
        let from = n + 1;
        assert(p.skip(from) == rel);
        assert(p[from] == rel[0]);
        assert(p.last() == rel.last());
        spans_reach_the_ends(p, from, from);
        let more = body_spans(p, from);
        let start: int = if absolute(base) {
            1
        } else {
            0
        };
        assert(p[0] == base[0]);
        spans_of_both(base, rel, start);
        let head = spans(base);
        assert(spans(p) == head + more) by {
            if absolute(base) {
                assert(seq![(0int, 1int)] + (body_spans(base, 1) + more) == (seq![(0int, 1int)]
                    + body_spans(base, 1)) + more);
            }
        }
        spans_bounds(base);
        assert forall|k: int| 0 <= k < head.len() implies components(p)[k] == components(base)[k] by {
            assert(spans(p)[k] == head[k]);
            assert(p.subrange(head[k].0, head[k].1) == base.subrange(head[k].0, head[k].1));
        }
        assert(components(p).take(head.len() as int) == components(base));
        assert(spans(p)[head.len() as int] == more[0]);
        assert(spans(p).last() == more.last());
        assert(p.subrange(from, p.len() as int) == rel);
    }
    let p = seq!['/'] + rel;
    let root = seq!['/'];
    assert(p.skip(1) == rel);
    assert(p[1] == rel[0]);
    assert(p.last() == rel.last());
    spans_reach_the_ends(p, 1, 1);
    assert(body_spans(root, 1).len() == 0);
    assert(spans(root) == seq![(0int, 1int)]);
    assert(components(root).len() == 1);
    assert(components(p)[0] == p.subrange(0, 1));
    assert(components(root)[0] == root.subrange(0, 1));
    assert(p.subrange(0, 1) == root.subrange(0, 1));
    assert(components(p).take(1) == components(root));
    let more = body_spans(p, 1);
    assert(spans(p)[1] == more[0]);
    assert(spans(p).last() == more.last());
    assert(p.subrange(1, p.len() as int) == rel);
}

proof fn last_piece(p: Seq<char>, from: int)
    requires
        0 <= from <= p.len(),
        forall|k: int| from <= k < p.len() ==> p[k] != '/',
    ensures
        from == p.len() ==> body_spans(p, from).len() == 0,
        from < p.len() && is_component(p, from, p.len() as int) ==> body_spans(p, from) == seq![
            (from, p.len() as int),
        ],
        from < p.len() && !is_component(p, from, p.len() as int) ==> body_spans(p, from).len() == 0,
{
    if from < p.len() {
        piece_end_is(p, from, p.len() as int);
        assert(body_spans(p, p.len() as int + 1).len() == 0);
    }
}

/// A path is made of names, with slashes between them: what follows the last slash is a component of
/// its own behind those before it, unless it is empty or a point. A point counts only at the start of
/// a path, and a slash there is a component too.
pub proof fn paths_are_made_of_names(dir: Seq<char>, name: Seq<char>)
    requires
        !name.contains('/'),
    ensures
        dir.len() > 0 && name.len() > 0 && name != seq!['.'] ==> components(dir + seq!['/'] + name)
            == components(dir).push(name),
        dir.len() > 0 && (name.len() == 0 || name == seq!['.']) ==> components(
            dir + seq!['/'] + name,
        ) == components(dir),
        name.len() > 0 ==> components(name) == seq![name],
        name.len() > 0 && name != seq!['.'] ==> components(seq!['/'] + name) == seq![
            seq!['/'],
            name,
        ],
        components(seq!['/']) == seq![seq!['/']],
        components(Seq::empty()) == Seq::<Seq<char>>::empty(),
{
    assert forall|k: int| 0 <= k < name.len() implies name[k] != '/' by {
        assert(name.contains(name[k]));
    }
    last_piece(name, 0);
    if name.len() > 0 {
        assert(name.subrange(0, name.len() as int) == name);
        assert(components(name) == seq![name]);
    }
    let root = seq!['/'];
    last_piece(root, 1);
    assert(spans(root) == seq![(0int, 1int)]);
    assert(root.subrange(0, 1) == root);
    assert(components(root) == seq![root]);
    let below = root + name;
    last_piece(below, 1);
    if name.len() > 0 && name != seq!['.'] {
        assert(below.subrange(0, 1) == root);
        assert(below.subrange(1, below.len() as int) == name);
        if name.len() == 1 {
            assert(name == seq![name[0]]);
        }
        assert(components(below) == seq![root, name]);
    }
    if dir.len() > 0 {
        let p = dir + seq!['/'] + name;
        let n = dir.len() as int;
        let start: int = if absolute(dir) {
            1
        } else {
            0
        };
        assert(p[0] == dir[0]);
        spans_of_both(dir, name, start);
        assert forall|k: int| n + 1 <= k < p.len() implies p[k] != '/' by {
            assert(p[k] == name[k - n - 1]);
        }
        last_piece(p, n + 1);
        spans_bounds(dir);
        assert(p.subrange(n + 1, p.len() as int) == name);
        assert forall|k: int| 0 <= k < spans(dir).len() implies p.subrange(
            spans(dir)[k].0,
            spans(dir)[k].1,
        ) == dir.subrange(spans(dir)[k].0, spans(dir)[k].1) by {
        }
        if name.len() > 0 && name != seq!['.'] {
            if name.len() == 1 {
                assert(name == seq![name[0]]);
                assert(p[n + 1] == name[0]);
            }
            assert(spans(p) == spans(dir).push((n + 1, p.len() as int)));
            assert(components(p) == components(dir).push(name));
        } else {
            assert(body_spans(p, n + 1).len() == 0) by {
                if name.len() > 0 {
                    assert(p[n + 1] == name[0]);
                }
            }
            assert(spans(p) == spans(dir));
            assert(components(p) == components(dir));
        }
    }
}

/// Two texts name the same path where they are made of the same names, and a path lies under another
/// where it starts with its names.
pub proof fn the_same_names_make_the_same_path(a: Seq<char>, b: Seq<char>, k: int)
    ensures
        same_path(a, b) <==> components(a) == components(b),
        under(a, b) && 0 <= k < components(b).len() ==> components(a)[k] == components(b)[k],
        under(a, b) ==> components(a).len() >= components(b).len(),
        same_path(a, b) ==> under(a, b),
{
    if under(a, b) && 0 <= k < components(b).len() {
        assert(components(a).take(components(b).len() as int)[k] == components(a)[k]);
    }
    if same_path(a, b) {
        assert(components(a).take(components(b).len() as int) == components(a));
    }
}

/// A path stays the same with a slash behind it.
pub proof fn a_slash_behind_changes_nothing(p: Seq<char>)
    requires
        p.len() > 0,
    ensures
        same_path(p + seq!['/'], p),
        same_path(p, p + seq!['/']),
        same_path(p, p),
{
    let q = p + seq!['/'];
    let rel = Seq::<char>::empty();
    assert(p + seq!['/'] + rel == q);
    let start: int = if absolute(p) {
        1
    } else {
        0
    };
    assert(q[0] == p[0]);
    spans_of_both(p, rel, start);
    assert(body_spans(q, p.len() as int + 1).len() == 0);
    assert(body_spans(p, start) + body_spans(q, p.len() as int + 1) == body_spans(p, start));
    assert(spans(q) == spans(p));
    spans_bounds(p);
    assert forall|k: int| 0 <= k < spans(p).len() implies components(q)[k] == components(p)[k] by {
        let s = spans(p)[k];
        assert(q.subrange(s.0, s.1) == p.subrange(s.0, s.1));
    }
    assert(components(q) == components(p));
}

/// Whether `p` is written in the shortest way: no two slashes stand together, none at the end, and no
/// part is a single point.
pub open spec fn written_plainly(p: Seq<char>) -> bool {
    &&& p.len() > 0
    &&& p.last() != '/'
    &&& forall|i: int| 0 <= i < p.len() - 1 && #[trigger] p[i] == '/' ==> p[i + 1] != '/'
    &&& without_points(p)
}

proof fn same_parts_same_text(a: Seq<char>, i: int, b: Seq<char>, j: int)
    requires
        written_plainly(a),
        written_plainly(b),
        0 <= i < a.len(),
        0 <= j < b.len(),
        a[i] != '/',
        b[j] != '/',
        i == 0 || a[i - 1] == '/',
        j == 0 || b[j - 1] == '/',
        body_spans(a, i).map_values(|s: (int, int)| a.subrange(s.0, s.1)) == body_spans(
            b,
            j,
        ).map_values(|s: (int, int)| b.subrange(s.0, s.1)),
    ensures
        a.skip(i) == b.skip(j),
    decreases a.len() - i,
{
    let f = |s: (int, int)| a.subrange(s.0, s.1);
    let g = |s: (int, int)| b.subrange(s.0, s.1);
    piece_end_bounds(a, i);
    piece_end_bounds(b, j);
    let d = piece_end(a, i);
    let e = piece_end(b, j);
    assert(a[i] == '.' ==> a[i + 1] != '/' && i + 1 < a.len());
    assert(b[j] == '.' ==> b[j + 1] != '/' && j + 1 < b.len());
    let more_a = body_spans(a, d + 1);
    let more_b = body_spans(b, e + 1);
    let all_a = body_spans(a, i).map_values(f);
    let all_b = body_spans(b, j).map_values(g);
    assert(is_component(a, i, d));
    assert(is_component(b, j, e));
    assert(all_a[0] == a.subrange(i, d));
    assert(all_b[0] == b.subrange(j, e));
    assert(d - i == e - j);
    assert(all_a.drop_first() == more_a.map_values(f));
    assert(all_b.drop_first() == more_b.map_values(g));
    assert(more_a.len() == more_b.len());
    if d < a.len() {
        assert(a[d] == '/');
        assert(d + 1 < a.len()) by {
            if d + 1 == a.len() {
                assert(a.last() == a[d]);
            }
        }
        assert(a[d + 1] != '/');
        assert(a.skip(0) == a);
        spans_reach_the_ends(a, 0, d + 1);
    } else {
        assert(more_a.len() == 0);
    }
    if e < b.len() {
        assert(b[e] == '/');
        assert(e + 1 < b.len()) by {
            if e + 1 == b.len() {
                assert(b.last() == b[e]);
            }
        }
        assert(b[e + 1] != '/');
        assert(b.skip(0) == b);
        spans_reach_the_ends(b, 0, e + 1);
    } else {
        assert(more_b.len() == 0);
    }
    if d < a.len() {
        same_parts_same_text(a, d + 1, b, e + 1);
        assert(a.skip(i) == a.subrange(i, d) + seq!['/'] + a.skip(d + 1));
        assert(b.skip(j) == b.subrange(j, e) + seq!['/'] + b.skip(e + 1));
    } else {
        assert(a.skip(i) == a.subrange(i, d));
        assert(b.skip(j) == b.subrange(j, e));
    }
}

/// Two absolute paths that are written plainly are the same path only where they are the same text.
pub proof fn different_texts_are_different_paths(a: Seq<char>, b: Seq<char>)
    requires
        absolute(a),
        absolute(b),
        written_plainly(a),
        written_plainly(b),
        same_path(a, b),
    ensures
        a == b,
{
    let f = |s: (int, int)| a.subrange(s.0, s.1);
    let g = |s: (int, int)| b.subrange(s.0, s.1);
    assert(a.len() > 1) by {
        if a.len() == 1 {
            assert(a.last() == a[0]);
        }
    }
    assert(b.len() > 1) by {
        if b.len() == 1 {
            assert(b.last() == b[0]);
        }
    }
    assert(a[0] == '/' && a[1] != '/');
    assert(b[0] == '/' && b[1] != '/');
    assert(components(a).drop_first() == body_spans(a, 1).map_values(f));
    assert(components(b).drop_first() == body_spans(b, 1).map_values(g));
    same_parts_same_text(a, 1, b, 1);
    assert(a == seq!['/'] + a.skip(1));
    assert(b == seq!['/'] + b.skip(1));
}

} // verus!
